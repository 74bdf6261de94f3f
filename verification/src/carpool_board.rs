//! Carpool board: trips that riders each join once, confirmed and closed by their driver.
//!
//! Text values stand for the ledger's values: an id and a tag are the text
//! of a symbol, an account is the text form of an address. The caller has
//! already checked that the account acting in a call authorised it; `now` is
//! the ledger's timestamp at the call.
use vstd::prelude::*;
use crate::table::{
    texts, pair_texts, map_of, lemma_map_of, flags_for, flags_name_stored, Table, FlagSet,
    flags_counted, lemma_flags_counted_new, lemma_flags_counted_same, lemma_flags_counted_push,
};

verus! {

/// Where a trip stands.
#[derive(Clone, Copy, Debug, PartialEq, Eq, Structural)]
pub enum TripStatus {
    Open,
    Joined,
    Confirmed,
    Closed,
}

/// A trip.
#[derive(Debug)]
pub struct CarpoolTrip {
    pub driver: String,
    pub rider: String,
    pub title: String,
    pub details: String,
    pub tag: String,
    pub status: TripStatus,
    pub rider_count: u32,
    pub created_at: u64,
    pub updated_at: u64,
}

impl Clone for CarpoolTrip {
    fn clone(&self) -> (r: Self)
        ensures
            r == *self,
    {
        CarpoolTrip {
            driver: self.driver.clone(),
            rider: self.rider.clone(),
            title: self.title.clone(),
            details: self.details.clone(),
            tag: self.tag.clone(),
            status: self.status,
            rider_count: self.rider_count,
            created_at: self.created_at,
            updated_at: self.updated_at,
        }
    }
}

/// Why a call was refused.
#[derive(Clone, Copy, Debug, PartialEq, Eq, PartialOrd, Ord, Structural)]
pub enum CarpoolTripError {
    InvalidTitle,
    InvalidTimestamp,
    NotFound,
    Unauthorized,
    AlreadyExists,
    AlreadyActed,
    Closed,
}

impl CarpoolTripError {
    /// The number by which the ledger reports this error.
    pub open spec fn spec_code(self) -> u32 {
        match self {
            CarpoolTripError::InvalidTitle => 1,
            CarpoolTripError::InvalidTimestamp => 2,
            CarpoolTripError::NotFound => 3,
            CarpoolTripError::Unauthorized => 4,
            CarpoolTripError::AlreadyExists => 5,
            CarpoolTripError::AlreadyActed => 6,
            CarpoolTripError::Closed => 7,
        }
    }

    /// The number by which the ledger reports this error.
    pub fn code(&self) -> (c: u32)
        ensures
            c == self.spec_code(),
    {
        match self {
            CarpoolTripError::InvalidTitle => 1,
            CarpoolTripError::InvalidTimestamp => 2,
            CarpoolTripError::NotFound => 3,
            CarpoolTripError::Unauthorized => 4,
            CarpoolTripError::AlreadyExists => 5,
            CarpoolTripError::AlreadyActed => 6,
            CarpoolTripError::Closed => 7,
        }
    }
}

/// The number of accounts that have joined a trip.
pub open spec fn rider_count_of() -> spec_fn(CarpoolTrip) -> nat {
    |r: CarpoolTrip| r.rider_count as nat
}

/// The contract's storage: the trips by id, the id list, and a flag
/// for each account that has joined a trip.
pub struct CarpoolBoardContract {
    table: Table<CarpoolTrip>,
    acted: FlagSet,
}

impl CarpoolBoardContract {
    /// The storage is consistent: the id list and the trips agree,
    /// every flag names a stored trip, and the count of each trip is the
    /// number of flags that name it.
    pub closed spec fn wf(&self) -> bool {
        &&& self.table.wf()
        &&& self.acted.wf()
        &&& flags_counted(self.table.records(), self.acted.flags(), rider_count_of())
    }

    /// The trip stored under each id.
    pub closed spec fn records(&self) -> Map<Seq<char>, CarpoolTrip> {
        self.table.records()
    }

    /// The ids, in the order in which the trips were created.
    pub closed spec fn id_list(&self) -> Seq<Seq<char>> {
        self.table.order()
    }

    /// The (id, account) pairs for which the account has joined the trip,
    /// in the order in which they did.
    pub closed spec fn acted_flags(&self) -> Seq<(Seq<char>, Seq<char>)> {
        self.acted.flags()
    }

    /// What `create_trip` answers.
    pub open spec fn create_result(self, id: Seq<char>, title: Seq<char>, created_at: u64) -> Result<(), CarpoolTripError> {
        if title.len() == 0 {
            Err(CarpoolTripError::InvalidTitle)
        } else if created_at == 0 {
            Err(CarpoolTripError::InvalidTimestamp)
        } else if self.records().contains_key(id) {
            Err(CarpoolTripError::AlreadyExists)
        } else {
            Ok(())
        }
    }

    /// What `join_trip` answers.
    pub open spec fn act_result(self, id: Seq<char>, rider: Seq<char>) -> Result<(), CarpoolTripError> {
        if !self.records().contains_key(id) {
            Err(CarpoolTripError::NotFound)
        } else if self.records()[id].status == TripStatus::Closed {
            Err(CarpoolTripError::Closed)
        } else if self.acted_flags().contains((id, rider)) {
            Err(CarpoolTripError::AlreadyActed)
        } else {
            Ok(())
        }
    }

    /// What a call by `driver` that moves the trip `id` on answers.
    pub open spec fn driver_check(self, id: Seq<char>, driver: Seq<char>) -> Result<(), CarpoolTripError> {
        if !self.records().contains_key(id) {
            Err(CarpoolTripError::NotFound)
        } else if self.records()[id].driver@ != driver {
            Err(CarpoolTripError::Unauthorized)
        } else if self.records()[id].status == TripStatus::Closed {
            Err(CarpoolTripError::Closed)
        } else {
            Ok(())
        }
    }

    /// A contract with no trip.
    pub fn new() -> (c: Self)
        ensures
            c.wf(),
            c.records() == Map::<Seq<char>, CarpoolTrip>::empty(),
            c.id_list() == Seq::<Seq<char>>::empty(),
            c.acted_flags() == Seq::<(Seq<char>, Seq<char>)>::empty(),
    {
        CarpoolBoardContract { table: Table::new(), acted: FlagSet::new() }
    }

    /// The id list names each trip once and no other id; each account has
    /// joined a trip at most once; every flag names a stored trip; and the
    /// count of each trip is the number of accounts that have joined it.
    pub proof fn lemma_storage_consistent(&self)
        requires
            self.wf(),
        ensures
            self.id_list().no_duplicates(),
            forall|k: Seq<char>| #[trigger] self.records().contains_key(k) <==> self.id_list().contains(k),
            self.acted_flags().no_duplicates(),
            flags_counted(self.records(), self.acted_flags(), rider_count_of()),
    {
        self.table.lemma_order_matches_records();
        self.acted.lemma_set_once();
    }

    /// Whether stored parts describe a consistent contract: an id list
    /// without repeats, the trip stored under each id (in the same order),
    /// and flags, each set once, that name stored trips and number as
    /// many for each trip as its count.
    pub open spec fn storage_fits(
        ids: Seq<String>,
        records: Seq<CarpoolTrip>,
        acted: Seq<(String, String)>,
    ) -> bool {
        &&& ids.len() == records.len()
        &&& texts(ids).no_duplicates()
        &&& pair_texts(acted).no_duplicates()
        &&& flags_counted(map_of(ids, records), pair_texts(acted), rider_count_of())
    }

    /// Rebuilds the contract from its stored parts, or nothing when they are
    /// not consistent.
    pub fn from_storage(ids: Vec<String>, records: Vec<CarpoolTrip>, acted: Vec<(String, String)>) -> (r: Option<Self>)
        ensures
            r is Some <==> Self::storage_fits(ids@, records@, acted@),
            r matches Some(c) ==> {
                &&& c.wf()
                &&& c.records() == map_of(ids@, records@)
                &&& c.id_list() == texts(ids@)
                &&& c.acted_flags() == pair_texts(acted@)
            },
    {
        let ghost ids0 = ids@;
        let ghost records0 = records@;
        let ghost acted0 = acted@;
        let table = match Table::from_parts(ids, records) {
            Some(t) => t,
            None => return None,
        };
        let flags = match FlagSet::from_pairs(acted) {
            Some(f) => f,
            None => return None,
        };
        proof {
            lemma_map_of(ids0, records0);
        }
        if !flags_name_stored(&flags, &table) {
            return None;
        }
        let list = table.ids();
        let mut i: usize = 0;
        while i < list.len()
            invariant
                table.wf(),
                ids0 == ids@,
                records0 == records@,
                acted0 == acted@,
                table.records() == map_of(ids0, records0),
                flags.flags() == pair_texts(acted0),
                texts(list@) == table.order(),
                i <= list.len(),
                forall|j: int|
                    0 <= j < i ==> rider_count_of()(table.records()[#[trigger] texts(list@)[j]])
                        == flags_for(flags.flags(), texts(list@)[j]),
            decreases list.len() - i,
        {
            assert(texts(list@)[i as int] == list@[i as int]@);
            assert(table.order().contains(list@[i as int]@));
            proof {
                table.lemma_order_matches_records();
            }
            let n = match table.get(&list[i]) {
                Some(found) => found.rider_count,
                None => 0,
            };
            if n as usize != flags.count_for(&list[i]) {
                assert(table.records().contains_key(list@[i as int]@));
                assert(rider_count_of()(table.records()[list@[i as int]@]) != flags_for(
                    flags.flags(),
                    list@[i as int]@,
                ));
                return None;
            }
            i += 1;
        }
        proof {
            table.lemma_order_matches_records();
            assert forall|k: Seq<char>| #[trigger] table.records().contains_key(k) implies rider_count_of()(
                table.records()[k],
            ) == flags_for(flags.flags(), k) by {
                let j = choose|j: int| 0 <= j < texts(list@).len() && texts(list@)[j] == k;
            }
        }
        Some(CarpoolBoardContract { table, acted: flags })
    }

    /// What the contract stores can always be read back: its id list, the
    /// trip stored under each id in the same order, and its flags are parts
    /// that `from_storage` accepts and rebuilds the same contract from.
    pub proof fn lemma_storage_reads_back(
        self,
        ids: Seq<String>,
        records: Seq<CarpoolTrip>,
        acted: Seq<(String, String)>,
    )
        requires
            self.wf(),
            texts(ids) == self.id_list(),
            records.len() == ids.len(),
            forall|i: int| #![trigger records[i]] 0 <= i < ids.len() ==> records[i] == self.records()[ids[i]@],
            pair_texts(acted) == self.acted_flags(),
        ensures
            Self::storage_fits(ids, records, acted),
            map_of(ids, records) == self.records(),
    {
        self.table.lemma_reads_back(ids, records);
        self.acted.lemma_set_once();
    }

    /// The (id, account) pairs for which the account has joined the trip,
    /// in the order in which they did.
    pub fn acted_pairs(&self) -> (r: Vec<(String, String)>)
        ensures
            pair_texts(r@) == self.acted_flags(),
    {
        self.acted.pairs()
    }

    /// A closed trip is final: acting on it, marking it confirmed and
    /// marking it closed are all refused, whoever calls.
    pub proof fn lemma_closed_is_final(self, id: Seq<char>, who: Seq<char>)
        requires
            self.records().contains_key(id),
            self.records()[id].status == TripStatus::Closed,
        ensures
            self.act_result(id, who) is Err,
            self.driver_check(id, who) is Err,
    {
    }

    /// Any account that has not yet acted on a trip may act on it, its
    /// driver included: `join_trip` is accepted exactly when the trip exists,
    /// is not closed, and the caller has not acted on it before.
    pub proof fn lemma_any_account_acts_once(self, id: Seq<char>, who: Seq<char>)
        ensures
            self.act_result(id, who) is Ok <==> (self.records().contains_key(id) && self.records()[id].status
                != TripStatus::Closed && !self.acted_flags().contains((id, who))),
    {
    }

    /// Only the driver of a trip moves it on, and only until it is
    /// closed: such a call is accepted exactly when the trip exists,
    /// the caller is its driver, and it is not closed.
    pub proof fn lemma_only_driver_moves_on(self, id: Seq<char>, who: Seq<char>)
        ensures
            self.driver_check(id, who) is Ok <==> (self.records().contains_key(id) && self.records()[id].driver@
                == who && self.records()[id].status != TripStatus::Closed),
    {
    }

    /// Why a call is refused. A trip is created only with a title and a
    /// creation time, under an id not yet used, the title being checked
    /// first. A call naming no stored trip is refused as not found; a call
    /// to move a trip on by anyone but its driver is refused as
    /// unauthorized; a trip that is closed refuses acting and moving on
    /// as closed; and an account that has acted on a trip already is
    /// refused as having acted.
    pub proof fn lemma_refusals(self, id: Seq<char>, who: Seq<char>, title: Seq<char>, created_at: u64)
        ensures
            title.len() == 0 ==> self.create_result(id, title, created_at) == Err::<(), CarpoolTripError>(
                CarpoolTripError::InvalidTitle,
            ),
            title.len() > 0 && created_at == 0 ==> self.create_result(id, title, created_at) == Err::<
                (),
                CarpoolTripError,
            >(CarpoolTripError::InvalidTimestamp),
            title.len() > 0 && created_at != 0 && self.records().contains_key(id) ==> self.create_result(
                id,
                title,
                created_at,
            ) == Err::<(), CarpoolTripError>(CarpoolTripError::AlreadyExists),
            !self.records().contains_key(id) ==> self.act_result(id, who) == Err::<(), CarpoolTripError>(
                CarpoolTripError::NotFound,
            ) && self.driver_check(id, who) == Err::<(), CarpoolTripError>(CarpoolTripError::NotFound),
            self.records().contains_key(id) && self.records()[id].driver@ != who ==> self.driver_check(id, who)
                == Err::<(), CarpoolTripError>(CarpoolTripError::Unauthorized),
            self.records().contains_key(id) && self.records()[id].status == TripStatus::Closed ==> self.act_result(
                id,
                who,
            ) == Err::<(), CarpoolTripError>(CarpoolTripError::Closed) && (self.records()[id].driver@ == who ==> self.driver_check(
                id,
                who,
            ) == Err::<(), CarpoolTripError>(CarpoolTripError::Closed)),
            self.records().contains_key(id) && self.records()[id].status != TripStatus::Closed
                && self.acted_flags().contains((id, who)) ==> self.act_result(id, who) == Err::<(), CarpoolTripError>(
                CarpoolTripError::AlreadyActed,
            ),
    {
    }

    /// Creates the trip `id`, held by `driver` (who is also its last
    /// rider), in status open, with a count of zero, created (and
    /// last updated) at `created_at`; the id goes to the end of the id list.
    pub fn create_trip(
        &mut self,
        id: String,
        driver: String,
        title: String,
        details: String,
        tag: String,
        created_at: u64,
    ) -> (r: Result<(), CarpoolTripError>)
        requires
            old(self).wf(),
        ensures
            final(self).wf(),
            r == old(self).create_result(id@, title@, created_at),
            r is Err ==> *final(self) == *old(self),
            r is Ok ==> {
                &&& final(self).records() == old(self).records().insert(
                    id@,
                    (CarpoolTrip {
                        driver: driver,
                        rider: driver,
                        title,
                        details,
                        tag,
                        status: TripStatus::Open,
                        rider_count: 0,
                        created_at,
                        updated_at: created_at,
                    }),
                )
                &&& final(self).id_list() == old(self).id_list().push(id@)
                &&& final(self).acted_flags() == old(self).acted_flags()
            },
    {
        if title.as_str().is_empty() {
            return Err(CarpoolTripError::InvalidTitle);
        }
        if created_at == 0 {
            return Err(CarpoolTripError::InvalidTimestamp);
        }
        if self.table.contains(&id) {
            return Err(CarpoolTripError::AlreadyExists);
        }
        let record = CarpoolTrip {
            driver: driver.clone(),
            rider: driver,
            title,
            details,
            tag,
            status: TripStatus::Open,
            rider_count: 0,
            created_at,
            updated_at: created_at,
        };
        proof {
            lemma_flags_counted_new(self.table.records(), self.acted.flags(), rider_count_of(), id@, record);
        }
        self.table.push(id, record);
        Ok(())
    }

    /// Records that the calling account has joined the trip `id`: they become its last
    /// rider, its count grows by one, its status becomes joined, and
    /// `now` is recorded as the time of the update. Each account may do so
    /// once per trip.
    pub fn join_trip(&mut self, id: String, rider: String, now: u64) -> (r: Result<(), CarpoolTripError>)
        requires
            old(self).wf(),
            old(self).act_result(id@, rider@) is Ok ==> old(self).records()[id@].rider_count < u32::MAX,
        ensures
            final(self).wf(),
            r == old(self).act_result(id@, rider@),
            r is Err ==> *final(self) == *old(self),
            r is Ok ==> {
                &&& final(self).records() == old(self).records().insert(
                    id@,
                    (CarpoolTrip {
                        rider: rider,
                        rider_count: (old(self).records()[id@].rider_count + 1) as u32,
                        status: TripStatus::Joined,
                        updated_at: now,
                        ..old(self).records()[id@]
                    }),
                )
                &&& final(self).id_list() == old(self).id_list()
                &&& final(self).acted_flags() == old(self).acted_flags().push((id@, rider@))
            },
    {
        let mut record = match self.table.get(&id) {
            Some(found) => found.clone(),
            None => return Err(CarpoolTripError::NotFound),
        };
        if record.status == TripStatus::Closed {
            return Err(CarpoolTripError::Closed);
        }
        if self.acted.contains(&id, &rider) {
            return Err(CarpoolTripError::AlreadyActed);
        }
        record.rider = rider.clone();
        record.rider_count = record.rider_count + 1;
        record.status = TripStatus::Joined;
        record.updated_at = now;
        proof {
            lemma_flags_counted_push(
                self.table.records(),
                self.acted.flags(),
                rider_count_of(),
                id@,
                rider@,
                record,
            );
        }
        self.table.set(&id, record);
        self.acted.insert(id, rider);
        Ok(())
    }

    /// Moves the trip `id` to `status` on behalf of its driver,
    /// recording `now` as the time of the update.
    fn move_to(&mut self, id: String, driver: String, status: TripStatus, now: u64) -> (r: Result<(), CarpoolTripError>)
        requires
            old(self).wf(),
        ensures
            final(self).wf(),
            r == old(self).driver_check(id@, driver@),
            r is Err ==> *final(self) == *old(self),
            r is Ok ==> {
                &&& final(self).records() == old(self).records().insert(
                    id@,
                    (CarpoolTrip { status, updated_at: now, ..old(self).records()[id@] }),
                )
                &&& final(self).id_list() == old(self).id_list()
                &&& final(self).acted_flags() == old(self).acted_flags()
            },
    {
        let mut record = match self.table.get(&id) {
            Some(found) => found.clone(),
            None => return Err(CarpoolTripError::NotFound),
        };
        if !(record.driver == driver) {
            return Err(CarpoolTripError::Unauthorized);
        }
        if record.status == TripStatus::Closed {
            return Err(CarpoolTripError::Closed);
        }
        record.status = status;
        record.updated_at = now;
        proof {
            lemma_flags_counted_same(self.table.records(), self.acted.flags(), rider_count_of(), id@, record);
        }
        self.table.set(&id, record);
        Ok(())
    }

    /// Marks the trip `id` confirmed on behalf of its driver, recording
    /// `now` as the time of the update.
    pub fn confirm_trip(&mut self, id: String, driver: String, now: u64) -> (r: Result<(), CarpoolTripError>)
        requires
            old(self).wf(),
        ensures
            final(self).wf(),
            r == old(self).driver_check(id@, driver@),
            r is Err ==> *final(self) == *old(self),
            r is Ok ==> {
                &&& final(self).records() == old(self).records().insert(
                    id@,
                    (CarpoolTrip { status: TripStatus::Confirmed, updated_at: now, ..old(self).records()[id@] }),
                )
                &&& final(self).id_list() == old(self).id_list()
                &&& final(self).acted_flags() == old(self).acted_flags()
            },
    {
        self.move_to(id, driver, TripStatus::Confirmed, now)
    }

    /// Marks the trip `id` closed, for good, on behalf of its
    /// driver, recording `now` as the time of the update.
    pub fn close_trip(&mut self, id: String, driver: String, now: u64) -> (r: Result<(), CarpoolTripError>)
        requires
            old(self).wf(),
        ensures
            final(self).wf(),
            r == old(self).driver_check(id@, driver@),
            r is Err ==> *final(self) == *old(self),
            r is Ok ==> {
                &&& final(self).records() == old(self).records().insert(
                    id@,
                    (CarpoolTrip { status: TripStatus::Closed, updated_at: now, ..old(self).records()[id@] }),
                )
                &&& final(self).id_list() == old(self).id_list()
                &&& final(self).acted_flags() == old(self).acted_flags()
            },
    {
        self.move_to(id, driver, TripStatus::Closed, now)
    }

    /// The trip stored under `id`, if any.
    pub fn get_trip(&self, id: String) -> (r: Option<CarpoolTrip>)
        requires
            self.wf(),
        ensures
            r == (if self.records().contains_key(id@) {
                Some(self.records()[id@])
            } else {
                None
            }),
    {
        match self.table.get(&id) {
            Some(found) => Some(found.clone()),
            None => None,
        }
    }

    /// The ids, in the order in which the trips were created.
    pub fn list_trips(&self) -> (r: Vec<String>)
        requires
            self.wf(),
        ensures
            texts(r@) == self.id_list(),
    {
        self.table.ids()
    }

    /// The count of the trip `id`, or zero if there is no such trip.
    pub fn get_rider_count(&self, id: String) -> (r: u32)
        requires
            self.wf(),
        ensures
            r == (if self.records().contains_key(id@) {
                self.records()[id@].rider_count
            } else {
                0
            }),
    {
        match self.table.get(&id) {
            Some(found) => found.rider_count,
            None => 0,
        }
    }
}

} // verus!
