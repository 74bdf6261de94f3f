//! Pledge campaign: campaigns to which supporters each make one pledge, confirmed and closed by their organizer.
//!
//! Text values stand for the ledger's values: an id and a tag are the text
//! of a symbol, an account is the text form of an address. The caller has
//! already checked that the account acting in a call authorised it; `now` is
//! the ledger's timestamp at the call.
use vstd::prelude::*;
use crate::table::{
    texts, pair_texts, map_of, lemma_map_of, flags_for, flags_name_stored, Table, FlagSet,
    flags_counted, lemma_flags_counted_new, lemma_flags_counted_same, lemma_flags_counted_push,
};

verus! {

/// Where a campaign stands.
#[derive(Clone, Copy, Debug, PartialEq, Eq, Structural)]
pub enum PledgeStatus {
    Open,
    Pledged,
    Confirmed,
    Closed,
}

/// A campaign.
#[derive(Debug)]
pub struct PledgeRecord {
    pub organizer: String,
    pub supporter: String,
    pub title: String,
    pub details: String,
    pub tag: String,
    pub status: PledgeStatus,
    pub pledge_count: u32,
    pub created_at: u64,
    pub updated_at: u64,
}

impl Clone for PledgeRecord {
    fn clone(&self) -> (r: Self)
        ensures
            r == *self,
    {
        PledgeRecord {
            organizer: self.organizer.clone(),
            supporter: self.supporter.clone(),
            title: self.title.clone(),
            details: self.details.clone(),
            tag: self.tag.clone(),
            status: self.status,
            pledge_count: self.pledge_count,
            created_at: self.created_at,
            updated_at: self.updated_at,
        }
    }
}

/// Why a call was refused.
#[derive(Clone, Copy, Debug, PartialEq, Eq, PartialOrd, Ord, Structural)]
pub enum PledgeRecordError {
    InvalidTitle,
    InvalidTimestamp,
    NotFound,
    Unauthorized,
    AlreadyExists,
    AlreadyActed,
    Closed,
}

impl PledgeRecordError {
    /// The number by which the ledger reports this error.
    pub open spec fn spec_code(self) -> u32 {
        match self {
            PledgeRecordError::InvalidTitle => 1,
            PledgeRecordError::InvalidTimestamp => 2,
            PledgeRecordError::NotFound => 3,
            PledgeRecordError::Unauthorized => 4,
            PledgeRecordError::AlreadyExists => 5,
            PledgeRecordError::AlreadyActed => 6,
            PledgeRecordError::Closed => 7,
        }
    }

    /// The number by which the ledger reports this error.
    pub fn code(&self) -> (c: u32)
        ensures
            c == self.spec_code(),
    {
        match self {
            PledgeRecordError::InvalidTitle => 1,
            PledgeRecordError::InvalidTimestamp => 2,
            PledgeRecordError::NotFound => 3,
            PledgeRecordError::Unauthorized => 4,
            PledgeRecordError::AlreadyExists => 5,
            PledgeRecordError::AlreadyActed => 6,
            PledgeRecordError::Closed => 7,
        }
    }
}

/// The number of accounts that have pledged to a campaign.
pub open spec fn pledge_count_of() -> spec_fn(PledgeRecord) -> nat {
    |r: PledgeRecord| r.pledge_count as nat
}

/// The contract's storage: the campaigns by id, the id list, and a flag
/// for each account that has pledged to a campaign.
pub struct PledgeCampaignContract {
    table: Table<PledgeRecord>,
    acted: FlagSet,
}

impl PledgeCampaignContract {
    /// The storage is consistent: the id list and the campaigns agree,
    /// every flag names a stored campaign, and the count of each campaign is the
    /// number of flags that name it.
    pub closed spec fn wf(&self) -> bool {
        &&& self.table.wf()
        &&& self.acted.wf()
        &&& flags_counted(self.table.records(), self.acted.flags(), pledge_count_of())
    }

    /// The campaign stored under each id.
    pub closed spec fn records(&self) -> Map<Seq<char>, PledgeRecord> {
        self.table.records()
    }

    /// The ids, in the order in which the campaigns were created.
    pub closed spec fn id_list(&self) -> Seq<Seq<char>> {
        self.table.order()
    }

    /// The (id, account) pairs for which the account has pledged to the campaign,
    /// in the order in which they did.
    pub closed spec fn acted_flags(&self) -> Seq<(Seq<char>, Seq<char>)> {
        self.acted.flags()
    }

    /// What `create_pledge` answers.
    pub open spec fn create_result(self, id: Seq<char>, title: Seq<char>, created_at: u64) -> Result<(), PledgeRecordError> {
        if title.len() == 0 {
            Err(PledgeRecordError::InvalidTitle)
        } else if created_at == 0 {
            Err(PledgeRecordError::InvalidTimestamp)
        } else if self.records().contains_key(id) {
            Err(PledgeRecordError::AlreadyExists)
        } else {
            Ok(())
        }
    }

    /// What `make_pledge` answers.
    pub open spec fn act_result(self, id: Seq<char>, supporter: Seq<char>) -> Result<(), PledgeRecordError> {
        if !self.records().contains_key(id) {
            Err(PledgeRecordError::NotFound)
        } else if self.records()[id].status == PledgeStatus::Closed {
            Err(PledgeRecordError::Closed)
        } else if self.acted_flags().contains((id, supporter)) {
            Err(PledgeRecordError::AlreadyActed)
        } else {
            Ok(())
        }
    }

    /// What a call by `organizer` that moves the campaign `id` on answers.
    pub open spec fn organizer_check(self, id: Seq<char>, organizer: Seq<char>) -> Result<(), PledgeRecordError> {
        if !self.records().contains_key(id) {
            Err(PledgeRecordError::NotFound)
        } else if self.records()[id].organizer@ != organizer {
            Err(PledgeRecordError::Unauthorized)
        } else if self.records()[id].status == PledgeStatus::Closed {
            Err(PledgeRecordError::Closed)
        } else {
            Ok(())
        }
    }

    /// A contract with no campaign.
    pub fn new() -> (c: Self)
        ensures
            c.wf(),
            c.records() == Map::<Seq<char>, PledgeRecord>::empty(),
            c.id_list() == Seq::<Seq<char>>::empty(),
            c.acted_flags() == Seq::<(Seq<char>, Seq<char>)>::empty(),
    {
        PledgeCampaignContract { table: Table::new(), acted: FlagSet::new() }
    }

    /// The id list names each campaign once and no other id; each account has
    /// pledged to a campaign at most once; every flag names a stored campaign; and the
    /// count of each campaign is the number of accounts that have pledged to it.
    pub proof fn lemma_storage_consistent(&self)
        requires
            self.wf(),
        ensures
            self.id_list().no_duplicates(),
            forall|k: Seq<char>| #[trigger] self.records().contains_key(k) <==> self.id_list().contains(k),
            self.acted_flags().no_duplicates(),
            flags_counted(self.records(), self.acted_flags(), pledge_count_of()),
    {
        self.table.lemma_order_matches_records();
        self.acted.lemma_set_once();
    }

    /// Whether stored parts describe a consistent contract: an id list
    /// without repeats, the campaign stored under each id (in the same order),
    /// and flags, each set once, that name stored campaigns and number as
    /// many for each campaign as its count.
    pub open spec fn storage_fits(
        ids: Seq<String>,
        records: Seq<PledgeRecord>,
        acted: Seq<(String, String)>,
    ) -> bool {
        &&& ids.len() == records.len()
        &&& texts(ids).no_duplicates()
        &&& pair_texts(acted).no_duplicates()
        &&& flags_counted(map_of(ids, records), pair_texts(acted), pledge_count_of())
    }

    /// Rebuilds the contract from its stored parts, or nothing when they are
    /// not consistent.
    pub fn from_storage(ids: Vec<String>, records: Vec<PledgeRecord>, acted: Vec<(String, String)>) -> (r: Option<Self>)
        ensures
            r is Some <==> Self::storage_fits(ids@, records@, acted@),
            r matches Some(c) ==> {
                &&& c.wf()
                &&& c.records() == map_of(ids@, records@)
                &&& c.id_list() == texts(ids@)
                &&& c.acted_flags() == pair_texts(acted@)
            },
    {
        let ghost ids0 = ids@;
        let ghost records0 = records@;
        let ghost acted0 = acted@;
        let table = match Table::from_parts(ids, records) {
            Some(t) => t,
            None => return None,
        };
        let flags = match FlagSet::from_pairs(acted) {
            Some(f) => f,
            None => return None,
        };
        proof {
            lemma_map_of(ids0, records0);
        }
        if !flags_name_stored(&flags, &table) {
            return None;
        }
        let list = table.ids();
        let mut i: usize = 0;
        while i < list.len()
            invariant
                table.wf(),
                ids0 == ids@,
                records0 == records@,
                acted0 == acted@,
                table.records() == map_of(ids0, records0),
                flags.flags() == pair_texts(acted0),
                texts(list@) == table.order(),
                i <= list.len(),
                forall|j: int|
                    0 <= j < i ==> pledge_count_of()(table.records()[#[trigger] texts(list@)[j]])
                        == flags_for(flags.flags(), texts(list@)[j]),
            decreases list.len() - i,
        {
            assert(texts(list@)[i as int] == list@[i as int]@);
            assert(table.order().contains(list@[i as int]@));
            proof {
                table.lemma_order_matches_records();
            }
            let n = match table.get(&list[i]) {
                Some(found) => found.pledge_count,
                None => 0,
            };
            if n as usize != flags.count_for(&list[i]) {
                assert(table.records().contains_key(list@[i as int]@));
                assert(pledge_count_of()(table.records()[list@[i as int]@]) != flags_for(
                    flags.flags(),
                    list@[i as int]@,
                ));
                return None;
            }
            i += 1;
        }
        proof {
            table.lemma_order_matches_records();
            assert forall|k: Seq<char>| #[trigger] table.records().contains_key(k) implies pledge_count_of()(
                table.records()[k],
            ) == flags_for(flags.flags(), k) by {
                let j = choose|j: int| 0 <= j < texts(list@).len() && texts(list@)[j] == k;
            }
        }
        Some(PledgeCampaignContract { table, acted: flags })
    }

    /// What the contract stores can always be read back: its id list, the
    /// campaign stored under each id in the same order, and its flags are parts
    /// that `from_storage` accepts and rebuilds the same contract from.
    pub proof fn lemma_storage_reads_back(
        self,
        ids: Seq<String>,
        records: Seq<PledgeRecord>,
        acted: Seq<(String, String)>,
    )
        requires
            self.wf(),
            texts(ids) == self.id_list(),
            records.len() == ids.len(),
            forall|i: int| #![trigger records[i]] 0 <= i < ids.len() ==> records[i] == self.records()[ids[i]@],
            pair_texts(acted) == self.acted_flags(),
        ensures
            Self::storage_fits(ids, records, acted),
            map_of(ids, records) == self.records(),
    {
        self.table.lemma_reads_back(ids, records);
        self.acted.lemma_set_once();
    }

    /// The (id, account) pairs for which the account has pledged to the campaign,
    /// in the order in which they did.
    pub fn acted_pairs(&self) -> (r: Vec<(String, String)>)
        ensures
            pair_texts(r@) == self.acted_flags(),
    {
        self.acted.pairs()
    }

    /// A closed campaign is final: acting on it, marking it confirmed and
    /// marking it closed are all refused, whoever calls.
    pub proof fn lemma_closed_is_final(self, id: Seq<char>, who: Seq<char>)
        requires
            self.records().contains_key(id),
            self.records()[id].status == PledgeStatus::Closed,
        ensures
            self.act_result(id, who) is Err,
            self.organizer_check(id, who) is Err,
    {
    }

    /// Any account that has not yet acted on a campaign may act on it, its
    /// organizer included: `make_pledge` is accepted exactly when the campaign exists,
    /// is not closed, and the caller has not acted on it before.
    pub proof fn lemma_any_account_acts_once(self, id: Seq<char>, who: Seq<char>)
        ensures
            self.act_result(id, who) is Ok <==> (self.records().contains_key(id) && self.records()[id].status
                != PledgeStatus::Closed && !self.acted_flags().contains((id, who))),
    {
    }

    /// Only the organizer of a campaign moves it on, and only until it is
    /// closed: such a call is accepted exactly when the campaign exists,
    /// the caller is its organizer, and it is not closed.
    pub proof fn lemma_only_organizer_moves_on(self, id: Seq<char>, who: Seq<char>)
        ensures
            self.organizer_check(id, who) is Ok <==> (self.records().contains_key(id) && self.records()[id].organizer@
                == who && self.records()[id].status != PledgeStatus::Closed),
    {
    }

    /// Why a call is refused. A campaign is created only with a title and a
    /// creation time, under an id not yet used, the title being checked
    /// first. A call naming no stored campaign is refused as not found; a call
    /// to move a campaign on by anyone but its organizer is refused as
    /// unauthorized; a campaign that is closed refuses acting and moving on
    /// as closed; and an account that has acted on a campaign already is
    /// refused as having acted.
    pub proof fn lemma_refusals(self, id: Seq<char>, who: Seq<char>, title: Seq<char>, created_at: u64)
        ensures
            title.len() == 0 ==> self.create_result(id, title, created_at) == Err::<(), PledgeRecordError>(
                PledgeRecordError::InvalidTitle,
            ),
            title.len() > 0 && created_at == 0 ==> self.create_result(id, title, created_at) == Err::<
                (),
                PledgeRecordError,
            >(PledgeRecordError::InvalidTimestamp),
            title.len() > 0 && created_at != 0 && self.records().contains_key(id) ==> self.create_result(
                id,
                title,
                created_at,
            ) == Err::<(), PledgeRecordError>(PledgeRecordError::AlreadyExists),
            !self.records().contains_key(id) ==> self.act_result(id, who) == Err::<(), PledgeRecordError>(
                PledgeRecordError::NotFound,
            ) && self.organizer_check(id, who) == Err::<(), PledgeRecordError>(PledgeRecordError::NotFound),
            self.records().contains_key(id) && self.records()[id].organizer@ != who ==> self.organizer_check(id, who)
                == Err::<(), PledgeRecordError>(PledgeRecordError::Unauthorized),
            self.records().contains_key(id) && self.records()[id].status == PledgeStatus::Closed ==> self.act_result(
                id,
                who,
            ) == Err::<(), PledgeRecordError>(PledgeRecordError::Closed) && (self.records()[id].organizer@ == who ==> self.organizer_check(
                id,
                who,
            ) == Err::<(), PledgeRecordError>(PledgeRecordError::Closed)),
            self.records().contains_key(id) && self.records()[id].status != PledgeStatus::Closed
                && self.acted_flags().contains((id, who)) ==> self.act_result(id, who) == Err::<(), PledgeRecordError>(
                PledgeRecordError::AlreadyActed,
            ),
    {
    }

    /// Creates the campaign `id`, held by `organizer` (who is also its last
    /// supporter), in status open, with a count of zero, created (and
    /// last updated) at `created_at`; the id goes to the end of the id list.
    pub fn create_pledge(
        &mut self,
        id: String,
        organizer: String,
        title: String,
        details: String,
        tag: String,
        created_at: u64,
    ) -> (r: Result<(), PledgeRecordError>)
        requires
            old(self).wf(),
        ensures
            final(self).wf(),
            r == old(self).create_result(id@, title@, created_at),
            r is Err ==> *final(self) == *old(self),
            r is Ok ==> {
                &&& final(self).records() == old(self).records().insert(
                    id@,
                    (PledgeRecord {
                        organizer: organizer,
                        supporter: organizer,
                        title,
                        details,
                        tag,
                        status: PledgeStatus::Open,
                        pledge_count: 0,
                        created_at,
                        updated_at: created_at,
                    }),
                )
                &&& final(self).id_list() == old(self).id_list().push(id@)
                &&& final(self).acted_flags() == old(self).acted_flags()
            },
    {
        if title.as_str().is_empty() {
            return Err(PledgeRecordError::InvalidTitle);
        }
        if created_at == 0 {
            return Err(PledgeRecordError::InvalidTimestamp);
        }
        if self.table.contains(&id) {
            return Err(PledgeRecordError::AlreadyExists);
        }
        let record = PledgeRecord {
            organizer: organizer.clone(),
            supporter: organizer,
            title,
            details,
            tag,
            status: PledgeStatus::Open,
            pledge_count: 0,
            created_at,
            updated_at: created_at,
        };
        proof {
            lemma_flags_counted_new(self.table.records(), self.acted.flags(), pledge_count_of(), id@, record);
        }
        self.table.push(id, record);
        Ok(())
    }

    /// Records that the calling account has pledged to the campaign `id`: they become its last
    /// supporter, its count grows by one, its status becomes pledged, and
    /// `now` is recorded as the time of the update. Each account may do so
    /// once per campaign.
    pub fn make_pledge(&mut self, id: String, supporter: String, now: u64) -> (r: Result<(), PledgeRecordError>)
        requires
            old(self).wf(),
            old(self).act_result(id@, supporter@) is Ok ==> old(self).records()[id@].pledge_count < u32::MAX,
        ensures
            final(self).wf(),
            r == old(self).act_result(id@, supporter@),
            r is Err ==> *final(self) == *old(self),
            r is Ok ==> {
                &&& final(self).records() == old(self).records().insert(
                    id@,
                    (PledgeRecord {
                        supporter: supporter,
                        pledge_count: (old(self).records()[id@].pledge_count + 1) as u32,
                        status: PledgeStatus::Pledged,
                        updated_at: now,
                        ..old(self).records()[id@]
                    }),
                )
                &&& final(self).id_list() == old(self).id_list()
                &&& final(self).acted_flags() == old(self).acted_flags().push((id@, supporter@))
            },
    {
        let mut record = match self.table.get(&id) {
            Some(found) => found.clone(),
            None => return Err(PledgeRecordError::NotFound),
        };
        if record.status == PledgeStatus::Closed {
            return Err(PledgeRecordError::Closed);
        }
        if self.acted.contains(&id, &supporter) {
            return Err(PledgeRecordError::AlreadyActed);
        }
        record.supporter = supporter.clone();
        record.pledge_count = record.pledge_count + 1;
        record.status = PledgeStatus::Pledged;
        record.updated_at = now;
        proof {
            lemma_flags_counted_push(
                self.table.records(),
                self.acted.flags(),
                pledge_count_of(),
                id@,
                supporter@,
                record,
            );
        }
        self.table.set(&id, record);
        self.acted.insert(id, supporter);
        Ok(())
    }

    /// Moves the campaign `id` to `status` on behalf of its organizer,
    /// recording `now` as the time of the update.
    fn move_to(&mut self, id: String, organizer: String, status: PledgeStatus, now: u64) -> (r: Result<(), PledgeRecordError>)
        requires
            old(self).wf(),
        ensures
            final(self).wf(),
            r == old(self).organizer_check(id@, organizer@),
            r is Err ==> *final(self) == *old(self),
            r is Ok ==> {
                &&& final(self).records() == old(self).records().insert(
                    id@,
                    (PledgeRecord { status, updated_at: now, ..old(self).records()[id@] }),
                )
                &&& final(self).id_list() == old(self).id_list()
                &&& final(self).acted_flags() == old(self).acted_flags()
            },
    {
        let mut record = match self.table.get(&id) {
            Some(found) => found.clone(),
            None => return Err(PledgeRecordError::NotFound),
        };
        if !(record.organizer == organizer) {
            return Err(PledgeRecordError::Unauthorized);
        }
        if record.status == PledgeStatus::Closed {
            return Err(PledgeRecordError::Closed);
        }
        record.status = status;
        record.updated_at = now;
        proof {
            lemma_flags_counted_same(self.table.records(), self.acted.flags(), pledge_count_of(), id@, record);
        }
        self.table.set(&id, record);
        Ok(())
    }

    /// Marks the campaign `id` confirmed on behalf of its organizer, recording
    /// `now` as the time of the update.
    pub fn confirm_pledge(&mut self, id: String, organizer: String, now: u64) -> (r: Result<(), PledgeRecordError>)
        requires
            old(self).wf(),
        ensures
            final(self).wf(),
            r == old(self).organizer_check(id@, organizer@),
            r is Err ==> *final(self) == *old(self),
            r is Ok ==> {
                &&& final(self).records() == old(self).records().insert(
                    id@,
                    (PledgeRecord { status: PledgeStatus::Confirmed, updated_at: now, ..old(self).records()[id@] }),
                )
                &&& final(self).id_list() == old(self).id_list()
                &&& final(self).acted_flags() == old(self).acted_flags()
            },
    {
        self.move_to(id, organizer, PledgeStatus::Confirmed, now)
    }

    /// Marks the campaign `id` closed, for good, on behalf of its
    /// organizer, recording `now` as the time of the update.
    pub fn close_pledge(&mut self, id: String, organizer: String, now: u64) -> (r: Result<(), PledgeRecordError>)
        requires
            old(self).wf(),
        ensures
            final(self).wf(),
            r == old(self).organizer_check(id@, organizer@),
            r is Err ==> *final(self) == *old(self),
            r is Ok ==> {
                &&& final(self).records() == old(self).records().insert(
                    id@,
                    (PledgeRecord { status: PledgeStatus::Closed, updated_at: now, ..old(self).records()[id@] }),
                )
                &&& final(self).id_list() == old(self).id_list()
                &&& final(self).acted_flags() == old(self).acted_flags()
            },
    {
        self.move_to(id, organizer, PledgeStatus::Closed, now)
    }

    /// The campaign stored under `id`, if any.
    pub fn get_pledge(&self, id: String) -> (r: Option<PledgeRecord>)
        requires
            self.wf(),
        ensures
            r == (if self.records().contains_key(id@) {
                Some(self.records()[id@])
            } else {
                None
            }),
    {
        match self.table.get(&id) {
            Some(found) => Some(found.clone()),
            None => None,
        }
    }

    /// The ids, in the order in which the campaigns were created.
    pub fn list_pledges(&self) -> (r: Vec<String>)
        requires
            self.wf(),
        ensures
            texts(r@) == self.id_list(),
    {
        self.table.ids()
    }

    /// The count of the campaign `id`, or zero if there is no such campaign.
    pub fn get_pledge_count(&self, id: String) -> (r: u32)
        requires
            self.wf(),
        ensures
            r == (if self.records().contains_key(id@) {
                self.records()[id@].pledge_count
            } else {
                0
            }),
    {
        match self.table.get(&id) {
            Some(found) => found.pledge_count,
            None => 0,
        }
    }
}

} // verus!
