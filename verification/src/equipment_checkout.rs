//! Equipment checkout: items that borrowers each check out once, returned and retired by their custodian.
//!
//! Text values stand for the ledger's values: an id and a tag are the text
//! of a symbol, an account is the text form of an address. The caller has
//! already checked that the account acting in a call authorised it; `now` is
//! the ledger's timestamp at the call.
use vstd::prelude::*;
use crate::table::{
    texts, pair_texts, map_of, lemma_map_of, flags_for, flags_name_stored, Table, FlagSet,
    flags_counted, lemma_flags_counted_new, lemma_flags_counted_same, lemma_flags_counted_push,
};

verus! {

/// Where an item stands.
#[derive(Clone, Copy, Debug, PartialEq, Eq, Structural)]
pub enum EquipmentStatus {
    Available,
    CheckedOut,
    Returned,
    Retired,
}

/// An item.
#[derive(Debug)]
pub struct EquipmentItem {
    pub custodian: String,
    pub borrower: String,
    pub title: String,
    pub details: String,
    pub tag: String,
    pub status: EquipmentStatus,
    pub checkout_count: u32,
    pub created_at: u64,
    pub updated_at: u64,
}

impl Clone for EquipmentItem {
    fn clone(&self) -> (r: Self)
        ensures
            r == *self,
    {
        EquipmentItem {
            custodian: self.custodian.clone(),
            borrower: self.borrower.clone(),
            title: self.title.clone(),
            details: self.details.clone(),
            tag: self.tag.clone(),
            status: self.status,
            checkout_count: self.checkout_count,
            created_at: self.created_at,
            updated_at: self.updated_at,
        }
    }
}

/// Why a call was refused.
#[derive(Clone, Copy, Debug, PartialEq, Eq, PartialOrd, Ord, Structural)]
pub enum EquipmentItemError {
    InvalidTitle,
    InvalidTimestamp,
    NotFound,
    Unauthorized,
    AlreadyExists,
    AlreadyActed,
    Closed,
}

impl EquipmentItemError {
    /// The number by which the ledger reports this error.
    pub open spec fn spec_code(self) -> u32 {
        match self {
            EquipmentItemError::InvalidTitle => 1,
            EquipmentItemError::InvalidTimestamp => 2,
            EquipmentItemError::NotFound => 3,
            EquipmentItemError::Unauthorized => 4,
            EquipmentItemError::AlreadyExists => 5,
            EquipmentItemError::AlreadyActed => 6,
            EquipmentItemError::Closed => 7,
        }
    }

    /// The number by which the ledger reports this error.
    pub fn code(&self) -> (c: u32)
        ensures
            c == self.spec_code(),
    {
        match self {
            EquipmentItemError::InvalidTitle => 1,
            EquipmentItemError::InvalidTimestamp => 2,
            EquipmentItemError::NotFound => 3,
            EquipmentItemError::Unauthorized => 4,
            EquipmentItemError::AlreadyExists => 5,
            EquipmentItemError::AlreadyActed => 6,
            EquipmentItemError::Closed => 7,
        }
    }
}

/// The number of accounts that have checked out an item.
pub open spec fn checkout_count_of() -> spec_fn(EquipmentItem) -> nat {
    |r: EquipmentItem| r.checkout_count as nat
}

/// The contract's storage: the items by id, the id list, and a flag
/// for each account that has checked out an item.
pub struct EquipmentCheckoutContract {
    table: Table<EquipmentItem>,
    acted: FlagSet,
}

impl EquipmentCheckoutContract {
    /// The storage is consistent: the id list and the items agree,
    /// every flag names a stored item, and the count of each item is the
    /// number of flags that name it.
    pub closed spec fn wf(&self) -> bool {
        &&& self.table.wf()
        &&& self.acted.wf()
        &&& flags_counted(self.table.records(), self.acted.flags(), checkout_count_of())
    }

    /// The item stored under each id.
    pub closed spec fn records(&self) -> Map<Seq<char>, EquipmentItem> {
        self.table.records()
    }

    /// The ids, in the order in which the items were created.
    pub closed spec fn id_list(&self) -> Seq<Seq<char>> {
        self.table.order()
    }

    /// The (id, account) pairs for which the account has checked out the item,
    /// in the order in which they did.
    pub closed spec fn acted_flags(&self) -> Seq<(Seq<char>, Seq<char>)> {
        self.acted.flags()
    }

    /// What `create_equipment` answers.
    pub open spec fn create_result(self, id: Seq<char>, title: Seq<char>, created_at: u64) -> Result<(), EquipmentItemError> {
        if title.len() == 0 {
            Err(EquipmentItemError::InvalidTitle)
        } else if created_at == 0 {
            Err(EquipmentItemError::InvalidTimestamp)
        } else if self.records().contains_key(id) {
            Err(EquipmentItemError::AlreadyExists)
        } else {
            Ok(())
        }
    }

    /// What `checkout_equipment` answers.
    pub open spec fn act_result(self, id: Seq<char>, borrower: Seq<char>) -> Result<(), EquipmentItemError> {
        if !self.records().contains_key(id) {
            Err(EquipmentItemError::NotFound)
        } else if self.records()[id].status == EquipmentStatus::Retired {
            Err(EquipmentItemError::Closed)
        } else if self.acted_flags().contains((id, borrower)) {
            Err(EquipmentItemError::AlreadyActed)
        } else {
            Ok(())
        }
    }

    /// What a call by `custodian` that moves the item `id` on answers.
    pub open spec fn custodian_check(self, id: Seq<char>, custodian: Seq<char>) -> Result<(), EquipmentItemError> {
        if !self.records().contains_key(id) {
            Err(EquipmentItemError::NotFound)
        } else if self.records()[id].custodian@ != custodian {
            Err(EquipmentItemError::Unauthorized)
        } else if self.records()[id].status == EquipmentStatus::Retired {
            Err(EquipmentItemError::Closed)
        } else {
            Ok(())
        }
    }

    /// A contract with no item.
    pub fn new() -> (c: Self)
        ensures
            c.wf(),
            c.records() == Map::<Seq<char>, EquipmentItem>::empty(),
            c.id_list() == Seq::<Seq<char>>::empty(),
            c.acted_flags() == Seq::<(Seq<char>, Seq<char>)>::empty(),
    {
        EquipmentCheckoutContract { table: Table::new(), acted: FlagSet::new() }
    }

    /// The id list names each item once and no other id; each account has
    /// checked out an item at most once; every flag names a stored item; and the
    /// count of each item is the number of accounts that have checked out it.
    pub proof fn lemma_storage_consistent(&self)
        requires
            self.wf(),
        ensures
            self.id_list().no_duplicates(),
            forall|k: Seq<char>| #[trigger] self.records().contains_key(k) <==> self.id_list().contains(k),
            self.acted_flags().no_duplicates(),
            flags_counted(self.records(), self.acted_flags(), checkout_count_of()),
    {
        self.table.lemma_order_matches_records();
        self.acted.lemma_set_once();
    }

    /// Whether stored parts describe a consistent contract: an id list
    /// without repeats, the item stored under each id (in the same order),
    /// and flags, each set once, that name stored items and number as
    /// many for each item as its count.
    pub open spec fn storage_fits(
        ids: Seq<String>,
        records: Seq<EquipmentItem>,
        acted: Seq<(String, String)>,
    ) -> bool {
        &&& ids.len() == records.len()
        &&& texts(ids).no_duplicates()
        &&& pair_texts(acted).no_duplicates()
        &&& flags_counted(map_of(ids, records), pair_texts(acted), checkout_count_of())
    }

    /// Rebuilds the contract from its stored parts, or nothing when they are
    /// not consistent.
    pub fn from_storage(ids: Vec<String>, records: Vec<EquipmentItem>, acted: Vec<(String, String)>) -> (r: Option<Self>)
        ensures
            r is Some <==> Self::storage_fits(ids@, records@, acted@),
            r matches Some(c) ==> {
                &&& c.wf()
                &&& c.records() == map_of(ids@, records@)
                &&& c.id_list() == texts(ids@)
                &&& c.acted_flags() == pair_texts(acted@)
            },
    {
        let ghost ids0 = ids@;
        let ghost records0 = records@;
        let ghost acted0 = acted@;
        let table = match Table::from_parts(ids, records) {
            Some(t) => t,
            None => return None,
        };
        let flags = match FlagSet::from_pairs(acted) {
            Some(f) => f,
            None => return None,
        };
        proof {
            lemma_map_of(ids0, records0);
        }
        if !flags_name_stored(&flags, &table) {
            return None;
        }
        let list = table.ids();
        let mut i: usize = 0;
        while i < list.len()
            invariant
                table.wf(),
                ids0 == ids@,
                records0 == records@,
                acted0 == acted@,
                table.records() == map_of(ids0, records0),
                flags.flags() == pair_texts(acted0),
                texts(list@) == table.order(),
                i <= list.len(),
                forall|j: int|
                    0 <= j < i ==> checkout_count_of()(table.records()[#[trigger] texts(list@)[j]])
                        == flags_for(flags.flags(), texts(list@)[j]),
            decreases list.len() - i,
        {
            assert(texts(list@)[i as int] == list@[i as int]@);
            assert(table.order().contains(list@[i as int]@));
            proof {
                table.lemma_order_matches_records();
            }
            let n = match table.get(&list[i]) {
                Some(found) => found.checkout_count,
                None => 0,
            };
            if n as usize != flags.count_for(&list[i]) {
                assert(table.records().contains_key(list@[i as int]@));
                assert(checkout_count_of()(table.records()[list@[i as int]@]) != flags_for(
                    flags.flags(),
                    list@[i as int]@,
                ));
                return None;
            }
            i += 1;
        }
        proof {
            table.lemma_order_matches_records();
            assert forall|k: Seq<char>| #[trigger] table.records().contains_key(k) implies checkout_count_of()(
                table.records()[k],
            ) == flags_for(flags.flags(), k) by {
                let j = choose|j: int| 0 <= j < texts(list@).len() && texts(list@)[j] == k;
            }
        }
        Some(EquipmentCheckoutContract { table, acted: flags })
    }

    /// What the contract stores can always be read back: its id list, the
    /// item stored under each id in the same order, and its flags are parts
    /// that `from_storage` accepts and rebuilds the same contract from.
    pub proof fn lemma_storage_reads_back(
        self,
        ids: Seq<String>,
        records: Seq<EquipmentItem>,
        acted: Seq<(String, String)>,
    )
        requires
            self.wf(),
            texts(ids) == self.id_list(),
            records.len() == ids.len(),
            forall|i: int| #![trigger records[i]] 0 <= i < ids.len() ==> records[i] == self.records()[ids[i]@],
            pair_texts(acted) == self.acted_flags(),
        ensures
            Self::storage_fits(ids, records, acted),
            map_of(ids, records) == self.records(),
    {
        self.table.lemma_reads_back(ids, records);
        self.acted.lemma_set_once();
    }

    /// The (id, account) pairs for which the account has checked out the item,
    /// in the order in which they did.
    pub fn acted_pairs(&self) -> (r: Vec<(String, String)>)
        ensures
            pair_texts(r@) == self.acted_flags(),
    {
        self.acted.pairs()
    }

    /// A retired item is final: acting on it, marking it returned and
    /// marking it retired are all refused, whoever calls.
    pub proof fn lemma_retired_is_final(self, id: Seq<char>, who: Seq<char>)
        requires
            self.records().contains_key(id),
            self.records()[id].status == EquipmentStatus::Retired,
        ensures
            self.act_result(id, who) is Err,
            self.custodian_check(id, who) is Err,
    {
    }

    /// Any account that has not yet acted on an item may act on it, its
    /// custodian included: `checkout_equipment` is accepted exactly when the item exists,
    /// is not retired, and the caller has not acted on it before.
    pub proof fn lemma_any_account_acts_once(self, id: Seq<char>, who: Seq<char>)
        ensures
            self.act_result(id, who) is Ok <==> (self.records().contains_key(id) && self.records()[id].status
                != EquipmentStatus::Retired && !self.acted_flags().contains((id, who))),
    {
    }

    /// Only the custodian of an item moves it on, and only until it is
    /// retired: such a call is accepted exactly when the item exists,
    /// the caller is its custodian, and it is not retired.
    pub proof fn lemma_only_custodian_moves_on(self, id: Seq<char>, who: Seq<char>)
        ensures
            self.custodian_check(id, who) is Ok <==> (self.records().contains_key(id) && self.records()[id].custodian@
                == who && self.records()[id].status != EquipmentStatus::Retired),
    {
    }

    /// Why a call is refused. A item is created only with a title and a
    /// creation time, under an id not yet used, the title being checked
    /// first. A call naming no stored item is refused as not found; a call
    /// to move an item on by anyone but its custodian is refused as
    /// unauthorized; an item that is retired refuses acting and moving on
    /// as closed; and an account that has acted on an item already is
    /// refused as having acted.
    pub proof fn lemma_refusals(self, id: Seq<char>, who: Seq<char>, title: Seq<char>, created_at: u64)
        ensures
            title.len() == 0 ==> self.create_result(id, title, created_at) == Err::<(), EquipmentItemError>(
                EquipmentItemError::InvalidTitle,
            ),
            title.len() > 0 && created_at == 0 ==> self.create_result(id, title, created_at) == Err::<
                (),
                EquipmentItemError,
            >(EquipmentItemError::InvalidTimestamp),
            title.len() > 0 && created_at != 0 && self.records().contains_key(id) ==> self.create_result(
                id,
                title,
                created_at,
            ) == Err::<(), EquipmentItemError>(EquipmentItemError::AlreadyExists),
            !self.records().contains_key(id) ==> self.act_result(id, who) == Err::<(), EquipmentItemError>(
                EquipmentItemError::NotFound,
            ) && self.custodian_check(id, who) == Err::<(), EquipmentItemError>(EquipmentItemError::NotFound),
            self.records().contains_key(id) && self.records()[id].custodian@ != who ==> self.custodian_check(id, who)
                == Err::<(), EquipmentItemError>(EquipmentItemError::Unauthorized),
            self.records().contains_key(id) && self.records()[id].status == EquipmentStatus::Retired ==> self.act_result(
                id,
                who,
            ) == Err::<(), EquipmentItemError>(EquipmentItemError::Closed) && (self.records()[id].custodian@ == who ==> self.custodian_check(
                id,
                who,
            ) == Err::<(), EquipmentItemError>(EquipmentItemError::Closed)),
            self.records().contains_key(id) && self.records()[id].status != EquipmentStatus::Retired
                && self.acted_flags().contains((id, who)) ==> self.act_result(id, who) == Err::<(), EquipmentItemError>(
                EquipmentItemError::AlreadyActed,
            ),
    {
    }

    /// Creates the item `id`, held by `custodian` (who is also its last
    /// borrower), in status available, with a count of zero, created (and
    /// last updated) at `created_at`; the id goes to the end of the id list.
    pub fn create_equipment(
        &mut self,
        id: String,
        custodian: String,
        title: String,
        details: String,
        tag: String,
        created_at: u64,
    ) -> (r: Result<(), EquipmentItemError>)
        requires
            old(self).wf(),
        ensures
            final(self).wf(),
            r == old(self).create_result(id@, title@, created_at),
            r is Err ==> *final(self) == *old(self),
            r is Ok ==> {
                &&& final(self).records() == old(self).records().insert(
                    id@,
                    (EquipmentItem {
                        custodian: custodian,
                        borrower: custodian,
                        title,
                        details,
                        tag,
                        status: EquipmentStatus::Available,
                        checkout_count: 0,
                        created_at,
                        updated_at: created_at,
                    }),
                )
                &&& final(self).id_list() == old(self).id_list().push(id@)
                &&& final(self).acted_flags() == old(self).acted_flags()
            },
    {
        if title.as_str().is_empty() {
            return Err(EquipmentItemError::InvalidTitle);
        }
        if created_at == 0 {
            return Err(EquipmentItemError::InvalidTimestamp);
        }
        if self.table.contains(&id) {
            return Err(EquipmentItemError::AlreadyExists);
        }
        let record = EquipmentItem {
            custodian: custodian.clone(),
            borrower: custodian,
            title,
            details,
            tag,
            status: EquipmentStatus::Available,
            checkout_count: 0,
            created_at,
            updated_at: created_at,
        };
        proof {
            lemma_flags_counted_new(self.table.records(), self.acted.flags(), checkout_count_of(), id@, record);
        }
        self.table.push(id, record);
        Ok(())
    }

    /// Records that the calling account has checked out the item `id`: they become its last
    /// borrower, its count grows by one, its status becomes checked out, and
    /// `now` is recorded as the time of the update. Each account may do so
    /// once per item.
    pub fn checkout_equipment(&mut self, id: String, borrower: String, now: u64) -> (r: Result<(), EquipmentItemError>)
        requires
            old(self).wf(),
            old(self).act_result(id@, borrower@) is Ok ==> old(self).records()[id@].checkout_count < u32::MAX,
        ensures
            final(self).wf(),
            r == old(self).act_result(id@, borrower@),
            r is Err ==> *final(self) == *old(self),
            r is Ok ==> {
                &&& final(self).records() == old(self).records().insert(
                    id@,
                    (EquipmentItem {
                        borrower: borrower,
                        checkout_count: (old(self).records()[id@].checkout_count + 1) as u32,
                        status: EquipmentStatus::CheckedOut,
                        updated_at: now,
                        ..old(self).records()[id@]
                    }),
                )
                &&& final(self).id_list() == old(self).id_list()
                &&& final(self).acted_flags() == old(self).acted_flags().push((id@, borrower@))
            },
    {
        let mut record = match self.table.get(&id) {
            Some(found) => found.clone(),
            None => return Err(EquipmentItemError::NotFound),
        };
        if record.status == EquipmentStatus::Retired {
            return Err(EquipmentItemError::Closed);
        }
        if self.acted.contains(&id, &borrower) {
            return Err(EquipmentItemError::AlreadyActed);
        }
        record.borrower = borrower.clone();
        record.checkout_count = record.checkout_count + 1;
        record.status = EquipmentStatus::CheckedOut;
        record.updated_at = now;
        proof {
            lemma_flags_counted_push(
                self.table.records(),
                self.acted.flags(),
                checkout_count_of(),
                id@,
                borrower@,
                record,
            );
        }
        self.table.set(&id, record);
        self.acted.insert(id, borrower);
        Ok(())
    }

    /// Moves the item `id` to `status` on behalf of its custodian,
    /// recording `now` as the time of the update.
    fn move_to(&mut self, id: String, custodian: String, status: EquipmentStatus, now: u64) -> (r: Result<(), EquipmentItemError>)
        requires
            old(self).wf(),
        ensures
            final(self).wf(),
            r == old(self).custodian_check(id@, custodian@),
            r is Err ==> *final(self) == *old(self),
            r is Ok ==> {
                &&& final(self).records() == old(self).records().insert(
                    id@,
                    (EquipmentItem { status, updated_at: now, ..old(self).records()[id@] }),
                )
                &&& final(self).id_list() == old(self).id_list()
                &&& final(self).acted_flags() == old(self).acted_flags()
            },
    {
        let mut record = match self.table.get(&id) {
            Some(found) => found.clone(),
            None => return Err(EquipmentItemError::NotFound),
        };
        if !(record.custodian == custodian) {
            return Err(EquipmentItemError::Unauthorized);
        }
        if record.status == EquipmentStatus::Retired {
            return Err(EquipmentItemError::Closed);
        }
        record.status = status;
        record.updated_at = now;
        proof {
            lemma_flags_counted_same(self.table.records(), self.acted.flags(), checkout_count_of(), id@, record);
        }
        self.table.set(&id, record);
        Ok(())
    }

    /// Marks the item `id` returned on behalf of its custodian, recording
    /// `now` as the time of the update.
    pub fn return_equipment(&mut self, id: String, custodian: String, now: u64) -> (r: Result<(), EquipmentItemError>)
        requires
            old(self).wf(),
        ensures
            final(self).wf(),
            r == old(self).custodian_check(id@, custodian@),
            r is Err ==> *final(self) == *old(self),
            r is Ok ==> {
                &&& final(self).records() == old(self).records().insert(
                    id@,
                    (EquipmentItem { status: EquipmentStatus::Returned, updated_at: now, ..old(self).records()[id@] }),
                )
                &&& final(self).id_list() == old(self).id_list()
                &&& final(self).acted_flags() == old(self).acted_flags()
            },
    {
        self.move_to(id, custodian, EquipmentStatus::Returned, now)
    }

    /// Marks the item `id` retired, for good, on behalf of its
    /// custodian, recording `now` as the time of the update.
    pub fn retire_equipment(&mut self, id: String, custodian: String, now: u64) -> (r: Result<(), EquipmentItemError>)
        requires
            old(self).wf(),
        ensures
            final(self).wf(),
            r == old(self).custodian_check(id@, custodian@),
            r is Err ==> *final(self) == *old(self),
            r is Ok ==> {
                &&& final(self).records() == old(self).records().insert(
                    id@,
                    (EquipmentItem { status: EquipmentStatus::Retired, updated_at: now, ..old(self).records()[id@] }),
                )
                &&& final(self).id_list() == old(self).id_list()
                &&& final(self).acted_flags() == old(self).acted_flags()
            },
    {
        self.move_to(id, custodian, EquipmentStatus::Retired, now)
    }

    /// The item stored under `id`, if any.
    pub fn get_equipment(&self, id: String) -> (r: Option<EquipmentItem>)
        requires
            self.wf(),
        ensures
            r == (if self.records().contains_key(id@) {
                Some(self.records()[id@])
            } else {
                None
            }),
    {
        match self.table.get(&id) {
            Some(found) => Some(found.clone()),
            None => None,
        }
    }

    /// The ids, in the order in which the items were created.
    pub fn list_equipments(&self) -> (r: Vec<String>)
        requires
            self.wf(),
        ensures
            texts(r@) == self.id_list(),
    {
        self.table.ids()
    }

    /// The count of the item `id`, or zero if there is no such item.
    pub fn get_checkout_count(&self, id: String) -> (r: u32)
        requires
            self.wf(),
        ensures
            r == (if self.records().contains_key(id@) {
                self.records()[id@].checkout_count
            } else {
                0
            }),
    {
        match self.table.get(&id) {
            Some(found) => found.checkout_count,
            None => 0,
        }
    }
}

} // verus!
