//! Expense splitter: groups to which members each add one expense, settled and closed by their owner.
//!
//! Text values stand for the ledger's values: an id and a tag are the text
//! of a symbol, an account is the text form of an address. The caller has
//! already checked that the account acting in a call authorised it; `now` is
//! the ledger's timestamp at the call.
use vstd::prelude::*;
use crate::table::{
    texts, pair_texts, map_of, lemma_map_of, flags_for, flags_name_stored, Table, FlagSet,
    flags_counted, lemma_flags_counted_new, lemma_flags_counted_same, lemma_flags_counted_push,
};

verus! {

/// Where a group stands.
#[derive(Clone, Copy, Debug, PartialEq, Eq, Structural)]
pub enum ExpenseGroupStatus {
    Open,
    Active,
    Settled,
    Closed,
}

/// A group.
#[derive(Debug)]
pub struct ExpenseGroup {
    pub owner: String,
    pub contributor: String,
    pub title: String,
    pub details: String,
    pub tag: String,
    pub status: ExpenseGroupStatus,
    pub expense_count: u32,
    pub created_at: u64,
    pub updated_at: u64,
}

impl Clone for ExpenseGroup {
    fn clone(&self) -> (r: Self)
        ensures
            r == *self,
    {
        ExpenseGroup {
            owner: self.owner.clone(),
            contributor: self.contributor.clone(),
            title: self.title.clone(),
            details: self.details.clone(),
            tag: self.tag.clone(),
            status: self.status,
            expense_count: self.expense_count,
            created_at: self.created_at,
            updated_at: self.updated_at,
        }
    }
}

/// Why a call was refused.
#[derive(Clone, Copy, Debug, PartialEq, Eq, PartialOrd, Ord, Structural)]
pub enum ExpenseGroupError {
    InvalidTitle,
    InvalidTimestamp,
    NotFound,
    Unauthorized,
    AlreadyExists,
    AlreadyActed,
    Closed,
}

impl ExpenseGroupError {
    /// The number by which the ledger reports this error.
    pub open spec fn spec_code(self) -> u32 {
        match self {
            ExpenseGroupError::InvalidTitle => 1,
            ExpenseGroupError::InvalidTimestamp => 2,
            ExpenseGroupError::NotFound => 3,
            ExpenseGroupError::Unauthorized => 4,
            ExpenseGroupError::AlreadyExists => 5,
            ExpenseGroupError::AlreadyActed => 6,
            ExpenseGroupError::Closed => 7,
        }
    }

    /// The number by which the ledger reports this error.
    pub fn code(&self) -> (c: u32)
        ensures
            c == self.spec_code(),
    {
        match self {
            ExpenseGroupError::InvalidTitle => 1,
            ExpenseGroupError::InvalidTimestamp => 2,
            ExpenseGroupError::NotFound => 3,
            ExpenseGroupError::Unauthorized => 4,
            ExpenseGroupError::AlreadyExists => 5,
            ExpenseGroupError::AlreadyActed => 6,
            ExpenseGroupError::Closed => 7,
        }
    }
}

/// The number of accounts that have added an expense to a group.
pub open spec fn expense_count_of() -> spec_fn(ExpenseGroup) -> nat {
    |r: ExpenseGroup| r.expense_count as nat
}

/// The contract's storage: the groups by id, the id list, and a flag
/// for each account that has added an expense to a group.
pub struct ExpenseSplitterContract {
    table: Table<ExpenseGroup>,
    acted: FlagSet,
}

impl ExpenseSplitterContract {
    /// The storage is consistent: the id list and the groups agree,
    /// every flag names a stored group, and the count of each group is the
    /// number of flags that name it.
    pub closed spec fn wf(&self) -> bool {
        &&& self.table.wf()
        &&& self.acted.wf()
        &&& flags_counted(self.table.records(), self.acted.flags(), expense_count_of())
    }

    /// The group stored under each id.
    pub closed spec fn records(&self) -> Map<Seq<char>, ExpenseGroup> {
        self.table.records()
    }

    /// The ids, in the order in which the groups were created.
    pub closed spec fn id_list(&self) -> Seq<Seq<char>> {
        self.table.order()
    }

    /// The (id, account) pairs for which the account has added an expense to the group,
    /// in the order in which they did.
    pub closed spec fn acted_flags(&self) -> Seq<(Seq<char>, Seq<char>)> {
        self.acted.flags()
    }

    /// What `create_group` answers.
    pub open spec fn create_result(self, id: Seq<char>, title: Seq<char>, created_at: u64) -> Result<(), ExpenseGroupError> {
        if title.len() == 0 {
            Err(ExpenseGroupError::InvalidTitle)
        } else if created_at == 0 {
            Err(ExpenseGroupError::InvalidTimestamp)
        } else if self.records().contains_key(id) {
            Err(ExpenseGroupError::AlreadyExists)
        } else {
            Ok(())
        }
    }

    /// What `add_expense` answers.
    pub open spec fn act_result(self, id: Seq<char>, contributor: Seq<char>) -> Result<(), ExpenseGroupError> {
        if !self.records().contains_key(id) {
            Err(ExpenseGroupError::NotFound)
        } else if self.records()[id].status == ExpenseGroupStatus::Closed {
            Err(ExpenseGroupError::Closed)
        } else if self.acted_flags().contains((id, contributor)) {
            Err(ExpenseGroupError::AlreadyActed)
        } else {
            Ok(())
        }
    }

    /// What a call by `owner` that moves the group `id` on answers.
    pub open spec fn owner_check(self, id: Seq<char>, owner: Seq<char>) -> Result<(), ExpenseGroupError> {
        if !self.records().contains_key(id) {
            Err(ExpenseGroupError::NotFound)
        } else if self.records()[id].owner@ != owner {
            Err(ExpenseGroupError::Unauthorized)
        } else if self.records()[id].status == ExpenseGroupStatus::Closed {
            Err(ExpenseGroupError::Closed)
        } else {
            Ok(())
        }
    }

    /// A contract with no group.
    pub fn new() -> (c: Self)
        ensures
            c.wf(),
            c.records() == Map::<Seq<char>, ExpenseGroup>::empty(),
            c.id_list() == Seq::<Seq<char>>::empty(),
            c.acted_flags() == Seq::<(Seq<char>, Seq<char>)>::empty(),
    {
        ExpenseSplitterContract { table: Table::new(), acted: FlagSet::new() }
    }

    /// The id list names each group once and no other id; each account has
    /// added an expense to a group at most once; every flag names a stored group; and the
    /// count of each group is the number of accounts that have added an expense to it.
    pub proof fn lemma_storage_consistent(&self)
        requires
            self.wf(),
        ensures
            self.id_list().no_duplicates(),
            forall|k: Seq<char>| #[trigger] self.records().contains_key(k) <==> self.id_list().contains(k),
            self.acted_flags().no_duplicates(),
            flags_counted(self.records(), self.acted_flags(), expense_count_of()),
    {
        self.table.lemma_order_matches_records();
        self.acted.lemma_set_once();
    }

    /// Whether stored parts describe a consistent contract: an id list
    /// without repeats, the group stored under each id (in the same order),
    /// and flags, each set once, that name stored groups and number as
    /// many for each group as its count.
    pub open spec fn storage_fits(
        ids: Seq<String>,
        records: Seq<ExpenseGroup>,
        acted: Seq<(String, String)>,
    ) -> bool {
        &&& ids.len() == records.len()
        &&& texts(ids).no_duplicates()
        &&& pair_texts(acted).no_duplicates()
        &&& flags_counted(map_of(ids, records), pair_texts(acted), expense_count_of())
    }

    /// Rebuilds the contract from its stored parts, or nothing when they are
    /// not consistent.
    pub fn from_storage(ids: Vec<String>, records: Vec<ExpenseGroup>, acted: Vec<(String, String)>) -> (r: Option<Self>)
        ensures
            r is Some <==> Self::storage_fits(ids@, records@, acted@),
            r matches Some(c) ==> {
                &&& c.wf()
                &&& c.records() == map_of(ids@, records@)
                &&& c.id_list() == texts(ids@)
                &&& c.acted_flags() == pair_texts(acted@)
            },
    {
        let ghost ids0 = ids@;
        let ghost records0 = records@;
        let ghost acted0 = acted@;
        let table = match Table::from_parts(ids, records) {
            Some(t) => t,
            None => return None,
        };
        let flags = match FlagSet::from_pairs(acted) {
            Some(f) => f,
            None => return None,
        };
        proof {
            lemma_map_of(ids0, records0);
        }
        if !flags_name_stored(&flags, &table) {
            return None;
        }
        let list = table.ids();
        let mut i: usize = 0;
        while i < list.len()
            invariant
                table.wf(),
                ids0 == ids@,
                records0 == records@,
                acted0 == acted@,
                table.records() == map_of(ids0, records0),
                flags.flags() == pair_texts(acted0),
                texts(list@) == table.order(),
                i <= list.len(),
                forall|j: int|
                    0 <= j < i ==> expense_count_of()(table.records()[#[trigger] texts(list@)[j]])
                        == flags_for(flags.flags(), texts(list@)[j]),
            decreases list.len() - i,
        {
            assert(texts(list@)[i as int] == list@[i as int]@);
            assert(table.order().contains(list@[i as int]@));
            proof {
                table.lemma_order_matches_records();
            }
            let n = match table.get(&list[i]) {
                Some(found) => found.expense_count,
                None => 0,
            };
            if n as usize != flags.count_for(&list[i]) {
                assert(table.records().contains_key(list@[i as int]@));
                assert(expense_count_of()(table.records()[list@[i as int]@]) != flags_for(
                    flags.flags(),
                    list@[i as int]@,
                ));
                return None;
            }
            i += 1;
        }
        proof {
            table.lemma_order_matches_records();
            assert forall|k: Seq<char>| #[trigger] table.records().contains_key(k) implies expense_count_of()(
                table.records()[k],
            ) == flags_for(flags.flags(), k) by {
                let j = choose|j: int| 0 <= j < texts(list@).len() && texts(list@)[j] == k;
            }
        }
        Some(ExpenseSplitterContract { table, acted: flags })
    }

    /// What the contract stores can always be read back: its id list, the
    /// group stored under each id in the same order, and its flags are parts
    /// that `from_storage` accepts and rebuilds the same contract from.
    pub proof fn lemma_storage_reads_back(
        self,
        ids: Seq<String>,
        records: Seq<ExpenseGroup>,
        acted: Seq<(String, String)>,
    )
        requires
            self.wf(),
            texts(ids) == self.id_list(),
            records.len() == ids.len(),
            forall|i: int| #![trigger records[i]] 0 <= i < ids.len() ==> records[i] == self.records()[ids[i]@],
            pair_texts(acted) == self.acted_flags(),
        ensures
            Self::storage_fits(ids, records, acted),
            map_of(ids, records) == self.records(),
    {
        self.table.lemma_reads_back(ids, records);
        self.acted.lemma_set_once();
    }

    /// The (id, account) pairs for which the account has added an expense to the group,
    /// in the order in which they did.
    pub fn acted_pairs(&self) -> (r: Vec<(String, String)>)
        ensures
            pair_texts(r@) == self.acted_flags(),
    {
        self.acted.pairs()
    }

    /// A closed group is final: acting on it, marking it settled and
    /// marking it closed are all refused, whoever calls.
    pub proof fn lemma_closed_is_final(self, id: Seq<char>, who: Seq<char>)
        requires
            self.records().contains_key(id),
            self.records()[id].status == ExpenseGroupStatus::Closed,
        ensures
            self.act_result(id, who) is Err,
            self.owner_check(id, who) is Err,
    {
    }

    /// Any account that has not yet acted on a group may act on it, its
    /// owner included: `add_expense` is accepted exactly when the group exists,
    /// is not closed, and the caller has not acted on it before.
    pub proof fn lemma_any_account_acts_once(self, id: Seq<char>, who: Seq<char>)
        ensures
            self.act_result(id, who) is Ok <==> (self.records().contains_key(id) && self.records()[id].status
                != ExpenseGroupStatus::Closed && !self.acted_flags().contains((id, who))),
    {
    }

    /// Only the owner of a group moves it on, and only until it is
    /// closed: such a call is accepted exactly when the group exists,
    /// the caller is its owner, and it is not closed.
    pub proof fn lemma_only_owner_moves_on(self, id: Seq<char>, who: Seq<char>)
        ensures
            self.owner_check(id, who) is Ok <==> (self.records().contains_key(id) && self.records()[id].owner@
                == who && self.records()[id].status != ExpenseGroupStatus::Closed),
    {
    }

    /// Why a call is refused. A group is created only with a title and a
    /// creation time, under an id not yet used, the title being checked
    /// first. A call naming no stored group is refused as not found; a call
    /// to move a group on by anyone but its owner is refused as
    /// unauthorized; a group that is closed refuses acting and moving on
    /// as closed; and an account that has acted on a group already is
    /// refused as having acted.
    pub proof fn lemma_refusals(self, id: Seq<char>, who: Seq<char>, title: Seq<char>, created_at: u64)
        ensures
            title.len() == 0 ==> self.create_result(id, title, created_at) == Err::<(), ExpenseGroupError>(
                ExpenseGroupError::InvalidTitle,
            ),
            title.len() > 0 && created_at == 0 ==> self.create_result(id, title, created_at) == Err::<
                (),
                ExpenseGroupError,
            >(ExpenseGroupError::InvalidTimestamp),
            title.len() > 0 && created_at != 0 && self.records().contains_key(id) ==> self.create_result(
                id,
                title,
                created_at,
            ) == Err::<(), ExpenseGroupError>(ExpenseGroupError::AlreadyExists),
            !self.records().contains_key(id) ==> self.act_result(id, who) == Err::<(), ExpenseGroupError>(
                ExpenseGroupError::NotFound,
            ) && self.owner_check(id, who) == Err::<(), ExpenseGroupError>(ExpenseGroupError::NotFound),
            self.records().contains_key(id) && self.records()[id].owner@ != who ==> self.owner_check(id, who)
                == Err::<(), ExpenseGroupError>(ExpenseGroupError::Unauthorized),
            self.records().contains_key(id) && self.records()[id].status == ExpenseGroupStatus::Closed ==> self.act_result(
                id,
                who,
            ) == Err::<(), ExpenseGroupError>(ExpenseGroupError::Closed) && (self.records()[id].owner@ == who ==> self.owner_check(
                id,
                who,
            ) == Err::<(), ExpenseGroupError>(ExpenseGroupError::Closed)),
            self.records().contains_key(id) && self.records()[id].status != ExpenseGroupStatus::Closed
                && self.acted_flags().contains((id, who)) ==> self.act_result(id, who) == Err::<(), ExpenseGroupError>(
                ExpenseGroupError::AlreadyActed,
            ),
    {
    }

    /// Creates the group `id`, held by `owner` (who is also its last
    /// contributor), in status open, with a count of zero, created (and
    /// last updated) at `created_at`; the id goes to the end of the id list.
    pub fn create_group(
        &mut self,
        id: String,
        owner: String,
        title: String,
        details: String,
        tag: String,
        created_at: u64,
    ) -> (r: Result<(), ExpenseGroupError>)
        requires
            old(self).wf(),
        ensures
            final(self).wf(),
            r == old(self).create_result(id@, title@, created_at),
            r is Err ==> *final(self) == *old(self),
            r is Ok ==> {
                &&& final(self).records() == old(self).records().insert(
                    id@,
                    (ExpenseGroup {
                        owner: owner,
                        contributor: owner,
                        title,
                        details,
                        tag,
                        status: ExpenseGroupStatus::Open,
                        expense_count: 0,
                        created_at,
                        updated_at: created_at,
                    }),
                )
                &&& final(self).id_list() == old(self).id_list().push(id@)
                &&& final(self).acted_flags() == old(self).acted_flags()
            },
    {
        if title.as_str().is_empty() {
            return Err(ExpenseGroupError::InvalidTitle);
        }
        if created_at == 0 {
            return Err(ExpenseGroupError::InvalidTimestamp);
        }
        if self.table.contains(&id) {
            return Err(ExpenseGroupError::AlreadyExists);
        }
        let record = ExpenseGroup {
            owner: owner.clone(),
            contributor: owner,
            title,
            details,
            tag,
            status: ExpenseGroupStatus::Open,
            expense_count: 0,
            created_at,
            updated_at: created_at,
        };
        proof {
            lemma_flags_counted_new(self.table.records(), self.acted.flags(), expense_count_of(), id@, record);
        }
        self.table.push(id, record);
        Ok(())
    }

    /// Records that the calling account has added an expense to the group `id`: they become its last
    /// contributor, its count grows by one, its status becomes active, and
    /// `now` is recorded as the time of the update. Each account may do so
    /// once per group.
    pub fn add_expense(&mut self, id: String, contributor: String, now: u64) -> (r: Result<(), ExpenseGroupError>)
        requires
            old(self).wf(),
            old(self).act_result(id@, contributor@) is Ok ==> old(self).records()[id@].expense_count < u32::MAX,
        ensures
            final(self).wf(),
            r == old(self).act_result(id@, contributor@),
            r is Err ==> *final(self) == *old(self),
            r is Ok ==> {
                &&& final(self).records() == old(self).records().insert(
                    id@,
                    (ExpenseGroup {
                        contributor: contributor,
                        expense_count: (old(self).records()[id@].expense_count + 1) as u32,
                        status: ExpenseGroupStatus::Active,
                        updated_at: now,
                        ..old(self).records()[id@]
                    }),
                )
                &&& final(self).id_list() == old(self).id_list()
                &&& final(self).acted_flags() == old(self).acted_flags().push((id@, contributor@))
            },
    {
        let mut record = match self.table.get(&id) {
            Some(found) => found.clone(),
            None => return Err(ExpenseGroupError::NotFound),
        };
        if record.status == ExpenseGroupStatus::Closed {
            return Err(ExpenseGroupError::Closed);
        }
        if self.acted.contains(&id, &contributor) {
            return Err(ExpenseGroupError::AlreadyActed);
        }
        record.contributor = contributor.clone();
        record.expense_count = record.expense_count + 1;
        record.status = ExpenseGroupStatus::Active;
        record.updated_at = now;
        proof {
            lemma_flags_counted_push(
                self.table.records(),
                self.acted.flags(),
                expense_count_of(),
                id@,
                contributor@,
                record,
            );
        }
        self.table.set(&id, record);
        self.acted.insert(id, contributor);
        Ok(())
    }

    /// Moves the group `id` to `status` on behalf of its owner,
    /// recording `now` as the time of the update.
    fn move_to(&mut self, id: String, owner: String, status: ExpenseGroupStatus, now: u64) -> (r: Result<(), ExpenseGroupError>)
        requires
            old(self).wf(),
        ensures
            final(self).wf(),
            r == old(self).owner_check(id@, owner@),
            r is Err ==> *final(self) == *old(self),
            r is Ok ==> {
                &&& final(self).records() == old(self).records().insert(
                    id@,
                    (ExpenseGroup { status, updated_at: now, ..old(self).records()[id@] }),
                )
                &&& final(self).id_list() == old(self).id_list()
                &&& final(self).acted_flags() == old(self).acted_flags()
            },
    {
        let mut record = match self.table.get(&id) {
            Some(found) => found.clone(),
            None => return Err(ExpenseGroupError::NotFound),
        };
        if !(record.owner == owner) {
            return Err(ExpenseGroupError::Unauthorized);
        }
        if record.status == ExpenseGroupStatus::Closed {
            return Err(ExpenseGroupError::Closed);
        }
        record.status = status;
        record.updated_at = now;
        proof {
            lemma_flags_counted_same(self.table.records(), self.acted.flags(), expense_count_of(), id@, record);
        }
        self.table.set(&id, record);
        Ok(())
    }

    /// Marks the group `id` settled on behalf of its owner, recording
    /// `now` as the time of the update.
    pub fn settle_group(&mut self, id: String, owner: String, now: u64) -> (r: Result<(), ExpenseGroupError>)
        requires
            old(self).wf(),
        ensures
            final(self).wf(),
            r == old(self).owner_check(id@, owner@),
            r is Err ==> *final(self) == *old(self),
            r is Ok ==> {
                &&& final(self).records() == old(self).records().insert(
                    id@,
                    (ExpenseGroup { status: ExpenseGroupStatus::Settled, updated_at: now, ..old(self).records()[id@] }),
                )
                &&& final(self).id_list() == old(self).id_list()
                &&& final(self).acted_flags() == old(self).acted_flags()
            },
    {
        self.move_to(id, owner, ExpenseGroupStatus::Settled, now)
    }

    /// Marks the group `id` closed, for good, on behalf of its
    /// owner, recording `now` as the time of the update.
    pub fn close_group(&mut self, id: String, owner: String, now: u64) -> (r: Result<(), ExpenseGroupError>)
        requires
            old(self).wf(),
        ensures
            final(self).wf(),
            r == old(self).owner_check(id@, owner@),
            r is Err ==> *final(self) == *old(self),
            r is Ok ==> {
                &&& final(self).records() == old(self).records().insert(
                    id@,
                    (ExpenseGroup { status: ExpenseGroupStatus::Closed, updated_at: now, ..old(self).records()[id@] }),
                )
                &&& final(self).id_list() == old(self).id_list()
                &&& final(self).acted_flags() == old(self).acted_flags()
            },
    {
        self.move_to(id, owner, ExpenseGroupStatus::Closed, now)
    }

    /// The group stored under `id`, if any.
    pub fn get_group(&self, id: String) -> (r: Option<ExpenseGroup>)
        requires
            self.wf(),
        ensures
            r == (if self.records().contains_key(id@) {
                Some(self.records()[id@])
            } else {
                None
            }),
    {
        match self.table.get(&id) {
            Some(found) => Some(found.clone()),
            None => None,
        }
    }

    /// The ids, in the order in which the groups were created.
    pub fn list_groups(&self) -> (r: Vec<String>)
        requires
            self.wf(),
        ensures
            texts(r@) == self.id_list(),
    {
        self.table.ids()
    }

    /// The count of the group `id`, or zero if there is no such group.
    pub fn get_expense_count(&self, id: String) -> (r: u32)
        requires
            self.wf(),
        ensures
            r == (if self.records().contains_key(id@) {
                self.records()[id@].expense_count
            } else {
                0
            }),
    {
        match self.table.get(&id) {
            Some(found) => found.expense_count,
            None => 0,
        }
    }
}

} // verus!
