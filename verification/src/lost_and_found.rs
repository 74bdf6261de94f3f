//! Lost and found: reported items that someone claims and the reporter
//! resolves, with a count of the items not yet resolved.
//!
//! Text values stand for the ledger's values: an id and a category are the
//! text of a symbol, a reporter or a claimant is the text form of an account
//! address. The caller has already checked that the account acting in a
//! call authorised it; `now` is the ledger's timestamp at the call.
use vstd::prelude::*;
use crate::table::{
    texts, map_of, lemma_map_of, lemma_count_where_map_of, Table, count_where,
    lemma_count_where_insert,
};

verus! {

/// Where a reported item stands.
#[derive(Clone, Copy, Debug, PartialEq, Eq, Structural)]
pub enum ItemStatus {
    Open,
    Claimed,
    Resolved,
}

/// A reported item.
#[derive(Debug)]
pub struct Item {
    pub reporter: String,
    pub claimant: String,
    pub name: String,
    pub description: String,
    pub category: String,
    pub status: ItemStatus,
    pub is_claimed: bool,
    pub created_at: u64,
    pub resolved_at: u64,
}

impl Clone for Item {
    fn clone(&self) -> (r: Self)
        ensures
            r == *self,
    {
        Item {
            reporter: self.reporter.clone(),
            claimant: self.claimant.clone(),
            name: self.name.clone(),
            description: self.description.clone(),
            category: self.category.clone(),
            status: self.status,
            is_claimed: self.is_claimed,
            created_at: self.created_at,
            resolved_at: self.resolved_at,
        }
    }
}

/// Why a call was refused.
#[derive(Clone, Copy, Debug, PartialEq, Eq, PartialOrd, Ord, Structural)]
pub enum LostFoundError {
    InvalidName,
    InvalidTimestamp,
    NotFound,
    Unauthorized,
    AlreadyExists,
    AlreadyClaimed,
    AlreadyResolved,
}

impl LostFoundError {
    /// The number by which the ledger reports this error.
    pub open spec fn spec_code(self) -> u32 {
        match self {
            LostFoundError::InvalidName => 1,
            LostFoundError::InvalidTimestamp => 2,
            LostFoundError::NotFound => 3,
            LostFoundError::Unauthorized => 4,
            LostFoundError::AlreadyExists => 5,
            LostFoundError::AlreadyClaimed => 6,
            LostFoundError::AlreadyResolved => 7,
        }
    }

    /// The number by which the ledger reports this error.
    pub fn code(&self) -> (c: u32)
        ensures
            c == self.spec_code(),
    {
        match self {
            LostFoundError::InvalidName => 1,
            LostFoundError::InvalidTimestamp => 2,
            LostFoundError::NotFound => 3,
            LostFoundError::Unauthorized => 4,
            LostFoundError::AlreadyExists => 5,
            LostFoundError::AlreadyClaimed => 6,
            LostFoundError::AlreadyResolved => 7,
        }
    }
}

/// Whether an item is still waiting to be resolved.
pub open spec fn is_unresolved() -> spec_fn(Item) -> bool {
    |i: Item| i.status != ItemStatus::Resolved
}

/// An item's claim agrees with its status: a claimed item is marked
/// claimed, an item marked claimed is never open again, and an unclaimed
/// item names its reporter as claimant.
pub open spec fn claim_agrees(i: Item) -> bool {
    &&& i.status == ItemStatus::Claimed ==> i.is_claimed
    &&& i.is_claimed ==> i.status != ItemStatus::Open
    &&& !i.is_claimed ==> i.claimant@ == i.reporter@
}

/// The contract's storage: the items by id, the id list, and the count of
/// items not yet resolved.
pub struct LostAndFoundContract {
    table: Table<Item>,
    open: u32,
}

impl LostAndFoundContract {
    /// The storage is consistent: the id list and the items agree, the open
    /// count is the number of unresolved items, a claimed item is marked
    /// claimed, an item marked claimed is never open, and an unclaimed item
    /// names its reporter as claimant.
    pub closed spec fn wf(&self) -> bool {
        &&& self.table.wf()
        &&& self.open == count_where(self.table.records(), is_unresolved())
        &&& forall|k: Seq<char>| #[trigger]
            self.table.records().contains_key(k) ==> claim_agrees(self.table.records()[k])
    }

    /// The item stored under each id.
    pub closed spec fn items(&self) -> Map<Seq<char>, Item> {
        self.table.records()
    }

    /// The item ids, in the order in which the items were reported.
    pub closed spec fn id_list(&self) -> Seq<Seq<char>> {
        self.table.order()
    }

    /// The stored count of unresolved items.
    pub closed spec fn open_count(&self) -> nat {
        self.open as nat
    }

    /// What `report_item` answers.
    pub open spec fn report_result(self, id: Seq<char>, name: Seq<char>, reported_at: u64) -> Result<(), LostFoundError> {
        if name.len() == 0 {
            Err(LostFoundError::InvalidName)
        } else if reported_at == 0 {
            Err(LostFoundError::InvalidTimestamp)
        } else if self.items().contains_key(id) {
            Err(LostFoundError::AlreadyExists)
        } else {
            Ok(())
        }
    }

    /// What `claim_item` answers.
    pub open spec fn claim_result(self, id: Seq<char>) -> Result<(), LostFoundError> {
        if !self.items().contains_key(id) {
            Err(LostFoundError::NotFound)
        } else if self.items()[id].status == ItemStatus::Resolved {
            Err(LostFoundError::AlreadyResolved)
        } else if self.items()[id].is_claimed {
            Err(LostFoundError::AlreadyClaimed)
        } else {
            Ok(())
        }
    }

    /// What `mark_resolved` answers.
    pub open spec fn resolve_result(self, id: Seq<char>, reporter: Seq<char>) -> Result<(), LostFoundError> {
        if !self.items().contains_key(id) {
            Err(LostFoundError::NotFound)
        } else if self.items()[id].reporter@ != reporter {
            Err(LostFoundError::Unauthorized)
        } else if self.items()[id].status == ItemStatus::Resolved {
            Err(LostFoundError::AlreadyResolved)
        } else {
            Ok(())
        }
    }

    /// A contract with no item.
    pub fn new() -> (c: Self)
        ensures
            c.wf(),
            c.items() == Map::<Seq<char>, Item>::empty(),
            c.id_list() == Seq::<Seq<char>>::empty(),
            c.open_count() == 0,
    {
        let c = LostAndFoundContract { table: Table::new(), open: 0 };
        assert(c.table.records().dom().filter(
            |k: Seq<char>| is_unresolved()(c.table.records()[k]),
        ) =~= Set::empty());
        c
    }

    /// The id list names each item once and no other id; the open count is
    /// the number of unresolved items; a claimed item is marked claimed; an
    /// item marked claimed is never open again; an unclaimed item names its
    /// reporter as claimant.
    pub proof fn lemma_storage_consistent(&self)
        requires
            self.wf(),
        ensures
            self.id_list().no_duplicates(),
            forall|k: Seq<char>| #[trigger] self.items().contains_key(k) <==> self.id_list().contains(k),
            self.open_count() == count_where(self.items(), is_unresolved()),
            forall|k: Seq<char>| #[trigger] self.items().contains_key(k) ==> claim_agrees(self.items()[k]),
    {
        self.table.lemma_order_matches_records();
    }

    /// Whether an item's claim agrees with its status.
    pub fn agrees(i: &Item) -> (r: bool)
        ensures
            r == claim_agrees(*i),
    {
        (i.status != ItemStatus::Claimed || i.is_claimed) && (!i.is_claimed || i.status != ItemStatus::Open)
            && (i.is_claimed || i.claimant == i.reporter)
    }

    /// Whether stored parts describe a consistent contract: an id list
    /// without repeats, the item stored under each id (in the same order),
    /// each with a claim that agrees with its status, and an open count equal
    /// to the number of unresolved items.
    pub open spec fn storage_fits(ids: Seq<String>, items: Seq<Item>, open_count: u32) -> bool {
        &&& ids.len() == items.len()
        &&& texts(ids).no_duplicates()
        &&& forall|i: int| 0 <= i < items.len() ==> claim_agrees(#[trigger] items[i])
        &&& open_count == items.filter(is_unresolved()).len()
    }

    /// Rebuilds the contract from its stored parts, or nothing when they are
    /// not consistent.
    pub fn from_storage(ids: Vec<String>, items: Vec<Item>, open_count: u32) -> (r: Option<Self>)
        ensures
            r is Some <==> Self::storage_fits(ids@, items@, open_count),
            r matches Some(c) ==> {
                &&& c.wf()
                &&& c.items() == map_of(ids@, items@)
                &&& c.id_list() == texts(ids@)
                &&& c.open_count() == open_count
            },
    {
        let mut n: usize = 0;
        let mut i: usize = 0;
        proof {
            reveal(Seq::filter);
            assert(items@.take(0) =~= Seq::<Item>::empty());
        }
        while i < items.len()
            invariant
                i <= items.len(),
                n <= i,
                n == items@.take(i as int).filter(is_unresolved()).len(),
                forall|j: int| 0 <= j < i ==> claim_agrees(#[trigger] items@[j]),
            decreases items.len() - i,
        {
            proof {
                assert(items@.take(i + 1) =~= items@.take(i as int).push(items@[i as int]));
                items@.take(i as int).lemma_filter_push(items@[i as int], is_unresolved());
            }
            if !Self::agrees(&items[i]) {
                return None;
            }
            if items[i].status != ItemStatus::Resolved {
                n = n + 1;
            }
            i += 1;
        }
        assert(items@.take(items.len() as int) =~= items@);
        if open_count as usize != n {
            return None;
        }
        let ghost ids0 = ids@;
        let ghost items0 = items@;
        match Table::from_parts(ids, items) {
            None => None,
            Some(table) => {
                proof {
                    lemma_count_where_map_of(ids0, items0, is_unresolved());
                    lemma_map_of(ids0, items0);
                    assert forall|k: Seq<char>| #[trigger] table.records().contains_key(k) implies claim_agrees(
                        table.records()[k],
                    ) by {
                        let j = choose|j: int| 0 <= j < texts(ids0).len() && texts(ids0)[j] == k;
                        assert(ids0[j]@ == k);
                        assert(claim_agrees(items0[j]));
                    }
                }
                Some(LostAndFoundContract { table, open: open_count })
            },
        }
    }

    /// What the contract stores can always be read back: its id list, the
    /// item stored under each id in the same order, and its open count are
    /// parts that `from_storage` accepts and rebuilds the same contract from.
    pub proof fn lemma_storage_reads_back(self, ids: Seq<String>, items: Seq<Item>, open_count: u32)
        requires
            self.wf(),
            texts(ids) == self.id_list(),
            items.len() == ids.len(),
            forall|i: int| #![trigger items[i]] 0 <= i < ids.len() ==> items[i] == self.items()[ids[i]@],
            open_count == self.open_count(),
        ensures
            Self::storage_fits(ids, items, open_count),
            map_of(ids, items) == self.items(),
    {
        self.table.lemma_reads_back(ids, items);
        lemma_count_where_map_of(ids, items, is_unresolved());
        assert forall|i: int| 0 <= i < items.len() implies claim_agrees(#[trigger] items[i]) by {
            assert(texts(ids)[i] == ids[i]@);
            assert(self.table.order()[i] == ids[i]@);
            assert(self.table.order().contains(ids[i]@));
            self.table.lemma_order_matches_records();
            assert(self.table.records().contains_key(ids[i]@));
        }
    }

    /// Why a call is refused. A report checks the name, then the time, then
    /// that the id is free. A call naming no stored item is refused as not
    /// found. A resolved item refuses claims and resolutions as already
    /// resolved; a claimed item refuses further claims as already claimed;
    /// only the reporter resolves an item, anyone else is unauthorized.
    pub proof fn lemma_refusals(self, id: Seq<char>, who: Seq<char>, name: Seq<char>, reported_at: u64)
        ensures
            name.len() == 0 ==> self.report_result(id, name, reported_at) == Err::<(), LostFoundError>(
                LostFoundError::InvalidName,
            ),
            name.len() > 0 && reported_at == 0 ==> self.report_result(id, name, reported_at) == Err::<
                (),
                LostFoundError,
            >(LostFoundError::InvalidTimestamp),
            name.len() > 0 && reported_at != 0 && self.items().contains_key(id) ==> self.report_result(
                id,
                name,
                reported_at,
            ) == Err::<(), LostFoundError>(LostFoundError::AlreadyExists),
            !self.items().contains_key(id) ==> self.claim_result(id) == Err::<(), LostFoundError>(
                LostFoundError::NotFound,
            ) && self.resolve_result(id, who) == Err::<(), LostFoundError>(LostFoundError::NotFound),
            self.items().contains_key(id) && self.items()[id].status == ItemStatus::Resolved ==> self.claim_result(
                id,
            ) == Err::<(), LostFoundError>(LostFoundError::AlreadyResolved),
            self.items().contains_key(id) && self.items()[id].status != ItemStatus::Resolved
                && self.items()[id].is_claimed ==> self.claim_result(id) == Err::<(), LostFoundError>(
                LostFoundError::AlreadyClaimed,
            ),
            self.items().contains_key(id) && self.items()[id].reporter@ != who ==> self.resolve_result(id, who)
                == Err::<(), LostFoundError>(LostFoundError::Unauthorized),
            self.items().contains_key(id) && self.items()[id].reporter@ == who && self.items()[id].status
                == ItemStatus::Resolved ==> self.resolve_result(id, who) == Err::<(), LostFoundError>(
                LostFoundError::AlreadyResolved,
            ),
    {
    }

    /// An item is reported exactly when it has a name, a report time, and an
    /// id not yet used.
    pub proof fn lemma_report_accepts(self, id: Seq<char>, name: Seq<char>, reported_at: u64)
        ensures
            self.report_result(id, name, reported_at) is Ok <==> (name.len() > 0 && reported_at != 0
                && !self.items().contains_key(id)),
    {
    }

    /// Anyone may claim an item, the reporter included, exactly while it is
    /// neither resolved nor claimed already.
    pub proof fn lemma_anyone_claims_unclaimed(self, id: Seq<char>)
        ensures
            self.claim_result(id) is Ok <==> (self.items().contains_key(id) && self.items()[id].status
                != ItemStatus::Resolved && !self.items()[id].is_claimed),
    {
    }

    /// Only the reporter resolves an item, claimed or not, and only once.
    pub proof fn lemma_reporter_resolves(self, id: Seq<char>, reporter: Seq<char>)
        ensures
            self.resolve_result(id, reporter) is Ok <==> (self.items().contains_key(id)
                && self.items()[id].reporter@ == reporter && self.items()[id].status != ItemStatus::Resolved),
    {
    }

    /// A resolved item is final: claiming and resolving it are refused,
    /// whoever calls.
    pub proof fn lemma_resolved_is_final(self, id: Seq<char>, who: Seq<char>)
        requires
            self.items().contains_key(id),
            self.items()[id].status == ItemStatus::Resolved,
        ensures
            self.claim_result(id) == Err::<(), LostFoundError>(LostFoundError::AlreadyResolved),
            self.resolve_result(id, who) is Err,
    {
    }

    /// Records the item `id` reported by `reporter` (also its claimant until
    /// someone claims it), open and unclaimed, created at `reported_at`; the
    /// id goes to the end of the id list and the open count grows by one.
    pub fn report_item(
        &mut self,
        id: String,
        reporter: String,
        name: String,
        description: String,
        category: String,
        reported_at: u64,
    ) -> (r: Result<(), LostFoundError>)
        requires
            old(self).wf(),
            old(self).report_result(id@, name@, reported_at) is Ok ==> old(self).open_count()
                < u32::MAX,
        ensures
            final(self).wf(),
            r == old(self).report_result(id@, name@, reported_at),
            r is Err ==> *final(self) == *old(self),
            r is Ok ==> {
                &&& final(self).items() == old(self).items().insert(
                    id@,
                    (Item {
                        reporter,
                        claimant: reporter,
                        name,
                        description,
                        category,
                        status: ItemStatus::Open,
                        is_claimed: false,
                        created_at: reported_at,
                        resolved_at: 0,
                    }),
                )
                &&& final(self).id_list() == old(self).id_list().push(id@)
                &&& final(self).open_count() == old(self).open_count() + 1
            },
    {
        if name.as_str().is_empty() {
            return Err(LostFoundError::InvalidName);
        }
        if reported_at == 0 {
            return Err(LostFoundError::InvalidTimestamp);
        }
        if self.table.contains(&id) {
            return Err(LostFoundError::AlreadyExists);
        }
        let item = Item {
            reporter: reporter.clone(),
            claimant: reporter,
            name,
            description,
            category,
            status: ItemStatus::Open,
            is_claimed: false,
            created_at: reported_at,
            resolved_at: 0,
        };
        proof {
            self.table.lemma_order_matches_records();
            lemma_count_where_insert(self.table.records(), is_unresolved(), id@, item);
        }
        self.table.push(id, item);
        self.open = self.open + 1;
        Ok(())
    }

    /// Records that `claimant` claims the item `id`, which must be neither
    /// resolved nor claimed yet.
    pub fn claim_item(&mut self, id: String, claimant: String) -> (r: Result<(), LostFoundError>)
        requires
            old(self).wf(),
        ensures
            final(self).wf(),
            r == old(self).claim_result(id@),
            r is Err ==> *final(self) == *old(self),
            r is Ok ==> {
                &&& final(self).items() == old(self).items().insert(
                    id@,
                    (Item {
                        claimant,
                        is_claimed: true,
                        status: ItemStatus::Claimed,
                        ..old(self).items()[id@]
                    }),
                )
                &&& final(self).id_list() == old(self).id_list()
                &&& final(self).open_count() == old(self).open_count()
            },
    {
        let mut item = match self.table.get(&id) {
            Some(found) => found.clone(),
            None => return Err(LostFoundError::NotFound),
        };
        if item.status == ItemStatus::Resolved {
            return Err(LostFoundError::AlreadyResolved);
        }
        if item.is_claimed {
            return Err(LostFoundError::AlreadyClaimed);
        }
        item.claimant = claimant;
        item.is_claimed = true;
        item.status = ItemStatus::Claimed;
        proof {
            self.table.lemma_order_matches_records();
            lemma_count_where_insert(self.table.records(), is_unresolved(), id@, item);
        }
        self.table.set(&id, item);
        Ok(())
    }

    /// Resolves the item `id` on behalf of its reporter, recording `now` as
    /// the time of resolution; the item leaves the open count.
    pub fn mark_resolved(&mut self, id: String, reporter: String, now: u64) -> (r: Result<(), LostFoundError>)
        requires
            old(self).wf(),
        ensures
            final(self).wf(),
            r == old(self).resolve_result(id@, reporter@),
            r is Err ==> *final(self) == *old(self),
            r is Ok ==> {
                &&& final(self).items() == old(self).items().insert(
                    id@,
                    (Item { status: ItemStatus::Resolved, resolved_at: now, ..old(self).items()[id@] }),
                )
                &&& final(self).id_list() == old(self).id_list()
                &&& final(self).open_count() == old(self).open_count() - 1
            },
    {
        let mut item = match self.table.get(&id) {
            Some(found) => found.clone(),
            None => return Err(LostFoundError::NotFound),
        };
        if !(item.reporter == reporter) {
            return Err(LostFoundError::Unauthorized);
        }
        if item.status == ItemStatus::Resolved {
            return Err(LostFoundError::AlreadyResolved);
        }
        item.status = ItemStatus::Resolved;
        item.resolved_at = now;
        proof {
            self.table.lemma_order_matches_records();
            lemma_count_where_insert(self.table.records(), is_unresolved(), id@, item);
        }
        self.table.set(&id, item);
        if self.open > 0 {
            self.open = self.open - 1;
        }
        Ok(())
    }

    /// The item stored under `id`, if any.
    pub fn get_item(&self, id: String) -> (r: Option<Item>)
        requires
            self.wf(),
        ensures
            r == (if self.items().contains_key(id@) {
                Some(self.items()[id@])
            } else {
                None
            }),
    {
        match self.table.get(&id) {
            Some(found) => Some(found.clone()),
            None => None,
        }
    }

    /// The item ids, in the order in which the items were reported.
    pub fn list_items(&self) -> (r: Vec<String>)
        requires
            self.wf(),
        ensures
            texts(r@) == self.id_list(),
    {
        self.table.ids()
    }

    /// The stored count of unresolved items.
    pub fn get_open_count(&self) -> (r: u32)
        requires
            self.wf(),
        ensures
            r == self.open_count(),
    {
        self.open
    }
}

} // verus!
