//! Checklist review: checklists to which checkers each submit one check, approved and archived by their lead.
//!
//! Text values stand for the ledger's values: an id and a tag are the text
//! of a symbol, an account is the text form of an address. The caller has
//! already checked that the account acting in a call authorised it; `now` is
//! the ledger's timestamp at the call.
use vstd::prelude::*;
use crate::table::{
    texts, pair_texts, map_of, lemma_map_of, flags_for, flags_name_stored, Table, FlagSet,
    flags_counted, lemma_flags_counted_new, lemma_flags_counted_same, lemma_flags_counted_push,
};

verus! {

/// Where a checklist stands.
#[derive(Clone, Copy, Debug, PartialEq, Eq, Structural)]
pub enum ChecklistStatus {
    Draft,
    Submitted,
    Approved,
    Archived,
}

/// A checklist.
#[derive(Debug)]
pub struct ChecklistRecord {
    pub lead: String,
    pub reviewer: String,
    pub title: String,
    pub details: String,
    pub tag: String,
    pub status: ChecklistStatus,
    pub check_count: u32,
    pub created_at: u64,
    pub updated_at: u64,
}

impl Clone for ChecklistRecord {
    fn clone(&self) -> (r: Self)
        ensures
            r == *self,
    {
        ChecklistRecord {
            lead: self.lead.clone(),
            reviewer: self.reviewer.clone(),
            title: self.title.clone(),
            details: self.details.clone(),
            tag: self.tag.clone(),
            status: self.status,
            check_count: self.check_count,
            created_at: self.created_at,
            updated_at: self.updated_at,
        }
    }
}

/// Why a call was refused.
#[derive(Clone, Copy, Debug, PartialEq, Eq, PartialOrd, Ord, Structural)]
pub enum ChecklistRecordError {
    InvalidTitle,
    InvalidTimestamp,
    NotFound,
    Unauthorized,
    AlreadyExists,
    AlreadyActed,
    Closed,
}

impl ChecklistRecordError {
    /// The number by which the ledger reports this error.
    pub open spec fn spec_code(self) -> u32 {
        match self {
            ChecklistRecordError::InvalidTitle => 1,
            ChecklistRecordError::InvalidTimestamp => 2,
            ChecklistRecordError::NotFound => 3,
            ChecklistRecordError::Unauthorized => 4,
            ChecklistRecordError::AlreadyExists => 5,
            ChecklistRecordError::AlreadyActed => 6,
            ChecklistRecordError::Closed => 7,
        }
    }

    /// The number by which the ledger reports this error.
    pub fn code(&self) -> (c: u32)
        ensures
            c == self.spec_code(),
    {
        match self {
            ChecklistRecordError::InvalidTitle => 1,
            ChecklistRecordError::InvalidTimestamp => 2,
            ChecklistRecordError::NotFound => 3,
            ChecklistRecordError::Unauthorized => 4,
            ChecklistRecordError::AlreadyExists => 5,
            ChecklistRecordError::AlreadyActed => 6,
            ChecklistRecordError::Closed => 7,
        }
    }
}

/// The number of accounts that have submitted a check for a checklist.
pub open spec fn check_count_of() -> spec_fn(ChecklistRecord) -> nat {
    |r: ChecklistRecord| r.check_count as nat
}

/// The contract's storage: the checklists by id, the id list, and a flag
/// for each account that has submitted a check for a checklist.
pub struct ChecklistReviewContract {
    table: Table<ChecklistRecord>,
    acted: FlagSet,
}

impl ChecklistReviewContract {
    /// The storage is consistent: the id list and the checklists agree,
    /// every flag names a stored checklist, and the count of each checklist is the
    /// number of flags that name it.
    pub closed spec fn wf(&self) -> bool {
        &&& self.table.wf()
        &&& self.acted.wf()
        &&& flags_counted(self.table.records(), self.acted.flags(), check_count_of())
    }

    /// The checklist stored under each id.
    pub closed spec fn records(&self) -> Map<Seq<char>, ChecklistRecord> {
        self.table.records()
    }

    /// The ids, in the order in which the checklists were created.
    pub closed spec fn id_list(&self) -> Seq<Seq<char>> {
        self.table.order()
    }

    /// The (id, account) pairs for which the account has submitted a check for the checklist,
    /// in the order in which they did.
    pub closed spec fn acted_flags(&self) -> Seq<(Seq<char>, Seq<char>)> {
        self.acted.flags()
    }

    /// What `create_checklist` answers.
    pub open spec fn create_result(self, id: Seq<char>, title: Seq<char>, created_at: u64) -> Result<(), ChecklistRecordError> {
        if title.len() == 0 {
            Err(ChecklistRecordError::InvalidTitle)
        } else if created_at == 0 {
            Err(ChecklistRecordError::InvalidTimestamp)
        } else if self.records().contains_key(id) {
            Err(ChecklistRecordError::AlreadyExists)
        } else {
            Ok(())
        }
    }

    /// What `submit_check` answers.
    pub open spec fn act_result(self, id: Seq<char>, reviewer: Seq<char>) -> Result<(), ChecklistRecordError> {
        if !self.records().contains_key(id) {
            Err(ChecklistRecordError::NotFound)
        } else if self.records()[id].status == ChecklistStatus::Archived {
            Err(ChecklistRecordError::Closed)
        } else if self.acted_flags().contains((id, reviewer)) {
            Err(ChecklistRecordError::AlreadyActed)
        } else {
            Ok(())
        }
    }

    /// What a call by `lead` that moves the checklist `id` on answers.
    pub open spec fn lead_check(self, id: Seq<char>, lead: Seq<char>) -> Result<(), ChecklistRecordError> {
        if !self.records().contains_key(id) {
            Err(ChecklistRecordError::NotFound)
        } else if self.records()[id].lead@ != lead {
            Err(ChecklistRecordError::Unauthorized)
        } else if self.records()[id].status == ChecklistStatus::Archived {
            Err(ChecklistRecordError::Closed)
        } else {
            Ok(())
        }
    }

    /// A contract with no checklist.
    pub fn new() -> (c: Self)
        ensures
            c.wf(),
            c.records() == Map::<Seq<char>, ChecklistRecord>::empty(),
            c.id_list() == Seq::<Seq<char>>::empty(),
            c.acted_flags() == Seq::<(Seq<char>, Seq<char>)>::empty(),
    {
        ChecklistReviewContract { table: Table::new(), acted: FlagSet::new() }
    }

    /// The id list names each checklist once and no other id; each account has
    /// submitted a check for a checklist at most once; every flag names a stored checklist; and the
    /// count of each checklist is the number of accounts that have submitted a check for it.
    pub proof fn lemma_storage_consistent(&self)
        requires
            self.wf(),
        ensures
            self.id_list().no_duplicates(),
            forall|k: Seq<char>| #[trigger] self.records().contains_key(k) <==> self.id_list().contains(k),
            self.acted_flags().no_duplicates(),
            flags_counted(self.records(), self.acted_flags(), check_count_of()),
    {
        self.table.lemma_order_matches_records();
        self.acted.lemma_set_once();
    }

    /// Whether stored parts describe a consistent contract: an id list
    /// without repeats, the checklist stored under each id (in the same order),
    /// and flags, each set once, that name stored checklists and number as
    /// many for each checklist as its count.
    pub open spec fn storage_fits(
        ids: Seq<String>,
        records: Seq<ChecklistRecord>,
        acted: Seq<(String, String)>,
    ) -> bool {
        &&& ids.len() == records.len()
        &&& texts(ids).no_duplicates()
        &&& pair_texts(acted).no_duplicates()
        &&& flags_counted(map_of(ids, records), pair_texts(acted), check_count_of())
    }

    /// Rebuilds the contract from its stored parts, or nothing when they are
    /// not consistent.
    pub fn from_storage(ids: Vec<String>, records: Vec<ChecklistRecord>, acted: Vec<(String, String)>) -> (r: Option<Self>)
        ensures
            r is Some <==> Self::storage_fits(ids@, records@, acted@),
            r matches Some(c) ==> {
                &&& c.wf()
                &&& c.records() == map_of(ids@, records@)
                &&& c.id_list() == texts(ids@)
                &&& c.acted_flags() == pair_texts(acted@)
            },
    {
        let ghost ids0 = ids@;
        let ghost records0 = records@;
        let ghost acted0 = acted@;
        let table = match Table::from_parts(ids, records) {
            Some(t) => t,
            None => return None,
        };
        let flags = match FlagSet::from_pairs(acted) {
            Some(f) => f,
            None => return None,
        };
        proof {
            lemma_map_of(ids0, records0);
        }
        if !flags_name_stored(&flags, &table) {
            return None;
        }
        let list = table.ids();
        let mut i: usize = 0;
        while i < list.len()
            invariant
                table.wf(),
                ids0 == ids@,
                records0 == records@,
                acted0 == acted@,
                table.records() == map_of(ids0, records0),
                flags.flags() == pair_texts(acted0),
                texts(list@) == table.order(),
                i <= list.len(),
                forall|j: int|
                    0 <= j < i ==> check_count_of()(table.records()[#[trigger] texts(list@)[j]])
                        == flags_for(flags.flags(), texts(list@)[j]),
            decreases list.len() - i,
        {
            assert(texts(list@)[i as int] == list@[i as int]@);
            assert(table.order().contains(list@[i as int]@));
            proof {
                table.lemma_order_matches_records();
            }
            let n = match table.get(&list[i]) {
                Some(found) => found.check_count,
                None => 0,
            };
            if n as usize != flags.count_for(&list[i]) {
                assert(table.records().contains_key(list@[i as int]@));
                assert(check_count_of()(table.records()[list@[i as int]@]) != flags_for(
                    flags.flags(),
                    list@[i as int]@,
                ));
                return None;
            }
            i += 1;
        }
        proof {
            table.lemma_order_matches_records();
            assert forall|k: Seq<char>| #[trigger] table.records().contains_key(k) implies check_count_of()(
                table.records()[k],
            ) == flags_for(flags.flags(), k) by {
                let j = choose|j: int| 0 <= j < texts(list@).len() && texts(list@)[j] == k;
            }
        }
        Some(ChecklistReviewContract { table, acted: flags })
    }

    /// What the contract stores can always be read back: its id list, the
    /// checklist stored under each id in the same order, and its flags are parts
    /// that `from_storage` accepts and rebuilds the same contract from.
    pub proof fn lemma_storage_reads_back(
        self,
        ids: Seq<String>,
        records: Seq<ChecklistRecord>,
        acted: Seq<(String, String)>,
    )
        requires
            self.wf(),
            texts(ids) == self.id_list(),
            records.len() == ids.len(),
            forall|i: int| #![trigger records[i]] 0 <= i < ids.len() ==> records[i] == self.records()[ids[i]@],
            pair_texts(acted) == self.acted_flags(),
        ensures
            Self::storage_fits(ids, records, acted),
            map_of(ids, records) == self.records(),
    {
        self.table.lemma_reads_back(ids, records);
        self.acted.lemma_set_once();
    }

    /// The (id, account) pairs for which the account has submitted a check for the checklist,
    /// in the order in which they did.
    pub fn acted_pairs(&self) -> (r: Vec<(String, String)>)
        ensures
            pair_texts(r@) == self.acted_flags(),
    {
        self.acted.pairs()
    }

    /// An archived checklist is final: acting on it, marking it approved and
    /// marking it archived are all refused, whoever calls.
    pub proof fn lemma_archived_is_final(self, id: Seq<char>, who: Seq<char>)
        requires
            self.records().contains_key(id),
            self.records()[id].status == ChecklistStatus::Archived,
        ensures
            self.act_result(id, who) is Err,
            self.lead_check(id, who) is Err,
    {
    }

    /// Any account that has not yet acted on a checklist may act on it, its
    /// lead included: `submit_check` is accepted exactly when the checklist exists,
    /// is not archived, and the caller has not acted on it before.
    pub proof fn lemma_any_account_acts_once(self, id: Seq<char>, who: Seq<char>)
        ensures
            self.act_result(id, who) is Ok <==> (self.records().contains_key(id) && self.records()[id].status
                != ChecklistStatus::Archived && !self.acted_flags().contains((id, who))),
    {
    }

    /// Only the lead of a checklist moves it on, and only until it is
    /// archived: such a call is accepted exactly when the checklist exists,
    /// the caller is its lead, and it is not archived.
    pub proof fn lemma_only_lead_moves_on(self, id: Seq<char>, who: Seq<char>)
        ensures
            self.lead_check(id, who) is Ok <==> (self.records().contains_key(id) && self.records()[id].lead@
                == who && self.records()[id].status != ChecklistStatus::Archived),
    {
    }

    /// Why a call is refused. A checklist is created only with a title and a
    /// creation time, under an id not yet used, the title being checked
    /// first. A call naming no stored checklist is refused as not found; a call
    /// to move a checklist on by anyone but its lead is refused as
    /// unauthorized; a checklist that is archived refuses acting and moving on
    /// as closed; and an account that has acted on a checklist already is
    /// refused as having acted.
    pub proof fn lemma_refusals(self, id: Seq<char>, who: Seq<char>, title: Seq<char>, created_at: u64)
        ensures
            title.len() == 0 ==> self.create_result(id, title, created_at) == Err::<(), ChecklistRecordError>(
                ChecklistRecordError::InvalidTitle,
            ),
            title.len() > 0 && created_at == 0 ==> self.create_result(id, title, created_at) == Err::<
                (),
                ChecklistRecordError,
            >(ChecklistRecordError::InvalidTimestamp),
            title.len() > 0 && created_at != 0 && self.records().contains_key(id) ==> self.create_result(
                id,
                title,
                created_at,
            ) == Err::<(), ChecklistRecordError>(ChecklistRecordError::AlreadyExists),
            !self.records().contains_key(id) ==> self.act_result(id, who) == Err::<(), ChecklistRecordError>(
                ChecklistRecordError::NotFound,
            ) && self.lead_check(id, who) == Err::<(), ChecklistRecordError>(ChecklistRecordError::NotFound),
            self.records().contains_key(id) && self.records()[id].lead@ != who ==> self.lead_check(id, who)
                == Err::<(), ChecklistRecordError>(ChecklistRecordError::Unauthorized),
            self.records().contains_key(id) && self.records()[id].status == ChecklistStatus::Archived ==> self.act_result(
                id,
                who,
            ) == Err::<(), ChecklistRecordError>(ChecklistRecordError::Closed) && (self.records()[id].lead@ == who ==> self.lead_check(
                id,
                who,
            ) == Err::<(), ChecklistRecordError>(ChecklistRecordError::Closed)),
            self.records().contains_key(id) && self.records()[id].status != ChecklistStatus::Archived
                && self.acted_flags().contains((id, who)) ==> self.act_result(id, who) == Err::<(), ChecklistRecordError>(
                ChecklistRecordError::AlreadyActed,
            ),
    {
    }

    /// Creates the checklist `id`, held by `lead` (who is also its last
    /// checker), in status draft, with a count of zero, created (and
    /// last updated) at `created_at`; the id goes to the end of the id list.
    pub fn create_checklist(
        &mut self,
        id: String,
        lead: String,
        title: String,
        details: String,
        tag: String,
        created_at: u64,
    ) -> (r: Result<(), ChecklistRecordError>)
        requires
            old(self).wf(),
        ensures
            final(self).wf(),
            r == old(self).create_result(id@, title@, created_at),
            r is Err ==> *final(self) == *old(self),
            r is Ok ==> {
                &&& final(self).records() == old(self).records().insert(
                    id@,
                    (ChecklistRecord {
                        lead: lead,
                        reviewer: lead,
                        title,
                        details,
                        tag,
                        status: ChecklistStatus::Draft,
                        check_count: 0,
                        created_at,
                        updated_at: created_at,
                    }),
                )
                &&& final(self).id_list() == old(self).id_list().push(id@)
                &&& final(self).acted_flags() == old(self).acted_flags()
            },
    {
        if title.as_str().is_empty() {
            return Err(ChecklistRecordError::InvalidTitle);
        }
        if created_at == 0 {
            return Err(ChecklistRecordError::InvalidTimestamp);
        }
        if self.table.contains(&id) {
            return Err(ChecklistRecordError::AlreadyExists);
        }
        let record = ChecklistRecord {
            lead: lead.clone(),
            reviewer: lead,
            title,
            details,
            tag,
            status: ChecklistStatus::Draft,
            check_count: 0,
            created_at,
            updated_at: created_at,
        };
        proof {
            lemma_flags_counted_new(self.table.records(), self.acted.flags(), check_count_of(), id@, record);
        }
        self.table.push(id, record);
        Ok(())
    }

    /// Records that the calling account has submitted a check for the checklist `id`: they become its last
    /// checker, its count grows by one, its status becomes submitted, and
    /// `now` is recorded as the time of the update. Each account may do so
    /// once per checklist.
    pub fn submit_check(&mut self, id: String, reviewer: String, now: u64) -> (r: Result<(), ChecklistRecordError>)
        requires
            old(self).wf(),
            old(self).act_result(id@, reviewer@) is Ok ==> old(self).records()[id@].check_count < u32::MAX,
        ensures
            final(self).wf(),
            r == old(self).act_result(id@, reviewer@),
            r is Err ==> *final(self) == *old(self),
            r is Ok ==> {
                &&& final(self).records() == old(self).records().insert(
                    id@,
                    (ChecklistRecord {
                        reviewer: reviewer,
                        check_count: (old(self).records()[id@].check_count + 1) as u32,
                        status: ChecklistStatus::Submitted,
                        updated_at: now,
                        ..old(self).records()[id@]
                    }),
                )
                &&& final(self).id_list() == old(self).id_list()
                &&& final(self).acted_flags() == old(self).acted_flags().push((id@, reviewer@))
            },
    {
        let mut record = match self.table.get(&id) {
            Some(found) => found.clone(),
            None => return Err(ChecklistRecordError::NotFound),
        };
        if record.status == ChecklistStatus::Archived {
            return Err(ChecklistRecordError::Closed);
        }
        if self.acted.contains(&id, &reviewer) {
            return Err(ChecklistRecordError::AlreadyActed);
        }
        record.reviewer = reviewer.clone();
        record.check_count = record.check_count + 1;
        record.status = ChecklistStatus::Submitted;
        record.updated_at = now;
        proof {
            lemma_flags_counted_push(
                self.table.records(),
                self.acted.flags(),
                check_count_of(),
                id@,
                reviewer@,
                record,
            );
        }
        self.table.set(&id, record);
        self.acted.insert(id, reviewer);
        Ok(())
    }

    /// Moves the checklist `id` to `status` on behalf of its lead,
    /// recording `now` as the time of the update.
    fn move_to(&mut self, id: String, lead: String, status: ChecklistStatus, now: u64) -> (r: Result<(), ChecklistRecordError>)
        requires
            old(self).wf(),
        ensures
            final(self).wf(),
            r == old(self).lead_check(id@, lead@),
            r is Err ==> *final(self) == *old(self),
            r is Ok ==> {
                &&& final(self).records() == old(self).records().insert(
                    id@,
                    (ChecklistRecord { status, updated_at: now, ..old(self).records()[id@] }),
                )
                &&& final(self).id_list() == old(self).id_list()
                &&& final(self).acted_flags() == old(self).acted_flags()
            },
    {
        let mut record = match self.table.get(&id) {
            Some(found) => found.clone(),
            None => return Err(ChecklistRecordError::NotFound),
        };
        if !(record.lead == lead) {
            return Err(ChecklistRecordError::Unauthorized);
        }
        if record.status == ChecklistStatus::Archived {
            return Err(ChecklistRecordError::Closed);
        }
        record.status = status;
        record.updated_at = now;
        proof {
            lemma_flags_counted_same(self.table.records(), self.acted.flags(), check_count_of(), id@, record);
        }
        self.table.set(&id, record);
        Ok(())
    }

    /// Marks the checklist `id` approved on behalf of its lead, recording
    /// `now` as the time of the update.
    pub fn approve_checklist(&mut self, id: String, lead: String, now: u64) -> (r: Result<(), ChecklistRecordError>)
        requires
            old(self).wf(),
        ensures
            final(self).wf(),
            r == old(self).lead_check(id@, lead@),
            r is Err ==> *final(self) == *old(self),
            r is Ok ==> {
                &&& final(self).records() == old(self).records().insert(
                    id@,
                    (ChecklistRecord { status: ChecklistStatus::Approved, updated_at: now, ..old(self).records()[id@] }),
                )
                &&& final(self).id_list() == old(self).id_list()
                &&& final(self).acted_flags() == old(self).acted_flags()
            },
    {
        self.move_to(id, lead, ChecklistStatus::Approved, now)
    }

    /// Marks the checklist `id` archived, for good, on behalf of its
    /// lead, recording `now` as the time of the update.
    pub fn archive_checklist(&mut self, id: String, lead: String, now: u64) -> (r: Result<(), ChecklistRecordError>)
        requires
            old(self).wf(),
        ensures
            final(self).wf(),
            r == old(self).lead_check(id@, lead@),
            r is Err ==> *final(self) == *old(self),
            r is Ok ==> {
                &&& final(self).records() == old(self).records().insert(
                    id@,
                    (ChecklistRecord { status: ChecklistStatus::Archived, updated_at: now, ..old(self).records()[id@] }),
                )
                &&& final(self).id_list() == old(self).id_list()
                &&& final(self).acted_flags() == old(self).acted_flags()
            },
    {
        self.move_to(id, lead, ChecklistStatus::Archived, now)
    }

    /// The checklist stored under `id`, if any.
    pub fn get_checklist(&self, id: String) -> (r: Option<ChecklistRecord>)
        requires
            self.wf(),
        ensures
            r == (if self.records().contains_key(id@) {
                Some(self.records()[id@])
            } else {
                None
            }),
    {
        match self.table.get(&id) {
            Some(found) => Some(found.clone()),
            None => None,
        }
    }

    /// The ids, in the order in which the checklists were created.
    pub fn list_checklists(&self) -> (r: Vec<String>)
        requires
            self.wf(),
        ensures
            texts(r@) == self.id_list(),
    {
        self.table.ids()
    }

    /// The count of the checklist `id`, or zero if there is no such checklist.
    pub fn get_check_count(&self, id: String) -> (r: u32)
        requires
            self.wf(),
        ensures
            r == (if self.records().contains_key(id@) {
                self.records()[id@].check_count
            } else {
                0
            }),
    {
        match self.table.get(&id) {
            Some(found) => found.check_count,
            None => 0,
        }
    }
}

} // verus!
