//! Feedback board: feedback items on which respondents each comment once, approved and closed by their moderator.
//!
//! Text values stand for the ledger's values: an id and a tag are the text
//! of a symbol, an account is the text form of an address. The caller has
//! already checked that the account acting in a call authorised it; `now` is
//! the ledger's timestamp at the call.
use vstd::prelude::*;
use crate::table::{
    texts, pair_texts, map_of, lemma_map_of, flags_for, flags_name_stored, Table, FlagSet,
    flags_counted, lemma_flags_counted_new, lemma_flags_counted_same, lemma_flags_counted_push,
};

verus! {

/// Where a feedback item stands.
#[derive(Clone, Copy, Debug, PartialEq, Eq, Structural)]
pub enum FeedbackStatus {
    Open,
    Reviewed,
    Approved,
    Closed,
}

/// A feedback item.
#[derive(Debug)]
pub struct FeedbackRecord {
    pub moderator: String,
    pub reviewer: String,
    pub title: String,
    pub details: String,
    pub tag: String,
    pub status: FeedbackStatus,
    pub review_count: u32,
    pub created_at: u64,
    pub updated_at: u64,
}

impl Clone for FeedbackRecord {
    fn clone(&self) -> (r: Self)
        ensures
            r == *self,
    {
        FeedbackRecord {
            moderator: self.moderator.clone(),
            reviewer: self.reviewer.clone(),
            title: self.title.clone(),
            details: self.details.clone(),
            tag: self.tag.clone(),
            status: self.status,
            review_count: self.review_count,
            created_at: self.created_at,
            updated_at: self.updated_at,
        }
    }
}

/// Why a call was refused.
#[derive(Clone, Copy, Debug, PartialEq, Eq, PartialOrd, Ord, Structural)]
pub enum FeedbackRecordError {
    InvalidTitle,
    InvalidTimestamp,
    NotFound,
    Unauthorized,
    AlreadyExists,
    AlreadyActed,
    Closed,
}

impl FeedbackRecordError {
    /// The number by which the ledger reports this error.
    pub open spec fn spec_code(self) -> u32 {
        match self {
            FeedbackRecordError::InvalidTitle => 1,
            FeedbackRecordError::InvalidTimestamp => 2,
            FeedbackRecordError::NotFound => 3,
            FeedbackRecordError::Unauthorized => 4,
            FeedbackRecordError::AlreadyExists => 5,
            FeedbackRecordError::AlreadyActed => 6,
            FeedbackRecordError::Closed => 7,
        }
    }

    /// The number by which the ledger reports this error.
    pub fn code(&self) -> (c: u32)
        ensures
            c == self.spec_code(),
    {
        match self {
            FeedbackRecordError::InvalidTitle => 1,
            FeedbackRecordError::InvalidTimestamp => 2,
            FeedbackRecordError::NotFound => 3,
            FeedbackRecordError::Unauthorized => 4,
            FeedbackRecordError::AlreadyExists => 5,
            FeedbackRecordError::AlreadyActed => 6,
            FeedbackRecordError::Closed => 7,
        }
    }
}

/// The number of accounts that have reviewed a feedback item.
pub open spec fn review_count_of() -> spec_fn(FeedbackRecord) -> nat {
    |r: FeedbackRecord| r.review_count as nat
}

/// The contract's storage: the feedback items by id, the id list, and a flag
/// for each account that has reviewed a feedback item.
pub struct FeedbackBoardContract {
    table: Table<FeedbackRecord>,
    acted: FlagSet,
}

impl FeedbackBoardContract {
    /// The storage is consistent: the id list and the feedback items agree,
    /// every flag names a stored feedback item, and the count of each feedback item is the
    /// number of flags that name it.
    pub closed spec fn wf(&self) -> bool {
        &&& self.table.wf()
        &&& self.acted.wf()
        &&& flags_counted(self.table.records(), self.acted.flags(), review_count_of())
    }

    /// The feedback item stored under each id.
    pub closed spec fn records(&self) -> Map<Seq<char>, FeedbackRecord> {
        self.table.records()
    }

    /// The ids, in the order in which the feedback items were created.
    pub closed spec fn id_list(&self) -> Seq<Seq<char>> {
        self.table.order()
    }

    /// The (id, account) pairs for which the account has reviewed the feedback item,
    /// in the order in which they did.
    pub closed spec fn acted_flags(&self) -> Seq<(Seq<char>, Seq<char>)> {
        self.acted.flags()
    }

    /// What `create_feedback` answers.
    pub open spec fn create_result(self, id: Seq<char>, title: Seq<char>, created_at: u64) -> Result<(), FeedbackRecordError> {
        if title.len() == 0 {
            Err(FeedbackRecordError::InvalidTitle)
        } else if created_at == 0 {
            Err(FeedbackRecordError::InvalidTimestamp)
        } else if self.records().contains_key(id) {
            Err(FeedbackRecordError::AlreadyExists)
        } else {
            Ok(())
        }
    }

    /// What `add_review` answers.
    pub open spec fn act_result(self, id: Seq<char>, reviewer: Seq<char>) -> Result<(), FeedbackRecordError> {
        if !self.records().contains_key(id) {
            Err(FeedbackRecordError::NotFound)
        } else if self.records()[id].status == FeedbackStatus::Closed {
            Err(FeedbackRecordError::Closed)
        } else if self.acted_flags().contains((id, reviewer)) {
            Err(FeedbackRecordError::AlreadyActed)
        } else {
            Ok(())
        }
    }

    /// What a call by `moderator` that moves the feedback item `id` on answers.
    pub open spec fn moderator_check(self, id: Seq<char>, moderator: Seq<char>) -> Result<(), FeedbackRecordError> {
        if !self.records().contains_key(id) {
            Err(FeedbackRecordError::NotFound)
        } else if self.records()[id].moderator@ != moderator {
            Err(FeedbackRecordError::Unauthorized)
        } else if self.records()[id].status == FeedbackStatus::Closed {
            Err(FeedbackRecordError::Closed)
        } else {
            Ok(())
        }
    }

    /// A contract with no feedback item.
    pub fn new() -> (c: Self)
        ensures
            c.wf(),
            c.records() == Map::<Seq<char>, FeedbackRecord>::empty(),
            c.id_list() == Seq::<Seq<char>>::empty(),
            c.acted_flags() == Seq::<(Seq<char>, Seq<char>)>::empty(),
    {
        FeedbackBoardContract { table: Table::new(), acted: FlagSet::new() }
    }

    /// The id list names each feedback item once and no other id; each account has
    /// reviewed a feedback item at most once; every flag names a stored feedback item; and the
    /// count of each feedback item is the number of accounts that have reviewed it.
    pub proof fn lemma_storage_consistent(&self)
        requires
            self.wf(),
        ensures
            self.id_list().no_duplicates(),
            forall|k: Seq<char>| #[trigger] self.records().contains_key(k) <==> self.id_list().contains(k),
            self.acted_flags().no_duplicates(),
            flags_counted(self.records(), self.acted_flags(), review_count_of()),
    {
        self.table.lemma_order_matches_records();
        self.acted.lemma_set_once();
    }

    /// Whether stored parts describe a consistent contract: an id list
    /// without repeats, the feedback item stored under each id (in the same order),
    /// and flags, each set once, that name stored feedback items and number as
    /// many for each feedback item as its count.
    pub open spec fn storage_fits(
        ids: Seq<String>,
        records: Seq<FeedbackRecord>,
        acted: Seq<(String, String)>,
    ) -> bool {
        &&& ids.len() == records.len()
        &&& texts(ids).no_duplicates()
        &&& pair_texts(acted).no_duplicates()
        &&& flags_counted(map_of(ids, records), pair_texts(acted), review_count_of())
    }

    /// Rebuilds the contract from its stored parts, or nothing when they are
    /// not consistent.
    pub fn from_storage(ids: Vec<String>, records: Vec<FeedbackRecord>, acted: Vec<(String, String)>) -> (r: Option<Self>)
        ensures
            r is Some <==> Self::storage_fits(ids@, records@, acted@),
            r matches Some(c) ==> {
                &&& c.wf()
                &&& c.records() == map_of(ids@, records@)
                &&& c.id_list() == texts(ids@)
                &&& c.acted_flags() == pair_texts(acted@)
            },
    {
        let ghost ids0 = ids@;
        let ghost records0 = records@;
        let ghost acted0 = acted@;
        let table = match Table::from_parts(ids, records) {
            Some(t) => t,
            None => return None,
        };
        let flags = match FlagSet::from_pairs(acted) {
            Some(f) => f,
            None => return None,
        };
        proof {
            lemma_map_of(ids0, records0);
        }
        if !flags_name_stored(&flags, &table) {
            return None;
        }
        let list = table.ids();
        let mut i: usize = 0;
        while i < list.len()
            invariant
                table.wf(),
                ids0 == ids@,
                records0 == records@,
                acted0 == acted@,
                table.records() == map_of(ids0, records0),
                flags.flags() == pair_texts(acted0),
                texts(list@) == table.order(),
                i <= list.len(),
                forall|j: int|
                    0 <= j < i ==> review_count_of()(table.records()[#[trigger] texts(list@)[j]])
                        == flags_for(flags.flags(), texts(list@)[j]),
            decreases list.len() - i,
        {
            assert(texts(list@)[i as int] == list@[i as int]@);
            assert(table.order().contains(list@[i as int]@));
            proof {
                table.lemma_order_matches_records();
            }
            let n = match table.get(&list[i]) {
                Some(found) => found.review_count,
                None => 0,
            };
            if n as usize != flags.count_for(&list[i]) {
                assert(table.records().contains_key(list@[i as int]@));
                assert(review_count_of()(table.records()[list@[i as int]@]) != flags_for(
                    flags.flags(),
                    list@[i as int]@,
                ));
                return None;
            }
            i += 1;
        }
        proof {
            table.lemma_order_matches_records();
            assert forall|k: Seq<char>| #[trigger] table.records().contains_key(k) implies review_count_of()(
                table.records()[k],
            ) == flags_for(flags.flags(), k) by {
                let j = choose|j: int| 0 <= j < texts(list@).len() && texts(list@)[j] == k;
            }
        }
        Some(FeedbackBoardContract { table, acted: flags })
    }

    /// What the contract stores can always be read back: its id list, the
    /// feedback item stored under each id in the same order, and its flags are parts
    /// that `from_storage` accepts and rebuilds the same contract from.
    pub proof fn lemma_storage_reads_back(
        self,
        ids: Seq<String>,
        records: Seq<FeedbackRecord>,
        acted: Seq<(String, String)>,
    )
        requires
            self.wf(),
            texts(ids) == self.id_list(),
            records.len() == ids.len(),
            forall|i: int| #![trigger records[i]] 0 <= i < ids.len() ==> records[i] == self.records()[ids[i]@],
            pair_texts(acted) == self.acted_flags(),
        ensures
            Self::storage_fits(ids, records, acted),
            map_of(ids, records) == self.records(),
    {
        self.table.lemma_reads_back(ids, records);
        self.acted.lemma_set_once();
    }

    /// The (id, account) pairs for which the account has reviewed the feedback item,
    /// in the order in which they did.
    pub fn acted_pairs(&self) -> (r: Vec<(String, String)>)
        ensures
            pair_texts(r@) == self.acted_flags(),
    {
        self.acted.pairs()
    }

    /// A closed feedback item is final: acting on it, marking it approved and
    /// marking it closed are all refused, whoever calls.
    pub proof fn lemma_closed_is_final(self, id: Seq<char>, who: Seq<char>)
        requires
            self.records().contains_key(id),
            self.records()[id].status == FeedbackStatus::Closed,
        ensures
            self.act_result(id, who) is Err,
            self.moderator_check(id, who) is Err,
    {
    }

    /// Any account that has not yet acted on a feedback item may act on it, its
    /// moderator included: `add_review` is accepted exactly when the feedback item exists,
    /// is not closed, and the caller has not acted on it before.
    pub proof fn lemma_any_account_acts_once(self, id: Seq<char>, who: Seq<char>)
        ensures
            self.act_result(id, who) is Ok <==> (self.records().contains_key(id) && self.records()[id].status
                != FeedbackStatus::Closed && !self.acted_flags().contains((id, who))),
    {
    }

    /// Only the moderator of a feedback item moves it on, and only until it is
    /// closed: such a call is accepted exactly when the feedback item exists,
    /// the caller is its moderator, and it is not closed.
    pub proof fn lemma_only_moderator_moves_on(self, id: Seq<char>, who: Seq<char>)
        ensures
            self.moderator_check(id, who) is Ok <==> (self.records().contains_key(id) && self.records()[id].moderator@
                == who && self.records()[id].status != FeedbackStatus::Closed),
    {
    }

    /// Why a call is refused. A feedback item is created only with a title and a
    /// creation time, under an id not yet used, the title being checked
    /// first. A call naming no stored feedback item is refused as not found; a call
    /// to move a feedback item on by anyone but its moderator is refused as
    /// unauthorized; a feedback item that is closed refuses acting and moving on
    /// as closed; and an account that has acted on a feedback item already is
    /// refused as having acted.
    pub proof fn lemma_refusals(self, id: Seq<char>, who: Seq<char>, title: Seq<char>, created_at: u64)
        ensures
            title.len() == 0 ==> self.create_result(id, title, created_at) == Err::<(), FeedbackRecordError>(
                FeedbackRecordError::InvalidTitle,
            ),
            title.len() > 0 && created_at == 0 ==> self.create_result(id, title, created_at) == Err::<
                (),
                FeedbackRecordError,
            >(FeedbackRecordError::InvalidTimestamp),
            title.len() > 0 && created_at != 0 && self.records().contains_key(id) ==> self.create_result(
                id,
                title,
                created_at,
            ) == Err::<(), FeedbackRecordError>(FeedbackRecordError::AlreadyExists),
            !self.records().contains_key(id) ==> self.act_result(id, who) == Err::<(), FeedbackRecordError>(
                FeedbackRecordError::NotFound,
            ) && self.moderator_check(id, who) == Err::<(), FeedbackRecordError>(FeedbackRecordError::NotFound),
            self.records().contains_key(id) && self.records()[id].moderator@ != who ==> self.moderator_check(id, who)
                == Err::<(), FeedbackRecordError>(FeedbackRecordError::Unauthorized),
            self.records().contains_key(id) && self.records()[id].status == FeedbackStatus::Closed ==> self.act_result(
                id,
                who,
            ) == Err::<(), FeedbackRecordError>(FeedbackRecordError::Closed) && (self.records()[id].moderator@ == who ==> self.moderator_check(
                id,
                who,
            ) == Err::<(), FeedbackRecordError>(FeedbackRecordError::Closed)),
            self.records().contains_key(id) && self.records()[id].status != FeedbackStatus::Closed
                && self.acted_flags().contains((id, who)) ==> self.act_result(id, who) == Err::<(), FeedbackRecordError>(
                FeedbackRecordError::AlreadyActed,
            ),
    {
    }

    /// Creates the feedback item `id`, held by `moderator` (who is also its last
    /// respondent), in status open, with a count of zero, created (and
    /// last updated) at `created_at`; the id goes to the end of the id list.
    pub fn create_feedback(
        &mut self,
        id: String,
        moderator: String,
        title: String,
        details: String,
        tag: String,
        created_at: u64,
    ) -> (r: Result<(), FeedbackRecordError>)
        requires
            old(self).wf(),
        ensures
            final(self).wf(),
            r == old(self).create_result(id@, title@, created_at),
            r is Err ==> *final(self) == *old(self),
            r is Ok ==> {
                &&& final(self).records() == old(self).records().insert(
                    id@,
                    (FeedbackRecord {
                        moderator: moderator,
                        reviewer: moderator,
                        title,
                        details,
                        tag,
                        status: FeedbackStatus::Open,
                        review_count: 0,
                        created_at,
                        updated_at: created_at,
                    }),
                )
                &&& final(self).id_list() == old(self).id_list().push(id@)
                &&& final(self).acted_flags() == old(self).acted_flags()
            },
    {
        if title.as_str().is_empty() {
            return Err(FeedbackRecordError::InvalidTitle);
        }
        if created_at == 0 {
            return Err(FeedbackRecordError::InvalidTimestamp);
        }
        if self.table.contains(&id) {
            return Err(FeedbackRecordError::AlreadyExists);
        }
        let record = FeedbackRecord {
            moderator: moderator.clone(),
            reviewer: moderator,
            title,
            details,
            tag,
            status: FeedbackStatus::Open,
            review_count: 0,
            created_at,
            updated_at: created_at,
        };
        proof {
            lemma_flags_counted_new(self.table.records(), self.acted.flags(), review_count_of(), id@, record);
        }
        self.table.push(id, record);
        Ok(())
    }

    /// Records that the calling account has reviewed the feedback item `id`: they become its last
    /// respondent, its count grows by one, its status becomes reviewed, and
    /// `now` is recorded as the time of the update. Each account may do so
    /// once per feedback item.
    pub fn add_review(&mut self, id: String, reviewer: String, now: u64) -> (r: Result<(), FeedbackRecordError>)
        requires
            old(self).wf(),
            old(self).act_result(id@, reviewer@) is Ok ==> old(self).records()[id@].review_count < u32::MAX,
        ensures
            final(self).wf(),
            r == old(self).act_result(id@, reviewer@),
            r is Err ==> *final(self) == *old(self),
            r is Ok ==> {
                &&& final(self).records() == old(self).records().insert(
                    id@,
                    (FeedbackRecord {
                        reviewer: reviewer,
                        review_count: (old(self).records()[id@].review_count + 1) as u32,
                        status: FeedbackStatus::Reviewed,
                        updated_at: now,
                        ..old(self).records()[id@]
                    }),
                )
                &&& final(self).id_list() == old(self).id_list()
                &&& final(self).acted_flags() == old(self).acted_flags().push((id@, reviewer@))
            },
    {
        let mut record = match self.table.get(&id) {
            Some(found) => found.clone(),
            None => return Err(FeedbackRecordError::NotFound),
        };
        if record.status == FeedbackStatus::Closed {
            return Err(FeedbackRecordError::Closed);
        }
        if self.acted.contains(&id, &reviewer) {
            return Err(FeedbackRecordError::AlreadyActed);
        }
        record.reviewer = reviewer.clone();
        record.review_count = record.review_count + 1;
        record.status = FeedbackStatus::Reviewed;
        record.updated_at = now;
        proof {
            lemma_flags_counted_push(
                self.table.records(),
                self.acted.flags(),
                review_count_of(),
                id@,
                reviewer@,
                record,
            );
        }
        self.table.set(&id, record);
        self.acted.insert(id, reviewer);
        Ok(())
    }

    /// Moves the feedback item `id` to `status` on behalf of its moderator,
    /// recording `now` as the time of the update.
    fn move_to(&mut self, id: String, moderator: String, status: FeedbackStatus, now: u64) -> (r: Result<(), FeedbackRecordError>)
        requires
            old(self).wf(),
        ensures
            final(self).wf(),
            r == old(self).moderator_check(id@, moderator@),
            r is Err ==> *final(self) == *old(self),
            r is Ok ==> {
                &&& final(self).records() == old(self).records().insert(
                    id@,
                    (FeedbackRecord { status, updated_at: now, ..old(self).records()[id@] }),
                )
                &&& final(self).id_list() == old(self).id_list()
                &&& final(self).acted_flags() == old(self).acted_flags()
            },
    {
        let mut record = match self.table.get(&id) {
            Some(found) => found.clone(),
            None => return Err(FeedbackRecordError::NotFound),
        };
        if !(record.moderator == moderator) {
            return Err(FeedbackRecordError::Unauthorized);
        }
        if record.status == FeedbackStatus::Closed {
            return Err(FeedbackRecordError::Closed);
        }
        record.status = status;
        record.updated_at = now;
        proof {
            lemma_flags_counted_same(self.table.records(), self.acted.flags(), review_count_of(), id@, record);
        }
        self.table.set(&id, record);
        Ok(())
    }

    /// Marks the feedback item `id` approved on behalf of its moderator, recording
    /// `now` as the time of the update.
    pub fn approve_feedback(&mut self, id: String, moderator: String, now: u64) -> (r: Result<(), FeedbackRecordError>)
        requires
            old(self).wf(),
        ensures
            final(self).wf(),
            r == old(self).moderator_check(id@, moderator@),
            r is Err ==> *final(self) == *old(self),
            r is Ok ==> {
                &&& final(self).records() == old(self).records().insert(
                    id@,
                    (FeedbackRecord { status: FeedbackStatus::Approved, updated_at: now, ..old(self).records()[id@] }),
                )
                &&& final(self).id_list() == old(self).id_list()
                &&& final(self).acted_flags() == old(self).acted_flags()
            },
    {
        self.move_to(id, moderator, FeedbackStatus::Approved, now)
    }

    /// Marks the feedback item `id` closed, for good, on behalf of its
    /// moderator, recording `now` as the time of the update.
    pub fn close_feedback(&mut self, id: String, moderator: String, now: u64) -> (r: Result<(), FeedbackRecordError>)
        requires
            old(self).wf(),
        ensures
            final(self).wf(),
            r == old(self).moderator_check(id@, moderator@),
            r is Err ==> *final(self) == *old(self),
            r is Ok ==> {
                &&& final(self).records() == old(self).records().insert(
                    id@,
                    (FeedbackRecord { status: FeedbackStatus::Closed, updated_at: now, ..old(self).records()[id@] }),
                )
                &&& final(self).id_list() == old(self).id_list()
                &&& final(self).acted_flags() == old(self).acted_flags()
            },
    {
        self.move_to(id, moderator, FeedbackStatus::Closed, now)
    }

    /// The feedback item stored under `id`, if any.
    pub fn get_feedback(&self, id: String) -> (r: Option<FeedbackRecord>)
        requires
            self.wf(),
        ensures
            r == (if self.records().contains_key(id@) {
                Some(self.records()[id@])
            } else {
                None
            }),
    {
        match self.table.get(&id) {
            Some(found) => Some(found.clone()),
            None => None,
        }
    }

    /// The ids, in the order in which the feedback items were created.
    pub fn list_feedbacks(&self) -> (r: Vec<String>)
        requires
            self.wf(),
        ensures
            texts(r@) == self.id_list(),
    {
        self.table.ids()
    }

    /// The count of the feedback item `id`, or zero if there is no such feedback item.
    pub fn get_review_count(&self, id: String) -> (r: u32)
        requires
            self.wf(),
        ensures
            r == (if self.records().contains_key(id@) {
                self.records()[id@].review_count
            } else {
                0
            }),
    {
        match self.table.get(&id) {
            Some(found) => found.review_count,
            None => 0,
        }
    }
}

} // verus!
