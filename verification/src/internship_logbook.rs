//! Internship logbook: logbooks to which interns each add one entry, approved and closed by their mentor.
//!
//! Text values stand for the ledger's values: an id and a tag are the text
//! of a symbol, an account is the text form of an address. The caller has
//! already checked that the account acting in a call authorised it; `now` is
//! the ledger's timestamp at the call.
use vstd::prelude::*;
use crate::table::{
    texts, pair_texts, map_of, lemma_map_of, flags_for, flags_name_stored, Table, FlagSet,
    flags_counted, lemma_flags_counted_new, lemma_flags_counted_same, lemma_flags_counted_push,
};

verus! {

/// Where a logbook stands.
#[derive(Clone, Copy, Debug, PartialEq, Eq, Structural)]
pub enum LogbookStatus {
    Open,
    Updated,
    Approved,
    Closed,
}

/// A logbook.
#[derive(Debug)]
pub struct InternshipLog {
    pub mentor: String,
    pub intern: String,
    pub title: String,
    pub details: String,
    pub tag: String,
    pub status: LogbookStatus,
    pub entry_count: u32,
    pub created_at: u64,
    pub updated_at: u64,
}

impl Clone for InternshipLog {
    fn clone(&self) -> (r: Self)
        ensures
            r == *self,
    {
        InternshipLog {
            mentor: self.mentor.clone(),
            intern: self.intern.clone(),
            title: self.title.clone(),
            details: self.details.clone(),
            tag: self.tag.clone(),
            status: self.status,
            entry_count: self.entry_count,
            created_at: self.created_at,
            updated_at: self.updated_at,
        }
    }
}

/// Why a call was refused.
#[derive(Clone, Copy, Debug, PartialEq, Eq, PartialOrd, Ord, Structural)]
pub enum InternshipLogError {
    InvalidTitle,
    InvalidTimestamp,
    NotFound,
    Unauthorized,
    AlreadyExists,
    AlreadyActed,
    Closed,
}

impl InternshipLogError {
    /// The number by which the ledger reports this error.
    pub open spec fn spec_code(self) -> u32 {
        match self {
            InternshipLogError::InvalidTitle => 1,
            InternshipLogError::InvalidTimestamp => 2,
            InternshipLogError::NotFound => 3,
            InternshipLogError::Unauthorized => 4,
            InternshipLogError::AlreadyExists => 5,
            InternshipLogError::AlreadyActed => 6,
            InternshipLogError::Closed => 7,
        }
    }

    /// The number by which the ledger reports this error.
    pub fn code(&self) -> (c: u32)
        ensures
            c == self.spec_code(),
    {
        match self {
            InternshipLogError::InvalidTitle => 1,
            InternshipLogError::InvalidTimestamp => 2,
            InternshipLogError::NotFound => 3,
            InternshipLogError::Unauthorized => 4,
            InternshipLogError::AlreadyExists => 5,
            InternshipLogError::AlreadyActed => 6,
            InternshipLogError::Closed => 7,
        }
    }
}

/// The number of accounts that have added an entry to a logbook.
pub open spec fn entry_count_of() -> spec_fn(InternshipLog) -> nat {
    |r: InternshipLog| r.entry_count as nat
}

/// The contract's storage: the logbooks by id, the id list, and a flag
/// for each account that has added an entry to a logbook.
pub struct InternshipLogbookContract {
    table: Table<InternshipLog>,
    acted: FlagSet,
}

impl InternshipLogbookContract {
    /// The storage is consistent: the id list and the logbooks agree,
    /// every flag names a stored logbook, and the count of each logbook is the
    /// number of flags that name it.
    pub closed spec fn wf(&self) -> bool {
        &&& self.table.wf()
        &&& self.acted.wf()
        &&& flags_counted(self.table.records(), self.acted.flags(), entry_count_of())
    }

    /// The logbook stored under each id.
    pub closed spec fn records(&self) -> Map<Seq<char>, InternshipLog> {
        self.table.records()
    }

    /// The ids, in the order in which the logbooks were created.
    pub closed spec fn id_list(&self) -> Seq<Seq<char>> {
        self.table.order()
    }

    /// The (id, account) pairs for which the account has added an entry to the logbook,
    /// in the order in which they did.
    pub closed spec fn acted_flags(&self) -> Seq<(Seq<char>, Seq<char>)> {
        self.acted.flags()
    }

    /// What `create_logbook` answers.
    pub open spec fn create_result(self, id: Seq<char>, title: Seq<char>, created_at: u64) -> Result<(), InternshipLogError> {
        if title.len() == 0 {
            Err(InternshipLogError::InvalidTitle)
        } else if created_at == 0 {
            Err(InternshipLogError::InvalidTimestamp)
        } else if self.records().contains_key(id) {
            Err(InternshipLogError::AlreadyExists)
        } else {
            Ok(())
        }
    }

    /// What `add_entry` answers.
    pub open spec fn act_result(self, id: Seq<char>, intern: Seq<char>) -> Result<(), InternshipLogError> {
        if !self.records().contains_key(id) {
            Err(InternshipLogError::NotFound)
        } else if self.records()[id].status == LogbookStatus::Closed {
            Err(InternshipLogError::Closed)
        } else if self.acted_flags().contains((id, intern)) {
            Err(InternshipLogError::AlreadyActed)
        } else {
            Ok(())
        }
    }

    /// What a call by `mentor` that moves the logbook `id` on answers.
    pub open spec fn mentor_check(self, id: Seq<char>, mentor: Seq<char>) -> Result<(), InternshipLogError> {
        if !self.records().contains_key(id) {
            Err(InternshipLogError::NotFound)
        } else if self.records()[id].mentor@ != mentor {
            Err(InternshipLogError::Unauthorized)
        } else if self.records()[id].status == LogbookStatus::Closed {
            Err(InternshipLogError::Closed)
        } else {
            Ok(())
        }
    }

    /// A contract with no logbook.
    pub fn new() -> (c: Self)
        ensures
            c.wf(),
            c.records() == Map::<Seq<char>, InternshipLog>::empty(),
            c.id_list() == Seq::<Seq<char>>::empty(),
            c.acted_flags() == Seq::<(Seq<char>, Seq<char>)>::empty(),
    {
        InternshipLogbookContract { table: Table::new(), acted: FlagSet::new() }
    }

    /// The id list names each logbook once and no other id; each account has
    /// added an entry to a logbook at most once; every flag names a stored logbook; and the
    /// count of each logbook is the number of accounts that have added an entry to it.
    pub proof fn lemma_storage_consistent(&self)
        requires
            self.wf(),
        ensures
            self.id_list().no_duplicates(),
            forall|k: Seq<char>| #[trigger] self.records().contains_key(k) <==> self.id_list().contains(k),
            self.acted_flags().no_duplicates(),
            flags_counted(self.records(), self.acted_flags(), entry_count_of()),
    {
        self.table.lemma_order_matches_records();
        self.acted.lemma_set_once();
    }

    /// Whether stored parts describe a consistent contract: an id list
    /// without repeats, the logbook stored under each id (in the same order),
    /// and flags, each set once, that name stored logbooks and number as
    /// many for each logbook as its count.
    pub open spec fn storage_fits(
        ids: Seq<String>,
        records: Seq<InternshipLog>,
        acted: Seq<(String, String)>,
    ) -> bool {
        &&& ids.len() == records.len()
        &&& texts(ids).no_duplicates()
        &&& pair_texts(acted).no_duplicates()
        &&& flags_counted(map_of(ids, records), pair_texts(acted), entry_count_of())
    }

    /// Rebuilds the contract from its stored parts, or nothing when they are
    /// not consistent.
    pub fn from_storage(ids: Vec<String>, records: Vec<InternshipLog>, acted: Vec<(String, String)>) -> (r: Option<Self>)
        ensures
            r is Some <==> Self::storage_fits(ids@, records@, acted@),
            r matches Some(c) ==> {
                &&& c.wf()
                &&& c.records() == map_of(ids@, records@)
                &&& c.id_list() == texts(ids@)
                &&& c.acted_flags() == pair_texts(acted@)
            },
    {
        let ghost ids0 = ids@;
        let ghost records0 = records@;
        let ghost acted0 = acted@;
        let table = match Table::from_parts(ids, records) {
            Some(t) => t,
            None => return None,
        };
        let flags = match FlagSet::from_pairs(acted) {
            Some(f) => f,
            None => return None,
        };
        proof {
            lemma_map_of(ids0, records0);
        }
        if !flags_name_stored(&flags, &table) {
            return None;
        }
        let list = table.ids();
        let mut i: usize = 0;
        while i < list.len()
            invariant
                table.wf(),
                ids0 == ids@,
                records0 == records@,
                acted0 == acted@,
                table.records() == map_of(ids0, records0),
                flags.flags() == pair_texts(acted0),
                texts(list@) == table.order(),
                i <= list.len(),
                forall|j: int|
                    0 <= j < i ==> entry_count_of()(table.records()[#[trigger] texts(list@)[j]])
                        == flags_for(flags.flags(), texts(list@)[j]),
            decreases list.len() - i,
        {
            assert(texts(list@)[i as int] == list@[i as int]@);
            assert(table.order().contains(list@[i as int]@));
            proof {
                table.lemma_order_matches_records();
            }
            let n = match table.get(&list[i]) {
                Some(found) => found.entry_count,
                None => 0,
            };
            if n as usize != flags.count_for(&list[i]) {
                assert(table.records().contains_key(list@[i as int]@));
                assert(entry_count_of()(table.records()[list@[i as int]@]) != flags_for(
                    flags.flags(),
                    list@[i as int]@,
                ));
                return None;
            }
            i += 1;
        }
        proof {
            table.lemma_order_matches_records();
            assert forall|k: Seq<char>| #[trigger] table.records().contains_key(k) implies entry_count_of()(
                table.records()[k],
            ) == flags_for(flags.flags(), k) by {
                let j = choose|j: int| 0 <= j < texts(list@).len() && texts(list@)[j] == k;
            }
        }
        Some(InternshipLogbookContract { table, acted: flags })
    }

    /// What the contract stores can always be read back: its id list, the
    /// logbook stored under each id in the same order, and its flags are parts
    /// that `from_storage` accepts and rebuilds the same contract from.
    pub proof fn lemma_storage_reads_back(
        self,
        ids: Seq<String>,
        records: Seq<InternshipLog>,
        acted: Seq<(String, String)>,
    )
        requires
            self.wf(),
            texts(ids) == self.id_list(),
            records.len() == ids.len(),
            forall|i: int| #![trigger records[i]] 0 <= i < ids.len() ==> records[i] == self.records()[ids[i]@],
            pair_texts(acted) == self.acted_flags(),
        ensures
            Self::storage_fits(ids, records, acted),
            map_of(ids, records) == self.records(),
    {
        self.table.lemma_reads_back(ids, records);
        self.acted.lemma_set_once();
    }

    /// The (id, account) pairs for which the account has added an entry to the logbook,
    /// in the order in which they did.
    pub fn acted_pairs(&self) -> (r: Vec<(String, String)>)
        ensures
            pair_texts(r@) == self.acted_flags(),
    {
        self.acted.pairs()
    }

    /// A closed logbook is final: acting on it, marking it approved and
    /// marking it closed are all refused, whoever calls.
    pub proof fn lemma_closed_is_final(self, id: Seq<char>, who: Seq<char>)
        requires
            self.records().contains_key(id),
            self.records()[id].status == LogbookStatus::Closed,
        ensures
            self.act_result(id, who) is Err,
            self.mentor_check(id, who) is Err,
    {
    }

    /// Any account that has not yet acted on a logbook may act on it, its
    /// mentor included: `add_entry` is accepted exactly when the logbook exists,
    /// is not closed, and the caller has not acted on it before.
    pub proof fn lemma_any_account_acts_once(self, id: Seq<char>, who: Seq<char>)
        ensures
            self.act_result(id, who) is Ok <==> (self.records().contains_key(id) && self.records()[id].status
                != LogbookStatus::Closed && !self.acted_flags().contains((id, who))),
    {
    }

    /// Only the mentor of a logbook moves it on, and only until it is
    /// closed: such a call is accepted exactly when the logbook exists,
    /// the caller is its mentor, and it is not closed.
    pub proof fn lemma_only_mentor_moves_on(self, id: Seq<char>, who: Seq<char>)
        ensures
            self.mentor_check(id, who) is Ok <==> (self.records().contains_key(id) && self.records()[id].mentor@
                == who && self.records()[id].status != LogbookStatus::Closed),
    {
    }

    /// Why a call is refused. A logbook is created only with a title and a
    /// creation time, under an id not yet used, the title being checked
    /// first. A call naming no stored logbook is refused as not found; a call
    /// to move a logbook on by anyone but its mentor is refused as
    /// unauthorized; a logbook that is closed refuses acting and moving on
    /// as closed; and an account that has acted on a logbook already is
    /// refused as having acted.
    pub proof fn lemma_refusals(self, id: Seq<char>, who: Seq<char>, title: Seq<char>, created_at: u64)
        ensures
            title.len() == 0 ==> self.create_result(id, title, created_at) == Err::<(), InternshipLogError>(
                InternshipLogError::InvalidTitle,
            ),
            title.len() > 0 && created_at == 0 ==> self.create_result(id, title, created_at) == Err::<
                (),
                InternshipLogError,
            >(InternshipLogError::InvalidTimestamp),
            title.len() > 0 && created_at != 0 && self.records().contains_key(id) ==> self.create_result(
                id,
                title,
                created_at,
            ) == Err::<(), InternshipLogError>(InternshipLogError::AlreadyExists),
            !self.records().contains_key(id) ==> self.act_result(id, who) == Err::<(), InternshipLogError>(
                InternshipLogError::NotFound,
            ) && self.mentor_check(id, who) == Err::<(), InternshipLogError>(InternshipLogError::NotFound),
            self.records().contains_key(id) && self.records()[id].mentor@ != who ==> self.mentor_check(id, who)
                == Err::<(), InternshipLogError>(InternshipLogError::Unauthorized),
            self.records().contains_key(id) && self.records()[id].status == LogbookStatus::Closed ==> self.act_result(
                id,
                who,
            ) == Err::<(), InternshipLogError>(InternshipLogError::Closed) && (self.records()[id].mentor@ == who ==> self.mentor_check(
                id,
                who,
            ) == Err::<(), InternshipLogError>(InternshipLogError::Closed)),
            self.records().contains_key(id) && self.records()[id].status != LogbookStatus::Closed
                && self.acted_flags().contains((id, who)) ==> self.act_result(id, who) == Err::<(), InternshipLogError>(
                InternshipLogError::AlreadyActed,
            ),
    {
    }

    /// Creates the logbook `id`, held by `mentor` (who is also its last
    /// intern), in status open, with a count of zero, created (and
    /// last updated) at `created_at`; the id goes to the end of the id list.
    pub fn create_logbook(
        &mut self,
        id: String,
        mentor: String,
        title: String,
        details: String,
        tag: String,
        created_at: u64,
    ) -> (r: Result<(), InternshipLogError>)
        requires
            old(self).wf(),
        ensures
            final(self).wf(),
            r == old(self).create_result(id@, title@, created_at),
            r is Err ==> *final(self) == *old(self),
            r is Ok ==> {
                &&& final(self).records() == old(self).records().insert(
                    id@,
                    (InternshipLog {
                        mentor: mentor,
                        intern: mentor,
                        title,
                        details,
                        tag,
                        status: LogbookStatus::Open,
                        entry_count: 0,
                        created_at,
                        updated_at: created_at,
                    }),
                )
                &&& final(self).id_list() == old(self).id_list().push(id@)
                &&& final(self).acted_flags() == old(self).acted_flags()
            },
    {
        if title.as_str().is_empty() {
            return Err(InternshipLogError::InvalidTitle);
        }
        if created_at == 0 {
            return Err(InternshipLogError::InvalidTimestamp);
        }
        if self.table.contains(&id) {
            return Err(InternshipLogError::AlreadyExists);
        }
        let record = InternshipLog {
            mentor: mentor.clone(),
            intern: mentor,
            title,
            details,
            tag,
            status: LogbookStatus::Open,
            entry_count: 0,
            created_at,
            updated_at: created_at,
        };
        proof {
            lemma_flags_counted_new(self.table.records(), self.acted.flags(), entry_count_of(), id@, record);
        }
        self.table.push(id, record);
        Ok(())
    }

    /// Records that the calling account has added an entry to the logbook `id`: they become its last
    /// intern, its count grows by one, its status becomes updated, and
    /// `now` is recorded as the time of the update. Each account may do so
    /// once per logbook.
    pub fn add_entry(&mut self, id: String, intern: String, now: u64) -> (r: Result<(), InternshipLogError>)
        requires
            old(self).wf(),
            old(self).act_result(id@, intern@) is Ok ==> old(self).records()[id@].entry_count < u32::MAX,
        ensures
            final(self).wf(),
            r == old(self).act_result(id@, intern@),
            r is Err ==> *final(self) == *old(self),
            r is Ok ==> {
                &&& final(self).records() == old(self).records().insert(
                    id@,
                    (InternshipLog {
                        intern: intern,
                        entry_count: (old(self).records()[id@].entry_count + 1) as u32,
                        status: LogbookStatus::Updated,
                        updated_at: now,
                        ..old(self).records()[id@]
                    }),
                )
                &&& final(self).id_list() == old(self).id_list()
                &&& final(self).acted_flags() == old(self).acted_flags().push((id@, intern@))
            },
    {
        let mut record = match self.table.get(&id) {
            Some(found) => found.clone(),
            None => return Err(InternshipLogError::NotFound),
        };
        if record.status == LogbookStatus::Closed {
            return Err(InternshipLogError::Closed);
        }
        if self.acted.contains(&id, &intern) {
            return Err(InternshipLogError::AlreadyActed);
        }
        record.intern = intern.clone();
        record.entry_count = record.entry_count + 1;
        record.status = LogbookStatus::Updated;
        record.updated_at = now;
        proof {
            lemma_flags_counted_push(
                self.table.records(),
                self.acted.flags(),
                entry_count_of(),
                id@,
                intern@,
                record,
            );
        }
        self.table.set(&id, record);
        self.acted.insert(id, intern);
        Ok(())
    }

    /// Moves the logbook `id` to `status` on behalf of its mentor,
    /// recording `now` as the time of the update.
    fn move_to(&mut self, id: String, mentor: String, status: LogbookStatus, now: u64) -> (r: Result<(), InternshipLogError>)
        requires
            old(self).wf(),
        ensures
            final(self).wf(),
            r == old(self).mentor_check(id@, mentor@),
            r is Err ==> *final(self) == *old(self),
            r is Ok ==> {
                &&& final(self).records() == old(self).records().insert(
                    id@,
                    (InternshipLog { status, updated_at: now, ..old(self).records()[id@] }),
                )
                &&& final(self).id_list() == old(self).id_list()
                &&& final(self).acted_flags() == old(self).acted_flags()
            },
    {
        let mut record = match self.table.get(&id) {
            Some(found) => found.clone(),
            None => return Err(InternshipLogError::NotFound),
        };
        if !(record.mentor == mentor) {
            return Err(InternshipLogError::Unauthorized);
        }
        if record.status == LogbookStatus::Closed {
            return Err(InternshipLogError::Closed);
        }
        record.status = status;
        record.updated_at = now;
        proof {
            lemma_flags_counted_same(self.table.records(), self.acted.flags(), entry_count_of(), id@, record);
        }
        self.table.set(&id, record);
        Ok(())
    }

    /// Marks the logbook `id` approved on behalf of its mentor, recording
    /// `now` as the time of the update.
    pub fn approve_logbook(&mut self, id: String, mentor: String, now: u64) -> (r: Result<(), InternshipLogError>)
        requires
            old(self).wf(),
        ensures
            final(self).wf(),
            r == old(self).mentor_check(id@, mentor@),
            r is Err ==> *final(self) == *old(self),
            r is Ok ==> {
                &&& final(self).records() == old(self).records().insert(
                    id@,
                    (InternshipLog { status: LogbookStatus::Approved, updated_at: now, ..old(self).records()[id@] }),
                )
                &&& final(self).id_list() == old(self).id_list()
                &&& final(self).acted_flags() == old(self).acted_flags()
            },
    {
        self.move_to(id, mentor, LogbookStatus::Approved, now)
    }

    /// Marks the logbook `id` closed, for good, on behalf of its
    /// mentor, recording `now` as the time of the update.
    pub fn close_logbook(&mut self, id: String, mentor: String, now: u64) -> (r: Result<(), InternshipLogError>)
        requires
            old(self).wf(),
        ensures
            final(self).wf(),
            r == old(self).mentor_check(id@, mentor@),
            r is Err ==> *final(self) == *old(self),
            r is Ok ==> {
                &&& final(self).records() == old(self).records().insert(
                    id@,
                    (InternshipLog { status: LogbookStatus::Closed, updated_at: now, ..old(self).records()[id@] }),
                )
                &&& final(self).id_list() == old(self).id_list()
                &&& final(self).acted_flags() == old(self).acted_flags()
            },
    {
        self.move_to(id, mentor, LogbookStatus::Closed, now)
    }

    /// The logbook stored under `id`, if any.
    pub fn get_logbook(&self, id: String) -> (r: Option<InternshipLog>)
        requires
            self.wf(),
        ensures
            r == (if self.records().contains_key(id@) {
                Some(self.records()[id@])
            } else {
                None
            }),
    {
        match self.table.get(&id) {
            Some(found) => Some(found.clone()),
            None => None,
        }
    }

    /// The ids, in the order in which the logbooks were created.
    pub fn list_logbooks(&self) -> (r: Vec<String>)
        requires
            self.wf(),
        ensures
            texts(r@) == self.id_list(),
    {
        self.table.ids()
    }

    /// The count of the logbook `id`, or zero if there is no such logbook.
    pub fn get_entry_count(&self, id: String) -> (r: u32)
        requires
            self.wf(),
        ensures
            r == (if self.records().contains_key(id@) {
                self.records()[id@].entry_count
            } else {
                0
            }),
    {
        match self.table.get(&id) {
            Some(found) => found.entry_count,
            None => 0,
        }
    }
}

} // verus!
