//! Shift scheduling: shifts that managers assign to workers and workers
//! start and complete, with a counter of started shifts not yet completed.
//!
//! Text values stand for the ledger's values: an id is the text of a
//! symbol, a manager or a worker is the text form of an account address. The
//! caller has already checked that the account acting in a call authorised
//! it; `now` is the ledger's timestamp at the call.
use vstd::prelude::*;
use crate::table::{
    texts, map_of, lemma_map_of, lemma_count_where_map_of, Table, count_where,
    lemma_count_where_insert,
};

verus! {

/// Where a shift stands.
#[derive(Clone, Copy, Debug, PartialEq, Eq, Structural)]
pub enum ShiftStatus {
    Open,
    Assigned,
    Active,
    Complete,
}

/// A work shift.
#[derive(Debug)]
pub struct Shift {
    pub manager: String,
    pub worker: String,
    pub title: String,
    pub location: String,
    pub status: ShiftStatus,
    pub assigned: bool,
    pub start_time: u64,
    pub end_time: u64,
    pub created_at: u64,
}

impl Clone for Shift {
    fn clone(&self) -> (r: Self)
        ensures
            r == *self,
    {
        Shift {
            manager: self.manager.clone(),
            worker: self.worker.clone(),
            title: self.title.clone(),
            location: self.location.clone(),
            status: self.status,
            assigned: self.assigned,
            start_time: self.start_time,
            end_time: self.end_time,
            created_at: self.created_at,
        }
    }
}

/// Why a call was refused.
#[derive(Clone, Copy, Debug, PartialEq, Eq, PartialOrd, Ord, Structural)]
pub enum ShiftError {
    InvalidTitle,
    InvalidTimestamp,
    NotFound,
    Unauthorized,
    AlreadyExists,
    NotAssigned,
    ShiftNotActive,
}

impl ShiftError {
    /// The number by which the ledger reports this error.
    pub open spec fn spec_code(self) -> u32 {
        match self {
            ShiftError::InvalidTitle => 1,
            ShiftError::InvalidTimestamp => 2,
            ShiftError::NotFound => 3,
            ShiftError::Unauthorized => 4,
            ShiftError::AlreadyExists => 5,
            ShiftError::NotAssigned => 6,
            ShiftError::ShiftNotActive => 7,
        }
    }

    /// The number by which the ledger reports this error.
    pub fn code(&self) -> (c: u32)
        ensures
            c == self.spec_code(),
    {
        match self {
            ShiftError::InvalidTitle => 1,
            ShiftError::InvalidTimestamp => 2,
            ShiftError::NotFound => 3,
            ShiftError::Unauthorized => 4,
            ShiftError::AlreadyExists => 5,
            ShiftError::NotAssigned => 6,
            ShiftError::ShiftNotActive => 7,
        }
    }
}

/// Whether a shift is under way.
pub open spec fn is_active() -> spec_fn(Shift) -> bool {
    |s: Shift| s.status == ShiftStatus::Active
}

/// A shift's status agrees with its assignment: only an open shift is
/// unassigned, and an unassigned shift names its manager as worker.
pub open spec fn assignment_agrees(s: Shift) -> bool {
    &&& s.status != ShiftStatus::Open ==> s.assigned
    &&& !s.assigned ==> s.worker@ == s.manager@
}

/// The contract's storage: the shifts by id, the id list, and the counter of
/// started shifts; beside it, as ghost state, how many shifts this contract
/// has started and completed, and how many shifts under way it has
/// reassigned.
pub struct ShiftSchedulingContract {
    table: Table<Shift>,
    active: u32,
    started: Ghost<nat>,
    completed: Ghost<nat>,
    reassigned: Ghost<nat>,
}

impl ShiftSchedulingContract {
    /// The storage is consistent: the id list and the shifts agree, the
    /// counter is the number of starts less the number of completions, and
    /// it exceeds the number of shifts under way by the number of shifts
    /// reassigned while under way; every shift's status agrees with its
    /// assignment.
    pub closed spec fn wf(&self) -> bool {
        &&& self.table.wf()
        &&& self.active + self.completed@ == self.started@
        &&& self.active == count_where(self.table.records(), is_active()) + self.reassigned@
        &&& forall|k: Seq<char>| #[trigger]
            self.table.records().contains_key(k) ==> assignment_agrees(self.table.records()[k])
    }

    /// The shift stored under each id.
    pub closed spec fn shifts(&self) -> Map<Seq<char>, Shift> {
        self.table.records()
    }

    /// The shift ids, in the order in which the shifts were created.
    pub closed spec fn id_list(&self) -> Seq<Seq<char>> {
        self.table.order()
    }

    /// The stored counter of started shifts.
    pub closed spec fn active_shift_count(&self) -> nat {
        self.active as nat
    }

    /// How many shifts were started (a contract rebuilt from storage counts
    /// its stored counter as started).
    pub closed spec fn starts(&self) -> nat {
        self.started@
    }

    /// How many shifts were completed.
    pub closed spec fn completions(&self) -> nat {
        self.completed@
    }

    /// How many times a shift under way was reassigned (a contract rebuilt
    /// from storage counts its counter's excess over the shifts under way).
    pub closed spec fn running_reassignments(&self) -> nat {
        self.reassigned@
    }

    /// What `create_shift` answers.
    pub open spec fn create_result(self, id: Seq<char>, title: Seq<char>, start_time: u64, end_time: u64) -> Result<(), ShiftError> {
        if title.len() == 0 {
            Err(ShiftError::InvalidTitle)
        } else if start_time == 0 || end_time == 0 {
            Err(ShiftError::InvalidTimestamp)
        } else if self.shifts().contains_key(id) {
            Err(ShiftError::AlreadyExists)
        } else {
            Ok(())
        }
    }

    /// What `assign_shift` answers.
    pub open spec fn assign_result(self, id: Seq<char>, manager: Seq<char>) -> Result<(), ShiftError> {
        if !self.shifts().contains_key(id) {
            Err(ShiftError::NotFound)
        } else if self.shifts()[id].manager@ != manager {
            Err(ShiftError::Unauthorized)
        } else {
            Ok(())
        }
    }

    /// What `start_shift` answers.
    pub open spec fn start_result(self, id: Seq<char>, worker: Seq<char>) -> Result<(), ShiftError> {
        if !self.shifts().contains_key(id) {
            Err(ShiftError::NotFound)
        } else if !self.shifts()[id].assigned {
            Err(ShiftError::NotAssigned)
        } else if self.shifts()[id].worker@ != worker {
            Err(ShiftError::Unauthorized)
        } else if self.shifts()[id].status != ShiftStatus::Assigned {
            Err(ShiftError::ShiftNotActive)
        } else {
            Ok(())
        }
    }

    /// What `complete_shift` answers.
    pub open spec fn complete_result(self, id: Seq<char>, worker: Seq<char>) -> Result<(), ShiftError> {
        if !self.shifts().contains_key(id) {
            Err(ShiftError::NotFound)
        } else if self.shifts()[id].worker@ != worker {
            Err(ShiftError::Unauthorized)
        } else if self.shifts()[id].status != ShiftStatus::Active {
            Err(ShiftError::ShiftNotActive)
        } else {
            Ok(())
        }
    }

    /// A contract with no shift.
    pub fn new() -> (c: Self)
        ensures
            c.wf(),
            c.shifts() == Map::<Seq<char>, Shift>::empty(),
            c.id_list() == Seq::<Seq<char>>::empty(),
            c.active_shift_count() == 0,
            c.starts() == 0,
            c.completions() == 0,
            c.running_reassignments() == 0,
    {
        let c = ShiftSchedulingContract {
            table: Table::new(),
            active: 0,
            started: Ghost(0),
            completed: Ghost(0),
            reassigned: Ghost(0),
        };
        assert(c.table.records().dom().filter(
            |k: Seq<char>| is_active()(c.table.records()[k]),
        ) =~= Set::empty());
        c
    }

    /// The id list names each shift once and no other id; the counter of
    /// started shifts is never below the number of shifts under way; every
    /// shift's status agrees with its assignment.
    pub proof fn lemma_storage_consistent(&self)
        requires
            self.wf(),
        ensures
            self.id_list().no_duplicates(),
            forall|k: Seq<char>| #[trigger] self.shifts().contains_key(k) <==> self.id_list().contains(k),
            self.active_shift_count() >= count_where(self.shifts(), is_active()),
            forall|k: Seq<char>| #[trigger]
                self.shifts().contains_key(k) ==> assignment_agrees(self.shifts()[k]),
    {
        self.table.lemma_order_matches_records();
    }

    /// The counter of started shifts is the number of starts less the number
    /// of completions; it is the number of shifts under way plus the number
    /// of times a shift under way was reassigned, so it equals the number of
    /// shifts under way as long as no shift under way was reassigned.
    pub proof fn lemma_counter_law(&self)
        requires
            self.wf(),
        ensures
            self.active_shift_count() == self.starts() - self.completions(),
            self.active_shift_count() == count_where(self.shifts(), is_active())
                + self.running_reassignments(),
            self.running_reassignments() == 0 ==> self.active_shift_count() == count_where(
                self.shifts(),
                is_active(),
            ),
    {
    }

    /// Whether a shift's status agrees with its assignment.
    pub fn agrees(s: &Shift) -> (r: bool)
        ensures
            r == assignment_agrees(*s),
    {
        (s.status == ShiftStatus::Open || s.assigned) && (s.assigned || s.worker == s.manager)
    }

    /// Whether stored parts describe a consistent contract: an id list
    /// without repeats, the shift stored under each id (in the same order),
    /// each with a status that agrees with its assignment, and a counter of
    /// started shifts no lower than the number of shifts under way.
    pub open spec fn storage_fits(ids: Seq<String>, shifts: Seq<Shift>, active_shift_count: u32) -> bool {
        &&& ids.len() == shifts.len()
        &&& texts(ids).no_duplicates()
        &&& forall|i: int| 0 <= i < shifts.len() ==> assignment_agrees(#[trigger] shifts[i])
        &&& active_shift_count >= shifts.filter(is_active()).len()
    }

    /// Rebuilds the contract from its stored parts, or nothing when they are
    /// not consistent.
    pub fn from_storage(ids: Vec<String>, shifts: Vec<Shift>, active_shift_count: u32) -> (r: Option<Self>)
        ensures
            r is Some <==> Self::storage_fits(ids@, shifts@, active_shift_count),
            r matches Some(c) ==> {
                &&& c.wf()
                &&& c.shifts() == map_of(ids@, shifts@)
                &&& c.id_list() == texts(ids@)
                &&& c.active_shift_count() == active_shift_count
                &&& c.starts() == active_shift_count
                &&& c.completions() == 0
                &&& c.running_reassignments() == active_shift_count - count_where(c.shifts(), is_active())
            },
    {
        let mut n: usize = 0;
        let mut i: usize = 0;
        proof {
            reveal(Seq::filter);
            assert(shifts@.take(0) =~= Seq::<Shift>::empty());
        }
        while i < shifts.len()
            invariant
                i <= shifts.len(),
                n <= i,
                n == shifts@.take(i as int).filter(is_active()).len(),
                forall|j: int| 0 <= j < i ==> assignment_agrees(#[trigger] shifts@[j]),
            decreases shifts.len() - i,
        {
            proof {
                assert(shifts@.take(i + 1) =~= shifts@.take(i as int).push(shifts@[i as int]));
                shifts@.take(i as int).lemma_filter_push(shifts@[i as int], is_active());
            }
            if !Self::agrees(&shifts[i]) {
                return None;
            }
            if shifts[i].status == ShiftStatus::Active {
                n = n + 1;
            }
            i += 1;
        }
        assert(shifts@.take(shifts.len() as int) =~= shifts@);
        if (active_shift_count as usize) < n {
            return None;
        }
        let ghost ids0 = ids@;
        let ghost shifts0 = shifts@;
        match Table::from_parts(ids, shifts) {
            None => None,
            Some(table) => {
                proof {
                    lemma_count_where_map_of(ids0, shifts0, is_active());
                    lemma_map_of(ids0, shifts0);
                    assert forall|k: Seq<char>| #[trigger] table.records().contains_key(k) implies assignment_agrees(
                        table.records()[k],
                    ) by {
                        let j = choose|j: int| 0 <= j < texts(ids0).len() && texts(ids0)[j] == k;
                        assert(ids0[j]@ == k);
                        assert(assignment_agrees(shifts0[j]));
                    }
                }
                Some(
                    ShiftSchedulingContract {
                        table,
                        active: active_shift_count,
                        started: Ghost(active_shift_count as nat),
                        completed: Ghost(0),
                        reassigned: Ghost((active_shift_count - count_where(map_of(ids0, shifts0), is_active())) as nat),
                    },
                )
            },
        }
    }

    /// What the contract stores can always be read back: its id list, the
    /// shift stored under each id in the same order, and its counter of
    /// started shifts are parts that `from_storage` accepts and rebuilds the
    /// same contract from.
    pub proof fn lemma_storage_reads_back(self, ids: Seq<String>, shifts: Seq<Shift>, active_shift_count: u32)
        requires
            self.wf(),
            texts(ids) == self.id_list(),
            shifts.len() == ids.len(),
            forall|i: int| #![trigger shifts[i]] 0 <= i < ids.len() ==> shifts[i] == self.shifts()[ids[i]@],
            active_shift_count == self.active_shift_count(),
        ensures
            Self::storage_fits(ids, shifts, active_shift_count),
            map_of(ids, shifts) == self.shifts(),
    {
        self.table.lemma_reads_back(ids, shifts);
        lemma_count_where_map_of(ids, shifts, is_active());
        assert forall|i: int| 0 <= i < shifts.len() implies assignment_agrees(#[trigger] shifts[i]) by {
            assert(texts(ids)[i] == ids[i]@);
            assert(self.table.order()[i] == ids[i]@);
            assert(self.table.order().contains(ids[i]@));
            self.table.lemma_order_matches_records();
            assert(self.table.records().contains_key(ids[i]@));
        }
    }

    /// Why a call is refused. Creation checks the title, then both times,
    /// then that the id is free. A call naming no stored shift is refused as
    /// not found. Assigning by anyone but the manager is refused as
    /// unauthorized. Starting needs an assignment, then the assigned worker,
    /// then a shift that stands assigned; completing needs the worker, then a
    /// shift under way.
    pub proof fn lemma_refusals(
        self,
        id: Seq<char>,
        who: Seq<char>,
        title: Seq<char>,
        start_time: u64,
        end_time: u64,
    )
        ensures
            title.len() == 0 ==> self.create_result(id, title, start_time, end_time) == Err::<(), ShiftError>(
                ShiftError::InvalidTitle,
            ),
            title.len() > 0 && (start_time == 0 || end_time == 0) ==> self.create_result(
                id,
                title,
                start_time,
                end_time,
            ) == Err::<(), ShiftError>(ShiftError::InvalidTimestamp),
            title.len() > 0 && start_time != 0 && end_time != 0 && self.shifts().contains_key(id)
                ==> self.create_result(id, title, start_time, end_time) == Err::<(), ShiftError>(
                ShiftError::AlreadyExists,
            ),
            !self.shifts().contains_key(id) ==> self.assign_result(id, who) == Err::<(), ShiftError>(
                ShiftError::NotFound,
            ) && self.start_result(id, who) == Err::<(), ShiftError>(ShiftError::NotFound)
                && self.complete_result(id, who) == Err::<(), ShiftError>(ShiftError::NotFound),
            self.shifts().contains_key(id) && self.shifts()[id].manager@ != who ==> self.assign_result(id, who)
                == Err::<(), ShiftError>(ShiftError::Unauthorized),
            self.shifts().contains_key(id) && !self.shifts()[id].assigned ==> self.start_result(id, who) == Err::<
                (),
                ShiftError,
            >(ShiftError::NotAssigned),
            self.shifts().contains_key(id) && self.shifts()[id].assigned && self.shifts()[id].worker@ != who
                ==> self.start_result(id, who) == Err::<(), ShiftError>(ShiftError::Unauthorized),
            self.shifts().contains_key(id) && self.shifts()[id].assigned && self.shifts()[id].worker@ == who
                && self.shifts()[id].status != ShiftStatus::Assigned ==> self.start_result(id, who) == Err::<
                (),
                ShiftError,
            >(ShiftError::ShiftNotActive),
            self.shifts().contains_key(id) && self.shifts()[id].worker@ != who ==> self.complete_result(id, who)
                == Err::<(), ShiftError>(ShiftError::Unauthorized),
            self.shifts().contains_key(id) && self.shifts()[id].worker@ == who && self.shifts()[id].status
                != ShiftStatus::Active ==> self.complete_result(id, who) == Err::<(), ShiftError>(
                ShiftError::ShiftNotActive,
            ),
    {
    }

    /// A shift is created exactly when it has a title, a start and an end
    /// time, and an id not yet used.
    pub proof fn lemma_create_accepts(self, id: Seq<char>, title: Seq<char>, start_time: u64, end_time: u64)
        ensures
            self.create_result(id, title, start_time, end_time) is Ok <==> (title.len() > 0 && start_time != 0
                && end_time != 0 && !self.shifts().contains_key(id)),
    {
    }

    /// A shift is started exactly by its assigned worker while it stands
    /// assigned.
    pub proof fn lemma_start_accepts(self, id: Seq<char>, worker: Seq<char>)
        ensures
            self.start_result(id, worker) is Ok <==> (self.shifts().contains_key(id) && self.shifts()[id].assigned
                && self.shifts()[id].worker@ == worker && self.shifts()[id].status == ShiftStatus::Assigned),
    {
    }

    /// A shift is completed exactly by its worker while it is under way.
    pub proof fn lemma_complete_accepts(self, id: Seq<char>, worker: Seq<char>)
        ensures
            self.complete_result(id, worker) is Ok <==> (self.shifts().contains_key(id)
                && self.shifts()[id].worker@ == worker && self.shifts()[id].status == ShiftStatus::Active),
    {
    }

    /// The manager of a shift may assign it to any worker whatever the
    /// shift's status (open, assigned, under way or complete), and only its
    /// manager may: an assignment is accepted exactly when the shift exists
    /// and the caller is its manager.
    pub proof fn lemma_manager_assigns_any_shift(self, id: Seq<char>, manager: Seq<char>)
        ensures
            self.assign_result(id, manager) is Ok <==> (self.shifts().contains_key(id)
                && self.shifts()[id].manager@ == manager),
    {
    }

    /// Creates the shift `id` of `manager`: open, unassigned (its worker
    /// field names the manager), created at `now`; the id goes to the end of
    /// the id list.
    pub fn create_shift(
        &mut self,
        id: String,
        manager: String,
        title: String,
        location: String,
        start_time: u64,
        end_time: u64,
        now: u64,
    ) -> (r: Result<(), ShiftError>)
        requires
            old(self).wf(),
        ensures
            final(self).wf(),
            r == old(self).create_result(id@, title@, start_time, end_time),
            r is Err ==> *final(self) == *old(self),
            r is Ok ==> {
                &&& final(self).shifts() == old(self).shifts().insert(
                    id@,
                    (Shift {
                        manager,
                        worker: manager,
                        title,
                        location,
                        status: ShiftStatus::Open,
                        assigned: false,
                        start_time,
                        end_time,
                        created_at: now,
                    }),
                )
                &&& final(self).id_list() == old(self).id_list().push(id@)
                &&& final(self).active_shift_count() == old(self).active_shift_count()
                &&& final(self).starts() == old(self).starts()
                &&& final(self).completions() == old(self).completions()
                &&& final(self).running_reassignments() == old(self).running_reassignments()
            },
    {
        if title.as_str().is_empty() {
            return Err(ShiftError::InvalidTitle);
        }
        if start_time == 0 || end_time == 0 {
            return Err(ShiftError::InvalidTimestamp);
        }
        if self.table.contains(&id) {
            return Err(ShiftError::AlreadyExists);
        }
        let s = Shift {
            manager: manager.clone(),
            worker: manager,
            title,
            location,
            status: ShiftStatus::Open,
            assigned: false,
            start_time,
            end_time,
            created_at: now,
        };
        proof {
            self.table.lemma_order_matches_records();
            lemma_count_where_insert(self.table.records(), is_active(), id@, s);
        }
        self.table.push(id, s);
        Ok(())
    }

    /// Assigns the shift `id` to `worker` on behalf of its manager, whatever
    /// it stood at; it becomes assigned. The counter of started shifts stays
    /// as it is, even when the shift was under way.
    pub fn assign_shift(&mut self, id: String, manager: String, worker: String) -> (r: Result<(), ShiftError>)
        requires
            old(self).wf(),
        ensures
            final(self).wf(),
            r == old(self).assign_result(id@, manager@),
            r is Err ==> *final(self) == *old(self),
            r is Ok ==> {
                &&& final(self).shifts() == old(self).shifts().insert(
                    id@,
                    (Shift {
                        worker,
                        assigned: true,
                        status: ShiftStatus::Assigned,
                        ..old(self).shifts()[id@]
                    }),
                )
                &&& final(self).id_list() == old(self).id_list()
                &&& final(self).active_shift_count() == old(self).active_shift_count()
                &&& final(self).starts() == old(self).starts()
                &&& final(self).completions() == old(self).completions()
                &&& final(self).running_reassignments() == old(self).running_reassignments() + (if old(
                    self,
                ).shifts()[id@].status == ShiftStatus::Active {
                    1nat
                } else {
                    0nat
                })
            },
    {
        let mut s = match self.table.get(&id) {
            Some(found) => found.clone(),
            None => return Err(ShiftError::NotFound),
        };
        if !(s.manager == manager) {
            return Err(ShiftError::Unauthorized);
        }
        let ghost was_active = s.status == ShiftStatus::Active;
        s.worker = worker;
        s.assigned = true;
        s.status = ShiftStatus::Assigned;
        proof {
            self.table.lemma_order_matches_records();
            lemma_count_where_insert(self.table.records(), is_active(), id@, s);
        }
        self.table.set(&id, s);
        self.reassigned = Ghost(self.reassigned@ + if was_active {
            1nat
        } else {
            0nat
        });
        Ok(())
    }

    /// Starts the shift `id` on behalf of its assigned worker; the counter of
    /// started shifts grows by one.
    pub fn start_shift(&mut self, id: String, worker: String) -> (r: Result<(), ShiftError>)
        requires
            old(self).wf(),
            old(self).start_result(id@, worker@) is Ok ==> old(self).active_shift_count() < u32::MAX,
        ensures
            final(self).wf(),
            r == old(self).start_result(id@, worker@),
            r is Err ==> *final(self) == *old(self),
            r is Ok ==> {
                &&& final(self).shifts() == old(self).shifts().insert(
                    id@,
                    (Shift { status: ShiftStatus::Active, ..old(self).shifts()[id@] }),
                )
                &&& final(self).id_list() == old(self).id_list()
                &&& final(self).active_shift_count() == old(self).active_shift_count() + 1
                &&& final(self).starts() == old(self).starts() + 1
                &&& final(self).completions() == old(self).completions()
                &&& final(self).running_reassignments() == old(self).running_reassignments()
            },
    {
        let mut s = match self.table.get(&id) {
            Some(found) => found.clone(),
            None => return Err(ShiftError::NotFound),
        };
        if !s.assigned {
            return Err(ShiftError::NotAssigned);
        }
        if !(s.worker == worker) {
            return Err(ShiftError::Unauthorized);
        }
        if s.status != ShiftStatus::Assigned {
            return Err(ShiftError::ShiftNotActive);
        }
        s.status = ShiftStatus::Active;
        proof {
            self.table.lemma_order_matches_records();
            lemma_count_where_insert(self.table.records(), is_active(), id@, s);
        }
        self.table.set(&id, s);
        self.active = self.active + 1;
        self.started = Ghost(self.started@ + 1);
        Ok(())
    }

    /// Completes the shift `id` on behalf of its worker; the counter of
    /// started shifts drops by one.
    pub fn complete_shift(&mut self, id: String, worker: String) -> (r: Result<(), ShiftError>)
        requires
            old(self).wf(),
        ensures
            final(self).wf(),
            r == old(self).complete_result(id@, worker@),
            r is Err ==> *final(self) == *old(self),
            r is Ok ==> {
                &&& final(self).shifts() == old(self).shifts().insert(
                    id@,
                    (Shift { status: ShiftStatus::Complete, ..old(self).shifts()[id@] }),
                )
                &&& final(self).id_list() == old(self).id_list()
                &&& final(self).active_shift_count() == old(self).active_shift_count() - 1
                &&& final(self).starts() == old(self).starts()
                &&& final(self).completions() == old(self).completions() + 1
                &&& final(self).running_reassignments() == old(self).running_reassignments()
            },
    {
        let mut s = match self.table.get(&id) {
            Some(found) => found.clone(),
            None => return Err(ShiftError::NotFound),
        };
        if !(s.worker == worker) {
            return Err(ShiftError::Unauthorized);
        }
        if s.status != ShiftStatus::Active {
            return Err(ShiftError::ShiftNotActive);
        }
        s.status = ShiftStatus::Complete;
        proof {
            self.table.lemma_order_matches_records();
            lemma_count_where_insert(self.table.records(), is_active(), id@, s);
        }
        self.table.set(&id, s);
        if self.active > 0 {
            self.active = self.active - 1;
        }
        self.completed = Ghost(self.completed@ + 1);
        Ok(())
    }

    /// The shift stored under `id`, if any.
    pub fn get_shift(&self, id: String) -> (r: Option<Shift>)
        requires
            self.wf(),
        ensures
            r == (if self.shifts().contains_key(id@) {
                Some(self.shifts()[id@])
            } else {
                None
            }),
    {
        match self.table.get(&id) {
            Some(found) => Some(found.clone()),
            None => None,
        }
    }

    /// The shift ids, in the order in which the shifts were created.
    pub fn list_shifts(&self) -> (r: Vec<String>)
        requires
            self.wf(),
        ensures
            texts(r@) == self.id_list(),
    {
        self.table.ids()
    }

    /// The stored counter of started shifts.
    pub fn get_active_shift_count(&self) -> (r: u32)
        requires
            self.wf(),
        ensures
            r == self.active_shift_count(),
    {
        self.active
    }
}

} // verus!
