//! Bounty board: bounties that creators assign to workers, workers submit,
//! and creators approve or close.
//!
//! Text values stand for the ledger's values: an id is the text of a
//! symbol, a creator or a worker is the text form of an account address. The
//! caller has already checked that the account acting in a call authorised
//! it; `now` is the ledger's timestamp at the call.
use vstd::prelude::*;
use crate::table::{texts, map_of, lemma_map_of, Table};

verus! {

/// Where a bounty stands.
#[derive(Clone, Copy, Debug, PartialEq, Eq, Structural)]
pub enum BountyStatus {
    Open,
    Assigned,
    Submitted,
    Approved,
    Closed,
}

/// A bounty.
#[derive(Debug)]
pub struct Bounty {
    pub creator: String,
    pub worker: String,
    pub title: String,
    pub description: String,
    pub reward: i128,
    pub status: BountyStatus,
    pub assigned: bool,
    pub created_at: u64,
    pub submitted_at: u64,
    pub approved_at: u64,
}

impl Clone for Bounty {
    fn clone(&self) -> (r: Self)
        ensures
            r == *self,
    {
        Bounty {
            creator: self.creator.clone(),
            worker: self.worker.clone(),
            title: self.title.clone(),
            description: self.description.clone(),
            reward: self.reward,
            status: self.status,
            assigned: self.assigned,
            created_at: self.created_at,
            submitted_at: self.submitted_at,
            approved_at: self.approved_at,
        }
    }
}

/// Why a call was refused.
#[derive(Clone, Copy, Debug, PartialEq, Eq, PartialOrd, Ord, Structural)]
pub enum BountyError {
    InvalidTitle,
    InvalidReward,
    InvalidTimestamp,
    NotFound,
    Unauthorized,
    AlreadyExists,
    NotAssigned,
    NotSubmitted,
    Closed,
}

impl BountyError {
    /// The number by which the ledger reports this error.
    pub open spec fn spec_code(self) -> u32 {
        match self {
            BountyError::InvalidTitle => 1,
            BountyError::InvalidReward => 2,
            BountyError::InvalidTimestamp => 3,
            BountyError::NotFound => 4,
            BountyError::Unauthorized => 5,
            BountyError::AlreadyExists => 6,
            BountyError::NotAssigned => 7,
            BountyError::NotSubmitted => 8,
            BountyError::Closed => 9,
        }
    }

    /// The number by which the ledger reports this error.
    pub fn code(&self) -> (c: u32)
        ensures
            c == self.spec_code(),
    {
        match self {
            BountyError::InvalidTitle => 1,
            BountyError::InvalidReward => 2,
            BountyError::InvalidTimestamp => 3,
            BountyError::NotFound => 4,
            BountyError::Unauthorized => 5,
            BountyError::AlreadyExists => 6,
            BountyError::NotAssigned => 7,
            BountyError::NotSubmitted => 8,
            BountyError::Closed => 9,
        }
    }
}

/// A bounty's status agrees with its assignment: an open bounty has no
/// worker yet (its worker field names its creator), and an assigned,
/// submitted or approved one has been assigned.
pub open spec fn assignment_agrees(b: Bounty) -> bool {
    &&& b.status == BountyStatus::Open ==> !b.assigned
    &&& (b.status == BountyStatus::Assigned || b.status == BountyStatus::Submitted || b.status
        == BountyStatus::Approved) ==> b.assigned
    &&& !b.assigned ==> b.worker@ == b.creator@
}

/// The contract's storage: the bounties by id and the id list.
pub struct BountyBoardContract {
    table: Table<Bounty>,
}

impl BountyBoardContract {
    /// The storage is consistent: the id list and the bounties agree, and
    /// every bounty's status agrees with its assignment.
    pub closed spec fn wf(&self) -> bool {
        &&& self.table.wf()
        &&& forall|k: Seq<char>| #[trigger]
            self.table.records().contains_key(k) ==> assignment_agrees(self.table.records()[k])
    }

    /// The bounty stored under each id.
    pub closed spec fn bounties(&self) -> Map<Seq<char>, Bounty> {
        self.table.records()
    }

    /// The bounty ids, in the order in which the bounties were created.
    pub closed spec fn id_list(&self) -> Seq<Seq<char>> {
        self.table.order()
    }

    /// What `create_bounty` answers.
    pub open spec fn create_result(self, id: Seq<char>, title: Seq<char>, reward: i128, created_at: u64) -> Result<(), BountyError> {
        if title.len() == 0 {
            Err(BountyError::InvalidTitle)
        } else if reward <= 0 {
            Err(BountyError::InvalidReward)
        } else if created_at == 0 {
            Err(BountyError::InvalidTimestamp)
        } else if self.bounties().contains_key(id) {
            Err(BountyError::AlreadyExists)
        } else {
            Ok(())
        }
    }

    /// What a call by `creator` on the bounty `id` answers before looking at
    /// its status.
    pub open spec fn creator_check(self, id: Seq<char>, creator: Seq<char>) -> Result<(), BountyError> {
        if !self.bounties().contains_key(id) {
            Err(BountyError::NotFound)
        } else if self.bounties()[id].creator@ != creator {
            Err(BountyError::Unauthorized)
        } else {
            Ok(())
        }
    }

    /// What `assign_bounty` and `close_bounty` answer.
    pub open spec fn open_check(self, id: Seq<char>, creator: Seq<char>) -> Result<(), BountyError> {
        if self.creator_check(id, creator) is Err {
            self.creator_check(id, creator)
        } else if self.bounties()[id].status == BountyStatus::Closed {
            Err(BountyError::Closed)
        } else {
            Ok(())
        }
    }

    /// What `submit_bounty` answers.
    pub open spec fn submit_result(self, id: Seq<char>, worker: Seq<char>) -> Result<(), BountyError> {
        if !self.bounties().contains_key(id) {
            Err(BountyError::NotFound)
        } else if !self.bounties()[id].assigned {
            Err(BountyError::NotAssigned)
        } else if self.bounties()[id].worker@ != worker {
            Err(BountyError::Unauthorized)
        } else if self.bounties()[id].status != BountyStatus::Assigned {
            Err(BountyError::NotAssigned)
        } else {
            Ok(())
        }
    }

    /// What `approve_bounty` answers.
    pub open spec fn approve_result(self, id: Seq<char>, creator: Seq<char>) -> Result<(), BountyError> {
        if self.creator_check(id, creator) is Err {
            self.creator_check(id, creator)
        } else if self.bounties()[id].status != BountyStatus::Submitted {
            Err(BountyError::NotSubmitted)
        } else {
            Ok(())
        }
    }

    /// A board with no bounty.
    pub fn new() -> (c: Self)
        ensures
            c.wf(),
            c.bounties() == Map::<Seq<char>, Bounty>::empty(),
            c.id_list() == Seq::<Seq<char>>::empty(),
    {
        BountyBoardContract { table: Table::new() }
    }

    /// The id list names each bounty once and no other id, and every
    /// bounty's status agrees with its assignment.
    pub proof fn lemma_storage_consistent(&self)
        requires
            self.wf(),
        ensures
            self.id_list().no_duplicates(),
            forall|k: Seq<char>| #[trigger]
                self.bounties().contains_key(k) <==> self.id_list().contains(k),
            forall|k: Seq<char>| #[trigger]
                self.bounties().contains_key(k) ==> assignment_agrees(self.bounties()[k]),
    {
        self.table.lemma_order_matches_records();
    }

    /// Whether a bounty's status agrees with its assignment.
    pub fn agrees(b: &Bounty) -> (r: bool)
        ensures
            r == assignment_agrees(*b),
    {
        let open_ok = b.status != BountyStatus::Open || !b.assigned;
        let taken = b.status == BountyStatus::Assigned || b.status == BountyStatus::Submitted
            || b.status == BountyStatus::Approved;
        let taken_ok = !taken || b.assigned;
        let worker_ok = b.assigned || b.worker == b.creator;
        open_ok && taken_ok && worker_ok
    }

    /// Whether stored parts describe a consistent board: an id list without
    /// repeats and the bounty stored under each id (in the same order), each
    /// with a status that agrees with its assignment.
    pub open spec fn storage_fits(ids: Seq<String>, bounties: Seq<Bounty>) -> bool {
        &&& ids.len() == bounties.len()
        &&& texts(ids).no_duplicates()
        &&& forall|i: int| 0 <= i < bounties.len() ==> assignment_agrees(#[trigger] bounties[i])
    }

    /// Rebuilds the board from its stored parts, or nothing when they are
    /// not consistent.
    pub fn from_storage(ids: Vec<String>, bounties: Vec<Bounty>) -> (r: Option<Self>)
        ensures
            r is Some <==> Self::storage_fits(ids@, bounties@),
            r matches Some(c) ==> {
                &&& c.wf()
                &&& c.bounties() == map_of(ids@, bounties@)
                &&& c.id_list() == texts(ids@)
            },
    {
        let mut i: usize = 0;
        while i < bounties.len()
            invariant
                i <= bounties.len(),
                forall|j: int| 0 <= j < i ==> assignment_agrees(#[trigger] bounties@[j]),
            decreases bounties.len() - i,
        {
            if !Self::agrees(&bounties[i]) {
                return None;
            }
            i += 1;
        }
        let ghost ids0 = ids@;
        let ghost bounties0 = bounties@;
        match Table::from_parts(ids, bounties) {
            None => None,
            Some(table) => {
                proof {
                    lemma_map_of(ids0, bounties0);
                    assert forall|k: Seq<char>| #[trigger] table.records().contains_key(k) implies assignment_agrees(
                        table.records()[k],
                    ) by {
                        let j = choose|j: int| 0 <= j < texts(ids0).len() && texts(ids0)[j] == k;
                        assert(ids0[j]@ == k);
                        assert(assignment_agrees(bounties0[j]));
                    }
                }
                Some(BountyBoardContract { table })
            },
        }
    }

    /// What the board stores can always be read back: its id list and the
    /// bounty stored under each id in the same order are parts that
    /// `from_storage` accepts and rebuilds the same board from.
    pub proof fn lemma_storage_reads_back(self, ids: Seq<String>, bounties: Seq<Bounty>)
        requires
            self.wf(),
            texts(ids) == self.id_list(),
            bounties.len() == ids.len(),
            forall|i: int| #![trigger bounties[i]] 0 <= i < ids.len() ==> bounties[i] == self.bounties()[ids[i]@],
        ensures
            Self::storage_fits(ids, bounties),
            map_of(ids, bounties) == self.bounties(),
    {
        self.table.lemma_reads_back(ids, bounties);
        assert forall|i: int| 0 <= i < bounties.len() implies assignment_agrees(#[trigger] bounties[i]) by {
            assert(texts(ids)[i] == ids[i]@);
            assert(self.table.order()[i] == ids[i]@);
            assert(self.table.order().contains(ids[i]@));
            self.table.lemma_order_matches_records();
            assert(self.table.records().contains_key(ids[i]@));
        }
    }

    /// Why a call is refused. Creation checks the title, then the reward,
    /// then the creation time, then that the id is free. A call naming no
    /// stored bounty is refused as not found. Assigning, closing and
    /// approving by anyone but the creator are refused as unauthorized; a
    /// closed bounty is not assigned or closed again; only submitted work is
    /// approved. Submitting needs an assignment, then the assigned worker,
    /// then a bounty that stands assigned.
    pub proof fn lemma_refusals(
        self,
        id: Seq<char>,
        who: Seq<char>,
        title: Seq<char>,
        reward: i128,
        created_at: u64,
    )
        ensures
            title.len() == 0 ==> self.create_result(id, title, reward, created_at) == Err::<(), BountyError>(
                BountyError::InvalidTitle,
            ),
            title.len() > 0 && reward <= 0 ==> self.create_result(id, title, reward, created_at) == Err::<
                (),
                BountyError,
            >(BountyError::InvalidReward),
            title.len() > 0 && reward > 0 && created_at == 0 ==> self.create_result(id, title, reward, created_at)
                == Err::<(), BountyError>(BountyError::InvalidTimestamp),
            title.len() > 0 && reward > 0 && created_at != 0 && self.bounties().contains_key(id)
                ==> self.create_result(id, title, reward, created_at) == Err::<(), BountyError>(
                BountyError::AlreadyExists,
            ),
            !self.bounties().contains_key(id) ==> self.open_check(id, who) == Err::<(), BountyError>(
                BountyError::NotFound,
            ) && self.submit_result(id, who) == Err::<(), BountyError>(BountyError::NotFound)
                && self.approve_result(id, who) == Err::<(), BountyError>(BountyError::NotFound),
            self.bounties().contains_key(id) && self.bounties()[id].creator@ != who ==> self.open_check(id, who)
                == Err::<(), BountyError>(BountyError::Unauthorized) && self.approve_result(id, who) == Err::<
                (),
                BountyError,
            >(BountyError::Unauthorized),
            self.bounties().contains_key(id) && self.bounties()[id].creator@ == who && self.bounties()[id].status
                == BountyStatus::Closed ==> self.open_check(id, who) == Err::<(), BountyError>(BountyError::Closed),
            self.bounties().contains_key(id) && self.bounties()[id].creator@ == who && self.bounties()[id].status
                != BountyStatus::Submitted ==> self.approve_result(id, who) == Err::<(), BountyError>(
                BountyError::NotSubmitted,
            ),
            self.bounties().contains_key(id) && !self.bounties()[id].assigned ==> self.submit_result(id, who)
                == Err::<(), BountyError>(BountyError::NotAssigned),
            self.bounties().contains_key(id) && self.bounties()[id].assigned && self.bounties()[id].worker@ != who
                ==> self.submit_result(id, who) == Err::<(), BountyError>(BountyError::Unauthorized),
            self.bounties().contains_key(id) && self.bounties()[id].assigned && self.bounties()[id].worker@ == who
                && self.bounties()[id].status != BountyStatus::Assigned ==> self.submit_result(id, who) == Err::<
                (),
                BountyError,
            >(BountyError::NotAssigned),
    {
    }

    /// A bounty is created exactly when it has a title, a positive reward, a
    /// creation time, and an id not yet used.
    pub proof fn lemma_create_accepts(self, id: Seq<char>, title: Seq<char>, reward: i128, created_at: u64)
        ensures
            self.create_result(id, title, reward, created_at) is Ok <==> (title.len() > 0 && reward > 0
                && created_at != 0 && !self.bounties().contains_key(id)),
    {
    }

    /// The creator of a bounty may assign or close it at any stage until it
    /// is closed, and no one else may.
    pub proof fn lemma_creator_moves_until_closed(self, id: Seq<char>, who: Seq<char>)
        ensures
            self.open_check(id, who) is Ok <==> (self.bounties().contains_key(id) && self.bounties()[id].creator@
                == who && self.bounties()[id].status != BountyStatus::Closed),
    {
    }

    /// Work is submitted exactly by the assigned worker of a bounty that
    /// stands assigned.
    pub proof fn lemma_submit_accepts(self, id: Seq<char>, worker: Seq<char>)
        ensures
            self.submit_result(id, worker) is Ok <==> (self.bounties().contains_key(id)
                && self.bounties()[id].assigned && self.bounties()[id].worker@ == worker
                && self.bounties()[id].status == BountyStatus::Assigned),
    {
    }

    /// A bounty is approved exactly by its creator once work on it stands
    /// submitted.
    pub proof fn lemma_approve_accepts(self, id: Seq<char>, creator: Seq<char>)
        ensures
            self.approve_result(id, creator) is Ok <==> (self.bounties().contains_key(id)
                && self.bounties()[id].creator@ == creator && self.bounties()[id].status
                == BountyStatus::Submitted),
    {
    }

    /// A closed bounty is final: assigning, submitting, approving and closing
    /// it are all refused, whoever calls.
    pub proof fn lemma_closed_is_final(self, id: Seq<char>, who: Seq<char>)
        requires
            self.bounties().contains_key(id),
            self.bounties()[id].status == BountyStatus::Closed,
        ensures
            self.open_check(id, who) is Err,
            self.submit_result(id, who) is Err,
            self.approve_result(id, who) is Err,
    {
    }

    /// Posts the bounty `id` of `creator` with `reward`: open, unassigned
    /// (its worker field names the creator), created at `created_at`, never
    /// submitted nor approved; the id goes to the end of the id list.
    pub fn create_bounty(
        &mut self,
        id: String,
        creator: String,
        title: String,
        description: String,
        reward: i128,
        created_at: u64,
    ) -> (r: Result<(), BountyError>)
        requires
            old(self).wf(),
        ensures
            final(self).wf(),
            r == old(self).create_result(id@, title@, reward, created_at),
            r is Err ==> *final(self) == *old(self),
            r is Ok ==> {
                &&& final(self).bounties() == old(self).bounties().insert(
                    id@,
                    (Bounty {
                        creator,
                        worker: creator,
                        title,
                        description,
                        reward,
                        status: BountyStatus::Open,
                        assigned: false,
                        created_at,
                        submitted_at: 0,
                        approved_at: 0,
                    }),
                )
                &&& final(self).id_list() == old(self).id_list().push(id@)
            },
    {
        if title.as_str().is_empty() {
            return Err(BountyError::InvalidTitle);
        }
        if reward <= 0 {
            return Err(BountyError::InvalidReward);
        }
        if created_at == 0 {
            return Err(BountyError::InvalidTimestamp);
        }
        if self.table.contains(&id) {
            return Err(BountyError::AlreadyExists);
        }
        let b = Bounty {
            creator: creator.clone(),
            worker: creator,
            title,
            description,
            reward,
            status: BountyStatus::Open,
            assigned: false,
            created_at,
            submitted_at: 0,
            approved_at: 0,
        };
        self.table.push(id, b);
        Ok(())
    }

    /// Assigns the bounty `id` to `worker` on behalf of its creator, whatever
    /// it stood at unless closed; it becomes assigned.
    pub fn assign_bounty(&mut self, id: String, creator: String, worker: String) -> (r: Result<(), BountyError>)
        requires
            old(self).wf(),
        ensures
            final(self).wf(),
            r == old(self).open_check(id@, creator@),
            r is Err ==> *final(self) == *old(self),
            r is Ok ==> {
                &&& final(self).bounties() == old(self).bounties().insert(
                    id@,
                    (Bounty {
                        worker,
                        assigned: true,
                        status: BountyStatus::Assigned,
                        ..old(self).bounties()[id@]
                    }),
                )
                &&& final(self).id_list() == old(self).id_list()
            },
    {
        let mut b = match self.table.get(&id) {
            Some(found) => found.clone(),
            None => return Err(BountyError::NotFound),
        };
        if !(b.creator == creator) {
            return Err(BountyError::Unauthorized);
        }
        if b.status == BountyStatus::Closed {
            return Err(BountyError::Closed);
        }
        b.worker = worker;
        b.assigned = true;
        b.status = BountyStatus::Assigned;
        self.table.set(&id, b);
        Ok(())
    }

    /// Hands in the work on the bounty `id` on behalf of its assigned worker,
    /// recording `now` as the time of submission.
    pub fn submit_bounty(&mut self, id: String, worker: String, now: u64) -> (r: Result<(), BountyError>)
        requires
            old(self).wf(),
        ensures
            final(self).wf(),
            r == old(self).submit_result(id@, worker@),
            r is Err ==> *final(self) == *old(self),
            r is Ok ==> {
                &&& final(self).bounties() == old(self).bounties().insert(
                    id@,
                    (Bounty {
                        status: BountyStatus::Submitted,
                        submitted_at: now,
                        ..old(self).bounties()[id@]
                    }),
                )
                &&& final(self).id_list() == old(self).id_list()
            },
    {
        let mut b = match self.table.get(&id) {
            Some(found) => found.clone(),
            None => return Err(BountyError::NotFound),
        };
        if !b.assigned {
            return Err(BountyError::NotAssigned);
        }
        if !(b.worker == worker) {
            return Err(BountyError::Unauthorized);
        }
        if b.status != BountyStatus::Assigned {
            return Err(BountyError::NotAssigned);
        }
        b.status = BountyStatus::Submitted;
        b.submitted_at = now;
        self.table.set(&id, b);
        Ok(())
    }

    /// Accepts the submitted work on the bounty `id` on behalf of its
    /// creator, recording `now` as the time of approval.
    pub fn approve_bounty(&mut self, id: String, creator: String, now: u64) -> (r: Result<(), BountyError>)
        requires
            old(self).wf(),
        ensures
            final(self).wf(),
            r == old(self).approve_result(id@, creator@),
            r is Err ==> *final(self) == *old(self),
            r is Ok ==> {
                &&& final(self).bounties() == old(self).bounties().insert(
                    id@,
                    (Bounty {
                        status: BountyStatus::Approved,
                        approved_at: now,
                        ..old(self).bounties()[id@]
                    }),
                )
                &&& final(self).id_list() == old(self).id_list()
            },
    {
        let mut b = match self.table.get(&id) {
            Some(found) => found.clone(),
            None => return Err(BountyError::NotFound),
        };
        if !(b.creator == creator) {
            return Err(BountyError::Unauthorized);
        }
        if b.status != BountyStatus::Submitted {
            return Err(BountyError::NotSubmitted);
        }
        b.status = BountyStatus::Approved;
        b.approved_at = now;
        self.table.set(&id, b);
        Ok(())
    }

    /// Closes the bounty `id` on behalf of its creator, for good.
    pub fn close_bounty(&mut self, id: String, creator: String) -> (r: Result<(), BountyError>)
        requires
            old(self).wf(),
        ensures
            final(self).wf(),
            r == old(self).open_check(id@, creator@),
            r is Err ==> *final(self) == *old(self),
            r is Ok ==> {
                &&& final(self).bounties() == old(self).bounties().insert(
                    id@,
                    (Bounty { status: BountyStatus::Closed, ..old(self).bounties()[id@] }),
                )
                &&& final(self).id_list() == old(self).id_list()
            },
    {
        let mut b = match self.table.get(&id) {
            Some(found) => found.clone(),
            None => return Err(BountyError::NotFound),
        };
        if !(b.creator == creator) {
            return Err(BountyError::Unauthorized);
        }
        if b.status == BountyStatus::Closed {
            return Err(BountyError::Closed);
        }
        b.status = BountyStatus::Closed;
        self.table.set(&id, b);
        Ok(())
    }

    /// The bounty stored under `id`, if any.
    pub fn get_bounty(&self, id: String) -> (r: Option<Bounty>)
        requires
            self.wf(),
        ensures
            r == (if self.bounties().contains_key(id@) {
                Some(self.bounties()[id@])
            } else {
                None
            }),
    {
        match self.table.get(&id) {
            Some(found) => Some(found.clone()),
            None => None,
        }
    }

    /// The bounty ids, in the order in which the bounties were created.
    pub fn list_bounties(&self) -> (r: Vec<String>)
        requires
            self.wf(),
        ensures
            texts(r@) == self.id_list(),
    {
        self.table.ids()
    }
}

} // verus!
