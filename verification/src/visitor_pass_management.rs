//! Visitor passes: passes that hosts issue, approve and revoke, and that
//! visitors use to check in and out.
//!
//! Text values stand for the ledger's values: an id is the text of a
//! symbol, a host or a visitor is the text form of an account address. The
//! caller has already checked that the account acting in a call authorised
//! it; `now` is the ledger's timestamp at the call.
use vstd::prelude::*;
use crate::table::{texts, map_of, Table};

verus! {

/// Where a pass stands.
#[derive(Clone, Copy, Debug, PartialEq, Eq, Structural)]
pub enum PassStatus {
    Pending,
    Approved,
    CheckedIn,
    CheckedOut,
    Revoked,
}

/// A visitor pass.
#[derive(Debug)]
pub struct VisitorPass {
    pub host: String,
    pub visitor: String,
    pub purpose: String,
    pub location: String,
    pub status: PassStatus,
    pub visit_time: u64,
    pub created_at: u64,
    pub check_in_at: u64,
    pub check_out_at: u64,
}

impl Clone for VisitorPass {
    fn clone(&self) -> (r: Self)
        ensures
            r == *self,
    {
        VisitorPass {
            host: self.host.clone(),
            visitor: self.visitor.clone(),
            purpose: self.purpose.clone(),
            location: self.location.clone(),
            status: self.status,
            visit_time: self.visit_time,
            created_at: self.created_at,
            check_in_at: self.check_in_at,
            check_out_at: self.check_out_at,
        }
    }
}

/// Why a call was refused.
#[derive(Clone, Copy, Debug, PartialEq, Eq, PartialOrd, Ord, Structural)]
pub enum VisitorPassError {
    InvalidPurpose,
    InvalidTimestamp,
    NotFound,
    Unauthorized,
    AlreadyExists,
    PassNotApproved,
    AlreadyCheckedIn,
    AlreadyCheckedOut,
    PassRevoked,
    NotCheckedIn,
}

impl VisitorPassError {
    /// The number by which the ledger reports this error.
    pub open spec fn spec_code(self) -> u32 {
        match self {
            VisitorPassError::InvalidPurpose => 1,
            VisitorPassError::InvalidTimestamp => 2,
            VisitorPassError::NotFound => 3,
            VisitorPassError::Unauthorized => 4,
            VisitorPassError::AlreadyExists => 5,
            VisitorPassError::PassNotApproved => 6,
            VisitorPassError::AlreadyCheckedIn => 7,
            VisitorPassError::AlreadyCheckedOut => 8,
            VisitorPassError::PassRevoked => 9,
            VisitorPassError::NotCheckedIn => 10,
        }
    }

    /// The number by which the ledger reports this error.
    pub fn code(&self) -> (c: u32)
        ensures
            c == self.spec_code(),
    {
        match self {
            VisitorPassError::InvalidPurpose => 1,
            VisitorPassError::InvalidTimestamp => 2,
            VisitorPassError::NotFound => 3,
            VisitorPassError::Unauthorized => 4,
            VisitorPassError::AlreadyExists => 5,
            VisitorPassError::PassNotApproved => 6,
            VisitorPassError::AlreadyCheckedIn => 7,
            VisitorPassError::AlreadyCheckedOut => 8,
            VisitorPassError::PassRevoked => 9,
            VisitorPassError::NotCheckedIn => 10,
        }
    }
}

/// The contract's storage: the passes by id and the id list.
pub struct VisitorPassManagementContract {
    table: Table<VisitorPass>,
}

impl VisitorPassManagementContract {
    /// The storage is consistent: the id list and the passes agree.
    pub closed spec fn wf(&self) -> bool {
        self.table.wf()
    }

    /// The pass stored under each id.
    pub closed spec fn passes(&self) -> Map<Seq<char>, VisitorPass> {
        self.table.records()
    }

    /// The pass ids, in the order in which the passes were issued.
    pub closed spec fn id_list(&self) -> Seq<Seq<char>> {
        self.table.order()
    }

    /// What `issue_pass` answers.
    pub open spec fn issue_result(self, id: Seq<char>, purpose: Seq<char>, visit_time: u64) -> Result<(), VisitorPassError> {
        if purpose.len() == 0 {
            Err(VisitorPassError::InvalidPurpose)
        } else if visit_time == 0 {
            Err(VisitorPassError::InvalidTimestamp)
        } else if self.passes().contains_key(id) {
            Err(VisitorPassError::AlreadyExists)
        } else {
            Ok(())
        }
    }

    /// What `approve_pass` answers.
    pub open spec fn approve_result(self, id: Seq<char>, host: Seq<char>) -> Result<(), VisitorPassError> {
        if !self.passes().contains_key(id) {
            Err(VisitorPassError::NotFound)
        } else if self.passes()[id].host@ != host {
            Err(VisitorPassError::Unauthorized)
        } else if self.passes()[id].status == PassStatus::Revoked {
            Err(VisitorPassError::PassRevoked)
        } else if self.passes()[id].status != PassStatus::Pending && self.passes()[id].status
            != PassStatus::Approved {
            Err(VisitorPassError::PassNotApproved)
        } else {
            Ok(())
        }
    }

    /// What `check_in_visitor` answers.
    pub open spec fn check_in_result(self, id: Seq<char>, visitor: Seq<char>) -> Result<(), VisitorPassError> {
        if !self.passes().contains_key(id) {
            Err(VisitorPassError::NotFound)
        } else if self.passes()[id].visitor@ != visitor {
            Err(VisitorPassError::Unauthorized)
        } else if self.passes()[id].status == PassStatus::Revoked {
            Err(VisitorPassError::PassRevoked)
        } else if self.passes()[id].status == PassStatus::CheckedIn {
            Err(VisitorPassError::AlreadyCheckedIn)
        } else if self.passes()[id].status != PassStatus::Approved {
            Err(VisitorPassError::PassNotApproved)
        } else {
            Ok(())
        }
    }

    /// What `check_out_visitor` answers.
    pub open spec fn check_out_result(self, id: Seq<char>, visitor: Seq<char>) -> Result<(), VisitorPassError> {
        if !self.passes().contains_key(id) {
            Err(VisitorPassError::NotFound)
        } else if self.passes()[id].visitor@ != visitor {
            Err(VisitorPassError::Unauthorized)
        } else if self.passes()[id].status == PassStatus::CheckedOut {
            Err(VisitorPassError::AlreadyCheckedOut)
        } else if self.passes()[id].status != PassStatus::CheckedIn {
            Err(VisitorPassError::NotCheckedIn)
        } else {
            Ok(())
        }
    }

    /// What `revoke_pass` answers.
    pub open spec fn revoke_result(self, id: Seq<char>, host: Seq<char>) -> Result<(), VisitorPassError> {
        if !self.passes().contains_key(id) {
            Err(VisitorPassError::NotFound)
        } else if self.passes()[id].host@ != host {
            Err(VisitorPassError::Unauthorized)
        } else if self.passes()[id].status == PassStatus::CheckedOut {
            Err(VisitorPassError::AlreadyCheckedOut)
        } else if self.passes()[id].status == PassStatus::Revoked {
            Err(VisitorPassError::PassRevoked)
        } else {
            Ok(())
        }
    }

    /// A contract with no pass.
    pub fn new() -> (c: Self)
        ensures
            c.wf(),
            c.passes() == Map::<Seq<char>, VisitorPass>::empty(),
            c.id_list() == Seq::<Seq<char>>::empty(),
    {
        VisitorPassManagementContract { table: Table::new() }
    }

    /// The id list names each pass once and no other id.
    pub proof fn lemma_storage_consistent(&self)
        requires
            self.wf(),
        ensures
            self.id_list().no_duplicates(),
            forall|k: Seq<char>| #[trigger] self.passes().contains_key(k) <==> self.id_list().contains(k),
    {
        self.table.lemma_order_matches_records();
    }

    /// Rebuilds the contract from its stored parts: the id list and the pass
    /// stored under each id (in the same order); nothing when the lists
    /// differ in length or an id repeats.
    pub fn from_storage(ids: Vec<String>, passes: Vec<VisitorPass>) -> (r: Option<Self>)
        ensures
            r is Some <==> ids.len() == passes.len() && texts(ids@).no_duplicates(),
            r matches Some(c) ==> {
                &&& c.wf()
                &&& c.passes() == map_of(ids@, passes@)
                &&& c.id_list() == texts(ids@)
            },
    {
        match Table::from_parts(ids, passes) {
            None => None,
            Some(table) => Some(VisitorPassManagementContract { table }),
        }
    }

    /// What the contract stores can always be read back: its id list and the
    /// pass stored under each id in the same order are parts that
    /// `from_storage` accepts and rebuilds the same contract from.
    pub proof fn lemma_storage_reads_back(self, ids: Seq<String>, passes: Seq<VisitorPass>)
        requires
            self.wf(),
            texts(ids) == self.id_list(),
            passes.len() == ids.len(),
            forall|i: int| #![trigger passes[i]] 0 <= i < ids.len() ==> passes[i] == self.passes()[ids[i]@],
        ensures
            ids.len() == passes.len() && texts(ids).no_duplicates(),
            map_of(ids, passes) == self.passes(),
    {
        self.table.lemma_reads_back(ids, passes);
    }

    /// Why a call is refused. Issuing checks the purpose, then the time,
    /// then that the id is free. A call naming no stored pass is refused as
    /// not found. Approving and revoking by anyone but the host, and checking
    /// in or out by anyone but the visitor, are refused as unauthorized. A
    /// revoked pass is refused as revoked by approval, check-in and
    /// revocation; a checked-out pass is refused as checked out by check-out
    /// and revocation. Approval needs a pending or approved pass; check-in
    /// refuses a pass checked in already, then needs an approved one;
    /// check-out needs a checked-in pass.
    pub proof fn lemma_refusals(self, id: Seq<char>, who: Seq<char>, purpose: Seq<char>, visit_time: u64)
        ensures
            purpose.len() == 0 ==> self.issue_result(id, purpose, visit_time) == Err::<(), VisitorPassError>(
                VisitorPassError::InvalidPurpose,
            ),
            purpose.len() > 0 && visit_time == 0 ==> self.issue_result(id, purpose, visit_time) == Err::<
                (),
                VisitorPassError,
            >(VisitorPassError::InvalidTimestamp),
            purpose.len() > 0 && visit_time != 0 && self.passes().contains_key(id) ==> self.issue_result(
                id,
                purpose,
                visit_time,
            ) == Err::<(), VisitorPassError>(VisitorPassError::AlreadyExists),
            !self.passes().contains_key(id) ==> self.approve_result(id, who) == Err::<(), VisitorPassError>(
                VisitorPassError::NotFound,
            ) && self.check_in_result(id, who) == Err::<(), VisitorPassError>(VisitorPassError::NotFound)
                && self.check_out_result(id, who) == Err::<(), VisitorPassError>(VisitorPassError::NotFound)
                && self.revoke_result(id, who) == Err::<(), VisitorPassError>(VisitorPassError::NotFound),
            self.passes().contains_key(id) && self.passes()[id].host@ != who ==> self.approve_result(id, who)
                == Err::<(), VisitorPassError>(VisitorPassError::Unauthorized) && self.revoke_result(id, who)
                == Err::<(), VisitorPassError>(VisitorPassError::Unauthorized),
            self.passes().contains_key(id) && self.passes()[id].visitor@ != who ==> self.check_in_result(id, who)
                == Err::<(), VisitorPassError>(VisitorPassError::Unauthorized) && self.check_out_result(id, who)
                == Err::<(), VisitorPassError>(VisitorPassError::Unauthorized),
            self.passes().contains_key(id) && self.passes()[id].host@ == who && self.passes()[id].status
                == PassStatus::Revoked ==> self.approve_result(id, who) == Err::<(), VisitorPassError>(
                VisitorPassError::PassRevoked,
            ) && self.revoke_result(id, who) == Err::<(), VisitorPassError>(VisitorPassError::PassRevoked),
            self.passes().contains_key(id) && self.passes()[id].host@ == who && (self.passes()[id].status
                == PassStatus::CheckedIn || self.passes()[id].status == PassStatus::CheckedOut)
                ==> self.approve_result(id, who) == Err::<(), VisitorPassError>(VisitorPassError::PassNotApproved),
            self.passes().contains_key(id) && self.passes()[id].host@ == who && self.passes()[id].status
                == PassStatus::CheckedOut ==> self.revoke_result(id, who) == Err::<(), VisitorPassError>(
                VisitorPassError::AlreadyCheckedOut,
            ),
            self.passes().contains_key(id) && self.passes()[id].visitor@ == who && self.passes()[id].status
                == PassStatus::Revoked ==> self.check_in_result(id, who) == Err::<(), VisitorPassError>(
                VisitorPassError::PassRevoked,
            ),
            self.passes().contains_key(id) && self.passes()[id].visitor@ == who && self.passes()[id].status
                == PassStatus::CheckedIn ==> self.check_in_result(id, who) == Err::<(), VisitorPassError>(
                VisitorPassError::AlreadyCheckedIn,
            ),
            self.passes().contains_key(id) && self.passes()[id].visitor@ == who && (self.passes()[id].status
                == PassStatus::Pending || self.passes()[id].status == PassStatus::CheckedOut)
                ==> self.check_in_result(id, who) == Err::<(), VisitorPassError>(VisitorPassError::PassNotApproved),
            self.passes().contains_key(id) && self.passes()[id].visitor@ == who && self.passes()[id].status
                == PassStatus::CheckedOut ==> self.check_out_result(id, who) == Err::<(), VisitorPassError>(
                VisitorPassError::AlreadyCheckedOut,
            ),
            self.passes().contains_key(id) && self.passes()[id].visitor@ == who && self.passes()[id].status
                != PassStatus::CheckedOut && self.passes()[id].status != PassStatus::CheckedIn
                ==> self.check_out_result(id, who) == Err::<(), VisitorPassError>(VisitorPassError::NotCheckedIn),
    {
    }

    /// A pass is issued exactly when it has a purpose, a visit time, and an
    /// id not yet used.
    pub proof fn lemma_issue_accepts(self, id: Seq<char>, purpose: Seq<char>, visit_time: u64)
        ensures
            self.issue_result(id, purpose, visit_time) is Ok <==> (purpose.len() > 0 && visit_time != 0
                && !self.passes().contains_key(id)),
    {
    }

    /// The host approves a pass exactly while it is pending or already
    /// approved.
    pub proof fn lemma_approve_accepts(self, id: Seq<char>, host: Seq<char>)
        ensures
            self.approve_result(id, host) is Ok <==> (self.passes().contains_key(id) && self.passes()[id].host@
                == host && (self.passes()[id].status == PassStatus::Pending || self.passes()[id].status
                == PassStatus::Approved)),
    {
    }

    /// The visitor checks in exactly on an approved pass.
    pub proof fn lemma_check_in_accepts(self, id: Seq<char>, visitor: Seq<char>)
        ensures
            self.check_in_result(id, visitor) is Ok <==> (self.passes().contains_key(id)
                && self.passes()[id].visitor@ == visitor && self.passes()[id].status == PassStatus::Approved),
    {
    }

    /// The visitor checks out exactly on a checked-in pass.
    pub proof fn lemma_check_out_accepts(self, id: Seq<char>, visitor: Seq<char>)
        ensures
            self.check_out_result(id, visitor) is Ok <==> (self.passes().contains_key(id)
                && self.passes()[id].visitor@ == visitor && self.passes()[id].status == PassStatus::CheckedIn),
    {
    }

    /// A checked-out or revoked pass is final: every call that would change
    /// it is refused, whoever makes it.
    pub proof fn lemma_final_states(self, id: Seq<char>, who: Seq<char>)
        requires
            self.passes().contains_key(id),
            self.passes()[id].status == PassStatus::CheckedOut || self.passes()[id].status
                == PassStatus::Revoked,
        ensures
            self.approve_result(id, who) is Err,
            self.check_in_result(id, who) is Err,
            self.check_out_result(id, who) is Err,
            self.revoke_result(id, who) is Err,
    {
    }

    /// The host of a pass may revoke it while it is pending, approved or
    /// checked in: a revocation is accepted exactly when the pass exists, the
    /// caller is its host, and it is neither checked out nor revoked.
    pub proof fn lemma_host_revokes_live_pass(self, id: Seq<char>, host: Seq<char>)
        ensures
            self.revoke_result(id, host) is Ok <==> (self.passes().contains_key(id) && self.passes()[id].host@
                == host && (self.passes()[id].status == PassStatus::Pending || self.passes()[id].status
                == PassStatus::Approved || self.passes()[id].status == PassStatus::CheckedIn)),
    {
    }

    /// Issues the pass `id` from `host` to `visitor` for `visit_time`:
    /// pending, created at `now`, never checked in nor out; the id goes to
    /// the end of the id list.
    pub fn issue_pass(
        &mut self,
        id: String,
        host: String,
        visitor: String,
        purpose: String,
        location: String,
        visit_time: u64,
        now: u64,
    ) -> (r: Result<(), VisitorPassError>)
        requires
            old(self).wf(),
        ensures
            final(self).wf(),
            r == old(self).issue_result(id@, purpose@, visit_time),
            r is Err ==> *final(self) == *old(self),
            r is Ok ==> {
                &&& final(self).passes() == old(self).passes().insert(
                    id@,
                    (VisitorPass {
                        host,
                        visitor,
                        purpose,
                        location,
                        status: PassStatus::Pending,
                        visit_time,
                        created_at: now,
                        check_in_at: 0,
                        check_out_at: 0,
                    }),
                )
                &&& final(self).id_list() == old(self).id_list().push(id@)
            },
    {
        if purpose.as_str().is_empty() {
            return Err(VisitorPassError::InvalidPurpose);
        }
        if visit_time == 0 {
            return Err(VisitorPassError::InvalidTimestamp);
        }
        if self.table.contains(&id) {
            return Err(VisitorPassError::AlreadyExists);
        }
        let pass = VisitorPass {
            host,
            visitor,
            purpose,
            location,
            status: PassStatus::Pending,
            visit_time,
            created_at: now,
            check_in_at: 0,
            check_out_at: 0,
        };
        self.table.push(id, pass);
        Ok(())
    }

    /// Approves the pending (or already approved) pass `id` on behalf of its
    /// host.
    pub fn approve_pass(&mut self, id: String, host: String) -> (r: Result<(), VisitorPassError>)
        requires
            old(self).wf(),
        ensures
            final(self).wf(),
            r == old(self).approve_result(id@, host@),
            r is Err ==> *final(self) == *old(self),
            r is Ok ==> {
                &&& final(self).passes() == old(self).passes().insert(
                    id@,
                    (VisitorPass { status: PassStatus::Approved, ..old(self).passes()[id@] }),
                )
                &&& final(self).id_list() == old(self).id_list()
            },
    {
        let mut pass = match self.table.get(&id) {
            Some(found) => found.clone(),
            None => return Err(VisitorPassError::NotFound),
        };
        if !(pass.host == host) {
            return Err(VisitorPassError::Unauthorized);
        }
        if pass.status == PassStatus::Revoked {
            return Err(VisitorPassError::PassRevoked);
        }
        if pass.status != PassStatus::Pending && pass.status != PassStatus::Approved {
            return Err(VisitorPassError::PassNotApproved);
        }
        pass.status = PassStatus::Approved;
        self.table.set(&id, pass);
        Ok(())
    }

    /// Checks the visitor of the approved pass `id` in, recording `now` as
    /// the time of check-in.
    pub fn check_in_visitor(&mut self, id: String, visitor: String, now: u64) -> (r: Result<(), VisitorPassError>)
        requires
            old(self).wf(),
        ensures
            final(self).wf(),
            r == old(self).check_in_result(id@, visitor@),
            r is Err ==> *final(self) == *old(self),
            r is Ok ==> {
                &&& final(self).passes() == old(self).passes().insert(
                    id@,
                    (VisitorPass {
                        status: PassStatus::CheckedIn,
                        check_in_at: now,
                        ..old(self).passes()[id@]
                    }),
                )
                &&& final(self).id_list() == old(self).id_list()
            },
    {
        let mut pass = match self.table.get(&id) {
            Some(found) => found.clone(),
            None => return Err(VisitorPassError::NotFound),
        };
        if !(pass.visitor == visitor) {
            return Err(VisitorPassError::Unauthorized);
        }
        if pass.status == PassStatus::Revoked {
            return Err(VisitorPassError::PassRevoked);
        }
        if pass.status == PassStatus::CheckedIn {
            return Err(VisitorPassError::AlreadyCheckedIn);
        }
        if pass.status != PassStatus::Approved {
            return Err(VisitorPassError::PassNotApproved);
        }
        pass.status = PassStatus::CheckedIn;
        pass.check_in_at = now;
        self.table.set(&id, pass);
        Ok(())
    }

    /// Checks the visitor of the checked-in pass `id` out, recording `now`
    /// as the time of check-out.
    pub fn check_out_visitor(&mut self, id: String, visitor: String, now: u64) -> (r: Result<(), VisitorPassError>)
        requires
            old(self).wf(),
        ensures
            final(self).wf(),
            r == old(self).check_out_result(id@, visitor@),
            r is Err ==> *final(self) == *old(self),
            r is Ok ==> {
                &&& final(self).passes() == old(self).passes().insert(
                    id@,
                    (VisitorPass {
                        status: PassStatus::CheckedOut,
                        check_out_at: now,
                        ..old(self).passes()[id@]
                    }),
                )
                &&& final(self).id_list() == old(self).id_list()
            },
    {
        let mut pass = match self.table.get(&id) {
            Some(found) => found.clone(),
            None => return Err(VisitorPassError::NotFound),
        };
        if !(pass.visitor == visitor) {
            return Err(VisitorPassError::Unauthorized);
        }
        if pass.status == PassStatus::CheckedOut {
            return Err(VisitorPassError::AlreadyCheckedOut);
        }
        if pass.status != PassStatus::CheckedIn {
            return Err(VisitorPassError::NotCheckedIn);
        }
        pass.status = PassStatus::CheckedOut;
        pass.check_out_at = now;
        self.table.set(&id, pass);
        Ok(())
    }

    /// Revokes the pass `id` on behalf of its host, for good, unless its
    /// visitor has already checked out.
    pub fn revoke_pass(&mut self, id: String, host: String) -> (r: Result<(), VisitorPassError>)
        requires
            old(self).wf(),
        ensures
            final(self).wf(),
            r == old(self).revoke_result(id@, host@),
            r is Err ==> *final(self) == *old(self),
            r is Ok ==> {
                &&& final(self).passes() == old(self).passes().insert(
                    id@,
                    (VisitorPass { status: PassStatus::Revoked, ..old(self).passes()[id@] }),
                )
                &&& final(self).id_list() == old(self).id_list()
            },
    {
        let mut pass = match self.table.get(&id) {
            Some(found) => found.clone(),
            None => return Err(VisitorPassError::NotFound),
        };
        if !(pass.host == host) {
            return Err(VisitorPassError::Unauthorized);
        }
        if pass.status == PassStatus::CheckedOut {
            return Err(VisitorPassError::AlreadyCheckedOut);
        }
        if pass.status == PassStatus::Revoked {
            return Err(VisitorPassError::PassRevoked);
        }
        pass.status = PassStatus::Revoked;
        self.table.set(&id, pass);
        Ok(())
    }

    /// The pass stored under `id`, if any.
    pub fn get_pass(&self, id: String) -> (r: Option<VisitorPass>)
        requires
            self.wf(),
        ensures
            r == (if self.passes().contains_key(id@) {
                Some(self.passes()[id@])
            } else {
                None
            }),
    {
        match self.table.get(&id) {
            Some(found) => Some(found.clone()),
            None => None,
        }
    }

    /// The pass ids, in the order in which the passes were issued.
    pub fn list_passes(&self) -> (r: Vec<String>)
        requires
            self.wf(),
        ensures
            texts(r@) == self.id_list(),
    {
        self.table.ids()
    }
}

} // verus!
