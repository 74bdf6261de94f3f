//! Loyalty rewards: members earn and redeem points and move between tiers.
//!
//! Text values stand for the ledger's values: a member id and a tier are the
//! text of a symbol, an owner is the text form of an account address. The
//! caller has already checked that the account acting in a call authorised
//! it; `now` is the ledger's timestamp at the call.
use vstd::prelude::*;
use crate::table::{texts, map_of, lemma_map_of, Table};

verus! {

/// A member of the loyalty program.
#[derive(Debug)]
pub struct Member {
    pub owner: String,
    pub name: String,
    pub tier: String,
    pub points: i128,
    pub active: bool,
    pub joined_at: u64,
    pub updated_at: u64,
}

impl Clone for Member {
    fn clone(&self) -> (r: Self)
        ensures
            r == *self,
    {
        Member {
            owner: self.owner.clone(),
            name: self.name.clone(),
            tier: self.tier.clone(),
            points: self.points,
            active: self.active,
            joined_at: self.joined_at,
            updated_at: self.updated_at,
        }
    }
}

/// Why a call was refused.
#[derive(Clone, Copy, Debug, PartialEq, Eq, PartialOrd, Ord, Structural)]
pub enum LoyaltyError {
    InvalidName,
    InvalidPoints,
    InvalidTimestamp,
    NotFound,
    Unauthorized,
    AlreadyExists,
    InsufficientPoints,
    MemberInactive,
}

impl LoyaltyError {
    /// The number by which the ledger reports this error.
    pub open spec fn spec_code(self) -> u32 {
        match self {
            LoyaltyError::InvalidName => 1,
            LoyaltyError::InvalidPoints => 2,
            LoyaltyError::InvalidTimestamp => 3,
            LoyaltyError::NotFound => 4,
            LoyaltyError::Unauthorized => 5,
            LoyaltyError::AlreadyExists => 6,
            LoyaltyError::InsufficientPoints => 7,
            LoyaltyError::MemberInactive => 8,
        }
    }

    /// The number by which the ledger reports this error.
    pub fn code(&self) -> (c: u32)
        ensures
            c == self.spec_code(),
    {
        match self {
            LoyaltyError::InvalidName => 1,
            LoyaltyError::InvalidPoints => 2,
            LoyaltyError::InvalidTimestamp => 3,
            LoyaltyError::NotFound => 4,
            LoyaltyError::Unauthorized => 5,
            LoyaltyError::AlreadyExists => 6,
            LoyaltyError::InsufficientPoints => 7,
            LoyaltyError::MemberInactive => 8,
        }
    }
}

/// The contract's storage: the members by id, the id list, and the member
/// count.
pub struct LoyaltyRewardsContract {
    table: Table<Member>,
    count: u32,
}

impl LoyaltyRewardsContract {
    /// The storage is consistent: the id list and the members agree, the
    /// count is the number of members, and every member is active with a
    /// non-negative balance.
    pub closed spec fn wf(&self) -> bool {
        &&& self.table.wf()
        &&& self.count == self.table.order().len()
        &&& forall|k: Seq<char>| #[trigger]
            self.table.records().contains_key(k) ==> self.table.records()[k].points >= 0
                && self.table.records()[k].active
    }

    /// The member stored under each id.
    pub closed spec fn members(&self) -> Map<Seq<char>, Member> {
        self.table.records()
    }

    /// The member ids, in the order in which the members were created.
    pub closed spec fn id_list(&self) -> Seq<Seq<char>> {
        self.table.order()
    }

    /// The stored member count.
    pub closed spec fn member_count(&self) -> nat {
        self.count as nat
    }

    /// What `create_member` answers.
    pub open spec fn create_member_result(self, id: Seq<char>, name: Seq<char>, joined_at: u64) -> Result<(), LoyaltyError> {
        if name.len() == 0 {
            Err(LoyaltyError::InvalidName)
        } else if joined_at == 0 {
            Err(LoyaltyError::InvalidTimestamp)
        } else if self.members().contains_key(id) {
            Err(LoyaltyError::AlreadyExists)
        } else {
            Ok(())
        }
    }

    /// What a call by `owner` on the member `id` answers before looking at
    /// the balance.
    pub open spec fn owner_check(self, id: Seq<char>, owner: Seq<char>) -> Result<(), LoyaltyError> {
        if !self.members().contains_key(id) {
            Err(LoyaltyError::NotFound)
        } else if self.members()[id].owner@ != owner {
            Err(LoyaltyError::Unauthorized)
        } else if !self.members()[id].active {
            Err(LoyaltyError::MemberInactive)
        } else {
            Ok(())
        }
    }

    /// What `add_points` answers.
    pub open spec fn add_points_result(self, id: Seq<char>, owner: Seq<char>, amount: i128) -> Result<(), LoyaltyError> {
        if amount <= 0 {
            Err(LoyaltyError::InvalidPoints)
        } else {
            self.owner_check(id, owner)
        }
    }

    /// What `redeem_points` answers.
    pub open spec fn redeem_points_result(self, id: Seq<char>, owner: Seq<char>, amount: i128) -> Result<(), LoyaltyError> {
        if amount <= 0 {
            Err(LoyaltyError::InvalidPoints)
        } else if self.owner_check(id, owner) is Err {
            self.owner_check(id, owner)
        } else if self.members()[id].points < amount {
            Err(LoyaltyError::InsufficientPoints)
        } else {
            Ok(())
        }
    }

    /// A contract with no member.
    pub fn new() -> (c: Self)
        ensures
            c.wf(),
            c.members() == Map::<Seq<char>, Member>::empty(),
            c.id_list() == Seq::<Seq<char>>::empty(),
            c.member_count() == 0,
    {
        LoyaltyRewardsContract { table: Table::new(), count: 0 }
    }

    /// Every stored member is active and holds a non-negative balance, the
    /// id list names each member once and no other id, and the member count
    /// is the number of members.
    pub proof fn lemma_storage_consistent(&self)
        requires
            self.wf(),
        ensures
            self.id_list().no_duplicates(),
            forall|k: Seq<char>| #[trigger]
                self.members().contains_key(k) <==> self.id_list().contains(k),
            self.member_count() == self.members().len(),
            forall|k: Seq<char>| #[trigger]
                self.members().contains_key(k) ==> self.members()[k].points >= 0
                    && self.members()[k].active,
    {
        self.table.lemma_order_matches_records();
    }

    /// Whether stored parts describe a consistent contract: an id list
    /// without repeats, the member stored under each id (in the same order),
    /// each active with a non-negative balance, and a member count equal to
    /// the number of members.
    pub open spec fn storage_fits(ids: Seq<String>, members: Seq<Member>, member_count: u32) -> bool {
        &&& ids.len() == members.len()
        &&& texts(ids).no_duplicates()
        &&& member_count == ids.len()
        &&& forall|i: int| 0 <= i < members.len() ==> #[trigger] members[i].points >= 0 && members[i].active
    }

    /// Rebuilds the contract from its stored parts, or nothing when they are
    /// not consistent.
    pub fn from_storage(ids: Vec<String>, members: Vec<Member>, member_count: u32) -> (r: Option<Self>)
        ensures
            r is Some <==> Self::storage_fits(ids@, members@, member_count),
            r matches Some(c) ==> {
                &&& c.wf()
                &&& c.members() == map_of(ids@, members@)
                &&& c.id_list() == texts(ids@)
                &&& c.member_count() == member_count
            },
    {
        let mut i: usize = 0;
        while i < members.len()
            invariant
                i <= members.len(),
                forall|j: int| 0 <= j < i ==> #[trigger] members@[j].points >= 0 && members@[j].active,
            decreases members.len() - i,
        {
            if members[i].points < 0 || !members[i].active {
                return None;
            }
            i += 1;
        }
        if member_count as usize != ids.len() {
            return None;
        }
        let ghost ids0 = ids@;
        let ghost members0 = members@;
        match Table::from_parts(ids, members) {
            None => None,
            Some(table) => {
                proof {
                    lemma_map_of(ids0, members0);
                    assert forall|k: Seq<char>| #[trigger] table.records().contains_key(k) implies table.records()[k].points
                        >= 0 && table.records()[k].active by {
                        let j = choose|j: int| 0 <= j < texts(ids0).len() && texts(ids0)[j] == k;
                        assert(ids0[j]@ == k);
                        assert(members0[j].points >= 0);
                    }
                }
                Some(LoyaltyRewardsContract { table, count: member_count })
            },
        }
    }

    /// The owner of an active member redeems a positive amount exactly when
    /// it is no more than the member's points, so a member can always redeem
    /// its whole balance; a larger amount is refused for want of points.
    pub proof fn lemma_redeem_up_to_balance(self, id: Seq<char>, owner: Seq<char>, amount: i128)
        requires
            self.members().contains_key(id),
            self.members()[id].owner@ == owner,
            self.members()[id].active,
            amount > 0,
        ensures
            self.redeem_points_result(id, owner, amount) is Ok <==> amount <= self.members()[id].points,
            amount > self.members()[id].points ==> self.redeem_points_result(id, owner, amount) == Err::<
                (),
                LoyaltyError,
            >(LoyaltyError::InsufficientPoints),
    {
    }

    /// What the contract stores can always be read back: its id list, the
    /// member stored under each id in the same order, and its member count
    /// are parts that `from_storage` accepts and rebuilds the same contract
    /// from.
    pub proof fn lemma_storage_reads_back(self, ids: Seq<String>, members: Seq<Member>, member_count: u32)
        requires
            self.wf(),
            texts(ids) == self.id_list(),
            members.len() == ids.len(),
            forall|i: int| #![trigger members[i]] 0 <= i < ids.len() ==> members[i] == self.members()[ids[i]@],
            member_count == self.member_count(),
        ensures
            Self::storage_fits(ids, members, member_count),
            map_of(ids, members) == self.members(),
    {
        self.table.lemma_reads_back(ids, members);
        assert forall|i: int| 0 <= i < members.len() implies #[trigger] members[i].points >= 0
            && members[i].active by {
            assert(texts(ids)[i] == ids[i]@);
            assert(self.table.order()[i] == ids[i]@);
            assert(self.table.order().contains(ids[i]@));
            self.table.lemma_order_matches_records();
            assert(self.table.records().contains_key(ids[i]@));
        }
    }

    /// Why a call is refused. Creation checks the name, then the time, then
    /// that the id is free. Adding and redeeming check the amount first: a
    /// nonpositive amount is refused as invalid. Otherwise a call naming no
    /// stored member is refused as not found, one by anyone but its owner as
    /// unauthorized, one on an inactive member as inactive, and a redemption
    /// beyond the points held as insufficient.
    pub proof fn lemma_refusals(
        self,
        id: Seq<char>,
        who: Seq<char>,
        amount: i128,
        name: Seq<char>,
        joined_at: u64,
    )
        ensures
            name.len() == 0 ==> self.create_member_result(id, name, joined_at) == Err::<(), LoyaltyError>(
                LoyaltyError::InvalidName,
            ),
            name.len() > 0 && joined_at == 0 ==> self.create_member_result(id, name, joined_at) == Err::<
                (),
                LoyaltyError,
            >(LoyaltyError::InvalidTimestamp),
            name.len() > 0 && joined_at != 0 && self.members().contains_key(id) ==> self.create_member_result(
                id,
                name,
                joined_at,
            ) == Err::<(), LoyaltyError>(LoyaltyError::AlreadyExists),
            amount <= 0 ==> self.add_points_result(id, who, amount) == Err::<(), LoyaltyError>(
                LoyaltyError::InvalidPoints,
            ) && self.redeem_points_result(id, who, amount) == Err::<(), LoyaltyError>(
                LoyaltyError::InvalidPoints,
            ),
            !self.members().contains_key(id) ==> self.owner_check(id, who) == Err::<(), LoyaltyError>(
                LoyaltyError::NotFound,
            ),
            self.members().contains_key(id) && self.members()[id].owner@ != who ==> self.owner_check(id, who)
                == Err::<(), LoyaltyError>(LoyaltyError::Unauthorized),
            self.members().contains_key(id) && self.members()[id].owner@ == who && !self.members()[id].active
                ==> self.owner_check(id, who) == Err::<(), LoyaltyError>(LoyaltyError::MemberInactive),
            amount > 0 && self.owner_check(id, who) is Err ==> self.add_points_result(id, who, amount)
                == self.owner_check(id, who) && self.redeem_points_result(id, who, amount) == self.owner_check(
                id,
                who,
            ),
    {
    }

    /// A member is created exactly when it has a name, a joining time, and an
    /// id not yet used.
    pub proof fn lemma_create_accepts(self, id: Seq<char>, name: Seq<char>, joined_at: u64)
        ensures
            self.create_member_result(id, name, joined_at) is Ok <==> (name.len() > 0 && joined_at != 0
                && !self.members().contains_key(id)),
    {
    }

    /// Points are added exactly when the amount is positive and the caller
    /// owns the member, which is active; the balance held plays no part.
    pub proof fn lemma_add_points_accepts(self, id: Seq<char>, owner: Seq<char>, amount: i128)
        ensures
            self.add_points_result(id, owner, amount) is Ok <==> (amount > 0 && self.members().contains_key(id)
                && self.members()[id].owner@ == owner && self.members()[id].active),
    {
    }

    /// Points are redeemed exactly when the amount is positive, the caller
    /// owns the member, which is active, and the amount does not exceed its
    /// points.
    pub proof fn lemma_redeem_accepts(self, id: Seq<char>, owner: Seq<char>, amount: i128)
        ensures
            self.redeem_points_result(id, owner, amount) is Ok <==> (amount > 0 && self.members().contains_key(
                id,
            ) && self.members()[id].owner@ == owner && self.members()[id].active && amount
                <= self.members()[id].points),
    {
    }

    /// The tier of a member is set exactly by its owner while it is active.
    pub proof fn lemma_owner_acts_while_active(self, id: Seq<char>, owner: Seq<char>)
        ensures
            self.owner_check(id, owner) is Ok <==> (self.members().contains_key(id) && self.members()[id].owner@
                == owner && self.members()[id].active),
    {
    }

    /// Enrols a new member under `id`, owned by `owner`, with no points, in
    /// `tier`, joined (and last updated) at `joined_at`; the id goes to the
    /// end of the id list and the member count grows by one.
    pub fn create_member(
        &mut self,
        id: String,
        owner: String,
        name: String,
        tier: String,
        joined_at: u64,
    ) -> (r: Result<(), LoyaltyError>)
        requires
            old(self).wf(),
            old(self).create_member_result(id@, name@, joined_at) is Ok ==> old(self).member_count()
                < u32::MAX,
        ensures
            final(self).wf(),
            r == old(self).create_member_result(id@, name@, joined_at),
            r is Err ==> *final(self) == *old(self),
            r is Ok ==> {
                &&& final(self).members() == old(self).members().insert(
                    id@,
                    (Member {
                        owner,
                        name,
                        tier,
                        points: 0,
                        active: true,
                        joined_at,
                        updated_at: joined_at,
                    }),
                )
                &&& final(self).id_list() == old(self).id_list().push(id@)
                &&& final(self).member_count() == old(self).member_count() + 1
            },
    {
        if name.as_str().is_empty() {
            return Err(LoyaltyError::InvalidName);
        }
        if joined_at == 0 {
            return Err(LoyaltyError::InvalidTimestamp);
        }
        if self.table.contains(&id) {
            return Err(LoyaltyError::AlreadyExists);
        }
        let member = Member {
            owner,
            name,
            tier,
            points: 0,
            active: true,
            joined_at,
            updated_at: joined_at,
        };
        self.table.push(id, member);
        self.count = self.count + 1;
        Ok(())
    }

    /// Adds `amount` points to the member `id` on behalf of its owner, and
    /// records `now` as the time of the update.
    pub fn add_points(&mut self, id: String, owner: String, amount: i128, now: u64) -> (r: Result<(), LoyaltyError>)
        requires
            old(self).wf(),
            old(self).add_points_result(id@, owner@, amount) is Ok ==> old(self).members()[id@].points
                + amount <= i128::MAX,
        ensures
            final(self).wf(),
            r == old(self).add_points_result(id@, owner@, amount),
            r is Err ==> *final(self) == *old(self),
            r is Ok ==> {
                &&& final(self).members() == old(self).members().insert(
                    id@,
                    (Member {
                        points: (old(self).members()[id@].points + amount) as i128,
                        updated_at: now,
                        ..old(self).members()[id@]
                    }),
                )
                &&& final(self).id_list() == old(self).id_list()
                &&& final(self).member_count() == old(self).member_count()
            },
    {
        if amount <= 0 {
            return Err(LoyaltyError::InvalidPoints);
        }
        let mut member = match self.table.get(&id) {
            Some(m) => m.clone(),
            None => return Err(LoyaltyError::NotFound),
        };
        if !(member.owner == owner) {
            return Err(LoyaltyError::Unauthorized);
        }
        if !member.active {
            return Err(LoyaltyError::MemberInactive);
        }
        member.points = member.points + amount;
        member.updated_at = now;
        self.table.set(&id, member);
        Ok(())
    }

    /// Takes `amount` points from the member `id` on behalf of its owner,
    /// which must hold at least that many, and records `now` as the time of
    /// the update.
    pub fn redeem_points(&mut self, id: String, owner: String, amount: i128, now: u64) -> (r: Result<(), LoyaltyError>)
        requires
            old(self).wf(),
        ensures
            final(self).wf(),
            r == old(self).redeem_points_result(id@, owner@, amount),
            r is Err ==> *final(self) == *old(self),
            r is Ok ==> {
                &&& final(self).members() == old(self).members().insert(
                    id@,
                    (Member {
                        points: (old(self).members()[id@].points - amount) as i128,
                        updated_at: now,
                        ..old(self).members()[id@]
                    }),
                )
                &&& final(self).id_list() == old(self).id_list()
                &&& final(self).member_count() == old(self).member_count()
            },
    {
        if amount <= 0 {
            return Err(LoyaltyError::InvalidPoints);
        }
        let mut member = match self.table.get(&id) {
            Some(m) => m.clone(),
            None => return Err(LoyaltyError::NotFound),
        };
        if !(member.owner == owner) {
            return Err(LoyaltyError::Unauthorized);
        }
        if !member.active {
            return Err(LoyaltyError::MemberInactive);
        }
        if member.points < amount {
            return Err(LoyaltyError::InsufficientPoints);
        }
        member.points = member.points - amount;
        member.updated_at = now;
        self.table.set(&id, member);
        Ok(())
    }

    /// Moves the member `id` to `tier` on behalf of its owner, and records
    /// `now` as the time of the update.
    pub fn update_tier(&mut self, id: String, owner: String, tier: String, now: u64) -> (r: Result<(), LoyaltyError>)
        requires
            old(self).wf(),
        ensures
            final(self).wf(),
            r == old(self).owner_check(id@, owner@),
            r is Err ==> *final(self) == *old(self),
            r is Ok ==> {
                &&& final(self).members() == old(self).members().insert(
                    id@,
                    (Member { tier, updated_at: now, ..old(self).members()[id@] }),
                )
                &&& final(self).id_list() == old(self).id_list()
                &&& final(self).member_count() == old(self).member_count()
            },
    {
        let mut member = match self.table.get(&id) {
            Some(m) => m.clone(),
            None => return Err(LoyaltyError::NotFound),
        };
        if !(member.owner == owner) {
            return Err(LoyaltyError::Unauthorized);
        }
        if !member.active {
            return Err(LoyaltyError::MemberInactive);
        }
        member.tier = tier;
        member.updated_at = now;
        self.table.set(&id, member);
        Ok(())
    }

    /// The member stored under `id`, if any.
    pub fn get_member(&self, id: String) -> (r: Option<Member>)
        requires
            self.wf(),
        ensures
            r == (if self.members().contains_key(id@) {
                Some(self.members()[id@])
            } else {
                None
            }),
    {
        match self.table.get(&id) {
            Some(m) => Some(m.clone()),
            None => None,
        }
    }

    /// The member ids, in the order in which the members were created.
    pub fn list_members(&self) -> (r: Vec<String>)
        requires
            self.wf(),
        ensures
            texts(r@) == self.id_list(),
    {
        self.table.ids()
    }

    /// The stored member count.
    pub fn get_member_count(&self) -> (r: u32)
        requires
            self.wf(),
        ensures
            r == self.member_count(),
    {
        self.count
    }
}

} // verus!
