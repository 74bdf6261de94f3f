//! Referral rewards: campaigns in which referrers register friends, and
//! promoters approve the referrals and reward them, once each.
//!
//! Text values stand for the ledger's values: an id is the text of a
//! symbol, a promoter, a referrer or a friend is the text form of an account
//! address. The caller has already checked that the account acting in a call
//! authorised it.
use vstd::prelude::*;
use crate::table::{
    texts, pair_texts, map_of, lemma_map_of, flags_for, flags_name_stored, flags_within, Table, FlagSet, flags_counted, all_within, lemma_flags_counted_new,
    lemma_flags_counted_same, lemma_flags_counted_push, lemma_within_push_outer,
    lemma_within_push_inner, lemma_flags_for_within, lemma_flags_for_within_strict, sum_counts, lemma_sum_flags_all,
    lemma_sum_counts_flags,
};

verus! {

/// Where a campaign stands; campaigns are open from their creation on.
#[derive(Clone, Copy, Debug, PartialEq, Eq, Structural)]
pub enum CampaignStatus {
    Open,
}

/// A referral campaign.
#[derive(Debug)]
pub struct Campaign {
    pub promoter: String,
    pub title: String,
    pub reward_amount: i128,
    pub status: CampaignStatus,
    pub referral_count: u32,
    pub approved_count: u32,
    pub reward_count: u32,
    pub created_at: u64,
}

impl Clone for Campaign {
    fn clone(&self) -> (r: Self)
        ensures
            r == *self,
    {
        Campaign {
            promoter: self.promoter.clone(),
            title: self.title.clone(),
            reward_amount: self.reward_amount,
            status: self.status,
            referral_count: self.referral_count,
            approved_count: self.approved_count,
            reward_count: self.reward_count,
            created_at: self.created_at,
        }
    }
}

/// Why a call was refused.
#[derive(Clone, Copy, Debug, PartialEq, Eq, PartialOrd, Ord, Structural)]
pub enum ReferralError {
    InvalidTitle,
    InvalidReward,
    NotFound,
    Unauthorized,
    AlreadyExists,
    AlreadyRegistered,
    NotRegistered,
    AlreadyApproved,
    NotApproved,
    AlreadyRewarded,
    InvalidTimestamp,
}

impl ReferralError {
    /// The number by which the ledger reports this error.
    pub open spec fn spec_code(self) -> u32 {
        match self {
            ReferralError::InvalidTitle => 1,
            ReferralError::InvalidReward => 2,
            ReferralError::NotFound => 3,
            ReferralError::Unauthorized => 4,
            ReferralError::AlreadyExists => 5,
            ReferralError::AlreadyRegistered => 6,
            ReferralError::NotRegistered => 7,
            ReferralError::AlreadyApproved => 8,
            ReferralError::NotApproved => 9,
            ReferralError::AlreadyRewarded => 10,
            ReferralError::InvalidTimestamp => 11,
        }
    }

    /// The number by which the ledger reports this error.
    pub fn code(&self) -> (c: u32)
        ensures
            c == self.spec_code(),
    {
        match self {
            ReferralError::InvalidTitle => 1,
            ReferralError::InvalidReward => 2,
            ReferralError::NotFound => 3,
            ReferralError::Unauthorized => 4,
            ReferralError::AlreadyExists => 5,
            ReferralError::AlreadyRegistered => 6,
            ReferralError::NotRegistered => 7,
            ReferralError::AlreadyApproved => 8,
            ReferralError::NotApproved => 9,
            ReferralError::AlreadyRewarded => 10,
            ReferralError::InvalidTimestamp => 11,
        }
    }
}

/// The number of friends registered in a campaign.
pub open spec fn referrals_of() -> spec_fn(Campaign) -> nat {
    |c: Campaign| c.referral_count as nat
}

/// The number of referrals approved in a campaign.
pub open spec fn approvals_of() -> spec_fn(Campaign) -> nat {
    |c: Campaign| c.approved_count as nat
}

/// The number of referrals rewarded in a campaign.
pub open spec fn rewards_of() -> spec_fn(Campaign) -> nat {
    |c: Campaign| c.reward_count as nat
}

/// The contract's storage: the campaigns by id, the id list, the
/// registration, approval and reward flags of each friend, and the count of
/// rewards issued in all campaigns.
pub struct ReferralRewardsContract {
    table: Table<Campaign>,
    registered: FlagSet,
    approved: FlagSet,
    rewarded: FlagSet,
    total_rewards: u32,
}

impl ReferralRewardsContract {
    /// The storage is consistent: the id list and the campaigns agree; each
    /// campaign's counts are the numbers of its flags; only registered
    /// referrals are approved and only approved ones rewarded; the total is
    /// the number of rewards issued.
    pub closed spec fn wf(&self) -> bool {
        &&& self.table.wf()
        &&& self.registered.wf()
        &&& self.approved.wf()
        &&& self.rewarded.wf()
        &&& flags_counted(self.table.records(), self.registered.flags(), referrals_of())
        &&& flags_counted(self.table.records(), self.approved.flags(), approvals_of())
        &&& flags_counted(self.table.records(), self.rewarded.flags(), rewards_of())
        &&& all_within(self.approved.flags(), self.registered.flags())
        &&& all_within(self.rewarded.flags(), self.approved.flags())
        &&& self.total_rewards == self.rewarded.flags().len()
    }

    /// The campaign stored under each id.
    pub closed spec fn campaigns(&self) -> Map<Seq<char>, Campaign> {
        self.table.records()
    }

    /// The campaign ids, in the order in which the campaigns were created.
    pub closed spec fn id_list(&self) -> Seq<Seq<char>> {
        self.table.order()
    }

    /// The (campaign, friend) pairs of registered referrals, in order.
    pub closed spec fn registrations(&self) -> Seq<(Seq<char>, Seq<char>)> {
        self.registered.flags()
    }

    /// The (campaign, friend) pairs of approved referrals, in order.
    pub closed spec fn approvals(&self) -> Seq<(Seq<char>, Seq<char>)> {
        self.approved.flags()
    }

    /// The (campaign, friend) pairs of rewarded referrals, in order.
    pub closed spec fn rewards(&self) -> Seq<(Seq<char>, Seq<char>)> {
        self.rewarded.flags()
    }

    /// The stored count of rewards issued in all campaigns.
    pub closed spec fn reward_total(&self) -> nat {
        self.total_rewards as nat
    }

    /// What `create_campaign` answers.
    pub open spec fn create_result(self, id: Seq<char>, title: Seq<char>, reward_amount: i128, created_at: u64) -> Result<(), ReferralError> {
        if title.len() == 0 {
            Err(ReferralError::InvalidTitle)
        } else if reward_amount <= 0 {
            Err(ReferralError::InvalidReward)
        } else if created_at == 0 {
            Err(ReferralError::InvalidTimestamp)
        } else if self.campaigns().contains_key(id) {
            Err(ReferralError::AlreadyExists)
        } else {
            Ok(())
        }
    }

    /// What `register_referral` answers.
    pub open spec fn register_result(self, id: Seq<char>, friend: Seq<char>) -> Result<(), ReferralError> {
        if !self.campaigns().contains_key(id) {
            Err(ReferralError::NotFound)
        } else if self.registrations().contains((id, friend)) {
            Err(ReferralError::AlreadyRegistered)
        } else {
            Ok(())
        }
    }

    /// What `approve_referral` answers.
    pub open spec fn approve_result(self, id: Seq<char>, promoter: Seq<char>, friend: Seq<char>) -> Result<(), ReferralError> {
        if !self.campaigns().contains_key(id) {
            Err(ReferralError::NotFound)
        } else if self.campaigns()[id].promoter@ != promoter {
            Err(ReferralError::Unauthorized)
        } else if !self.registrations().contains((id, friend)) {
            Err(ReferralError::NotRegistered)
        } else if self.approvals().contains((id, friend)) {
            Err(ReferralError::AlreadyApproved)
        } else {
            Ok(())
        }
    }

    /// What `issue_reward` answers.
    pub open spec fn reward_result(self, id: Seq<char>, promoter: Seq<char>, friend: Seq<char>) -> Result<(), ReferralError> {
        if !self.campaigns().contains_key(id) {
            Err(ReferralError::NotFound)
        } else if self.campaigns()[id].promoter@ != promoter {
            Err(ReferralError::Unauthorized)
        } else if !self.approvals().contains((id, friend)) {
            Err(ReferralError::NotApproved)
        } else if self.rewards().contains((id, friend)) {
            Err(ReferralError::AlreadyRewarded)
        } else {
            Ok(())
        }
    }

    /// A contract with no campaign.
    pub fn new() -> (c: Self)
        ensures
            c.wf(),
            c.campaigns() == Map::<Seq<char>, Campaign>::empty(),
            c.id_list() == Seq::<Seq<char>>::empty(),
            c.registrations() == Seq::<(Seq<char>, Seq<char>)>::empty(),
            c.approvals() == Seq::<(Seq<char>, Seq<char>)>::empty(),
            c.rewards() == Seq::<(Seq<char>, Seq<char>)>::empty(),
            c.reward_total() == 0,
    {
        ReferralRewardsContract {
            table: Table::new(),
            registered: FlagSet::new(),
            approved: FlagSet::new(),
            rewarded: FlagSet::new(),
            total_rewards: 0,
        }
    }

    /// The id list names each campaign once and no other id; each referral
    /// is registered, approved and rewarded at most once; each campaign's
    /// counts are the numbers of its flags; only registered referrals are
    /// approved and only approved ones rewarded; the total is the number of
    /// rewards issued in all campaigns; so no campaign has rewarded more
    /// referrals than it approved, nor approved more than were registered.
    pub proof fn lemma_storage_consistent(&self)
        requires
            self.wf(),
        ensures
            self.id_list().no_duplicates(),
            forall|k: Seq<char>| #[trigger]
                self.campaigns().contains_key(k) <==> self.id_list().contains(k),
            self.registrations().no_duplicates(),
            self.approvals().no_duplicates(),
            self.rewards().no_duplicates(),
            flags_counted(self.campaigns(), self.registrations(), referrals_of()),
            flags_counted(self.campaigns(), self.approvals(), approvals_of()),
            flags_counted(self.campaigns(), self.rewards(), rewards_of()),
            all_within(self.approvals(), self.registrations()),
            all_within(self.rewards(), self.approvals()),
            self.reward_total() == self.rewards().len(),
            forall|k: Seq<char>| #[trigger]
                self.campaigns().contains_key(k) ==> self.campaigns()[k].reward_count
                    <= self.campaigns()[k].approved_count
                    && self.campaigns()[k].approved_count <= self.campaigns()[k].referral_count,
    {
        self.table.lemma_order_matches_records();
        self.registered.lemma_set_once();
        self.approved.lemma_set_once();
        self.rewarded.lemma_set_once();
        assert forall|k: Seq<char>| #[trigger]
            self.campaigns().contains_key(k) implies self.campaigns()[k].reward_count
                <= self.campaigns()[k].approved_count
                && self.campaigns()[k].approved_count <= self.campaigns()[k].referral_count by {
            lemma_flags_for_within(self.rewarded.flags(), self.approved.flags(), k);
            lemma_flags_for_within(self.approved.flags(), self.registered.flags(), k);
        }
    }

    /// The count of rewards issued in all campaigns is the sum, over the
    /// campaign ids, of each campaign's count of rewards.
    pub proof fn lemma_reward_total_is_sum(&self)
        requires
            self.wf(),
        ensures
            self.reward_total() == sum_counts(self.id_list(), self.campaigns(), rewards_of()),
    {
        self.table.lemma_order_matches_records();
        let ids = self.id_list();
        let flags = self.rewards();
        assert forall|i: int| 0 <= i < flags.len() implies ids.contains(#[trigger] flags[i].0) by {
            assert(self.campaigns().contains_key(flags[i].0));
        }
        assert forall|i: int| 0 <= i < ids.len() implies self.campaigns().contains_key(#[trigger] ids[i]) by {
            assert(ids.contains(ids[i]));
        }
        lemma_sum_flags_all(ids, flags);
        lemma_sum_counts_flags(ids, self.campaigns(), flags, rewards_of());
    }

    /// Whether stored parts describe a consistent contract: an id list
    /// without repeats, the campaign stored under each id (in the same
    /// order), registration, approval and reward flags, each set once, that
    /// name stored campaigns and number as many for each campaign as its
    /// counts, with only registered referrals approved and only approved ones
    /// rewarded, and a total equal to the number of rewards.
    pub open spec fn storage_fits(
        ids: Seq<String>,
        campaigns: Seq<Campaign>,
        registered: Seq<(String, String)>,
        approved: Seq<(String, String)>,
        rewarded: Seq<(String, String)>,
        reward_total: u32,
    ) -> bool {
        &&& ids.len() == campaigns.len()
        &&& texts(ids).no_duplicates()
        &&& pair_texts(registered).no_duplicates()
        &&& pair_texts(approved).no_duplicates()
        &&& pair_texts(rewarded).no_duplicates()
        &&& flags_counted(map_of(ids, campaigns), pair_texts(registered), referrals_of())
        &&& flags_counted(map_of(ids, campaigns), pair_texts(approved), approvals_of())
        &&& flags_counted(map_of(ids, campaigns), pair_texts(rewarded), rewards_of())
        &&& all_within(pair_texts(approved), pair_texts(registered))
        &&& all_within(pair_texts(rewarded), pair_texts(approved))
        &&& reward_total == rewarded.len()
    }

    /// Rebuilds the contract from its stored parts, or nothing when they are
    /// not consistent.
    pub fn from_storage(
        ids: Vec<String>,
        campaigns: Vec<Campaign>,
        registered: Vec<(String, String)>,
        approved: Vec<(String, String)>,
        rewarded: Vec<(String, String)>,
        reward_total: u32,
    ) -> (r: Option<Self>)
        ensures
            r is Some <==> Self::storage_fits(ids@, campaigns@, registered@, approved@, rewarded@, reward_total),
            r matches Some(c) ==> {
                &&& c.wf()
                &&& c.campaigns() == map_of(ids@, campaigns@)
                &&& c.id_list() == texts(ids@)
                &&& c.registrations() == pair_texts(registered@)
                &&& c.approvals() == pair_texts(approved@)
                &&& c.rewards() == pair_texts(rewarded@)
                &&& c.reward_total() == reward_total
            },
    {
        let ghost ids0 = ids@;
        let ghost campaigns0 = campaigns@;
        let ghost registered0 = registered@;
        let ghost approved0 = approved@;
        let ghost rewarded0 = rewarded@;
        if reward_total as usize != rewarded.len() {
            return None;
        }
        let table = match Table::from_parts(ids, campaigns) {
            Some(t) => t,
            None => return None,
        };
        let reg = match FlagSet::from_pairs(registered) {
            Some(f) => f,
            None => return None,
        };
        let appr = match FlagSet::from_pairs(approved) {
            Some(f) => f,
            None => return None,
        };
        let rew = match FlagSet::from_pairs(rewarded) {
            Some(f) => f,
            None => return None,
        };
        proof {
            lemma_map_of(ids0, campaigns0);
            table.lemma_order_matches_records();
        }
        if !flags_name_stored(&reg, &table) || !flags_name_stored(&appr, &table) || !flags_name_stored(
            &rew,
            &table,
        ) {
            return None;
        }
        if !flags_within(&appr, &reg) || !flags_within(&rew, &appr) {
            return None;
        }
        let list = table.ids();
        let mut i: usize = 0;
        while i < list.len()
            invariant
                ids0 == ids@,
                campaigns0 == campaigns@,
                registered0 == registered@,
                approved0 == approved@,
                rewarded0 == rewarded@,
                table.wf(),
                table.records() == map_of(ids0, campaigns0),
                reg.flags() == pair_texts(registered0),
                appr.flags() == pair_texts(approved0),
                rew.flags() == pair_texts(rewarded0),
                texts(list@) == table.order(),
                i <= list.len(),
                forall|j: int|
                    0 <= j < i ==> referrals_of()(table.records()[#[trigger] texts(list@)[j]])
                        == flags_for(reg.flags(), texts(list@)[j]) && approvals_of()(
                        table.records()[texts(list@)[j]],
                    ) == flags_for(appr.flags(), texts(list@)[j]) && rewards_of()(
                        table.records()[texts(list@)[j]],
                    ) == flags_for(rew.flags(), texts(list@)[j]),
            decreases list.len() - i,
        {
            assert(texts(list@)[i as int] == list@[i as int]@);
            assert(table.order().contains(list@[i as int]@));
            proof {
                table.lemma_order_matches_records();
            }
            let (a, b, c) = match table.get(&list[i]) {
                Some(found) => (found.referral_count, found.approved_count, found.reward_count),
                None => (0, 0, 0),
            };
            if a as usize != reg.count_for(&list[i]) || b as usize != appr.count_for(&list[i])
                || c as usize != rew.count_for(&list[i]) {
                assert(table.records().contains_key(list@[i as int]@));
                return None;
            }
            i += 1;
        }
        proof {
            table.lemma_order_matches_records();
            assert forall|k: Seq<char>| #[trigger] table.records().contains_key(k) implies referrals_of()(
                table.records()[k],
            ) == flags_for(reg.flags(), k) && approvals_of()(table.records()[k]) == flags_for(
                appr.flags(),
                k,
            ) && rewards_of()(table.records()[k]) == flags_for(rew.flags(), k) by {
                let j = choose|j: int| 0 <= j < texts(list@).len() && texts(list@)[j] == k;
            }
        }
        Some(
            ReferralRewardsContract {
                table,
                registered: reg,
                approved: appr,
                rewarded: rew,
                total_rewards: reward_total,
            },
        )
    }

    /// What the contract stores can always be read back: its id list, the
    /// campaign stored under each id in the same order, its flags and its
    /// total are parts that `from_storage` accepts and rebuilds the same
    /// contract from.
    pub proof fn lemma_storage_reads_back(
        self,
        ids: Seq<String>,
        campaigns: Seq<Campaign>,
        registered: Seq<(String, String)>,
        approved: Seq<(String, String)>,
        rewarded: Seq<(String, String)>,
        reward_total: u32,
    )
        requires
            self.wf(),
            texts(ids) == self.id_list(),
            campaigns.len() == ids.len(),
            forall|i: int| #![trigger campaigns[i]] 0 <= i < ids.len() ==> campaigns[i] == self.campaigns()[ids[i]@],
            pair_texts(registered) == self.registrations(),
            pair_texts(approved) == self.approvals(),
            pair_texts(rewarded) == self.rewards(),
            reward_total == self.reward_total(),
        ensures
            Self::storage_fits(ids, campaigns, registered, approved, rewarded, reward_total),
            map_of(ids, campaigns) == self.campaigns(),
    {
        self.table.lemma_reads_back(ids, campaigns);
        self.registered.lemma_set_once();
        self.approved.lemma_set_once();
        self.rewarded.lemma_set_once();
        assert(pair_texts(rewarded).len() == rewarded.len());
    }

    /// Why a call is refused. Creation checks the title, then the reward,
    /// then the time, then that the id is free. A call naming no stored
    /// campaign is refused as not found. A friend registered already is
    /// refused as already registered. Approving and rewarding by anyone but
    /// the promoter are refused as unauthorized; only a registered referral
    /// is approved, and once; only an approved referral is rewarded, and
    /// once.
    pub proof fn lemma_refusals(
        self,
        id: Seq<char>,
        who: Seq<char>,
        friend: Seq<char>,
        title: Seq<char>,
        reward_amount: i128,
        created_at: u64,
    )
        ensures
            title.len() == 0 ==> self.create_result(id, title, reward_amount, created_at) == Err::<(), ReferralError>(
                ReferralError::InvalidTitle,
            ),
            title.len() > 0 && reward_amount <= 0 ==> self.create_result(id, title, reward_amount, created_at)
                == Err::<(), ReferralError>(ReferralError::InvalidReward),
            title.len() > 0 && reward_amount > 0 && created_at == 0 ==> self.create_result(
                id,
                title,
                reward_amount,
                created_at,
            ) == Err::<(), ReferralError>(ReferralError::InvalidTimestamp),
            title.len() > 0 && reward_amount > 0 && created_at != 0 && self.campaigns().contains_key(id)
                ==> self.create_result(id, title, reward_amount, created_at) == Err::<(), ReferralError>(
                ReferralError::AlreadyExists,
            ),
            !self.campaigns().contains_key(id) ==> self.register_result(id, friend) == Err::<(), ReferralError>(
                ReferralError::NotFound,
            ) && self.approve_result(id, who, friend) == Err::<(), ReferralError>(ReferralError::NotFound)
                && self.reward_result(id, who, friend) == Err::<(), ReferralError>(ReferralError::NotFound),
            self.campaigns().contains_key(id) && self.registrations().contains((id, friend))
                ==> self.register_result(id, friend) == Err::<(), ReferralError>(ReferralError::AlreadyRegistered),
            self.campaigns().contains_key(id) && self.campaigns()[id].promoter@ != who ==> self.approve_result(
                id,
                who,
                friend,
            ) == Err::<(), ReferralError>(ReferralError::Unauthorized) && self.reward_result(id, who, friend)
                == Err::<(), ReferralError>(ReferralError::Unauthorized),
            self.campaigns().contains_key(id) && self.campaigns()[id].promoter@ == who
                && !self.registrations().contains((id, friend)) ==> self.approve_result(id, who, friend) == Err::<
                (),
                ReferralError,
            >(ReferralError::NotRegistered),
            self.campaigns().contains_key(id) && self.campaigns()[id].promoter@ == who && self.registrations().contains(
                (id, friend),
            ) && self.approvals().contains((id, friend)) ==> self.approve_result(id, who, friend) == Err::<
                (),
                ReferralError,
            >(ReferralError::AlreadyApproved),
            self.campaigns().contains_key(id) && self.campaigns()[id].promoter@ == who && !self.approvals().contains(
                (id, friend),
            ) ==> self.reward_result(id, who, friend) == Err::<(), ReferralError>(ReferralError::NotApproved),
            self.campaigns().contains_key(id) && self.campaigns()[id].promoter@ == who && self.approvals().contains(
                (id, friend),
            ) && self.rewards().contains((id, friend)) ==> self.reward_result(id, who, friend) == Err::<
                (),
                ReferralError,
            >(ReferralError::AlreadyRewarded),
    {
    }

    /// A campaign is created exactly when it has a title, a positive reward,
    /// a creation time, and an id not yet used.
    pub proof fn lemma_create_accepts(self, id: Seq<char>, title: Seq<char>, reward_amount: i128, created_at: u64)
        ensures
            self.create_result(id, title, reward_amount, created_at) is Ok <==> (title.len() > 0 && reward_amount
                > 0 && created_at != 0 && !self.campaigns().contains_key(id)),
    {
    }

    /// A friend is registered into a campaign exactly once, whoever refers
    /// them.
    pub proof fn lemma_register_accepts(self, id: Seq<char>, friend: Seq<char>)
        ensures
            self.register_result(id, friend) is Ok <==> (self.campaigns().contains_key(id)
                && !self.registrations().contains((id, friend))),
    {
    }

    /// The promoter approves each registered referral exactly once.
    pub proof fn lemma_approve_accepts(self, id: Seq<char>, promoter: Seq<char>, friend: Seq<char>)
        ensures
            self.approve_result(id, promoter, friend) is Ok <==> (self.campaigns().contains_key(id)
                && self.campaigns()[id].promoter@ == promoter && self.registrations().contains((id, friend))
                && !self.approvals().contains((id, friend))),
    {
    }

    /// The promoter rewards each approved referral exactly once.
    pub proof fn lemma_reward_accepts(self, id: Seq<char>, promoter: Seq<char>, friend: Seq<char>)
        ensures
            self.reward_result(id, promoter, friend) is Ok <==> (self.campaigns().contains_key(id)
                && self.campaigns()[id].promoter@ == promoter && self.approvals().contains((id, friend))
                && !self.rewards().contains((id, friend))),
    {
    }

    /// The (campaign, friend) pairs of registered referrals, in order.
    pub fn registration_pairs(&self) -> (r: Vec<(String, String)>)
        ensures
            pair_texts(r@) == self.registrations(),
    {
        self.registered.pairs()
    }

    /// The (campaign, friend) pairs of approved referrals, in order.
    pub fn approval_pairs(&self) -> (r: Vec<(String, String)>)
        ensures
            pair_texts(r@) == self.approvals(),
    {
        self.approved.pairs()
    }

    /// The (campaign, friend) pairs of rewarded referrals, in order.
    pub fn reward_pairs(&self) -> (r: Vec<(String, String)>)
        ensures
            pair_texts(r@) == self.rewards(),
    {
        self.rewarded.pairs()
    }

    /// Creates the campaign `id` of `promoter` paying `reward_amount` per
    /// referral: open, with no referral, created at `created_at`; the id goes
    /// to the end of the id list.
    pub fn create_campaign(
        &mut self,
        id: String,
        promoter: String,
        title: String,
        reward_amount: i128,
        created_at: u64,
    ) -> (r: Result<(), ReferralError>)
        requires
            old(self).wf(),
        ensures
            final(self).wf(),
            r == old(self).create_result(id@, title@, reward_amount, created_at),
            r is Err ==> *final(self) == *old(self),
            r is Ok ==> {
                &&& final(self).campaigns() == old(self).campaigns().insert(
                    id@,
                    (Campaign {
                        promoter,
                        title,
                        reward_amount,
                        status: CampaignStatus::Open,
                        referral_count: 0,
                        approved_count: 0,
                        reward_count: 0,
                        created_at,
                    }),
                )
                &&& final(self).id_list() == old(self).id_list().push(id@)
                &&& final(self).registrations() == old(self).registrations()
                &&& final(self).approvals() == old(self).approvals()
                &&& final(self).rewards() == old(self).rewards()
                &&& final(self).reward_total() == old(self).reward_total()
            },
    {
        if title.as_str().is_empty() {
            return Err(ReferralError::InvalidTitle);
        }
        if reward_amount <= 0 {
            return Err(ReferralError::InvalidReward);
        }
        if created_at == 0 {
            return Err(ReferralError::InvalidTimestamp);
        }
        if self.table.contains(&id) {
            return Err(ReferralError::AlreadyExists);
        }
        let c = Campaign {
            promoter,
            title,
            reward_amount,
            status: CampaignStatus::Open,
            referral_count: 0,
            approved_count: 0,
            reward_count: 0,
            created_at,
        };
        proof {
            lemma_flags_counted_new(self.table.records(), self.registered.flags(), referrals_of(), id@, c);
            lemma_flags_counted_new(self.table.records(), self.approved.flags(), approvals_of(), id@, c);
            lemma_flags_counted_new(self.table.records(), self.rewarded.flags(), rewards_of(), id@, c);
        }
        self.table.push(id, c);
        Ok(())
    }

    /// Registers `friend` as referred into the campaign `id` (by the
    /// referrer who authorised the call); the campaign's referral count
    /// grows by one.
    pub fn register_referral(&mut self, id: String, referrer: String, friend: String) -> (r: Result<(), ReferralError>)
        requires
            old(self).wf(),
            old(self).register_result(id@, friend@) is Ok ==> old(self).campaigns()[id@].referral_count
                < u32::MAX,
        ensures
            final(self).wf(),
            r == old(self).register_result(id@, friend@),
            r is Err ==> *final(self) == *old(self),
            r is Ok ==> {
                &&& final(self).campaigns() == old(self).campaigns().insert(
                    id@,
                    (Campaign {
                        referral_count: (old(self).campaigns()[id@].referral_count + 1) as u32,
                        ..old(self).campaigns()[id@]
                    }),
                )
                &&& final(self).id_list() == old(self).id_list()
                &&& final(self).registrations() == old(self).registrations().push((id@, friend@))
                &&& final(self).approvals() == old(self).approvals()
                &&& final(self).rewards() == old(self).rewards()
                &&& final(self).reward_total() == old(self).reward_total()
            },
    {
        let mut c = match self.table.get(&id) {
            Some(found) => found.clone(),
            None => return Err(ReferralError::NotFound),
        };
        if self.registered.contains(&id, &friend) {
            return Err(ReferralError::AlreadyRegistered);
        }
        c.referral_count = c.referral_count + 1;
        proof {
            lemma_flags_counted_push(
                self.table.records(),
                self.registered.flags(),
                referrals_of(),
                id@,
                friend@,
                c,
            );
            lemma_flags_counted_same(self.table.records(), self.approved.flags(), approvals_of(), id@, c);
            lemma_flags_counted_same(self.table.records(), self.rewarded.flags(), rewards_of(), id@, c);
            lemma_within_push_outer(self.approved.flags(), self.registered.flags(), (id@, friend@));
        }
        self.table.set(&id, c);
        self.registered.insert(id, friend);
        Ok(())
    }

    /// Approves the registered referral of `friend` into the campaign `id` on
    /// behalf of its promoter; the campaign's approval count grows by one.
    pub fn approve_referral(&mut self, id: String, promoter: String, friend: String) -> (r: Result<(), ReferralError>)
        requires
            old(self).wf(),
        ensures
            final(self).wf(),
            r == old(self).approve_result(id@, promoter@, friend@),
            r is Err ==> *final(self) == *old(self),
            r is Ok ==> {
                &&& final(self).campaigns() == old(self).campaigns().insert(
                    id@,
                    (Campaign {
                        approved_count: (old(self).campaigns()[id@].approved_count + 1) as u32,
                        ..old(self).campaigns()[id@]
                    }),
                )
                &&& final(self).id_list() == old(self).id_list()
                &&& final(self).registrations() == old(self).registrations()
                &&& final(self).approvals() == old(self).approvals().push((id@, friend@))
                &&& final(self).rewards() == old(self).rewards()
                &&& final(self).reward_total() == old(self).reward_total()
            },
    {
        let mut c = match self.table.get(&id) {
            Some(found) => found.clone(),
            None => return Err(ReferralError::NotFound),
        };
        if !(c.promoter == promoter) {
            return Err(ReferralError::Unauthorized);
        }
        if !self.registered.contains(&id, &friend) {
            return Err(ReferralError::NotRegistered);
        }
        if self.approved.contains(&id, &friend) {
            return Err(ReferralError::AlreadyApproved);
        }
        proof {
            // A registered referral not yet approved leaves the approval
            // count below the referral count, so it has room to grow.
            self.approved.lemma_set_once();
            lemma_flags_for_within_strict(self.approved.flags(), self.registered.flags(), (id@, friend@));
        }
        c.approved_count = c.approved_count + 1;
        proof {
            lemma_flags_counted_push(
                self.table.records(),
                self.approved.flags(),
                approvals_of(),
                id@,
                friend@,
                c,
            );
            lemma_flags_counted_same(self.table.records(), self.registered.flags(), referrals_of(), id@, c);
            lemma_flags_counted_same(self.table.records(), self.rewarded.flags(), rewards_of(), id@, c);
            lemma_within_push_inner(self.approved.flags(), self.registered.flags(), (id@, friend@));
            lemma_within_push_outer(self.rewarded.flags(), self.approved.flags(), (id@, friend@));
        }
        self.table.set(&id, c);
        self.approved.insert(id, friend);
        Ok(())
    }

    /// Rewards the approved referral of `friend` into the campaign `id` on
    /// behalf of its promoter; the campaign's reward count and the total of
    /// rewards both grow by one.
    pub fn issue_reward(&mut self, id: String, promoter: String, friend: String) -> (r: Result<(), ReferralError>)
        requires
            old(self).wf(),
            old(self).reward_result(id@, promoter@, friend@) is Ok ==> old(self).reward_total() < u32::MAX,
        ensures
            final(self).wf(),
            r == old(self).reward_result(id@, promoter@, friend@),
            r is Err ==> *final(self) == *old(self),
            r is Ok ==> {
                &&& final(self).campaigns() == old(self).campaigns().insert(
                    id@,
                    (Campaign {
                        reward_count: (old(self).campaigns()[id@].reward_count + 1) as u32,
                        ..old(self).campaigns()[id@]
                    }),
                )
                &&& final(self).id_list() == old(self).id_list()
                &&& final(self).registrations() == old(self).registrations()
                &&& final(self).approvals() == old(self).approvals()
                &&& final(self).rewards() == old(self).rewards().push((id@, friend@))
                &&& final(self).reward_total() == old(self).reward_total() + 1
            },
    {
        let mut c = match self.table.get(&id) {
            Some(found) => found.clone(),
            None => return Err(ReferralError::NotFound),
        };
        if !(c.promoter == promoter) {
            return Err(ReferralError::Unauthorized);
        }
        if !self.approved.contains(&id, &friend) {
            return Err(ReferralError::NotApproved);
        }
        if self.rewarded.contains(&id, &friend) {
            return Err(ReferralError::AlreadyRewarded);
        }
        proof {
            // An approved referral not yet rewarded leaves the reward count
            // below the approval count, so it has room to grow.
            self.rewarded.lemma_set_once();
            lemma_flags_for_within_strict(self.rewarded.flags(), self.approved.flags(), (id@, friend@));
        }
        c.reward_count = c.reward_count + 1;
        proof {
            lemma_flags_counted_push(
                self.table.records(),
                self.rewarded.flags(),
                rewards_of(),
                id@,
                friend@,
                c,
            );
            lemma_flags_counted_same(self.table.records(), self.registered.flags(), referrals_of(), id@, c);
            lemma_flags_counted_same(self.table.records(), self.approved.flags(), approvals_of(), id@, c);
            lemma_within_push_inner(self.rewarded.flags(), self.approved.flags(), (id@, friend@));
        }
        self.table.set(&id, c);
        self.rewarded.insert(id, friend);
        self.total_rewards = self.total_rewards + 1;
        Ok(())
    }

    /// The campaign stored under `id`, if any.
    pub fn get_referral(&self, id: String) -> (r: Option<Campaign>)
        requires
            self.wf(),
        ensures
            r == (if self.campaigns().contains_key(id@) {
                Some(self.campaigns()[id@])
            } else {
                None
            }),
    {
        match self.table.get(&id) {
            Some(found) => Some(found.clone()),
            None => None,
        }
    }

    /// The campaign ids, in the order in which the campaigns were created.
    pub fn list_referrals(&self) -> (r: Vec<String>)
        requires
            self.wf(),
        ensures
            texts(r@) == self.id_list(),
    {
        self.table.ids()
    }

    /// The stored count of rewards issued in all campaigns.
    pub fn get_reward_count(&self) -> (r: u32)
        requires
            self.wf(),
        ensures
            r == self.reward_total(),
    {
        self.total_rewards
    }
}

} // verus!
