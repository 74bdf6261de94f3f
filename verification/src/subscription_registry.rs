//! Subscription registry: subscriptions that are renewed, paused and
//! cancelled, with a count of the active ones.
//!
//! Text values stand for the ledger's values: an id and a billing cycle are
//! the text of a symbol, a subscriber is the text form of an account
//! address. The caller has already checked that the account acting in a call
//! authorised it; `now` is the ledger's timestamp at the call.
use vstd::prelude::*;
use crate::table::{
    texts, map_of, lemma_map_of, lemma_count_where_map_of, Table, count_where,
    lemma_count_where_insert,
};

verus! {

/// Where a subscription stands.
#[derive(Clone, Copy, Debug, PartialEq, Eq, Structural)]
pub enum SubscriptionStatus {
    Active,
    Paused,
    Cancelled,
}

/// A subscription to a plan.
#[derive(Debug)]
pub struct Subscription {
    pub subscriber: String,
    pub plan_name: String,
    pub billing_cycle: String,
    pub fee: i128,
    pub status: SubscriptionStatus,
    pub renewals: u32,
    pub created_at: u64,
    pub renewed_at: u64,
    pub expires_at: u64,
}

impl Clone for Subscription {
    fn clone(&self) -> (r: Self)
        ensures
            r == *self,
    {
        Subscription {
            subscriber: self.subscriber.clone(),
            plan_name: self.plan_name.clone(),
            billing_cycle: self.billing_cycle.clone(),
            fee: self.fee,
            status: self.status,
            renewals: self.renewals,
            created_at: self.created_at,
            renewed_at: self.renewed_at,
            expires_at: self.expires_at,
        }
    }
}

/// Why a call was refused.
#[derive(Clone, Copy, Debug, PartialEq, Eq, PartialOrd, Ord, Structural)]
pub enum SubscriptionError {
    InvalidPlan,
    InvalidAmount,
    InvalidTimestamp,
    NotFound,
    Unauthorized,
    AlreadyExists,
    AlreadyCancelled,
}

impl SubscriptionError {
    /// The number by which the ledger reports this error.
    pub open spec fn spec_code(self) -> u32 {
        match self {
            SubscriptionError::InvalidPlan => 1,
            SubscriptionError::InvalidAmount => 2,
            SubscriptionError::InvalidTimestamp => 3,
            SubscriptionError::NotFound => 4,
            SubscriptionError::Unauthorized => 5,
            SubscriptionError::AlreadyExists => 6,
            SubscriptionError::AlreadyCancelled => 7,
        }
    }

    /// The number by which the ledger reports this error.
    pub fn code(&self) -> (c: u32)
        ensures
            c == self.spec_code(),
    {
        match self {
            SubscriptionError::InvalidPlan => 1,
            SubscriptionError::InvalidAmount => 2,
            SubscriptionError::InvalidTimestamp => 3,
            SubscriptionError::NotFound => 4,
            SubscriptionError::Unauthorized => 5,
            SubscriptionError::AlreadyExists => 6,
            SubscriptionError::AlreadyCancelled => 7,
        }
    }
}

/// Whether a subscription is active.
pub open spec fn is_active() -> spec_fn(Subscription) -> bool {
    |s: Subscription| s.status == SubscriptionStatus::Active
}

/// The contract's storage: the subscriptions by id, the id list, and the
/// count of active subscriptions.
pub struct SubscriptionRegistryContract {
    table: Table<Subscription>,
    active: u32,
}

impl SubscriptionRegistryContract {
    /// The storage is consistent: the id list and the subscriptions agree,
    /// and the active count is the number of active subscriptions.
    pub closed spec fn wf(&self) -> bool {
        &&& self.table.wf()
        &&& self.active == count_where(self.table.records(), is_active())
    }

    /// The subscription stored under each id.
    pub closed spec fn subscriptions(&self) -> Map<Seq<char>, Subscription> {
        self.table.records()
    }

    /// The subscription ids, in the order in which they were created.
    pub closed spec fn id_list(&self) -> Seq<Seq<char>> {
        self.table.order()
    }

    /// The stored count of active subscriptions.
    pub closed spec fn active_count(&self) -> nat {
        self.active as nat
    }

    /// What `create_subscription` answers.
    pub open spec fn create_result(
        self,
        id: Seq<char>,
        plan_name: Seq<char>,
        fee: i128,
        created_at: u64,
        expires_at: u64,
    ) -> Result<(), SubscriptionError> {
        if plan_name.len() == 0 {
            Err(SubscriptionError::InvalidPlan)
        } else if fee <= 0 {
            Err(SubscriptionError::InvalidAmount)
        } else if created_at == 0 || expires_at == 0 {
            Err(SubscriptionError::InvalidTimestamp)
        } else if self.subscriptions().contains_key(id) {
            Err(SubscriptionError::AlreadyExists)
        } else {
            Ok(())
        }
    }

    /// What a call by `subscriber` on the subscription `id` answers when it
    /// may not touch a cancelled subscription.
    pub open spec fn subscriber_check(self, id: Seq<char>, subscriber: Seq<char>) -> Result<(), SubscriptionError> {
        if !self.subscriptions().contains_key(id) {
            Err(SubscriptionError::NotFound)
        } else if self.subscriptions()[id].subscriber@ != subscriber {
            Err(SubscriptionError::Unauthorized)
        } else if self.subscriptions()[id].status == SubscriptionStatus::Cancelled {
            Err(SubscriptionError::AlreadyCancelled)
        } else {
            Ok(())
        }
    }

    /// What `renew_subscription` answers.
    pub open spec fn renew_result(self, id: Seq<char>, subscriber: Seq<char>, new_expiry: u64) -> Result<(), SubscriptionError> {
        if new_expiry == 0 {
            Err(SubscriptionError::InvalidTimestamp)
        } else {
            self.subscriber_check(id, subscriber)
        }
    }

    /// A registry with no subscription.
    pub fn new() -> (c: Self)
        ensures
            c.wf(),
            c.subscriptions() == Map::<Seq<char>, Subscription>::empty(),
            c.id_list() == Seq::<Seq<char>>::empty(),
            c.active_count() == 0,
    {
        let c = SubscriptionRegistryContract { table: Table::new(), active: 0 };
        assert(c.table.records().dom().filter(
            |k: Seq<char>| is_active()(c.table.records()[k]),
        ) =~= Set::empty());
        c
    }

    /// The id list names each subscription once and no other id, and the
    /// active count is the number of subscriptions whose status is active.
    pub proof fn lemma_storage_consistent(&self)
        requires
            self.wf(),
        ensures
            self.id_list().no_duplicates(),
            forall|k: Seq<char>| #[trigger]
                self.subscriptions().contains_key(k) <==> self.id_list().contains(k),
            self.active_count() == count_where(self.subscriptions(), is_active()),
    {
        self.table.lemma_order_matches_records();
    }

    /// Whether stored parts describe a consistent registry: an id list
    /// without repeats, the subscription stored under each id (in the same
    /// order), and an active count equal to the number of active
    /// subscriptions.
    pub open spec fn storage_fits(ids: Seq<String>, subscriptions: Seq<Subscription>, active_count: u32) -> bool {
        &&& ids.len() == subscriptions.len()
        &&& texts(ids).no_duplicates()
        &&& active_count == subscriptions.filter(is_active()).len()
    }

    /// Rebuilds the registry from its stored parts, or nothing when they are
    /// not consistent.
    pub fn from_storage(ids: Vec<String>, subscriptions: Vec<Subscription>, active_count: u32) -> (r: Option<Self>)
        ensures
            r is Some <==> Self::storage_fits(ids@, subscriptions@, active_count),
            r matches Some(c) ==> {
                &&& c.wf()
                &&& c.subscriptions() == map_of(ids@, subscriptions@)
                &&& c.id_list() == texts(ids@)
                &&& c.active_count() == active_count
            },
    {
        let mut n: usize = 0;
        let mut i: usize = 0;
        proof {
            reveal(Seq::filter);
            assert(subscriptions@.take(0) =~= Seq::<Subscription>::empty());
        }
        while i < subscriptions.len()
            invariant
                i <= subscriptions.len(),
                n <= i,
                n == subscriptions@.take(i as int).filter(is_active()).len(),
            decreases subscriptions.len() - i,
        {
            proof {
                assert(subscriptions@.take(i + 1) =~= subscriptions@.take(i as int).push(subscriptions@[i as int]));
                subscriptions@.take(i as int).lemma_filter_push(subscriptions@[i as int], is_active());
            }
            if subscriptions[i].status == SubscriptionStatus::Active {
                n = n + 1;
            }
            i += 1;
        }
        assert(subscriptions@.take(subscriptions.len() as int) =~= subscriptions@);
        if active_count as usize != n {
            return None;
        }
        let ghost ids0 = ids@;
        let ghost subs0 = subscriptions@;
        match Table::from_parts(ids, subscriptions) {
            None => None,
            Some(table) => {
                proof {
                    lemma_count_where_map_of(ids0, subs0, is_active());
                }
                Some(SubscriptionRegistryContract { table, active: active_count })
            },
        }
    }

    /// What the registry stores can always be read back: its id list, the
    /// subscription stored under each id in the same order, and its active
    /// count are parts that `from_storage` accepts and rebuilds the same
    /// registry from.
    pub proof fn lemma_storage_reads_back(self, ids: Seq<String>, subscriptions: Seq<Subscription>, active_count: u32)
        requires
            self.wf(),
            texts(ids) == self.id_list(),
            subscriptions.len() == ids.len(),
            forall|i: int| #![trigger subscriptions[i]] 0 <= i < ids.len() ==> subscriptions[i] == self.subscriptions()[ids[i]@],
            active_count == self.active_count(),
        ensures
            Self::storage_fits(ids, subscriptions, active_count),
            map_of(ids, subscriptions) == self.subscriptions(),
    {
        self.table.lemma_reads_back(ids, subscriptions);
        lemma_count_where_map_of(ids, subscriptions, is_active());
    }

    /// Why a call is refused. Opening checks the plan, then the fee, then
    /// both times, then that the id is free. Renewing checks the new expiry
    /// first. Otherwise a call naming no stored subscription is refused as
    /// not found, one by anyone but its subscriber as unauthorized, and one
    /// on a cancelled subscription as already cancelled.
    pub proof fn lemma_refusals(
        self,
        id: Seq<char>,
        who: Seq<char>,
        new_expiry: u64,
        plan_name: Seq<char>,
        fee: i128,
        created_at: u64,
        expires_at: u64,
    )
        ensures
            plan_name.len() == 0 ==> self.create_result(id, plan_name, fee, created_at, expires_at) == Err::<
                (),
                SubscriptionError,
            >(SubscriptionError::InvalidPlan),
            plan_name.len() > 0 && fee <= 0 ==> self.create_result(id, plan_name, fee, created_at, expires_at)
                == Err::<(), SubscriptionError>(SubscriptionError::InvalidAmount),
            plan_name.len() > 0 && fee > 0 && (created_at == 0 || expires_at == 0) ==> self.create_result(
                id,
                plan_name,
                fee,
                created_at,
                expires_at,
            ) == Err::<(), SubscriptionError>(SubscriptionError::InvalidTimestamp),
            plan_name.len() > 0 && fee > 0 && created_at != 0 && expires_at != 0
                && self.subscriptions().contains_key(id) ==> self.create_result(
                id,
                plan_name,
                fee,
                created_at,
                expires_at,
            ) == Err::<(), SubscriptionError>(SubscriptionError::AlreadyExists),
            new_expiry == 0 ==> self.renew_result(id, who, new_expiry) == Err::<(), SubscriptionError>(
                SubscriptionError::InvalidTimestamp,
            ),
            new_expiry != 0 ==> self.renew_result(id, who, new_expiry) == self.subscriber_check(id, who),
            !self.subscriptions().contains_key(id) ==> self.subscriber_check(id, who) == Err::<
                (),
                SubscriptionError,
            >(SubscriptionError::NotFound),
            self.subscriptions().contains_key(id) && self.subscriptions()[id].subscriber@ != who
                ==> self.subscriber_check(id, who) == Err::<(), SubscriptionError>(SubscriptionError::Unauthorized),
            self.subscriptions().contains_key(id) && self.subscriptions()[id].subscriber@ == who
                && self.subscriptions()[id].status == SubscriptionStatus::Cancelled ==> self.subscriber_check(
                id,
                who,
            ) == Err::<(), SubscriptionError>(SubscriptionError::AlreadyCancelled),
    {
    }

    /// A subscription is opened exactly when it names a plan, has a positive
    /// fee, creation and expiry times, and an id not yet used.
    pub proof fn lemma_create_accepts(
        self,
        id: Seq<char>,
        plan_name: Seq<char>,
        fee: i128,
        created_at: u64,
        expires_at: u64,
    )
        ensures
            self.create_result(id, plan_name, fee, created_at, expires_at) is Ok <==> (plan_name.len() > 0 && fee
                > 0 && created_at != 0 && expires_at != 0 && !self.subscriptions().contains_key(id)),
    {
    }

    /// The subscriber pauses or cancels a subscription, active or paused,
    /// exactly until it is cancelled.
    pub proof fn lemma_subscriber_acts_until_cancelled(self, id: Seq<char>, subscriber: Seq<char>)
        ensures
            self.subscriber_check(id, subscriber) is Ok <==> (self.subscriptions().contains_key(id)
                && self.subscriptions()[id].subscriber@ == subscriber && self.subscriptions()[id].status
                != SubscriptionStatus::Cancelled),
    {
    }

    /// The subscriber renews a subscription, active or paused, to any
    /// nonzero expiry, exactly until it is cancelled.
    pub proof fn lemma_renew_accepts(self, id: Seq<char>, subscriber: Seq<char>, new_expiry: u64)
        ensures
            self.renew_result(id, subscriber, new_expiry) is Ok <==> (new_expiry != 0
                && self.subscriptions().contains_key(id) && self.subscriptions()[id].subscriber@ == subscriber
                && self.subscriptions()[id].status != SubscriptionStatus::Cancelled),
    {
    }

    /// A cancelled subscription is final: renewing, pausing and cancelling it
    /// are all refused, whoever calls.
    pub proof fn lemma_cancelled_is_final(self, id: Seq<char>, who: Seq<char>, new_expiry: u64)
        requires
            self.subscriptions().contains_key(id),
            self.subscriptions()[id].status == SubscriptionStatus::Cancelled,
        ensures
            self.renew_result(id, who, new_expiry) is Err,
            self.subscriber_check(id, who) is Err,
    {
    }

    /// Stores `s` under `id`, which holds a subscription, and adjusts the
    /// active count to the change of status.
    fn replace(&mut self, id: &String, s: Subscription)
        requires
            old(self).wf(),
            old(self).subscriptions().contains_key(id@),
            old(self).subscriptions()[id@].status != SubscriptionStatus::Active
                && s.status == SubscriptionStatus::Active ==> old(self).active_count() < u32::MAX,
        ensures
            final(self).wf(),
            final(self).subscriptions() == old(self).subscriptions().insert(id@, s),
            final(self).id_list() == old(self).id_list(),
            final(self).active_count() == old(self).active_count() - (if old(
                self,
            ).subscriptions()[id@].status == SubscriptionStatus::Active {
                1int
            } else {
                0int
            }) + (if s.status == SubscriptionStatus::Active {
                1int
            } else {
                0int
            }),
    {
        let ghost old_records = self.table.records();
        let was_active = match self.table.get(id) {
            Some(prev) => prev.status == SubscriptionStatus::Active,
            None => false,
        };
        let now_active = s.status == SubscriptionStatus::Active;
        proof {
            self.table.lemma_order_matches_records();
            lemma_count_where_insert(old_records, is_active(), id@, s);
        }
        self.table.set(id, s);
        if was_active && !now_active {
            if self.active > 0 {
                self.active = self.active - 1;
            }
        } else if !was_active && now_active {
            self.active = self.active + 1;
        }
    }

    /// Opens the subscription `id` for `subscriber`, active, never renewed,
    /// created (and last renewed) at `created_at`; the id goes to the end of
    /// the id list and the active count grows by one.
    pub fn create_subscription(
        &mut self,
        id: String,
        subscriber: String,
        plan_name: String,
        billing_cycle: String,
        fee: i128,
        created_at: u64,
        expires_at: u64,
    ) -> (r: Result<(), SubscriptionError>)
        requires
            old(self).wf(),
            old(self).create_result(id@, plan_name@, fee, created_at, expires_at) is Ok ==> old(
                self,
            ).active_count() < u32::MAX,
        ensures
            final(self).wf(),
            r == old(self).create_result(id@, plan_name@, fee, created_at, expires_at),
            r is Err ==> *final(self) == *old(self),
            r is Ok ==> {
                &&& final(self).subscriptions() == old(self).subscriptions().insert(
                    id@,
                    (Subscription {
                        subscriber,
                        plan_name,
                        billing_cycle,
                        fee,
                        status: SubscriptionStatus::Active,
                        renewals: 0,
                        created_at,
                        renewed_at: created_at,
                        expires_at,
                    }),
                )
                &&& final(self).id_list() == old(self).id_list().push(id@)
                &&& final(self).active_count() == old(self).active_count() + 1
            },
    {
        if plan_name.as_str().is_empty() {
            return Err(SubscriptionError::InvalidPlan);
        }
        if fee <= 0 {
            return Err(SubscriptionError::InvalidAmount);
        }
        if created_at == 0 || expires_at == 0 {
            return Err(SubscriptionError::InvalidTimestamp);
        }
        if self.table.contains(&id) {
            return Err(SubscriptionError::AlreadyExists);
        }
        let s = Subscription {
            subscriber,
            plan_name,
            billing_cycle,
            fee,
            status: SubscriptionStatus::Active,
            renewals: 0,
            created_at,
            renewed_at: created_at,
            expires_at,
        };
        proof {
            self.table.lemma_order_matches_records();
            lemma_count_where_insert(self.table.records(), is_active(), id@, s);
        }
        self.table.push(id, s);
        self.active = self.active + 1;
        Ok(())
    }

    /// Renews the subscription `id` on behalf of its subscriber until
    /// `new_expiry`: it becomes active (entering the active count if it was
    /// paused), its renewal count grows by one, and `now` is recorded as the
    /// time of the renewal.
    pub fn renew_subscription(&mut self, id: String, subscriber: String, new_expiry: u64, now: u64) -> (r: Result<(), SubscriptionError>)
        requires
            old(self).wf(),
            old(self).renew_result(id@, subscriber@, new_expiry) is Ok ==> {
                &&& old(self).subscriptions()[id@].renewals < u32::MAX
                &&& old(self).subscriptions()[id@].status != SubscriptionStatus::Active ==> old(
                    self,
                ).active_count() < u32::MAX
            },
        ensures
            final(self).wf(),
            r == old(self).renew_result(id@, subscriber@, new_expiry),
            r is Err ==> *final(self) == *old(self),
            r is Ok ==> {
                &&& final(self).subscriptions() == old(self).subscriptions().insert(
                    id@,
                    (Subscription {
                        status: SubscriptionStatus::Active,
                        renewals: (old(self).subscriptions()[id@].renewals + 1) as u32,
                        renewed_at: now,
                        expires_at: new_expiry,
                        ..old(self).subscriptions()[id@]
                    }),
                )
                &&& final(self).id_list() == old(self).id_list()
                &&& final(self).active_count() == old(self).active_count() + (if old(
                    self,
                ).subscriptions()[id@].status == SubscriptionStatus::Active {
                    0int
                } else {
                    1int
                })
            },
    {
        if new_expiry == 0 {
            return Err(SubscriptionError::InvalidTimestamp);
        }
        let mut s = match self.table.get(&id) {
            Some(found) => found.clone(),
            None => return Err(SubscriptionError::NotFound),
        };
        if !(s.subscriber == subscriber) {
            return Err(SubscriptionError::Unauthorized);
        }
        if s.status == SubscriptionStatus::Cancelled {
            return Err(SubscriptionError::AlreadyCancelled);
        }
        s.status = SubscriptionStatus::Active;
        s.renewals = s.renewals + 1;
        s.renewed_at = now;
        s.expires_at = new_expiry;
        self.replace(&id, s);
        Ok(())
    }

    /// Pauses the subscription `id` on behalf of its subscriber; an active
    /// one leaves the active count.
    pub fn pause_subscription(&mut self, id: String, subscriber: String) -> (r: Result<(), SubscriptionError>)
        requires
            old(self).wf(),
        ensures
            final(self).wf(),
            r == old(self).subscriber_check(id@, subscriber@),
            r is Err ==> *final(self) == *old(self),
            r is Ok ==> {
                &&& final(self).subscriptions() == old(self).subscriptions().insert(
                    id@,
                    (Subscription {
                        status: SubscriptionStatus::Paused,
                        ..old(self).subscriptions()[id@]
                    }),
                )
                &&& final(self).id_list() == old(self).id_list()
                &&& final(self).active_count() == old(self).active_count() - (if old(
                    self,
                ).subscriptions()[id@].status == SubscriptionStatus::Active {
                    1int
                } else {
                    0int
                })
            },
    {
        let mut s = match self.table.get(&id) {
            Some(found) => found.clone(),
            None => return Err(SubscriptionError::NotFound),
        };
        if !(s.subscriber == subscriber) {
            return Err(SubscriptionError::Unauthorized);
        }
        if s.status == SubscriptionStatus::Cancelled {
            return Err(SubscriptionError::AlreadyCancelled);
        }
        s.status = SubscriptionStatus::Paused;
        self.replace(&id, s);
        Ok(())
    }

    /// Cancels the subscription `id` on behalf of its subscriber, for good;
    /// an active one leaves the active count.
    pub fn cancel_subscription(&mut self, id: String, subscriber: String) -> (r: Result<(), SubscriptionError>)
        requires
            old(self).wf(),
        ensures
            final(self).wf(),
            r == old(self).subscriber_check(id@, subscriber@),
            r is Err ==> *final(self) == *old(self),
            r is Ok ==> {
                &&& final(self).subscriptions() == old(self).subscriptions().insert(
                    id@,
                    (Subscription {
                        status: SubscriptionStatus::Cancelled,
                        ..old(self).subscriptions()[id@]
                    }),
                )
                &&& final(self).id_list() == old(self).id_list()
                &&& final(self).active_count() == old(self).active_count() - (if old(
                    self,
                ).subscriptions()[id@].status == SubscriptionStatus::Active {
                    1int
                } else {
                    0int
                })
            },
    {
        let mut s = match self.table.get(&id) {
            Some(found) => found.clone(),
            None => return Err(SubscriptionError::NotFound),
        };
        if !(s.subscriber == subscriber) {
            return Err(SubscriptionError::Unauthorized);
        }
        if s.status == SubscriptionStatus::Cancelled {
            return Err(SubscriptionError::AlreadyCancelled);
        }
        s.status = SubscriptionStatus::Cancelled;
        self.replace(&id, s);
        Ok(())
    }

    /// The subscription stored under `id`, if any.
    pub fn get_subscription(&self, id: String) -> (r: Option<Subscription>)
        requires
            self.wf(),
        ensures
            r == (if self.subscriptions().contains_key(id@) {
                Some(self.subscriptions()[id@])
            } else {
                None
            }),
    {
        match self.table.get(&id) {
            Some(s) => Some(s.clone()),
            None => None,
        }
    }

    /// The subscription ids, in the order in which they were created.
    pub fn list_subscriptions(&self) -> (r: Vec<String>)
        requires
            self.wf(),
        ensures
            texts(r@) == self.id_list(),
    {
        self.table.ids()
    }

    /// The stored count of active subscriptions.
    pub fn get_active_count(&self) -> (r: u32)
        requires
            self.wf(),
        ensures
            r == self.active_count(),
    {
        self.active
    }
}

} // verus!
