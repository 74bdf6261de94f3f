use record_contracts::subscription_registry::{SubscriptionError, SubscriptionRegistryContract, SubscriptionStatus};

fn s(text: &str) -> String {
    text.to_string()
}

fn subscribed() -> SubscriptionRegistryContract {
    let mut c = SubscriptionRegistryContract::new();
    c.create_subscription(s("sub1"), s("GSUB"), s("Pro"), s("monthly"), 25, 100, 200).unwrap();
    c
}

#[test]
fn subscription_create_then_get() {
    let c = subscribed();
    let sub = c.get_subscription(s("sub1")).unwrap();
    assert_eq!(sub.subscriber, "GSUB");
    assert_eq!(sub.plan_name, "Pro");
    assert_eq!(sub.billing_cycle, "monthly");
    assert_eq!(sub.fee, 25);
    assert_eq!(sub.status, SubscriptionStatus::Active);
    assert_eq!(sub.renewals, 0);
    assert_eq!(sub.created_at, 100);
    assert_eq!(sub.renewed_at, 100);
    assert_eq!(sub.expires_at, 200);
    assert_eq!(c.get_active_count(), 1);
    assert_eq!(c.list_subscriptions(), vec![s("sub1")]);
}

#[test]
fn subscription_create_errors() {
    let mut c = subscribed();
    assert_eq!(c.create_subscription(s("x"), s("GSUB"), s(""), s("m"), 25, 1, 2), Err(SubscriptionError::InvalidPlan));
    assert_eq!(c.create_subscription(s("x"), s("GSUB"), s("P"), s("m"), 0, 1, 2), Err(SubscriptionError::InvalidAmount));
    assert_eq!(c.create_subscription(s("x"), s("GSUB"), s("P"), s("m"), 5, 0, 2), Err(SubscriptionError::InvalidTimestamp));
    assert_eq!(c.create_subscription(s("x"), s("GSUB"), s("P"), s("m"), 5, 1, 0), Err(SubscriptionError::InvalidTimestamp));
    assert_eq!(c.create_subscription(s("sub1"), s("GSUB"), s("P"), s("m"), 5, 1, 2), Err(SubscriptionError::AlreadyExists));
    assert_eq!(c.get_active_count(), 1);
}

#[test]
fn subscription_active_count_tracks_status() {
    let mut c = subscribed();
    c.create_subscription(s("sub2"), s("GSUB"), s("Basic"), s("yearly"), 10, 100, 300).unwrap();
    assert_eq!(c.get_active_count(), 2);
    c.pause_subscription(s("sub1"), s("GSUB")).unwrap();
    assert_eq!(c.get_active_count(), 1);
    c.pause_subscription(s("sub1"), s("GSUB")).unwrap();
    assert_eq!(c.get_active_count(), 1);
    c.renew_subscription(s("sub1"), s("GSUB"), 500, 400).unwrap();
    assert_eq!(c.get_active_count(), 2);
    c.renew_subscription(s("sub1"), s("GSUB"), 600, 450).unwrap();
    assert_eq!(c.get_active_count(), 2);
    let sub = c.get_subscription(s("sub1")).unwrap();
    assert_eq!(sub.renewals, 2);
    assert_eq!(sub.renewed_at, 450);
    assert_eq!(sub.expires_at, 600);
    assert_eq!(sub.status, SubscriptionStatus::Active);
    c.cancel_subscription(s("sub2"), s("GSUB")).unwrap();
    assert_eq!(c.get_active_count(), 1);
}

#[test]
fn subscription_cancelled_is_final() {
    let mut c = subscribed();
    c.cancel_subscription(s("sub1"), s("GSUB")).unwrap();
    assert_eq!(c.get_active_count(), 0);
    assert_eq!(c.renew_subscription(s("sub1"), s("GSUB"), 900, 1), Err(SubscriptionError::AlreadyCancelled));
    assert_eq!(c.pause_subscription(s("sub1"), s("GSUB")), Err(SubscriptionError::AlreadyCancelled));
    assert_eq!(c.cancel_subscription(s("sub1"), s("GSUB")), Err(SubscriptionError::AlreadyCancelled));
    assert_eq!(c.get_subscription(s("sub1")).unwrap().status, SubscriptionStatus::Cancelled);
    assert_eq!(c.get_active_count(), 0);
}

#[test]
fn subscription_call_errors() {
    let mut c = subscribed();
    assert_eq!(c.renew_subscription(s("sub1"), s("GSUB"), 0, 1), Err(SubscriptionError::InvalidTimestamp));
    assert_eq!(c.renew_subscription(s("none"), s("GSUB"), 5, 1), Err(SubscriptionError::NotFound));
    assert_eq!(c.renew_subscription(s("sub1"), s("GOTHER"), 5, 1), Err(SubscriptionError::Unauthorized));
    assert_eq!(c.pause_subscription(s("none"), s("GSUB")), Err(SubscriptionError::NotFound));
    assert_eq!(c.pause_subscription(s("sub1"), s("GOTHER")), Err(SubscriptionError::Unauthorized));
    assert_eq!(c.cancel_subscription(s("none"), s("GSUB")), Err(SubscriptionError::NotFound));
    assert_eq!(c.cancel_subscription(s("sub1"), s("GOTHER")), Err(SubscriptionError::Unauthorized));
    assert_eq!(SubscriptionError::AlreadyCancelled.code(), 7);
    assert_eq!(SubscriptionError::InvalidPlan.code(), 1);
}

#[test]
fn subscription_storage_round_trip() {
    let mut c = subscribed();
    c.create_subscription(s("sub2"), s("GSUB"), s("Basic"), s("yearly"), 10, 100, 300).unwrap();
    c.pause_subscription(s("sub2"), s("GSUB")).unwrap();
    let ids = c.list_subscriptions();
    let subs: Vec<_> = ids.iter().map(|id| c.get_subscription(id.clone()).unwrap()).collect();
    let back = SubscriptionRegistryContract::from_storage(ids.clone(), subs.clone(), 1).unwrap();
    assert_eq!(back.get_active_count(), 1);
    assert_eq!(back.list_subscriptions(), ids);
    assert_eq!(back.get_subscription(s("sub2")).unwrap().status, SubscriptionStatus::Paused);
    assert!(SubscriptionRegistryContract::from_storage(ids.clone(), subs.clone(), 2).is_none());
    assert!(SubscriptionRegistryContract::from_storage(vec![s("a"), s("a")], subs, 1).is_none());
}
