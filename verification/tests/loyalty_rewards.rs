use record_contracts::loyalty_rewards::{LoyaltyError, LoyaltyRewardsContract, Member};

fn s(text: &str) -> String {
    text.to_string()
}

fn enrolled() -> LoyaltyRewardsContract {
    let mut c = LoyaltyRewardsContract::new();
    c.create_member(s("alice"), s("GALICE"), s("Alice"), s("gold"), 100).unwrap();
    c
}

#[test]
fn loyalty_create_then_get_returns_member() {
    let c = enrolled();
    let m: Member = c.get_member(s("alice")).unwrap();
    assert_eq!(m.owner, "GALICE");
    assert_eq!(m.name, "Alice");
    assert_eq!(m.tier, "gold");
    assert_eq!(m.points, 0);
    assert!(m.active);
    assert_eq!(m.joined_at, 100);
    assert_eq!(m.updated_at, 100);
    assert_eq!(c.list_members(), vec![s("alice")]);
    assert_eq!(c.get_member_count(), 1);
    assert!(c.get_member(s("bob")).is_none());
}

#[test]
fn loyalty_create_errors() {
    let mut c = enrolled();
    assert_eq!(c.create_member(s("bob"), s("GBOB"), s(""), s("gold"), 5), Err(LoyaltyError::InvalidName));
    assert_eq!(c.create_member(s("bob"), s("GBOB"), s("Bob"), s("gold"), 0), Err(LoyaltyError::InvalidTimestamp));
    assert_eq!(c.create_member(s("alice"), s("GBOB"), s("Bob"), s("gold"), 5), Err(LoyaltyError::AlreadyExists));
    assert_eq!(c.get_member_count(), 1);
    assert_eq!(c.list_members(), vec![s("alice")]);
}

#[test]
fn loyalty_points_flow() {
    let mut c = enrolled();
    c.add_points(s("alice"), s("GALICE"), 50, 200).unwrap();
    c.redeem_points(s("alice"), s("GALICE"), 20, 300).unwrap();
    let m = c.get_member(s("alice")).unwrap();
    assert_eq!(m.points, 30);
    assert_eq!(m.updated_at, 300);
    assert_eq!(c.redeem_points(s("alice"), s("GALICE"), 31, 400), Err(LoyaltyError::InsufficientPoints));
    assert_eq!(c.get_member(s("alice")).unwrap().points, 30);
}

#[test]
fn loyalty_points_errors() {
    let mut c = enrolled();
    assert_eq!(c.add_points(s("alice"), s("GALICE"), 0, 1), Err(LoyaltyError::InvalidPoints));
    assert_eq!(c.add_points(s("alice"), s("GALICE"), -3, 1), Err(LoyaltyError::InvalidPoints));
    assert_eq!(c.add_points(s("zed"), s("GALICE"), 3, 1), Err(LoyaltyError::NotFound));
    assert_eq!(c.add_points(s("alice"), s("GBOB"), 3, 1), Err(LoyaltyError::Unauthorized));
    assert_eq!(c.redeem_points(s("alice"), s("GALICE"), 0, 1), Err(LoyaltyError::InvalidPoints));
    assert_eq!(c.redeem_points(s("zed"), s("GALICE"), 1, 1), Err(LoyaltyError::NotFound));
    assert_eq!(c.redeem_points(s("alice"), s("GBOB"), 1, 1), Err(LoyaltyError::Unauthorized));
}

#[test]
fn loyalty_update_tier() {
    let mut c = enrolled();
    c.update_tier(s("alice"), s("GALICE"), s("platinum"), 500).unwrap();
    let m = c.get_member(s("alice")).unwrap();
    assert_eq!(m.tier, "platinum");
    assert_eq!(m.updated_at, 500);
    assert_eq!(c.update_tier(s("zed"), s("GALICE"), s("x"), 1), Err(LoyaltyError::NotFound));
    assert_eq!(c.update_tier(s("alice"), s("GBOB"), s("x"), 1), Err(LoyaltyError::Unauthorized));
}

#[test]
fn loyalty_count_follows_members() {
    let mut c = enrolled();
    c.create_member(s("bob"), s("GBOB"), s("Bob"), s("silver"), 7).unwrap();
    c.create_member(s("carol"), s("GCAROL"), s("Carol"), s("bronze"), 8).unwrap();
    assert_eq!(c.get_member_count(), 3);
    assert_eq!(c.list_members(), vec![s("alice"), s("bob"), s("carol")]);
}

#[test]
fn loyalty_error_codes() {
    assert_eq!(LoyaltyError::InvalidName.code(), 1);
    assert_eq!(LoyaltyError::InsufficientPoints.code(), 7);
    assert_eq!(LoyaltyError::MemberInactive.code(), 8);
}

#[test]
fn loyalty_storage_round_trip() {
    let mut c = enrolled();
    c.create_member(s("bob"), s("GBOB"), s("Bob"), s("silver"), 7).unwrap();
    c.add_points(s("bob"), s("GBOB"), 12, 9).unwrap();
    let ids = c.list_members();
    let members: Vec<Member> = ids.iter().map(|id| c.get_member(id.clone()).unwrap()).collect();
    let back = LoyaltyRewardsContract::from_storage(ids.clone(), members.clone(), c.get_member_count()).unwrap();
    assert_eq!(back.list_members(), ids);
    assert_eq!(back.get_member(s("bob")).unwrap().points, 12);
    assert_eq!(back.get_member_count(), 2);
    assert!(LoyaltyRewardsContract::from_storage(ids.clone(), members.clone(), 3).is_none());
    let mut negative = members.clone();
    negative[0].points = -1;
    assert!(LoyaltyRewardsContract::from_storage(ids.clone(), negative, 2).is_none());
    let dup = vec![s("alice"), s("alice")];
    assert!(LoyaltyRewardsContract::from_storage(dup, members, 2).is_none());
}
