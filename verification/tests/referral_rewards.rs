use record_contracts::referral_rewards::{CampaignStatus, ReferralError, ReferralRewardsContract};

fn s(text: &str) -> String {
    text.to_string()
}

fn created() -> ReferralRewardsContract {
    let mut c = ReferralRewardsContract::new();
    c.create_campaign(s("c1"), s("GPROMO"), s("Spring"), 40, 10).unwrap();
    c
}

#[test]
fn referral_create_then_get() {
    let c = created();
    let k = c.get_referral(s("c1")).unwrap();
    assert_eq!(k.promoter, "GPROMO");
    assert_eq!(k.title, "Spring");
    assert_eq!(k.reward_amount, 40);
    assert_eq!(k.status, CampaignStatus::Open);
    assert_eq!(k.referral_count, 0);
    assert_eq!(k.approved_count, 0);
    assert_eq!(k.reward_count, 0);
    assert_eq!(k.created_at, 10);
    assert_eq!(c.list_referrals(), vec![s("c1")]);
    assert_eq!(c.get_reward_count(), 0);
}

#[test]
fn referral_create_errors() {
    let mut c = created();
    assert_eq!(c.create_campaign(s("c2"), s("G"), s(""), 5, 1), Err(ReferralError::InvalidTitle));
    assert_eq!(c.create_campaign(s("c2"), s("G"), s("T"), 0, 1), Err(ReferralError::InvalidReward));
    assert_eq!(c.create_campaign(s("c2"), s("G"), s("T"), 5, 0), Err(ReferralError::InvalidTimestamp));
    assert_eq!(c.create_campaign(s("c1"), s("G"), s("T"), 5, 1), Err(ReferralError::AlreadyExists));
}

#[test]
fn referral_pipeline_in_order() {
    let mut c = created();
    assert_eq!(c.approve_referral(s("c1"), s("GPROMO"), s("GF")), Err(ReferralError::NotRegistered));
    c.register_referral(s("c1"), s("GREF"), s("GF")).unwrap();
    assert_eq!(c.register_referral(s("c1"), s("GREF2"), s("GF")), Err(ReferralError::AlreadyRegistered));
    assert_eq!(c.issue_reward(s("c1"), s("GPROMO"), s("GF")), Err(ReferralError::NotApproved));
    assert_eq!(c.approve_referral(s("c1"), s("GREF"), s("GF")), Err(ReferralError::Unauthorized));
    c.approve_referral(s("c1"), s("GPROMO"), s("GF")).unwrap();
    assert_eq!(c.approve_referral(s("c1"), s("GPROMO"), s("GF")), Err(ReferralError::AlreadyApproved));
    assert_eq!(c.issue_reward(s("c1"), s("GREF"), s("GF")), Err(ReferralError::Unauthorized));
    c.issue_reward(s("c1"), s("GPROMO"), s("GF")).unwrap();
    assert_eq!(c.issue_reward(s("c1"), s("GPROMO"), s("GF")), Err(ReferralError::AlreadyRewarded));
    let k = c.get_referral(s("c1")).unwrap();
    assert_eq!(k.referral_count, 1);
    assert_eq!(k.approved_count, 1);
    assert_eq!(k.reward_count, 1);
    assert_eq!(c.get_reward_count(), 1);
}

#[test]
fn referral_total_counts_all_campaigns() {
    let mut c = created();
    c.create_campaign(s("c2"), s("GPROMO"), s("Fall"), 10, 20).unwrap();
    for (camp, friend) in [("c1", "GA"), ("c1", "GB"), ("c2", "GA")] {
        c.register_referral(s(camp), s("GREF"), s(friend)).unwrap();
        c.approve_referral(s(camp), s("GPROMO"), s(friend)).unwrap();
        c.issue_reward(s(camp), s("GPROMO"), s(friend)).unwrap();
    }
    assert_eq!(c.get_referral(s("c1")).unwrap().reward_count, 2);
    assert_eq!(c.get_referral(s("c2")).unwrap().reward_count, 1);
    assert_eq!(c.get_reward_count(), 3);
}

#[test]
fn referral_missing_and_codes() {
    let mut c = created();
    assert_eq!(c.register_referral(s("none"), s("GREF"), s("GF")), Err(ReferralError::NotFound));
    assert_eq!(c.approve_referral(s("none"), s("GPROMO"), s("GF")), Err(ReferralError::NotFound));
    assert_eq!(c.issue_reward(s("none"), s("GPROMO"), s("GF")), Err(ReferralError::NotFound));
    assert_eq!(ReferralError::InvalidTimestamp.code(), 11);
    assert_eq!(ReferralError::AlreadyRewarded.code(), 10);
}

#[test]
fn referral_storage_round_trip() {
    let mut c = created();
    c.register_referral(s("c1"), s("GREF"), s("GA")).unwrap();
    c.register_referral(s("c1"), s("GREF"), s("GB")).unwrap();
    c.approve_referral(s("c1"), s("GPROMO"), s("GA")).unwrap();
    c.issue_reward(s("c1"), s("GPROMO"), s("GA")).unwrap();
    let ids = c.list_referrals();
    let camps: Vec<_> = ids.iter().map(|id| c.get_referral(id.clone()).unwrap()).collect();
    let (reg, appr, rew) = (c.registration_pairs(), c.approval_pairs(), c.reward_pairs());
    let back = ReferralRewardsContract::from_storage(ids.clone(), camps.clone(), reg.clone(), appr.clone(), rew.clone(), 1).unwrap();
    assert_eq!(back.get_reward_count(), 1);
    assert_eq!(back.reward_pairs(), rew);
    assert!(ReferralRewardsContract::from_storage(ids.clone(), camps.clone(), reg.clone(), appr.clone(), rew.clone(), 2).is_none());
    assert!(ReferralRewardsContract::from_storage(ids, camps, reg, Vec::new(), rew, 1).is_none());
}
