use record_contracts::bounty_board::{BountyBoardContract, BountyError, BountyStatus};

fn s(text: &str) -> String {
    text.to_string()
}

fn posted() -> BountyBoardContract {
    let mut c = BountyBoardContract::new();
    c.create_bounty(s("b1"), s("GCREATOR"), s("Fix bug"), s("desc"), 500, 10).unwrap();
    c
}

#[test]
fn bounty_create_then_get() {
    let c = posted();
    let b = c.get_bounty(s("b1")).unwrap();
    assert_eq!(b.creator, "GCREATOR");
    assert_eq!(b.worker, "GCREATOR");
    assert_eq!(b.title, "Fix bug");
    assert_eq!(b.description, "desc");
    assert_eq!(b.reward, 500);
    assert_eq!(b.status, BountyStatus::Open);
    assert!(!b.assigned);
    assert_eq!(b.created_at, 10);
    assert_eq!(b.submitted_at, 0);
    assert_eq!(b.approved_at, 0);
    assert_eq!(c.list_bounties(), vec![s("b1")]);
}

#[test]
fn bounty_create_errors() {
    let mut c = posted();
    assert_eq!(c.create_bounty(s("b2"), s("G"), s(""), s("d"), 5, 1), Err(BountyError::InvalidTitle));
    assert_eq!(c.create_bounty(s("b2"), s("G"), s("T"), s("d"), 0, 1), Err(BountyError::InvalidReward));
    assert_eq!(c.create_bounty(s("b2"), s("G"), s("T"), s("d"), 5, 0), Err(BountyError::InvalidTimestamp));
    assert_eq!(c.create_bounty(s("b1"), s("G"), s("T"), s("d"), 5, 1), Err(BountyError::AlreadyExists));
}

#[test]
fn bounty_full_cycle() {
    let mut c = posted();
    assert_eq!(c.submit_bounty(s("b1"), s("GCREATOR"), 15), Err(BountyError::NotAssigned));
    c.assign_bounty(s("b1"), s("GCREATOR"), s("GWORKER")).unwrap();
    assert_eq!(c.approve_bounty(s("b1"), s("GCREATOR"), 16), Err(BountyError::NotSubmitted));
    assert_eq!(c.submit_bounty(s("b1"), s("GOTHER"), 17), Err(BountyError::Unauthorized));
    c.submit_bounty(s("b1"), s("GWORKER"), 20).unwrap();
    assert_eq!(c.submit_bounty(s("b1"), s("GWORKER"), 21), Err(BountyError::NotAssigned));
    assert_eq!(c.approve_bounty(s("b1"), s("GWORKER"), 29), Err(BountyError::Unauthorized));
    c.approve_bounty(s("b1"), s("GCREATOR"), 30).unwrap();
    let b = c.get_bounty(s("b1")).unwrap();
    assert_eq!(b.worker, "GWORKER");
    assert!(b.assigned);
    assert_eq!(b.status, BountyStatus::Approved);
    assert_eq!(b.submitted_at, 20);
    assert_eq!(b.approved_at, 30);
}

#[test]
fn bounty_closed_is_final() {
    let mut c = posted();
    assert_eq!(c.close_bounty(s("b1"), s("GOTHER")), Err(BountyError::Unauthorized));
    c.close_bounty(s("b1"), s("GCREATOR")).unwrap();
    assert_eq!(c.close_bounty(s("b1"), s("GCREATOR")), Err(BountyError::Closed));
    assert_eq!(c.assign_bounty(s("b1"), s("GCREATOR"), s("GW")), Err(BountyError::Closed));
    assert_eq!(c.submit_bounty(s("b1"), s("GCREATOR"), 1), Err(BountyError::NotAssigned));
    assert_eq!(c.approve_bounty(s("b1"), s("GCREATOR"), 1), Err(BountyError::NotSubmitted));
    assert_eq!(c.get_bounty(s("b1")).unwrap().status, BountyStatus::Closed);
}

#[test]
fn bounty_missing_and_codes() {
    let mut c = posted();
    assert_eq!(c.assign_bounty(s("none"), s("GCREATOR"), s("GW")), Err(BountyError::NotFound));
    assert_eq!(c.submit_bounty(s("none"), s("GW"), 1), Err(BountyError::NotFound));
    assert_eq!(c.approve_bounty(s("none"), s("GCREATOR"), 1), Err(BountyError::NotFound));
    assert_eq!(c.close_bounty(s("none"), s("GCREATOR")), Err(BountyError::NotFound));
    assert_eq!(c.assign_bounty(s("b1"), s("GW"), s("GW")), Err(BountyError::Unauthorized));
    assert_eq!(BountyError::Closed.code(), 9);
    assert_eq!(BountyError::NotSubmitted.code(), 8);
}

#[test]
fn bounty_storage_round_trip() {
    let mut c = posted();
    c.assign_bounty(s("b1"), s("GCREATOR"), s("GWORKER")).unwrap();
    let ids = c.list_bounties();
    let bs: Vec<_> = ids.iter().map(|id| c.get_bounty(id.clone()).unwrap()).collect();
    let back = BountyBoardContract::from_storage(ids.clone(), bs.clone()).unwrap();
    assert_eq!(back.get_bounty(s("b1")).unwrap().worker, "GWORKER");
    let mut odd = bs.clone();
    odd[0].assigned = false;
    assert!(BountyBoardContract::from_storage(ids, odd).is_none());
}
