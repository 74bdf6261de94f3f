use record_contracts::visitor_pass_management::{PassStatus, VisitorPassError, VisitorPassManagementContract};

fn s(text: &str) -> String {
    text.to_string()
}

fn issued() -> VisitorPassManagementContract {
    let mut c = VisitorPassManagementContract::new();
    c.issue_pass(s("p1"), s("GHOST"), s("GVIS"), s("Meeting"), s("Lobby"), 100, 40).unwrap();
    c
}

#[test]
fn pass_issue_then_get() {
    let c = issued();
    let p = c.get_pass(s("p1")).unwrap();
    assert_eq!(p.host, "GHOST");
    assert_eq!(p.visitor, "GVIS");
    assert_eq!(p.purpose, "Meeting");
    assert_eq!(p.location, "Lobby");
    assert_eq!(p.status, PassStatus::Pending);
    assert_eq!(p.visit_time, 100);
    assert_eq!(p.created_at, 40);
    assert_eq!(p.check_in_at, 0);
    assert_eq!(p.check_out_at, 0);
    assert_eq!(c.list_passes(), vec![s("p1")]);
}

#[test]
fn pass_issue_errors() {
    let mut c = issued();
    assert_eq!(c.issue_pass(s("p2"), s("GH"), s("GV"), s(""), s("L"), 1, 0), Err(VisitorPassError::InvalidPurpose));
    assert_eq!(c.issue_pass(s("p2"), s("GH"), s("GV"), s("P"), s("L"), 0, 0), Err(VisitorPassError::InvalidTimestamp));
    assert_eq!(c.issue_pass(s("p1"), s("GH"), s("GV"), s("P"), s("L"), 1, 0), Err(VisitorPassError::AlreadyExists));
}

#[test]
fn pass_visit_cycle() {
    let mut c = issued();
    assert_eq!(c.check_in_visitor(s("p1"), s("GVIS"), 90), Err(VisitorPassError::PassNotApproved));
    assert_eq!(c.check_out_visitor(s("p1"), s("GVIS"), 90), Err(VisitorPassError::NotCheckedIn));
    assert_eq!(c.approve_pass(s("p1"), s("GVIS")), Err(VisitorPassError::Unauthorized));
    c.approve_pass(s("p1"), s("GHOST")).unwrap();
    c.approve_pass(s("p1"), s("GHOST")).unwrap();
    assert_eq!(c.check_in_visitor(s("p1"), s("GHOST"), 95), Err(VisitorPassError::Unauthorized));
    c.check_in_visitor(s("p1"), s("GVIS"), 100).unwrap();
    assert_eq!(c.check_in_visitor(s("p1"), s("GVIS"), 101), Err(VisitorPassError::AlreadyCheckedIn));
    assert_eq!(c.approve_pass(s("p1"), s("GHOST")), Err(VisitorPassError::PassNotApproved));
    c.check_out_visitor(s("p1"), s("GVIS"), 130).unwrap();
    let p = c.get_pass(s("p1")).unwrap();
    assert_eq!(p.status, PassStatus::CheckedOut);
    assert_eq!(p.check_in_at, 100);
    assert_eq!(p.check_out_at, 130);
    assert_eq!(c.check_out_visitor(s("p1"), s("GVIS"), 131), Err(VisitorPassError::AlreadyCheckedOut));
    assert_eq!(c.revoke_pass(s("p1"), s("GHOST")), Err(VisitorPassError::AlreadyCheckedOut));
}

#[test]
fn pass_revoked_is_final() {
    let mut c = issued();
    assert_eq!(c.revoke_pass(s("p1"), s("GVIS")), Err(VisitorPassError::Unauthorized));
    c.revoke_pass(s("p1"), s("GHOST")).unwrap();
    assert_eq!(c.revoke_pass(s("p1"), s("GHOST")), Err(VisitorPassError::PassRevoked));
    assert_eq!(c.approve_pass(s("p1"), s("GHOST")), Err(VisitorPassError::PassRevoked));
    assert_eq!(c.check_in_visitor(s("p1"), s("GVIS"), 1), Err(VisitorPassError::PassRevoked));
    assert_eq!(c.check_out_visitor(s("p1"), s("GVIS"), 1), Err(VisitorPassError::NotCheckedIn));
    assert_eq!(c.get_pass(s("p1")).unwrap().status, PassStatus::Revoked);
}

#[test]
fn pass_missing_and_codes() {
    let mut c = issued();
    assert_eq!(c.approve_pass(s("none"), s("GHOST")), Err(VisitorPassError::NotFound));
    assert_eq!(c.check_in_visitor(s("none"), s("GVIS"), 1), Err(VisitorPassError::NotFound));
    assert_eq!(c.check_out_visitor(s("none"), s("GVIS"), 1), Err(VisitorPassError::NotFound));
    assert_eq!(c.revoke_pass(s("none"), s("GHOST")), Err(VisitorPassError::NotFound));
    assert_eq!(c.check_out_visitor(s("p1"), s("GX"), 1), Err(VisitorPassError::Unauthorized));
    assert_eq!(VisitorPassError::NotCheckedIn.code(), 10);
    assert_eq!(VisitorPassError::PassRevoked.code(), 9);
}

#[test]
fn pass_storage_round_trip() {
    let mut c = issued();
    c.approve_pass(s("p1"), s("GHOST")).unwrap();
    let ids = c.list_passes();
    let passes: Vec<_> = ids.iter().map(|id| c.get_pass(id.clone()).unwrap()).collect();
    let back = VisitorPassManagementContract::from_storage(ids.clone(), passes.clone()).unwrap();
    assert_eq!(back.get_pass(s("p1")).unwrap().status, PassStatus::Approved);
    assert!(VisitorPassManagementContract::from_storage(ids, Vec::new()).is_none());
}
