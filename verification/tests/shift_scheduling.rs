use record_contracts::shift_scheduling::{ShiftError, ShiftSchedulingContract, ShiftStatus};

fn s(text: &str) -> String {
    text.to_string()
}

fn created() -> ShiftSchedulingContract {
    let mut c = ShiftSchedulingContract::new();
    c.create_shift(s("sh1"), s("GMGR"), s("Morning"), s("Dock"), 100, 200, 50).unwrap();
    c
}

#[test]
fn shift_create_then_get() {
    let c = created();
    let sh = c.get_shift(s("sh1")).unwrap();
    assert_eq!(sh.manager, "GMGR");
    assert_eq!(sh.worker, "GMGR");
    assert_eq!(sh.title, "Morning");
    assert_eq!(sh.location, "Dock");
    assert_eq!(sh.status, ShiftStatus::Open);
    assert!(!sh.assigned);
    assert_eq!(sh.start_time, 100);
    assert_eq!(sh.end_time, 200);
    assert_eq!(sh.created_at, 50);
    assert_eq!(c.get_active_shift_count(), 0);
    assert_eq!(c.list_shifts(), vec![s("sh1")]);
}

#[test]
fn shift_create_errors() {
    let mut c = created();
    assert_eq!(c.create_shift(s("sh2"), s("G"), s(""), s("L"), 1, 2, 0), Err(ShiftError::InvalidTitle));
    assert_eq!(c.create_shift(s("sh2"), s("G"), s("T"), s("L"), 0, 2, 0), Err(ShiftError::InvalidTimestamp));
    assert_eq!(c.create_shift(s("sh2"), s("G"), s("T"), s("L"), 1, 0, 0), Err(ShiftError::InvalidTimestamp));
    assert_eq!(c.create_shift(s("sh1"), s("G"), s("T"), s("L"), 1, 2, 0), Err(ShiftError::AlreadyExists));
}

#[test]
fn shift_start_and_complete() {
    let mut c = created();
    assert_eq!(c.start_shift(s("sh1"), s("GMGR")), Err(ShiftError::NotAssigned));
    assert_eq!(c.assign_shift(s("sh1"), s("GOTHER"), s("GW")), Err(ShiftError::Unauthorized));
    c.assign_shift(s("sh1"), s("GMGR"), s("GW")).unwrap();
    assert_eq!(c.complete_shift(s("sh1"), s("GW")), Err(ShiftError::ShiftNotActive));
    assert_eq!(c.start_shift(s("sh1"), s("GX")), Err(ShiftError::Unauthorized));
    c.start_shift(s("sh1"), s("GW")).unwrap();
    assert_eq!(c.get_active_shift_count(), 1);
    assert_eq!(c.start_shift(s("sh1"), s("GW")), Err(ShiftError::ShiftNotActive));
    assert_eq!(c.complete_shift(s("sh1"), s("GX")), Err(ShiftError::Unauthorized));
    c.complete_shift(s("sh1"), s("GW")).unwrap();
    assert_eq!(c.get_active_shift_count(), 0);
    assert_eq!(c.get_shift(s("sh1")).unwrap().status, ShiftStatus::Complete);
}

#[test]
fn shift_reassigning_a_running_shift_keeps_the_counter() {
    let mut c = created();
    c.assign_shift(s("sh1"), s("GMGR"), s("GW")).unwrap();
    c.start_shift(s("sh1"), s("GW")).unwrap();
    c.assign_shift(s("sh1"), s("GMGR"), s("GW2")).unwrap();
    assert_eq!(c.get_active_shift_count(), 1);
    let sh = c.get_shift(s("sh1")).unwrap();
    assert_eq!(sh.status, ShiftStatus::Assigned);
    assert_eq!(sh.worker, "GW2");
    c.start_shift(s("sh1"), s("GW2")).unwrap();
    assert_eq!(c.get_active_shift_count(), 2);
}

#[test]
fn shift_missing_and_codes() {
    let mut c = created();
    assert_eq!(c.assign_shift(s("none"), s("GMGR"), s("GW")), Err(ShiftError::NotFound));
    assert_eq!(c.start_shift(s("none"), s("GW")), Err(ShiftError::NotFound));
    assert_eq!(c.complete_shift(s("none"), s("GW")), Err(ShiftError::NotFound));
    assert_eq!(ShiftError::ShiftNotActive.code(), 7);
    assert_eq!(ShiftError::InvalidTitle.code(), 1);
}

#[test]
fn shift_storage_round_trip() {
    let mut c = created();
    c.assign_shift(s("sh1"), s("GMGR"), s("GW")).unwrap();
    c.start_shift(s("sh1"), s("GW")).unwrap();
    let ids = c.list_shifts();
    let shifts: Vec<_> = ids.iter().map(|id| c.get_shift(id.clone()).unwrap()).collect();
    let back = ShiftSchedulingContract::from_storage(ids.clone(), shifts.clone(), 1).unwrap();
    assert_eq!(back.get_active_shift_count(), 1);
    assert!(ShiftSchedulingContract::from_storage(ids.clone(), shifts.clone(), 5).is_some());
    assert!(ShiftSchedulingContract::from_storage(ids, shifts, 0).is_none());
}
