use record_contracts::carpool_board::{CarpoolBoardContract, CarpoolTripError, TripStatus};

fn s(text: &str) -> String {
    text.to_string()
}

fn created() -> CarpoolBoardContract {
    let mut c = CarpoolBoardContract::new();
    c.create_trip(s("first"), s("GOWNER"), s("Title"), s("Details"), s("tag"), 10).unwrap();
    c
}

#[test]
fn carpool_create_then_get() {
    let c = created();
    let r = c.get_trip(s("first")).unwrap();
    assert_eq!(r.driver, "GOWNER");
    assert_eq!(r.rider, "GOWNER");
    assert_eq!(r.title, "Title");
    assert_eq!(r.details, "Details");
    assert_eq!(r.tag, "tag");
    assert_eq!(r.status, TripStatus::Open);
    assert_eq!(r.rider_count, 0);
    assert_eq!(r.created_at, 10);
    assert_eq!(r.updated_at, 10);
    assert_eq!(c.list_trips(), vec![s("first")]);
    assert!(c.get_trip(s("other")).is_none());
    assert_eq!(c.get_rider_count(s("other")), 0);
}

#[test]
fn carpool_create_errors() {
    let mut c = created();
    assert_eq!(c.create_trip(s("second"), s("GOWNER"), s(""), s("d"), s("t"), 10), Err(CarpoolTripError::InvalidTitle));
    assert_eq!(c.create_trip(s("second"), s("GOWNER"), s("T"), s("d"), s("t"), 0), Err(CarpoolTripError::InvalidTimestamp));
    assert_eq!(c.create_trip(s("first"), s("GOTHER"), s("T"), s("d"), s("t"), 10), Err(CarpoolTripError::AlreadyExists));
    assert_eq!(c.list_trips(), vec![s("first")]);
}

#[test]
fn carpool_each_account_acts_once() {
    let mut c = created();
    c.join_trip(s("first"), s("GA"), 20).unwrap();
    c.join_trip(s("first"), s("GB"), 30).unwrap();
    assert_eq!(c.join_trip(s("first"), s("GA"), 40), Err(CarpoolTripError::AlreadyActed));
    let r = c.get_trip(s("first")).unwrap();
    assert_eq!(r.rider, "GB");
    assert_eq!(r.rider_count, 2);
    assert_eq!(r.status, TripStatus::Joined);
    assert_eq!(r.updated_at, 30);
    assert_eq!(c.get_rider_count(s("first")), 2);
    assert_eq!(c.join_trip(s("missing"), s("GA"), 40), Err(CarpoolTripError::NotFound));
}

#[test]
fn carpool_owner_moves_status() {
    let mut c = created();
    assert_eq!(c.confirm_trip(s("first"), s("GSTRANGER"), 20), Err(CarpoolTripError::Unauthorized));
    assert_eq!(c.confirm_trip(s("missing"), s("GOWNER"), 20), Err(CarpoolTripError::NotFound));
    c.confirm_trip(s("first"), s("GOWNER"), 20).unwrap();
    let r = c.get_trip(s("first")).unwrap();
    assert_eq!(r.status, TripStatus::Confirmed);
    assert_eq!(r.updated_at, 20);
    assert_eq!(c.close_trip(s("first"), s("GSTRANGER"), 30), Err(CarpoolTripError::Unauthorized));
    c.close_trip(s("first"), s("GOWNER"), 30).unwrap();
    assert_eq!(c.get_trip(s("first")).unwrap().status, TripStatus::Closed);
}

#[test]
fn carpool_closed_is_final() {
    let mut c = created();
    c.close_trip(s("first"), s("GOWNER"), 30).unwrap();
    assert_eq!(c.join_trip(s("first"), s("GA"), 40), Err(CarpoolTripError::Closed));
    assert_eq!(c.confirm_trip(s("first"), s("GOWNER"), 40), Err(CarpoolTripError::Closed));
    assert_eq!(c.close_trip(s("first"), s("GOWNER"), 40), Err(CarpoolTripError::Closed));
    let r = c.get_trip(s("first")).unwrap();
    assert_eq!(r.status, TripStatus::Closed);
    assert_eq!(r.updated_at, 30);
    assert_eq!(r.rider_count, 0);
}

#[test]
fn carpool_error_codes() {
    assert_eq!(CarpoolTripError::InvalidTitle.code(), 1);
    assert_eq!(CarpoolTripError::AlreadyActed.code(), 6);
    assert_eq!(CarpoolTripError::Closed.code(), 7);
}

#[test]
fn carpool_storage_round_trip() {
    let mut c = created();
    c.create_trip(s("second"), s("GOWNER"), s("Other"), s(""), s("tag"), 11).unwrap();
    c.join_trip(s("first"), s("GA"), 20).unwrap();
    c.join_trip(s("second"), s("GA"), 21).unwrap();
    c.join_trip(s("second"), s("GB"), 22).unwrap();
    let ids = c.list_trips();
    let records: Vec<_> = ids.iter().map(|id| c.get_trip(id.clone()).unwrap()).collect();
    let acted = c.acted_pairs();
    assert_eq!(acted.len(), 3);
    let back = CarpoolBoardContract::from_storage(ids.clone(), records.clone(), acted.clone()).unwrap();
    assert_eq!(back.list_trips(), ids);
    assert_eq!(back.get_rider_count(s("second")), 2);
    assert_eq!(back.acted_pairs(), acted);
    let mut back = back;
    assert_eq!(back.join_trip(s("second"), s("GB"), 23), Err(CarpoolTripError::AlreadyActed));
}

#[test]
fn carpool_storage_rejects_inconsistent_parts() {
    let mut c = created();
    c.join_trip(s("first"), s("GA"), 20).unwrap();
    let ids = c.list_trips();
    let records: Vec<_> = ids.iter().map(|id| c.get_trip(id.clone()).unwrap()).collect();
    let acted = c.acted_pairs();
    assert!(CarpoolBoardContract::from_storage(ids.clone(), records.clone(), Vec::new()).is_none());
    let mut twice = acted.clone();
    twice.push(acted[0].clone());
    assert!(CarpoolBoardContract::from_storage(ids.clone(), records.clone(), twice).is_none());
    let mut stray = acted.clone();
    stray.push((s("ghost"), s("GA")));
    assert!(CarpoolBoardContract::from_storage(ids.clone(), records.clone(), stray).is_none());
    let mut dup_ids = ids.clone();
    dup_ids.push(ids[0].clone());
    let mut dup_records = records.clone();
    dup_records.push(records[0].clone());
    assert!(CarpoolBoardContract::from_storage(dup_ids, dup_records, acted.clone()).is_none());
    assert!(CarpoolBoardContract::from_storage(ids, Vec::new(), acted).is_none());
}
