use record_contracts::internship_logbook::{InternshipLogbookContract, InternshipLogError, LogbookStatus};

fn s(text: &str) -> String {
    text.to_string()
}

fn created() -> InternshipLogbookContract {
    let mut c = InternshipLogbookContract::new();
    c.create_logbook(s("first"), s("GOWNER"), s("Title"), s("Details"), s("tag"), 10).unwrap();
    c
}

#[test]
fn internship_create_then_get() {
    let c = created();
    let r = c.get_logbook(s("first")).unwrap();
    assert_eq!(r.mentor, "GOWNER");
    assert_eq!(r.intern, "GOWNER");
    assert_eq!(r.title, "Title");
    assert_eq!(r.details, "Details");
    assert_eq!(r.tag, "tag");
    assert_eq!(r.status, LogbookStatus::Open);
    assert_eq!(r.entry_count, 0);
    assert_eq!(r.created_at, 10);
    assert_eq!(r.updated_at, 10);
    assert_eq!(c.list_logbooks(), vec![s("first")]);
    assert!(c.get_logbook(s("other")).is_none());
    assert_eq!(c.get_entry_count(s("other")), 0);
}

#[test]
fn internship_create_errors() {
    let mut c = created();
    assert_eq!(c.create_logbook(s("second"), s("GOWNER"), s(""), s("d"), s("t"), 10), Err(InternshipLogError::InvalidTitle));
    assert_eq!(c.create_logbook(s("second"), s("GOWNER"), s("T"), s("d"), s("t"), 0), Err(InternshipLogError::InvalidTimestamp));
    assert_eq!(c.create_logbook(s("first"), s("GOTHER"), s("T"), s("d"), s("t"), 10), Err(InternshipLogError::AlreadyExists));
    assert_eq!(c.list_logbooks(), vec![s("first")]);
}

#[test]
fn internship_each_account_acts_once() {
    let mut c = created();
    c.add_entry(s("first"), s("GA"), 20).unwrap();
    c.add_entry(s("first"), s("GB"), 30).unwrap();
    assert_eq!(c.add_entry(s("first"), s("GA"), 40), Err(InternshipLogError::AlreadyActed));
    let r = c.get_logbook(s("first")).unwrap();
    assert_eq!(r.intern, "GB");
    assert_eq!(r.entry_count, 2);
    assert_eq!(r.status, LogbookStatus::Updated);
    assert_eq!(r.updated_at, 30);
    assert_eq!(c.get_entry_count(s("first")), 2);
    assert_eq!(c.add_entry(s("missing"), s("GA"), 40), Err(InternshipLogError::NotFound));
}

#[test]
fn internship_owner_moves_status() {
    let mut c = created();
    assert_eq!(c.approve_logbook(s("first"), s("GSTRANGER"), 20), Err(InternshipLogError::Unauthorized));
    assert_eq!(c.approve_logbook(s("missing"), s("GOWNER"), 20), Err(InternshipLogError::NotFound));
    c.approve_logbook(s("first"), s("GOWNER"), 20).unwrap();
    let r = c.get_logbook(s("first")).unwrap();
    assert_eq!(r.status, LogbookStatus::Approved);
    assert_eq!(r.updated_at, 20);
    assert_eq!(c.close_logbook(s("first"), s("GSTRANGER"), 30), Err(InternshipLogError::Unauthorized));
    c.close_logbook(s("first"), s("GOWNER"), 30).unwrap();
    assert_eq!(c.get_logbook(s("first")).unwrap().status, LogbookStatus::Closed);
}

#[test]
fn internship_closed_is_final() {
    let mut c = created();
    c.close_logbook(s("first"), s("GOWNER"), 30).unwrap();
    assert_eq!(c.add_entry(s("first"), s("GA"), 40), Err(InternshipLogError::Closed));
    assert_eq!(c.approve_logbook(s("first"), s("GOWNER"), 40), Err(InternshipLogError::Closed));
    assert_eq!(c.close_logbook(s("first"), s("GOWNER"), 40), Err(InternshipLogError::Closed));
    let r = c.get_logbook(s("first")).unwrap();
    assert_eq!(r.status, LogbookStatus::Closed);
    assert_eq!(r.updated_at, 30);
    assert_eq!(r.entry_count, 0);
}

#[test]
fn internship_error_codes() {
    assert_eq!(InternshipLogError::InvalidTitle.code(), 1);
    assert_eq!(InternshipLogError::AlreadyActed.code(), 6);
    assert_eq!(InternshipLogError::Closed.code(), 7);
}

#[test]
fn internship_storage_round_trip() {
    let mut c = created();
    c.create_logbook(s("second"), s("GOWNER"), s("Other"), s(""), s("tag"), 11).unwrap();
    c.add_entry(s("first"), s("GA"), 20).unwrap();
    c.add_entry(s("second"), s("GA"), 21).unwrap();
    c.add_entry(s("second"), s("GB"), 22).unwrap();
    let ids = c.list_logbooks();
    let records: Vec<_> = ids.iter().map(|id| c.get_logbook(id.clone()).unwrap()).collect();
    let acted = c.acted_pairs();
    assert_eq!(acted.len(), 3);
    let back = InternshipLogbookContract::from_storage(ids.clone(), records.clone(), acted.clone()).unwrap();
    assert_eq!(back.list_logbooks(), ids);
    assert_eq!(back.get_entry_count(s("second")), 2);
    assert_eq!(back.acted_pairs(), acted);
    let mut back = back;
    assert_eq!(back.add_entry(s("second"), s("GB"), 23), Err(InternshipLogError::AlreadyActed));
}

#[test]
fn internship_storage_rejects_inconsistent_parts() {
    let mut c = created();
    c.add_entry(s("first"), s("GA"), 20).unwrap();
    let ids = c.list_logbooks();
    let records: Vec<_> = ids.iter().map(|id| c.get_logbook(id.clone()).unwrap()).collect();
    let acted = c.acted_pairs();
    assert!(InternshipLogbookContract::from_storage(ids.clone(), records.clone(), Vec::new()).is_none());
    let mut twice = acted.clone();
    twice.push(acted[0].clone());
    assert!(InternshipLogbookContract::from_storage(ids.clone(), records.clone(), twice).is_none());
    let mut stray = acted.clone();
    stray.push((s("ghost"), s("GA")));
    assert!(InternshipLogbookContract::from_storage(ids.clone(), records.clone(), stray).is_none());
    let mut dup_ids = ids.clone();
    dup_ids.push(ids[0].clone());
    let mut dup_records = records.clone();
    dup_records.push(records[0].clone());
    assert!(InternshipLogbookContract::from_storage(dup_ids, dup_records, acted.clone()).is_none());
    assert!(InternshipLogbookContract::from_storage(ids, Vec::new(), acted).is_none());
}
