use record_contracts::checklist_review::{ChecklistReviewContract, ChecklistRecordError, ChecklistStatus};

fn s(text: &str) -> String {
    text.to_string()
}

fn created() -> ChecklistReviewContract {
    let mut c = ChecklistReviewContract::new();
    c.create_checklist(s("first"), s("GOWNER"), s("Title"), s("Details"), s("tag"), 10).unwrap();
    c
}

#[test]
fn checklist_create_then_get() {
    let c = created();
    let r = c.get_checklist(s("first")).unwrap();
    assert_eq!(r.lead, "GOWNER");
    assert_eq!(r.reviewer, "GOWNER");
    assert_eq!(r.title, "Title");
    assert_eq!(r.details, "Details");
    assert_eq!(r.tag, "tag");
    assert_eq!(r.status, ChecklistStatus::Draft);
    assert_eq!(r.check_count, 0);
    assert_eq!(r.created_at, 10);
    assert_eq!(r.updated_at, 10);
    assert_eq!(c.list_checklists(), vec![s("first")]);
    assert!(c.get_checklist(s("other")).is_none());
    assert_eq!(c.get_check_count(s("other")), 0);
}

#[test]
fn checklist_create_errors() {
    let mut c = created();
    assert_eq!(c.create_checklist(s("second"), s("GOWNER"), s(""), s("d"), s("t"), 10), Err(ChecklistRecordError::InvalidTitle));
    assert_eq!(c.create_checklist(s("second"), s("GOWNER"), s("T"), s("d"), s("t"), 0), Err(ChecklistRecordError::InvalidTimestamp));
    assert_eq!(c.create_checklist(s("first"), s("GOTHER"), s("T"), s("d"), s("t"), 10), Err(ChecklistRecordError::AlreadyExists));
    assert_eq!(c.list_checklists(), vec![s("first")]);
}

#[test]
fn checklist_each_account_acts_once() {
    let mut c = created();
    c.submit_check(s("first"), s("GA"), 20).unwrap();
    c.submit_check(s("first"), s("GB"), 30).unwrap();
    assert_eq!(c.submit_check(s("first"), s("GA"), 40), Err(ChecklistRecordError::AlreadyActed));
    let r = c.get_checklist(s("first")).unwrap();
    assert_eq!(r.reviewer, "GB");
    assert_eq!(r.check_count, 2);
    assert_eq!(r.status, ChecklistStatus::Submitted);
    assert_eq!(r.updated_at, 30);
    assert_eq!(c.get_check_count(s("first")), 2);
    assert_eq!(c.submit_check(s("missing"), s("GA"), 40), Err(ChecklistRecordError::NotFound));
}

#[test]
fn checklist_owner_moves_status() {
    let mut c = created();
    assert_eq!(c.approve_checklist(s("first"), s("GSTRANGER"), 20), Err(ChecklistRecordError::Unauthorized));
    assert_eq!(c.approve_checklist(s("missing"), s("GOWNER"), 20), Err(ChecklistRecordError::NotFound));
    c.approve_checklist(s("first"), s("GOWNER"), 20).unwrap();
    let r = c.get_checklist(s("first")).unwrap();
    assert_eq!(r.status, ChecklistStatus::Approved);
    assert_eq!(r.updated_at, 20);
    assert_eq!(c.archive_checklist(s("first"), s("GSTRANGER"), 30), Err(ChecklistRecordError::Unauthorized));
    c.archive_checklist(s("first"), s("GOWNER"), 30).unwrap();
    assert_eq!(c.get_checklist(s("first")).unwrap().status, ChecklistStatus::Archived);
}

#[test]
fn checklist_closed_is_final() {
    let mut c = created();
    c.archive_checklist(s("first"), s("GOWNER"), 30).unwrap();
    assert_eq!(c.submit_check(s("first"), s("GA"), 40), Err(ChecklistRecordError::Closed));
    assert_eq!(c.approve_checklist(s("first"), s("GOWNER"), 40), Err(ChecklistRecordError::Closed));
    assert_eq!(c.archive_checklist(s("first"), s("GOWNER"), 40), Err(ChecklistRecordError::Closed));
    let r = c.get_checklist(s("first")).unwrap();
    assert_eq!(r.status, ChecklistStatus::Archived);
    assert_eq!(r.updated_at, 30);
    assert_eq!(r.check_count, 0);
}

#[test]
fn checklist_error_codes() {
    assert_eq!(ChecklistRecordError::InvalidTitle.code(), 1);
    assert_eq!(ChecklistRecordError::AlreadyActed.code(), 6);
    assert_eq!(ChecklistRecordError::Closed.code(), 7);
}

#[test]
fn checklist_storage_round_trip() {
    let mut c = created();
    c.create_checklist(s("second"), s("GOWNER"), s("Other"), s(""), s("tag"), 11).unwrap();
    c.submit_check(s("first"), s("GA"), 20).unwrap();
    c.submit_check(s("second"), s("GA"), 21).unwrap();
    c.submit_check(s("second"), s("GB"), 22).unwrap();
    let ids = c.list_checklists();
    let records: Vec<_> = ids.iter().map(|id| c.get_checklist(id.clone()).unwrap()).collect();
    let acted = c.acted_pairs();
    assert_eq!(acted.len(), 3);
    let back = ChecklistReviewContract::from_storage(ids.clone(), records.clone(), acted.clone()).unwrap();
    assert_eq!(back.list_checklists(), ids);
    assert_eq!(back.get_check_count(s("second")), 2);
    assert_eq!(back.acted_pairs(), acted);
    let mut back = back;
    assert_eq!(back.submit_check(s("second"), s("GB"), 23), Err(ChecklistRecordError::AlreadyActed));
}

#[test]
fn checklist_storage_rejects_inconsistent_parts() {
    let mut c = created();
    c.submit_check(s("first"), s("GA"), 20).unwrap();
    let ids = c.list_checklists();
    let records: Vec<_> = ids.iter().map(|id| c.get_checklist(id.clone()).unwrap()).collect();
    let acted = c.acted_pairs();
    assert!(ChecklistReviewContract::from_storage(ids.clone(), records.clone(), Vec::new()).is_none());
    let mut twice = acted.clone();
    twice.push(acted[0].clone());
    assert!(ChecklistReviewContract::from_storage(ids.clone(), records.clone(), twice).is_none());
    let mut stray = acted.clone();
    stray.push((s("ghost"), s("GA")));
    assert!(ChecklistReviewContract::from_storage(ids.clone(), records.clone(), stray).is_none());
    let mut dup_ids = ids.clone();
    dup_ids.push(ids[0].clone());
    let mut dup_records = records.clone();
    dup_records.push(records[0].clone());
    assert!(ChecklistReviewContract::from_storage(dup_ids, dup_records, acted.clone()).is_none());
    assert!(ChecklistReviewContract::from_storage(ids, Vec::new(), acted).is_none());
}
