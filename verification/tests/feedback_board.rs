use record_contracts::feedback_board::{FeedbackBoardContract, FeedbackRecordError, FeedbackStatus};

fn s(text: &str) -> String {
    text.to_string()
}

fn created() -> FeedbackBoardContract {
    let mut c = FeedbackBoardContract::new();
    c.create_feedback(s("first"), s("GOWNER"), s("Title"), s("Details"), s("tag"), 10).unwrap();
    c
}

#[test]
fn feedback_create_then_get() {
    let c = created();
    let r = c.get_feedback(s("first")).unwrap();
    assert_eq!(r.moderator, "GOWNER");
    assert_eq!(r.reviewer, "GOWNER");
    assert_eq!(r.title, "Title");
    assert_eq!(r.details, "Details");
    assert_eq!(r.tag, "tag");
    assert_eq!(r.status, FeedbackStatus::Open);
    assert_eq!(r.review_count, 0);
    assert_eq!(r.created_at, 10);
    assert_eq!(r.updated_at, 10);
    assert_eq!(c.list_feedbacks(), vec![s("first")]);
    assert!(c.get_feedback(s("other")).is_none());
    assert_eq!(c.get_review_count(s("other")), 0);
}

#[test]
fn feedback_create_errors() {
    let mut c = created();
    assert_eq!(c.create_feedback(s("second"), s("GOWNER"), s(""), s("d"), s("t"), 10), Err(FeedbackRecordError::InvalidTitle));
    assert_eq!(c.create_feedback(s("second"), s("GOWNER"), s("T"), s("d"), s("t"), 0), Err(FeedbackRecordError::InvalidTimestamp));
    assert_eq!(c.create_feedback(s("first"), s("GOTHER"), s("T"), s("d"), s("t"), 10), Err(FeedbackRecordError::AlreadyExists));
    assert_eq!(c.list_feedbacks(), vec![s("first")]);
}

#[test]
fn feedback_each_account_acts_once() {
    let mut c = created();
    c.add_review(s("first"), s("GA"), 20).unwrap();
    c.add_review(s("first"), s("GB"), 30).unwrap();
    assert_eq!(c.add_review(s("first"), s("GA"), 40), Err(FeedbackRecordError::AlreadyActed));
    let r = c.get_feedback(s("first")).unwrap();
    assert_eq!(r.reviewer, "GB");
    assert_eq!(r.review_count, 2);
    assert_eq!(r.status, FeedbackStatus::Reviewed);
    assert_eq!(r.updated_at, 30);
    assert_eq!(c.get_review_count(s("first")), 2);
    assert_eq!(c.add_review(s("missing"), s("GA"), 40), Err(FeedbackRecordError::NotFound));
}

#[test]
fn feedback_owner_moves_status() {
    let mut c = created();
    assert_eq!(c.approve_feedback(s("first"), s("GSTRANGER"), 20), Err(FeedbackRecordError::Unauthorized));
    assert_eq!(c.approve_feedback(s("missing"), s("GOWNER"), 20), Err(FeedbackRecordError::NotFound));
    c.approve_feedback(s("first"), s("GOWNER"), 20).unwrap();
    let r = c.get_feedback(s("first")).unwrap();
    assert_eq!(r.status, FeedbackStatus::Approved);
    assert_eq!(r.updated_at, 20);
    assert_eq!(c.close_feedback(s("first"), s("GSTRANGER"), 30), Err(FeedbackRecordError::Unauthorized));
    c.close_feedback(s("first"), s("GOWNER"), 30).unwrap();
    assert_eq!(c.get_feedback(s("first")).unwrap().status, FeedbackStatus::Closed);
}

#[test]
fn feedback_closed_is_final() {
    let mut c = created();
    c.close_feedback(s("first"), s("GOWNER"), 30).unwrap();
    assert_eq!(c.add_review(s("first"), s("GA"), 40), Err(FeedbackRecordError::Closed));
    assert_eq!(c.approve_feedback(s("first"), s("GOWNER"), 40), Err(FeedbackRecordError::Closed));
    assert_eq!(c.close_feedback(s("first"), s("GOWNER"), 40), Err(FeedbackRecordError::Closed));
    let r = c.get_feedback(s("first")).unwrap();
    assert_eq!(r.status, FeedbackStatus::Closed);
    assert_eq!(r.updated_at, 30);
    assert_eq!(r.review_count, 0);
}

#[test]
fn feedback_error_codes() {
    assert_eq!(FeedbackRecordError::InvalidTitle.code(), 1);
    assert_eq!(FeedbackRecordError::AlreadyActed.code(), 6);
    assert_eq!(FeedbackRecordError::Closed.code(), 7);
}

#[test]
fn feedback_storage_round_trip() {
    let mut c = created();
    c.create_feedback(s("second"), s("GOWNER"), s("Other"), s(""), s("tag"), 11).unwrap();
    c.add_review(s("first"), s("GA"), 20).unwrap();
    c.add_review(s("second"), s("GA"), 21).unwrap();
    c.add_review(s("second"), s("GB"), 22).unwrap();
    let ids = c.list_feedbacks();
    let records: Vec<_> = ids.iter().map(|id| c.get_feedback(id.clone()).unwrap()).collect();
    let acted = c.acted_pairs();
    assert_eq!(acted.len(), 3);
    let back = FeedbackBoardContract::from_storage(ids.clone(), records.clone(), acted.clone()).unwrap();
    assert_eq!(back.list_feedbacks(), ids);
    assert_eq!(back.get_review_count(s("second")), 2);
    assert_eq!(back.acted_pairs(), acted);
    let mut back = back;
    assert_eq!(back.add_review(s("second"), s("GB"), 23), Err(FeedbackRecordError::AlreadyActed));
}

#[test]
fn feedback_storage_rejects_inconsistent_parts() {
    let mut c = created();
    c.add_review(s("first"), s("GA"), 20).unwrap();
    let ids = c.list_feedbacks();
    let records: Vec<_> = ids.iter().map(|id| c.get_feedback(id.clone()).unwrap()).collect();
    let acted = c.acted_pairs();
    assert!(FeedbackBoardContract::from_storage(ids.clone(), records.clone(), Vec::new()).is_none());
    let mut twice = acted.clone();
    twice.push(acted[0].clone());
    assert!(FeedbackBoardContract::from_storage(ids.clone(), records.clone(), twice).is_none());
    let mut stray = acted.clone();
    stray.push((s("ghost"), s("GA")));
    assert!(FeedbackBoardContract::from_storage(ids.clone(), records.clone(), stray).is_none());
    let mut dup_ids = ids.clone();
    dup_ids.push(ids[0].clone());
    let mut dup_records = records.clone();
    dup_records.push(records[0].clone());
    assert!(FeedbackBoardContract::from_storage(dup_ids, dup_records, acted.clone()).is_none());
    assert!(FeedbackBoardContract::from_storage(ids, Vec::new(), acted).is_none());
}
