use record_contracts::meeting_minutes::{MeetingMinutesContract, MeetingRecordError, MeetingStatus};

fn s(text: &str) -> String {
    text.to_string()
}

fn created() -> MeetingMinutesContract {
    let mut c = MeetingMinutesContract::new();
    c.create_meeting(s("first"), s("GOWNER"), s("Title"), s("Details"), s("tag"), 10).unwrap();
    c
}

#[test]
fn meeting_create_then_get() {
    let c = created();
    let r = c.get_meeting(s("first")).unwrap();
    assert_eq!(r.host, "GOWNER");
    assert_eq!(r.note_taker, "GOWNER");
    assert_eq!(r.title, "Title");
    assert_eq!(r.details, "Details");
    assert_eq!(r.tag, "tag");
    assert_eq!(r.status, MeetingStatus::Draft);
    assert_eq!(r.note_count, 0);
    assert_eq!(r.created_at, 10);
    assert_eq!(r.updated_at, 10);
    assert_eq!(c.list_meetings(), vec![s("first")]);
    assert!(c.get_meeting(s("other")).is_none());
    assert_eq!(c.get_note_count(s("other")), 0);
}

#[test]
fn meeting_create_errors() {
    let mut c = created();
    assert_eq!(c.create_meeting(s("second"), s("GOWNER"), s(""), s("d"), s("t"), 10), Err(MeetingRecordError::InvalidTitle));
    assert_eq!(c.create_meeting(s("second"), s("GOWNER"), s("T"), s("d"), s("t"), 0), Err(MeetingRecordError::InvalidTimestamp));
    assert_eq!(c.create_meeting(s("first"), s("GOTHER"), s("T"), s("d"), s("t"), 10), Err(MeetingRecordError::AlreadyExists));
    assert_eq!(c.list_meetings(), vec![s("first")]);
}

#[test]
fn meeting_each_account_acts_once() {
    let mut c = created();
    c.add_note(s("first"), s("GA"), 20).unwrap();
    c.add_note(s("first"), s("GB"), 30).unwrap();
    assert_eq!(c.add_note(s("first"), s("GA"), 40), Err(MeetingRecordError::AlreadyActed));
    let r = c.get_meeting(s("first")).unwrap();
    assert_eq!(r.note_taker, "GB");
    assert_eq!(r.note_count, 2);
    assert_eq!(r.status, MeetingStatus::Recording);
    assert_eq!(r.updated_at, 30);
    assert_eq!(c.get_note_count(s("first")), 2);
    assert_eq!(c.add_note(s("missing"), s("GA"), 40), Err(MeetingRecordError::NotFound));
}

#[test]
fn meeting_owner_moves_status() {
    let mut c = created();
    assert_eq!(c.approve_minutes(s("first"), s("GSTRANGER"), 20), Err(MeetingRecordError::Unauthorized));
    assert_eq!(c.approve_minutes(s("missing"), s("GOWNER"), 20), Err(MeetingRecordError::NotFound));
    c.approve_minutes(s("first"), s("GOWNER"), 20).unwrap();
    let r = c.get_meeting(s("first")).unwrap();
    assert_eq!(r.status, MeetingStatus::Approved);
    assert_eq!(r.updated_at, 20);
    assert_eq!(c.archive_meeting(s("first"), s("GSTRANGER"), 30), Err(MeetingRecordError::Unauthorized));
    c.archive_meeting(s("first"), s("GOWNER"), 30).unwrap();
    assert_eq!(c.get_meeting(s("first")).unwrap().status, MeetingStatus::Archived);
}

#[test]
fn meeting_closed_is_final() {
    let mut c = created();
    c.archive_meeting(s("first"), s("GOWNER"), 30).unwrap();
    assert_eq!(c.add_note(s("first"), s("GA"), 40), Err(MeetingRecordError::Closed));
    assert_eq!(c.approve_minutes(s("first"), s("GOWNER"), 40), Err(MeetingRecordError::Closed));
    assert_eq!(c.archive_meeting(s("first"), s("GOWNER"), 40), Err(MeetingRecordError::Closed));
    let r = c.get_meeting(s("first")).unwrap();
    assert_eq!(r.status, MeetingStatus::Archived);
    assert_eq!(r.updated_at, 30);
    assert_eq!(r.note_count, 0);
}

#[test]
fn meeting_error_codes() {
    assert_eq!(MeetingRecordError::InvalidTitle.code(), 1);
    assert_eq!(MeetingRecordError::AlreadyActed.code(), 6);
    assert_eq!(MeetingRecordError::Closed.code(), 7);
}

#[test]
fn meeting_storage_round_trip() {
    let mut c = created();
    c.create_meeting(s("second"), s("GOWNER"), s("Other"), s(""), s("tag"), 11).unwrap();
    c.add_note(s("first"), s("GA"), 20).unwrap();
    c.add_note(s("second"), s("GA"), 21).unwrap();
    c.add_note(s("second"), s("GB"), 22).unwrap();
    let ids = c.list_meetings();
    let records: Vec<_> = ids.iter().map(|id| c.get_meeting(id.clone()).unwrap()).collect();
    let acted = c.acted_pairs();
    assert_eq!(acted.len(), 3);
    let back = MeetingMinutesContract::from_storage(ids.clone(), records.clone(), acted.clone()).unwrap();
    assert_eq!(back.list_meetings(), ids);
    assert_eq!(back.get_note_count(s("second")), 2);
    assert_eq!(back.acted_pairs(), acted);
    let mut back = back;
    assert_eq!(back.add_note(s("second"), s("GB"), 23), Err(MeetingRecordError::AlreadyActed));
}

#[test]
fn meeting_storage_rejects_inconsistent_parts() {
    let mut c = created();
    c.add_note(s("first"), s("GA"), 20).unwrap();
    let ids = c.list_meetings();
    let records: Vec<_> = ids.iter().map(|id| c.get_meeting(id.clone()).unwrap()).collect();
    let acted = c.acted_pairs();
    assert!(MeetingMinutesContract::from_storage(ids.clone(), records.clone(), Vec::new()).is_none());
    let mut twice = acted.clone();
    twice.push(acted[0].clone());
    assert!(MeetingMinutesContract::from_storage(ids.clone(), records.clone(), twice).is_none());
    let mut stray = acted.clone();
    stray.push((s("ghost"), s("GA")));
    assert!(MeetingMinutesContract::from_storage(ids.clone(), records.clone(), stray).is_none());
    let mut dup_ids = ids.clone();
    dup_ids.push(ids[0].clone());
    let mut dup_records = records.clone();
    dup_records.push(records[0].clone());
    assert!(MeetingMinutesContract::from_storage(dup_ids, dup_records, acted.clone()).is_none());
    assert!(MeetingMinutesContract::from_storage(ids, Vec::new(), acted).is_none());
}
