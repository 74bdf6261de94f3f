use record_contracts::pledge_campaign::{PledgeCampaignContract, PledgeRecordError, PledgeStatus};

fn s(text: &str) -> String {
    text.to_string()
}

fn created() -> PledgeCampaignContract {
    let mut c = PledgeCampaignContract::new();
    c.create_pledge(s("first"), s("GOWNER"), s("Title"), s("Details"), s("tag"), 10).unwrap();
    c
}

#[test]
fn pledge_create_then_get() {
    let c = created();
    let r = c.get_pledge(s("first")).unwrap();
    assert_eq!(r.organizer, "GOWNER");
    assert_eq!(r.supporter, "GOWNER");
    assert_eq!(r.title, "Title");
    assert_eq!(r.details, "Details");
    assert_eq!(r.tag, "tag");
    assert_eq!(r.status, PledgeStatus::Open);
    assert_eq!(r.pledge_count, 0);
    assert_eq!(r.created_at, 10);
    assert_eq!(r.updated_at, 10);
    assert_eq!(c.list_pledges(), vec![s("first")]);
    assert!(c.get_pledge(s("other")).is_none());
    assert_eq!(c.get_pledge_count(s("other")), 0);
}

#[test]
fn pledge_create_errors() {
    let mut c = created();
    assert_eq!(c.create_pledge(s("second"), s("GOWNER"), s(""), s("d"), s("t"), 10), Err(PledgeRecordError::InvalidTitle));
    assert_eq!(c.create_pledge(s("second"), s("GOWNER"), s("T"), s("d"), s("t"), 0), Err(PledgeRecordError::InvalidTimestamp));
    assert_eq!(c.create_pledge(s("first"), s("GOTHER"), s("T"), s("d"), s("t"), 10), Err(PledgeRecordError::AlreadyExists));
    assert_eq!(c.list_pledges(), vec![s("first")]);
}

#[test]
fn pledge_each_account_acts_once() {
    let mut c = created();
    c.make_pledge(s("first"), s("GA"), 20).unwrap();
    c.make_pledge(s("first"), s("GB"), 30).unwrap();
    assert_eq!(c.make_pledge(s("first"), s("GA"), 40), Err(PledgeRecordError::AlreadyActed));
    let r = c.get_pledge(s("first")).unwrap();
    assert_eq!(r.supporter, "GB");
    assert_eq!(r.pledge_count, 2);
    assert_eq!(r.status, PledgeStatus::Pledged);
    assert_eq!(r.updated_at, 30);
    assert_eq!(c.get_pledge_count(s("first")), 2);
    assert_eq!(c.make_pledge(s("missing"), s("GA"), 40), Err(PledgeRecordError::NotFound));
}

#[test]
fn pledge_owner_moves_status() {
    let mut c = created();
    assert_eq!(c.confirm_pledge(s("first"), s("GSTRANGER"), 20), Err(PledgeRecordError::Unauthorized));
    assert_eq!(c.confirm_pledge(s("missing"), s("GOWNER"), 20), Err(PledgeRecordError::NotFound));
    c.confirm_pledge(s("first"), s("GOWNER"), 20).unwrap();
    let r = c.get_pledge(s("first")).unwrap();
    assert_eq!(r.status, PledgeStatus::Confirmed);
    assert_eq!(r.updated_at, 20);
    assert_eq!(c.close_pledge(s("first"), s("GSTRANGER"), 30), Err(PledgeRecordError::Unauthorized));
    c.close_pledge(s("first"), s("GOWNER"), 30).unwrap();
    assert_eq!(c.get_pledge(s("first")).unwrap().status, PledgeStatus::Closed);
}

#[test]
fn pledge_closed_is_final() {
    let mut c = created();
    c.close_pledge(s("first"), s("GOWNER"), 30).unwrap();
    assert_eq!(c.make_pledge(s("first"), s("GA"), 40), Err(PledgeRecordError::Closed));
    assert_eq!(c.confirm_pledge(s("first"), s("GOWNER"), 40), Err(PledgeRecordError::Closed));
    assert_eq!(c.close_pledge(s("first"), s("GOWNER"), 40), Err(PledgeRecordError::Closed));
    let r = c.get_pledge(s("first")).unwrap();
    assert_eq!(r.status, PledgeStatus::Closed);
    assert_eq!(r.updated_at, 30);
    assert_eq!(r.pledge_count, 0);
}

#[test]
fn pledge_error_codes() {
    assert_eq!(PledgeRecordError::InvalidTitle.code(), 1);
    assert_eq!(PledgeRecordError::AlreadyActed.code(), 6);
    assert_eq!(PledgeRecordError::Closed.code(), 7);
}

#[test]
fn pledge_storage_round_trip() {
    let mut c = created();
    c.create_pledge(s("second"), s("GOWNER"), s("Other"), s(""), s("tag"), 11).unwrap();
    c.make_pledge(s("first"), s("GA"), 20).unwrap();
    c.make_pledge(s("second"), s("GA"), 21).unwrap();
    c.make_pledge(s("second"), s("GB"), 22).unwrap();
    let ids = c.list_pledges();
    let records: Vec<_> = ids.iter().map(|id| c.get_pledge(id.clone()).unwrap()).collect();
    let acted = c.acted_pairs();
    assert_eq!(acted.len(), 3);
    let back = PledgeCampaignContract::from_storage(ids.clone(), records.clone(), acted.clone()).unwrap();
    assert_eq!(back.list_pledges(), ids);
    assert_eq!(back.get_pledge_count(s("second")), 2);
    assert_eq!(back.acted_pairs(), acted);
    let mut back = back;
    assert_eq!(back.make_pledge(s("second"), s("GB"), 23), Err(PledgeRecordError::AlreadyActed));
}

#[test]
fn pledge_storage_rejects_inconsistent_parts() {
    let mut c = created();
    c.make_pledge(s("first"), s("GA"), 20).unwrap();
    let ids = c.list_pledges();
    let records: Vec<_> = ids.iter().map(|id| c.get_pledge(id.clone()).unwrap()).collect();
    let acted = c.acted_pairs();
    assert!(PledgeCampaignContract::from_storage(ids.clone(), records.clone(), Vec::new()).is_none());
    let mut twice = acted.clone();
    twice.push(acted[0].clone());
    assert!(PledgeCampaignContract::from_storage(ids.clone(), records.clone(), twice).is_none());
    let mut stray = acted.clone();
    stray.push((s("ghost"), s("GA")));
    assert!(PledgeCampaignContract::from_storage(ids.clone(), records.clone(), stray).is_none());
    let mut dup_ids = ids.clone();
    dup_ids.push(ids[0].clone());
    let mut dup_records = records.clone();
    dup_records.push(records[0].clone());
    assert!(PledgeCampaignContract::from_storage(dup_ids, dup_records, acted.clone()).is_none());
    assert!(PledgeCampaignContract::from_storage(ids, Vec::new(), acted).is_none());
}
