use record_contracts::license_renewal::{LicenseRenewalContract, LicenseRecordError, LicenseStatus};

fn s(text: &str) -> String {
    text.to_string()
}

fn created() -> LicenseRenewalContract {
    let mut c = LicenseRenewalContract::new();
    c.register_license(s("first"), s("GOWNER"), s("Title"), s("Details"), s("tag"), 10).unwrap();
    c
}

#[test]
fn license_create_then_get() {
    let c = created();
    let r = c.get_license(s("first")).unwrap();
    assert_eq!(r.issuer, "GOWNER");
    assert_eq!(r.holder, "GOWNER");
    assert_eq!(r.title, "Title");
    assert_eq!(r.details, "Details");
    assert_eq!(r.tag, "tag");
    assert_eq!(r.status, LicenseStatus::Active);
    assert_eq!(r.renewal_count, 0);
    assert_eq!(r.created_at, 10);
    assert_eq!(r.updated_at, 10);
    assert_eq!(c.list_licenses(), vec![s("first")]);
    assert!(c.get_license(s("other")).is_none());
    assert_eq!(c.get_renewal_count(s("other")), 0);
}

#[test]
fn license_create_errors() {
    let mut c = created();
    assert_eq!(c.register_license(s("second"), s("GOWNER"), s(""), s("d"), s("t"), 10), Err(LicenseRecordError::InvalidTitle));
    assert_eq!(c.register_license(s("second"), s("GOWNER"), s("T"), s("d"), s("t"), 0), Err(LicenseRecordError::InvalidTimestamp));
    assert_eq!(c.register_license(s("first"), s("GOTHER"), s("T"), s("d"), s("t"), 10), Err(LicenseRecordError::AlreadyExists));
    assert_eq!(c.list_licenses(), vec![s("first")]);
}

#[test]
fn license_each_account_acts_once() {
    let mut c = created();
    c.request_renewal(s("first"), s("GA"), 20).unwrap();
    c.request_renewal(s("first"), s("GB"), 30).unwrap();
    assert_eq!(c.request_renewal(s("first"), s("GA"), 40), Err(LicenseRecordError::AlreadyActed));
    let r = c.get_license(s("first")).unwrap();
    assert_eq!(r.holder, "GB");
    assert_eq!(r.renewal_count, 2);
    assert_eq!(r.status, LicenseStatus::RenewalRequested);
    assert_eq!(r.updated_at, 30);
    assert_eq!(c.get_renewal_count(s("first")), 2);
    assert_eq!(c.request_renewal(s("missing"), s("GA"), 40), Err(LicenseRecordError::NotFound));
}

#[test]
fn license_owner_moves_status() {
    let mut c = created();
    assert_eq!(c.approve_license(s("first"), s("GSTRANGER"), 20), Err(LicenseRecordError::Unauthorized));
    assert_eq!(c.approve_license(s("missing"), s("GOWNER"), 20), Err(LicenseRecordError::NotFound));
    c.approve_license(s("first"), s("GOWNER"), 20).unwrap();
    let r = c.get_license(s("first")).unwrap();
    assert_eq!(r.status, LicenseStatus::Renewed);
    assert_eq!(r.updated_at, 20);
    assert_eq!(c.revoke_license(s("first"), s("GSTRANGER"), 30), Err(LicenseRecordError::Unauthorized));
    c.revoke_license(s("first"), s("GOWNER"), 30).unwrap();
    assert_eq!(c.get_license(s("first")).unwrap().status, LicenseStatus::Revoked);
}

#[test]
fn license_closed_is_final() {
    let mut c = created();
    c.revoke_license(s("first"), s("GOWNER"), 30).unwrap();
    assert_eq!(c.request_renewal(s("first"), s("GA"), 40), Err(LicenseRecordError::Closed));
    assert_eq!(c.approve_license(s("first"), s("GOWNER"), 40), Err(LicenseRecordError::Closed));
    assert_eq!(c.revoke_license(s("first"), s("GOWNER"), 40), Err(LicenseRecordError::Closed));
    let r = c.get_license(s("first")).unwrap();
    assert_eq!(r.status, LicenseStatus::Revoked);
    assert_eq!(r.updated_at, 30);
    assert_eq!(r.renewal_count, 0);
}

#[test]
fn license_error_codes() {
    assert_eq!(LicenseRecordError::InvalidTitle.code(), 1);
    assert_eq!(LicenseRecordError::AlreadyActed.code(), 6);
    assert_eq!(LicenseRecordError::Closed.code(), 7);
}

#[test]
fn license_storage_round_trip() {
    let mut c = created();
    c.register_license(s("second"), s("GOWNER"), s("Other"), s(""), s("tag"), 11).unwrap();
    c.request_renewal(s("first"), s("GA"), 20).unwrap();
    c.request_renewal(s("second"), s("GA"), 21).unwrap();
    c.request_renewal(s("second"), s("GB"), 22).unwrap();
    let ids = c.list_licenses();
    let records: Vec<_> = ids.iter().map(|id| c.get_license(id.clone()).unwrap()).collect();
    let acted = c.acted_pairs();
    assert_eq!(acted.len(), 3);
    let back = LicenseRenewalContract::from_storage(ids.clone(), records.clone(), acted.clone()).unwrap();
    assert_eq!(back.list_licenses(), ids);
    assert_eq!(back.get_renewal_count(s("second")), 2);
    assert_eq!(back.acted_pairs(), acted);
    let mut back = back;
    assert_eq!(back.request_renewal(s("second"), s("GB"), 23), Err(LicenseRecordError::AlreadyActed));
}

#[test]
fn license_storage_rejects_inconsistent_parts() {
    let mut c = created();
    c.request_renewal(s("first"), s("GA"), 20).unwrap();
    let ids = c.list_licenses();
    let records: Vec<_> = ids.iter().map(|id| c.get_license(id.clone()).unwrap()).collect();
    let acted = c.acted_pairs();
    assert!(LicenseRenewalContract::from_storage(ids.clone(), records.clone(), Vec::new()).is_none());
    let mut twice = acted.clone();
    twice.push(acted[0].clone());
    assert!(LicenseRenewalContract::from_storage(ids.clone(), records.clone(), twice).is_none());
    let mut stray = acted.clone();
    stray.push((s("ghost"), s("GA")));
    assert!(LicenseRenewalContract::from_storage(ids.clone(), records.clone(), stray).is_none());
    let mut dup_ids = ids.clone();
    dup_ids.push(ids[0].clone());
    let mut dup_records = records.clone();
    dup_records.push(records[0].clone());
    assert!(LicenseRenewalContract::from_storage(dup_ids, dup_records, acted.clone()).is_none());
    assert!(LicenseRenewalContract::from_storage(ids, Vec::new(), acted).is_none());
}
