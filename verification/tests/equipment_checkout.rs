use record_contracts::equipment_checkout::{EquipmentCheckoutContract, EquipmentItemError, EquipmentStatus};

fn s(text: &str) -> String {
    text.to_string()
}

fn created() -> EquipmentCheckoutContract {
    let mut c = EquipmentCheckoutContract::new();
    c.create_equipment(s("first"), s("GOWNER"), s("Title"), s("Details"), s("tag"), 10).unwrap();
    c
}

#[test]
fn equipment_create_then_get() {
    let c = created();
    let r = c.get_equipment(s("first")).unwrap();
    assert_eq!(r.custodian, "GOWNER");
    assert_eq!(r.borrower, "GOWNER");
    assert_eq!(r.title, "Title");
    assert_eq!(r.details, "Details");
    assert_eq!(r.tag, "tag");
    assert_eq!(r.status, EquipmentStatus::Available);
    assert_eq!(r.checkout_count, 0);
    assert_eq!(r.created_at, 10);
    assert_eq!(r.updated_at, 10);
    assert_eq!(c.list_equipments(), vec![s("first")]);
    assert!(c.get_equipment(s("other")).is_none());
    assert_eq!(c.get_checkout_count(s("other")), 0);
}

#[test]
fn equipment_create_errors() {
    let mut c = created();
    assert_eq!(c.create_equipment(s("second"), s("GOWNER"), s(""), s("d"), s("t"), 10), Err(EquipmentItemError::InvalidTitle));
    assert_eq!(c.create_equipment(s("second"), s("GOWNER"), s("T"), s("d"), s("t"), 0), Err(EquipmentItemError::InvalidTimestamp));
    assert_eq!(c.create_equipment(s("first"), s("GOTHER"), s("T"), s("d"), s("t"), 10), Err(EquipmentItemError::AlreadyExists));
    assert_eq!(c.list_equipments(), vec![s("first")]);
}

#[test]
fn equipment_each_account_acts_once() {
    let mut c = created();
    c.checkout_equipment(s("first"), s("GA"), 20).unwrap();
    c.checkout_equipment(s("first"), s("GB"), 30).unwrap();
    assert_eq!(c.checkout_equipment(s("first"), s("GA"), 40), Err(EquipmentItemError::AlreadyActed));
    let r = c.get_equipment(s("first")).unwrap();
    assert_eq!(r.borrower, "GB");
    assert_eq!(r.checkout_count, 2);
    assert_eq!(r.status, EquipmentStatus::CheckedOut);
    assert_eq!(r.updated_at, 30);
    assert_eq!(c.get_checkout_count(s("first")), 2);
    assert_eq!(c.checkout_equipment(s("missing"), s("GA"), 40), Err(EquipmentItemError::NotFound));
}

#[test]
fn equipment_owner_moves_status() {
    let mut c = created();
    assert_eq!(c.return_equipment(s("first"), s("GSTRANGER"), 20), Err(EquipmentItemError::Unauthorized));
    assert_eq!(c.return_equipment(s("missing"), s("GOWNER"), 20), Err(EquipmentItemError::NotFound));
    c.return_equipment(s("first"), s("GOWNER"), 20).unwrap();
    let r = c.get_equipment(s("first")).unwrap();
    assert_eq!(r.status, EquipmentStatus::Returned);
    assert_eq!(r.updated_at, 20);
    assert_eq!(c.retire_equipment(s("first"), s("GSTRANGER"), 30), Err(EquipmentItemError::Unauthorized));
    c.retire_equipment(s("first"), s("GOWNER"), 30).unwrap();
    assert_eq!(c.get_equipment(s("first")).unwrap().status, EquipmentStatus::Retired);
}

#[test]
fn equipment_closed_is_final() {
    let mut c = created();
    c.retire_equipment(s("first"), s("GOWNER"), 30).unwrap();
    assert_eq!(c.checkout_equipment(s("first"), s("GA"), 40), Err(EquipmentItemError::Closed));
    assert_eq!(c.return_equipment(s("first"), s("GOWNER"), 40), Err(EquipmentItemError::Closed));
    assert_eq!(c.retire_equipment(s("first"), s("GOWNER"), 40), Err(EquipmentItemError::Closed));
    let r = c.get_equipment(s("first")).unwrap();
    assert_eq!(r.status, EquipmentStatus::Retired);
    assert_eq!(r.updated_at, 30);
    assert_eq!(r.checkout_count, 0);
}

#[test]
fn equipment_error_codes() {
    assert_eq!(EquipmentItemError::InvalidTitle.code(), 1);
    assert_eq!(EquipmentItemError::AlreadyActed.code(), 6);
    assert_eq!(EquipmentItemError::Closed.code(), 7);
}

#[test]
fn equipment_storage_round_trip() {
    let mut c = created();
    c.create_equipment(s("second"), s("GOWNER"), s("Other"), s(""), s("tag"), 11).unwrap();
    c.checkout_equipment(s("first"), s("GA"), 20).unwrap();
    c.checkout_equipment(s("second"), s("GA"), 21).unwrap();
    c.checkout_equipment(s("second"), s("GB"), 22).unwrap();
    let ids = c.list_equipments();
    let records: Vec<_> = ids.iter().map(|id| c.get_equipment(id.clone()).unwrap()).collect();
    let acted = c.acted_pairs();
    assert_eq!(acted.len(), 3);
    let back = EquipmentCheckoutContract::from_storage(ids.clone(), records.clone(), acted.clone()).unwrap();
    assert_eq!(back.list_equipments(), ids);
    assert_eq!(back.get_checkout_count(s("second")), 2);
    assert_eq!(back.acted_pairs(), acted);
    let mut back = back;
    assert_eq!(back.checkout_equipment(s("second"), s("GB"), 23), Err(EquipmentItemError::AlreadyActed));
}

#[test]
fn equipment_storage_rejects_inconsistent_parts() {
    let mut c = created();
    c.checkout_equipment(s("first"), s("GA"), 20).unwrap();
    let ids = c.list_equipments();
    let records: Vec<_> = ids.iter().map(|id| c.get_equipment(id.clone()).unwrap()).collect();
    let acted = c.acted_pairs();
    assert!(EquipmentCheckoutContract::from_storage(ids.clone(), records.clone(), Vec::new()).is_none());
    let mut twice = acted.clone();
    twice.push(acted[0].clone());
    assert!(EquipmentCheckoutContract::from_storage(ids.clone(), records.clone(), twice).is_none());
    let mut stray = acted.clone();
    stray.push((s("ghost"), s("GA")));
    assert!(EquipmentCheckoutContract::from_storage(ids.clone(), records.clone(), stray).is_none());
    let mut dup_ids = ids.clone();
    dup_ids.push(ids[0].clone());
    let mut dup_records = records.clone();
    dup_records.push(records[0].clone());
    assert!(EquipmentCheckoutContract::from_storage(dup_ids, dup_records, acted.clone()).is_none());
    assert!(EquipmentCheckoutContract::from_storage(ids, Vec::new(), acted).is_none());
}
