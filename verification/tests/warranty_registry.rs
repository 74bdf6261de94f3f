use record_contracts::warranty_registry::{WarrantyError, WarrantyRegistryContract, WarrantyStatus};

fn s(text: &str) -> String {
    text.to_string()
}

fn registered() -> WarrantyRegistryContract {
    let mut c = WarrantyRegistryContract::new();
    c.register_warranty(s("w1"), s("GOWNER"), s("GPROV"), s("Laptop"), s("SN1"), 10, 20).unwrap();
    c
}

#[test]
fn warranty_register_then_get() {
    let c = registered();
    let w = c.get_warranty(s("w1")).unwrap();
    assert_eq!(w.owner, "GOWNER");
    assert_eq!(w.provider, "GPROV");
    assert_eq!(w.product_name, "Laptop");
    assert_eq!(w.serial_number, "SN1");
    assert_eq!(w.status, WarrantyStatus::Active);
    assert_eq!(w.claim_note, "");
    assert_eq!(w.claim_count, 0);
    assert_eq!(w.purchased_at, 10);
    assert_eq!(w.expires_at, 20);
    assert_eq!(c.get_warranty_count(), 1);
    assert_eq!(c.list_warranties(), vec![s("w1")]);
}

#[test]
fn warranty_register_errors() {
    let mut c = registered();
    assert_eq!(c.register_warranty(s("w2"), s("GO"), s("GP"), s(""), s("S"), 1, 2), Err(WarrantyError::InvalidName));
    assert_eq!(c.register_warranty(s("w2"), s("GO"), s("GP"), s("P"), s("S"), 0, 2), Err(WarrantyError::InvalidTimestamp));
    assert_eq!(c.register_warranty(s("w2"), s("GO"), s("GP"), s("P"), s("S"), 1, 0), Err(WarrantyError::InvalidTimestamp));
    assert_eq!(c.register_warranty(s("w1"), s("GO"), s("GP"), s("P"), s("S"), 1, 2), Err(WarrantyError::AlreadyExists));
    assert_eq!(c.get_warranty_count(), 1);
}

#[test]
fn warranty_claim_cycle() {
    let mut c = registered();
    assert_eq!(c.close_claim(s("w1"), s("GPROV")), Err(WarrantyError::ClaimNotOpen));
    c.file_claim(s("w1"), s("GOWNER"), s("broken screen")).unwrap();
    assert_eq!(c.file_claim(s("w1"), s("GOWNER"), s("again")), Err(WarrantyError::ClaimAlreadyOpen));
    let w = c.get_warranty(s("w1")).unwrap();
    assert_eq!(w.status, WarrantyStatus::ClaimOpen);
    assert_eq!(w.claim_note, "broken screen");
    assert_eq!(w.claim_count, 1);
    assert_eq!(c.close_claim(s("w1"), s("GOWNER")), Err(WarrantyError::Unauthorized));
    c.close_claim(s("w1"), s("GPROV")).unwrap();
    c.file_claim(s("w1"), s("GOWNER"), s("battery")).unwrap();
    let w = c.get_warranty(s("w1")).unwrap();
    assert_eq!(w.claim_count, 2);
    assert_eq!(w.claim_note, "battery");
}

#[test]
fn warranty_transfer_moves_rights() {
    let mut c = registered();
    assert_eq!(c.transfer_warranty(s("w1"), s("GNEW"), s("GX")), Err(WarrantyError::Unauthorized));
    assert_eq!(c.transfer_warranty(s("none"), s("GOWNER"), s("GX")), Err(WarrantyError::NotFound));
    c.transfer_warranty(s("w1"), s("GOWNER"), s("GNEW")).unwrap();
    assert_eq!(c.get_warranty(s("w1")).unwrap().owner, "GNEW");
    assert_eq!(c.file_claim(s("w1"), s("GOWNER"), s("note")), Err(WarrantyError::Unauthorized));
    c.file_claim(s("w1"), s("GNEW"), s("note")).unwrap();
}

#[test]
fn warranty_call_errors() {
    let mut c = registered();
    assert_eq!(c.file_claim(s("w1"), s("GOWNER"), s("")), Err(WarrantyError::InvalidClaim));
    assert_eq!(c.file_claim(s("none"), s("GOWNER"), s("n")), Err(WarrantyError::NotFound));
    assert_eq!(c.close_claim(s("none"), s("GPROV")), Err(WarrantyError::NotFound));
    assert_eq!(WarrantyError::ClaimAlreadyOpen.code(), 8);
    assert_eq!(WarrantyError::InvalidClaim.code(), 2);
}

#[test]
fn warranty_storage_round_trip() {
    let mut c = registered();
    c.file_claim(s("w1"), s("GOWNER"), s("note")).unwrap();
    let ids = c.list_warranties();
    let ws: Vec<_> = ids.iter().map(|id| c.get_warranty(id.clone()).unwrap()).collect();
    let back = WarrantyRegistryContract::from_storage(ids.clone(), ws.clone(), 1).unwrap();
    assert_eq!(back.get_warranty(s("w1")).unwrap().claim_note, "note");
    assert_eq!(back.get_warranty_count(), 1);
    assert!(WarrantyRegistryContract::from_storage(ids, ws, 2).is_none());
}
