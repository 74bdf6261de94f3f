use record_contracts::lost_and_found::{ItemStatus, LostAndFoundContract, LostFoundError};

fn s(text: &str) -> String {
    text.to_string()
}

fn reported() -> LostAndFoundContract {
    let mut c = LostAndFoundContract::new();
    c.report_item(s("i1"), s("GREP"), s("Wallet"), s("Brown"), s("personal"), 10).unwrap();
    c
}

#[test]
fn lost_report_then_get() {
    let c = reported();
    let i = c.get_item(s("i1")).unwrap();
    assert_eq!(i.reporter, "GREP");
    assert_eq!(i.claimant, "GREP");
    assert_eq!(i.name, "Wallet");
    assert_eq!(i.description, "Brown");
    assert_eq!(i.category, "personal");
    assert_eq!(i.status, ItemStatus::Open);
    assert!(!i.is_claimed);
    assert_eq!(i.created_at, 10);
    assert_eq!(i.resolved_at, 0);
    assert_eq!(c.get_open_count(), 1);
    assert_eq!(c.list_items(), vec![s("i1")]);
}

#[test]
fn lost_report_errors() {
    let mut c = reported();
    assert_eq!(c.report_item(s("i2"), s("G"), s(""), s("d"), s("c"), 1), Err(LostFoundError::InvalidName));
    assert_eq!(c.report_item(s("i2"), s("G"), s("N"), s("d"), s("c"), 0), Err(LostFoundError::InvalidTimestamp));
    assert_eq!(c.report_item(s("i1"), s("G"), s("N"), s("d"), s("c"), 1), Err(LostFoundError::AlreadyExists));
    assert_eq!(c.get_open_count(), 1);
}

#[test]
fn lost_claim_and_resolve() {
    let mut c = reported();
    c.report_item(s("i2"), s("GREP"), s("Keys"), s(""), s("personal"), 11).unwrap();
    assert_eq!(c.get_open_count(), 2);
    c.claim_item(s("i1"), s("GFINDER")).unwrap();
    assert_eq!(c.claim_item(s("i1"), s("GOTHER")), Err(LostFoundError::AlreadyClaimed));
    let i = c.get_item(s("i1")).unwrap();
    assert_eq!(i.claimant, "GFINDER");
    assert!(i.is_claimed);
    assert_eq!(i.status, ItemStatus::Claimed);
    assert_eq!(c.get_open_count(), 2);
    assert_eq!(c.mark_resolved(s("i1"), s("GFINDER"), 50), Err(LostFoundError::Unauthorized));
    c.mark_resolved(s("i1"), s("GREP"), 50).unwrap();
    assert_eq!(c.get_open_count(), 1);
    let i = c.get_item(s("i1")).unwrap();
    assert_eq!(i.status, ItemStatus::Resolved);
    assert_eq!(i.resolved_at, 50);
    c.mark_resolved(s("i2"), s("GREP"), 60).unwrap();
    assert_eq!(c.get_open_count(), 0);
}

#[test]
fn lost_resolved_is_final() {
    let mut c = reported();
    c.mark_resolved(s("i1"), s("GREP"), 5).unwrap();
    assert_eq!(c.claim_item(s("i1"), s("GX")), Err(LostFoundError::AlreadyResolved));
    assert_eq!(c.mark_resolved(s("i1"), s("GREP"), 6), Err(LostFoundError::AlreadyResolved));
    assert_eq!(c.get_open_count(), 0);
    assert_eq!(c.claim_item(s("none"), s("GX")), Err(LostFoundError::NotFound));
    assert_eq!(c.mark_resolved(s("none"), s("GREP"), 6), Err(LostFoundError::NotFound));
    assert_eq!(LostFoundError::AlreadyResolved.code(), 7);
}

#[test]
fn lost_storage_round_trip() {
    let mut c = reported();
    c.report_item(s("i2"), s("GREP"), s("Keys"), s(""), s("personal"), 11).unwrap();
    c.claim_item(s("i2"), s("GFIND")).unwrap();
    c.mark_resolved(s("i1"), s("GREP"), 20).unwrap();
    let ids = c.list_items();
    let items: Vec<_> = ids.iter().map(|id| c.get_item(id.clone()).unwrap()).collect();
    let back = LostAndFoundContract::from_storage(ids.clone(), items.clone(), 1).unwrap();
    assert_eq!(back.get_open_count(), 1);
    assert_eq!(back.get_item(s("i2")).unwrap().claimant, "GFIND");
    assert!(LostAndFoundContract::from_storage(ids.clone(), items.clone(), 2).is_none());
    let mut odd = items.clone();
    odd[1].is_claimed = false;
    assert!(LostAndFoundContract::from_storage(ids, odd, 1).is_none());
}

#[test]
fn lost_claimed_item_never_open_again() {
    let mut c = reported();
    c.claim_item(s("i1"), s("GFIND")).unwrap();
    let claimed = c.get_item(s("i1")).unwrap();
    assert!(claimed.is_claimed);
    assert_eq!(claimed.status, ItemStatus::Claimed);
    c.mark_resolved(s("i1"), s("GREP"), 30).unwrap();
    let resolved = c.get_item(s("i1")).unwrap();
    assert!(resolved.is_claimed);
    assert_eq!(resolved.status, ItemStatus::Resolved);
    let ids = c.list_items();
    let mut items: Vec<_> = ids.iter().map(|id| c.get_item(id.clone()).unwrap()).collect();
    items[0].status = ItemStatus::Open;
    assert!(LostAndFoundContract::from_storage(ids, items, 1).is_none());
}
