use record_contracts::expense_splitter::{ExpenseSplitterContract, ExpenseGroupError, ExpenseGroupStatus};

fn s(text: &str) -> String {
    text.to_string()
}

fn created() -> ExpenseSplitterContract {
    let mut c = ExpenseSplitterContract::new();
    c.create_group(s("first"), s("GOWNER"), s("Title"), s("Details"), s("tag"), 10).unwrap();
    c
}

#[test]
fn expense_create_then_get() {
    let c = created();
    let r = c.get_group(s("first")).unwrap();
    assert_eq!(r.owner, "GOWNER");
    assert_eq!(r.contributor, "GOWNER");
    assert_eq!(r.title, "Title");
    assert_eq!(r.details, "Details");
    assert_eq!(r.tag, "tag");
    assert_eq!(r.status, ExpenseGroupStatus::Open);
    assert_eq!(r.expense_count, 0);
    assert_eq!(r.created_at, 10);
    assert_eq!(r.updated_at, 10);
    assert_eq!(c.list_groups(), vec![s("first")]);
    assert!(c.get_group(s("other")).is_none());
    assert_eq!(c.get_expense_count(s("other")), 0);
}

#[test]
fn expense_create_errors() {
    let mut c = created();
    assert_eq!(c.create_group(s("second"), s("GOWNER"), s(""), s("d"), s("t"), 10), Err(ExpenseGroupError::InvalidTitle));
    assert_eq!(c.create_group(s("second"), s("GOWNER"), s("T"), s("d"), s("t"), 0), Err(ExpenseGroupError::InvalidTimestamp));
    assert_eq!(c.create_group(s("first"), s("GOTHER"), s("T"), s("d"), s("t"), 10), Err(ExpenseGroupError::AlreadyExists));
    assert_eq!(c.list_groups(), vec![s("first")]);
}

#[test]
fn expense_each_account_acts_once() {
    let mut c = created();
    c.add_expense(s("first"), s("GA"), 20).unwrap();
    c.add_expense(s("first"), s("GB"), 30).unwrap();
    assert_eq!(c.add_expense(s("first"), s("GA"), 40), Err(ExpenseGroupError::AlreadyActed));
    let r = c.get_group(s("first")).unwrap();
    assert_eq!(r.contributor, "GB");
    assert_eq!(r.expense_count, 2);
    assert_eq!(r.status, ExpenseGroupStatus::Active);
    assert_eq!(r.updated_at, 30);
    assert_eq!(c.get_expense_count(s("first")), 2);
    assert_eq!(c.add_expense(s("missing"), s("GA"), 40), Err(ExpenseGroupError::NotFound));
}

#[test]
fn expense_owner_moves_status() {
    let mut c = created();
    assert_eq!(c.settle_group(s("first"), s("GSTRANGER"), 20), Err(ExpenseGroupError::Unauthorized));
    assert_eq!(c.settle_group(s("missing"), s("GOWNER"), 20), Err(ExpenseGroupError::NotFound));
    c.settle_group(s("first"), s("GOWNER"), 20).unwrap();
    let r = c.get_group(s("first")).unwrap();
    assert_eq!(r.status, ExpenseGroupStatus::Settled);
    assert_eq!(r.updated_at, 20);
    assert_eq!(c.close_group(s("first"), s("GSTRANGER"), 30), Err(ExpenseGroupError::Unauthorized));
    c.close_group(s("first"), s("GOWNER"), 30).unwrap();
    assert_eq!(c.get_group(s("first")).unwrap().status, ExpenseGroupStatus::Closed);
}

#[test]
fn expense_closed_is_final() {
    let mut c = created();
    c.close_group(s("first"), s("GOWNER"), 30).unwrap();
    assert_eq!(c.add_expense(s("first"), s("GA"), 40), Err(ExpenseGroupError::Closed));
    assert_eq!(c.settle_group(s("first"), s("GOWNER"), 40), Err(ExpenseGroupError::Closed));
    assert_eq!(c.close_group(s("first"), s("GOWNER"), 40), Err(ExpenseGroupError::Closed));
    let r = c.get_group(s("first")).unwrap();
    assert_eq!(r.status, ExpenseGroupStatus::Closed);
    assert_eq!(r.updated_at, 30);
    assert_eq!(r.expense_count, 0);
}

#[test]
fn expense_error_codes() {
    assert_eq!(ExpenseGroupError::InvalidTitle.code(), 1);
    assert_eq!(ExpenseGroupError::AlreadyActed.code(), 6);
    assert_eq!(ExpenseGroupError::Closed.code(), 7);
}

#[test]
fn expense_storage_round_trip() {
    let mut c = created();
    c.create_group(s("second"), s("GOWNER"), s("Other"), s(""), s("tag"), 11).unwrap();
    c.add_expense(s("first"), s("GA"), 20).unwrap();
    c.add_expense(s("second"), s("GA"), 21).unwrap();
    c.add_expense(s("second"), s("GB"), 22).unwrap();
    let ids = c.list_groups();
    let records: Vec<_> = ids.iter().map(|id| c.get_group(id.clone()).unwrap()).collect();
    let acted = c.acted_pairs();
    assert_eq!(acted.len(), 3);
    let back = ExpenseSplitterContract::from_storage(ids.clone(), records.clone(), acted.clone()).unwrap();
    assert_eq!(back.list_groups(), ids);
    assert_eq!(back.get_expense_count(s("second")), 2);
    assert_eq!(back.acted_pairs(), acted);
    let mut back = back;
    assert_eq!(back.add_expense(s("second"), s("GB"), 23), Err(ExpenseGroupError::AlreadyActed));
}

#[test]
fn expense_storage_rejects_inconsistent_parts() {
    let mut c = created();
    c.add_expense(s("first"), s("GA"), 20).unwrap();
    let ids = c.list_groups();
    let records: Vec<_> = ids.iter().map(|id| c.get_group(id.clone()).unwrap()).collect();
    let acted = c.acted_pairs();
    assert!(ExpenseSplitterContract::from_storage(ids.clone(), records.clone(), Vec::new()).is_none());
    let mut twice = acted.clone();
    twice.push(acted[0].clone());
    assert!(ExpenseSplitterContract::from_storage(ids.clone(), records.clone(), twice).is_none());
    let mut stray = acted.clone();
    stray.push((s("ghost"), s("GA")));
    assert!(ExpenseSplitterContract::from_storage(ids.clone(), records.clone(), stray).is_none());
    let mut dup_ids = ids.clone();
    dup_ids.push(ids[0].clone());
    let mut dup_records = records.clone();
    dup_records.push(records[0].clone());
    assert!(ExpenseSplitterContract::from_storage(dup_ids, dup_records, acted.clone()).is_none());
    assert!(ExpenseSplitterContract::from_storage(ids, Vec::new(), acted).is_none());
}
