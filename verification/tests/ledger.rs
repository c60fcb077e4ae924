use riskytrees::database::Tenant;
use riskytrees::helpers::tenant_names_from_vec;
use riskytrees::history::HistoryLedger;
use riskytrees::models::{model_attribute_from_record, ApiFullTreeData};

fn payload(title: &str) -> ApiFullTreeData {
    ApiFullTreeData {
        title: title.to_owned(),
        rootNodeId: "root".to_owned(),
        nodes: Vec::new(),
    }
}

#[test]
fn test_history_versions_count_up() {
    let mut ledger = HistoryLedger::new();
    let id = "tree1".to_owned();
    ledger.record_tree_update(&id, payload("v1"));
    ledger.record_tree_update(&id, payload("v2"));
    ledger.record_tree_update(&id, payload("v3"));

    let entries = ledger.list_history(&id);
    assert_eq!(entries.len(), 3);
    for (i, entry) in entries.iter().enumerate() {
        assert_eq!(entry.record_id, "tree1");
        assert_eq!(entry.version_number, (i + 1) as u32);
    }
    assert_eq!(entries[0].data.title, "v1");
    assert_eq!(entries[2].data.title, "v3");
}

#[test]
fn test_undo_after_single_record_is_nothing() {
    let mut ledger = HistoryLedger::new();
    let id = "tree1".to_owned();
    ledger.record_tree_update(&id, payload("v1"));

    assert!(ledger.move_back_tree_update(&id).is_none());
    // The lone entry is untouched.
    assert_eq!(ledger.list_history(&id).len(), 1);
}

#[test]
fn test_undo_after_two_records_returns_first() {
    let mut ledger = HistoryLedger::new();
    let id = "tree1".to_owned();
    ledger.record_tree_update(&id, payload("v1"));
    ledger.record_tree_update(&id, payload("v2"));

    let undone = ledger.move_back_tree_update(&id).unwrap();
    assert_eq!(undone.title, "v1");

    let left = ledger.list_history(&id);
    assert_eq!(left.len(), 1);
    assert_eq!(left[0].version_number, 1);
    assert_eq!(left[0].data.title, "v1");
}

#[test]
fn test_undo_on_empty_ledger_is_nothing() {
    let mut ledger = HistoryLedger::new();
    assert!(ledger.move_back_tree_update(&"absent".to_owned()).is_none());
}

#[test]
fn test_history_entities_are_independent() {
    let mut ledger = HistoryLedger::new();
    let a = "treeA".to_owned();
    let b = "treeB".to_owned();
    ledger.record_tree_update(&a, payload("a1"));
    ledger.record_tree_update(&b, payload("b1"));
    ledger.record_tree_update(&a, payload("a2"));

    // Versions count per entity, not globally.
    let hist_a = ledger.list_history(&a);
    assert_eq!(hist_a.len(), 2);
    assert_eq!(hist_a[1].version_number, 2);
    let hist_b = ledger.list_history(&b);
    assert_eq!(hist_b.len(), 1);
    assert_eq!(hist_b[0].version_number, 1);

    // Undoing one entity leaves the other alone.
    let undone = ledger.move_back_tree_update(&a).unwrap();
    assert_eq!(undone.title, "a1");
    assert_eq!(ledger.list_history(&a).len(), 1);
    assert_eq!(ledger.list_history(&b).len(), 1);
}

#[test]
fn test_model_attribute_shapes() {
    // Exactly one populated slot is accepted and kept as given.
    let ok = model_attribute_from_record(Some("x".to_owned()), None, None).unwrap();
    assert_eq!(ok.value_string.as_deref(), Some("x"));
    assert!(model_attribute_from_record(None, Some(3), None).is_ok());
    assert!(model_attribute_from_record(None, None, Some(1u64)).is_ok());

    // An absent or ambiguous stored shape is rejected with an error.
    assert!(model_attribute_from_record(None, None, None).is_err());
    assert!(model_attribute_from_record(Some("x".to_owned()), Some(3), None).is_err());
}

#[test]
fn test_tenant_names_from_vec() {
    let tenants = vec![
        Tenant { name: "one".to_owned() },
        Tenant { name: "two".to_owned() },
    ];
    assert_eq!(tenant_names_from_vec(tenants), vec!["one".to_owned(), "two".to_owned()]);
}
