use riskytrees::database::{
    dedup_first_occurrence, external_child_refs, get_nodes_from_tree, get_tree_by_id,
    get_tree_relationships_down, materialize_tree, Tenant, TreeStore,
};
use riskytrees::errors::DatabaseError;
use riskytrees::models::{
    ApiGetNodeResponseResult, ApiProjectConfigResponseResult, ConfigValue, RawNodeRecord,
    RawTreeRecord,
};

fn tenant() -> Tenant {
    Tenant { name: "tenant-a".to_owned() }
}

fn node(id: &str, condition: Option<&str>, children: Vec<&str>) -> RawNodeRecord {
    RawNodeRecord {
        id: id.to_owned(),
        title: format!("title of {}", id),
        description: "a node".to_owned(),
        conditionAttribute: condition.map(|c| c.to_owned()),
        children: Some(children.into_iter().map(|c| c.to_owned()).collect()),
        modelAttributes: None,
    }
}

/// One tree whose nodes reference only each other; configuration
/// lookups always fail.
struct SingleTreeStore;

impl TreeStore for SingleTreeStore {
    fn get_tree_record(
        &self,
        _tenant: &Tenant,
        tree_id: &String,
    ) -> Result<RawTreeRecord, DatabaseError> {
        if tree_id == "tree1" {
            Ok(RawTreeRecord {
                title: "Tree one".to_owned(),
                rootNodeId: "n1".to_owned(),
                nodes: Some(vec![node("n1", None, vec!["n2"]), node("n2", None, vec![])]),
            })
        } else {
            Err(DatabaseError { message: "Couldn't find tree".to_owned() })
        }
    }

    fn get_selected_config(
        &self,
        _tenant: &Tenant,
        _project_id: &String,
    ) -> Result<ApiProjectConfigResponseResult, DatabaseError> {
        Err(DatabaseError { message: "No config".to_owned() })
    }

    fn get_tree_from_node_id(
        &self,
        _tenant: &Tenant,
        _node_id: &String,
    ) -> Result<ApiGetNodeResponseResult, DatabaseError> {
        Err(DatabaseError { message: "No matching node".to_owned() })
    }
}

/// Two trees that reference each other through their nodes: treeA owns
/// nodeA (whose child is nodeB), treeB owns nodeB (whose child is
/// nodeA).
struct CycleStore;

impl TreeStore for CycleStore {
    fn get_tree_record(
        &self,
        _tenant: &Tenant,
        tree_id: &String,
    ) -> Result<RawTreeRecord, DatabaseError> {
        if tree_id == "treeA" {
            Ok(RawTreeRecord {
                title: "Tree A".to_owned(),
                rootNodeId: "nodeA".to_owned(),
                nodes: Some(vec![node("nodeA", None, vec!["nodeB"])]),
            })
        } else if tree_id == "treeB" {
            Ok(RawTreeRecord {
                title: "Tree B".to_owned(),
                rootNodeId: "nodeB".to_owned(),
                nodes: Some(vec![node("nodeB", None, vec!["nodeA"])]),
            })
        } else {
            Err(DatabaseError { message: "Couldn't find tree".to_owned() })
        }
    }

    fn get_selected_config(
        &self,
        _tenant: &Tenant,
        _project_id: &String,
    ) -> Result<ApiProjectConfigResponseResult, DatabaseError> {
        Err(DatabaseError { message: "No config".to_owned() })
    }

    fn get_tree_from_node_id(
        &self,
        _tenant: &Tenant,
        node_id: &String,
    ) -> Result<ApiGetNodeResponseResult, DatabaseError> {
        if node_id == "nodeA" {
            Ok(ApiGetNodeResponseResult { treeId: "treeA".to_owned() })
        } else if node_id == "nodeB" {
            Ok(ApiGetNodeResponseResult { treeId: "treeB".to_owned() })
        } else {
            Err(DatabaseError { message: "No matching node".to_owned() })
        }
    }
}

/// A tree with one unconditioned and one conditioned node; the
/// configuration lookup outcome is chosen by the flag.
struct ConditionStore {
    config_available: bool,
}

impl TreeStore for ConditionStore {
    fn get_tree_record(
        &self,
        _tenant: &Tenant,
        tree_id: &String,
    ) -> Result<RawTreeRecord, DatabaseError> {
        if tree_id == "tree1" {
            Ok(RawTreeRecord {
                title: "Conditional tree".to_owned(),
                rootNodeId: "plain".to_owned(),
                nodes: Some(vec![
                    node("plain", None, vec![]),
                    node("empty", Some(""), vec![]),
                    node("gated", Some("config[\"hello\"] == \"world\""), vec![]),
                ]),
            })
        } else {
            Err(DatabaseError { message: "Couldn't find tree".to_owned() })
        }
    }

    fn get_selected_config(
        &self,
        _tenant: &Tenant,
        _project_id: &String,
    ) -> Result<ApiProjectConfigResponseResult, DatabaseError> {
        if self.config_available {
            Ok(ApiProjectConfigResponseResult {
                id: "cfg1".to_owned(),
                name: None,
                attributes: ConfigValue::Object(vec![(
                    "hello".to_owned(),
                    ConfigValue::Text("world".to_owned()),
                )]),
            })
        } else {
            Err(DatabaseError { message: "No config".to_owned() })
        }
    }

    fn get_tree_from_node_id(
        &self,
        _tenant: &Tenant,
        _node_id: &String,
    ) -> Result<ApiGetNodeResponseResult, DatabaseError> {
        Err(DatabaseError { message: "No matching node".to_owned() })
    }
}

/// One tree whose single node references two nodes that both belong
/// to the same other tree.
struct SharedOwnerStore;

impl TreeStore for SharedOwnerStore {
    fn get_tree_record(
        &self,
        _tenant: &Tenant,
        tree_id: &String,
    ) -> Result<RawTreeRecord, DatabaseError> {
        if tree_id == "tree1" {
            Ok(RawTreeRecord {
                title: "Referrer".to_owned(),
                rootNodeId: "n1".to_owned(),
                nodes: Some(vec![node("n1", None, vec!["x1", "x2"])]),
            })
        } else if tree_id == "tree2" {
            Ok(RawTreeRecord {
                title: "Shared owner".to_owned(),
                rootNodeId: "x1".to_owned(),
                nodes: Some(vec![node("x1", None, vec![]), node("x2", None, vec![])]),
            })
        } else {
            Err(DatabaseError { message: "Couldn't find tree".to_owned() })
        }
    }

    fn get_selected_config(
        &self,
        _tenant: &Tenant,
        _project_id: &String,
    ) -> Result<ApiProjectConfigResponseResult, DatabaseError> {
        Err(DatabaseError { message: "No config".to_owned() })
    }

    fn get_tree_from_node_id(
        &self,
        _tenant: &Tenant,
        node_id: &String,
    ) -> Result<ApiGetNodeResponseResult, DatabaseError> {
        if node_id == "x1" || node_id == "x2" {
            Ok(ApiGetNodeResponseResult { treeId: "tree2".to_owned() })
        } else {
            Err(DatabaseError { message: "No matching node".to_owned() })
        }
    }
}

#[test]
fn test_shared_owner_appears_once() {
    // Two external references resolve to the same owning tree: it
    // contributes a single child item.
    let store = SharedOwnerStore;
    let result = get_tree_relationships_down(
        &store,
        &tenant(),
        &"tree1".to_owned(),
        &"proj1".to_owned(),
        Vec::new(),
        10,
    );
    assert_eq!(result.len(), 1);
    assert_eq!(result[0].id, "tree2");
    assert_eq!(result[0].title, "Shared owner");
    assert_eq!(result[0].children.len(), 0);
}

#[test]
fn test_dedup_first_occurrence_keeps_order() {
    let ids = vec![
        "b".to_owned(),
        "a".to_owned(),
        "b".to_owned(),
        "c".to_owned(),
        "a".to_owned(),
    ];
    assert_eq!(
        dedup_first_occurrence(&ids),
        vec!["b".to_owned(), "a".to_owned(), "c".to_owned()]
    );
    assert_eq!(dedup_first_occurrence(&Vec::new()).len(), 0);
}

#[test]
fn test_materialize_tree_carries_record_over() {
    let store = ConditionStore { config_available: true };
    let raw = RawTreeRecord {
        title: "Direct".to_owned(),
        rootNodeId: "a".to_owned(),
        nodes: Some(vec![
            node("a", None, vec!["b"]),
            node("b", Some("config[\"hello\"] == \"world\""), vec![]),
        ]),
    };
    let out = materialize_tree(&store, &tenant(), &"proj1".to_owned(), &raw);
    assert_eq!(out.title, "Direct");
    assert_eq!(out.rootNodeId, "a");
    assert_eq!(out.nodes.len(), 2);
    assert_eq!(out.nodes[0].id, "a");
    assert_eq!(out.nodes[0].children, vec!["b".to_owned()]);
    assert_eq!(out.nodes[0].conditionResolved, true);
    assert_eq!(out.nodes[1].id, "b");
    assert_eq!(out.nodes[1].conditionResolved, true);

    // A record with no nodes array materializes to no nodes.
    let bare = RawTreeRecord {
        title: "Bare".to_owned(),
        rootNodeId: "".to_owned(),
        nodes: None,
    };
    let out_bare = materialize_tree(&store, &tenant(), &"proj1".to_owned(), &bare);
    assert_eq!(out_bare.nodes.len(), 0);
}

#[test]
fn test_single_tree_dag_is_empty() {
    let store = SingleTreeStore;
    let result = get_tree_relationships_down(
        &store,
        &tenant(),
        &"tree1".to_owned(),
        &"proj1".to_owned(),
        Vec::new(),
        10,
    );
    assert_eq!(result.len(), 0);
}

#[test]
fn test_two_tree_cycle_terminates() {
    let store = CycleStore;
    let result = get_tree_relationships_down(
        &store,
        &tenant(),
        &"treeA".to_owned(),
        &"proj1".to_owned(),
        Vec::new(),
        10,
    );
    // treeA's only external reference leads to treeB; below treeB the
    // reference back to treeA is listed but not expanded again.
    assert_eq!(result.len(), 1);
    assert_eq!(result[0].id, "treeB");
    assert_eq!(result[0].title, "Tree B");
    assert_eq!(result[0].children.len(), 1);
    assert_eq!(result[0].children[0].id, "treeA");
    assert_eq!(result[0].children[0].children.len(), 0);
}

#[test]
fn test_external_child_refs_order_and_dedup() {
    let store = CycleStore;
    let nodes = get_nodes_from_tree(&store, &tenant(), &"treeA".to_owned(), &"proj1".to_owned());
    let refs = external_child_refs(&nodes);
    assert_eq!(refs, vec!["nodeB".to_owned()]);

    let own_nodes =
        get_nodes_from_tree(&store, &tenant(), &"treeB".to_owned(), &"proj1".to_owned());
    let refs_b = external_child_refs(&own_nodes);
    assert_eq!(refs_b, vec!["nodeA".to_owned()]);
}

#[test]
fn test_materialize_empty_condition_with_failing_config() {
    let store = ConditionStore { config_available: false };
    let tree =
        get_tree_by_id(&store, &tenant(), &"tree1".to_owned(), &"proj1".to_owned()).unwrap();
    assert_eq!(tree.title, "Conditional tree");
    assert_eq!(tree.rootNodeId, "plain");
    assert_eq!(tree.nodes.len(), 3);
    // No condition and an empty condition both resolve to visible,
    // even though every configuration lookup fails...
    assert_eq!(tree.nodes[0].conditionResolved, true);
    assert_eq!(tree.nodes[1].conditionResolved, true);
    // ...while the gated node fails closed.
    assert_eq!(tree.nodes[2].conditionResolved, false);
}

#[test]
fn test_materialize_with_config() {
    let store = ConditionStore { config_available: true };
    let tree =
        get_tree_by_id(&store, &tenant(), &"tree1".to_owned(), &"proj1".to_owned()).unwrap();
    assert_eq!(tree.nodes[2].conditionAttribute, "config[\"hello\"] == \"world\"");
    assert_eq!(tree.nodes[2].conditionResolved, true);
}

#[test]
fn test_missing_tree_is_an_error() {
    let store = SingleTreeStore;
    let result = get_tree_by_id(&store, &tenant(), &"ghost".to_owned(), &"proj1".to_owned());
    assert!(result.is_err());
    // A missing tree contributes no nodes when asked leniently.
    let nodes = get_nodes_from_tree(&store, &tenant(), &"ghost".to_owned(), &"proj1".to_owned());
    assert_eq!(nodes.len(), 0);
}
