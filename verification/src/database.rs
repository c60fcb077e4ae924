//! The storage collaborator boundary and the computations built on it:
//! tree materialization and cross-tree DAG resolution.

use vstd::prelude::*;

use crate::errors::DatabaseError;
use crate::expression_evaluator::{condition_holds, evaluate};
use crate::helpers::{contains_name, has_name, lemma_has_name_iff_contains};
use crate::models::{
    clone_attribute_pairs, clone_string_vec, ApiFullComputedNodeData, ApiFullComputedTreeData,
    ApiGetNodeResponseResult, ApiProjectConfigResponseResult, ApiTreeDagItem, ModelAttribute,
    RawNodeRecord, RawTreeRecord,
};

verus! {

/// Isolation scope under which all entities are stored; opaque to the
/// engine beyond being threaded through collaborator calls.
#[derive(Debug, Clone, PartialEq)]
pub struct Tenant {
    pub name: String,
}

/// The persistence collaborator the engine computes against. An
/// implementation answers point lookups; the engine assumes nothing
/// about the answers beyond their types, and degrades gracefully when
/// a lookup fails.
pub trait TreeStore {
    /// The raw stored record of the tree with the given identifier.
    fn get_tree_record(&self, tenant: &Tenant, tree_id: &String) -> Result<
        RawTreeRecord,
        DatabaseError,
    >;

    /// The configuration currently selected for the project.
    fn get_selected_config(&self, tenant: &Tenant, project_id: &String) -> Result<
        ApiProjectConfigResponseResult,
        DatabaseError,
    >;

    /// The tree that owns the node with the given identifier.
    fn get_tree_from_node_id(&self, tenant: &Tenant, node_id: &String) -> Result<
        ApiGetNodeResponseResult,
        DatabaseError,
    >;
}

/// A stored node's condition; a missing condition field reads as the
/// empty, always-true condition.
pub open spec fn node_condition(n: RawNodeRecord) -> Seq<char> {
    match n.conditionAttribute {
        Some(c) => c@,
        None => Seq::empty(),
    }
}

/// A stored node's child references; a missing field reads as none.
pub open spec fn node_children(n: RawNodeRecord) -> Seq<String> {
    match n.children {
        Some(c) => c@,
        None => Seq::empty(),
    }
}

/// A stored node's attributes; a missing field reads as none.
pub open spec fn node_attributes(n: RawNodeRecord) -> Seq<(String, ModelAttribute)> {
    match n.modelAttributes {
        Some(a) => a@,
        None => Seq::empty(),
    }
}

/// A stored tree's nodes; a missing field reads as none.
pub open spec fn tree_nodes(t: RawTreeRecord) -> Seq<RawNodeRecord> {
    match t.nodes {
        Some(v) => v@,
        None => Seq::empty(),
    }
}

/// How a node's condition resolves against the configuration the
/// lookup produced: an empty condition is `true` without any lookup;
/// otherwise the condition is evaluated against the configuration, and
/// a failed lookup (`None`) resolves to `false`.
pub open spec fn node_condition_resolved(
    n: RawNodeRecord,
    config: Option<ApiProjectConfigResponseResult>,
) -> bool {
    if node_condition(n).len() == 0 {
        true
    } else {
        match config {
            Some(c) => condition_holds(node_condition(n), c.attributes),
            None => false,
        }
    }
}

/// The computed node a raw record materializes to under the given
/// configuration lookup outcome: the stored fields carried over,
/// missing optional fields defaulted to empty, and the condition
/// resolved per [`node_condition_resolved`].
pub open spec fn node_materialized(
    n: RawNodeRecord,
    config: Option<ApiProjectConfigResponseResult>,
    out: ApiFullComputedNodeData,
) -> bool {
    &&& out.id == n.id
    &&& out.title == n.title
    &&& out.description == n.description
    &&& out.conditionAttribute@ == node_condition(n)
    &&& out.children@ == node_children(n)
    &&& out.modelAttributes@ == node_attributes(n)
    &&& out.conditionResolved == node_condition_resolved(n, config)
}

/// The computed tree a raw record materializes to, node by node, where
/// `cfgs[i]` is the configuration lookup outcome seen for node `i`.
pub open spec fn tree_materialized(
    raw: RawTreeRecord,
    cfgs: Seq<Option<ApiProjectConfigResponseResult>>,
    out: ApiFullComputedTreeData,
) -> bool {
    &&& out.title == raw.title
    &&& out.rootNodeId == raw.rootNodeId
    &&& cfgs.len() == tree_nodes(raw).len()
    &&& out.nodes@.len() == tree_nodes(raw).len()
    &&& forall|i: int|
        0 <= i < out.nodes@.len() ==> node_materialized(
            tree_nodes(raw)[i],
            cfgs[i],
            #[trigger] out.nodes@[i],
        )
}

/// Whether a computed tree is the materialization of the given raw
/// record under some sequence of per-node configuration lookup
/// outcomes. The record fixes the title, root identifier, node count,
/// node order and every stored field; only the lookup outcomes, which
/// belong to the store, stay existential.
pub open spec fn materializes(raw: RawTreeRecord, out: ApiFullComputedTreeData) -> bool {
    exists|cfgs: Seq<Option<ApiProjectConfigResponseResult>>| tree_materialized(raw, cfgs, out)
}

/// Whether a computed tree is the faithful materialization of some
/// raw stored tree: what every tree this module serves satisfies.
pub open spec fn is_materialization(out: ApiFullComputedTreeData) -> bool {
    exists|raw: RawTreeRecord| materializes(raw, out)
}

/// Materializes one stored node against the outcome of a
/// configuration lookup.
pub fn materialize_node(n: &RawNodeRecord, config: &Option<ApiProjectConfigResponseResult>) -> (out:
    ApiFullComputedNodeData)
    ensures
        node_materialized(*n, *config, out),
{
    let condition_attribute: String = match &n.conditionAttribute {
        Some(c) => c.clone(),
        None => String::new(),
    };
    let condition_resolved: bool = if condition_attribute.unicode_len() == 0 {
        true
    } else {
        match config {
            Some(c) => evaluate(condition_attribute.as_str(), c),
            None => false,
        }
    };
    ApiFullComputedNodeData {
        id: n.id.clone(),
        title: n.title.clone(),
        description: n.description.clone(),
        modelAttributes: match &n.modelAttributes {
            Some(a) => clone_attribute_pairs(a),
            None => Vec::new(),
        },
        conditionAttribute: condition_attribute,
        children: match &n.children {
            Some(c) => clone_string_vec(c),
            None => Vec::new(),
        },
        conditionResolved: condition_resolved,
    }
}

/// Materializes a fetched tree record against the project's selected
/// configuration: every node's stored fields are carried over with
/// the defaulting rules, and the configuration is looked up only for
/// nodes that carry a non-empty condition, where a failed lookup
/// hides that node and nothing else. The record is already in hand,
/// so this step cannot fail.
pub fn materialize_tree<S: TreeStore>(
    store: &S,
    tenant: &Tenant,
    project_id: &String,
    raw: &RawTreeRecord,
) -> (out: ApiFullComputedTreeData)
    ensures
        materializes(*raw, out),
        forall|i: int|
            0 <= i < out.nodes@.len() && (#[trigger] out.nodes@[i]).conditionAttribute@.len() == 0
                ==> out.nodes@[i].conditionResolved,
{
    let empty_nodes: Vec<RawNodeRecord> = Vec::new();
    let nodes: &Vec<RawNodeRecord> = match &raw.nodes {
        Some(v) => v,
        None => &empty_nodes,
    };
    proof {
        assert(nodes@ =~= tree_nodes(*raw));
    }
    let mut nodes_vec: Vec<ApiFullComputedNodeData> = Vec::new();
    let ghost mut cfgs: Seq<Option<ApiProjectConfigResponseResult>> = Seq::empty();
    let mut i: usize = 0;
    while i < nodes.len()
        invariant
            i <= nodes@.len(),
            nodes@ == tree_nodes(*raw),
            cfgs.len() == i,
            nodes_vec@.len() == i,
            forall|k: int|
                0 <= k < i ==> node_materialized(
                    tree_nodes(*raw)[k],
                    cfgs[k],
                    #[trigger] nodes_vec@[k],
                ),
        decreases nodes@.len() - i,
    {
        let node = &nodes[i];
        let needs_config: bool = match &node.conditionAttribute {
            Some(c) => c.unicode_len() > 0,
            None => false,
        };
        let config: Option<ApiProjectConfigResponseResult> = if needs_config {
            match store.get_selected_config(tenant, project_id) {
                Ok(c) => Some(c),
                Err(_) => None,
            }
        } else {
            None
        };
        let computed = materialize_node(node, &config);
        nodes_vec.push(computed);
        proof {
            cfgs = cfgs.push(config);
        }
        i += 1;
    }
    let out = ApiFullComputedTreeData {
        title: raw.title.clone(),
        rootNodeId: raw.rootNodeId.clone(),
        nodes: nodes_vec,
    };
    proof {
        assert(tree_materialized(*raw, cfgs, out));
        assert(materializes(*raw, out));
    }
    out
}

/// Returns all the data contained in a single tree, with every node's
/// condition resolved against the project's selected configuration by
/// [`materialize_tree`]; per-node condition or configuration failures
/// never produce an error, only a failed tree fetch does.
pub fn get_tree_by_id<S: TreeStore>(
    store: &S,
    tenant: &Tenant,
    tree_id: &String,
    project_id: &String,
) -> (r: Result<ApiFullComputedTreeData, DatabaseError>)
    ensures
        r matches Ok(out) ==> is_materialization(out),
        r matches Ok(out) ==> forall|i: int|
            0 <= i < out.nodes@.len() && (#[trigger] out.nodes@[i]).conditionAttribute@.len() == 0
                ==> out.nodes@[i].conditionResolved,
{
    let raw = match store.get_tree_record(tenant, tree_id) {
        Ok(raw) => raw,
        Err(e) => {
            return Err(e);
        },
    };
    let out = materialize_tree(store, tenant, project_id, &raw);
    proof {
        assert(is_materialization(out));
    }
    Ok(out)
}

/// The computed nodes of a tree, or no nodes at all when the tree
/// cannot be served: a missing tree contributes nothing rather than
/// failing the caller.
pub fn get_nodes_from_tree<S: TreeStore>(
    store: &S,
    tenant: &Tenant,
    tree_id: &String,
    project_id: &String,
) -> (r: Vec<ApiFullComputedNodeData>)
    ensures
        r@.len() == 0 || exists|out: ApiFullComputedTreeData|
            #[trigger] is_materialization(out) && r@ == out.nodes@,
        forall|i: int|
            0 <= i < r@.len() && (#[trigger] r@[i]).conditionAttribute@.len() == 0 ==> r@[i]
                .conditionResolved,
{
    match get_tree_by_id(store, tenant, tree_id, project_id) {
        Ok(res) => {
            let ghost whole = res;
            let nodes = res.nodes;
            proof {
                assert(is_materialization(whole) && nodes@ == whole.nodes@);
            }
            nodes
        },
        Err(_) => Vec::new(),
    }
}

/// The identifiers of the nodes a tree owns.
pub open spec fn owned_ids(nodes: Seq<ApiFullComputedNodeData>) -> Set<Seq<char>> {
    Set::new(|id: Seq<char>| exists|i: int| 0 <= i < nodes.len() && nodes[i].id@ == id)
}

/// Every child reference made by the given nodes, in node order and,
/// within one node, in reference order.
pub open spec fn all_child_refs(nodes: Seq<ApiFullComputedNodeData>) -> Seq<Seq<char>>
    decreases nodes.len(),
{
    if nodes.len() == 0 {
        Seq::empty()
    } else {
        all_child_refs(nodes.drop_last()) + nodes.last().children@.map_values(|s: String| s@)
    }
}

/// The references that leave the owning set, each kept once, in the
/// order it was first discovered.
pub open spec fn external_refs_of(refs: Seq<Seq<char>>, owned: Set<Seq<char>>) -> Seq<Seq<char>>
    decreases refs.len(),
{
    if refs.len() == 0 {
        Seq::empty()
    } else {
        let rest = external_refs_of(refs.drop_last(), owned);
        let c = refs.last();
        if !owned.contains(c) && !rest.contains(c) {
            rest.push(c)
        } else {
            rest
        }
    }
}

/// The cross-tree edges of one tree: the child references of its
/// nodes that do not point at a node the tree itself owns, each once,
/// in first-discovery order.
pub open spec fn external_refs(nodes: Seq<ApiFullComputedNodeData>) -> Seq<Seq<char>> {
    external_refs_of(all_child_refs(nodes), owned_ids(nodes))
}

/// When every child reference of every node stays inside the given
/// set, so does every reference in the flattened reference list.
proof fn lemma_all_refs_in(nodes: Seq<ApiFullComputedNodeData>, owned: Set<Seq<char>>)
    requires
        forall|i: int, j: int|
            0 <= i < nodes.len() && 0 <= j < (#[trigger] nodes[i]).children@.len()
                ==> owned.contains((#[trigger] nodes[i].children@[j])@),
    ensures
        forall|m: int|
            0 <= m < all_child_refs(nodes).len() ==> owned.contains(
                #[trigger] all_child_refs(nodes)[m],
            ),
    decreases nodes.len(),
{
    if nodes.len() > 0 {
        let t = nodes.drop_last();
        lemma_all_refs_in(t, owned);
        let kids = nodes.last().children@.map_values(|s: String| s@);
        assert forall|m: int|
            0 <= m < all_child_refs(nodes).len() implies owned.contains(
            #[trigger] all_child_refs(nodes)[m],
        ) by {
            if m < all_child_refs(t).len() {
                assert(all_child_refs(nodes)[m] == all_child_refs(t)[m]);
            } else {
                let j = m - all_child_refs(t).len();
                assert(all_child_refs(nodes)[m] == kids[j]);
                assert(kids[j] == nodes[nodes.len() - 1].children@[j]@);
            }
        }
    }
}

/// A reference list that never leaves the owning set contributes no
/// cross-tree edges.
proof fn lemma_external_refs_of_none(refs: Seq<Seq<char>>, owned: Set<Seq<char>>)
    requires
        forall|m: int| 0 <= m < refs.len() ==> owned.contains(#[trigger] refs[m]),
    ensures
        external_refs_of(refs, owned).len() == 0,
    decreases refs.len(),
{
    if refs.len() > 0 {
        lemma_external_refs_of_none(refs.drop_last(), owned);
    }
}

/// A tree whose nodes reference only nodes the tree itself owns has no
/// cross-tree edges, so resolving its dependency graph finds no child
/// trees.
pub proof fn lemma_no_external_children(nodes: Seq<ApiFullComputedNodeData>)
    requires
        forall|i: int, j: int|
            0 <= i < nodes.len() && 0 <= j < (#[trigger] nodes[i]).children@.len()
                ==> owned_ids(nodes).contains((#[trigger] nodes[i].children@[j])@),
    ensures
        external_refs(nodes).len() == 0,
{
    lemma_all_refs_in(nodes, owned_ids(nodes));
    lemma_external_refs_of_none(all_child_refs(nodes), owned_ids(nodes));
}

/// Computes the cross-tree edges of the given nodes: the set of child
/// identifiers referenced by any node that are not identifiers of
/// nodes in the list, in the order they are first seen.
pub fn external_child_refs(nodes: &Vec<ApiFullComputedNodeData>) -> (r: Vec<String>)
    ensures
        r@.map_values(|s: String| s@) == external_refs(nodes@),
{
    let ghost os = owned_ids(nodes@);
    let mut owned: Vec<String> = Vec::new();
    let mut i: usize = 0;
    while i < nodes.len()
        invariant
            i <= nodes@.len(),
            owned@.len() == i,
            forall|k: int| 0 <= k < i ==> (#[trigger] owned@[k]) == nodes@[k].id,
        decreases nodes@.len() - i,
    {
        owned.push(nodes[i].id.clone());
        i += 1;
    }
    proof {
        assert forall|id: Seq<char>| has_name(owned@, id) == os.contains(id) by {
            if has_name(owned@, id) {
                let k = choose|k: int| 0 <= k < owned@.len() && owned@[k]@ == id;
                assert(nodes@[k].id@ == id);
                assert(os.contains(id));
            }
            if os.contains(id) {
                let k = choose|k: int| 0 <= k < nodes@.len() && nodes@[k].id@ == id;
                assert(owned@[k]@ == id);
                assert(has_name(owned@, id));
            }
        }
    }
    let mut result: Vec<String> = Vec::new();
    let mut i: usize = 0;
    proof {
        assert(nodes@.take(0) =~= Seq::<ApiFullComputedNodeData>::empty());
        assert(result@.map_values(|s: String| s@) =~= external_refs_of(
            all_child_refs(nodes@.take(0)),
            os,
        ));
    }
    while i < nodes.len()
        invariant
            i <= nodes@.len(),
            forall|id: Seq<char>| #[trigger] has_name(owned@, id) == os.contains(id),
            result@.map_values(|s: String| s@) == external_refs_of(
                all_child_refs(nodes@.take(i as int)),
                os,
            ),
        decreases nodes@.len() - i,
    {
        let node = &nodes[i];
        let ghost base = all_child_refs(nodes@.take(i as int));
        let ghost kids = node.children@.map_values(|s: String| s@);
        let mut j: usize = 0;
        proof {
            assert(base + kids.take(0) =~= base);
        }
        while j < node.children.len()
            invariant
                i < nodes@.len(),
                *node == nodes@[i as int],
                j <= node.children@.len(),
                kids == node.children@.map_values(|s: String| s@),
                forall|id: Seq<char>| #[trigger] has_name(owned@, id) == os.contains(id),
                result@.map_values(|s: String| s@) == external_refs_of(base + kids.take(j as int), os),
            decreases node.children@.len() - j,
        {
            let c = &node.children[j];
            let ghost processed = base + kids.take(j as int);
            proof {
                assert(kids[j as int] == c@);
                assert(base + kids.take(j as int + 1) =~= processed.push(c@));
                assert((processed.push(c@)).drop_last() =~= processed);
                assert((processed.push(c@)).last() == c@);
                lemma_has_name_iff_contains(result@, c@);
            }
            if !contains_name(&owned, c) && !contains_name(&result, c) {
                let ghost before = result@;
                result.push(c.clone());
                proof {
                    assert(result@ =~= before.push(*c));
                    assert(result@.map_values(|s: String| s@) =~= before.map_values(
                        |s: String| s@,
                    ).push(c@));
                }
            }
            proof {
                assert(result@.map_values(|s: String| s@) =~= external_refs_of(
                    base + kids.take(j as int + 1),
                    os,
                ));
            }
            j += 1;
        }
        proof {
            assert(kids.take(node.children@.len() as int) =~= kids);
            assert(nodes@.take(i as int + 1).drop_last() =~= nodes@.take(i as int));
            assert(nodes@.take(i as int + 1).last() == nodes@[i as int]);
            assert(all_child_refs(nodes@.take(i as int + 1)) =~= base + kids);
        }
        i += 1;
    }
    proof {
        assert(nodes@.take(nodes@.len() as int) =~= nodes@);
    }
    result
}

/// A list of identifiers with each kept at its first occurrence only.
pub open spec fn first_occurrences(ids: Seq<Seq<char>>) -> Seq<Seq<char>>
    decreases ids.len(),
{
    if ids.len() == 0 {
        Seq::empty()
    } else {
        let rest = first_occurrences(ids.drop_last());
        if rest.contains(ids.last()) {
            rest
        } else {
            rest.push(ids.last())
        }
    }
}

/// Keeps each identifier's first occurrence and drops the repeats:
/// the step that turns the owner answers into the distinct owning
/// trees, in discovery order.
pub fn dedup_first_occurrence(ids: &Vec<String>) -> (r: Vec<String>)
    ensures
        r@.map_values(|s: String| s@) == first_occurrences(ids@.map_values(|s: String| s@)),
        forall|a: int, b: int| 0 <= a < b < r@.len() ==> (#[trigger] r@[a])@ != (#[trigger] r@[b])@,
{
    let mut r: Vec<String> = Vec::new();
    let mut i: usize = 0;
    proof {
        assert(ids@.take(0).map_values(|s: String| s@)
            =~= Seq::<Seq<char>>::empty());
        assert(r@.map_values(|s: String| s@) =~= first_occurrences(
            ids@.take(0).map_values(|s: String| s@),
        ));
    }
    while i < ids.len()
        invariant
            i <= ids@.len(),
            r@.map_values(|s: String| s@) == first_occurrences(
                ids@.take(i as int).map_values(|s: String| s@),
            ),
            forall|a: int, b: int|
                0 <= a < b < r@.len() ==> (#[trigger] r@[a])@ != (#[trigger] r@[b])@,
        decreases ids@.len() - i,
    {
        let c = &ids[i];
        let ghost mapped_prefix = ids@.take(i as int).map_values(|s: String| s@);
        proof {
            assert(ids@.take(i as int + 1).map_values(|s: String| s@)
                =~= mapped_prefix.push(c@));
            assert((mapped_prefix.push(c@)).drop_last() =~= mapped_prefix);
            assert((mapped_prefix.push(c@)).last() == c@);
            lemma_has_name_iff_contains(r@, c@);
        }
        if !contains_name(&r, c) {
            let ghost before = r@;
            proof {
                assert forall|a: int| 0 <= a < before.len() implies (#[trigger] before[a])@
                    != c@ by {
                    if before[a]@ == c@ {
                        assert(has_name(before, c@));
                    }
                }
            }
            r.push(c.clone());
            proof {
                assert(r@ =~= before.push(*c));
                assert(r@.map_values(|s: String| s@) =~= before.map_values(
                    |s: String| s@,
                ).push(c@));
                assert(r@.map_values(|s: String| s@) =~= first_occurrences(
                    mapped_prefix.push(c@),
                ));
            }
        } else {
            proof {
                assert(r@.map_values(|s: String| s@) =~= first_occurrences(
                    mapped_prefix.push(c@),
                ));
            }
        }
        i += 1;
    }
    proof {
        assert(ids@.take(ids@.len() as int) =~= ids@);
    }
    r
}

/// The tree identifiers a list of strings names.
pub open spec fn names_set(s: Seq<String>) -> Set<Seq<char>> {
    Set::new(|id: Seq<char>| has_name(s, id))
}

/// Cycle safety of one resolved subtree: a tree already visited on
/// the path to it is never expanded again (it may be listed, but with
/// no children), and an unvisited tree's children are in turn safe
/// with it added to the path.
pub open spec fn dag_item_ok(item: ApiTreeDagItem, visited: Set<Seq<char>>) -> bool
    decreases item,
{
    if visited.contains(item.id@) {
        item.children@.len() == 0
    } else {
        dag_forest_ok(item.children@, visited.insert(item.id@))
    }
}

/// Cycle safety of a resolved forest: the trees at one level are
/// distinct, and each subtree is safe against the path so far.
pub open spec fn dag_forest_ok(items: Seq<ApiTreeDagItem>, visited: Set<Seq<char>>) -> bool
    decreases items,
{
    &&& forall|a: int, b: int|
        0 <= a < b < items.len() ==> (#[trigger] items[a]).id@ != (#[trigger] items[b]).id@
    &&& forall|i: int| 0 <= i < items.len() ==> dag_item_ok(#[trigger] items[i], visited)
}

/// The nesting depth of one resolved subtree.
pub open spec fn dag_item_depth(item: ApiTreeDagItem) -> nat
    decreases item,
{
    1 + dag_depth(item.children@)
}

/// The nesting depth of a resolved forest: 0 when it is empty, else
/// the deepest of its subtrees.
pub open spec fn dag_depth(items: Seq<ApiTreeDagItem>) -> nat
    decreases items,
{
    if items.len() == 0 {
        0
    } else if dag_item_depth(items.last()) >= dag_depth(items.drop_last()) {
        dag_item_depth(items.last())
    } else {
        dag_depth(items.drop_last())
    }
}

/// Whether every tree identifier in one subtree lies in the given set.
pub open spec fn dag_item_ids_in(item: ApiTreeDagItem, universe: Set<Seq<char>>) -> bool
    decreases item,
{
    universe.contains(item.id@) && dag_ids_in(item.children@, universe)
}

/// Whether every tree identifier in a forest lies in the given set.
pub open spec fn dag_ids_in(items: Seq<ApiTreeDagItem>, universe: Set<Seq<char>>) -> bool
    decreases items,
{
    forall|i: int| 0 <= i < items.len() ==> dag_item_ids_in(#[trigger] items[i], universe)
}

/// Why cycle safety terminates the traversal: expanding a tree puts
/// its identifier on the path before its children are resolved, so
/// each level of nesting consumes a fresh identifier. When the stored
/// graph is finite — its tree identifiers lie in a finite set — the
/// depth of any cycle-safe forest, such as every result of
/// [`get_tree_relationships_down`], is bounded by the number of
/// identifiers not yet on the path, plus the one level on which an
/// already-visited tree may be listed without expansion.
pub proof fn lemma_dag_depth_bounded(
    items: Seq<ApiTreeDagItem>,
    visited: Set<Seq<char>>,
    universe: Set<Seq<char>>,
)
    requires
        dag_forest_ok(items, visited),
        dag_ids_in(items, universe),
        universe.finite(),
    ensures
        dag_depth(items) <= universe.difference(visited).len() + 1,
    decreases items,
{
    vstd::set::axiom_set_difference_finite(universe, visited);
    if items.len() > 0 {
        let rest = items.drop_last();
        let e = items.last();
        assert(forall|i: int| 0 <= i < rest.len() ==> rest[i] == items[i]);
        assert(dag_forest_ok(rest, visited));
        assert(dag_ids_in(rest, universe));
        lemma_dag_depth_bounded(rest, visited, universe);
        assert(dag_item_ok(e, visited));
        assert(dag_item_ids_in(e, universe));
        if visited.contains(e.id@) {
            assert(e.children@.len() == 0);
            assert(dag_depth(e.children@) == 0);
            assert(dag_item_depth(e) == 1);
        } else {
            let inner = visited.insert(e.id@);
            lemma_dag_depth_bounded(e.children@, inner, universe);
            assert(universe.difference(inner) =~= universe.difference(visited).remove(e.id@));
            vstd::set::axiom_set_remove_len(universe.difference(visited), e.id@);
            assert(universe.difference(visited).contains(e.id@));
            assert(dag_item_depth(e) <= universe.difference(visited).len() + 1);
        }
    }
}

/// Builds the cross-tree dependency graph below one tree: its nodes'
/// external child references ([`external_child_refs`]) are resolved
/// to the trees owning them, the owners are reduced to the distinct
/// trees in discovery order ([`dedup_first_occurrence`]), and each
/// such tree becomes a child item carrying its own resolved graph. A
/// tree already seen on the current path is not expanded again, so
/// traversal terminates on cyclic references; a lookup that fails
/// simply contributes no branch. `fuel` bounds the recursion
/// depth statically — the seen set alone bounds it only by the number
/// of trees in storage, which is not visible here — so callers pass
/// at least the number of distinct trees reachable.
pub fn get_tree_relationships_down<S: TreeStore>(
    store: &S,
    tenant: &Tenant,
    start_tree_id: &String,
    project_id: &String,
    seen_tree_ids: Vec<String>,
    fuel: u32,
) -> (r: Vec<ApiTreeDagItem>)
    ensures
        dag_forest_ok(r@, names_set(seen_tree_ids@).insert(start_tree_id@)),
        has_name(seen_tree_ids@, start_tree_id@) ==> r@.len() == 0,
        fuel == 0 ==> r@.len() == 0,
    decreases fuel,
{
    let result: Vec<ApiTreeDagItem> = Vec::new();
    if fuel == 0 {
        return result;
    }
    if contains_name(&seen_tree_ids, start_tree_id) {
        return result;
    }
    let ghost visited = names_set(seen_tree_ids@).insert(start_tree_id@);
    let mut seen = seen_tree_ids;
    seen.push(start_tree_id.clone());
    proof {
        assert forall|id: Seq<char>| #[trigger] has_name(seen@, id) == visited.contains(id) by {
            if has_name(seen@, id) {
                let k = choose|k: int| 0 <= k < seen@.len() && seen@[k]@ == id;
                if k < seen@.len() - 1 {
                    assert(has_name(seen_tree_ids@, id));
                }
            }
            if visited.contains(id) {
                if id == start_tree_id@ {
                    assert(seen@[seen@.len() - 1]@ == id);
                } else {
                    let k = choose|k: int|
                        0 <= k < seen_tree_ids@.len() && seen_tree_ids@[k]@ == id;
                    assert(seen@[k]@ == id);
                }
            }
        }
    }
    let children_nodes = get_nodes_from_tree(store, tenant, start_tree_id, project_id);
    let children_of_concern = external_child_refs(&children_nodes);
    let mut owner_answers: Vec<String> = Vec::new();
    let mut i: usize = 0;
    while i < children_of_concern.len()
        decreases children_of_concern@.len() - i,
    {
        let node_id = &children_of_concern[i];
        match store.get_tree_from_node_id(tenant, node_id) {
            Ok(res) => {
                owner_answers.push(res.treeId);
            },
            Err(_) => {},
        }
        i += 1;
    }
    let child_trees = dedup_first_occurrence(&owner_answers);
    let mut result: Vec<ApiTreeDagItem> = Vec::new();
    let mut k: usize = 0;
    while k < child_trees.len()
        invariant
            k <= child_trees@.len(),
            fuel > 0,
            forall|id: Seq<char>| #[trigger] has_name(seen@, id) == visited.contains(id),
            forall|a: int, b: int|
                0 <= a < b < child_trees@.len() ==> (#[trigger] child_trees@[a])@ != (
                #[trigger] child_trees@[b])@,
            forall|m: int|
                0 <= m < result@.len() ==> has_name(
                    child_trees@.take(k as int),
                    (#[trigger] result@[m]).id@,
                ),
            forall|a: int, b: int|
                0 <= a < b < result@.len() ==> (#[trigger] result@[a]).id@ != (
                #[trigger] result@[b]).id@,
            forall|m: int| 0 <= m < result@.len() ==> dag_item_ok(#[trigger] result@[m], visited),
        decreases child_trees@.len() - k,
    {
        let child_tree = &child_trees[k];
        match get_tree_by_id(store, tenant, child_tree, project_id) {
            Ok(tree_data) => {
                let grand_children = get_tree_relationships_down(
                    store,
                    tenant,
                    child_tree,
                    project_id,
                    clone_string_vec(&seen),
                    fuel - 1,
                );
                let item = ApiTreeDagItem {
                    id: child_tree.clone(),
                    title: tree_data.title,
                    children: grand_children,
                };
                proof {
                    assert(names_set(seen@) =~= visited);
                    if visited.contains(item.id@) {
                        assert(has_name(seen@, child_tree@));
                        assert(grand_children@.len() == 0);
                    } else {
                        assert(visited.insert(item.id@) =~= names_set(seen@).insert(child_tree@));
                    }
                    assert(dag_item_ok(item, visited));
                }
                let ghost before = result@;
                result.push(item);
                proof {
                    assert forall|m: int|
                        0 <= m < result@.len() implies has_name(
                        child_trees@.take(k as int + 1),
                        (#[trigger] result@[m]).id@,
                    ) by {
                        if m < before.len() {
                            let a = choose|a: int|
                                0 <= a < k && child_trees@.take(k as int)[a]@ == before[m].id@;
                            assert(child_trees@.take(k as int + 1)[a]@ == result@[m].id@);
                        } else {
                            assert(child_trees@.take(k as int + 1)[k as int]@ == result@[m].id@);
                        }
                    }
                    assert forall|a: int, b: int|
                        0 <= a < b < result@.len() implies (#[trigger] result@[a]).id@ != (
                    #[trigger] result@[b]).id@ by {
                        if b == before.len() {
                            let a2 = choose|a2: int|
                                0 <= a2 < k && child_trees@.take(k as int)[a2]@ == before[a].id@;
                            assert(child_trees@[a2]@ == result@[a].id@);
                            assert(child_trees@[k as int]@ == result@[b].id@);
                        }
                    }
                }
            },
            Err(_) => {},
        }
        k += 1;
    }
    result
}

} // verus!
