//! The data model: configuration values, node attributes, raw storage
//! records with their defaulting rules, computed trees, and the response
//! shapes the routing layer serves.

use vstd::prelude::*;

use crate::errors::DatabaseError;

verus! {

/// One value inside a project configuration. Configurations are nested
/// key/value structures; flattening walks `Object` values and keeps the
/// scalar leaves, while `Other` stands for stored shapes (nulls, arrays)
/// that flattening drops.
///
/// A stored floating-point value is carried as its IEEE-754 bit pattern:
/// the engine never computes with it, it only hands it onward to the
/// expression backend.
#[derive(Debug)]
pub enum ConfigValue {
    Text(String),
    Integer(i64),
    Decimal(u64),
    Truth(bool),
    Object(Vec<(String, ConfigValue)>),
    Other,
}

impl ConfigValue {
    /// A scalar is a leaf that flattening keeps as a variable binding.
    pub open spec fn is_scalar(&self) -> bool {
        match self {
            ConfigValue::Text(_) => true,
            ConfigValue::Integer(_) => true,
            ConfigValue::Decimal(_) => true,
            ConfigValue::Truth(_) => true,
            ConfigValue::Object(_) => false,
            ConfigValue::Other => false,
        }
    }
}

/// A typed attribute attached to a node: exactly one of the three
/// variants is populated in a well-formed value. The stored shape keeps
/// all three slots, so reading must validate it.
///
/// `value_float` carries the IEEE-754 bit pattern of the stored
/// floating-point value; the engine only carries it through.
#[derive(Debug)]
pub struct ModelAttribute {
    pub value_string: Option<String>,
    pub value_int: Option<i32>,
    pub value_float: Option<u64>,
}

impl ModelAttribute {
    /// Exactly one variant is populated.
    pub open spec fn is_well_formed(&self) -> bool {
        match (self.value_string, self.value_int, self.value_float) {
            (Some(_), None, None) => true,
            (None, Some(_), None) => true,
            (None, None, Some(_)) => true,
            _ => false,
        }
    }
}

/// Reads a stored attribute record. An absent or ambiguous shape (no
/// slot populated, or more than one) is rejected with an error rather
/// than silently coerced.
pub fn model_attribute_from_record(
    value_string: Option<String>,
    value_int: Option<i32>,
    value_float: Option<u64>,
) -> (r: Result<ModelAttribute, DatabaseError>)
    ensures
        r is Ok <==> (ModelAttribute { value_string, value_int, value_float }).is_well_formed(),
        r matches Ok(a) ==> a == (ModelAttribute { value_string, value_int, value_float }),
{
    let populated: u32 = (if value_string.is_some() { 1 } else { 0 })
        + (if value_int.is_some() { 1 } else { 0 })
        + (if value_float.is_some() { 1 } else { 0 });
    if populated == 1 {
        Ok(ModelAttribute { value_string, value_int, value_float })
    } else {
        Err(DatabaseError::new("Stored model attribute must populate exactly one value"))
    }
}

impl Clone for ModelAttribute {
    /// An exact copy, field by field.
    fn clone(&self) -> (r: Self)
        ensures
            r == *self,
    {
        ModelAttribute {
            value_string: match &self.value_string {
                Some(s) => Some(s.clone()),
                None => None,
            },
            value_int: self.value_int,
            value_float: self.value_float,
        }
    }
}

/// Copies a list of identifiers.
pub fn clone_string_vec(v: &Vec<String>) -> (r: Vec<String>)
    ensures
        r@ == v@,
{
    let mut r: Vec<String> = Vec::new();
    let mut i: usize = 0;
    while i < v.len()
        invariant
            i <= v@.len(),
            r@ == v@.take(i as int),
        decreases v@.len() - i,
    {
        r.push(v[i].clone());
        proof {
            assert(r@ =~= v@.take(i as int + 1));
        }
        i += 1;
    }
    proof {
        assert(v@.take(v@.len() as int) =~= v@);
    }
    r
}

/// Copies a named attribute list.
pub fn clone_attribute_pairs(v: &Vec<(String, ModelAttribute)>) -> (r: Vec<
    (String, ModelAttribute),
>)
    ensures
        r@ == v@,
{
    let mut r: Vec<(String, ModelAttribute)> = Vec::new();
    let mut i: usize = 0;
    while i < v.len()
        invariant
            i <= v@.len(),
            r@ == v@.take(i as int),
        decreases v@.len() - i,
    {
        let p = &v[i];
        r.push((p.0.clone(), p.1.clone()));
        proof {
            assert((p.0, p.1) == v@[i as int]);
            assert(r@ =~= v@.take(i as int + 1));
        }
        i += 1;
    }
    proof {
        assert(v@.take(v@.len() as int) =~= v@);
    }
    r
}

/// Whether two node payloads carry the same content, comparing the
/// list fields by their contents.
pub open spec fn same_node_data(a: ApiFullNodeData, b: ApiFullNodeData) -> bool {
    &&& a.id == b.id
    &&& a.title == b.title
    &&& a.description == b.description
    &&& a.modelAttributes@ == b.modelAttributes@
    &&& a.conditionAttribute == b.conditionAttribute
    &&& a.children@ == b.children@
}

/// Whether two tree payloads carry the same content, node by node.
pub open spec fn same_tree_data(a: ApiFullTreeData, b: ApiFullTreeData) -> bool {
    &&& a.title == b.title
    &&& a.rootNodeId == b.rootNodeId
    &&& a.nodes@.len() == b.nodes@.len()
    &&& forall|i: int|
        0 <= i < a.nodes@.len() ==> same_node_data(#[trigger] a.nodes@[i], b.nodes@[i])
}

impl Clone for ApiFullNodeData {
    /// A copy with the same content.
    fn clone(&self) -> (r: Self)
        ensures
            same_node_data(r, *self),
    {
        ApiFullNodeData {
            id: self.id.clone(),
            title: self.title.clone(),
            description: self.description.clone(),
            modelAttributes: clone_attribute_pairs(&self.modelAttributes),
            conditionAttribute: self.conditionAttribute.clone(),
            children: clone_string_vec(&self.children),
        }
    }
}

impl Clone for ApiFullTreeData {
    /// A copy with the same content.
    fn clone(&self) -> (r: Self)
        ensures
            same_tree_data(r, *self),
    {
        let mut nodes: Vec<ApiFullNodeData> = Vec::new();
        let mut i: usize = 0;
        while i < self.nodes.len()
            invariant
                i <= self.nodes@.len(),
                nodes@.len() == i,
                forall|k: int|
                    0 <= k < i ==> same_node_data(#[trigger] nodes@[k], self.nodes@[k]),
            decreases self.nodes@.len() - i,
        {
            nodes.push(self.nodes[i].clone());
            i += 1;
        }
        ApiFullTreeData {
            title: self.title.clone(),
            rootNodeId: self.rootNodeId.clone(),
            nodes,
        }
    }
}

/// A user known to the system.
#[derive(Debug, Clone)]
pub struct User {
    pub email: String,
    pub id: String,
}

/// A project: the owner of trees and configurations. At most one
/// configuration is selected at a time, referenced by identifier.
#[derive(Debug, Clone)]
pub struct Project {
    pub title: String,
    pub id: String,
    pub related_tree_ids: Vec<String>,
    pub selected_model: Option<String>,
    pub related_config_ids: Vec<String>,
    pub selected_config: Option<String>,
}

/// A node as stored: optional fields reflect partially-present storage
/// documents. Missing `children` or `modelAttributes` default to empty
/// when the node is materialized; a missing `conditionAttribute` means
/// the node is always visible.
#[derive(Debug, Clone)]
pub struct RawNodeRecord {
    pub id: String,
    pub title: String,
    pub description: String,
    pub conditionAttribute: Option<String>,
    pub children: Option<Vec<String>>,
    pub modelAttributes: Option<Vec<(String, ModelAttribute)>>,
}

/// A tree as stored: its title, the root node identifier (empty when no
/// root has been chosen yet) and the nodes it owns. A missing `nodes`
/// array defaults to no nodes.
#[derive(Debug, Clone)]
pub struct RawTreeRecord {
    pub title: String,
    pub rootNodeId: String,
    pub nodes: Option<Vec<RawNodeRecord>>,
}

/// Full node payload as exchanged with callers.
#[derive(Debug)]
pub struct ApiFullNodeData {
    pub id: String,
    pub title: String,
    pub description: String,
    pub modelAttributes: Vec<(String, ModelAttribute)>,
    pub conditionAttribute: String,
    pub children: Vec<String>,
}

/// A node after materialization: the stored fields plus the condition's
/// resolved visibility against one configuration. Never persisted.
#[derive(Debug, Clone)]
pub struct ApiFullComputedNodeData {
    pub id: String,
    pub title: String,
    pub description: String,
    pub modelAttributes: Vec<(String, ModelAttribute)>,
    pub conditionAttribute: String,
    pub children: Vec<String>,
    pub conditionResolved: bool,
}

/// Full tree payload as exchanged with callers and stored in history.
#[derive(Debug)]
pub struct ApiFullTreeData {
    pub title: String,
    pub rootNodeId: String,
    pub nodes: Vec<ApiFullNodeData>,
}

/// A tree after materialization against one configuration. Never
/// persisted.
#[derive(Debug, Clone)]
pub struct ApiFullComputedTreeData {
    pub title: String,
    pub rootNodeId: String,
    pub nodes: Vec<ApiFullComputedNodeData>,
}

/// One tree's position in the cross-tree reference graph: built per
/// request by DAG resolution, never persisted.
#[derive(Debug)]
pub struct ApiTreeDagItem {
    pub id: String,
    pub title: String,
    pub children: Vec<ApiTreeDagItem>,
}

/// A project configuration as served to callers: its identifier, an
/// optional display name and the nested attribute values.
#[derive(Debug)]
pub struct ApiProjectConfigResponseResult {
    pub id: String,
    pub name: Option<String>,
    pub attributes: ConfigValue,
}

/// Payload for creating or replacing a configuration.
#[derive(Debug)]
pub struct ApiProjectConfigPayload {
    pub attributes: ConfigValue,
}

/// Payload selecting a configuration for a project.
#[derive(Debug, Clone)]
pub struct ApiProjectConfigIdPayload {
    pub desiredConfig: String,
}

/// Node payload served by the node lookup endpoint.
#[derive(Debug, Clone)]
pub struct NodeResponseResult {
    pub title: String,
    pub description: String,
    pub modelAttributes: Vec<(String, ModelAttribute)>,
    pub conditionAttribute: String,
    pub id: String,
    pub children: Vec<String>,
}

/// Payload for registering a user.
#[derive(Debug, Clone)]
pub struct ApiRegisterUser {
    pub email: String,
}

/// Result part of a login response.
#[derive(Debug, Clone)]
pub struct AuthLoginResponseResult {
    pub sessionToken: String,
    pub loginRequest: String,
}

/// Login response envelope.
#[derive(Debug, Clone)]
pub struct ApiAuthLoginResponse {
    pub ok: bool,
    pub message: String,
    pub result: Option<AuthLoginResponseResult>,
}

/// Payload for creating a project.
#[derive(Debug, Clone)]
pub struct ApiCreateProject {
    pub title: String,
}

/// Payload for creating a tree.
#[derive(Debug, Clone)]
pub struct ApiCreateTree {
    pub title: String,
}

/// Payload for creating a node.
#[derive(Debug, Clone)]
pub struct ApiCreateNode {
    pub title: String,
    pub description: String,
    pub modelAttributes: Vec<(String, ModelAttribute)>,
    pub conditionAttribute: String,
}

/// Result part of a project creation response.
#[derive(Debug, Clone)]
pub struct CreateProjectResponseResult {
    pub id: String,
    pub title: String,
}

/// Result part of a tree creation response.
#[derive(Debug, Clone)]
pub struct CreateTreeResponseResult {
    pub title: String,
    pub id: String,
}

/// One tree in a tree listing.
#[derive(Debug, Clone)]
pub struct ListTreeResponseItem {
    pub title: String,
    pub id: String,
}

/// Result part of a tree listing response.
#[derive(Debug, Clone)]
pub struct ListTreeResponseResult {
    pub trees: Vec<ListTreeResponseItem>,
}

/// One model in a model listing.
#[derive(Debug, Clone)]
pub struct ListModelResponseItem {
    pub id: String,
    pub title: String,
}

/// Result part of a model listing response.
#[derive(Debug, Clone)]
pub struct ListModelResult {
    pub models: Vec<ListModelResponseItem>,
}

/// Result part of a selected-model response.
#[derive(Debug, Clone)]
pub struct SelectedModelResult {
    pub modelId: String,
}

/// One project in a project listing.
#[derive(Debug, Clone)]
pub struct ApiProjectsListProjectItem {
    pub projectId: String,
    pub name: String,
}

/// Result part of a project listing response.
#[derive(Debug, Clone)]
pub struct ApiProjectsListResponseResult {
    pub projects: Vec<ApiProjectsListProjectItem>,
}

/// Tree listing response envelope.
#[derive(Debug, Clone)]
pub struct ApiListTreeResponse {
    pub ok: bool,
    pub message: String,
    pub result: Option<ListTreeResponseResult>,
}

/// Raw tree response envelope.
#[derive(Debug, Clone)]
pub struct ApiTreeResponse {
    pub ok: bool,
    pub message: String,
    pub result: Option<ApiFullTreeData>,
}

/// Computed tree response envelope.
#[derive(Debug, Clone)]
pub struct ApiTreeComputedResponse {
    pub ok: bool,
    pub message: String,
    pub result: Option<ApiFullComputedTreeData>,
}

/// Project creation response envelope.
#[derive(Debug, Clone)]
pub struct ApiCreateProjectResponse {
    pub ok: bool,
    pub message: String,
    pub result: Option<CreateProjectResponseResult>,
}

/// Project listing response envelope.
#[derive(Debug, Clone)]
pub struct ApiProjectsListResponse {
    pub ok: bool,
    pub message: String,
    pub result: Option<ApiProjectsListResponseResult>,
}

/// Tree creation response envelope.
#[derive(Debug, Clone)]
pub struct ApiCreateTreeResponse {
    pub ok: bool,
    pub message: String,
    pub result: Option<CreateTreeResponseResult>,
}

/// Node response envelope.
#[derive(Debug, Clone)]
pub struct ApiNodeResponse {
    pub ok: bool,
    pub message: String,
    pub result: Option<NodeResponseResult>,
}

/// Model listing response envelope.
#[derive(Debug, Clone)]
pub struct ApiListModelResponse {
    pub ok: bool,
    pub message: String,
    pub result: Option<ListModelResult>,
}

/// Selected-model response envelope.
#[derive(Debug, Clone)]
pub struct ApiSelectedModelResponse {
    pub ok: bool,
    pub message: String,
    pub result: Option<SelectedModelResult>,
}

/// Result part of a node-owner lookup: the tree owning the node.
#[derive(Debug, Clone)]
pub struct ApiGetNodeResponseResult {
    pub treeId: String,
}

/// Node-owner lookup response envelope.
#[derive(Debug, Clone)]
pub struct ApiGetNodeResponse {
    pub ok: bool,
    pub message: String,
    pub result: Option<ApiGetNodeResponseResult>,
}

/// Result part of a DAG resolution response.
#[derive(Debug)]
pub struct ApiTreeDagResponseResult {
    pub root: ApiTreeDagItem,
}

/// DAG resolution response envelope.
#[derive(Debug)]
pub struct ApiTreeDagResponse {
    pub ok: bool,
    pub message: String,
    pub result: Option<ApiTreeDagResponseResult>,
}

/// Result part of a configuration listing response.
#[derive(Debug, Clone)]
pub struct ApiProjectConfigListResponseResult {
    pub ids: Vec<String>,
}

/// Configuration listing response envelope.
#[derive(Debug, Clone)]
pub struct ApiProjectConfigListResponse {
    pub ok: bool,
    pub message: String,
    pub result: Option<ApiProjectConfigListResponseResult>,
}

/// Configuration response envelope.
#[derive(Debug)]
pub struct ApiProjectConfigResponse {
    pub ok: bool,
    pub message: String,
    pub result: Option<ApiProjectConfigResponseResult>,
}

/// Organisation name as supplied by callers.
#[derive(Debug, Clone)]
pub struct ApiOrgMetadataBase {
    pub name: String,
}

/// Organisation name and identifier.
#[derive(Debug, Clone)]
pub struct ApiOrgMetadata {
    pub name: String,
    pub id: String,
}

/// Organisation response envelope.
#[derive(Debug, Clone)]
pub struct ApiOrgResponse {
    pub ok: bool,
    pub message: String,
    pub result: Option<ApiOrgMetadata>,
}

} // verus!
