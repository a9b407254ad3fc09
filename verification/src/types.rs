//! The records of the graph and of its requests and answers, each with the
//! mathematical value it stands for.

use crate::document::{clone_optional, optional_model, Document, DocumentModel};
use crate::text::{copy_texts, texts};
use vstd::prelude::*;

verus! {

/// The text of an optional string.
pub open spec fn optional_text(s: Option<String>) -> Option<Seq<char>> {
    match s {
        Some(x) => Some(x@),
        None => None,
    }
}

/// A copy of an optional string.
pub fn clone_optional_text(s: &Option<String>) -> (r: Option<String>)
    ensures
        optional_text(r) == optional_text(*s),
{
    match s {
        Some(x) => Some(x.clone()),
        None => None,
    }
}

/// The values that a list of records stands for, item by item.
pub open spec fn views<T: View>(items: Seq<T>) -> Seq<T::V> {
    items.map_values(|x: T| x@)
}

/// A vertex of the graph: an entity.
#[derive(Debug, PartialEq, Eq)]
pub struct Node {
    /// Unique within the graph.
    pub id: String,
    /// A free-form tag.
    pub node_type: String,
    /// The payload.
    pub data: Document,
    /// When the node was created, in milliseconds since the epoch.
    pub created_at_ms: u64,
    /// When its tag, payload or observations last changed.
    pub updated_at_ms: u64,
}

/// What a `Node` stands for.
pub struct NodeModel {
    pub id: Seq<char>,
    pub node_type: Seq<char>,
    pub data: DocumentModel,
    pub created_at_ms: u64,
    pub updated_at_ms: u64,
}

impl View for Node {
    type V = NodeModel;

    open spec fn view(&self) -> NodeModel {
        NodeModel {
            id: self.id@,
            node_type: self.node_type@,
            data: self.data@,
            created_at_ms: self.created_at_ms,
            updated_at_ms: self.updated_at_ms,
        }
    }
}

impl Clone for Node {
    fn clone(&self) -> (r: Node)
        ensures
            r@ == self@,
    {
        Node {
            id: self.id.clone(),
            node_type: self.node_type.clone(),
            data: self.data.clone(),
            created_at_ms: self.created_at_ms,
            updated_at_ms: self.updated_at_ms,
        }
    }
}

/// A directed, typed relation between two nodes.
#[derive(Debug, PartialEq, Eq)]
pub struct Edge {
    /// Unique within the graph.
    pub id: String,
    /// A free-form tag.
    pub edge_type: String,
    /// The node the edge leaves.
    pub source_node_id: String,
    /// The node the edge enters.
    pub target_node_id: String,
    /// The payload, if any.
    pub data: Option<Document>,
    /// When the edge was created, in milliseconds since the epoch.
    pub created_at_ms: u64,
}

/// What a `Edge` stands for.
pub struct EdgeModel {
    pub id: Seq<char>,
    pub edge_type: Seq<char>,
    pub source_node_id: Seq<char>,
    pub target_node_id: Seq<char>,
    pub data: Option<DocumentModel>,
    pub created_at_ms: u64,
}

impl View for Edge {
    type V = EdgeModel;

    open spec fn view(&self) -> EdgeModel {
        EdgeModel {
            id: self.id@,
            edge_type: self.edge_type@,
            source_node_id: self.source_node_id@,
            target_node_id: self.target_node_id@,
            data: optional_model(self.data),
            created_at_ms: self.created_at_ms,
        }
    }
}

impl Clone for Edge {
    fn clone(&self) -> (r: Edge)
        ensures
            r@ == self@,
    {
        Edge {
            id: self.id.clone(),
            edge_type: self.edge_type.clone(),
            source_node_id: self.source_node_id.clone(),
            target_node_id: self.target_node_id.clone(),
            data: clone_optional(&self.data),
            created_at_ms: self.created_at_ms,
        }
    }
}

/// What a client supplies for a new node.
#[derive(Debug, PartialEq, Eq)]
pub struct CreateNodePayload {
    pub node_type: String,
    pub data: Document,
}

/// What a `CreateNodePayload` stands for.
pub struct CreateNodeModel {
    pub node_type: Seq<char>,
    pub data: DocumentModel,
}

impl View for CreateNodePayload {
    type V = CreateNodeModel;

    open spec fn view(&self) -> CreateNodeModel {
        CreateNodeModel {
            node_type: self.node_type@,
            data: self.data@,
        }
    }
}

impl Clone for CreateNodePayload {
    fn clone(&self) -> (r: CreateNodePayload)
        ensures
            r@ == self@,
    {
        CreateNodePayload {
            node_type: self.node_type.clone(),
            data: self.data.clone(),
        }
    }
}

/// The parts of a node to replace; an absent part stays.
#[derive(Debug, PartialEq, Eq)]
pub struct UpdateNodePayload {
    pub node_type: Option<String>,
    pub data: Option<Document>,
}

/// What a `UpdateNodePayload` stands for.
pub struct UpdateNodeModel {
    pub node_type: Option<Seq<char>>,
    pub data: Option<DocumentModel>,
}

impl View for UpdateNodePayload {
    type V = UpdateNodeModel;

    open spec fn view(&self) -> UpdateNodeModel {
        UpdateNodeModel {
            node_type: optional_text(self.node_type),
            data: optional_model(self.data),
        }
    }
}

impl Clone for UpdateNodePayload {
    fn clone(&self) -> (r: UpdateNodePayload)
        ensures
            r@ == self@,
    {
        UpdateNodePayload {
            node_type: clone_optional_text(&self.node_type),
            data: clone_optional(&self.data),
        }
    }
}

/// What a client supplies for a new edge.
#[derive(Debug, PartialEq, Eq)]
pub struct CreateEdgePayload {
    pub edge_type: String,
    pub source_node_id: String,
    pub target_node_id: String,
    pub data: Option<Document>,
}

/// What a `CreateEdgePayload` stands for.
pub struct CreateEdgeModel {
    pub edge_type: Seq<char>,
    pub source_node_id: Seq<char>,
    pub target_node_id: Seq<char>,
    pub data: Option<DocumentModel>,
}

impl View for CreateEdgePayload {
    type V = CreateEdgeModel;

    open spec fn view(&self) -> CreateEdgeModel {
        CreateEdgeModel {
            edge_type: self.edge_type@,
            source_node_id: self.source_node_id@,
            target_node_id: self.target_node_id@,
            data: optional_model(self.data),
        }
    }
}

impl Clone for CreateEdgePayload {
    fn clone(&self) -> (r: CreateEdgePayload)
        ensures
            r@ == self@,
    {
        CreateEdgePayload {
            edge_type: self.edge_type.clone(),
            source_node_id: self.source_node_id.clone(),
            target_node_id: self.target_node_id.clone(),
            data: clone_optional(&self.data),
        }
    }
}

/// The new payload of an edge; absent clears it.
#[derive(Debug, PartialEq, Eq)]
pub struct UpdateEdgePayload {
    pub data: Option<Document>,
}

/// What a `UpdateEdgePayload` stands for.
pub struct UpdateEdgeModel {
    pub data: Option<DocumentModel>,
}

impl View for UpdateEdgePayload {
    type V = UpdateEdgeModel;

    open spec fn view(&self) -> UpdateEdgeModel {
        UpdateEdgeModel {
            data: optional_model(self.data),
        }
    }
}

impl Clone for UpdateEdgePayload {
    fn clone(&self) -> (r: UpdateEdgePayload)
        ensures
            r@ == self@,
    {
        UpdateEdgePayload {
            data: clone_optional(&self.data),
        }
    }
}

/// An entity to create: its name becomes the id of its node.
#[derive(Debug, PartialEq, Eq)]
pub struct EntityToCreate {
    pub name: String,
    pub entity_type: String,
    pub observations: Vec<String>,
    pub data: Option<Document>,
}

/// What a `EntityToCreate` stands for.
pub struct EntityModel {
    pub name: Seq<char>,
    pub entity_type: Seq<char>,
    pub observations: Seq<Seq<char>>,
    pub data: Option<DocumentModel>,
}

impl View for EntityToCreate {
    type V = EntityModel;

    open spec fn view(&self) -> EntityModel {
        EntityModel {
            name: self.name@,
            entity_type: self.entity_type@,
            observations: texts(self.observations@),
            data: optional_model(self.data),
        }
    }
}

impl Clone for EntityToCreate {
    fn clone(&self) -> (r: EntityToCreate)
        ensures
            r@ == self@,
    {
        EntityToCreate {
            name: self.name.clone(),
            entity_type: self.entity_type.clone(),
            observations: copy_texts(&self.observations),
            data: clone_optional(&self.data),
        }
    }
}

/// A relation to create between two entities named by id.
#[derive(Debug, PartialEq, Eq)]
pub struct RelationToCreate {
    pub from: String,
    pub to: String,
    pub relation_type: String,
    pub data: Option<Document>,
}

/// What a `RelationToCreate` stands for.
pub struct RelationModel {
    pub from: Seq<char>,
    pub to: Seq<char>,
    pub relation_type: Seq<char>,
    pub data: Option<DocumentModel>,
}

impl View for RelationToCreate {
    type V = RelationModel;

    open spec fn view(&self) -> RelationModel {
        RelationModel {
            from: self.from@,
            to: self.to@,
            relation_type: self.relation_type@,
            data: optional_model(self.data),
        }
    }
}

impl Clone for RelationToCreate {
    fn clone(&self) -> (r: RelationToCreate)
        ensures
            r@ == self@,
    {
        RelationToCreate {
            from: self.from.clone(),
            to: self.to.clone(),
            relation_type: self.relation_type.clone(),
            data: clone_optional(&self.data),
        }
    }
}

/// Observations to add to one entity.
#[derive(Debug, PartialEq, Eq)]
pub struct AddObservationItem {
    pub entity_name: String,
    pub contents: Vec<String>,
}

/// What a `AddObservationItem` stands for.
pub struct AddObservationModel {
    pub entity_name: Seq<char>,
    pub contents: Seq<Seq<char>>,
}

impl View for AddObservationItem {
    type V = AddObservationModel;

    open spec fn view(&self) -> AddObservationModel {
        AddObservationModel {
            entity_name: self.entity_name@,
            contents: texts(self.contents@),
        }
    }
}

impl Clone for AddObservationItem {
    fn clone(&self) -> (r: AddObservationItem)
        ensures
            r@ == self@,
    {
        AddObservationItem {
            entity_name: self.entity_name.clone(),
            contents: copy_texts(&self.contents),
        }
    }
}

/// Observations to remove from one entity.
#[derive(Debug, PartialEq, Eq)]
pub struct DeleteObservationItem {
    pub entity_name: String,
    pub observations: Vec<String>,
}

/// What a `DeleteObservationItem` stands for.
pub struct DeleteObservationModel {
    pub entity_name: Seq<char>,
    pub observations: Seq<Seq<char>>,
}

impl View for DeleteObservationItem {
    type V = DeleteObservationModel;

    open spec fn view(&self) -> DeleteObservationModel {
        DeleteObservationModel {
            entity_name: self.entity_name@,
            observations: texts(self.observations@),
        }
    }
}

impl Clone for DeleteObservationItem {
    fn clone(&self) -> (r: DeleteObservationItem)
        ensures
            r@ == self@,
    {
        DeleteObservationItem {
            entity_name: self.entity_name.clone(),
            observations: copy_texts(&self.observations),
        }
    }
}

/// A criterion that names relations by source, target and type.
#[derive(Debug, PartialEq, Eq)]
pub struct RelationToDelete {
    pub from: String,
    pub to: String,
    pub relation_type: String,
}

/// What a `RelationToDelete` stands for.
pub struct TripleModel {
    pub from: Seq<char>,
    pub to: Seq<char>,
    pub relation_type: Seq<char>,
}

impl View for RelationToDelete {
    type V = TripleModel;

    open spec fn view(&self) -> TripleModel {
        TripleModel {
            from: self.from@,
            to: self.to@,
            relation_type: self.relation_type@,
        }
    }
}

impl Clone for RelationToDelete {
    fn clone(&self) -> (r: RelationToDelete)
        ensures
            r@ == self@,
    {
        RelationToDelete {
            from: self.from.clone(),
            to: self.to.clone(),
            relation_type: self.relation_type.clone(),
        }
    }
}

/// An entity as clients see it: its observations stand apart from the rest of its payload.
#[derive(Debug, PartialEq, Eq)]
pub struct ApiEntity {
    pub name: String,
    pub entity_type: String,
    pub observations: Vec<String>,
    pub data: Option<Document>,
}

/// What a `ApiEntity` stands for.
pub struct EntityView {
    pub name: Seq<char>,
    pub entity_type: Seq<char>,
    pub observations: Seq<Seq<char>>,
    pub data: Option<DocumentModel>,
}

impl View for ApiEntity {
    type V = EntityView;

    open spec fn view(&self) -> EntityView {
        EntityView {
            name: self.name@,
            entity_type: self.entity_type@,
            observations: texts(self.observations@),
            data: optional_model(self.data),
        }
    }
}

impl Clone for ApiEntity {
    fn clone(&self) -> (r: ApiEntity)
        ensures
            r@ == self@,
    {
        ApiEntity {
            name: self.name.clone(),
            entity_type: self.entity_type.clone(),
            observations: copy_texts(&self.observations),
            data: clone_optional(&self.data),
        }
    }
}

/// A relation as clients see it.
#[derive(Debug, PartialEq, Eq)]
pub struct ApiRelation {
    pub from: String,
    pub to: String,
    pub relation_type: String,
    pub data: Option<Document>,
}

/// What a `ApiRelation` stands for.
pub struct RelationView {
    pub from: Seq<char>,
    pub to: Seq<char>,
    pub relation_type: Seq<char>,
    pub data: Option<DocumentModel>,
}

impl View for ApiRelation {
    type V = RelationView;

    open spec fn view(&self) -> RelationView {
        RelationView {
            from: self.from@,
            to: self.to@,
            relation_type: self.relation_type@,
            data: optional_model(self.data),
        }
    }
}

impl Clone for ApiRelation {
    fn clone(&self) -> (r: ApiRelation)
        ensures
            r@ == self@,
    {
        ApiRelation {
            from: self.from.clone(),
            to: self.to.clone(),
            relation_type: self.relation_type.clone(),
            data: clone_optional(&self.data),
        }
    }
}

/// A batch of entities to create.
#[derive(Debug, PartialEq, Eq)]
pub struct CreateEntitiesPayload {
    pub entities: Vec<EntityToCreate>,
}

impl Clone for CreateEntitiesPayload {
    fn clone(&self) -> (r: CreateEntitiesPayload)
        ensures
            views(r.entities@) == views(self.entities@),
    {
        let entities = self.entities.clone();
        assert(views(entities@) =~= views(self.entities@));
        CreateEntitiesPayload { entities }
    }
}

/// A batch of relations to create.
#[derive(Debug, PartialEq, Eq)]
pub struct CreateRelationsPayload {
    pub relations: Vec<RelationToCreate>,
}

impl Clone for CreateRelationsPayload {
    fn clone(&self) -> (r: CreateRelationsPayload)
        ensures
            views(r.relations@) == views(self.relations@),
    {
        let relations = self.relations.clone();
        assert(views(relations@) =~= views(self.relations@));
        CreateRelationsPayload { relations }
    }
}

/// A batch of observations to add.
#[derive(Debug, PartialEq, Eq)]
pub struct AddObservationsPayload {
    pub observations: Vec<AddObservationItem>,
}

impl Clone for AddObservationsPayload {
    fn clone(&self) -> (r: AddObservationsPayload)
        ensures
            views(r.observations@) == views(self.observations@),
    {
        let observations = self.observations.clone();
        assert(views(observations@) =~= views(self.observations@));
        AddObservationsPayload { observations }
    }
}

/// The names of the entities to delete.
#[derive(Debug, PartialEq, Eq)]
pub struct DeleteEntitiesPayload {
    pub entity_names: Vec<String>,
}

impl Clone for DeleteEntitiesPayload {
    fn clone(&self) -> (r: DeleteEntitiesPayload)
        ensures
            texts(r.entity_names@) == texts(self.entity_names@),
    {
        let entity_names = self.entity_names.clone();
        assert(texts(entity_names@) =~= texts(self.entity_names@));
        DeleteEntitiesPayload { entity_names }
    }
}

/// A batch of observations to remove.
#[derive(Debug, PartialEq, Eq)]
pub struct DeleteObservationsPayload {
    pub deletions: Vec<DeleteObservationItem>,
}

impl Clone for DeleteObservationsPayload {
    fn clone(&self) -> (r: DeleteObservationsPayload)
        ensures
            views(r.deletions@) == views(self.deletions@),
    {
        let deletions = self.deletions.clone();
        assert(views(deletions@) =~= views(self.deletions@));
        DeleteObservationsPayload { deletions }
    }
}

/// The criteria of the relations to delete.
#[derive(Debug, PartialEq, Eq)]
pub struct DeleteRelationsPayload {
    pub relations: Vec<RelationToDelete>,
}

impl Clone for DeleteRelationsPayload {
    fn clone(&self) -> (r: DeleteRelationsPayload)
        ensures
            views(r.relations@) == views(self.relations@),
    {
        let relations = self.relations.clone();
        assert(views(relations@) =~= views(self.relations@));
        DeleteRelationsPayload { relations }
    }
}

/// The text to search for.
#[derive(Debug, PartialEq, Eq)]
pub struct SearchNodesQuery {
    pub query: String,
}

impl Clone for SearchNodesQuery {
    fn clone(&self) -> (r: SearchNodesQuery)
        ensures
            r.query@ == self.query@,
    {
        SearchNodesQuery { query: self.query.clone() }
    }
}

/// The names of the entities to open.
#[derive(Debug, PartialEq, Eq)]
pub struct OpenNodesQuery {
    pub names: Vec<String>,
}

impl Clone for OpenNodesQuery {
    fn clone(&self) -> (r: OpenNodesQuery)
        ensures
            texts(r.names@) == texts(self.names@),
    {
        let names = self.names.clone();
        assert(texts(names@) =~= texts(self.names@));
        OpenNodesQuery { names }
    }
}

/// A part of the graph as clients see it: entities and the relations among them.
#[derive(Debug, PartialEq, Eq)]
pub struct KnowledgeGraphDataResponse {
    pub entities: Vec<ApiEntity>,
    pub relations: Vec<ApiRelation>,
}

impl Clone for KnowledgeGraphDataResponse {
    fn clone(&self) -> (r: KnowledgeGraphDataResponse)
        ensures
            views(r.entities@) == views(self.entities@),
            views(r.relations@) == views(self.relations@),
    {
        let entities = self.entities.clone();
        let relations = self.relations.clone();
        assert(views(entities@) =~= views(self.entities@));
        assert(views(relations@) =~= views(self.relations@));
        KnowledgeGraphDataResponse { entities, relations }
    }
}

/// A copy of a list of nodes.
pub fn clone_nodes(nodes: &Vec<Node>) -> (r: Vec<Node>)
    ensures
        views(r@) == views(nodes@),
{
    let out = nodes.clone();
    assert(views(out@) =~= views(nodes@));
    out
}

/// Copies of the nodes that a list refers to.
pub fn clone_node_refs(nodes: &Vec<&Node>) -> (r: Vec<Node>)
    ensures
        views(r@) == views(nodes@),
{
    let mut out: Vec<Node> = Vec::new();
    let mut i: usize = 0;
    while i < nodes.len()
        invariant
            i <= nodes.len(),
            out.len() == i,
            forall|k: int| 0 <= k < i ==> out@[k]@ == nodes@[k]@,
        decreases nodes.len() - i,
    {
        out.push(nodes[i].clone());
        i = i + 1;
    }
    assert(views(out@) =~= views(nodes@));
    out
}

/// A copy of a list of edges.
pub fn clone_edges(edges: &Vec<Edge>) -> (r: Vec<Edge>)
    ensures
        views(r@) == views(edges@),
{
    let out = edges.clone();
    assert(views(out@) =~= views(edges@));
    out
}

} // verus!
