//! One request against the graph: what it makes of the graph, what it
//! answers, and whether the graph has to be written back.

use crate::batch::{fresh_or_unused, outcomes};
use crate::document::optional_model;
use crate::ident::{is_hyphenated, new_id};
use crate::kg::KnowledgeGraphState;
use crate::model::{
    adding_outcomes, direction_named, edge_of, empty_graph, entities_created, excerpt,
    first_unknown, full_view, has_edge, has_node, lists_neighbors, mentioning, named, node_of,
    nodes_deleted, of_type, put_edge, put_node, relations_created, relations_deleted,
    removing_outcomes, unknown_end, with_all_added, with_all_removed, with_edge_data,
    with_entities, with_node_revised, with_relations, without_edge, without_node, without_nodes,
    without_relations, GraphModel,
};
use crate::text::{join2, join3, texts};
use crate::types::{
    clone_node_refs, clone_nodes, optional_text, views, AddObservationsPayload, CreateEdgeModel,
    CreateEdgePayload, CreateEntitiesPayload, CreateNodeModel, CreateNodePayload,
    CreateRelationsPayload, DeleteEntitiesPayload, DeleteObservationsPayload,
    DeleteRelationsPayload, Edge, EdgeModel, EntityView, KnowledgeGraphDataResponse, Node,
    NodeModel, OpenNodesQuery, RelationView, SearchNodesQuery, UpdateEdgePayload, UpdateNodePayload,
};
use vstd::prelude::*;

verus! {

/// A request, with what the client supplied for it.
#[allow(inconsistent_fields)]
#[derive(Debug, PartialEq, Eq)]
pub enum Request {
    CreateNode(CreateNodePayload),
    ListNodes { node_type: Option<String> },
    GetNode { id: String },
    UpdateNode { id: String, payload: UpdateNodePayload },
    DeleteNode { id: String },
    RelatedNodes { id: String, edge_type: Option<String>, direction: Option<String> },
    CreateEdge(CreateEdgePayload),
    GetEdge { id: String },
    UpdateEdge { id: String, payload: UpdateEdgePayload },
    DeleteEdge { id: String },
    CreateEntities(CreateEntitiesPayload),
    CreateRelations(CreateRelationsPayload),
    AddObservations(AddObservationsPayload),
    DeleteEntities(DeleteEntitiesPayload),
    DeleteObservations(DeleteObservationsPayload),
    DeleteRelations(DeleteRelationsPayload),
    Search(SearchNodesQuery),
    Open(OpenNodesQuery),
    ReadGraph,
    Unknown,
}

/// What an answer carries.
#[derive(Debug, PartialEq, Eq)]
pub enum Body {
    Node(Node),
    Nodes(Vec<Node>),
    Edge(Edge),
    Edges(Vec<Edge>),
    /// The id of what was deleted.
    Deleted(String),
    Names(Vec<String>),
    Outcomes(Vec<Result<String, String>>),
    Graph(KnowledgeGraphDataResponse),
    /// Why the request failed.
    Message(String),
}

/// The answer to a request: a status, a body, and whether the graph has to
/// be written back.
#[derive(Debug, PartialEq, Eq)]
pub struct Reply {
    pub status: u16,
    pub body: Body,
    pub persist: bool,
}

/// The answer is a failure with this status and this message, and the
/// graph need not be written back.
pub open spec fn refuses(r: Reply, status: u16, message: Seq<char>) -> bool {
    &&& r.status == status
    &&& !r.persist
    &&& r.body matches Body::Message(m)
    &&& m@ == message
}

/// The node of a new-node request.
pub open spec fn payload_node(id: Seq<char>, p: CreateNodeModel, now_ms: u64) -> NodeModel {
    NodeModel {
        id: id,
        node_type: p.node_type,
        data: p.data,
        created_at_ms: now_ms,
        updated_at_ms: now_ms,
    }
}

/// The edge of a new-edge request.
pub open spec fn payload_edge(id: Seq<char>, p: CreateEdgeModel, now_ms: u64) -> EdgeModel {
    EdgeModel {
        id: id,
        edge_type: p.edge_type,
        source_node_id: p.source_node_id,
        target_node_id: p.target_node_id,
        data: p.data,
        created_at_ms: now_ms,
    }
}

/// The node for a new-node request, under `id` and stamped `now_ms`.
pub fn construct_node_from_payload(id: String, payload: CreateNodePayload, now_ms: u64) -> (r: Node)
    ensures
        r@ == payload_node(id@, payload@, now_ms),
{
    Node {
        id,
        node_type: payload.node_type,
        data: payload.data,
        created_at_ms: now_ms,
        updated_at_ms: now_ms,
    }
}

/// The edge for a new-edge request, under `id` and stamped `now_ms`.
pub fn construct_edge_from_payload(id: String, payload: CreateEdgePayload, now_ms: u64) -> (r: Edge)
    ensures
        r@ == payload_edge(id@, payload@, now_ms),
{
    Edge {
        id,
        edge_type: payload.edge_type,
        source_node_id: payload.source_node_id,
        target_node_id: payload.target_node_id,
        data: payload.data,
        created_at_ms: now_ms,
    }
}

/// What a new-node request under `id` makes of the graph and answers.
pub open spec fn node_created(
    g: GraphModel,
    id: Seq<char>,
    p: CreateNodeModel,
    now_ms: u64,
    after: GraphModel,
    r: Reply,
) -> bool {
    &&& after == put_node(g, payload_node(id, p, now_ms))
    &&& r.status == 201
    &&& r.persist
    &&& r.body matches Body::Node(n)
    &&& n@ == payload_node(id, p, now_ms)
}

/// What a new-edge request under `id` makes of the graph and answers: it
/// is refused where one of its ends is no node, the source looked at first.
pub open spec fn edge_created(
    g: GraphModel,
    id: Seq<char>,
    p: CreateEdgeModel,
    now_ms: u64,
    after: GraphModel,
    r: Reply,
) -> bool {
    if !has_node(g, p.source_node_id) {
        after == g && refuses(r, 400, "Source node "@ + p.source_node_id + " not found"@)
    } else if !has_node(g, p.target_node_id) {
        after == g && refuses(r, 400, "Target node "@ + p.target_node_id + " not found"@)
    } else {
        &&& after == put_edge(g, payload_edge(id, p, now_ms))
        &&& r.status == 201
        &&& r.persist
        &&& r.body matches Body::Edge(e)
        &&& e@ == payload_edge(id, p, now_ms)
    }
}

/// The answer shows a part of the graph; the graph need not be written back.
pub open spec fn shows(r: Reply, part: (Seq<EntityView>, Seq<RelationView>)) -> bool {
    &&& r.status == 200
    &&& !r.persist
    &&& r.body matches Body::Graph(d)
    &&& (views(d.entities@), views(d.relations@)) == part
}

/// What a request makes of the graph `g` at the time `now_ms`, and what it
/// answers: `after` is the graph it leaves, `r` its answer.
pub open spec fn handled(
    g: GraphModel,
    request: Request,
    now_ms: u64,
    after: GraphModel,
    r: Reply,
) -> bool {
    match request {
        Request::CreateNode(p) => exists|id: Seq<char>|
            is_hyphenated(id) && #[trigger] node_created(g, id, p@, now_ms, after, r),
        Request::ListNodes { node_type } => {
            &&& after == g
            &&& r.status == 200
            &&& !r.persist
            &&& r.body matches Body::Nodes(v)
            &&& views(v@) == match node_type {
                Some(t) => g.nodes.filter(of_type(t@)),
                None => g.nodes,
            }
        },
        Request::GetNode { id } => {
            &&& after == g
            &&& match node_of(g, id@) {
                Some(n) => {
                    &&& r.status == 200
                    &&& !r.persist
                    &&& r.body matches Body::Node(x)
                    &&& x@ == n
                },
                None => refuses(r, 404, "Node not found"@),
            }
        },
        Request::UpdateNode { id, payload } => {
            &&& after == with_node_revised(
                g,
                id@,
                optional_text(payload.node_type),
                optional_model(payload.data),
                now_ms,
            )
            &&& if has_node(g, id@) {
                &&& r.status == 200
                &&& r.persist
                &&& r.body matches Body::Node(x)
                &&& Some(x@) == node_of(after, id@)
            } else {
                refuses(r, 404, "Node not found"@)
            }
        },
        Request::DeleteNode { id } => {
            &&& after == without_node(g, id@)
            &&& if has_node(g, id@) {
                &&& r.status == 200
                &&& r.persist
                &&& r.body matches Body::Deleted(d)
                &&& d@ == id@
            } else {
                refuses(r, 404, "Node not found"@)
            }
        },
        Request::RelatedNodes { id, edge_type, direction } => {
            &&& after == g
            &&& if has_node(g, id@) {
                &&& r.status == 200
                &&& !r.persist
                &&& r.body matches Body::Nodes(v)
                &&& lists_neighbors(
                    g,
                    id@,
                    optional_text(edge_type),
                    direction_named(optional_text(direction)),
                    views(v@),
                )
            } else {
                refuses(r, 404, "Start node not found"@)
            }
        },
        Request::CreateEdge(p) => exists|id: Seq<char>|
            is_hyphenated(id) && #[trigger] edge_created(g, id, p@, now_ms, after, r),
        Request::GetEdge { id } => {
            &&& after == g
            &&& match edge_of(g, id@) {
                Some(e) => {
                    &&& r.status == 200
                    &&& !r.persist
                    &&& r.body matches Body::Edge(x)
                    &&& x@ == e
                },
                None => refuses(r, 404, "Edge not found"@),
            }
        },
        Request::UpdateEdge { id, payload } => {
            &&& after == with_edge_data(g, id@, optional_model(payload.data))
            &&& if has_edge(g, id@) {
                &&& r.status == 200
                &&& r.persist
                &&& r.body matches Body::Edge(x)
                &&& Some(x@) == edge_of(after, id@)
            } else {
                refuses(r, 404, "Edge not found"@)
            }
        },
        Request::DeleteEdge { id } => {
            &&& after == without_edge(g, id@)
            &&& if has_edge(g, id@) {
                &&& r.status == 200
                &&& r.persist
                &&& r.body matches Body::Deleted(d)
                &&& d@ == id@
            } else {
                refuses(r, 404, "Edge not found"@)
            }
        },
        Request::CreateEntities(p) => {
            &&& after == with_entities(g, views(p.entities@), now_ms)
            &&& r.status == 200
            &&& r.persist
            &&& r.body matches Body::Nodes(v)
            &&& views(v@) == entities_created(g, views(p.entities@), now_ms)
        },
        Request::CreateRelations(p) => match first_unknown(g, views(p.relations@)) {
            Some(i) => {
                &&& after == g
                &&& refuses(
                    r,
                    500,
                    "Failed to create relations: "@ + unknown_end(g, views(p.relations@)[i]),
                )
            },
            None => {
                &&& r.status == 200
                &&& r.persist
                &&& r.body matches Body::Edges(v)
                &&& exists|ids: Seq<Seq<char>>|
                    {
                        &&& ids.len() == p.relations.len()
                        &&& fresh_or_unused(ids)
                        &&& after == with_relations(g, views(p.relations@), ids, now_ms)
                        &&& views(v@) == #[trigger] relations_created(
                            g,
                            views(p.relations@),
                            ids,
                            now_ms,
                        )
                    }
            },
        },
        Request::AddObservations(p) => {
            &&& after == with_all_added(g, views(p.observations@), now_ms)
            &&& r.status == 200
            &&& r.persist
            &&& r.body matches Body::Outcomes(v)
            &&& outcomes(v@) == adding_outcomes(g, views(p.observations@), now_ms)
        },
        Request::DeleteEntities(p) => {
            &&& after == without_nodes(g, texts(p.entity_names@))
            &&& r.status == 200
            &&& r.persist
            &&& r.body matches Body::Names(v)
            &&& texts(v@) == nodes_deleted(g, texts(p.entity_names@))
        },
        Request::DeleteObservations(p) => {
            &&& after == with_all_removed(g, views(p.deletions@), now_ms)
            &&& r.status == 200
            &&& r.persist
            &&& r.body matches Body::Outcomes(v)
            &&& outcomes(v@) == removing_outcomes(g, views(p.deletions@), now_ms)
        },
        Request::DeleteRelations(p) => {
            &&& after == without_relations(g, views(p.relations@))
            &&& r.status == 200
            &&& r.persist
            &&& r.body matches Body::Names(v)
            &&& texts(v@) == relations_deleted(g, views(p.relations@))
        },
        Request::Search(q) => after == g && shows(r, excerpt(g, mentioning(q.query@))),
        Request::Open(q) => after == g && shows(r, excerpt(g, named(texts(q.names@)))),
        Request::ReadGraph => after == g && shows(r, full_view(g)),
        Request::Unknown => after == g && refuses(r, 404, "Not Found"@),
    }
}

/// A failure with a status and a message.
pub fn refuse(status: u16, message: String) -> (r: Reply)
    ensures
        refuses(r, status, message@),
{
    Reply { status, body: Body::Message(message), persist: false }
}

/// The answer to a request whose body cannot be read: the graph is not
/// looked at.
pub fn bad_request(detail: &str) -> (r: Reply)
    ensures
        refuses(r, 400, "Bad request: "@ + detail@),
{
    refuse(400, join2("Bad request: ", detail))
}

impl KnowledgeGraphState {
    /// The graph to work on: the one that was stored, or the empty graph
    /// where none could be had.
    pub fn load_or_initialize_graph_state(stored: Option<KnowledgeGraphState>) -> (r:
        KnowledgeGraphState)
        requires
            stored matches Some(s) ==> s.wf(),
        ensures
            r.wf(),
            match stored {
                Some(s) => r@ == s@,
                None => r@ == empty_graph(),
            },
    {
        match stored {
            Some(s) => s,
            None => KnowledgeGraphState::new(),
        }
    }

    /// Creates a node under `id` for a new-node request, stamped `now_ms`.
    pub fn create_node(&mut self, id: String, payload: CreateNodePayload, now_ms: u64) -> (r: Reply)
        requires
            old(self).wf(),
        ensures
            final(self).wf(),
            node_created(old(self)@, id@, payload@, now_ms, final(self)@, r),
    {
        let node = construct_node_from_payload(id, payload, now_ms);
        let copy = node.clone();
        self.add_node(node);
        Reply { status: 201, body: Body::Node(copy), persist: true }
    }

    /// Creates an edge under `id` for a new-edge request, stamped `now_ms`,
    /// where both its ends are nodes.
    pub fn create_edge(&mut self, id: String, payload: CreateEdgePayload, now_ms: u64) -> (r: Reply)
        requires
            old(self).wf(),
        ensures
            final(self).wf(),
            edge_created(old(self)@, id@, payload@, now_ms, final(self)@, r),
    {
        if !self.contains_node(payload.source_node_id.as_str()) {
            return refuse(400, join3("Source node ", payload.source_node_id.as_str(), " not found"));
        }
        if !self.contains_node(payload.target_node_id.as_str()) {
            return refuse(400, join3("Target node ", payload.target_node_id.as_str(), " not found"));
        }
        let edge = construct_edge_from_payload(id, payload, now_ms);
        let copy = edge.clone();
        self.add_edge(edge);
        Reply { status: 201, body: Body::Edge(copy), persist: true }
    }

    /// Answers one request at the time `now_ms`. An answer that does not ask
    /// for the graph to be written back has left the graph as it was.
    pub fn handle(&mut self, request: Request, now_ms: u64) -> (r: Reply)
        requires
            old(self).wf(),
        ensures
            final(self).wf(),
            handled(old(self)@, request, now_ms, final(self)@, r),
            !r.persist ==> final(self)@ == old(self)@,
    {
        match request {
            Request::CreateNode(payload) => self.create_node(new_id(), payload, now_ms),
            Request::ListNodes { node_type } => {
                let nodes = match &node_type {
                    Some(t) => clone_node_refs(&self.find_nodes_by_type(t.as_str())),
                    None => clone_nodes(self.nodes()),
                };
                Reply { status: 200, body: Body::Nodes(nodes), persist: false }
            },
            Request::GetNode { id } => match self.get_node(id.as_str()) {
                Some(node) => Reply { status: 200, body: Body::Node(node.clone()), persist: false },
                None => refuse(404, "Node not found".to_owned()),
            },
            Request::UpdateNode { id, payload } => {
                let UpdateNodePayload { node_type, data } = payload;
                match self.update_node(id.as_str(), node_type, data, now_ms) {
                    Some(node) => Reply { status: 200, body: Body::Node(node), persist: true },
                    None => refuse(404, "Node not found".to_owned()),
                }
            },
            Request::DeleteNode { id } => {
                match self.delete_node_and_connected_edges(id.as_str()) {
                    Some(_) => Reply { status: 200, body: Body::Deleted(id), persist: true },
                    None => refuse(404, "Node not found".to_owned()),
                }
            },
            Request::RelatedNodes { id, edge_type, direction } => {
                if !self.contains_node(id.as_str()) {
                    return refuse(404, "Start node not found".to_owned());
                }
                let kind = match &edge_type {
                    Some(t) => Some(t.as_str()),
                    None => None,
                };
                let way = match &direction {
                    Some(d) => Some(d.as_str()),
                    None => None,
                };
                let nodes = self.neighbors(id.as_str(), kind, way);
                Reply { status: 200, body: Body::Nodes(nodes), persist: false }
            },
            Request::CreateEdge(payload) => self.create_edge(new_id(), payload, now_ms),
            Request::GetEdge { id } => match self.get_edge(id.as_str()) {
                Some(edge) => Reply { status: 200, body: Body::Edge(edge.clone()), persist: false },
                None => refuse(404, "Edge not found".to_owned()),
            },
            Request::UpdateEdge { id, payload } => {
                match self.update_edge_data(id.as_str(), payload.data) {
                    Some(edge) => Reply { status: 200, body: Body::Edge(edge), persist: true },
                    None => refuse(404, "Edge not found".to_owned()),
                }
            },
            Request::DeleteEdge { id } => match self.remove_edge(id.as_str()) {
                Some(_) => Reply { status: 200, body: Body::Deleted(id), persist: true },
                None => refuse(404, "Edge not found".to_owned()),
            },
            Request::CreateEntities(payload) => {
                match self.create_entities_batch(payload.entities, now_ms) {
                    Ok(nodes) => Reply { status: 200, body: Body::Nodes(nodes), persist: true },
                    Err(message) => refuse(500, message),
                }
            },
            Request::CreateRelations(payload) => {
                match self.create_relations_batch(payload.relations, now_ms) {
                    Ok(edges) => Reply { status: 200, body: Body::Edges(edges), persist: true },
                    Err(message) => refuse(
                        500,
                        join2("Failed to create relations: ", message.as_str()),
                    ),
                }
            },
            Request::AddObservations(payload) => {
                let results = self.add_observations_batch(payload.observations, now_ms);
                Reply { status: 200, body: Body::Outcomes(results), persist: true }
            },
            Request::DeleteEntities(payload) => {
                match self.delete_entities_batch(payload.entity_names) {
                    Ok(names) => Reply { status: 200, body: Body::Names(names), persist: true },
                    Err(message) => refuse(500, message),
                }
            },
            Request::DeleteObservations(payload) => {
                let results = self.delete_observations_batch(payload.deletions, now_ms);
                Reply { status: 200, body: Body::Outcomes(results), persist: true }
            },
            Request::DeleteRelations(payload) => {
                match self.delete_relations_batch(payload.relations) {
                    Ok(ids) => Reply { status: 200, body: Body::Names(ids), persist: true },
                    Err(message) => refuse(500, message),
                }
            },
            Request::Search(query) => {
                let (entities, relations) = self.search_nodes(query.query.as_str());
                Reply {
                    status: 200,
                    body: Body::Graph(KnowledgeGraphDataResponse { entities, relations }),
                    persist: false,
                }
            },
            Request::Open(query) => {
                let (entities, relations) = self.open_nodes(query.names.as_slice());
                Reply {
                    status: 200,
                    body: Body::Graph(KnowledgeGraphDataResponse { entities, relations }),
                    persist: false,
                }
            },
            Request::ReadGraph => {
                let (entities, relations) = self.get_full_graph_data();
                Reply {
                    status: 200,
                    body: Body::Graph(KnowledgeGraphDataResponse { entities, relations }),
                    persist: false,
                }
            },
            Request::Unknown => refuse(404, "Not Found".to_owned()),
        }
    }
}

} // verus!
