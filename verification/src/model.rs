//! The graph as a mathematical value, and what each operation of the store
//! makes of it.

use crate::document::{DocumentModel, Entries};
use crate::observations::{
    after_removal, entity_document, extra_data, observations_added, observations_of, removal_of,
    with_observations, Removal,
};
use crate::text::{decimal, mentions, position, text_lt};
use crate::types::{
    AddObservationModel, DeleteObservationModel, EdgeModel, EntityModel, EntityView, NodeModel,
    RelationModel, RelationView, TripleModel,
};
use vstd::prelude::*;

verus! {

/// A graph: its nodes and its edges, each in the order in which they were
/// first inserted, and its metadata.
pub struct GraphModel {
    pub nodes: Seq<NodeModel>,
    pub edges: Seq<EdgeModel>,
    pub metadata: Entries,
}

/// The id of a node.
pub open spec fn id_of_node() -> spec_fn(NodeModel) -> Seq<char> {
    |n: NodeModel| n.id
}

/// The id of an edge.
pub open spec fn id_of_edge() -> spec_fn(EdgeModel) -> Seq<char> {
    |e: EdgeModel| e.id
}

/// The ids of the nodes, in order.
pub open spec fn node_ids(g: GraphModel) -> Seq<Seq<char>> {
    g.nodes.map_values(id_of_node())
}

/// The ids of the edges, in order.
pub open spec fn edge_ids(g: GraphModel) -> Seq<Seq<char>> {
    g.edges.map_values(id_of_edge())
}

/// No two nodes share an id, and no two edges.
pub open spec fn well_formed(g: GraphModel) -> bool {
    node_ids(g).no_duplicates() && edge_ids(g).no_duplicates()
}

/// The graph holds a node with this id.
pub open spec fn has_node(g: GraphModel, id: Seq<char>) -> bool {
    node_ids(g).contains(id)
}

/// The graph holds an edge with this id.
pub open spec fn has_edge(g: GraphModel, id: Seq<char>) -> bool {
    edge_ids(g).contains(id)
}

/// Where the node with this id stands; the number of nodes where there is none.
pub open spec fn node_slot(g: GraphModel, id: Seq<char>) -> int {
    position(node_ids(g), id)
}

/// Where the edge with this id stands; the number of edges where there is none.
pub open spec fn edge_slot(g: GraphModel, id: Seq<char>) -> int {
    position(edge_ids(g), id)
}

/// The node with this id.
pub open spec fn node_of(g: GraphModel, id: Seq<char>) -> Option<NodeModel> {
    if has_node(g, id) {
        Some(g.nodes[node_slot(g, id)])
    } else {
        None
    }
}

/// The edge with this id.
pub open spec fn edge_of(g: GraphModel, id: Seq<char>) -> Option<EdgeModel> {
    if has_edge(g, id) {
        Some(g.edges[edge_slot(g, id)])
    } else {
        None
    }
}

/// Every edge starts and ends at a node of the graph.
pub open spec fn no_dangling_edge(g: GraphModel) -> bool {
    forall|i: int|
        0 <= i < g.edges.len() ==> has_node(g, (#[trigger] g.edges[i]).source_node_id) && has_node(
            g,
            g.edges[i].target_node_id,
        )
}

/// The empty graph.
pub open spec fn empty_graph() -> GraphModel {
    GraphModel { nodes: Seq::empty(), edges: Seq::empty(), metadata: Seq::empty() }
}

/// The graph with `n` in the place of the node that has its id, or at the
/// end where there is none.
pub open spec fn put_node(g: GraphModel, n: NodeModel) -> GraphModel {
    if has_node(g, n.id) {
        GraphModel { nodes: g.nodes.update(node_slot(g, n.id), n), ..g }
    } else {
        GraphModel { nodes: g.nodes.push(n), ..g }
    }
}

/// The graph with `e` in the place of the edge that has its id, or at the
/// end where there is none.
pub open spec fn put_edge(g: GraphModel, e: EdgeModel) -> GraphModel {
    if has_edge(g, e.id) {
        GraphModel { edges: g.edges.update(edge_slot(g, e.id), e), ..g }
    } else {
        GraphModel { edges: g.edges.push(e), ..g }
    }
}

/// The graph after each of `nodes` was put, in order: of nodes that share
/// an id the last one stays, in the place of the first.
pub open spec fn with_nodes(g: GraphModel, nodes: Seq<NodeModel>) -> GraphModel
    decreases nodes.len(),
{
    if nodes.len() == 0 {
        g
    } else {
        put_node(with_nodes(g, nodes.drop_last()), nodes.last())
    }
}

/// The graph after each of `edges` was put, in order.
pub open spec fn with_edges(g: GraphModel, edges: Seq<EdgeModel>) -> GraphModel
    decreases edges.len(),
{
    if edges.len() == 0 {
        g
    } else {
        put_edge(with_edges(g, edges.drop_last()), edges.last())
    }
}

/// The graph without the edge that has this id.
pub open spec fn without_edge(g: GraphModel, id: Seq<char>) -> GraphModel {
    if has_edge(g, id) {
        GraphModel { edges: g.edges.remove(edge_slot(g, id)), ..g }
    } else {
        g
    }
}

/// The nodes with this type tag.
pub open spec fn of_type(node_type: Seq<char>) -> spec_fn(NodeModel) -> bool {
    |n: NodeModel| n.node_type == node_type
}

/// A direction in which edges are followed from a node.
#[derive(Clone, Copy, Debug, PartialEq, Eq, Structural)]
pub enum Direction {
    Outgoing,
    Incoming,
    Both,
}

/// The direction that a request names: `outgoing`, `incoming`, and both
/// ways for any other word or none.
pub open spec fn direction_named(word: Option<Seq<char>>) -> Direction {
    if word == Some("outgoing"@) {
        Direction::Outgoing
    } else if word == Some("incoming"@) {
        Direction::Incoming
    } else {
        Direction::Both
    }
}

/// The edge leaves `id` (outgoing), enters it (incoming), or either (both).
pub open spec fn incident(e: EdgeModel, id: Seq<char>, direction: Direction) -> bool {
    match direction {
        Direction::Outgoing => e.source_node_id == id,
        Direction::Incoming => e.target_node_id == id,
        Direction::Both => e.source_node_id == id || e.target_node_id == id,
    }
}

/// The edges incident to `id` in a direction.
pub open spec fn incident_to(id: Seq<char>, direction: Direction) -> spec_fn(EdgeModel) -> bool {
    |e: EdgeModel| incident(e, id, direction)
}

/// The edges that do not touch `id`.
pub open spec fn clear_of(id: Seq<char>) -> spec_fn(EdgeModel) -> bool {
    |e: EdgeModel| !(e.source_node_id == id || e.target_node_id == id)
}

/// The graph without the node that has this id and without every edge that
/// touches it; the graph itself where there is no such node.
pub open spec fn without_node(g: GraphModel, id: Seq<char>) -> GraphModel {
    if has_node(g, id) {
        GraphModel {
            nodes: g.nodes.remove(node_slot(g, id)),
            edges: g.edges.filter(clear_of(id)),
            ..g
        }
    } else {
        g
    }
}

/// A node with the supplied parts replaced. Its time of update moves to
/// `now_ms` exactly when its tag or its payload is another than before.
pub open spec fn revised(
    n: NodeModel,
    node_type: Option<Seq<char>>,
    data: Option<DocumentModel>,
    now_ms: u64,
) -> NodeModel {
    let new_type = match node_type {
        Some(t) => t,
        None => n.node_type,
    };
    let new_data = match data {
        Some(d) => d,
        None => n.data,
    };
    NodeModel {
        node_type: new_type,
        data: new_data,
        updated_at_ms: if new_type != n.node_type || new_data != n.data {
            now_ms
        } else {
            n.updated_at_ms
        },
        ..n
    }
}

/// The graph with the node that has this id revised.
pub open spec fn with_node_revised(
    g: GraphModel,
    id: Seq<char>,
    node_type: Option<Seq<char>>,
    data: Option<DocumentModel>,
    now_ms: u64,
) -> GraphModel {
    if has_node(g, id) {
        GraphModel {
            nodes: g.nodes.update(
                node_slot(g, id),
                revised(g.nodes[node_slot(g, id)], node_type, data, now_ms),
            ),
            ..g
        }
    } else {
        g
    }
}

/// The graph with the payload of the edge that has this id replaced.
pub open spec fn with_edge_data(
    g: GraphModel,
    id: Seq<char>,
    data: Option<DocumentModel>,
) -> GraphModel {
    if has_edge(g, id) {
        GraphModel {
            edges: g.edges.update(
                edge_slot(g, id),
                EdgeModel { data: data, ..g.edges[edge_slot(g, id)] },
            ),
            ..g
        }
    } else {
        g
    }
}

/// The node that stands for a new entity.
pub open spec fn entity_node(e: EntityModel, now_ms: u64) -> NodeModel {
    NodeModel {
        id: e.name,
        node_type: e.entity_type,
        data: entity_document(e.data, e.observations),
        created_at_ms: now_ms,
        updated_at_ms: now_ms,
    }
}

/// The graph after one entity of a batch: unchanged where a node has its
/// name already, else with its node at the end.
pub open spec fn with_entity(g: GraphModel, e: EntityModel, now_ms: u64) -> GraphModel {
    if has_node(g, e.name) {
        g
    } else {
        GraphModel { nodes: g.nodes.push(entity_node(e, now_ms)), ..g }
    }
}

/// The graph after a batch of entities, taken in order.
pub open spec fn with_entities(g: GraphModel, batch: Seq<EntityModel>, now_ms: u64) -> GraphModel
    decreases batch.len(),
{
    if batch.len() == 0 {
        g
    } else {
        with_entity(with_entities(g, batch.drop_last(), now_ms), batch.last(), now_ms)
    }
}

/// The nodes that a batch of entities creates, in the order of the batch.
pub open spec fn entities_created(g: GraphModel, batch: Seq<EntityModel>, now_ms: u64) -> Seq<
    NodeModel,
>
    decreases batch.len(),
{
    if batch.len() == 0 {
        Seq::empty()
    } else {
        let before = entities_created(g, batch.drop_last(), now_ms);
        if has_node(with_entities(g, batch.drop_last(), now_ms), batch.last().name) {
            before
        } else {
            before.push(entity_node(batch.last(), now_ms))
        }
    }
}

/// The edges from `from` to `to` with this type tag.
pub open spec fn joining(from: Seq<char>, to: Seq<char>, relation_type: Seq<char>) -> spec_fn(
    EdgeModel,
) -> bool {
    |e: EdgeModel| e.source_node_id == from && e.target_node_id == to && e.edge_type == relation_type
}

/// An edge of the graph joins `from` to `to` with this type tag.
pub open spec fn has_relation(
    g: GraphModel,
    from: Seq<char>,
    to: Seq<char>,
    relation_type: Seq<char>,
) -> bool {
    exists|i: int| 0 <= i < g.edges.len() && joining(from, to, relation_type)(#[trigger] g.edges[i])
}

/// The edge that stands for a new relation.
pub open spec fn relation_edge(r: RelationModel, id: Seq<char>, now_ms: u64) -> EdgeModel {
    EdgeModel {
        id: id,
        edge_type: r.relation_type,
        source_node_id: r.from,
        target_node_id: r.to,
        data: r.data,
        created_at_ms: now_ms,
    }
}

/// The first relation of a batch, if any, that names a node the graph lacks.
pub open spec fn first_unknown(g: GraphModel, batch: Seq<RelationModel>) -> Option<int>
    decreases batch.len(),
{
    if batch.len() == 0 {
        None
    } else {
        match first_unknown(g, batch.drop_last()) {
            Some(i) => Some(i),
            None => if has_node(g, batch.last().from) && has_node(g, batch.last().to) {
                None
            } else {
                Some(batch.len() - 1)
            },
        }
    }
}

/// The message for a relation whose source is no node.
pub open spec fn source_missing(name: Seq<char>) -> Seq<char> {
    "Source node with name "@ + name + " not found for relation"@
}

/// The message for a relation whose target is no node.
pub open spec fn target_missing(name: Seq<char>) -> Seq<char> {
    "Target node with name "@ + name + " not found for relation"@
}

/// What is wrong with a relation that names a node the graph lacks: the
/// source is looked at first.
pub open spec fn unknown_end(g: GraphModel, r: RelationModel) -> Seq<char> {
    if !has_node(g, r.from) {
        source_missing(r.from)
    } else {
        target_missing(r.to)
    }
}

/// The graph after one relation of a batch: unchanged where an edge joins
/// the same nodes with the same type tag already, else with the new edge
/// put under `id`.
pub open spec fn with_relation(
    g: GraphModel,
    r: RelationModel,
    id: Seq<char>,
    now_ms: u64,
) -> GraphModel {
    if has_relation(g, r.from, r.to, r.relation_type) {
        g
    } else {
        put_edge(g, relation_edge(r, id, now_ms))
    }
}

/// The graph after a batch of relations, taken in order; `ids[i]` is the id
/// for the edge of the relation `batch[i]`. Where there is not one id for
/// each relation, the graph is as it was.
pub open spec fn with_relations(
    g: GraphModel,
    batch: Seq<RelationModel>,
    ids: Seq<Seq<char>>,
    now_ms: u64,
) -> GraphModel
    decreases batch.len(),
{
    if batch.len() == 0 || ids.len() != batch.len() {
        g
    } else {
        with_relation(
            with_relations(g, batch.drop_last(), ids.drop_last(), now_ms),
            batch.last(),
            ids.last(),
            now_ms,
        )
    }
}

/// The edges that a batch of relations creates, in the order of the batch;
/// none where there is not one id for each relation.
pub open spec fn relations_created(
    g: GraphModel,
    batch: Seq<RelationModel>,
    ids: Seq<Seq<char>>,
    now_ms: u64,
) -> Seq<EdgeModel>
    decreases batch.len(),
{
    if batch.len() == 0 || ids.len() != batch.len() {
        Seq::empty()
    } else {
        let before = relations_created(g, batch.drop_last(), ids.drop_last(), now_ms);
        let r = batch.last();
        if has_relation(
            with_relations(g, batch.drop_last(), ids.drop_last(), now_ms),
            r.from,
            r.to,
            r.relation_type,
        ) {
            before
        } else {
            before.push(relation_edge(r, ids.last(), now_ms))
        }
    }
}

/// The message for an entity that is no node.
pub open spec fn not_found(name: Seq<char>) -> Seq<char> {
    "Entity with name "@ + name + " not found"@
}

/// The message for observations added.
pub open spec fn added(count: nat, name: Seq<char>) -> Seq<char> {
    "Added "@ + decimal(count) + " new observation(s) to entity "@ + name
}

/// The message where every observation was there already.
pub open spec fn none_added(name: Seq<char>) -> Seq<char> {
    "No new observations added to entity "@ + name + " (all existed or empty input)"@
}

/// The message for a payload that is no object.
pub open spec fn not_an_object(name: Seq<char>) -> Seq<char> {
    "Entity "@ + name + " data is not an object, cannot delete observations."@
}

/// The message for an entity without an observation list.
pub open spec fn no_observations(name: Seq<char>) -> Seq<char> {
    "No observations found or field is not an array for entity "@ + name + ", nothing deleted."@
}

/// The message for observations removed.
pub open spec fn processed(name: Seq<char>) -> Seq<char> {
    "Observations processed for entity "@ + name
}

/// The message where no observation was named.
pub open spec fn none_deleted(name: Seq<char>) -> Seq<char> {
    "No matching observations deleted for entity "@ + name
}

/// The outcome of one item of a batch: a message of success or of failure.
pub type Outcome = Result<Seq<char>, Seq<char>>;

/// The graph after the observations of one item were added: the node named
/// gets the new ones, and its time of update moves exactly when one was new.
pub open spec fn with_added(g: GraphModel, item: AddObservationModel, now_ms: u64) -> GraphModel {
    if has_node(g, item.entity_name) {
        let slot = node_slot(g, item.entity_name);
        let n = g.nodes[slot];
        GraphModel {
            nodes: g.nodes.update(
                slot,
                NodeModel {
                    data: with_observations(n.data, item.contents),
                    updated_at_ms: if observations_added(n.data, item.contents) > 0 {
                        now_ms
                    } else {
                        n.updated_at_ms
                    },
                    ..n
                },
            ),
            ..g
        }
    } else {
        g
    }
}

/// The outcome of adding the observations of one item.
pub open spec fn adding_outcome(g: GraphModel, item: AddObservationModel) -> Outcome {
    match node_of(g, item.entity_name) {
        None => Err(not_found(item.entity_name)),
        Some(n) => {
            let count = observations_added(n.data, item.contents);
            if count > 0 {
                Ok(added(count as nat, item.entity_name))
            } else {
                Ok(none_added(item.entity_name))
            }
        },
    }
}

/// The graph after a batch of additions, taken in order.
pub open spec fn with_all_added(
    g: GraphModel,
    batch: Seq<AddObservationModel>,
    now_ms: u64,
) -> GraphModel
    decreases batch.len(),
{
    if batch.len() == 0 {
        g
    } else {
        with_added(with_all_added(g, batch.drop_last(), now_ms), batch.last(), now_ms)
    }
}

/// The outcomes of a batch of additions, one for each item.
pub open spec fn adding_outcomes(
    g: GraphModel,
    batch: Seq<AddObservationModel>,
    now_ms: u64,
) -> Seq<
    Outcome,
>
    decreases batch.len(),
{
    if batch.len() == 0 {
        Seq::empty()
    } else {
        adding_outcomes(g, batch.drop_last(), now_ms).push(
            adding_outcome(with_all_added(g, batch.drop_last(), now_ms), batch.last()),
        )
    }
}

/// The graph after the observations of one item were removed: the node
/// named loses them, and its time of update moves exactly when it lost one.
pub open spec fn with_removed(
    g: GraphModel,
    item: DeleteObservationModel,
    now_ms: u64,
) -> GraphModel {
    if has_node(g, item.entity_name) {
        let slot = node_slot(g, item.entity_name);
        let n = g.nodes[slot];
        GraphModel {
            nodes: g.nodes.update(
                slot,
                NodeModel {
                    data: after_removal(n.data, item.observations),
                    updated_at_ms: if removal_of(n.data, item.observations) == Removal::Removed {
                        now_ms
                    } else {
                        n.updated_at_ms
                    },
                    ..n
                },
            ),
            ..g
        }
    } else {
        g
    }
}

/// The outcome of removing the observations of one item.
pub open spec fn removing_outcome(g: GraphModel, item: DeleteObservationModel) -> Outcome {
    match node_of(g, item.entity_name) {
        None => Err(not_found(item.entity_name)),
        Some(n) => match removal_of(n.data, item.observations) {
            Removal::NotAnObject => Err(not_an_object(item.entity_name)),
            Removal::NoObservations => Ok(no_observations(item.entity_name)),
            Removal::Removed => Ok(processed(item.entity_name)),
            Removal::NothingRemoved => Ok(none_deleted(item.entity_name)),
        },
    }
}

/// The graph after a batch of removals, taken in order.
pub open spec fn with_all_removed(
    g: GraphModel,
    batch: Seq<DeleteObservationModel>,
    now_ms: u64,
) -> GraphModel
    decreases batch.len(),
{
    if batch.len() == 0 {
        g
    } else {
        with_removed(with_all_removed(g, batch.drop_last(), now_ms), batch.last(), now_ms)
    }
}

/// The outcomes of a batch of removals, one for each item.
pub open spec fn removing_outcomes(
    g: GraphModel,
    batch: Seq<DeleteObservationModel>,
    now_ms: u64,
) -> Seq<Outcome>
    decreases batch.len(),
{
    if batch.len() == 0 {
        Seq::empty()
    } else {
        removing_outcomes(g, batch.drop_last(), now_ms).push(
            removing_outcome(with_all_removed(g, batch.drop_last(), now_ms), batch.last()),
        )
    }
}

/// The graph after the entities named were deleted, each with the edges
/// that touch it.
pub open spec fn without_nodes(g: GraphModel, names: Seq<Seq<char>>) -> GraphModel
    decreases names.len(),
{
    if names.len() == 0 {
        g
    } else {
        without_node(without_nodes(g, names.drop_last()), names.last())
    }
}

/// The names, in the order given, under which a node was deleted.
pub open spec fn nodes_deleted(g: GraphModel, names: Seq<Seq<char>>) -> Seq<Seq<char>>
    decreases names.len(),
{
    if names.len() == 0 {
        Seq::empty()
    } else {
        let before = nodes_deleted(g, names.drop_last());
        if has_node(without_nodes(g, names.drop_last()), names.last()) {
            before.push(names.last())
        } else {
            before
        }
    }
}

/// The edge matches the criterion by source, target and type.
pub open spec fn meets(e: EdgeModel, c: TripleModel) -> bool {
    e.source_node_id == c.from && e.target_node_id == c.to && e.edge_type == c.relation_type
}

/// The edges that match one of the criteria.
pub open spec fn condemned(criteria: Seq<TripleModel>) -> spec_fn(EdgeModel) -> bool {
    |e: EdgeModel| exists|k: int| 0 <= k < criteria.len() && meets(e, #[trigger] criteria[k])
}

/// The edges that match none of the criteria.
pub open spec fn spared(criteria: Seq<TripleModel>) -> spec_fn(EdgeModel) -> bool {
    |e: EdgeModel| !condemned(criteria)(e)
}

/// The graph without the edges that match one of the criteria.
pub open spec fn without_relations(g: GraphModel, criteria: Seq<TripleModel>) -> GraphModel {
    GraphModel { edges: g.edges.filter(spared(criteria)), ..g }
}

/// The ids of the edges that match one of the criteria, each once, in the
/// order of the graph.
pub open spec fn relations_deleted(g: GraphModel, criteria: Seq<TripleModel>) -> Seq<Seq<char>> {
    g.edges.filter(condemned(criteria)).map_values(id_of_edge())
}

/// A node as clients see it.
pub open spec fn entity_view() -> spec_fn(NodeModel) -> EntityView {
    |n: NodeModel|
        EntityView {
            name: n.id,
            entity_type: n.node_type,
            observations: observations_of(n.data),
            data: extra_data(n.data),
        }
}

/// An edge as clients see it.
pub open spec fn relation_view() -> spec_fn(EdgeModel) -> RelationView {
    |e: EdgeModel|
        RelationView {
            from: e.source_node_id,
            to: e.target_node_id,
            relation_type: e.edge_type,
            data: e.data,
        }
}

/// The edges whose both ends are among `ids`.
pub open spec fn among(ids: Seq<Seq<char>>) -> spec_fn(EdgeModel) -> bool {
    |e: EdgeModel| ids.contains(e.source_node_id) && ids.contains(e.target_node_id)
}

/// The node mentions the query in its id, in its type tag or in one of its
/// observations, whatever the case of the letters.
pub open spec fn node_mentions(n: NodeModel, query: Seq<char>) -> bool {
    ||| mentions(n.id, query)
    ||| mentions(n.node_type, query)
    ||| exists|i: int|
        0 <= i < observations_of(n.data).len() && mentions(
            #[trigger] observations_of(n.data)[i],
            query,
        )
}

/// The nodes that mention the query.
pub open spec fn mentioning(query: Seq<char>) -> spec_fn(NodeModel) -> bool {
    |n: NodeModel| node_mentions(n, query)
}

/// The nodes whose id is one of `names`.
pub open spec fn named(names: Seq<Seq<char>>) -> spec_fn(NodeModel) -> bool {
    |n: NodeModel| names.contains(n.id)
}

/// The part of the graph that `chosen` selects: the nodes it holds of, in
/// the order of the graph, and the edges whose both ends are among them.
pub open spec fn excerpt(g: GraphModel, chosen: spec_fn(NodeModel) -> bool) -> (
    Seq<EntityView>,
    Seq<RelationView>,
) {
    let nodes = g.nodes.filter(chosen);
    (
        nodes.map_values(entity_view()),
        g.edges.filter(among(nodes.map_values(id_of_node()))).map_values(relation_view()),
    )
}

/// The whole graph as clients see it.
pub open spec fn full_view(g: GraphModel) -> (Seq<EntityView>, Seq<RelationView>) {
    (g.nodes.map_values(entity_view()), g.edges.map_values(relation_view()))
}

/// The edge counts when neighbours of `id` are looked for: it is incident
/// in the direction, and has the type tag where one is asked for.
pub open spec fn leads_from(
    e: EdgeModel,
    id: Seq<char>,
    edge_type: Option<Seq<char>>,
    direction: Direction,
) -> bool {
    &&& incident(e, id, direction)
    &&& match edge_type {
        Some(t) => e.edge_type == t,
        None => true,
    }
}

/// The far end of an edge seen from `id`: the target of an edge that leaves
/// `id`, the source of one that only enters it.
pub open spec fn far_end(e: EdgeModel, id: Seq<char>, direction: Direction) -> Seq<char> {
    match direction {
        Direction::Outgoing => e.target_node_id,
        Direction::Incoming => e.source_node_id,
        Direction::Both => if e.source_node_id == id {
            e.target_node_id
        } else {
            e.source_node_id
        },
    }
}

/// `other` is a neighbour of `id`: a node of the graph at the far end of an
/// edge that counts.
pub open spec fn is_neighbor(
    g: GraphModel,
    id: Seq<char>,
    edge_type: Option<Seq<char>>,
    direction: Direction,
    other: Seq<char>,
) -> bool {
    &&& has_node(g, other)
    &&& exists|i: int|
        0 <= i < g.edges.len() && leads_from(#[trigger] g.edges[i], id, edge_type, direction)
            && far_end(g.edges[i], id, direction) == other
}

/// The nodes stand in the strict order of their ids.
pub open spec fn ordered_by_id(nodes: Seq<NodeModel>) -> bool {
    forall|i: int, j: int| 0 <= i < j < nodes.len() ==> text_lt(nodes[i].id, nodes[j].id)
}

/// `list` holds the neighbours of `id`, each once, in the strict order of
/// their ids: every one of its items is a node of the graph, and an id is
/// among theirs exactly when it is that of a neighbour.
pub open spec fn lists_neighbors(
    g: GraphModel,
    id: Seq<char>,
    edge_type: Option<Seq<char>>,
    direction: Direction,
    list: Seq<NodeModel>,
) -> bool {
    &&& ordered_by_id(list)
    &&& forall|k: int| 0 <= k < list.len() ==> node_of(g, (#[trigger] list[k]).id) == Some(list[k])
    &&& forall|other: Seq<char>|
        list.map_values(id_of_node()).contains(other) <==> is_neighbor(
            g,
            id,
            edge_type,
            direction,
            other,
        )
}

} // verus!
