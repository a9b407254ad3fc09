//! What holds of the graph whatever is done to it.

use crate::batch::fresh_or_unused;
use crate::document::{optional_model, DocumentModel};
use crate::ident::is_hyphenated;
use crate::lemmas::{
    lemma_ascending_lists_agree, lemma_edge_data_sound, lemma_put_edge_sound, lemma_put_node_sound,
    lemma_revision_sound, lemma_with_all_added_frame, lemma_with_all_added_known,
    lemma_with_all_added_knows, lemma_with_all_removed_frame, lemma_with_entities_all_taken,
    lemma_with_entities_has_all, lemma_with_entities_sound, lemma_with_entity_keeps,
    lemma_with_observations_known, lemma_with_observations_knows, lemma_with_relations_sound,
    lemma_without_edge_sound, lemma_without_node_ids, lemma_without_node_keeps_untouched,
    lemma_without_node_sound, lemma_without_nodes_sound, lemma_without_nodes_well_formed,
    lemma_without_relations_sound, node_knows,
};
use crate::model::{
    among, clear_of, entities_created, entity_view, excerpt, first_unknown, full_view, has_node,
    id_of_node, lists_neighbors, mentioning, no_dangling_edge, node_ids, node_of, nodes_deleted,
    relation_view, relations_created, well_formed, with_all_added, with_all_removed, with_entities,
    with_relations, without_node, without_nodes, without_relations, Direction, GraphModel,
};
use crate::observations::{append_new, observations_added, with_observations};
use crate::service::{
    edge_created, handled, node_created, payload_edge, payload_node, Reply, Request,
};
use crate::text::{text_lt, texts};
use crate::types::{
    optional_text, views, AddObservationModel, DeleteObservationModel, EntityModel, EntityView,
    NodeModel, RelationModel, TripleModel,
};
use vstd::prelude::*;

verus! {

/// No edge of the graph starts or ends at `id`.
pub open spec fn untouched(g: GraphModel, id: Seq<char>) -> bool {
    forall|i: int|
        0 <= i < g.edges.len() ==> (#[trigger] g.edges[i]).source_node_id != id
            && g.edges[i].target_node_id != id
}

/// Cascading delete: once the node with an id was deleted, the graph holds
/// no node with that id and no edge that starts or ends there.
pub proof fn law_delete_cascades(g: GraphModel, id: Seq<char>)
    requires
        well_formed(g),
        has_node(g, id),
    ensures
        !has_node(without_node(g, id), id),
        untouched(without_node(g, id), id),
{
    lemma_without_node_ids(g, id, id);
    let after = without_node(g, id);
    assert forall|i: int| 0 <= i < after.edges.len() implies (#[trigger] after.edges[i]).source_node_id
        != id && after.edges[i].target_node_id != id by {
        g.edges.lemma_filter_pred(clear_of(id), i);
    }
}

/// Cascading delete in a batch: every name under which a node was deleted
/// is the id of no node afterwards, and no edge starts or ends there.
pub proof fn law_batch_delete_cascades(g: GraphModel, names: Seq<Seq<char>>, k: int)
    requires
        well_formed(g),
        0 <= k < nodes_deleted(g, names).len(),
    ensures
        !has_node(without_nodes(g, names), nodes_deleted(g, names)[k]),
        untouched(without_nodes(g, names), nodes_deleted(g, names)[k]),
    decreases names.len(),
{
    if names.len() > 0 {
        let front = names.drop_last();
        let before = without_nodes(g, front);
        let id = nodes_deleted(g, names)[k];
        lemma_without_nodes_well_formed(g, front);
        if k < nodes_deleted(g, front).len() {
            law_batch_delete_cascades(g, front, k);
            assert(nodes_deleted(g, front)[k] == id);
            lemma_without_node_ids(before, names.last(), id);
            lemma_without_node_keeps_untouched(before, names.last(), id);
        } else {
            assert(id == names.last());
            law_delete_cascades(before, id);
        }
    }
}

/// The names of a list of entities as clients see them.
pub open spec fn names_of(entities: Seq<EntityView>) -> Seq<Seq<char>> {
    entities.map_values(|e: EntityView| e.name)
}

/// Search and open give a closed part of the graph: every relation they
/// return stands for an edge of the graph, and both its ends are among the
/// entities returned with it.
pub proof fn law_excerpt_is_closed(g: GraphModel, chosen: spec_fn(NodeModel) -> bool, i: int)
    requires
        0 <= i < excerpt(g, chosen).1.len(),
    ensures
        names_of(excerpt(g, chosen).0).contains(excerpt(g, chosen).1[i].from),
        names_of(excerpt(g, chosen).0).contains(excerpt(g, chosen).1[i].to),
        exists|k: int|
            0 <= k < g.edges.len() && relation_view()(#[trigger] g.edges[k]) == excerpt(
                g,
                chosen,
            ).1[i],
{
    let nodes = g.nodes.filter(chosen);
    let ids = nodes.map_values(id_of_node());
    let kept = g.edges.filter(among(ids));
    assert(names_of(excerpt(g, chosen).0) =~= ids);
    g.edges.lemma_filter_pred(among(ids), i);
    g.edges.lemma_filter_contains_rev(among(ids), kept[i]);
    let k = choose|k: int| 0 <= k < g.edges.len() && g.edges[k] == kept[i];
    assert(relation_view()(g.edges[k]) == excerpt(g, chosen).1[i]);
}

/// Search returns no relation without both its ends among the entities
/// that match.
pub proof fn law_search_relations_join_matches(g: GraphModel, query: Seq<char>, i: int)
    requires
        0 <= i < excerpt(g, mentioning(query)).1.len(),
    ensures
        names_of(excerpt(g, mentioning(query)).0).contains(excerpt(g, mentioning(query)).1[i].from),
        names_of(excerpt(g, mentioning(query)).0).contains(excerpt(g, mentioning(query)).1[i].to),
{
    law_excerpt_is_closed(g, mentioning(query), i);
}

/// Every entity that search or open returns stands for a node of the graph
/// that was chosen.
pub proof fn law_excerpt_shows_only_chosen(
    g: GraphModel,
    chosen: spec_fn(NodeModel) -> bool, i: int,
)
    requires
        0 <= i < excerpt(g, chosen).0.len(),
    ensures
        exists|k: int|
            0 <= k < g.nodes.len() && chosen(g.nodes[k]) && entity_view()(#[trigger] g.nodes[k])
                == excerpt(g, chosen).0[i],
{
    let nodes = g.nodes.filter(chosen);
    g.nodes.lemma_filter_pred(chosen, i);
    g.nodes.lemma_filter_contains_rev(chosen, nodes[i]);
    let k = choose|k: int| 0 <= k < g.nodes.len() && g.nodes[k] == nodes[i];
    assert(entity_view()(g.nodes[k]) == excerpt(g, chosen).0[i]);
}

/// Every chosen node is among the entities that search or open returns.
pub proof fn law_excerpt_shows_every_chosen(
    g: GraphModel,
    chosen: spec_fn(NodeModel) -> bool, k: int,
)
    requires
        0 <= k < g.nodes.len(),
        chosen(g.nodes[k]),
    ensures
        excerpt(g, chosen).0.contains(entity_view()(g.nodes[k])),
{
    let nodes = g.nodes.filter(chosen);
    g.nodes.lemma_filter_contains(chosen, k);
    let j = choose|j: int| 0 <= j < nodes.len() && nodes[j] == g.nodes[k];
    assert(excerpt(g, chosen).0[j] == entity_view()(g.nodes[k]));
}

/// The full view shows the graph as it is: one entity for each node and one
/// relation for each edge, in the order of the graph, and nothing else.
pub proof fn law_full_view_is_faithful(g: GraphModel)
    ensures
        full_view(g).0.len() == g.nodes.len(),
        full_view(g).1.len() == g.edges.len(),
        names_of(full_view(g).0) == node_ids(g),
        forall|i: int|
            0 <= i < g.nodes.len() ==> #[trigger] full_view(g).0[i] == entity_view()(g.nodes[i]),
        forall|i: int|
            0 <= i < g.edges.len() ==> #[trigger] full_view(g).1[i] == relation_view()(g.edges[i]),
{
    assert(names_of(full_view(g).0) =~= node_ids(g));
}

/// A batch of entities leaves every node that was there as it was.
pub proof fn law_create_entities_leaves_existing(
    g: GraphModel,
    batch: Seq<EntityModel>,
    now_ms: u64,
    id: Seq<char>,
)
    requires
        has_node(g, id),
    ensures
        has_node(with_entities(g, batch, now_ms), id),
        node_of(with_entities(g, batch, now_ms), id) == node_of(g, id),
    decreases batch.len(),
{
    if batch.len() > 0 {
        law_create_entities_leaves_existing(g, batch.drop_last(), now_ms, id);
        lemma_with_entity_keeps(with_entities(g, batch.drop_last(), now_ms), batch.last(), now_ms, id);
    }
}

/// Creating the same entities twice is creating them once: the second
/// batch, at whatever time, creates no node and leaves the graph, with the
/// times of the nodes of the first batch, as it was.
pub proof fn law_create_entities_twice(
    g: GraphModel,
    batch: Seq<EntityModel>,
    first_ms: u64,
    second_ms: u64,
)
    ensures
        with_entities(with_entities(g, batch, first_ms), batch, second_ms) == with_entities(
            g,
            batch,
            first_ms,
        ),
        entities_created(with_entities(g, batch, first_ms), batch, second_ms) == Seq::<
            NodeModel,
        >::empty(),
{
    let once = with_entities(g, batch, first_ms);
    assert forall|i: int| 0 <= i < batch.len() implies has_node(once, (#[trigger] batch[i]).name) by {
        lemma_with_entities_has_all(g, batch, first_ms, i);
    }
    lemma_with_entities_all_taken(once, batch, second_ms);
}

/// Appending never brings a text that the list holds a second time: a list
/// without duplicates stays without.
pub proof fn law_append_new_keeps_distinct(items: Seq<DocumentModel>, contents: Seq<Seq<char>>)
    requires
        items.no_duplicates(),
    ensures
        append_new(items, contents).no_duplicates(),
    decreases contents.len(),
{
    if contents.len() > 0 {
        law_append_new_keeps_distinct(items, contents.drop_last());
    }
}

/// Adding the same observations to a document twice is adding them once:
/// the second time adds none and leaves the document as it was.
pub proof fn law_add_observations_twice_to_document(d: DocumentModel, contents: Seq<Seq<char>>)
    ensures
        with_observations(with_observations(d, contents), contents) == with_observations(
            d,
            contents,
        ),
        observations_added(with_observations(d, contents), contents) == 0,
{
    lemma_with_observations_knows(d, contents, contents);
    lemma_with_observations_known(with_observations(d, contents), contents);
}

/// Adding the same observations twice is adding them once: the second
/// batch, at whatever time, adds no observation and leaves the graph, with
/// the times of its nodes, as the first batch left it.
pub proof fn law_add_observations_twice(
    g: GraphModel,
    batch: Seq<AddObservationModel>,
    first_ms: u64,
    second_ms: u64,
)
    ensures
        with_all_added(with_all_added(g, batch, first_ms), batch, second_ms) == with_all_added(
            g,
            batch,
            first_ms,
        ),
{
    let once = with_all_added(g, batch, first_ms);
    assert forall|k: int| 0 <= k < batch.len() implies node_knows(once, #[trigger] batch[k]) by {
        lemma_with_all_added_knows(g, batch, first_ms, k);
    }
    lemma_with_all_added_known(once, batch, second_ms);
}

/// The graph is sound: no two nodes share an id, no two edges, and every
/// edge starts and ends at a node.
pub open spec fn sound(g: GraphModel) -> bool {
    well_formed(g) && no_dangling_edge(g)
}

/// One batch operation on the graph.
#[allow(inconsistent_fields)]
pub enum Step {
    CreateEntities { batch: Seq<EntityModel>, now_ms: u64 },
    CreateRelations { batch: Seq<RelationModel>, ids: Seq<Seq<char>>, now_ms: u64 },
    AddObservations { batch: Seq<AddObservationModel>, now_ms: u64 },
    DeleteEntities { names: Seq<Seq<char>> },
    DeleteObservations { batch: Seq<DeleteObservationModel>, now_ms: u64 },
    DeleteRelations { criteria: Seq<TripleModel> },
}

/// The graph after one batch operation. A batch of relations that names a
/// node the graph lacks leaves the graph as it is.
pub open spec fn after_step(g: GraphModel, step: Step) -> GraphModel {
    match step {
        Step::CreateEntities { batch, now_ms } => with_entities(g, batch, now_ms),
        Step::CreateRelations { batch, ids, now_ms } => if first_unknown(g, batch) is None {
            with_relations(g, batch, ids, now_ms)
        } else {
            g
        },
        Step::AddObservations { batch, now_ms } => with_all_added(g, batch, now_ms),
        Step::DeleteEntities { names } => without_nodes(g, names),
        Step::DeleteObservations { batch, now_ms } => with_all_removed(g, batch, now_ms),
        Step::DeleteRelations { criteria } => without_relations(g, criteria),
    }
}

/// The graph after a sequence of batch operations, taken in order.
pub open spec fn after_steps(g: GraphModel, steps: Seq<Step>) -> GraphModel
    decreases steps.len(),
{
    if steps.len() == 0 {
        g
    } else {
        after_step(after_steps(g, steps.drop_last()), steps.last())
    }
}

/// Every batch operation keeps a sound graph sound.
pub proof fn law_step_keeps_sound(g: GraphModel, step: Step)
    requires
        sound(g),
    ensures
        sound(after_step(g, step)),
{
    match step {
        Step::CreateEntities { batch, now_ms } => {
            lemma_with_entities_sound(g, batch, now_ms);
        },
        Step::CreateRelations { batch, ids, now_ms } => {
            if first_unknown(g, batch) is None {
                lemma_with_relations_sound(g, batch, ids, now_ms);
            }
        },
        Step::AddObservations { batch, now_ms } => {
            lemma_with_all_added_frame(g, batch, now_ms);
        },
        Step::DeleteEntities { names } => {
            lemma_without_nodes_sound(g, names);
        },
        Step::DeleteObservations { batch, now_ms } => {
            lemma_with_all_removed_frame(g, batch, now_ms);
        },
        Step::DeleteRelations { criteria } => {
            lemma_without_relations_sound(g, criteria);
        },
    }
}

/// Whatever sequence of batch operations a sound graph went through, it is
/// sound: ids are unique and no edge dangles.
pub proof fn law_history_keeps_sound(g: GraphModel, steps: Seq<Step>)
    requires
        sound(g),
    ensures
        sound(after_steps(g, steps)),
    decreases steps.len(),
{
    if steps.len() > 0 {
        law_history_keeps_sound(g, steps.drop_last());
        law_step_keeps_sound(after_steps(g, steps.drop_last()), steps.last());
    }
}

/// Round trip: after any sequence of batch operations, the full view shows
/// exactly what survived. Each entity stands for a node and each node for an
/// entity, each relation for an edge and each edge for a relation, and both
/// ends of every relation are among the entities.
pub proof fn law_full_view_after_history(g: GraphModel, steps: Seq<Step>)
    requires
        sound(g),
    ensures
        names_of(full_view(after_steps(g, steps)).0) == node_ids(after_steps(g, steps)),
        names_of(full_view(after_steps(g, steps)).0).no_duplicates(),
        full_view(after_steps(g, steps)).1 == after_steps(g, steps).edges.map_values(
            relation_view(),
        ),
        forall|i: int|
            0 <= i < full_view(after_steps(g, steps)).1.len() ==> names_of(
                full_view(after_steps(g, steps)).0,
            ).contains((#[trigger] full_view(after_steps(g, steps)).1[i]).from) && names_of(
                full_view(after_steps(g, steps)).0,
            ).contains(full_view(after_steps(g, steps)).1[i].to),
{
    let now = after_steps(g, steps);
    law_history_keeps_sound(g, steps);
    law_full_view_is_faithful(now);
    assert forall|i: int| 0 <= i < full_view(now).1.len() implies names_of(full_view(now).0).contains(
        (#[trigger] full_view(now).1[i]).from,
    ) && names_of(full_view(now).0).contains(full_view(now).1[i].to) by {
        assert(has_node(now, now.edges[i].source_node_id));
    }
}

/// Whatever is asked of a sound graph, the graph that the request leaves
/// is sound: ids are unique and no edge dangles.
pub proof fn law_requests_keep_sound(
    g: GraphModel,
    request: Request,
    now_ms: u64,
    after: GraphModel,
    r: Reply,
)
    requires
        sound(g),
        handled(g, request, now_ms, after, r),
    ensures
        sound(after),
{
    match request {
        Request::CreateNode(p) => {
            let id = choose|id: Seq<char>|
                is_hyphenated(id) && #[trigger] node_created(
                    g,
                    id,
                    p@,
                    now_ms,
                    after,
                    r,
                );
            lemma_put_node_sound(g, payload_node(id, p@, now_ms));
        },
        Request::UpdateNode { id, payload } => {
            lemma_revision_sound(
                g,
                id@,
                optional_text(payload.node_type),
                optional_model(payload.data),
                now_ms,
            );
        },
        Request::DeleteNode { id } => {
            lemma_without_node_sound(g, id@);
        },
        Request::CreateEdge(p) => {
            let id = choose|id: Seq<char>|
                is_hyphenated(id) && #[trigger] edge_created(
                    g,
                    id,
                    p@,
                    now_ms,
                    after,
                    r,
                );
            if has_node(g, p@.source_node_id) && has_node(g, p@.target_node_id) {
                lemma_put_edge_sound(g, payload_edge(id, p@, now_ms));
            }
        },
        Request::UpdateEdge { id, payload } => {
            lemma_edge_data_sound(g, id@, optional_model(payload.data));
        },
        Request::DeleteEdge { id } => {
            lemma_without_edge_sound(g, id@);
        },
        Request::CreateEntities(p) => {
            lemma_with_entities_sound(g, views(p.entities@), now_ms);
        },
        Request::CreateRelations(p) => {
            let batch = views(p.relations@);
            if first_unknown(g, batch) is None {
                let ids = choose|ids: Seq<Seq<char>>|
                    {
                        &&& ids.len() == p.relations.len()
                        &&& fresh_or_unused(ids)
                        &&& after == with_relations(g, batch, ids, now_ms)
                        &&& views(r.body->Edges_0@)
                            == #[trigger] relations_created(g, batch, ids, now_ms)
                    };
                lemma_with_relations_sound(g, batch, ids, now_ms);
            }
        },
        Request::AddObservations(p) => {
            lemma_with_all_added_frame(g, views(p.observations@), now_ms);
        },
        Request::DeleteEntities(p) => {
            lemma_without_nodes_sound(g, texts(p.entity_names@));
        },
        Request::DeleteObservations(p) => {
            lemma_with_all_removed_frame(g, views(p.deletions@), now_ms);
        },
        Request::DeleteRelations(p) => {
            lemma_without_relations_sound(g, views(p.relations@));
        },
        _ => {},
    }
}

/// Observations are appended: what a list held stays at its front, in the
/// order it had, and at most as many come as were offered.
pub proof fn law_append_keeps_order(items: Seq<DocumentModel>, contents: Seq<Seq<char>>)
    ensures
        items.len() <= append_new(items, contents).len() <= items.len() + contents.len(),
        append_new(items, contents).take(items.len() as int) == items,
    decreases contents.len(),
{
    if contents.len() > 0 {
        law_append_keeps_order(items, contents.drop_last());
        let before = append_new(items, contents.drop_last());
        let after = append_new(items, contents);
        assert(after.take(items.len() as int) =~= before.take(items.len() as int));
    } else {
        assert(items.take(items.len() as int) =~= items);
    }
}

/// The texts stand in their strict order.
pub open spec fn ascending(ids: Seq<Seq<char>>) -> bool {
    forall|i: int, j: int| 0 <= i < j < ids.len() ==> text_lt(ids[i], ids[j])
}

/// The neighbours of a node are one list and no other: two lists that both
/// hold the neighbours of a node, each once and in the order of the ids,
/// are equal.
pub proof fn law_neighbors_are_determined(
    g: GraphModel,
    id: Seq<char>,
    edge_type: Option<Seq<char>>,
    direction: Direction,
    first: Seq<NodeModel>,
    second: Seq<NodeModel>,
)
    requires
        lists_neighbors(g, id, edge_type, direction, first),
        lists_neighbors(g, id, edge_type, direction, second),
    ensures
        first == second,
{
    let x = first.map_values(id_of_node());
    let y = second.map_values(id_of_node());
    assert forall|i: int, j: int| 0 <= i < j < x.len() implies text_lt(x[i], x[j]) by {
        assert(text_lt(first[i].id, first[j].id));
    }
    assert forall|i: int, j: int| 0 <= i < j < y.len() implies text_lt(y[i], y[j]) by {
        assert(text_lt(second[i].id, second[j].id));
    }
    lemma_ascending_lists_agree(x, y);
    assert forall|k: int| 0 <= k < first.len() implies first[k] == second[k] by {
        assert(x[k] == first[k].id);
        assert(y[k] == second[k].id);
        assert(node_of(g, first[k].id) == Some(first[k]));
        assert(node_of(g, second[k].id) == Some(second[k]));
    }
    assert(first =~= second);
}

/// The relation that fails a batch is the first, in the order of the
/// batch, that names a node the graph lacks; there is none exactly when both
/// ends of every relation are nodes.
pub proof fn law_first_unknown_is_first(g: GraphModel, batch: Seq<RelationModel>)
    ensures
        match first_unknown(g, batch) {
            Some(i) => {
                &&& 0 <= i < batch.len()
                &&& !(has_node(g, batch[i].from) && has_node(g, batch[i].to))
                &&& forall|j: int|
                    0 <= j < i ==> has_node(g, (#[trigger] batch[j]).from) && has_node(
                        g,
                        batch[j].to,
                    )
            },
            None => forall|j: int|
                0 <= j < batch.len() ==> has_node(g, (#[trigger] batch[j]).from) && has_node(
                    g,
                    batch[j].to,
                ),
        },
    decreases batch.len(),
{
    if batch.len() > 0 {
        let front = batch.drop_last();
        law_first_unknown_is_first(g, front);
        assert forall|j: int| 0 <= j < front.len() implies front[j] == batch[j] by {}
    }
}

/// A request that does not ask for the graph to be written back has left
/// the graph as it was: nothing is lost where the write is skipped.
pub proof fn law_unwritten_requests_change_nothing(
    g: GraphModel,
    request: Request,
    now_ms: u64,
    after: GraphModel,
    r: Reply,
)
    requires
        handled(g, request, now_ms, after, r),
        !r.persist,
    ensures
        after == g,
{
    match request {
        Request::CreateNode(p) => {
            let id = choose|id: Seq<char>|
                is_hyphenated(id) && #[trigger] node_created(g, id, p@, now_ms, after, r);
        },
        Request::CreateEdge(p) => {
            let id = choose|id: Seq<char>|
                is_hyphenated(id) && #[trigger] edge_created(g, id, p@, now_ms, after, r);
        },
        _ => {},
    }
}

} // verus!
