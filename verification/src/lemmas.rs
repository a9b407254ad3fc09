//! The steps by which the laws of the graph are proved.

use crate::document::{entry_of, keys_of, with_entry, DocumentModel, Entries};
use crate::laws::{ascending, sound, untouched};
use crate::model::{
    clear_of, edge_ids, edge_slot, entities_created, entity_node, first_unknown, has_edge,
    has_node, id_of_edge, node_ids, node_of, node_slot, put_edge, put_node, relation_edge, spared,
    well_formed, with_added, with_all_added, with_all_removed, with_edge_data, with_entities,
    with_entity, with_node_revised, with_relations, with_removed, without_edge, without_node,
    without_nodes, without_relations, GraphModel,
};
use crate::observations::{
    append_new, entries_or_none, observation_items, observation_items_or_none, observations_added,
    observations_key, with_observations,
};
use crate::text::{
    lemma_position, lemma_position_is, lemma_text_lt_irreflexive, lemma_text_lt_transitive,
    position, text_lt,
};
use crate::types::{
    AddObservationModel, DeleteObservationModel, EdgeModel, EntityModel, NodeModel, RelationModel,
    TripleModel,
};
use vstd::prelude::*;

verus! {

/// Deleting a node takes no other node's id away and brings none.
pub proof fn lemma_without_node_ids(g: GraphModel, id: Seq<char>, other: Seq<char>)
    requires
        well_formed(g),
    ensures
        has_node(without_node(g, id), other) <==> (has_node(g, other) && other != id),
        well_formed(without_node(g, id)) || !has_node(g, id),
{
    let ids = node_ids(g);
    lemma_position(ids, id);
    if has_node(g, id) {
        let p = node_slot(g, id);
        let after = without_node(g, id);
        assert(node_ids(after) =~= ids.remove(p));
        lemma_remove_keeps_distinct(ids, p);
        lemma_filter_keeps_distinct(g.edges, clear_of(id));
        if has_node(after, other) {
            let k = choose|k: int| 0 <= k < node_ids(after).len() && node_ids(after)[k] == other;
            let k0 = if k < p { k } else { k + 1 };
            assert(ids[k0] == other);
        }
        if has_node(g, other) && other != id {
            let k = choose|k: int| 0 <= k < ids.len() && ids[k] == other;
            let k1 = if k < p { k } else { k - 1 };
            assert(node_ids(after)[k1] == other);
        }
    }
}

/// Once no edge touches `id`, none does after another node went.
pub proof fn lemma_without_node_keeps_untouched(g: GraphModel, gone: Seq<char>, id: Seq<char>)
    requires
        untouched(g, id),
    ensures
        untouched(without_node(g, gone), id),
{
    let after = without_node(g, gone);
    assert forall|i: int| 0 <= i < after.edges.len() implies (#[trigger] after.edges[i]).source_node_id
        != id && after.edges[i].target_node_id != id by {
        if has_node(g, gone) {
            g.edges.lemma_filter_contains_rev(clear_of(gone), after.edges[i]);
            let k = choose|k: int| 0 <= k < g.edges.len() && g.edges[k] == after.edges[i];
            assert(g.edges[k].source_node_id != id);
        }
    }
}

/// Deleting nodes keeps the graph well formed.
pub proof fn lemma_without_nodes_well_formed(g: GraphModel, names: Seq<Seq<char>>)
    requires
        well_formed(g),
    ensures
        well_formed(without_nodes(g, names)),
    decreases names.len(),
{
    if names.len() > 0 {
        lemma_without_nodes_well_formed(g, names.drop_last());
        lemma_without_node_ids(without_nodes(g, names.drop_last()), names.last(), names.last());
    }
}

/// A key that a list holds stays where it is when the list grows at its end.
pub proof fn lemma_position_after_push(keys: Seq<Seq<char>>, key: Seq<char>, last: Seq<char>)
    ensures
        keys.contains(key) ==> position(keys.push(last), key) == position(keys, key),
        !keys.contains(key) && last == key ==> position(keys.push(last), key) == keys.len(),
        !keys.contains(key) && last != key ==> position(keys.push(last), key) == keys.len() + 1,
{
    lemma_position(keys, key);
    let p = position(keys, key);
    let grown = keys.push(last);
    if keys.contains(key) {
        assert(grown[p] == key);
        assert forall|j: int| 0 <= j < p implies grown[j] != key by {
            assert(grown[j] == keys[j]);
        }
        lemma_position_is(grown, key, p);
    } else {
        assert forall|j: int| 0 <= j < keys.len() implies grown[j] != key by {
            assert(grown[j] == keys[j]);
        }
        if last == key {
            lemma_position_is(grown, key, keys.len() as int);
        } else {
            lemma_position_is(grown, key, keys.len() as int + 1);
        }
    }
}

/// One entity of a batch leaves every node that is there as it is.
pub proof fn lemma_with_entity_keeps(g: GraphModel, e: EntityModel, now_ms: u64, id: Seq<char>)
    requires
        has_node(g, id),
    ensures
        has_node(with_entity(g, e, now_ms), id),
        node_of(with_entity(g, e, now_ms), id) == node_of(g, id),
        has_node(with_entity(g, e, now_ms), e.name),
{
    let after = with_entity(g, e, now_ms);
    lemma_position(node_ids(g), id);
    if !has_node(g, e.name) {
        let node = entity_node(e, now_ms);
        assert(node_ids(after) =~= node_ids(g).push(e.name));
        lemma_position_after_push(node_ids(g), id, e.name);
        let p = node_slot(g, id);
        assert(node_ids(after)[p] == id);
        assert(node_ids(after)[node_ids(g).len() as int] == e.name);
    }
}

/// After a batch of entities, each of their names is the id of a node.
pub proof fn lemma_with_entities_has_all(
    g: GraphModel,
    batch: Seq<EntityModel>,
    now_ms: u64,
    i: int,
)
    requires
        0 <= i < batch.len(),
    ensures
        has_node(with_entities(g, batch, now_ms), batch[i].name),
    decreases batch.len(),
{
    let before = with_entities(g, batch.drop_last(), now_ms);
    if i == batch.len() - 1 {
        if has_node(before, batch.last().name) {
        } else {
            let after = with_entity(before, batch.last(), now_ms);
            assert(node_ids(after) =~= node_ids(before).push(batch.last().name));
            assert(node_ids(after)[node_ids(before).len() as int] == batch.last().name);
        }
    } else {
        lemma_with_entities_has_all(g, batch.drop_last(), now_ms, i);
        lemma_with_entity_keeps(before, batch.last(), now_ms, batch[i].name);
    }
}

/// A batch of entities whose names are all taken changes nothing and
/// creates nothing.
pub proof fn lemma_with_entities_all_taken(g: GraphModel, batch: Seq<EntityModel>, now_ms: u64)
    requires
        forall|i: int| 0 <= i < batch.len() ==> has_node(g, (#[trigger] batch[i]).name),
    ensures
        with_entities(g, batch, now_ms) == g,
        entities_created(g, batch, now_ms) == Seq::<NodeModel>::empty(),
    decreases batch.len(),
{
    if batch.len() > 0 {
        let front = batch.drop_last();
        assert forall|i: int| 0 <= i < front.len() implies has_node(g, (#[trigger] front[i]).name) by {
            assert(front[i] == batch[i]);
        }
        lemma_with_entities_all_taken(g, front, now_ms);
        assert(has_node(g, batch[batch.len() - 1].name));
    }
}

/// `items` holds each of `contents` as a text.
pub open spec fn holds_all(items: Seq<DocumentModel>, contents: Seq<Seq<char>>) -> bool {
    forall|i: int|
        0 <= i < contents.len() ==> items.contains(DocumentModel::Text(#[trigger] contents[i]))
}

/// After `contents` were appended, the list holds each of them and all it held.
pub proof fn lemma_append_new_holds(items: Seq<DocumentModel>, contents: Seq<Seq<char>>)
    ensures
        holds_all(append_new(items, contents), contents),
        forall|x: DocumentModel| items.contains(x) ==> append_new(items, contents).contains(x),
    decreases contents.len(),
{
    if contents.len() > 0 {
        let front = contents.drop_last();
        let before = append_new(items, front);
        let after = append_new(items, contents);
        let item = DocumentModel::Text(contents.last());
        lemma_append_new_holds(items, front);
        assert forall|x: DocumentModel| before.contains(x) implies after.contains(x) by {
            if !before.contains(item) {
                let k = choose|k: int| 0 <= k < before.len() && before[k] == x;
                assert(after[k] == x);
            }
        }
        if !before.contains(item) {
            assert(after[before.len() as int] == item);
        }
        assert forall|i: int| 0 <= i < contents.len() implies after.contains(
            DocumentModel::Text(#[trigger] contents[i]),
        ) by {
            if i < front.len() {
                assert(front[i] == contents[i]);
                assert(before.contains(DocumentModel::Text(front[i])));
            }
        }
    }
}

/// Appending what the list holds already leaves it as it is.
pub proof fn lemma_append_new_all_held(items: Seq<DocumentModel>, contents: Seq<Seq<char>>)
    requires
        holds_all(items, contents),
    ensures
        append_new(items, contents) == items,
    decreases contents.len(),
{
    if contents.len() > 0 {
        let front = contents.drop_last();
        assert forall|i: int| 0 <= i < front.len() implies items.contains(
            DocumentModel::Text(#[trigger] front[i]),
        ) by {
            assert(front[i] == contents[i]);
        }
        lemma_append_new_all_held(items, front);
        assert(items.contains(DocumentModel::Text(contents[contents.len() - 1])));
    }
}

/// The value under a key once it was put there, and the keys after.
pub proof fn lemma_with_entry(entries: Entries, key: Seq<char>, value: DocumentModel)
    ensures
        entry_of(with_entry(entries, key, value), key) == Some(value),
        entry_of(entries, key) == Some(value) ==> with_entry(entries, key, value) == entries,
{
    let keys = keys_of(entries);
    let after = with_entry(entries, key, value);
    lemma_position(keys, key);
    let p = position(keys, key);
    if p < entries.len() {
        assert(keys_of(after) =~= keys);
        if entry_of(entries, key) == Some(value) {
            assert(entries[p].0 == keys[p]);
            assert(after =~= entries);
        }
    } else {
        assert(keys_of(after) =~= keys.push(key));
        lemma_position_after_push(keys, key, key);
    }
}

/// The document is an object with an observation list that holds each of
/// `contents`.
pub open spec fn knows_all(d: DocumentModel, contents: Seq<Seq<char>>) -> bool {
    &&& d is Object
    &&& observation_items(d) is Some
    &&& holds_all(observation_items_or_none(d), contents)
}

/// After observations were added, the document knows them, and all that it
/// knew before.
pub proof fn lemma_with_observations_knows(
    d: DocumentModel,
    contents: Seq<Seq<char>>,
    earlier: Seq<Seq<char>>,
)
    ensures
        knows_all(with_observations(d, contents), contents),
        knows_all(d, earlier) ==> knows_all(with_observations(d, contents), earlier),
{
    let items = observation_items_or_none(d);
    let list = DocumentModel::List(append_new(items, contents));
    lemma_with_entry(entries_or_none(d), observations_key(), list);
    lemma_append_new_holds(items, contents);
    let after = with_observations(d, contents);
    assert(observation_items(after) == Some(append_new(items, contents)));
    if knows_all(d, earlier) {
        assert forall|i: int| 0 <= i < earlier.len() implies append_new(items, contents).contains(
            DocumentModel::Text(#[trigger] earlier[i]),
        ) by {
            assert(items.contains(DocumentModel::Text(earlier[i])));
        }
    }
}

/// Adding observations that the document knows changes nothing.
pub proof fn lemma_with_observations_known(d: DocumentModel, contents: Seq<Seq<char>>)
    requires
        knows_all(d, contents),
    ensures
        with_observations(d, contents) == d,
        observations_added(d, contents) == 0,
{
    let items = observation_items_or_none(d);
    lemma_append_new_all_held(items, contents);
    lemma_with_entry(entries_or_none(d), observations_key(), DocumentModel::List(items));
}

/// The node that the item names, where there is one, knows the
/// observations of the item.
pub open spec fn node_knows(g: GraphModel, item: AddObservationModel) -> bool {
    has_node(g, item.entity_name) ==> knows_all(
        g.nodes[node_slot(g, item.entity_name)].data,
        item.contents,
    )
}

/// Adding observations leaves the ids of the nodes as they are; the node
/// named knows them afterwards, and every node knows what it knew.
pub proof fn lemma_with_added(
    g: GraphModel,
    item: AddObservationModel,
    now_ms: u64,
    earlier: AddObservationModel,
)
    ensures
        node_ids(with_added(g, item, now_ms)) == node_ids(g),
        with_added(g, item, now_ms).edges == g.edges,
        node_knows(with_added(g, item, now_ms), item),
        node_knows(g, earlier) ==> node_knows(with_added(g, item, now_ms), earlier),
        node_knows(g, item) ==> with_added(g, item, now_ms) == g,
{
    let after = with_added(g, item, now_ms);
    lemma_position(node_ids(g), item.entity_name);
    lemma_position(node_ids(g), earlier.entity_name);
    if has_node(g, item.entity_name) {
        let slot = node_slot(g, item.entity_name);
        let n = g.nodes[slot];
        assert(node_ids(after) =~= node_ids(g));
        lemma_with_observations_knows(n.data, item.contents, earlier.contents);
        lemma_with_observations_knows(n.data, item.contents, item.contents);
        if node_knows(g, item) {
            lemma_with_observations_known(n.data, item.contents);
            assert(after.nodes =~= g.nodes);
        }
    }
}

/// After a batch of additions, the node that each item names knows the
/// observations of the item.
pub proof fn lemma_with_all_added_knows(
    g: GraphModel,
    batch: Seq<AddObservationModel>,
    now_ms: u64,
    k: int,
)
    requires
        0 <= k < batch.len(),
    ensures
        node_knows(with_all_added(g, batch, now_ms), batch[k]),
    decreases batch.len(),
{
    let before = with_all_added(g, batch.drop_last(), now_ms);
    if k < batch.len() - 1 {
        lemma_with_all_added_knows(g, batch.drop_last(), now_ms, k);
    }
    lemma_with_added(before, batch.last(), now_ms, batch[k]);
}

/// A batch of additions of which every node knows all changes nothing.
pub proof fn lemma_with_all_added_known(g: GraphModel, batch: Seq<AddObservationModel>, now_ms: u64)
    requires
        forall|k: int| 0 <= k < batch.len() ==> node_knows(g, #[trigger] batch[k]),
    ensures
        with_all_added(g, batch, now_ms) == g,
    decreases batch.len(),
{
    if batch.len() > 0 {
        let front = batch.drop_last();
        assert forall|k: int| 0 <= k < front.len() implies node_knows(g, #[trigger] front[k]) by {
            assert(front[k] == batch[k]);
        }
        lemma_with_all_added_known(g, front, now_ms);
        assert(node_knows(g, batch[batch.len() - 1]));
        lemma_with_added(g, batch.last(), now_ms, batch.last());
    }
}

/// A batch of entities keeps a sound graph sound.
pub proof fn lemma_with_entities_sound(g: GraphModel, batch: Seq<EntityModel>, now_ms: u64)
    requires
        sound(g),
    ensures
        sound(with_entities(g, batch, now_ms)),
        with_entities(g, batch, now_ms).edges == g.edges,
    decreases batch.len(),
{
    if batch.len() > 0 {
        let before = with_entities(g, batch.drop_last(), now_ms);
        let after = with_entities(g, batch, now_ms);
        lemma_with_entities_sound(g, batch.drop_last(), now_ms);
        if !has_node(before, batch.last().name) {
            assert(node_ids(after) =~= node_ids(before).push(batch.last().name));
        }
        assert forall|i: int| 0 <= i < after.edges.len() implies has_node(
            after,
            (#[trigger] after.edges[i]).source_node_id,
        ) && has_node(after, after.edges[i].target_node_id) by {
            assert(after.edges[i] == before.edges[i]);
            lemma_with_entity_keeps(before, batch.last(), now_ms, before.edges[i].source_node_id);
            lemma_with_entity_keeps(before, batch.last(), now_ms, before.edges[i].target_node_id);
        }
    }
}

/// Where no relation of a batch names a node that the graph lacks, both
/// ends of each are nodes.
pub proof fn lemma_all_ends_known(g: GraphModel, batch: Seq<RelationModel>, i: int)
    requires
        first_unknown(g, batch) is None,
        0 <= i < batch.len(),
    ensures
        has_node(g, batch[i].from),
        has_node(g, batch[i].to),
    decreases batch.len(),
{
    if i < batch.len() - 1 {
        lemma_all_ends_known(g, batch.drop_last(), i);
    }
}

/// Putting an edge whose ends are nodes keeps a sound graph sound.
pub proof fn lemma_put_edge_sound(g: GraphModel, e: EdgeModel)
    requires
        sound(g),
        has_node(g, e.source_node_id),
        has_node(g, e.target_node_id),
    ensures
        sound(put_edge(g, e)),
        put_edge(g, e).nodes == g.nodes,
{
    let after = put_edge(g, e);
    lemma_position(edge_ids(g), e.id);
    if has_edge(g, e.id) {
        assert(edge_ids(after) =~= edge_ids(g));
    } else {
        assert(edge_ids(after) =~= edge_ids(g).push(e.id));
    }
    assert forall|i: int| 0 <= i < after.edges.len() implies has_node(
        after,
        (#[trigger] after.edges[i]).source_node_id,
    ) && has_node(after, after.edges[i].target_node_id) by {
        if after.edges[i] != e {
            assert(after.edges[i] == g.edges[i]);
        }
    }
}

/// A batch of relations that all join nodes of the graph keeps a sound
/// graph sound.
pub proof fn lemma_with_relations_sound(
    g: GraphModel,
    batch: Seq<RelationModel>,
    ids: Seq<Seq<char>>,
    now_ms: u64,
)
    requires
        sound(g),
        first_unknown(g, batch) is None,
    ensures
        sound(with_relations(g, batch, ids, now_ms)),
        with_relations(g, batch, ids, now_ms).nodes == g.nodes,
    decreases batch.len(),
{
    if batch.len() > 0 && ids.len() == batch.len() {
        let before = with_relations(g, batch.drop_last(), ids.drop_last(), now_ms);
        lemma_with_relations_sound(g, batch.drop_last(), ids.drop_last(), now_ms);
        lemma_all_ends_known(g, batch, batch.len() - 1);
        assert(node_ids(before) == node_ids(g));
        lemma_put_edge_sound(before, relation_edge(batch.last(), ids.last(), now_ms));
    }
}

/// Deleting a node with the edges that touch it keeps a sound graph sound.
pub proof fn lemma_without_node_sound(g: GraphModel, id: Seq<char>)
    requires
        sound(g),
    ensures
        sound(without_node(g, id)),
{
    let after = without_node(g, id);
    lemma_without_node_ids(g, id, id);
    if has_node(g, id) {
        assert forall|i: int| 0 <= i < after.edges.len() implies has_node(
            after,
            (#[trigger] after.edges[i]).source_node_id,
        ) && has_node(after, after.edges[i].target_node_id) by {
            g.edges.lemma_filter_pred(clear_of(id), i);
            g.edges.lemma_filter_contains_rev(clear_of(id), after.edges[i]);
            let k = choose|k: int| 0 <= k < g.edges.len() && g.edges[k] == after.edges[i];
            lemma_without_node_ids(g, id, g.edges[k].source_node_id);
            lemma_without_node_ids(g, id, g.edges[k].target_node_id);
        }
    }
}

/// Deleting nodes in a batch keeps a sound graph sound.
pub proof fn lemma_without_nodes_sound(g: GraphModel, names: Seq<Seq<char>>)
    requires
        sound(g),
    ensures
        sound(without_nodes(g, names)),
    decreases names.len(),
{
    if names.len() > 0 {
        lemma_without_nodes_sound(g, names.drop_last());
        lemma_without_node_sound(without_nodes(g, names.drop_last()), names.last());
    }
}

/// Deleting relations keeps a sound graph sound.
pub proof fn lemma_without_relations_sound(g: GraphModel, criteria: Seq<TripleModel>)
    requires
        sound(g),
    ensures
        sound(without_relations(g, criteria)),
{
    let after = without_relations(g, criteria);
    lemma_filter_keeps_distinct(g.edges, spared(criteria));
    assert forall|i: int| 0 <= i < after.edges.len() implies has_node(
        after,
        (#[trigger] after.edges[i]).source_node_id,
    ) && has_node(after, after.edges[i].target_node_id) by {
        g.edges.lemma_filter_contains_rev(spared(criteria), after.edges[i]);
        let k = choose|k: int| 0 <= k < g.edges.len() && g.edges[k] == after.edges[i];
        assert(has_node(g, g.edges[k].source_node_id));
    }
}

/// A batch of additions leaves the ids of the nodes and the edges as they are.
pub proof fn lemma_with_all_added_frame(g: GraphModel, batch: Seq<AddObservationModel>, now_ms: u64)
    ensures
        node_ids(with_all_added(g, batch, now_ms)) == node_ids(g),
        with_all_added(g, batch, now_ms).edges == g.edges,
    decreases batch.len(),
{
    if batch.len() > 0 {
        lemma_with_all_added_frame(g, batch.drop_last(), now_ms);
        lemma_with_added(
            with_all_added(g, batch.drop_last(), now_ms),
            batch.last(),
            now_ms,
            batch.last(),
        );
    }
}

/// A batch of removals leaves the ids of the nodes and the edges as they are.
pub proof fn lemma_with_all_removed_frame(
    g: GraphModel,
    batch: Seq<DeleteObservationModel>,
    now_ms: u64,
)
    ensures
        node_ids(with_all_removed(g, batch, now_ms)) == node_ids(g),
        with_all_removed(g, batch, now_ms).edges == g.edges,
    decreases batch.len(),
{
    if batch.len() > 0 {
        let before = with_all_removed(g, batch.drop_last(), now_ms);
        lemma_with_all_removed_frame(g, batch.drop_last(), now_ms);
        lemma_position(node_ids(before), batch.last().entity_name);
        assert(node_ids(with_removed(before, batch.last(), now_ms)) =~= node_ids(before));
    }
}

/// Putting a node keeps a sound graph sound.
pub proof fn lemma_put_node_sound(g: GraphModel, n: NodeModel)
    requires
        sound(g),
    ensures
        sound(put_node(g, n)),
{
    let after = put_node(g, n);
    lemma_position(node_ids(g), n.id);
    if has_node(g, n.id) {
        assert(node_ids(after) =~= node_ids(g));
    } else {
        assert(node_ids(after) =~= node_ids(g).push(n.id));
        assert forall|i: int| 0 <= i < after.edges.len() implies has_node(
            after,
            (#[trigger] after.edges[i]).source_node_id,
        ) && has_node(after, after.edges[i].target_node_id) by {
            let a = choose|k: int|
                0 <= k < node_ids(g).len() && node_ids(g)[k] == g.edges[i].source_node_id;
            assert(node_ids(after)[a] == g.edges[i].source_node_id);
            let b = choose|k: int|
                0 <= k < node_ids(g).len() && node_ids(g)[k] == g.edges[i].target_node_id;
            assert(node_ids(after)[b] == g.edges[i].target_node_id);
        }
    }
}

/// Revising a node keeps a sound graph sound.
pub proof fn lemma_revision_sound(
    g: GraphModel,
    id: Seq<char>,
    node_type: Option<Seq<char>>,
    data: Option<DocumentModel>,
    now_ms: u64,
)
    requires
        sound(g),
    ensures
        sound(with_node_revised(g, id, node_type, data, now_ms)),
{
    lemma_position(node_ids(g), id);
    assert(node_ids(with_node_revised(g, id, node_type, data, now_ms)) =~= node_ids(g));
}

/// Replacing the payload of an edge keeps a sound graph sound.
pub proof fn lemma_edge_data_sound(
    g: GraphModel,
    id: Seq<char>,
    data: Option<DocumentModel>,
)
    requires
        sound(g),
    ensures
        sound(with_edge_data(g, id, data)),
{
    let after = with_edge_data(g, id, data);
    lemma_position(edge_ids(g), id);
    assert(edge_ids(after) =~= edge_ids(g));
    assert forall|i: int| 0 <= i < after.edges.len() implies has_node(
        after,
        (#[trigger] after.edges[i]).source_node_id,
    ) && has_node(after, after.edges[i].target_node_id) by {
        assert(after.edges[i].source_node_id == g.edges[i].source_node_id);
        assert(after.edges[i].target_node_id == g.edges[i].target_node_id);
    }
}

/// Removing an edge keeps a sound graph sound.
pub proof fn lemma_without_edge_sound(g: GraphModel, id: Seq<char>)
    requires
        sound(g),
    ensures
        sound(without_edge(g, id)),
{
    let after = without_edge(g, id);
    lemma_position(edge_ids(g), id);
    if has_edge(g, id) {
        let p = edge_slot(g, id);
        assert(edge_ids(after) =~= edge_ids(g).remove(p));
        lemma_remove_keeps_distinct(edge_ids(g), p);
        assert forall|i: int| 0 <= i < after.edges.len() implies has_node(
            after,
            (#[trigger] after.edges[i]).source_node_id,
        ) && has_node(after, after.edges[i].target_node_id) by {
            let k = if i < p { i } else { i + 1 };
            assert(after.edges[i] == g.edges[k]);
        }
    }
}

/// Two lists of texts in strict order that hold the same texts are equal.
pub proof fn lemma_ascending_lists_agree(x: Seq<Seq<char>>, y: Seq<Seq<char>>)
    requires
        ascending(x),
        ascending(y),
        forall|v: Seq<char>| x.contains(v) <==> y.contains(v),
    ensures
        x == y,
    decreases x.len(),
{
    if x.len() == 0 {
        if y.len() > 0 {
            assert(y.contains(y[0]));
        }
        assert(x =~= y);
    } else {
        assert(x.contains(x[0]));
        let j = choose|j: int| 0 <= j < y.len() && y[j] == x[0];
        assert(y.contains(y[0]));
        let i = choose|i: int| 0 <= i < x.len() && x[i] == y[0];
        if j > 0 {
            assert(text_lt(y[0], y[j]));
            if i > 0 {
                assert(text_lt(x[0], x[i]));
                lemma_text_lt_transitive(x[0], y[0], x[0]);
            }
            lemma_text_lt_irreflexive(x[0]);
        }
        let xs = x.drop_first();
        let ys = y.drop_first();
        assert forall|v: Seq<char>| xs.contains(v) <==> ys.contains(v) by {
            if xs.contains(v) {
                let k = choose|k: int| 0 <= k < xs.len() && xs[k] == v;
                assert(x[k + 1] == v);
                assert(text_lt(x[0], x[k + 1]));
                lemma_text_lt_irreflexive(v);
                assert(x.contains(v));
                let m = choose|m: int| 0 <= m < y.len() && y[m] == v;
                assert(ys[m - 1] == v);
            }
            if ys.contains(v) {
                let k = choose|k: int| 0 <= k < ys.len() && ys[k] == v;
                assert(y[k + 1] == v);
                assert(text_lt(y[0], y[k + 1]));
                lemma_text_lt_irreflexive(v);
                assert(y.contains(v));
                let m = choose|m: int| 0 <= m < x.len() && x[m] == v;
                assert(xs[m - 1] == v);
            }
        }
        assert forall|a: int, b: int| 0 <= a < b < xs.len() implies text_lt(xs[a], xs[b]) by {
            assert(text_lt(x[a + 1], x[b + 1]));
        }
        assert forall|a: int, b: int| 0 <= a < b < ys.len() implies text_lt(ys[a], ys[b]) by {
            assert(text_lt(y[a + 1], y[b + 1]));
        }
        lemma_ascending_lists_agree(xs, ys);
        assert(x =~= seq![x[0]] + xs);
        assert(y =~= seq![y[0]] + ys);
    }
}

/// A sequence without duplicates keeps none when one item goes.
pub proof fn lemma_remove_keeps_distinct(ids: Seq<Seq<char>>, i: int)
    requires
        ids.no_duplicates(),
        0 <= i < ids.len(),
    ensures
        ids.remove(i).no_duplicates(),
        !ids.remove(i).contains(ids[i]),
{
    let rest = ids.remove(i);
    assert forall|a: int, b: int| 0 <= a < rest.len() && 0 <= b < rest.len() && a != b implies rest[a]
        != rest[b] by {
        let a0 = if a < i { a } else { a + 1 };
        let b0 = if b < i { b } else { b + 1 };
        assert(rest[a] == ids[a0]);
        assert(rest[b] == ids[b0]);
    }
    if rest.contains(ids[i]) {
        let a = choose|a: int| 0 <= a < rest.len() && rest[a] == ids[i];
        let a0 = if a < i { a } else { a + 1 };
        assert(rest[a] == ids[a0]);
    }
}

/// Edges with distinct ids keep distinct ids when some of them go.
pub proof fn lemma_filter_keeps_distinct(edges: Seq<EdgeModel>, keep: spec_fn(EdgeModel) -> bool)
    requires
        edges.map_values(id_of_edge()).no_duplicates(),
    ensures
        edges.filter(keep).map_values(id_of_edge()).no_duplicates(),
    decreases edges.len(),
{
    reveal(Seq::filter);
    if edges.len() > 0 {
        let front = edges.drop_last();
        assert(front.map_values(id_of_edge()) =~= edges.map_values(id_of_edge()).drop_last());
        lemma_filter_keeps_distinct(front, keep);
        let kept = front.filter(keep);
        if keep(edges.last()) {
            let ids = kept.push(edges.last()).map_values(id_of_edge());
            assert forall|a: int, b: int| 0 <= a < ids.len() && 0 <= b < ids.len() && a != b implies ids[a]
                != ids[b] by {
                if a == ids.len() - 1 || b == ids.len() - 1 {
                    let other = if a == ids.len() - 1 { b } else { a };
                    front.lemma_filter_contains_rev(keep, kept[other]);
                    let k = choose|k: int| 0 <= k < front.len() && front[k] == kept[other];
                    assert(edges.map_values(id_of_edge())[k] == ids[other]);
                    assert(edges.map_values(id_of_edge())[edges.len() - 1] == ids[ids.len() - 1]);
                } else {
                    assert(ids[a] == kept.map_values(id_of_edge())[a]);
                    assert(ids[b] == kept.map_values(id_of_edge())[b]);
                }
            }
        }
    }
}

/// Once a relation of a batch names a node the graph lacks, that relation
/// stays the first to do so however the batch goes on.
pub proof fn lemma_first_unknown_stays(g: GraphModel, batch: Seq<RelationModel>, k: int)
    requires
        0 <= k <= batch.len(),
        first_unknown(g, batch.take(k)) is Some,
    ensures
        first_unknown(g, batch) == first_unknown(g, batch.take(k)),
    decreases batch.len() - k,
{
    if k == batch.len() {
        assert(batch.take(k) =~= batch);
    } else {
        assert(batch.take(k + 1).drop_last() =~= batch.take(k));
        lemma_first_unknown_stays(g, batch, k + 1);
    }
}

} // verus!
