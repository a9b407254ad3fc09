//! The batch operations of the store. Each takes its items in order; one
//! bad item never costs the others, but for a relation that names a node
//! the graph lacks, which fails its whole batch.

use crate::document::{Document, DocumentModel};
use crate::ident::{is_hyphenated, new_id};
use crate::kg::KnowledgeGraphState;
use crate::lemmas::{lemma_filter_keeps_distinct, lemma_first_unknown_stays};
use crate::model::{
    adding_outcome, adding_outcomes, condemned, entities_created, entity_node, first_unknown,
    has_node, has_relation, id_of_edge, joining, meets, node_ids, nodes_deleted, put_edge,
    relation_edge, relations_created, relations_deleted, removing_outcome, removing_outcomes,
    spared, unknown_end, with_added, with_all_added, with_all_removed, with_entities,
    with_relation, with_relations, with_removed, without_nodes, without_relations, Outcome,
};
use crate::observations::{add_observations, new_entity_document, remove_observations, Removal};
use crate::text::{decimal_text, join2, join3, join4, texts};
use crate::types::{
    views, AddObservationItem, DeleteObservationItem, Edge, EdgeModel, EntityToCreate, Node,
    NodeModel, RelationToCreate, RelationToDelete,
};
use vstd::pervasive::VecAdditionalExecFns;
use vstd::prelude::*;

verus! {

/// What a message of success or of failure says.
pub open spec fn outcome_of() -> spec_fn(Result<String, String>) -> Outcome {
    |r: Result<String, String>|
        match r {
            Ok(s) => Ok(s@),
            Err(s) => Err(s@),
        }
}

/// Each of `ids` is a fresh identifier, or empty where none was needed.
pub open spec fn fresh_or_unused(ids: Seq<Seq<char>>) -> bool {
    forall|i: int| 0 <= i < ids.len() ==> (#[trigger] ids[i]).len() == 0 || is_hyphenated(ids[i])
}

/// What a list of messages says, item by item.
pub open spec fn outcomes(results: Seq<Result<String, String>>) -> Seq<Outcome> {
    results.map_values(outcome_of())
}

impl KnowledgeGraphState {
    /// Creates a node for each entity whose name is not yet the id of a
    /// node, stamped `now_ms`, and returns the nodes created, in the order
    /// of the batch. An entity whose name is taken is passed over.
    pub fn create_entities_batch(
        &mut self,
        entities_to_create: Vec<EntityToCreate>,
        now_ms: u64,
    ) -> (r: Result<Vec<Node>, String>)
        requires
            old(self).wf(),
        ensures
            final(self).wf(),
            r is Ok,
            final(self)@ == with_entities(old(self)@, views(entities_to_create@), now_ms),
            views(r->Ok_0@) == entities_created(old(self)@, views(entities_to_create@), now_ms),
    {
        let ghost batch = views(entities_to_create@);
        let ghost start = self@;
        let mut created: Vec<Node> = Vec::new();
        assert(batch.take(0) =~= Seq::empty());
        assert(views(created@) =~= Seq::<NodeModel>::empty());
        for entity in it: entities_to_create
            invariant
                self.wf(),
                batch == views(it.seq()),
                self@ == with_entities(start, batch.take(it.index() as int), now_ms),
                views(created@) == entities_created(start, batch.take(it.index() as int), now_ms),
        {
            proof {
                let upto = batch.take(it.index() + 1);
                assert(upto.drop_last() =~= batch.take(it.index() as int));
                assert(upto.last() == entity@);
            }
            if !self.contains_node(entity.name.as_str()) {
                let ghost made = created@;
                let EntityToCreate { name, entity_type, observations, data } = entity;
                let node = Node {
                    id: name,
                    node_type: entity_type,
                    data: new_entity_document(data, &observations),
                    created_at_ms: now_ms,
                    updated_at_ms: now_ms,
                };
                assert(node@ == entity_node(entity@, now_ms));
                created.push(node.clone());
                self.add_node(node);
                assert(views(created@) =~= views(made).push(node@));
            }
        }
        assert(batch.take(batch.len() as int) =~= batch);
        Ok(created)
    }

    /// Whether an edge joins `from` to `to` with this type tag.
    pub fn relates(&self, from: &str, to: &str, relation_type: &str) -> (r: bool)
        ensures
            r == has_relation(self@, from@, to@, relation_type@),
    {
        proof {
            self.lemma_view();
        }
        let mut i: usize = 0;
        while i < self.edges.len()
            invariant
                i <= self.edges.len(),
                self@.edges == views(self.edges@),
                forall|k: int| 0 <= k < i ==> !joining(from@, to@, relation_type@)(self@.edges[k]),
            decreases self.edges.len() - i,
        {
            let edge = &self.edges[i];
            if *edge.source_node_id.as_str() == *from && *edge.target_node_id.as_str() == *to
                && *edge.edge_type.as_str() == *relation_type {
                assert(joining(from@, to@, relation_type@)(self@.edges[i as int]));
                return true;
            }
            i = i + 1;
        }
        false
    }

    /// Creates the edge of one relation under `id`, stamped `now_ms`, and
    /// returns it; nothing where an edge joins the same nodes with the same
    /// type tag already. A relation that names a node the graph lacks is
    /// refused, and the graph stays as it was.
    pub fn create_relation(&mut self, relation: RelationToCreate, id: String, now_ms: u64) -> (r:
        Result<Option<Edge>, String>)
        requires
            old(self).wf(),
        ensures
            final(self).wf(),
            if has_node(old(self)@, relation.from@) && has_node(old(self)@, relation.to@) {
                &&& r is Ok
                &&& final(self)@ == with_relation(old(self)@, relation@, id@, now_ms)
                &&& match r->Ok_0 {
                    Some(e) => e@ == relation_edge(relation@, id@, now_ms) && !has_relation(
                        old(self)@,
                        relation.from@,
                        relation.to@,
                        relation.relation_type@,
                    ),
                    None => has_relation(
                        old(self)@,
                        relation.from@,
                        relation.to@,
                        relation.relation_type@,
                    ),
                }
            } else {
                &&& r is Err
                &&& r->Err_0@ == unknown_end(old(self)@, relation@)
                &&& final(self)@ == old(self)@
            },
    {
        if !self.contains_node(relation.from.as_str()) {
            return Err(
                join3("Source node with name ", relation.from.as_str(), " not found for relation"),
            );
        }
        if !self.contains_node(relation.to.as_str()) {
            return Err(
                join3("Target node with name ", relation.to.as_str(), " not found for relation"),
            );
        }
        if self.relates(
            relation.from.as_str(),
            relation.to.as_str(),
            relation.relation_type.as_str(),
        ) {
            Ok(None)
        } else {
            Ok(Some(self.insert_relation(relation, id, now_ms)))
        }
    }

    /// Puts the edge of a relation under `id` and returns a copy of it.
    fn insert_relation(&mut self, relation: RelationToCreate, id: String, now_ms: u64) -> (r: Edge)
        requires
            old(self).wf(),
        ensures
            final(self).wf(),
            final(self)@ == put_edge(old(self)@, relation_edge(relation@, id@, now_ms)),
            r@ == relation_edge(relation@, id@, now_ms),
    {
        let RelationToCreate { from, to, relation_type, data } = relation;
        let edge = Edge {
            id,
            edge_type: relation_type,
            source_node_id: from,
            target_node_id: to,
            data,
            created_at_ms: now_ms,
        };
        let copy = edge.clone();
        self.add_edge(edge);
        copy
    }

    /// What is wrong with the first relation that names a node the graph
    /// lacks; nothing where every relation joins two nodes of the graph.
    pub fn check_relations(&self, relations: &Vec<RelationToCreate>) -> (r: Option<String>)
        ensures
            match first_unknown(self@, views(relations@)) {
                Some(i) => r is Some && r->Some_0@ == unknown_end(self@, views(relations@)[i]),
                None => r is None,
            },
    {
        let ghost batch = views(relations@);
        let mut i: usize = 0;
        assert(batch.take(0) =~= Seq::empty());
        while i < relations.len()
            invariant
                i <= relations.len(),
                batch == views(relations@),
                first_unknown(self@, batch.take(i as int)) is None,
            decreases relations.len() - i,
        {
            proof {
                let upto = batch.take(i + 1);
                assert(upto.drop_last() =~= batch.take(i as int));
                assert(upto.last() == relations@[i as int]@);
            }
            let relation = &relations[i];
            if !self.contains_node(relation.from.as_str()) {
                proof {
                    lemma_first_unknown_stays(self@, batch, i + 1);
                }
                return Some(
                    join3("Source node with name ", relation.from.as_str(), " not found for relation"),
                );
            }
            if !self.contains_node(relation.to.as_str()) {
                proof {
                    lemma_first_unknown_stays(self@, batch, i + 1);
                }
                return Some(
                    join3("Target node with name ", relation.to.as_str(), " not found for relation"),
                );
            }
            i = i + 1;
        }
        assert(batch.take(i as int) =~= batch);
        None
    }

    /// Creates an edge, under a fresh id and stamped `now_ms`, for each
    /// relation that no edge stands for yet, and returns the edges created,
    /// in the order of the batch. Where a relation names a node that the
    /// graph lacks, the whole batch fails and the graph stays as it was.
    pub fn create_relations_batch(
        &mut self,
        relations_to_create: Vec<RelationToCreate>,
        now_ms: u64,
    ) -> (r: Result<Vec<Edge>, String>)
        requires
            old(self).wf(),
        ensures
            final(self).wf(),
            match first_unknown(old(self)@, views(relations_to_create@)) {
                Some(i) => {
                    &&& final(self)@ == old(self)@
                    &&& r is Err
                    &&& r->Err_0@ == unknown_end(old(self)@, views(relations_to_create@)[i])
                },
                None => {
                    &&& r is Ok
                    &&& exists|ids: Seq<Seq<char>>|
                        {
                            &&& ids.len() == relations_to_create.len()
                            &&& fresh_or_unused(ids)
                            &&& final(self)@ == with_relations(
                                old(self)@,
                                views(relations_to_create@),
                                ids,
                                now_ms,
                            )
                            &&& views(r->Ok_0@) == #[trigger] relations_created(
                                old(self)@,
                                views(relations_to_create@),
                                ids,
                                now_ms,
                            )
                        }
                },
            },
    {
        match self.check_relations(&relations_to_create) {
            Some(message) => {
                return Err(message);
            },
            None => {},
        }
        let ghost batch = views(relations_to_create@);
        let ghost start = self@;
        let ghost mut ids: Seq<Seq<char>> = Seq::empty();
        let mut created: Vec<Edge> = Vec::new();
        assert(batch.take(0) =~= Seq::empty());
        assert(views(created@) =~= Seq::<EdgeModel>::empty());
        for relation in it: relations_to_create
            invariant
                self.wf(),
                batch == views(it.seq()),
                ids.len() == it.index(),
                fresh_or_unused(ids),
                self@ == with_relations(start, batch.take(it.index() as int), ids, now_ms),
                views(created@) == relations_created(
                    start,
                    batch.take(it.index() as int),
                    ids,
                    now_ms,
                ),
        {
            proof {
                let upto = batch.take(it.index() + 1);
                assert(upto.drop_last() =~= batch.take(it.index() as int));
                assert(upto.last() == relation@);
            }
            if self.relates(
                relation.from.as_str(),
                relation.to.as_str(),
                relation.relation_type.as_str(),
            ) {
                proof {
                    assert(ids.push(Seq::empty()).drop_last() =~= ids);
                    ids = ids.push(Seq::empty());
                }
            } else {
                let id = new_id();
                let ghost made = created@;
                let edge = self.insert_relation(relation, id, now_ms);
                created.push(edge);
                proof {
                    assert(views(created@) =~= views(made).push(edge@));
                    assert(ids.push(id@).drop_last() =~= ids);
                    ids = ids.push(id@);
                }
            }
        }
        assert(batch.take(batch.len() as int) =~= batch);
        Ok(created)
    }

    /// Deletes each entity named, with the edges that touch it, and returns
    /// the names under which a node was deleted, in the order given. A name
    /// that no node has is passed over.
    pub fn delete_entities_batch(&mut self, entity_names: Vec<String>) -> (r: Result<
        Vec<String>,
        String,
    >)
        requires
            old(self).wf(),
        ensures
            final(self).wf(),
            r is Ok,
            final(self)@ == without_nodes(old(self)@, texts(entity_names@)),
            texts(r->Ok_0@) == nodes_deleted(old(self)@, texts(entity_names@)),
    {
        let ghost names = texts(entity_names@);
        let ghost start = self@;
        let mut deleted: Vec<String> = Vec::new();
        assert(names.take(0) =~= Seq::empty());
        assert(texts(deleted@) =~= Seq::<Seq<char>>::empty());
        for name in it: entity_names
            invariant
                self.wf(),
                names == texts(it.seq()),
                self@ == without_nodes(start, names.take(it.index() as int)),
                texts(deleted@) == nodes_deleted(start, names.take(it.index() as int)),
        {
            proof {
                let upto = names.take(it.index() + 1);
                assert(upto.drop_last() =~= names.take(it.index() as int));
                assert(upto.last() == name@);
            }
            if self.contains_node(name.as_str()) {
                self.delete_node_and_connected_edges(name.as_str());
                let ghost gone = deleted@;
                deleted.push(name);
                assert(texts(deleted@) =~= texts(gone).push(name@));
            }
        }
        assert(names.take(names.len() as int) =~= names);
        Ok(deleted)
    }

    /// Adds the observations of one item to the entity it names. Those the
    /// entity holds already are passed over; its time of update moves to
    /// `now_ms` exactly when one was new. The answer is a message of
    /// success, or of failure where no node has the name.
    pub fn add_observations(&mut self, item: &AddObservationItem, now_ms: u64) -> (r: Result<
        String,
        String,
    >)
        requires
            old(self).wf(),
        ensures
            final(self).wf(),
            final(self)@ == with_added(old(self)@, item@, now_ms),
            outcome_of()(r) == adding_outcome(old(self)@, item@),
    {
        let name = item.entity_name.as_str();
        let slot = self.find_node(name);
        if slot >= self.nodes.len() {
            return Err(join3("Entity with name ", name, " not found"));
        }
        proof {
            self.lemma_view();
        }
        let mut node = blank_node();
        self.nodes.set_and_swap(slot, &mut node);
        let count = add_observations(&mut node.data, &item.contents);
        if count > 0 {
            node.updated_at_ms = now_ms;
        }
        self.nodes.set(slot, node);
        proof {
            self.lemma_view();
            assert(self@.nodes =~= old(self)@.nodes.update(slot as int, node@));
            assert(node_ids(self@) =~= node_ids(old(self)@));
            assert(self@ == with_added(old(self)@, item@, now_ms));
        }
        if count > 0 {
            let digits = decimal_text(count);
            Ok(join4("Added ", digits.as_str(), " new observation(s) to entity ", name))
        } else {
            Ok(join3("No new observations added to entity ", name, " (all existed or empty input)"))
        }
    }

    /// Adds the observations of each item, in order, and answers each item
    /// with a message of its own.
    pub fn add_observations_batch(
        &mut self,
        observations_to_add: Vec<AddObservationItem>,
        now_ms: u64,
    ) -> (r: Vec<Result<String, String>>)
        requires
            old(self).wf(),
        ensures
            final(self).wf(),
            final(self)@ == with_all_added(old(self)@, views(observations_to_add@), now_ms),
            outcomes(r@) == adding_outcomes(old(self)@, views(observations_to_add@), now_ms),
    {
        let ghost batch = views(observations_to_add@);
        let ghost start = self@;
        let mut results: Vec<Result<String, String>> = Vec::new();
        let mut i: usize = 0;
        assert(batch.take(0) =~= Seq::empty());
        assert(outcomes(results@) =~= Seq::<Outcome>::empty());
        while i < observations_to_add.len()
            invariant
                i <= observations_to_add.len(),
                self.wf(),
                batch == views(observations_to_add@),
                self@ == with_all_added(start, batch.take(i as int), now_ms),
                outcomes(results@) == adding_outcomes(start, batch.take(i as int), now_ms),
            decreases observations_to_add.len() - i,
        {
            proof {
                let upto = batch.take(i + 1);
                assert(upto.drop_last() =~= batch.take(i as int));
                assert(upto.last() == observations_to_add@[i as int]@);
            }
            let ghost said = results@;
            let answer = self.add_observations(&observations_to_add[i], now_ms);
            results.push(answer);
            assert(outcomes(results@) =~= outcomes(said).push(outcome_of()(answer)));
            i = i + 1;
        }
        assert(batch.take(i as int) =~= batch);
        results
    }

    /// Removes the observations that one item names from the entity it
    /// names. Its time of update moves to `now_ms` exactly when it lost
    /// one. The answer is a message of success, or of failure where no node
    /// has the name or its payload is no object.
    pub fn delete_observations(&mut self, item: &DeleteObservationItem, now_ms: u64) -> (r: Result<
        String,
        String,
    >)
        requires
            old(self).wf(),
        ensures
            final(self).wf(),
            final(self)@ == with_removed(old(self)@, item@, now_ms),
            outcome_of()(r) == removing_outcome(old(self)@, item@),
    {
        let name = item.entity_name.as_str();
        let slot = self.find_node(name);
        if slot >= self.nodes.len() {
            return Err(join3("Entity with name ", name, " not found"));
        }
        proof {
            self.lemma_view();
        }
        let mut node = blank_node();
        self.nodes.set_and_swap(slot, &mut node);
        let removal = remove_observations(&mut node.data, &item.observations);
        if removal == Removal::Removed {
            node.updated_at_ms = now_ms;
        }
        self.nodes.set(slot, node);
        proof {
            self.lemma_view();
            assert(self@.nodes =~= old(self)@.nodes.update(slot as int, node@));
            assert(node_ids(self@) =~= node_ids(old(self)@));
            assert(self@ == with_removed(old(self)@, item@, now_ms));
        }
        match removal {
            Removal::NotAnObject => Err(
                join3("Entity ", name, " data is not an object, cannot delete observations."),
            ),
            Removal::NoObservations => Ok(
                join3(
                    "No observations found or field is not an array for entity ",
                    name,
                    ", nothing deleted.",
                ),
            ),
            Removal::Removed => Ok(join2("Observations processed for entity ", name)),
            Removal::NothingRemoved => Ok(
                join2("No matching observations deleted for entity ", name),
            ),
        }
    }

    /// Removes the observations that each item names, in order, and answers
    /// each item with a message of its own.
    pub fn delete_observations_batch(
        &mut self,
        deletions: Vec<DeleteObservationItem>,
        now_ms: u64,
    ) -> (r: Vec<Result<String, String>>)
        requires
            old(self).wf(),
        ensures
            final(self).wf(),
            final(self)@ == with_all_removed(old(self)@, views(deletions@), now_ms),
            outcomes(r@) == removing_outcomes(old(self)@, views(deletions@), now_ms),
    {
        let ghost batch = views(deletions@);
        let ghost start = self@;
        let mut results: Vec<Result<String, String>> = Vec::new();
        let mut i: usize = 0;
        assert(batch.take(0) =~= Seq::empty());
        assert(outcomes(results@) =~= Seq::<Outcome>::empty());
        while i < deletions.len()
            invariant
                i <= deletions.len(),
                self.wf(),
                batch == views(deletions@),
                self@ == with_all_removed(start, batch.take(i as int), now_ms),
                outcomes(results@) == removing_outcomes(start, batch.take(i as int), now_ms),
            decreases deletions.len() - i,
        {
            proof {
                let upto = batch.take(i + 1);
                assert(upto.drop_last() =~= batch.take(i as int));
                assert(upto.last() == deletions@[i as int]@);
            }
            let ghost said = results@;
            let answer = self.delete_observations(&deletions[i], now_ms);
            results.push(answer);
            assert(outcomes(results@) =~= outcomes(said).push(outcome_of()(answer)));
            i = i + 1;
        }
        assert(batch.take(i as int) =~= batch);
        results
    }

    /// Removes every edge that matches one of the criteria by source,
    /// target and type, and returns the ids of the edges removed, each
    /// once, in the order of the graph.
    pub fn delete_relations_batch(&mut self, relations_to_delete: Vec<RelationToDelete>) -> (r:
        Result<Vec<String>, String>)
        requires
            old(self).wf(),
        ensures
            final(self).wf(),
            r is Ok,
            final(self)@ == without_relations(old(self)@, views(relations_to_delete@)),
            texts(r->Ok_0@) == relations_deleted(old(self)@, views(relations_to_delete@)),
    {
        proof {
            self.lemma_view();
        }
        let ghost criteria = views(relations_to_delete@);
        let mut former: Vec<Edge> = Vec::new();
        core::mem::swap(&mut self.edges, &mut former);
        let ghost all = views(former@);
        let ghost keep = spared(criteria);
        let ghost drop = condemned(criteria);
        let mut deleted: Vec<String> = Vec::new();
        assert(all.take(0) =~= Seq::<EdgeModel>::empty());
        assert(views(self.edges@) =~= all.take(0).filter(keep));
        assert(texts(deleted@) =~= all.take(0).filter(drop).map_values(id_of_edge()));
        for edge in it: former
            invariant
                all == views(it.seq()),
                criteria == views(relations_to_delete@),
                keep == spared(criteria),
                drop == condemned(criteria),
                views(self.edges@) == all.take(it.index() as int).filter(keep),
                texts(deleted@) == all.take(it.index() as int).filter(drop).map_values(id_of_edge()),
                self.nodes == old(self).nodes,
                self.metadata == old(self).metadata,
        {
            proof {
                let before = all.take(it.index() as int);
                assert(all.take(it.index() + 1) =~= before.push(edge@));
                before.lemma_filter_push(edge@, keep);
                before.lemma_filter_push(edge@, drop);
                before.filter(drop).lemma_push_map_commute(id_of_edge(), edge@);
            }
            if meets_any(&edge, &relations_to_delete) {
                let ghost gone = deleted@;
                deleted.push(edge.id);
                assert(texts(deleted@) =~= texts(gone).push(edge.id@));
            } else {
                let ghost prior = self.edges@;
                self.edges.push(edge);
                assert(views(self.edges@) =~= views(prior).push(edge@));
            }
        }
        proof {
            assert(all.take(all.len() as int) =~= all);
            self.lemma_view();
            lemma_filter_keeps_distinct(old(self)@.edges, keep);
        }
        Ok(deleted)
    }
}

/// Whether an edge matches one of the criteria.
pub fn meets_any(edge: &Edge, criteria: &Vec<RelationToDelete>) -> (r: bool)
    ensures
        r == condemned(views(criteria@))(edge@),
{
    let mut i: usize = 0;
    while i < criteria.len()
        invariant
            i <= criteria.len(),
            forall|k: int| 0 <= k < i ==> !meets(edge@, #[trigger] views(criteria@)[k]),
        decreases criteria.len() - i,
    {
        let c = &criteria[i];
        if *edge.source_node_id.as_str() == *c.from.as_str() && *edge.target_node_id.as_str()
            == *c.to.as_str() && *edge.edge_type.as_str() == *c.relation_type.as_str() {
            assert(meets(edge@, views(criteria@)[i as int]));
            return true;
        }
        i = i + 1;
    }
    false
}

/// The node that holds nothing: an empty id, an empty type tag, the null
/// payload, and both times at zero.
pub open spec fn blank() -> NodeModel {
    NodeModel {
        id: Seq::empty(),
        node_type: Seq::empty(),
        data: DocumentModel::Null,
        created_at_ms: 0,
        updated_at_ms: 0,
    }
}

/// A node that holds nothing, to stand in a place for a moment.
fn blank_node() -> (r: Node)
    ensures
        r@ == blank(),
{
    Node {
        id: String::new(),
        node_type: String::new(),
        data: Document::Null,
        created_at_ms: 0,
        updated_at_ms: 0,
    }
}

} // verus!
