//! The queries of the store: the whole graph as clients see it, search,
//! opening entities by name, and the neighbours of a node.

use crate::document::clone_optional;
use crate::kg::{direction_of, is_incident, optional_str, KnowledgeGraphState};
use crate::model::{
    among, direction_named, entity_view, excerpt, far_end, full_view, has_node, id_of_node,
    leads_from, lists_neighbors, mentioning, named, node_ids, node_mentions, node_of,
    ordered_by_id, relation_view, Direction,
};
use crate::observations::{extra_of, observation_texts, observations_of};
use crate::text::{
    chars_of, lemma_position, lemma_text_lt_total, lemma_text_lt_transitive, lowercase, mentions,
    mentions_lowered, text_in, text_less, text_lt, texts, to_lowercase,
};
use crate::types::{views, ApiEntity, ApiRelation, Edge, EdgeModel, Node, NodeModel};
use vstd::prelude::*;

verus! {

/// Whether a node mentions the query whose lower-case characters are `query_lower`.
fn node_hits(node: &Node, query_lower: &Vec<char>, Ghost(query): Ghost<Seq<char>>) -> (r: bool)
    requires
        query_lower@ == lowercase(query),
    ensures
        r == node_mentions(node@, query),
{
    if mentions_lowered(node.id.as_str(), query_lower) {
        return true;
    }
    if mentions_lowered(node.node_type.as_str(), query_lower) {
        return true;
    }
    let observations = observation_texts(&node.data);
    let ghost all = observations_of(node@.data);
    let mut i: usize = 0;
    while i < observations.len()
        invariant
            i <= observations.len(),
            all == texts(observations@),
            all == observations_of(node@.data),
            query_lower@ == lowercase(query),
            forall|k: int| 0 <= k < i ==> !mentions(#[trigger] all[k], query),
        decreases observations.len() - i,
    {
        if mentions_lowered(observations[i].as_str(), query_lower) {
            assert(mentions(all[i as int], query));
            return true;
        }
        i = i + 1;
    }
    false
}

impl KnowledgeGraphState {
    /// A node as clients see it: its observations stand apart from the
    /// rest of its payload.
    pub fn node_to_api_entity(node: &Node) -> (r: ApiEntity)
        ensures
            r@ == entity_view()(node@),
    {
        ApiEntity {
            name: node.id.clone(),
            entity_type: node.node_type.clone(),
            observations: observation_texts(&node.data),
            data: extra_of(&node.data),
        }
    }

    /// An edge as clients see it.
    pub fn edge_to_api_relation(edge: &Edge) -> (r: ApiRelation)
        ensures
            r@ == relation_view()(edge@),
    {
        ApiRelation {
            from: edge.source_node_id.clone(),
            to: edge.target_node_id.clone(),
            relation_type: edge.edge_type.clone(),
            data: clone_optional(&edge.data),
        }
    }

    /// The whole graph as clients see it: every node and every edge, in order.
    pub fn get_full_graph_data(&self) -> (r: (Vec<ApiEntity>, Vec<ApiRelation>))
        ensures
            (views(r.0@), views(r.1@)) == full_view(self@),
    {
        proof {
            self.lemma_view();
        }
        let mut entities: Vec<ApiEntity> = Vec::new();
        let mut i: usize = 0;
        while i < self.nodes.len()
            invariant
                i <= self.nodes.len(),
                self@.nodes == views(self.nodes@),
                entities.len() == i,
                forall|k: int| 0 <= k < i ==> entities@[k]@ == entity_view()(self@.nodes[k]),
            decreases self.nodes.len() - i,
        {
            entities.push(Self::node_to_api_entity(&self.nodes[i]));
            i = i + 1;
        }
        let mut relations: Vec<ApiRelation> = Vec::new();
        let mut j: usize = 0;
        while j < self.edges.len()
            invariant
                j <= self.edges.len(),
                self@.edges == views(self.edges@),
                relations.len() == j,
                forall|k: int| 0 <= k < j ==> relations@[k]@ == relation_view()(self@.edges[k]),
            decreases self.edges.len() - j,
        {
            relations.push(Self::edge_to_api_relation(&self.edges[j]));
            j = j + 1;
        }
        assert(views(entities@) =~= self@.nodes.map_values(entity_view()));
        assert(views(relations@) =~= self@.edges.map_values(relation_view()));
        (entities, relations)
    }

    /// The part of the graph that `chosen` selects, where `flags` says of
    /// each node whether it is chosen.
    fn excerpt_by(
        &self,
        flags: &Vec<bool>,
        Ghost(chosen): Ghost<spec_fn(NodeModel) -> bool>,
    ) -> (r: (
        Vec<ApiEntity>,
        Vec<ApiRelation>,
    ))
        requires
            flags.len() == self@.nodes.len(),
            forall|k: int| 0 <= k < flags.len() ==> flags@[k] == chosen(#[trigger] self@.nodes[k]),
        ensures
            (views(r.0@), views(r.1@)) == excerpt(self@, chosen),
    {
        proof {
            self.lemma_view();
        }
        let ghost all = self@.nodes;
        let mut entities: Vec<ApiEntity> = Vec::new();
        let mut ids: Vec<String> = Vec::new();
        let mut i: usize = 0;
        assert(all.take(0) =~= Seq::<NodeModel>::empty());
        assert(views(entities@) =~= all.take(0).filter(chosen).map_values(entity_view()));
        assert(texts(ids@) =~= all.take(0).filter(chosen).map_values(id_of_node()));
        while i < self.nodes.len()
            invariant
                i <= self.nodes.len(),
                all == self@.nodes,
                all == views(self.nodes@),
                flags.len() == all.len(),
                forall|k: int| 0 <= k < flags.len() ==> flags@[k] == chosen(#[trigger] all[k]),
                views(entities@) == all.take(i as int).filter(chosen).map_values(entity_view()),
                texts(ids@) == all.take(i as int).filter(chosen).map_values(id_of_node()),
            decreases self.nodes.len() - i,
        {
            proof {
                let before = all.take(i as int);
                assert(all.take(i + 1) =~= before.push(all[i as int]));
                before.lemma_filter_push(all[i as int], chosen);
                before.filter(chosen).lemma_push_map_commute(entity_view(), all[i as int]);
                before.filter(chosen).lemma_push_map_commute(id_of_node(), all[i as int]);
            }
            if flags[i] {
                let ghost shown = entities@;
                let ghost known = ids@;
                let entity = Self::node_to_api_entity(&self.nodes[i]);
                entities.push(entity);
                ids.push(self.nodes[i].id.clone());
                assert(views(entities@) =~= views(shown).push(entity@));
                assert(texts(ids@) =~= texts(known).push(all[i as int].id));
            }
            i = i + 1;
        }
        assert(all.take(i as int) =~= all);
        let ghost links = self@.edges;
        let ghost inside = among(texts(ids@));
        let mut relations: Vec<ApiRelation> = Vec::new();
        let mut j: usize = 0;
        assert(links.take(0) =~= Seq::<EdgeModel>::empty());
        assert(views(relations@) =~= links.take(0).filter(inside).map_values(relation_view()));
        while j < self.edges.len()
            invariant
                j <= self.edges.len(),
                links == self@.edges,
                links == views(self.edges@),
                inside == among(texts(ids@)),
                views(relations@) == links.take(j as int).filter(inside).map_values(
                    relation_view(),
                ),
            decreases self.edges.len() - j,
        {
            proof {
                let before = links.take(j as int);
                assert(links.take(j + 1) =~= before.push(links[j as int]));
                before.lemma_filter_push(links[j as int], inside);
                before.filter(inside).lemma_push_map_commute(relation_view(), links[j as int]);
            }
            let edge = &self.edges[j];
            if text_in(ids.as_slice(), edge.source_node_id.as_str()) && text_in(
                ids.as_slice(),
                edge.target_node_id.as_str(),
            ) {
                let ghost shown = relations@;
                let relation = Self::edge_to_api_relation(edge);
                relations.push(relation);
                assert(views(relations@) =~= views(shown).push(relation@));
            }
            j = j + 1;
        }
        assert(links.take(j as int) =~= links);
        (entities, relations)
    }

    /// The nodes that mention the query in their id, their type tag or one
    /// of their observations, whatever the case of the letters, and the
    /// edges whose both ends are among those nodes.
    pub fn search_nodes(&self, query: &str) -> (r: (Vec<ApiEntity>, Vec<ApiRelation>))
        ensures
            (views(r.0@), views(r.1@)) == excerpt(self@, mentioning(query@)),
    {
        proof {
            self.lemma_view();
        }
        let lowered = to_lowercase(query);
        let query_lower = chars_of(lowered.as_str());
        let mut flags: Vec<bool> = Vec::new();
        let mut i: usize = 0;
        while i < self.nodes.len()
            invariant
                i <= self.nodes.len(),
                self@.nodes == views(self.nodes@),
                query_lower@ == lowercase(query@),
                flags.len() == i,
                forall|k: int|
                    0 <= k < i ==> flags@[k] == mentioning(query@)(#[trigger] self@.nodes[k]),
            decreases self.nodes.len() - i,
        {
            flags.push(node_hits(&self.nodes[i], &query_lower, Ghost(query@)));
            i = i + 1;
        }
        self.excerpt_by(&flags, Ghost(mentioning(query@)))
    }

    /// The nodes whose id is one of `names`, in the order of the graph, and
    /// the edges whose both ends are among those nodes.
    pub fn open_nodes(&self, names: &[String]) -> (r: (Vec<ApiEntity>, Vec<ApiRelation>))
        ensures
            (views(r.0@), views(r.1@)) == excerpt(self@, named(texts(names@))),
    {
        proof {
            self.lemma_view();
        }
        let mut flags: Vec<bool> = Vec::new();
        let mut i: usize = 0;
        while i < self.nodes.len()
            invariant
                i <= self.nodes.len(),
                self@.nodes == views(self.nodes@),
                flags.len() == i,
                forall|k: int|
                    0 <= k < i ==> flags@[k] == named(texts(names@))(#[trigger] self@.nodes[k]),
            decreases self.nodes.len() - i,
        {
            flags.push(text_in(names, self.nodes[i].id.as_str()));
            i = i + 1;
        }
        self.excerpt_by(&flags, Ghost(named(texts(names@))))
    }

    /// The neighbours of a node: the nodes at the far end of the edges that
    /// leave it (`outgoing`), enter it (`incoming`) or either (any other
    /// word or none), of the type asked for where one is. Each neighbour
    /// comes once, in the order of the ids.
    pub fn neighbors(&self, node_id: &str, edge_type: Option<&str>, direction: Option<&str>) -> (r:
        Vec<Node>)
        ensures
            lists_neighbors(
                self@,
                node_id@,
                optional_str(edge_type),
                direction_named(optional_str(direction)),
                views(r@),
            ),
    {
        proof {
            self.lemma_view();
        }
        let way = direction_of(direction);
        let ghost kind = optional_str(edge_type);
        let ghost links = self@.edges;
        let mut out: Vec<Node> = Vec::new();
        let mut i: usize = 0;
        while i < self.edges.len()
            invariant
                i <= self.edges.len(),
                links == self@.edges,
                links == views(self.edges@),
                kind == optional_str(edge_type),
                ordered_by_id(views(out@)),
                forall|k: int|
                    0 <= k < out.len() ==> node_of(self@, (#[trigger] views(out@)[k]).id) == Some(
                        views(out@)[k],
                    ),
                forall|other: Seq<char>|
                    views(out@).map_values(id_of_node()).contains(other) <==> (has_node(self@, other)
                        && exists|k: int|
                        0 <= k < i && leads_from(#[trigger] links[k], node_id@, kind, way)
                            && far_end(links[k], node_id@, way) == other),
            decreases self.edges.len() - i,
        {
            let edge = &self.edges[i];
            let ghost before = views(out@);
            let counts = is_incident(edge, node_id, way) && match edge_type {
                Some(t) => *edge.edge_type.as_str() == *t,
                None => true,
            };
            if counts {
                let far = match way {
                    Direction::Outgoing => edge.target_node_id.as_str(),
                    Direction::Incoming => edge.source_node_id.as_str(),
                    Direction::Both => if *edge.source_node_id.as_str() == *node_id {
                        edge.target_node_id.as_str()
                    } else {
                        edge.source_node_id.as_str()
                    },
                };
                assert(far@ == far_end(links[i as int], node_id@, way));
                proof {
                    lemma_position(node_ids(self@), far@);
                }
                match self.get_node(far) {
                    Some(node) => {
                        insert_by_id(&mut out, node);
                    },
                    None => {},
                }
            }
            proof {
                let after = views(out@);
                let e = links[i as int];
                let applies = leads_from(e, node_id@, kind, way);
                assert(counts == applies);
                assert forall|other: Seq<char>|
                    after.map_values(id_of_node()).contains(other) <==> (before.map_values(
                        id_of_node(),
                    ).contains(other) || (applies && other == far_end(e, node_id@, way)
                        && has_node(self@, other))) by {}
                assert forall|other: Seq<char>|
                    after.map_values(id_of_node()).contains(other) <==> (has_node(self@, other)
                        && exists|k: int|
                        0 <= k < i + 1 && leads_from(#[trigger] links[k], node_id@, kind, way)
                            && far_end(links[k], node_id@, way) == other) by {
                    let earlier = exists|k: int|
                        0 <= k < i && leads_from(#[trigger] links[k], node_id@, kind, way)
                            && far_end(links[k], node_id@, way) == other;
                    let now = leads_from(e, node_id@, kind, way) && far_end(e, node_id@, way)
                        == other;
                    let later = exists|k: int|
                        0 <= k < i + 1 && leads_from(#[trigger] links[k], node_id@, kind, way)
                            && far_end(links[k], node_id@, way) == other;
                    if later {
                        let k = choose|k: int|
                            0 <= k < i + 1 && leads_from(#[trigger] links[k], node_id@, kind, way)
                                && far_end(links[k], node_id@, way) == other;
                        if k < i {
                            assert(earlier);
                        } else {
                            assert(now);
                        }
                    }
                    if earlier {
                        let k = choose|k: int|
                            0 <= k < i && leads_from(#[trigger] links[k], node_id@, kind, way)
                                && far_end(links[k], node_id@, way) == other;
                        assert(0 <= k < i + 1);
                        assert(later);
                    }
                    if now {
                        assert(leads_from(links[i as int], node_id@, kind, way));
                        assert(later);
                    }
                    assert(before.map_values(id_of_node()).contains(other) <==> (has_node(self@, other)
                        && earlier));
                }
            }
            i = i + 1;
        }
        out
    }
}

/// Puts a copy of `node` among nodes that stand in the order of their ids,
/// unless one of them has its id already.
fn insert_by_id(out: &mut Vec<Node>, node: &Node)
    requires
        ordered_by_id(views(old(out)@)),
    ensures
        ordered_by_id(views(final(out)@)),
        forall|k: int|
            0 <= k < final(out).len() ==> views(old(out)@).contains(#[trigger] views(final(out)@)[k])
                || views(final(out)@)[k] == node@,
        forall|id: Seq<char>|
            views(final(out)@).map_values(id_of_node()).contains(id) <==> (views(old(out)@).map_values(
                id_of_node(),
            ).contains(id) || id == node.id@),
{
    let ghost before = views(out@);
    let mut p: usize = 0;
    while p < out.len() && text_less(out[p].id.as_str(), node.id.as_str())
        invariant
            p <= out.len(),
            before == views(out@),
            forall|j: int| 0 <= j < p ==> text_lt(before[j].id, node.id@),
        decreases out.len() - p,
    {
        p = p + 1;
    }
    if p < out.len() && *out[p].id.as_str() == *node.id.as_str() {
        assert(before.map_values(id_of_node())[p as int] == node.id@);
        assert forall|k: int| 0 <= k < out.len() implies before.contains(#[trigger] before[k]) by {}
        return ;
    }
    out.insert(p, node.clone());
    proof {
        let after = views(out@);
        assert(after =~= before.insert(p as int, node@));
        if p < before.len() {
            lemma_text_lt_total(before[p as int].id, node.id@);
        }
        assert forall|a: int, b: int| 0 <= a < b < after.len() implies text_lt(
            after[a].id,
            after[b].id,
        ) by {
            if b < p {
            } else if b == p {
            } else if a == p {
                if b - 1 > p {
                    lemma_text_lt_transitive(node.id@, before[p as int].id, before[b - 1].id);
                }
            } else if a < p {
                lemma_text_lt_transitive(before[a].id, node.id@, before[p as int].id);
                if b - 1 > p {
                    lemma_text_lt_transitive(before[a].id, before[p as int].id, before[b - 1].id);
                }
            } else {
            }
        }
        assert forall|k: int| 0 <= k < after.len() implies before.contains(#[trigger] after[k])
            || after[k] == node@ by {
            if k < p {
                assert(after[k] == before[k]);
            } else if k > p {
                assert(after[k] == before[k - 1]);
            }
        }
        assert forall|id: Seq<char>|
            after.map_values(id_of_node()).contains(id) <==> (before.map_values(id_of_node()).contains(id)
                || id == node.id@) by {
            let new_ids = after.map_values(id_of_node());
            let old_ids = before.map_values(id_of_node());
            if new_ids.contains(id) {
                let k = choose|k: int| 0 <= k < new_ids.len() && new_ids[k] == id;
                if k < p {
                    assert(old_ids[k] == id);
                } else if k > p {
                    assert(old_ids[k - 1] == id);
                }
            }
            if old_ids.contains(id) {
                let k = choose|k: int| 0 <= k < old_ids.len() && old_ids[k] == id;
                if k < p {
                    assert(new_ids[k] == id);
                } else {
                    assert(new_ids[k + 1] == id);
                }
            }
            if id == node.id@ {
                assert(new_ids[p as int] == id);
            }
        }
    }
}

} // verus!
