//! The store: a graph held in memory, and its single-item operations.

use crate::document::{clone_fields, entries_of, optional_model, Document, Field};
use crate::lemmas::{lemma_filter_keeps_distinct, lemma_remove_keeps_distinct};
use crate::model::{
    clear_of, direction_named, edge_ids, edge_of, edge_slot, empty_graph, has_edge, has_node,
    incident, incident_to, node_ids, node_of, node_slot, of_type, put_edge, put_node, revised,
    well_formed, with_edge_data, with_edges, with_node_revised, with_nodes, without_edge,
    without_node, Direction, GraphModel,
};
use crate::text::{lemma_position, lemma_position_is};
use crate::types::{
    clone_edges, clone_nodes, optional_text, views, Edge, EdgeModel, Node, NodeModel,
};
use vstd::pervasive::VecAdditionalExecFns;
use vstd::prelude::*;

verus! {

/// A graph held in memory. Its nodes and its edges stand in the order in
/// which they were first inserted.
#[derive(Debug, PartialEq, Eq)]
pub struct KnowledgeGraphState {
    pub(crate) nodes: Vec<Node>,
    pub(crate) edges: Vec<Edge>,
    pub(crate) metadata: Vec<Field>,
}

impl View for KnowledgeGraphState {
    type V = GraphModel;

    closed spec fn view(&self) -> GraphModel {
        GraphModel {
            nodes: views(self.nodes@),
            edges: views(self.edges@),
            metadata: entries_of(self.metadata@),
        }
    }
}

impl Default for KnowledgeGraphState {
    /// The empty graph.
    fn default() -> (r: Self)
        ensures
            r.wf(),
            r@ == empty_graph(),
    {
        KnowledgeGraphState::new()
    }
}

impl Clone for KnowledgeGraphState {
    fn clone(&self) -> (r: Self)
        ensures
            r@ == self@,
    {
        KnowledgeGraphState {
            nodes: clone_nodes(&self.nodes),
            edges: clone_edges(&self.edges),
            metadata: clone_fields(&self.metadata),
        }
    }
}

/// The model of an optional node.
pub open spec fn optional_node(n: Option<Node>) -> Option<NodeModel> {
    match n {
        Some(x) => Some(x@),
        None => None,
    }
}

/// The model of an optional edge.
pub open spec fn optional_edge(e: Option<Edge>) -> Option<EdgeModel> {
    match e {
        Some(x) => Some(x@),
        None => None,
    }
}

/// The model of an optional reference to a node.
pub open spec fn optional_node_ref(n: Option<&Node>) -> Option<NodeModel> {
    match n {
        Some(x) => Some(x@),
        None => None,
    }
}

/// The model of an optional reference to an edge.
pub open spec fn optional_edge_ref(e: Option<&Edge>) -> Option<EdgeModel> {
    match e {
        Some(x) => Some(x@),
        None => None,
    }
}

impl KnowledgeGraphState {
    /// No two nodes share an id, and no two edges.
    pub open spec fn wf(&self) -> bool {
        well_formed(self@)
    }

    /// What the view is made of.
    pub(crate) proof fn lemma_view(&self)
        ensures
            self@.nodes == views(self.nodes@),
            self@.edges == views(self.edges@),
            self@.metadata == entries_of(self.metadata@),
    {
    }

    /// The empty graph.
    pub fn new() -> (r: Self)
        ensures
            r.wf(),
            r@ == empty_graph(),
    {
        let r = KnowledgeGraphState { nodes: Vec::new(), edges: Vec::new(), metadata: Vec::new() };
        assert(r@.nodes =~= Seq::empty());
        assert(r@.edges =~= Seq::empty());
        assert(r@.metadata =~= Seq::empty());
        r
    }

    /// The graph that holds these nodes, these edges and this metadata. Of
    /// nodes that share an id the last one stays, and so of edges.
    pub fn from_parts(nodes: Vec<Node>, edges: Vec<Edge>, metadata: Vec<Field>) -> (r: Self)
        ensures
            r.wf(),
            r@ == (GraphModel {
                metadata: entries_of(metadata@),
                ..with_edges(with_nodes(empty_graph(), views(nodes@)), views(edges@))
            }),
    {
        let mut graph = KnowledgeGraphState::new();
        let ghost all_nodes = views(nodes@);
        assert(all_nodes.take(0) =~= Seq::empty());
        for node in it: nodes
            invariant
                graph.wf(),
                all_nodes == views(it.seq()),
                graph@ == with_nodes(empty_graph(), all_nodes.take(it.index() as int)),
        {
            proof {
                let upto = all_nodes.take(it.index() + 1);
                assert(upto.drop_last() =~= all_nodes.take(it.index() as int));
                assert(upto.last() == node@);
            }
            graph.add_node(node);
        }
        assert(all_nodes.take(all_nodes.len() as int) =~= all_nodes);
        let ghost base = graph@;
        let ghost all_edges = views(edges@);
        assert(all_edges.take(0) =~= Seq::empty());
        for edge in it: edges
            invariant
                graph.wf(),
                all_edges == views(it.seq()),
                graph@ == with_edges(base, all_edges.take(it.index() as int)),
        {
            proof {
                let upto = all_edges.take(it.index() + 1);
                assert(upto.drop_last() =~= all_edges.take(it.index() as int));
                assert(upto.last() == edge@);
            }
            graph.add_edge(edge);
        }
        assert(all_edges.take(all_edges.len() as int) =~= all_edges);
        graph.metadata = metadata;
        graph
    }

    /// The nodes, in order.
    pub fn nodes(&self) -> (r: &Vec<Node>)
        ensures
            views(r@) == self@.nodes,
    {
        &self.nodes
    }

    /// The edges, in order.
    pub fn edges(&self) -> (r: &Vec<Edge>)
        ensures
            views(r@) == self@.edges,
    {
        &self.edges
    }

    /// The metadata of the graph.
    pub fn metadata(&self) -> (r: &Vec<Field>)
        ensures
            entries_of(r@) == self@.metadata,
    {
        &self.metadata
    }

    /// Replaces the metadata of the graph.
    pub fn set_metadata(&mut self, metadata: Vec<Field>)
        ensures
            final(self)@ == (GraphModel { metadata: entries_of(metadata@), ..old(self)@ }),
    {
        self.metadata = metadata;
    }

    /// Where the node with this id stands; the number of nodes where there is none.
    pub(crate) fn find_node(&self, id: &str) -> (r: usize)
        ensures
            r == node_slot(self@, id@),
            r <= self.nodes.len(),
            r < self.nodes.len() <==> has_node(self@, id@),
            r < self.nodes.len() ==> self.nodes@[r as int].id@ == id@,
    {
        let ghost ids = node_ids(self@);
        let mut i: usize = 0;
        while i < self.nodes.len()
            invariant
                i <= self.nodes.len(),
                ids == node_ids(self@),
                ids.len() == self.nodes.len(),
                forall|j: int| 0 <= j < i ==> ids[j] != id@,
            decreases self.nodes.len() - i,
        {
            if *self.nodes[i].id.as_str() == *id {
                proof {
                    lemma_position_is(ids, id@, i as int);
                    lemma_position(ids, id@);
                }
                return i;
            }
            i = i + 1;
        }
        proof {
            lemma_position_is(ids, id@, i as int);
            lemma_position(ids, id@);
        }
        i
    }

    /// Where the edge with this id stands; the number of edges where there is none.
    pub(crate) fn find_edge(&self, id: &str) -> (r: usize)
        ensures
            r == edge_slot(self@, id@),
            r <= self.edges.len(),
            r < self.edges.len() <==> has_edge(self@, id@),
            r < self.edges.len() ==> self.edges@[r as int].id@ == id@,
    {
        let ghost ids = edge_ids(self@);
        let mut i: usize = 0;
        while i < self.edges.len()
            invariant
                i <= self.edges.len(),
                ids == edge_ids(self@),
                ids.len() == self.edges.len(),
                forall|j: int| 0 <= j < i ==> ids[j] != id@,
            decreases self.edges.len() - i,
        {
            if *self.edges[i].id.as_str() == *id {
                proof {
                    lemma_position_is(ids, id@, i as int);
                    lemma_position(ids, id@);
                }
                return i;
            }
            i = i + 1;
        }
        proof {
            lemma_position_is(ids, id@, i as int);
            lemma_position(ids, id@);
        }
        i
    }

    /// Whether the graph holds a node with this id.
    pub fn contains_node(&self, id: &str) -> (r: bool)
        ensures
            r == has_node(self@, id@),
    {
        self.find_node(id) < self.nodes.len()
    }

    /// Inserts a node under its id, in the place of the node that has that
    /// id already, if any, and returns the id.
    pub fn add_node(&mut self, node: Node) -> (id: String)
        requires
            old(self).wf(),
        ensures
            final(self).wf(),
            final(self)@ == put_node(old(self)@, node@),
            id@ == node.id@,
    {
        let id = node.id.clone();
        let slot = self.find_node(id.as_str());
        if slot < self.nodes.len() {
            self.nodes.set(slot, node);
            assert(self@.nodes =~= put_node(old(self)@, node@).nodes);
            assert(node_ids(self@) =~= node_ids(old(self)@));
        } else {
            self.nodes.push(node);
            assert(self@.nodes =~= put_node(old(self)@, node@).nodes);
            assert(node_ids(self@) =~= node_ids(old(self)@).push(node.id@));
        }
        id
    }

    /// The node with this id.
    pub fn get_node(&self, node_id: &str) -> (r: Option<&Node>)
        ensures
            optional_node_ref(r) == node_of(self@, node_id@),
    {
        let slot = self.find_node(node_id);
        if slot < self.nodes.len() {
            Some(&self.nodes[slot])
        } else {
            None
        }
    }

    /// Inserts an edge under its id, in the place of the edge that has that
    /// id already, if any, and returns the id. Its ends are not looked at.
    pub fn add_edge(&mut self, edge: Edge) -> (id: String)
        requires
            old(self).wf(),
        ensures
            final(self).wf(),
            final(self)@ == put_edge(old(self)@, edge@),
            id@ == edge.id@,
    {
        let id = edge.id.clone();
        let slot = self.find_edge(id.as_str());
        if slot < self.edges.len() {
            self.edges.set(slot, edge);
            assert(self@.edges =~= put_edge(old(self)@, edge@).edges);
            assert(edge_ids(self@) =~= edge_ids(old(self)@));
        } else {
            self.edges.push(edge);
            assert(self@.edges =~= put_edge(old(self)@, edge@).edges);
            assert(edge_ids(self@) =~= edge_ids(old(self)@).push(edge.id@));
        }
        id
    }

    /// The edge with this id.
    pub fn get_edge(&self, edge_id: &str) -> (r: Option<&Edge>)
        ensures
            optional_edge_ref(r) == edge_of(self@, edge_id@),
    {
        let slot = self.find_edge(edge_id);
        if slot < self.edges.len() {
            Some(&self.edges[slot])
        } else {
            None
        }
    }

    /// Removes the edge with this id and returns it.
    pub fn remove_edge(&mut self, edge_id: &str) -> (r: Option<Edge>)
        requires
            old(self).wf(),
        ensures
            final(self).wf(),
            final(self)@ == without_edge(old(self)@, edge_id@),
            optional_edge(r) == edge_of(old(self)@, edge_id@),
    {
        let slot = self.find_edge(edge_id);
        if slot < self.edges.len() {
            let edge = self.edges.remove(slot);
            proof {
                assert(self@.edges =~= old(self)@.edges.remove(slot as int));
                assert(edge_ids(self@) =~= edge_ids(old(self)@).remove(slot as int));
                lemma_remove_keeps_distinct(edge_ids(old(self)@), slot as int);
            }
            Some(edge)
        } else {
            None
        }
    }

    /// The nodes with this type tag, in order.
    pub fn find_nodes_by_type(&self, node_type: &str) -> (r: Vec<&Node>)
        ensures
            views(r@) == self@.nodes.filter(of_type(node_type@)),
    {
        let ghost all = self@.nodes;
        let ghost wanted = of_type(node_type@);
        let mut out: Vec<&Node> = Vec::new();
        let mut i: usize = 0;
        assert(all.take(0) =~= Seq::<NodeModel>::empty());
        assert(views(out@) =~= all.take(0).filter(wanted));
        while i < self.nodes.len()
            invariant
                i <= self.nodes.len(),
                all == self@.nodes,
                all.len() == self.nodes.len(),
                wanted == of_type(node_type@),
                views(out@) == all.take(i as int).filter(wanted),
            decreases self.nodes.len() - i,
        {
            proof {
                let before = all.take(i as int);
                assert(all.take(i + 1) =~= before.push(all[i as int]));
                before.lemma_filter_push(all[i as int], wanted);
            }
            if *self.nodes[i].node_type.as_str() == *node_type {
                let ghost prior = out@;
                out.push(&self.nodes[i]);
                assert(views(out@) =~= views(prior).push(all[i as int]));
            }
            i = i + 1;
        }
        assert(all.take(i as int) =~= all);
        out
    }

    /// The edges incident to a node: those that leave it for `outgoing`,
    /// those that enter it for `incoming`, both kinds for any other word or none.
    pub fn get_edges_for_node(&self, node_id: &str, direction: Option<&str>) -> (r: Vec<&Edge>)
        ensures
            views(r@) == self@.edges.filter(
                incident_to(node_id@, direction_named(optional_str(direction))),
            ),
    {
        let way = direction_of(direction);
        let ghost all = self@.edges;
        let ghost wanted = incident_to(node_id@, way);
        let mut out: Vec<&Edge> = Vec::new();
        let mut i: usize = 0;
        assert(all.take(0) =~= Seq::<EdgeModel>::empty());
        assert(views(out@) =~= all.take(0).filter(wanted));
        while i < self.edges.len()
            invariant
                i <= self.edges.len(),
                all == self@.edges,
                all.len() == self.edges.len(),
                wanted == incident_to(node_id@, way),
                views(out@) == all.take(i as int).filter(wanted),
            decreases self.edges.len() - i,
        {
            proof {
                let before = all.take(i as int);
                assert(all.take(i + 1) =~= before.push(all[i as int]));
                before.lemma_filter_push(all[i as int], wanted);
            }
            if is_incident(&self.edges[i], node_id, way) {
                let ghost prior = out@;
                out.push(&self.edges[i]);
                assert(views(out@) =~= views(prior).push(all[i as int]));
            }
            i = i + 1;
        }
        assert(all.take(i as int) =~= all);
        out
    }

    /// Removes the node with this id and every edge that touches it, and
    /// returns the node.
    pub fn delete_node_and_connected_edges(&mut self, node_id: &str) -> (r: Option<Node>)
        requires
            old(self).wf(),
        ensures
            final(self).wf(),
            final(self)@ == without_node(old(self)@, node_id@),
            optional_node(r) == node_of(old(self)@, node_id@),
    {
        let slot = self.find_node(node_id);
        if slot >= self.nodes.len() {
            return None;
        }
        let node = self.nodes.remove(slot);
        proof {
            assert(self@.nodes =~= old(self)@.nodes.remove(slot as int));
            assert(node_ids(self@) =~= node_ids(old(self)@).remove(slot as int));
            lemma_remove_keeps_distinct(node_ids(old(self)@), slot as int);
        }
        let ghost left = self.nodes;
        let mut former: Vec<Edge> = Vec::new();
        core::mem::swap(&mut self.edges, &mut former);
        let ghost all = views(former@);
        let ghost keep = clear_of(node_id@);
        assert(all == old(self)@.edges);
        assert(all.take(0) =~= Seq::<EdgeModel>::empty());
        assert(views(self.edges@) =~= all.take(0).filter(keep));
        for edge in it: former
            invariant
                all == views(it.seq()),
                keep == clear_of(node_id@),
                views(self.edges@) == all.take(it.index() as int).filter(keep),
                self.nodes == left,
                self.metadata == old(self).metadata,
        {
            proof {
                let before = all.take(it.index() as int);
                assert(all.take(it.index() + 1) =~= before.push(all[it.index() as int]));
                before.lemma_filter_push(all[it.index() as int], keep);
            }
            if !(*edge.source_node_id.as_str() == *node_id || *edge.target_node_id.as_str()
                == *node_id) {
                let ghost prior = self.edges@;
                self.edges.push(edge);
                assert(views(self.edges@) =~= views(prior).push(edge@));
            }
        }
        proof {
            assert(all.take(all.len() as int) =~= all);
            lemma_filter_keeps_distinct(old(self)@.edges, keep);
        }
        Some(node)
    }

    /// Replaces the parts of a node that are supplied and returns the node as
    /// it then is; nothing where no node has this id. The time of update
    /// moves to `now_ms` exactly when the tag or the payload is another
    /// than before.
    pub fn update_node(
        &mut self,
        id_str: &str,
        node_type_opt: Option<String>,
        data_opt: Option<Document>,
        now_ms: u64,
    ) -> (r: Option<Node>)
        requires
            old(self).wf(),
        ensures
            final(self).wf(),
            final(self)@ == with_node_revised(
                old(self)@,
                id_str@,
                optional_text(node_type_opt),
                optional_model(data_opt),
                now_ms,
            ),
            optional_node(r) == node_of(final(self)@, id_str@),
            r is Some <==> has_node(old(self)@, id_str@),
    {
        let slot = self.find_node(id_str);
        if slot >= self.nodes.len() {
            return None;
        }
        let mut node = Node {
            id: String::new(),
            node_type: String::new(),
            data: Document::Null,
            created_at_ms: 0,
            updated_at_ms: 0,
        };
        self.nodes.set_and_swap(slot, &mut node);
        let ghost before = node@;
        let mut changed = false;
        match node_type_opt {
            Some(new_type) => {
                if !(new_type == node.node_type) {
                    changed = true;
                }
                node.node_type = new_type;
            },
            None => {},
        }
        match data_opt {
            Some(new_data) => {
                if !new_data.same(&node.data) {
                    changed = true;
                }
                node.data = new_data;
            },
            None => {},
        }
        if changed {
            node.updated_at_ms = now_ms;
        }
        assert(node@ == revised(before, optional_text(node_type_opt), optional_model(data_opt), now_ms));
        let copy = node.clone();
        self.nodes.set(slot, node);
        proof {
            assert(self@.nodes =~= old(self)@.nodes.update(slot as int, node@));
            assert(node_ids(self@) =~= node_ids(old(self)@));
        }
        Some(copy)
    }

    /// Replaces the payload of an edge (none clears it) and returns the edge
    /// as it then is; nothing where no edge has this id.
    pub fn update_edge_data(&mut self, edge_id: &str, data: Option<Document>) -> (r: Option<Edge>)
        requires
            old(self).wf(),
        ensures
            final(self).wf(),
            final(self)@ == with_edge_data(old(self)@, edge_id@, optional_model(data)),
            optional_edge(r) == edge_of(final(self)@, edge_id@),
            r is Some <==> has_edge(old(self)@, edge_id@),
    {
        let slot = self.find_edge(edge_id);
        if slot >= self.edges.len() {
            return None;
        }
        let mut edge = Edge {
            id: String::new(),
            edge_type: String::new(),
            source_node_id: String::new(),
            target_node_id: String::new(),
            data: None,
            created_at_ms: 0,
        };
        self.edges.set_and_swap(slot, &mut edge);
        edge.data = data;
        let copy = edge.clone();
        self.edges.set(slot, edge);
        proof {
            assert(self@.edges =~= old(self)@.edges.update(
                slot as int,
                EdgeModel { data: optional_model(data), ..old(self)@.edges[slot as int] },
            ));
            assert(edge_ids(self@) =~= edge_ids(old(self)@));
        }
        Some(copy)
    }
}

/// The word of an optional string slice.
pub open spec fn optional_str(s: Option<&str>) -> Option<Seq<char>> {
    match s {
        Some(x) => Some(x@),
        None => None,
    }
}

/// The direction that a request names.
pub fn direction_of(word: Option<&str>) -> (r: Direction)
    ensures
        r == direction_named(optional_str(word)),
{
    match word {
        Some(w) => {
            if *w == *"outgoing" {
                Direction::Outgoing
            } else if *w == *"incoming" {
                Direction::Incoming
            } else {
                Direction::Both
            }
        },
        None => Direction::Both,
    }
}

/// Whether an edge is incident to a node in a direction.
pub fn is_incident(edge: &Edge, node_id: &str, direction: Direction) -> (r: bool)
    ensures
        r == incident(edge@, node_id@, direction),
{
    match direction {
        Direction::Outgoing => *edge.source_node_id.as_str() == *node_id,
        Direction::Incoming => *edge.target_node_id.as_str() == *node_id,
        Direction::Both => *edge.source_node_id.as_str() == *node_id
            || *edge.target_node_id.as_str() == *node_id,
    }
}

} // verus!
