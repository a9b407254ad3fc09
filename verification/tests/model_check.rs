use mcp_memory::document::{Document, Field, Number};
use mcp_memory::kg::KnowledgeGraphState;
use mcp_memory::types::{
    AddObservationItem, DeleteObservationItem, Edge, EntityToCreate, Node, RelationToCreate,
    RelationToDelete,
};
use serde_json::Value;
use std::collections::{BTreeMap, BTreeSet};

/// A second model of the store, on maps and on `serde_json::Value`, to hold
/// the library against.
#[derive(Clone, Debug, PartialEq)]
struct PlainNode {
    node_type: String,
    data: Value,
    created_at_ms: u64,
    updated_at_ms: u64,
}

#[derive(Clone, Debug, PartialEq, Eq, PartialOrd, Ord)]
struct PlainEdge {
    source: String,
    target: String,
    edge_type: String,
    created_at_ms: u64,
}

#[derive(Clone, Debug, Default)]
struct PlainGraph {
    nodes: BTreeMap<String, PlainNode>,
    edges: Vec<PlainEdge>,
}

struct Dice(u64);

impl Dice {
    fn roll(&mut self, sides: usize) -> usize {
        self.0 = self.0.wrapping_mul(6364136223846793005).wrapping_add(1442695040888963407);
        ((self.0 >> 33) as usize) % sides
    }

    fn pick<'a>(&mut self, words: &[&'a str]) -> &'a str {
        words[self.roll(words.len())]
    }

    fn some(&mut self, words: &[&str]) -> Vec<String> {
        let count = self.roll(4);
        (0..count).map(|_| self.pick(words).to_string()).collect()
    }
}

const NAMES: [&str; 5] = ["ada", "Bob", "cy", "dee", "eve"];
const FACTS: [&str; 5] = ["likes tea", "Likes Tea", "bob", "x", ""];
const KINDS: [&str; 2] = ["Person", "place"];
const LINKS: [&str; 2] = ["KNOWS", "owns"];

fn json_of(document: &Document) -> Value {
    match document {
        Document::Null => Value::Null,
        Document::Bool(b) => Value::Bool(*b),
        Document::Number(Number::Unsigned(u)) => Value::from(*u),
        Document::Number(Number::Signed(i)) => Value::from(*i),
        Document::Number(Number::Real(bits)) => Value::from(f64::from_bits(*bits)),
        Document::Text(s) => Value::String(s.clone()),
        Document::List(items) => Value::Array(items.iter().map(json_of).collect()),
        Document::Object(fields) => {
            Value::Object(fields.iter().map(|f| (f.key.clone(), json_of(&f.value))).collect())
        }
    }
}

fn some_data(dice: &mut Dice) -> Option<Document> {
    let text = |s: &str| Document::Text(s.to_string());
    let field = |key: &str, value: Document| Field { key: key.to_string(), value };
    match dice.roll(6) {
        0 => None,
        1 => Some(Document::Object(vec![])),
        2 => Some(text("scalar")),
        3 => Some(Document::Object(vec![field("color", text("red"))])),
        4 => Some(Document::Object(vec![
            field("observations", Document::Number(Number::Unsigned(3))),
            field("zone", Document::Null),
        ])),
        _ => Some(Document::Object(vec![field(
            "observations",
            Document::List(vec![text("x"), Document::Bool(true), text("x"), text("kept")]),
        )])),
    }
}

impl PlainGraph {
    fn create_entities(&mut self, batch: &[EntityToCreate], now: u64) -> Vec<String> {
        let mut created = Vec::new();
        for entity in batch {
            if self.nodes.contains_key(&entity.name) {
                continue;
            }
            let mut data = entity.data.as_ref().map(json_of).unwrap_or(Value::Object(serde_json::Map::new()));
            if !data.is_object() {
                data = Value::Object(serde_json::Map::new());
            }
            let observations =
                Value::Array(entity.observations.iter().cloned().map(Value::String).collect());
            data.as_object_mut().unwrap().insert("observations".to_string(), observations);
            self.nodes.insert(
                entity.name.clone(),
                PlainNode {
                    node_type: entity.entity_type.clone(),
                    data,
                    created_at_ms: now,
                    updated_at_ms: now,
                },
            );
            created.push(entity.name.clone());
        }
        created
    }

    fn create_relations(&mut self, batch: &[RelationToCreate], now: u64) -> Result<usize, String> {
        let mut next = self.clone();
        let mut created = 0;
        for relation in batch {
            if !next.nodes.contains_key(&relation.from) {
                return Err(format!(
                    "Source node with name {} not found for relation",
                    relation.from
                ));
            }
            if !next.nodes.contains_key(&relation.to) {
                return Err(format!("Target node with name {} not found for relation", relation.to));
            }
            let exists = next.edges.iter().any(|e| {
                e.source == relation.from
                    && e.target == relation.to
                    && e.edge_type == relation.relation_type
            });
            if exists {
                continue;
            }
            next.edges.push(PlainEdge {
                source: relation.from.clone(),
                target: relation.to.clone(),
                edge_type: relation.relation_type.clone(),
                created_at_ms: now,
            });
            created += 1;
        }
        *self = next;
        Ok(created)
    }

    fn add_observations(&mut self, batch: &[AddObservationItem], now: u64) -> Vec<Result<String, String>> {
        let mut results = Vec::new();
        for item in batch {
            match self.nodes.get_mut(&item.entity_name) {
                Some(node) => {
                    if !node.data.is_object() {
                        node.data = Value::Object(serde_json::Map::new());
                    }
                    let map = node.data.as_object_mut().unwrap();
                    if !map.get("observations").map_or(false, |v| v.is_array()) {
                        map.insert("observations".to_string(), Value::Array(vec![]));
                    }
                    let list = map.get_mut("observations").unwrap().as_array_mut().unwrap();
                    let mut added = 0;
                    for content in &item.contents {
                        let value = Value::String(content.clone());
                        if !list.contains(&value) {
                            list.push(value);
                            added += 1;
                        }
                    }
                    if added > 0 {
                        node.updated_at_ms = now;
                        results.push(Ok(format!(
                            "Added {} new observation(s) to entity {}",
                            added, item.entity_name
                        )));
                    } else {
                        results.push(Ok(format!(
                            "No new observations added to entity {} (all existed or empty input)",
                            item.entity_name
                        )));
                    }
                }
                None => {
                    results.push(Err(format!("Entity with name {} not found", item.entity_name)))
                }
            }
        }
        results
    }

    fn delete_entities(&mut self, names: &[String]) -> Vec<String> {
        let mut deleted = Vec::new();
        for name in names {
            if self.nodes.remove(name).is_some() {
                self.edges.retain(|e| &e.source != name && &e.target != name);
                deleted.push(name.clone());
            }
        }
        deleted
    }

    fn delete_observations(
        &mut self,
        batch: &[DeleteObservationItem],
        now: u64,
    ) -> Vec<Result<String, String>> {
        let mut results = Vec::new();
        for item in batch {
            let name = &item.entity_name;
            let node = match self.nodes.get_mut(name) {
                Some(node) => node,
                None => {
                    results.push(Err(format!("Entity with name {} not found", name)));
                    continue;
                }
            };
            let map = match node.data.as_object_mut() {
                Some(map) => map,
                None => {
                    results.push(Err(format!(
                        "Entity {} data is not an object, cannot delete observations.",
                        name
                    )));
                    continue;
                }
            };
            match map.get_mut("observations").and_then(|v| v.as_array_mut()) {
                Some(list) => {
                    let before = list.len();
                    list.retain(|v| {
                        !v.as_str().map_or(false, |s| item.observations.iter().any(|o| o == s))
                    });
                    if list.len() < before {
                        node.updated_at_ms = now;
                        results.push(Ok(format!("Observations processed for entity {}", name)));
                    } else {
                        results
                            .push(Ok(format!("No matching observations deleted for entity {}", name)));
                    }
                }
                None => results.push(Ok(format!(
                    "No observations found or field is not an array for entity {}, nothing deleted.",
                    name
                ))),
            }
        }
        results
    }

    fn delete_relations(&mut self, criteria: &[RelationToDelete]) -> usize {
        let before = self.edges.len();
        self.edges.retain(|e| {
            !criteria.iter().any(|c| {
                e.source == c.from && e.target == c.to && e.edge_type == c.relation_type
            })
        });
        before - self.edges.len()
    }

    fn observations(node: &PlainNode) -> Vec<String> {
        node.data
            .get("observations")
            .and_then(|v| v.as_array())
            .map(|list| list.iter().filter_map(|v| v.as_str().map(String::from)).collect())
            .unwrap_or_default()
    }

    fn search(&self, query: &str) -> BTreeSet<String> {
        let wanted = query.to_lowercase();
        self.nodes
            .iter()
            .filter(|(id, node)| {
                id.to_lowercase().contains(&wanted)
                    || node.node_type.to_lowercase().contains(&wanted)
                    || Self::observations(node).iter().any(|o| o.to_lowercase().contains(&wanted))
            })
            .map(|(id, _)| id.clone())
            .collect()
    }

    fn edges_among(&self, ids: &BTreeSet<String>) -> Vec<(String, String, String)> {
        let mut found: Vec<_> = self
            .edges
            .iter()
            .filter(|e| ids.contains(&e.source) && ids.contains(&e.target))
            .map(|e| (e.source.clone(), e.target.clone(), e.edge_type.clone()))
            .collect();
        found.sort();
        found
    }

    fn neighbors(&self, id: &str, edge_type: Option<&str>, direction: Option<&str>) -> Vec<String> {
        let mut found = BTreeSet::new();
        for e in &self.edges {
            if edge_type.map_or(false, |t| e.edge_type != t) {
                continue;
            }
            let far = match direction {
                Some("outgoing") => (e.source == id).then(|| e.target.clone()),
                Some("incoming") => (e.target == id).then(|| e.source.clone()),
                _ => {
                    if e.source == id {
                        Some(e.target.clone())
                    } else if e.target == id {
                        Some(e.source.clone())
                    } else {
                        None
                    }
                }
            };
            if let Some(far) = far {
                if self.nodes.contains_key(&far) {
                    found.insert(far);
                }
            }
        }
        found.into_iter().collect()
    }
}

fn agree(graph: &KnowledgeGraphState, plain: &PlainGraph) {
    let nodes: BTreeMap<String, PlainNode> = graph
        .nodes()
        .iter()
        .map(|n: &Node| {
            (
                n.id.clone(),
                PlainNode {
                    node_type: n.node_type.clone(),
                    data: json_of(&n.data),
                    created_at_ms: n.created_at_ms,
                    updated_at_ms: n.updated_at_ms,
                },
            )
        })
        .collect();
    assert_eq!(nodes.len(), graph.nodes().len());
    assert_eq!(nodes, plain.nodes);
    let mut edges: Vec<PlainEdge> = graph
        .edges()
        .iter()
        .map(|e: &Edge| PlainEdge {
            source: e.source_node_id.clone(),
            target: e.target_node_id.clone(),
            edge_type: e.edge_type.clone(),
            created_at_ms: e.created_at_ms,
        })
        .collect();
    edges.sort();
    let mut expected = plain.edges.clone();
    expected.sort();
    assert_eq!(edges, expected);
    let ids: BTreeSet<&str> = graph.edges().iter().map(|e| e.id.as_str()).collect();
    assert_eq!(ids.len(), graph.edges().len());

    let (entities, relations) = graph.get_full_graph_data();
    assert_eq!(entities.len(), plain.nodes.len());
    assert_eq!(relations.len(), plain.edges.len());
    for entity in &entities {
        let node = &plain.nodes[&entity.name];
        assert_eq!(entity.entity_type, node.node_type);
        assert_eq!(entity.observations, PlainGraph::observations(node));
        let mut rest = node.data.clone();
        if let Some(map) = rest.as_object_mut() {
            map.remove("observations");
        }
        let expected = if rest.is_null() || rest.as_object().map_or(false, |m| m.is_empty()) {
            None
        } else {
            Some(rest)
        };
        assert_eq!(entity.data.as_ref().map(json_of), expected);
    }
    for query in ["", "B", "tea", "PERSON", "x", "kept", "zz"] {
        let (found, links) = graph.search_nodes(query);
        let names: BTreeSet<String> = found.iter().map(|e| e.name.clone()).collect();
        assert_eq!(names.len(), found.len());
        assert_eq!(names, plain.search(query), "query {:?}", query);
        let mut triples: Vec<_> = links
            .iter()
            .map(|r| (r.from.clone(), r.to.clone(), r.relation_type.clone()))
            .collect();
        triples.sort();
        assert_eq!(triples, plain.edges_among(&names));
    }
    let asked = vec!["cy".to_string(), "ada".to_string(), "nobody".to_string()];
    let (opened, links) = graph.open_nodes(&asked);
    let names: BTreeSet<String> = opened.iter().map(|e| e.name.clone()).collect();
    let expected: BTreeSet<String> =
        asked.iter().filter(|n| plain.nodes.contains_key(*n)).cloned().collect();
    assert_eq!(names, expected);
    assert_eq!(links.len(), plain.edges_among(&names).len());
    for id in NAMES {
        for edge_type in [None, Some("KNOWS")] {
            for direction in [None, Some("outgoing"), Some("incoming"), Some("both"), Some("?")] {
                let found: Vec<String> =
                    graph.neighbors(id, edge_type, direction).into_iter().map(|n| n.id).collect();
                assert_eq!(found, plain.neighbors(id, edge_type, direction));
            }
        }
    }
}

fn run(seed: u64, steps: usize) {
    let mut dice = Dice(seed);
    let mut graph = KnowledgeGraphState::new();
    let mut plain = PlainGraph::default();
    for step in 0..steps {
        let now = 1000 + step as u64;
        match dice.roll(6) {
            0 => {
                let batch: Vec<EntityToCreate> = (0..dice.roll(4))
                    .map(|_| EntityToCreate {
                        name: dice.pick(&NAMES).to_string(),
                        entity_type: dice.pick(&KINDS).to_string(),
                        observations: dice.some(&FACTS),
                        data: some_data(&mut dice),
                    })
                    .collect();
                let expected = plain.create_entities(&batch, now);
                let created = graph.create_entities_batch(batch, now).unwrap();
                assert_eq!(created.iter().map(|n| n.id.clone()).collect::<Vec<_>>(), expected);
            }
            1 => {
                let batch: Vec<RelationToCreate> = (0..dice.roll(4))
                    .map(|_| RelationToCreate {
                        from: dice.pick(&NAMES).to_string(),
                        to: dice.pick(&NAMES).to_string(),
                        relation_type: dice.pick(&LINKS).to_string(),
                        data: None,
                    })
                    .collect();
                let expected = plain.create_relations(&batch, now);
                let created = graph.create_relations_batch(batch, now);
                assert_eq!(created.map(|edges| edges.len()), expected);
            }
            2 => {
                let batch: Vec<AddObservationItem> = (0..dice.roll(4))
                    .map(|_| AddObservationItem {
                        entity_name: dice.pick(&NAMES).to_string(),
                        contents: dice.some(&FACTS),
                    })
                    .collect();
                let expected = plain.add_observations(&batch, now);
                assert_eq!(graph.add_observations_batch(batch, now), expected);
            }
            3 => {
                let names = dice.some(&NAMES);
                let expected = plain.delete_entities(&names);
                assert_eq!(graph.delete_entities_batch(names).unwrap(), expected);
            }
            4 => {
                let batch: Vec<DeleteObservationItem> = (0..dice.roll(4))
                    .map(|_| DeleteObservationItem {
                        entity_name: dice.pick(&NAMES).to_string(),
                        observations: dice.some(&FACTS),
                    })
                    .collect();
                let expected = plain.delete_observations(&batch, now);
                assert_eq!(graph.delete_observations_batch(batch, now), expected);
            }
            _ => {
                let criteria: Vec<RelationToDelete> = (0..dice.roll(3))
                    .map(|_| RelationToDelete {
                        from: dice.pick(&NAMES).to_string(),
                        to: dice.pick(&NAMES).to_string(),
                        relation_type: dice.pick(&LINKS).to_string(),
                    })
                    .collect();
                let expected = plain.delete_relations(&criteria);
                assert_eq!(graph.delete_relations_batch(criteria).unwrap().len(), expected);
            }
        }
        agree(&graph, &plain);
    }
}

#[test]
fn store_agrees_with_a_model_on_maps() {
    for seed in 1..=12 {
        run(seed, 120);
    }
}

#[test]
fn store_agrees_with_a_model_on_maps_over_a_long_history() {
    run(2024, 1500);
}
