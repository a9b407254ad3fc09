use mcp_memory::document::{Document, Field};
use mcp_memory::kg::KnowledgeGraphState;
use mcp_memory::types::{
    AddObservationItem, CreateEdgePayload, CreateNodePayload, Edge, EntityToCreate, Node,
    RelationToCreate, RelationToDelete,
};

fn entity(name: &str, entity_type: &str, observations: &[&str]) -> EntityToCreate {
    EntityToCreate {
        name: name.to_string(),
        entity_type: entity_type.to_string(),
        observations: observations.iter().map(|s| s.to_string()).collect(),
        data: None,
    }
}

fn relation(from: &str, to: &str, relation_type: &str) -> RelationToCreate {
    RelationToCreate {
        from: from.to_string(),
        to: to.to_string(),
        relation_type: relation_type.to_string(),
        data: None,
    }
}

fn node(id: &str, node_type: &str) -> Node {
    Node {
        id: id.to_string(),
        node_type: node_type.to_string(),
        data: Document::Object(vec![]),
        created_at_ms: 1,
        updated_at_ms: 1,
    }
}

fn edge(id: &str, edge_type: &str, from: &str, to: &str) -> Edge {
    Edge {
        id: id.to_string(),
        edge_type: edge_type.to_string(),
        source_node_id: from.to_string(),
        target_node_id: to.to_string(),
        data: None,
        created_at_ms: 1,
    }
}

#[test]
fn outgoing_neighbor_of_owner_is_the_wallet() {
    let mut g = KnowledgeGraphState::new();
    g.add_node(node("A", "UserProfile"));
    g.add_node(node("B", "CryptoWallet"));
    g.add_edge(edge("e1", "OWNS_ASSET", "A", "B"));
    let found = g.neighbors("A", Some("OWNS_ASSET"), Some("outgoing"));
    assert_eq!(found, vec![node("B", "CryptoWallet")]);
    assert!(g.neighbors("A", Some("OWNS_ASSET"), Some("incoming")).is_empty());
    assert_eq!(g.neighbors("B", None, Some("incoming")), vec![node("A", "UserProfile")]);
    assert!(g.neighbors("A", Some("OTHER"), None).is_empty());
}

#[test]
fn deleting_entities_passes_over_unknown_names() {
    let mut g = KnowledgeGraphState::new();
    let created = g
        .create_entities_batch(
            vec![
                entity("blogpost_123", "BlogPost", &[]),
                entity("tag_rust", "Tag", &[]),
                entity("tag_async", "Tag", &[]),
            ],
            10,
        )
        .unwrap();
    assert_eq!(created.len(), 3);
    let deleted = g
        .delete_entities_batch(vec![
            "tag_rust".to_string(),
            "tag_async".to_string(),
            "missing_one".to_string(),
        ])
        .unwrap();
    assert_eq!(deleted, vec!["tag_rust".to_string(), "tag_async".to_string()]);
    assert_eq!(g.nodes().len(), 1);
    assert_eq!(g.nodes()[0].id, "blogpost_123");
}

#[test]
fn adding_observations_to_unknown_entity_fails_that_item_only() {
    let mut g = KnowledgeGraphState::new();
    g.create_entities_batch(vec![entity("known", "Thing", &["first"])], 10).unwrap();
    let results = g.add_observations_batch(
        vec![
            AddObservationItem {
                entity_name: "ghost".to_string(),
                contents: vec!["x".to_string()],
            },
            AddObservationItem {
                entity_name: "known".to_string(),
                contents: vec!["first".to_string(), "second".to_string(), "third".to_string()],
            },
        ],
        20,
    );
    assert_eq!(
        results,
        vec![
            Err("Entity with name ghost not found".to_string()),
            Ok("Added 2 new observation(s) to entity known".to_string()),
        ]
    );
    let (entities, _) = g.get_full_graph_data();
    assert_eq!(
        entities[0].observations,
        vec!["first".to_string(), "second".to_string(), "third".to_string()]
    );
    assert_eq!(g.nodes()[0].updated_at_ms, 20);
    assert_eq!(g.nodes()[0].created_at_ms, 10);
}

#[test]
fn deleting_relations_returns_only_the_real_edge() {
    let mut g = KnowledgeGraphState::new();
    g.create_entities_batch(vec![entity("a", "T", &[]), entity("b", "T", &[])], 1).unwrap();
    let made = g.create_relations_batch(vec![relation("a", "b", "KNOWS")], 2).unwrap();
    assert_eq!(made.len(), 1);
    let removed = g
        .delete_relations_batch(vec![
            RelationToDelete {
                from: "a".to_string(),
                to: "b".to_string(),
                relation_type: "KNOWS".to_string(),
            },
            RelationToDelete {
                from: "b".to_string(),
                to: "a".to_string(),
                relation_type: "KNOWS".to_string(),
            },
        ])
        .unwrap();
    assert_eq!(removed, vec![made[0].id.clone()]);
    assert!(g.edges().is_empty());
}

#[test]
fn payload_types_are_plain_records() {
    let p = CreateNodePayload { node_type: "T".to_string(), data: Document::Null };
    let q = CreateEdgePayload {
        edge_type: "E".to_string(),
        source_node_id: "a".to_string(),
        target_node_id: "b".to_string(),
        data: Some(Document::Object(vec![Field {
            key: "k".to_string(),
            value: Document::Bool(true),
        }])),
    };
    assert_eq!(p.clone(), p);
    assert_eq!(q.clone(), q);
}
