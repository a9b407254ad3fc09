use mcp_memory::document::{Document, Field, Number};
use mcp_memory::ident::new_id;
use mcp_memory::kg::KnowledgeGraphState;
use mcp_memory::types::{
    AddObservationItem, ApiEntity, ApiRelation, DeleteObservationItem, Edge, EntityToCreate, Node,
    RelationToCreate, RelationToDelete,
};

fn text(s: &str) -> Document {
    Document::Text(s.to_string())
}

fn field(key: &str, value: Document) -> Field {
    Field { key: key.to_string(), value }
}

fn strings(items: &[&str]) -> Vec<String> {
    items.iter().map(|s| s.to_string()).collect()
}

fn entity_of(name: &str, entity_type: &str, observations: &[&str]) -> EntityToCreate {
    EntityToCreate {
        name: name.to_string(),
        entity_type: entity_type.to_string(),
        observations: strings(observations),
        data: None,
    }
}

fn relation_of(from: &str, to: &str, relation_type: &str) -> RelationToCreate {
    RelationToCreate {
        from: from.to_string(),
        to: to.to_string(),
        relation_type: relation_type.to_string(),
        data: None,
    }
}

fn triple(from: &str, to: &str, relation_type: &str) -> RelationToDelete {
    RelationToDelete {
        from: from.to_string(),
        to: to.to_string(),
        relation_type: relation_type.to_string(),
    }
}

fn plain_node(id: &str, node_type: &str, data: Document) -> Node {
    Node {
        id: id.to_string(),
        node_type: node_type.to_string(),
        data,
        created_at_ms: 5,
        updated_at_ms: 5,
    }
}

fn plain_edge(id: &str, edge_type: &str, from: &str, to: &str) -> Edge {
    Edge {
        id: id.to_string(),
        edge_type: edge_type.to_string(),
        source_node_id: from.to_string(),
        target_node_id: to.to_string(),
        data: None,
        created_at_ms: 5,
    }
}

fn triangle() -> KnowledgeGraphState {
    let mut g = KnowledgeGraphState::new();
    g.create_entities_batch(
        vec![
            entity_of("alice", "Person", &["likes Rust"]),
            entity_of("bob", "Person", &["likes Go"]),
            entity_of("carol", "Robot", &[]),
        ],
        100,
    )
    .unwrap();
    g.add_edge(plain_edge("e1", "KNOWS", "alice", "bob"));
    g.add_edge(plain_edge("e2", "KNOWS", "bob", "carol"));
    g.add_edge(plain_edge("e3", "BUILT", "alice", "carol"));
    g
}

#[test]
fn new_graph_is_empty() {
    let g = KnowledgeGraphState::new();
    assert!(g.nodes().is_empty());
    assert!(g.edges().is_empty());
    assert!(g.metadata().is_empty());
    assert_eq!(KnowledgeGraphState::default(), g);
    assert_eq!(g.get_full_graph_data(), (vec![], vec![]));
}

#[test]
fn add_node_returns_id_and_replaces_in_place() {
    let mut g = KnowledgeGraphState::new();
    assert_eq!(g.add_node(plain_node("a", "T", Document::Null)), "a");
    assert_eq!(g.add_node(plain_node("b", "T", Document::Null)), "b");
    assert_eq!(g.add_node(plain_node("a", "U", Document::Bool(true))), "a");
    assert_eq!(g.nodes().len(), 2);
    assert_eq!(g.nodes()[0], plain_node("a", "U", Document::Bool(true)));
    assert_eq!(g.get_node("a"), Some(&plain_node("a", "U", Document::Bool(true))));
    assert_eq!(g.get_node("zz"), None);
    assert!(g.contains_node("b"));
    assert!(!g.contains_node("B"));
}

#[test]
fn edges_are_put_found_and_removed_by_id() {
    let mut g = KnowledgeGraphState::new();
    assert_eq!(g.add_edge(plain_edge("e1", "R", "x", "y")), "e1");
    assert_eq!(g.add_edge(plain_edge("e2", "R", "y", "x")), "e2");
    assert_eq!(g.add_edge(plain_edge("e1", "S", "x", "y")), "e1");
    assert_eq!(g.edges().len(), 2);
    assert_eq!(g.get_edge("e1"), Some(&plain_edge("e1", "S", "x", "y")));
    assert_eq!(g.get_edge("e9"), None);
    assert_eq!(g.remove_edge("e1"), Some(plain_edge("e1", "S", "x", "y")));
    assert_eq!(g.remove_edge("e1"), None);
    assert_eq!(g.edges(), &vec![plain_edge("e2", "R", "y", "x")]);
}

#[test]
fn find_nodes_by_type_keeps_order() {
    let g = triangle();
    let people: Vec<&str> =
        g.find_nodes_by_type("Person").iter().map(|n| n.id.as_str()).collect();
    assert_eq!(people, vec!["alice", "bob"]);
    assert!(g.find_nodes_by_type("person").is_empty());
}

#[test]
fn edges_for_node_follow_the_direction() {
    let g = triangle();
    let ids = |edges: Vec<&Edge>| edges.iter().map(|e| e.id.clone()).collect::<Vec<_>>();
    assert_eq!(ids(g.get_edges_for_node("bob", Some("incoming"))), vec!["e1"]);
    assert_eq!(ids(g.get_edges_for_node("bob", Some("outgoing"))), vec!["e2"]);
    assert_eq!(ids(g.get_edges_for_node("bob", Some("both"))), vec!["e1", "e2"]);
    assert_eq!(ids(g.get_edges_for_node("bob", None)), vec!["e1", "e2"]);
    assert_eq!(ids(g.get_edges_for_node("bob", Some("sideways"))), vec!["e1", "e2"]);
    assert!(g.get_edges_for_node("nobody", None).is_empty());
}

#[test]
fn cascade_delete_leaves_no_edge_at_the_node() {
    let mut g = triangle();
    let gone = g.delete_node_and_connected_edges("bob").unwrap();
    assert_eq!(gone.id, "bob");
    assert!(g.get_node("bob").is_none());
    assert_eq!(g.edges(), &vec![plain_edge("e3", "BUILT", "alice", "carol")]);
    for e in g.edges() {
        assert_ne!(e.source_node_id, "bob");
        assert_ne!(e.target_node_id, "bob");
    }
    assert_eq!(g.delete_node_and_connected_edges("bob"), None);
    assert_eq!(g.nodes().len(), 2);
    assert_eq!(g.edges().len(), 1);
}

#[test]
fn update_node_replaces_what_is_supplied() {
    let mut g = triangle();
    let before = g.get_node("carol").unwrap().clone();
    let same = g.update_node("carol", Some("Robot".to_string()), None, 500).unwrap();
    assert_eq!(same, before);
    assert_eq!(same.updated_at_ms, 100);
    let retyped = g.update_node("carol", Some("Android".to_string()), None, 600).unwrap();
    assert_eq!(retyped.node_type, "Android");
    assert_eq!(retyped.data, before.data);
    assert_eq!(retyped.updated_at_ms, 600);
    assert_eq!(retyped.created_at_ms, 100);
    let new_data = Document::Object(vec![field("k", Document::Number(Number::Unsigned(7)))]);
    let changed = g.update_node("carol", None, Some(new_data.clone()), 700).unwrap();
    assert_eq!(changed.node_type, "Android");
    assert_eq!(changed.data, new_data);
    assert_eq!(changed.updated_at_ms, 700);
    let again = g.update_node("carol", None, Some(new_data), 800).unwrap();
    assert_eq!(again.updated_at_ms, 700);
    let untouched = g.update_node("carol", None, None, 900).unwrap();
    assert_eq!(untouched.updated_at_ms, 700);
    assert_eq!(g.get_node("carol"), Some(&untouched));
    assert_eq!(g.update_node("dave", Some("X".to_string()), None, 1), None);
}

#[test]
fn update_edge_data_sets_and_clears() {
    let mut g = triangle();
    let set = g.update_edge_data("e1", Some(text("since 2020"))).unwrap();
    assert_eq!(set.data, Some(text("since 2020")));
    assert_eq!(set.edge_type, "KNOWS");
    assert_eq!(g.get_edge("e1"), Some(&set));
    let cleared = g.update_edge_data("e1", None).unwrap();
    assert_eq!(cleared.data, None);
    assert_eq!(g.update_edge_data("nope", None), None);
    assert_eq!(g.edges().len(), 3);
}

#[test]
fn create_entities_merges_observations_into_data() {
    let mut g = KnowledgeGraphState::new();
    let created = g
        .create_entities_batch(
            vec![
                EntityToCreate {
                    name: "n1".to_string(),
                    entity_type: "T".to_string(),
                    observations: strings(&["a", "b"]),
                    data: Some(Document::Object(vec![field("color", text("red"))])),
                },
                EntityToCreate {
                    name: "n2".to_string(),
                    entity_type: "T".to_string(),
                    observations: vec![],
                    data: Some(text("not an object")),
                },
                EntityToCreate {
                    name: "n3".to_string(),
                    entity_type: "T".to_string(),
                    observations: strings(&["new"]),
                    data: Some(Document::Object(vec![
                        field("observations", text("old")),
                        field("z", Document::Null),
                    ])),
                },
            ],
            42,
        )
        .unwrap();
    assert_eq!(created.len(), 3);
    assert_eq!(
        created[0],
        Node {
            id: "n1".to_string(),
            node_type: "T".to_string(),
            data: Document::Object(vec![
                field("color", text("red")),
                field("observations", Document::List(vec![text("a"), text("b")])),
            ]),
            created_at_ms: 42,
            updated_at_ms: 42,
        }
    );
    assert_eq!(
        created[1].data,
        Document::Object(vec![field("observations", Document::List(vec![]))])
    );
    assert_eq!(
        created[2].data,
        Document::Object(vec![
            field("observations", Document::List(vec![text("new")])),
            field("z", Document::Null),
        ])
    );
    assert_eq!(g.nodes(), &created);
}

#[test]
fn create_entities_twice_creates_once() {
    let mut g = KnowledgeGraphState::new();
    let batch = || vec![entity_of("x", "T", &["o1"]), entity_of("y", "T", &[]), entity_of("x", "U", &[])];
    let first = g.create_entities_batch(batch(), 10).unwrap();
    assert_eq!(first.iter().map(|n| n.id.as_str()).collect::<Vec<_>>(), vec!["x", "y"]);
    let after_first = g.clone();
    let second = g.create_entities_batch(batch(), 99).unwrap();
    assert!(second.is_empty());
    assert_eq!(g, after_first);
    assert_eq!(g.get_node("x").unwrap().created_at_ms, 10);
    assert_eq!(g.get_node("x").unwrap().updated_at_ms, 10);
    assert_eq!(g.get_node("x").unwrap().node_type, "T");
}

#[test]
fn create_relations_fails_whole_batch_on_unknown_node() {
    let mut g = triangle();
    let before = g.clone();
    let err = g
        .create_relations_batch(
            vec![relation_of("alice", "carol", "NEW"), relation_of("ghost", "bob", "X")],
            7,
        )
        .unwrap_err();
    assert_eq!(err, "Source node with name ghost not found for relation");
    assert_eq!(g, before);
    let err = g
        .create_relations_batch(vec![relation_of("alice", "phantom", "X")], 7)
        .unwrap_err();
    assert_eq!(err, "Target node with name phantom not found for relation");
    let err = g
        .create_relations_batch(vec![relation_of("ghost", "phantom", "X")], 7)
        .unwrap_err();
    assert_eq!(err, "Source node with name ghost not found for relation");
    assert_eq!(g, before);
    assert_eq!(
        g.check_relations(&vec![relation_of("alice", "bob", "X")]),
        None
    );
}

#[test]
fn create_relations_suppresses_duplicate_triples() {
    let mut g = triangle();
    let made = g
        .create_relations_batch(
            vec![
                relation_of("alice", "bob", "KNOWS"),
                relation_of("bob", "alice", "KNOWS"),
                relation_of("bob", "alice", "KNOWS"),
                relation_of("alice", "bob", "ADMIRES"),
            ],
            77,
        )
        .unwrap();
    assert_eq!(made.len(), 2);
    assert_eq!(made[0].source_node_id, "bob");
    assert_eq!(made[0].target_node_id, "alice");
    assert_eq!(made[0].edge_type, "KNOWS");
    assert_eq!(made[0].created_at_ms, 77);
    assert_eq!(made[0].data, None);
    assert_eq!(made[1].edge_type, "ADMIRES");
    assert_ne!(made[0].id, made[1].id);
    assert_eq!(g.edges().len(), 5);
    assert_eq!(&g.edges()[3..], &made[..]);
    assert!(g.relates("bob", "alice", "KNOWS"));
    assert!(!g.relates("carol", "alice", "KNOWS"));
}

#[test]
fn create_relation_under_a_given_id() {
    let mut g = triangle();
    let made = g
        .create_relation(
            RelationToCreate {
                from: "carol".to_string(),
                to: "alice".to_string(),
                relation_type: "SERVES".to_string(),
                data: Some(text("daily")),
            },
            "fixed-id".to_string(),
            9,
        )
        .unwrap()
        .unwrap();
    assert_eq!(
        made,
        Edge {
            id: "fixed-id".to_string(),
            edge_type: "SERVES".to_string(),
            source_node_id: "carol".to_string(),
            target_node_id: "alice".to_string(),
            data: Some(text("daily")),
            created_at_ms: 9,
        }
    );
    assert_eq!(g.get_edge("fixed-id"), Some(&made));
    assert_eq!(
        g.create_relation(relation_of("carol", "alice", "SERVES"), "other".to_string(), 9),
        Ok(None)
    );
    assert_eq!(g.get_edge("other"), None);
    assert_eq!(
        g.create_relation(relation_of("carol", "zed", "SERVES"), "other".to_string(), 9),
        Err("Target node with name zed not found for relation".to_string())
    );
    assert_eq!(
        g.create_relation(relation_of("yan", "zed", "SERVES"), "other".to_string(), 9),
        Err("Source node with name yan not found for relation".to_string())
    );
    assert_eq!(g.edges().len(), 4);
}

#[test]
fn fresh_ids_are_hyphenated_and_differ() {
    let a = new_id();
    let b = new_id();
    assert_ne!(a, b);
    for id in [a, b] {
        let chars: Vec<char> = id.chars().collect();
        assert_eq!(chars.len(), 36);
        for (i, c) in chars.iter().enumerate() {
            if i == 8 || i == 13 || i == 18 || i == 23 {
                assert_eq!(*c, '-');
            } else {
                assert!(c.is_ascii_hexdigit());
            }
        }
    }
}

#[test]
fn add_observations_twice_never_duplicates() {
    let mut g = triangle();
    let batch = || {
        vec![
            AddObservationItem { entity_name: "alice".to_string(), contents: strings(&["likes Rust", "x", "x", "y"]) },
            AddObservationItem { entity_name: "carol".to_string(), contents: vec![] },
        ]
    };
    let first = g.add_observations_batch(batch(), 200);
    assert_eq!(
        first,
        vec![
            Ok("Added 2 new observation(s) to entity alice".to_string()),
            Ok("No new observations added to entity carol (all existed or empty input)".to_string()),
        ]
    );
    let after_first = g.clone();
    assert_eq!(g.get_node("alice").unwrap().updated_at_ms, 200);
    assert_eq!(g.get_node("carol").unwrap().updated_at_ms, 100);
    let second = g.add_observations_batch(batch(), 300);
    assert_eq!(
        second,
        vec![
            Ok("No new observations added to entity alice (all existed or empty input)".to_string()),
            Ok("No new observations added to entity carol (all existed or empty input)".to_string()),
        ]
    );
    assert_eq!(g, after_first);
    let (entities, _) = g.get_full_graph_data();
    assert_eq!(entities[0].observations, strings(&["likes Rust", "x", "y"]));
}

#[test]
fn add_observations_counts_in_decimal() {
    let mut g = triangle();
    let many: Vec<String> = (0..12).map(|i| format!("fact {}", i)).collect();
    let r = g.add_observations(
        &AddObservationItem { entity_name: "bob".to_string(), contents: many },
        1,
    );
    assert_eq!(r, Ok("Added 12 new observation(s) to entity bob".to_string()));
}

#[test]
fn add_observations_makes_data_an_object_with_a_list() {
    let mut g = KnowledgeGraphState::new();
    g.add_node(plain_node("raw", "T", text("scalar")));
    g.add_node(plain_node("odd", "T", Document::Object(vec![field("observations", Document::Bool(false)), field("k", Document::Null)])));
    let results = g.add_observations_batch(
        vec![
            AddObservationItem { entity_name: "raw".to_string(), contents: strings(&["a"]) },
            AddObservationItem { entity_name: "odd".to_string(), contents: strings(&[]) },
        ],
        9,
    );
    assert_eq!(results[0], Ok("Added 1 new observation(s) to entity raw".to_string()));
    assert_eq!(
        g.get_node("raw").unwrap().data,
        Document::Object(vec![field("observations", Document::List(vec![text("a")]))])
    );
    assert_eq!(
        g.get_node("odd").unwrap().data,
        Document::Object(vec![field("observations", Document::List(vec![])), field("k", Document::Null)])
    );
    assert_eq!(g.get_node("odd").unwrap().updated_at_ms, 5);
    assert_eq!(g.get_node("raw").unwrap().updated_at_ms, 9);
}

#[test]
fn delete_observations_reports_each_item() {
    let mut g = KnowledgeGraphState::new();
    g.create_entities_batch(vec![entity_of("full", "T", &["a", "b", "a", "c"])], 1).unwrap();
    g.add_node(plain_node("scalar", "T", Document::Number(Number::Signed(-3))));
    g.add_node(plain_node("bare", "T", Document::Object(vec![field("k", Document::Null)])));
    g.add_node(plain_node(
        "mixed",
        "T",
        Document::Object(vec![field(
            "observations",
            Document::List(vec![text("a"), Document::Bool(true), text("b")]),
        )]),
    ));
    let item = |name: &str, obs: &[&str]| DeleteObservationItem {
        entity_name: name.to_string(),
        observations: strings(obs),
    };
    let results = g.delete_observations_batch(
        vec![
            item("full", &["a", "zzz"]),
            item("full", &["nothing"]),
            item("scalar", &["a"]),
            item("bare", &["a"]),
            item("missing", &["a"]),
            item("mixed", &["a", "b"]),
        ],
        50,
    );
    assert_eq!(
        results,
        vec![
            Ok("Observations processed for entity full".to_string()),
            Ok("No matching observations deleted for entity full".to_string()),
            Err("Entity scalar data is not an object, cannot delete observations.".to_string()),
            Ok("No observations found or field is not an array for entity bare, nothing deleted."
                .to_string()),
            Err("Entity with name missing not found".to_string()),
            Ok("Observations processed for entity mixed".to_string()),
        ]
    );
    let (entities, _) = g.get_full_graph_data();
    assert_eq!(entities[0].observations, strings(&["b", "c"]));
    assert_eq!(g.get_node("full").unwrap().updated_at_ms, 50);
    assert_eq!(g.get_node("bare").unwrap().updated_at_ms, 5);
    assert_eq!(g.get_node("scalar").unwrap().data, Document::Number(Number::Signed(-3)));
    assert_eq!(
        g.get_node("mixed").unwrap().data,
        Document::Object(vec![field("observations", Document::List(vec![Document::Bool(true)]))])
    );
}

#[test]
fn delete_entities_cascades_in_a_batch() {
    let mut g = triangle();
    let deleted = g
        .delete_entities_batch(strings(&["carol", "nobody", "carol", "alice"]))
        .unwrap();
    assert_eq!(deleted, strings(&["carol", "alice"]));
    assert_eq!(g.nodes().len(), 1);
    assert!(g.edges().is_empty());
}

#[test]
fn delete_relations_counts_each_edge_once() {
    let mut g = triangle();
    g.add_edge(plain_edge("e4", "KNOWS", "alice", "bob"));
    let removed = g
        .delete_relations_batch(vec![
            triple("alice", "bob", "KNOWS"),
            triple("alice", "bob", "KNOWS"),
            triple("alice", "carol", "KNOWS"),
        ])
        .unwrap();
    assert_eq!(removed, strings(&["e1", "e4"]));
    assert_eq!(
        g.edges().iter().map(|e| e.id.as_str()).collect::<Vec<_>>(),
        vec!["e2", "e3"]
    );
    assert_eq!(g.delete_relations_batch(vec![]).unwrap(), Vec::<String>::new());
}

#[test]
fn full_dump_reflects_survivors_exactly() {
    let mut g = triangle();
    g.add_node(plain_node(
        "extra",
        "Thing",
        Document::Object(vec![
            field("observations", Document::List(vec![text("seen"), Document::Null])),
            field("weight", Document::Number(Number::Real(4611686018427387904))),
        ]),
    ));
    g.delete_entities_batch(strings(&["bob"])).unwrap();
    let (entities, relations) = g.get_full_graph_data();
    assert_eq!(
        entities,
        vec![
            ApiEntity {
                name: "alice".to_string(),
                entity_type: "Person".to_string(),
                observations: strings(&["likes Rust"]),
                data: None,
            },
            ApiEntity {
                name: "carol".to_string(),
                entity_type: "Robot".to_string(),
                observations: vec![],
                data: None,
            },
            ApiEntity {
                name: "extra".to_string(),
                entity_type: "Thing".to_string(),
                observations: strings(&["seen"]),
                data: Some(Document::Object(vec![field(
                    "weight",
                    Document::Number(Number::Real(4611686018427387904))
                )])),
            },
        ]
    );
    assert_eq!(
        relations,
        vec![ApiRelation {
            from: "alice".to_string(),
            to: "carol".to_string(),
            relation_type: "BUILT".to_string(),
            data: None,
        }]
    );
}

#[test]
fn api_entity_of_odd_payloads() {
    let shown = |data: Document| KnowledgeGraphState::node_to_api_entity(&plain_node("n", "T", data));
    assert_eq!(shown(Document::Null).data, None);
    assert_eq!(shown(Document::Object(vec![])).data, None);
    assert_eq!(shown(text("s")).data, Some(text("s")));
    assert_eq!(shown(text("s")).observations, Vec::<String>::new());
    assert_eq!(
        shown(Document::Object(vec![field("observations", text("not a list"))])).observations,
        Vec::<String>::new()
    );
    assert_eq!(
        shown(Document::Object(vec![field("observations", text("not a list"))])).data,
        None
    );
    let relation = KnowledgeGraphState::edge_to_api_relation(&Edge {
        data: Some(Document::Bool(false)),
        ..plain_edge("e", "R", "a", "b")
    });
    assert_eq!(
        relation,
        ApiRelation {
            from: "a".to_string(),
            to: "b".to_string(),
            relation_type: "R".to_string(),
            data: Some(Document::Bool(false)),
        }
    );
}

#[test]
fn search_ignores_case_and_joins_matches() {
    let g = triangle();
    let (entities, relations) = g.search_nodes("PERSON");
    assert_eq!(entities.iter().map(|e| e.name.as_str()).collect::<Vec<_>>(), vec!["alice", "bob"]);
    assert_eq!(relations.len(), 1);
    assert_eq!((relations[0].from.as_str(), relations[0].to.as_str()), ("alice", "bob"));
    let (entities, relations) = g.search_nodes("likes rust");
    assert_eq!(entities.iter().map(|e| e.name.as_str()).collect::<Vec<_>>(), vec!["alice"]);
    assert!(relations.is_empty());
    let (entities, relations) = g.search_nodes("ÀLICE");
    assert!(entities.is_empty() && relations.is_empty());
    let (entities, relations) = g.search_nodes("");
    assert_eq!(entities.len(), 3);
    assert_eq!(relations.len(), 3);
    let (entities, _) = g.search_nodes("AROL");
    assert_eq!(entities.iter().map(|e| e.name.as_str()).collect::<Vec<_>>(), vec!["carol"]);
    for (entities, relations) in [g.search_nodes("o"), g.search_nodes("b")] {
        let names: Vec<&str> = entities.iter().map(|e| e.name.as_str()).collect();
        for r in &relations {
            assert!(names.contains(&r.from.as_str()) && names.contains(&r.to.as_str()));
        }
    }
}

#[test]
fn search_lowers_non_ascii_letters() {
    let mut g = KnowledgeGraphState::new();
    g.create_entities_batch(vec![entity_of("Ärger", "Émotion", &["GROSSE Überraschung"])], 1).unwrap();
    assert_eq!(g.search_nodes("ärger").0.len(), 1);
    assert_eq!(g.search_nodes("ÉMOTION").0.len(), 1);
    assert_eq!(g.search_nodes("überraschung").0.len(), 1);
    assert_eq!(g.search_nodes("arger").0.len(), 0);
}

#[test]
fn open_returns_named_nodes_in_graph_order() {
    let g = triangle();
    let (entities, relations) = g.open_nodes(&strings(&["carol", "alice", "ghost", "carol"]));
    assert_eq!(entities.iter().map(|e| e.name.as_str()).collect::<Vec<_>>(), vec!["alice", "carol"]);
    assert_eq!(relations.len(), 1);
    assert_eq!(relations[0].relation_type, "BUILT");
    assert_eq!(g.open_nodes(&[]), (vec![], vec![]));
}

#[test]
fn neighbors_are_sorted_and_come_once() {
    let mut g = triangle();
    g.add_edge(plain_edge("e5", "KNOWS", "carol", "alice"));
    g.add_edge(plain_edge("e6", "LOOP", "alice", "alice"));
    g.add_edge(plain_edge("e7", "KNOWS", "alice", "nowhere"));
    let ids = |nodes: Vec<Node>| nodes.iter().map(|n| n.id.clone()).collect::<Vec<_>>();
    assert_eq!(ids(g.neighbors("alice", None, None)), vec!["alice", "bob", "carol"]);
    assert_eq!(ids(g.neighbors("alice", None, Some("both"))), vec!["alice", "bob", "carol"]);
    assert_eq!(ids(g.neighbors("alice", None, Some("outgoing"))), vec!["alice", "bob", "carol"]);
    assert_eq!(ids(g.neighbors("alice", None, Some("incoming"))), vec!["alice", "carol"]);
    assert_eq!(ids(g.neighbors("alice", Some("KNOWS"), Some("outgoing"))), vec!["bob"]);
    assert_eq!(ids(g.neighbors("carol", Some("KNOWS"), None)), vec!["alice", "bob"]);
    assert_eq!(ids(g.neighbors("nowhere", None, None)), vec!["alice"]);
    assert!(g.neighbors("zed", None, None).is_empty());
}

#[test]
fn from_parts_keeps_the_last_of_equal_ids() {
    let g = KnowledgeGraphState::from_parts(
        vec![
            plain_node("a", "First", Document::Null),
            plain_node("b", "T", Document::Null),
            plain_node("a", "Second", Document::Null),
        ],
        vec![plain_edge("e", "R", "a", "b"), plain_edge("e", "S", "b", "a")],
        vec![field("owner", text("me"))],
    );
    assert_eq!(g.nodes().iter().map(|n| n.node_type.as_str()).collect::<Vec<_>>(), vec!["Second", "T"]);
    assert_eq!(g.edges(), &vec![plain_edge("e", "S", "b", "a")]);
    assert_eq!(g.metadata(), &vec![field("owner", text("me"))]);
    let mut h = g.clone();
    assert_eq!(h, g);
    h.set_metadata(vec![]);
    assert!(h.metadata().is_empty());
    assert_eq!(h.nodes(), g.nodes());
}
