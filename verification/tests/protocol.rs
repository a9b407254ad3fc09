use mcp_memory::document::Document;
use mcp_memory::kg::KnowledgeGraphState;
use mcp_memory::mcp::{
    answer_of, definition_of, execution_failure, format_do_response_as_mcp_content,
    format_simple_mcp_success_message, list_tools,
    mcp_error_response, name_of, parse_failure, request_of, tool_named, unknown_tool, CallToolResponse,
    ContentBlock, McpError, McpErrorResponse, Tool,
};
use mcp_memory::route::{forward_url, route, split_path, Endpoint, Method, Route};
use mcp_memory::service::{
    bad_request, construct_edge_from_payload, construct_node_from_payload, refuse, Body, Reply,
    Request,
};
use mcp_memory::types::{
    AddObservationItem, AddObservationsPayload, CreateEdgePayload, CreateEntitiesPayload,
    CreateNodePayload, CreateRelationsPayload, DeleteEntitiesPayload, DeleteObservationItem,
    DeleteObservationsPayload, DeleteRelationsPayload, Edge, EntityToCreate,
    KnowledgeGraphDataResponse, Node, OpenNodesQuery, RelationToCreate, RelationToDelete,
    SearchNodesQuery, UpdateEdgePayload, UpdateNodePayload,
};

const ALL_TOOLS: [Tool; 9] = [
    Tool::CreateEntities,
    Tool::CreateRelations,
    Tool::AddObservations,
    Tool::DeleteEntities,
    Tool::DeleteObservations,
    Tool::DeleteRelations,
    Tool::ReadGraph,
    Tool::SearchNodes,
    Tool::OpenNodes,
];

fn routed(endpoint: Endpoint, id: &str) -> Route {
    Route { endpoint, id: id.to_string() }
}

fn seeded() -> KnowledgeGraphState {
    let mut g = KnowledgeGraphState::new();
    let reply = g.handle(
        Request::CreateEntities(CreateEntitiesPayload {
            entities: vec![
                EntityToCreate {
                    name: "a".to_string(),
                    entity_type: "T".to_string(),
                    observations: vec!["one".to_string()],
                    data: None,
                },
                EntityToCreate {
                    name: "b".to_string(),
                    entity_type: "U".to_string(),
                    observations: vec![],
                    data: None,
                },
            ],
        }),
        10,
    );
    assert_eq!(reply.status, 200);
    assert!(reply.persist);
    g
}

#[test]
fn paths_are_parted_at_every_slash() {
    assert_eq!(split_path(""), vec![""]);
    assert_eq!(split_path("/"), vec!["", ""]);
    assert_eq!(split_path("/nodes"), vec!["", "nodes"]);
    assert_eq!(split_path("/nodes/änd/related"), vec!["", "nodes", "änd", "related"]);
    assert_eq!(split_path("a//b/"), vec!["a", "", "b", ""]);
    for path in ["", "/", "//", "/graph/observations/add", "x/y", "/é/"] {
        assert_eq!(split_path(path), path.split('/').collect::<Vec<_>>());
    }
}

#[test]
fn routes_of_the_resource_surface() {
    assert_eq!(route(Method::Post, "/nodes"), routed(Endpoint::CreateNode, ""));
    assert_eq!(route(Method::Get, "/nodes"), routed(Endpoint::ListNodes, ""));
    assert_eq!(route(Method::Get, "/nodes/n1"), routed(Endpoint::GetNode, "n1"));
    assert_eq!(route(Method::Put, "/nodes/n1"), routed(Endpoint::UpdateNode, "n1"));
    assert_eq!(route(Method::Delete, "/nodes/n1"), routed(Endpoint::DeleteNode, "n1"));
    assert_eq!(route(Method::Get, "/nodes/n1/related"), routed(Endpoint::RelatedNodes, "n1"));
    assert_eq!(route(Method::Post, "/edges"), routed(Endpoint::CreateEdge, ""));
    assert_eq!(route(Method::Get, "/edges/e1"), routed(Endpoint::GetEdge, "e1"));
    assert_eq!(route(Method::Put, "/edges/e1"), routed(Endpoint::UpdateEdge, "e1"));
    assert_eq!(route(Method::Delete, "/edges/e1"), routed(Endpoint::DeleteEdge, "e1"));
    assert_eq!(route(Method::Get, "/nodes/"), routed(Endpoint::GetNode, ""));
    assert_eq!(route(Method::Get, "/state"), routed(Endpoint::ReadGraph, ""));
}

#[test]
fn routes_of_the_batch_surface() {
    assert_eq!(route(Method::Post, "/graph/entities"), routed(Endpoint::CreateEntities, ""));
    assert_eq!(route(Method::Post, "/graph/entities/delete"), routed(Endpoint::DeleteEntities, ""));
    assert_eq!(route(Method::Post, "/graph/relations"), routed(Endpoint::CreateRelations, ""));
    assert_eq!(route(Method::Post, "/graph/relations/delete"), routed(Endpoint::DeleteRelations, ""));
    assert_eq!(route(Method::Post, "/graph/observations/add"), routed(Endpoint::AddObservations, ""));
    assert_eq!(
        route(Method::Post, "/graph/observations/delete"),
        routed(Endpoint::DeleteObservations, "")
    );
    assert_eq!(route(Method::Post, "/graph/search"), routed(Endpoint::Search, ""));
    assert_eq!(route(Method::Post, "/graph/open"), routed(Endpoint::Open, ""));
    assert_eq!(route(Method::Get, "/graph/state"), routed(Endpoint::ReadGraph, ""));
}

#[test]
fn unknown_routes_are_not_found() {
    for (method, path) in [
        (Method::Get, ""),
        (Method::Get, "/"),
        (Method::Get, "nodes"),
        (Method::Delete, "/nodes"),
        (Method::Post, "/nodes/n1"),
        (Method::Other, "/nodes/n1"),
        (Method::Post, "/nodes/n1/related"),
        (Method::Get, "/nodes/n1/other"),
        (Method::Get, "/graph/entities"),
        (Method::Get, "/graph/search"),
        (Method::Post, "/graph/state"),
        (Method::Post, "/graph/observations"),
        (Method::Post, "/graph/observations/add/more"),
        (Method::Post, "/graph/entities/remove"),
        (Method::Put, "/edges"),
        (Method::Get, "/Nodes"),
    ] {
        assert_eq!(route(method, path), routed(Endpoint::NotFound, ""), "{:?} {}", method, path);
    }
}

#[test]
fn each_tool_stands_for_a_route() {
    let expected = [
        Endpoint::CreateEntities,
        Endpoint::CreateRelations,
        Endpoint::AddObservations,
        Endpoint::DeleteEntities,
        Endpoint::DeleteObservations,
        Endpoint::DeleteRelations,
        Endpoint::ReadGraph,
        Endpoint::Search,
        Endpoint::Open,
    ];
    for (tool, endpoint) in ALL_TOOLS.iter().zip(expected) {
        let (method, path) = request_of(*tool);
        assert_eq!(route(method, path).endpoint, endpoint);
        assert_eq!(method == Method::Get, *tool == Tool::ReadGraph);
    }
}

#[test]
fn tools_are_found_by_their_names() {
    let names = [
        "create_entities",
        "create_relations",
        "add_observations",
        "delete_entities",
        "delete_observations",
        "delete_relations",
        "read_graph",
        "search_nodes",
        "open_nodes",
    ];
    for (tool, name) in ALL_TOOLS.iter().zip(names) {
        assert_eq!(name_of(*tool), name);
        assert_eq!(tool_named(name), Some(*tool));
    }
    assert_eq!(tool_named("Create_entities"), None);
    assert_eq!(tool_named(""), None);
    assert_eq!(tool_named("read_graph "), None);
}

#[test]
fn nine_tools_are_announced_in_order() {
    let listed = list_tools();
    assert_eq!(listed.tools.len(), 9);
    for (definition, tool) in listed.tools.iter().zip(ALL_TOOLS) {
        assert_eq!(definition, &definition_of(tool));
        assert_eq!(definition.name, name_of(tool));
    }
    assert_eq!(listed.tools[6].description, "Read the entire knowledge graph");
    assert_eq!(
        listed.tools[1].description,
        "Create multiple new relations between entities in the knowledge graph. Relations should be in active voice"
    );
}

#[test]
fn schemas_of_the_tools_are_json_objects() {
    let required = [
        vec!["entities"],
        vec!["relations"],
        vec!["observations"],
        vec!["entityNames"],
        vec!["deletions"],
        vec!["relations"],
        vec![],
        vec!["query"],
        vec!["names"],
    ];
    for (definition, names) in list_tools().tools.iter().zip(required) {
        let schema: serde_json::Value = serde_json::from_str(&definition.input_schema).unwrap();
        assert_eq!(schema.get("type").and_then(|t| t.as_str()), Some("object"));
        let properties = schema.get("properties").and_then(|p| p.as_object()).unwrap();
        assert_eq!(properties.keys().map(|k| k.as_str()).collect::<Vec<_>>(), names);
        let listed: Vec<&str> = match schema.get("required") {
            Some(list) => list.as_array().unwrap().iter().map(|n| n.as_str().unwrap()).collect(),
            None => vec![],
        };
        assert_eq!(listed, names);
    }
    let entities: serde_json::Value =
        serde_json::from_str(&definition_of(Tool::CreateEntities).input_schema).unwrap();
    let item = entities.pointer("/properties/entities/items").unwrap();
    assert_eq!(
        item.pointer("/required").unwrap().as_array().unwrap().len(),
        3
    );
    assert_eq!(
        item.pointer("/properties/entityType/description").and_then(|d| d.as_str()),
        Some("The type of the entity")
    );
}

#[test]
fn answers_of_tool_calls() {
    let one_block = |text: &str| CallToolResponse {
        content: vec![ContentBlock { block_type: "text".to_string(), text: text.to_string() }],
    };
    assert_eq!(format_simple_mcp_success_message("done"), one_block("done"));
    assert_eq!(format_do_response_as_mcp_content("[\n  1\n]"), one_block("[\n  1\n]"));
    assert_eq!(answer_of(Tool::ReadGraph, 200, "{ }"), Ok(one_block("{ }")));
    assert_eq!(answer_of(Tool::CreateEntities, 200, "[]"), Ok(one_block("[]")));
    assert_eq!(
        answer_of(Tool::DeleteEntities, 200, "[\"a\"]"),
        Ok(one_block("Entities deleted successfully"))
    );
    assert_eq!(
        answer_of(Tool::DeleteObservations, 200, ""),
        Ok(one_block("Observations deleted successfully"))
    );
    assert_eq!(
        answer_of(Tool::DeleteRelations, 200, ""),
        Ok(one_block("Relations deleted successfully"))
    );
    let failure = |code: &str, message: &str| McpErrorResponse {
        error: McpError { code: code.to_string(), message: message.to_string(), data: None },
    };
    assert_eq!(
        answer_of(Tool::DeleteRelations, 500, "boom"),
        Err(failure("DOError", "DO Error: 500 - boom"))
    );
    assert_eq!(
        answer_of(Tool::SearchNodes, 404, "Not Found"),
        Err(failure("DOError", "DO Error: 404 - Not Found"))
    );
    assert_eq!(answer_of(Tool::OpenNodes, 0, ""), Err(failure("DOError", "DO Error: 0 - ")));
    assert_eq!(
        answer_of(Tool::OpenNodes, 65535, "x"),
        Err(failure("DOError", "DO Error: 65535 - x"))
    );
    assert_eq!(mcp_error_response("C", "m"), failure("C", "m"));
    assert_eq!(parse_failure("eof"), failure("ParseError", "Failed to parse request: eof"));
    assert_eq!(
        execution_failure("t", "why"),
        failure("ToolExecutionError", "Error executing tool 't': why")
    );
    assert_eq!(
        unknown_tool("fly"),
        failure("ToolExecutionError", "Error executing tool 'fly': Unknown tool: fly")
    );
}

#[test]
fn payloads_become_nodes_and_edges() {
    let node = construct_node_from_payload(
        "id-1".to_string(),
        CreateNodePayload { node_type: "T".to_string(), data: Document::Bool(true) },
        33,
    );
    assert_eq!(
        node,
        Node {
            id: "id-1".to_string(),
            node_type: "T".to_string(),
            data: Document::Bool(true),
            created_at_ms: 33,
            updated_at_ms: 33,
        }
    );
    let edge = construct_edge_from_payload(
        "id-2".to_string(),
        CreateEdgePayload {
            edge_type: "R".to_string(),
            source_node_id: "s".to_string(),
            target_node_id: "t".to_string(),
            data: None,
        },
        34,
    );
    assert_eq!(
        edge,
        Edge {
            id: "id-2".to_string(),
            edge_type: "R".to_string(),
            source_node_id: "s".to_string(),
            target_node_id: "t".to_string(),
            data: None,
            created_at_ms: 34,
        }
    );
}

#[test]
fn unreadable_bodies_are_bad_requests() {
    assert_eq!(
        bad_request("expected value at line 1"),
        Reply {
            status: 400,
            body: Body::Message("Bad request: expected value at line 1".to_string()),
            persist: false,
        }
    );
}

#[test]
fn load_or_initialize_starts_empty() {
    assert_eq!(KnowledgeGraphState::load_or_initialize_graph_state(None), KnowledgeGraphState::new());
    let g = seeded();
    assert_eq!(KnowledgeGraphState::load_or_initialize_graph_state(Some(g.clone())), g);
}

#[test]
fn single_item_requests_answer_and_persist() {
    let mut g = seeded();
    let made = g.handle(
        Request::CreateNode(CreateNodePayload { node_type: "N".to_string(), data: Document::Null }),
        20,
    );
    assert_eq!(made.status, 201);
    assert!(made.persist);
    let new_node = match made.body {
        Body::Node(n) => n,
        other => panic!("unexpected body {:?}", other),
    };
    assert_eq!(new_node.id.len(), 36);
    assert_eq!((new_node.created_at_ms, new_node.updated_at_ms), (20, 20));
    assert_eq!(g.get_node(&new_node.id), Some(&new_node));

    let got = g.handle(Request::GetNode { id: "a".to_string() }, 21);
    assert_eq!((got.status, got.persist), (200, false));
    assert_eq!(got.body, Body::Node(g.get_node("a").unwrap().clone()));
    assert_eq!(
        g.handle(Request::GetNode { id: "zz".to_string() }, 21),
        refuse(404, "Node not found".to_string())
    );

    let listed = g.handle(Request::ListNodes { node_type: Some("U".to_string()) }, 22);
    assert_eq!(listed, Reply {
        status: 200,
        body: Body::Nodes(vec![g.get_node("b").unwrap().clone()]),
        persist: false,
    });
    let all = g.handle(Request::ListNodes { node_type: None }, 22);
    assert_eq!(all.body, Body::Nodes(g.nodes().clone()));

    let updated = g.handle(
        Request::UpdateNode {
            id: "b".to_string(),
            payload: UpdateNodePayload { node_type: Some("V".to_string()), data: None },
        },
        23,
    );
    assert_eq!((updated.status, updated.persist), (200, true));
    assert_eq!(g.get_node("b").unwrap().node_type, "V");
    assert_eq!(g.get_node("b").unwrap().updated_at_ms, 23);
    assert_eq!(
        g.handle(
            Request::UpdateNode {
                id: "zz".to_string(),
                payload: UpdateNodePayload { node_type: None, data: None },
            },
            23
        ),
        refuse(404, "Node not found".to_string())
    );
    assert_eq!(g.handle(Request::Unknown, 1), refuse(404, "Not Found".to_string()));
}

#[test]
fn edge_requests_check_their_ends() {
    let mut g = seeded();
    let before = g.clone();
    let payload = |from: &str, to: &str| CreateEdgePayload {
        edge_type: "R".to_string(),
        source_node_id: from.to_string(),
        target_node_id: to.to_string(),
        data: None,
    };
    assert_eq!(
        g.handle(Request::CreateEdge(payload("x", "y")), 5),
        refuse(400, "Source node x not found".to_string())
    );
    assert_eq!(
        g.handle(Request::CreateEdge(payload("a", "y")), 5),
        refuse(400, "Target node y not found".to_string())
    );
    assert_eq!(g, before);
    assert_eq!(
        g.create_edge("e-fixed".to_string(), payload("a", "b"), 6),
        Reply {
            status: 201,
            body: Body::Edge(Edge {
                id: "e-fixed".to_string(),
                edge_type: "R".to_string(),
                source_node_id: "a".to_string(),
                target_node_id: "b".to_string(),
                data: None,
                created_at_ms: 6,
            }),
            persist: true,
        }
    );
    let second = g.handle(Request::CreateEdge(payload("a", "b")), 7);
    assert_eq!((second.status, second.persist), (201, true));
    assert_eq!(g.edges().len(), 2);
    let got = g.handle(Request::GetEdge { id: "e-fixed".to_string() }, 8);
    assert_eq!((got.status, got.persist), (200, false));
    let updated = g.handle(
        Request::UpdateEdge {
            id: "e-fixed".to_string(),
            payload: UpdateEdgePayload { data: Some(Document::Bool(true)) },
        },
        9,
    );
    assert_eq!((updated.status, updated.persist), (200, true));
    assert_eq!(g.get_edge("e-fixed").unwrap().data, Some(Document::Bool(true)));
    assert_eq!(
        g.handle(Request::DeleteEdge { id: "e-fixed".to_string() }, 9),
        Reply { status: 200, body: Body::Deleted("e-fixed".to_string()), persist: true }
    );
    for request in [
        Request::GetEdge { id: "e-fixed".to_string() },
        Request::DeleteEdge { id: "e-fixed".to_string() },
        Request::UpdateEdge { id: "e-fixed".to_string(), payload: UpdateEdgePayload { data: None } },
    ] {
        assert_eq!(g.handle(request, 9), refuse(404, "Edge not found".to_string()));
    }
    let related = g.handle(
        Request::RelatedNodes { id: "a".to_string(), edge_type: None, direction: None },
        9,
    );
    assert_eq!(related.body, Body::Nodes(vec![g.get_node("b").unwrap().clone()]));
    assert_eq!(
        g.handle(
            Request::RelatedNodes { id: "no".to_string(), edge_type: None, direction: None },
            9
        ),
        refuse(404, "Start node not found".to_string())
    );
    assert_eq!(
        g.handle(Request::DeleteNode { id: "a".to_string() }, 9),
        Reply { status: 200, body: Body::Deleted("a".to_string()), persist: true }
    );
    assert!(g.edges().is_empty());
    assert_eq!(
        g.handle(Request::DeleteNode { id: "a".to_string() }, 9),
        refuse(404, "Node not found".to_string())
    );
}

#[test]
fn batch_requests_answer_and_persist() {
    let mut g = seeded();
    let relation = |from: &str, to: &str| RelationToCreate {
        from: from.to_string(),
        to: to.to_string(),
        relation_type: "R".to_string(),
        data: None,
    };
    let before = g.clone();
    assert_eq!(
        g.handle(
            Request::CreateRelations(CreateRelationsPayload {
                relations: vec![relation("a", "b"), relation("a", "nope")],
            }),
            30
        ),
        refuse(
            500,
            "Failed to create relations: Target node with name nope not found for relation"
                .to_string()
        )
    );
    assert_eq!(g, before);
    let made = g.handle(
        Request::CreateRelations(CreateRelationsPayload { relations: vec![relation("a", "b")] }),
        30,
    );
    assert_eq!((made.status, made.persist), (200, true));
    assert_eq!(made.body, Body::Edges(g.edges().clone()));

    let added = g.handle(
        Request::AddObservations(AddObservationsPayload {
            observations: vec![AddObservationItem {
                entity_name: "b".to_string(),
                contents: vec!["two".to_string()],
            }],
        }),
        31,
    );
    assert_eq!(added, Reply {
        status: 200,
        body: Body::Outcomes(vec![Ok("Added 1 new observation(s) to entity b".to_string())]),
        persist: true,
    });
    let removed = g.handle(
        Request::DeleteObservations(DeleteObservationsPayload {
            deletions: vec![DeleteObservationItem {
                entity_name: "b".to_string(),
                observations: vec!["two".to_string()],
            }],
        }),
        32,
    );
    assert_eq!(
        removed.body,
        Body::Outcomes(vec![Ok("Observations processed for entity b".to_string())])
    );

    let read = g.handle(Request::ReadGraph, 33);
    let (entities, relations) = g.get_full_graph_data();
    assert_eq!(read, Reply {
        status: 200,
        body: Body::Graph(KnowledgeGraphDataResponse { entities, relations }),
        persist: false,
    });
    let searched = g.handle(Request::Search(SearchNodesQuery { query: "ONE".to_string() }), 33);
    let (entities, relations) = g.search_nodes("ONE");
    assert_eq!(entities.len(), 1);
    assert_eq!(searched.body, Body::Graph(KnowledgeGraphDataResponse { entities, relations }));
    assert!(!searched.persist);
    let opened = g.handle(Request::Open(OpenNodesQuery { names: vec!["b".to_string()] }), 33);
    let (entities, relations) = g.open_nodes(&["b".to_string()]);
    assert_eq!(opened.body, Body::Graph(KnowledgeGraphDataResponse { entities, relations }));

    let cut = g.handle(
        Request::DeleteRelations(DeleteRelationsPayload {
            relations: vec![RelationToDelete {
                from: "a".to_string(),
                to: "b".to_string(),
                relation_type: "R".to_string(),
            }],
        }),
        34,
    );
    assert_eq!((cut.status, cut.persist), (200, true));
    assert!(g.edges().is_empty());
    assert_eq!(
        g.handle(
            Request::DeleteEntities(DeleteEntitiesPayload {
                entity_names: vec!["b".to_string(), "q".to_string()],
            }),
            35
        ),
        Reply { status: 200, body: Body::Names(vec!["b".to_string()]), persist: true }
    );
}

#[test]
fn requests_are_passed_on_under_a_fixed_host() {
    assert_eq!(forward_url("nodes", None), "https://durable-object.internal-url/nodes");
    assert_eq!(forward_url("", None), "https://durable-object.internal-url/");
    assert_eq!(forward_url("nodes", Some("")), "https://durable-object.internal-url/nodes");
    assert_eq!(
        forward_url("nodes/a/related", Some("direction=outgoing&edge_type=X")),
        "https://durable-object.internal-url/nodes/a/related?direction=outgoing&edge_type=X"
    );
}
