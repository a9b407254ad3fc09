//! The tool-call surface: nine tools, each of which stands for one batch or
//! query request, and what is answered for a call.

use crate::document::Document;
use crate::route::Method;
use crate::text::{decimal, decimal_text, join2, join4};
use vstd::prelude::*;

verus! {

/// The shape of the arguments of a tool.
#[derive(Debug, PartialEq, Eq)]
pub struct ToolInputSchema {
    pub schema_type: String,
    pub properties: Document,
    pub required: Option<Vec<String>>,
}

/// A tool as it is announced: its name, what it does, and the schema of its
/// arguments as a JSON text.
#[derive(Debug, PartialEq, Eq)]
pub struct ToolDefinition {
    pub name: String,
    pub description: String,
    pub input_schema: String,
}

/// The tools that are announced.
#[derive(Debug, PartialEq, Eq)]
pub struct ListToolsResponse {
    pub tools: Vec<ToolDefinition>,
}

/// A call: the name of a tool and its arguments.
#[derive(Debug, PartialEq, Eq)]
pub struct CallToolRequestParams {
    pub name: String,
    pub arguments: Document,
}

/// A piece of the answer to a call.
#[derive(Debug, PartialEq, Eq)]
pub struct ContentBlock {
    pub block_type: String,
    pub text: String,
}

impl Clone for ContentBlock {
    fn clone(&self) -> (r: ContentBlock)
        ensures
            r.block_type@ == self.block_type@,
            r.text@ == self.text@,
    {
        ContentBlock { block_type: self.block_type.clone(), text: self.text.clone() }
    }
}

/// The answer to a call that succeeded.
#[derive(Debug, PartialEq, Eq)]
pub struct CallToolResponse {
    pub content: Vec<ContentBlock>,
}

/// Why a call failed.
#[derive(Debug, PartialEq, Eq)]
pub struct McpError {
    pub code: String,
    pub message: String,
    pub data: Option<Document>,
}

/// The answer to a call that failed. Its status is 400.
#[derive(Debug, PartialEq, Eq)]
pub struct McpErrorResponse {
    pub error: McpError,
}

/// The nine tools.
#[derive(Clone, Copy, Debug, PartialEq, Eq, Structural)]
pub enum Tool {
    CreateEntities,
    CreateRelations,
    AddObservations,
    DeleteEntities,
    DeleteObservations,
    DeleteRelations,
    ReadGraph,
    SearchNodes,
    OpenNodes,
}

/// The name of a tool.
pub open spec fn tool_name(tool: Tool) -> Seq<char> {
    match tool {
        Tool::CreateEntities => "create_entities"@,
        Tool::CreateRelations => "create_relations"@,
        Tool::AddObservations => "add_observations"@,
        Tool::DeleteEntities => "delete_entities"@,
        Tool::DeleteObservations => "delete_observations"@,
        Tool::DeleteRelations => "delete_relations"@,
        Tool::ReadGraph => "read_graph"@,
        Tool::SearchNodes => "search_nodes"@,
        Tool::OpenNodes => "open_nodes"@,
    }
}

/// The tool with a name: the first, in the order of their announcement,
/// that is called so.
pub open spec fn tool_called(name: Seq<char>) -> Option<Tool> {
    if name == tool_name(Tool::CreateEntities) {
        Some(Tool::CreateEntities)
    } else if name == tool_name(Tool::CreateRelations) {
        Some(Tool::CreateRelations)
    } else if name == tool_name(Tool::AddObservations) {
        Some(Tool::AddObservations)
    } else if name == tool_name(Tool::DeleteEntities) {
        Some(Tool::DeleteEntities)
    } else if name == tool_name(Tool::DeleteObservations) {
        Some(Tool::DeleteObservations)
    } else if name == tool_name(Tool::DeleteRelations) {
        Some(Tool::DeleteRelations)
    } else if name == tool_name(Tool::ReadGraph) {
        Some(Tool::ReadGraph)
    } else if name == tool_name(Tool::SearchNodes) {
        Some(Tool::SearchNodes)
    } else if name == tool_name(Tool::OpenNodes) {
        Some(Tool::OpenNodes)
    } else {
        None
    }
}

/// The path of the request that a tool stands for.
pub open spec fn tool_path(tool: Tool) -> Seq<char> {
    match tool {
        Tool::CreateEntities => "/graph/entities"@,
        Tool::CreateRelations => "/graph/relations"@,
        Tool::AddObservations => "/graph/observations/add"@,
        Tool::DeleteEntities => "/graph/entities/delete"@,
        Tool::DeleteObservations => "/graph/observations/delete"@,
        Tool::DeleteRelations => "/graph/relations/delete"@,
        Tool::ReadGraph => "/graph/state"@,
        Tool::SearchNodes => "/graph/search"@,
        Tool::OpenNodes => "/graph/open"@,
    }
}

/// The method of the request that a tool stands for: reading the graph is
/// a `GET`, every other tool a `POST`.
pub open spec fn tool_method(tool: Tool) -> Method {
    match tool {
        Tool::ReadGraph => Method::Get,
        _ => Method::Post,
    }
}

/// What a tool that deletes answers on success; nothing for the other tools,
/// which answer with what the request returned.
pub open spec fn fixed_answer(tool: Tool) -> Option<Seq<char>> {
    match tool {
        Tool::DeleteEntities => Some("Entities deleted successfully"@),
        Tool::DeleteObservations => Some("Observations deleted successfully"@),
        Tool::DeleteRelations => Some("Relations deleted successfully"@),
        _ => None,
    }
}

/// The answer holds one block of text, and the text is this.
pub open spec fn says(r: CallToolResponse, text: Seq<char>) -> bool {
    &&& r.content.len() == 1
    &&& r.content@[0].block_type@ == "text"@
    &&& r.content@[0].text@ == text
}

/// The failure has this code and this message, and nothing more.
pub open spec fn fails_with(r: McpErrorResponse, code: Seq<char>, message: Seq<char>) -> bool {
    &&& r.error.code@ == code
    &&& r.error.message@ == message
    &&& r.error.data is None
}

/// The message for a request that did not answer with status 200.
pub open spec fn request_failed(status: u16, body: Seq<char>) -> Seq<char> {
    "DO Error: "@ + decimal(status as nat) + " - "@ + body
}

/// The message for a call that could not be carried out.
pub open spec fn call_failed(name: Seq<char>, detail: Seq<char>) -> Seq<char> {
    "Error executing tool '"@ + name + "': "@ + detail
}

/// The name of a tool.
pub fn name_of(tool: Tool) -> (r: &'static str)
    ensures
        r@ == tool_name(tool),
{
    match tool {
        Tool::CreateEntities => "create_entities",
        Tool::CreateRelations => "create_relations",
        Tool::AddObservations => "add_observations",
        Tool::DeleteEntities => "delete_entities",
        Tool::DeleteObservations => "delete_observations",
        Tool::DeleteRelations => "delete_relations",
        Tool::ReadGraph => "read_graph",
        Tool::SearchNodes => "search_nodes",
        Tool::OpenNodes => "open_nodes",
    }
}

/// The tool with a name, if there is one.
pub fn tool_named(name: &str) -> (r: Option<Tool>)
    ensures
        r == tool_called(name@),
{
    if *name == *"create_entities" {
        Some(Tool::CreateEntities)
    } else if *name == *"create_relations" {
        Some(Tool::CreateRelations)
    } else if *name == *"add_observations" {
        Some(Tool::AddObservations)
    } else if *name == *"delete_entities" {
        Some(Tool::DeleteEntities)
    } else if *name == *"delete_observations" {
        Some(Tool::DeleteObservations)
    } else if *name == *"delete_relations" {
        Some(Tool::DeleteRelations)
    } else if *name == *"read_graph" {
        Some(Tool::ReadGraph)
    } else if *name == *"search_nodes" {
        Some(Tool::SearchNodes)
    } else if *name == *"open_nodes" {
        Some(Tool::OpenNodes)
    } else {
        None
    }
}

/// The method and the path of the request that a tool stands for.
pub fn request_of(tool: Tool) -> (r: (Method, &'static str))
    ensures
        r.0 == tool_method(tool),
        r.1@ == tool_path(tool),
{
    match tool {
        Tool::CreateEntities => (Method::Post, "/graph/entities"),
        Tool::CreateRelations => (Method::Post, "/graph/relations"),
        Tool::AddObservations => (Method::Post, "/graph/observations/add"),
        Tool::DeleteEntities => (Method::Post, "/graph/entities/delete"),
        Tool::DeleteObservations => (Method::Post, "/graph/observations/delete"),
        Tool::DeleteRelations => (Method::Post, "/graph/relations/delete"),
        Tool::ReadGraph => (Method::Get, "/graph/state"),
        Tool::SearchNodes => (Method::Post, "/graph/search"),
        Tool::OpenNodes => (Method::Post, "/graph/open"),
    }
}

/// An answer of one block of text.
pub fn format_simple_mcp_success_message(message: &str) -> (r: CallToolResponse)
    ensures
        says(r, message@),
{
    let mut content: Vec<ContentBlock> = Vec::new();
    content.push(ContentBlock { block_type: "text".to_owned(), text: message.to_owned() });
    CallToolResponse { content }
}

/// An answer that hands on what a request returned, laid out as a text.
pub fn format_do_response_as_mcp_content(text: &str) -> (r: CallToolResponse)
    ensures
        says(r, text@),
{
    format_simple_mcp_success_message(text)
}

/// A failure with a code and a message.
pub fn mcp_error_response(code: &str, message: &str) -> (r: McpErrorResponse)
    ensures
        fails_with(r, code@, message@),
{
    McpErrorResponse {
        error: McpError { code: code.to_owned(), message: message.to_owned(), data: None },
    }
}

/// The failure for a call whose text could not be read.
pub fn parse_failure(detail: &str) -> (r: McpErrorResponse)
    ensures
        fails_with(r, "ParseError"@, "Failed to parse request: "@ + detail@),
{
    let message = join2("Failed to parse request: ", detail);
    mcp_error_response("ParseError", message.as_str())
}

/// The failure for a call that could not be carried out.
pub fn execution_failure(name: &str, detail: &str) -> (r: McpErrorResponse)
    ensures
        fails_with(r, "ToolExecutionError"@, call_failed(name@, detail@)),
{
    let message = join4("Error executing tool '", name, "': ", detail);
    mcp_error_response("ToolExecutionError", message.as_str())
}

/// The failure for a call of a tool that there is not.
pub fn unknown_tool(name: &str) -> (r: McpErrorResponse)
    ensures
        fails_with(r, "ToolExecutionError"@, call_failed(name@, "Unknown tool: "@ + name@)),
{
    let detail = join2("Unknown tool: ", name);
    execution_failure(name, detail.as_str())
}

/// The answer to a call, from what the request of its tool returned: a
/// status, and a body. Any status but 200 is a failure that quotes the
/// body. On success a tool that deletes answers with a fixed sentence, any
/// other tool with the body.
pub fn answer_of(tool: Tool, status: u16, body: &str) -> (r: Result<
    CallToolResponse,
    McpErrorResponse,
>)
    ensures
        match r {
            Ok(response) => status == 200 && says(
                response,
                match fixed_answer(tool) {
                    Some(sentence) => sentence,
                    None => body@,
                },
            ),
            Err(failure) => status != 200 && fails_with(
                failure,
                "DOError"@,
                request_failed(status, body@),
            ),
        },
{
    if status != 200 {
        let digits = decimal_text(status as usize);
        let message = join4("DO Error: ", digits.as_str(), " - ", body);
        return Err(mcp_error_response("DOError", message.as_str()));
    }
    match tool {
        Tool::DeleteEntities => Ok(
            format_simple_mcp_success_message("Entities deleted successfully"),
        ),
        Tool::DeleteObservations => Ok(
            format_simple_mcp_success_message("Observations deleted successfully"),
        ),
        Tool::DeleteRelations => Ok(
            format_simple_mcp_success_message("Relations deleted successfully"),
        ),
        _ => Ok(format_do_response_as_mcp_content(body)),
    }
}

/// The schema of the arguments of `create_entities`.
pub const CREATE_ENTITIES_SCHEMA: &'static str = r#"{
  "type": "object",
  "properties": {
    "entities": {
      "type": "array",
      "items": {
        "type": "object",
        "properties": {
          "name": {
            "type": "string",
            "description": "The name of the entity"
          },
          "entityType": {
            "type": "string",
            "description": "The type of the entity"
          },
          "observations": {
            "type": "array",
            "items": {
              "type": "string"
            },
            "description": "An array of observation contents associated with the entity"
          }
        },
        "required": [
          "name",
          "entityType",
          "observations"
        ]
      }
    }
  },
  "required": [
    "entities"
  ]
}"#;

/// The schema of the arguments of `create_relations`.
pub const CREATE_RELATIONS_SCHEMA: &'static str = r#"{
  "type": "object",
  "properties": {
    "relations": {
      "type": "array",
      "items": {
        "type": "object",
        "properties": {
          "from": {
            "type": "string",
            "description": "The name of the entity where the relation starts"
          },
          "to": {
            "type": "string",
            "description": "The name of the entity where the relation ends"
          },
          "relationType": {
            "type": "string",
            "description": "The type of the relation"
          }
        },
        "required": [
          "from",
          "to",
          "relationType"
        ]
      }
    }
  },
  "required": [
    "relations"
  ]
}"#;

/// The schema of the arguments of `add_observations`.
pub const ADD_OBSERVATIONS_SCHEMA: &'static str = r#"{
  "type": "object",
  "properties": {
    "observations": {
      "type": "array",
      "items": {
        "type": "object",
        "properties": {
          "entityName": {
            "type": "string",
            "description": "The name of the entity to add the observations to"
          },
          "contents": {
            "type": "array",
            "items": {
              "type": "string"
            },
            "description": "An array of observation contents to add"
          }
        },
        "required": [
          "entityName",
          "contents"
        ]
      }
    }
  },
  "required": [
    "observations"
  ]
}"#;

/// The schema of the arguments of `delete_entities`.
pub const DELETE_ENTITIES_SCHEMA: &'static str = r#"{
  "type": "object",
  "properties": {
    "entityNames": {
      "type": "array",
      "items": {
        "type": "string"
      },
      "description": "An array of entity names to delete"
    }
  },
  "required": [
    "entityNames"
  ]
}"#;

/// The schema of the arguments of `delete_observations`.
pub const DELETE_OBSERVATIONS_SCHEMA: &'static str = r#"{
  "type": "object",
  "properties": {
    "deletions": {
      "type": "array",
      "items": {
        "type": "object",
        "properties": {
          "entityName": {
            "type": "string",
            "description": "The name of the entity containing the observations"
          },
          "observations": {
            "type": "array",
            "items": {
              "type": "string"
            },
            "description": "An array of observations to delete"
          }
        },
        "required": [
          "entityName",
          "observations"
        ]
      }
    }
  },
  "required": [
    "deletions"
  ]
}"#;

/// The schema of the arguments of `delete_relations`.
pub const DELETE_RELATIONS_SCHEMA: &'static str = r#"{
  "type": "object",
  "properties": {
    "relations": {
      "type": "array",
      "items": {
        "type": "object",
        "properties": {
          "from": {
            "type": "string",
            "description": "The name of the entity where the relation starts"
          },
          "to": {
            "type": "string",
            "description": "The name of the entity where the relation ends"
          },
          "relationType": {
            "type": "string",
            "description": "The type of the relation"
          }
        },
        "required": [
          "from",
          "to",
          "relationType"
        ]
      },
      "description": "An array of relations to delete"
    }
  },
  "required": [
    "relations"
  ]
}"#;

/// The schema of the arguments of `read_graph`.
pub const READ_GRAPH_SCHEMA: &'static str = r#"{
  "type": "object",
  "properties": {}
}"#;

/// The schema of the arguments of `search_nodes`.
pub const SEARCH_NODES_SCHEMA: &'static str = r#"{
  "type": "object",
  "properties": {
    "query": {
      "type": "string",
      "description": "The search query to match against entity names, types, and observation content"
    }
  },
  "required": [
    "query"
  ]
}"#;

/// The schema of the arguments of `open_nodes`.
pub const OPEN_NODES_SCHEMA: &'static str = r#"{
  "type": "object",
  "properties": {
    "names": {
      "type": "array",
      "items": {
        "type": "string"
      },
      "description": "An array of entity names to retrieve"
    }
  },
  "required": [
    "names"
  ]
}"#;

/// What a tool does, in a sentence.
pub open spec fn tool_description(tool: Tool) -> Seq<char> {
    match tool {
        Tool::CreateEntities => "Create multiple new entities in the knowledge graph"@,
        Tool::CreateRelations => "Create multiple new relations between entities in the knowledge graph. Relations should be in active voice"@,
        Tool::AddObservations => "Add new observations to existing entities in the knowledge graph"@,
        Tool::DeleteEntities => "Delete multiple entities and their associated relations from the knowledge graph"@,
        Tool::DeleteObservations => "Delete specific observations from entities in the knowledge graph"@,
        Tool::DeleteRelations => "Delete multiple relations from the knowledge graph"@,
        Tool::ReadGraph => "Read the entire knowledge graph"@,
        Tool::SearchNodes => "Search for nodes in the knowledge graph based on a query"@,
        Tool::OpenNodes => "Open specific nodes in the knowledge graph by their names"@,
    }
}

/// The schema of the arguments of a tool, as a JSON text.
pub open spec fn tool_schema(tool: Tool) -> Seq<char> {
    match tool {
        Tool::CreateEntities => CREATE_ENTITIES_SCHEMA@,
        Tool::CreateRelations => CREATE_RELATIONS_SCHEMA@,
        Tool::AddObservations => ADD_OBSERVATIONS_SCHEMA@,
        Tool::DeleteEntities => DELETE_ENTITIES_SCHEMA@,
        Tool::DeleteObservations => DELETE_OBSERVATIONS_SCHEMA@,
        Tool::DeleteRelations => DELETE_RELATIONS_SCHEMA@,
        Tool::ReadGraph => READ_GRAPH_SCHEMA@,
        Tool::SearchNodes => SEARCH_NODES_SCHEMA@,
        Tool::OpenNodes => OPEN_NODES_SCHEMA@,
    }
}

/// The tools in the order of their announcement.
pub open spec fn announced() -> Seq<Tool> {
    seq![
        Tool::CreateEntities,
        Tool::CreateRelations,
        Tool::AddObservations,
        Tool::DeleteEntities,
        Tool::DeleteObservations,
        Tool::DeleteRelations,
        Tool::ReadGraph,
        Tool::SearchNodes,
        Tool::OpenNodes,
    ]
}

/// The definition announces this tool.
pub open spec fn defines(d: ToolDefinition, tool: Tool) -> bool {
    &&& d.name@ == tool_name(tool)
    &&& d.description@ == tool_description(tool)
    &&& d.input_schema@ == tool_schema(tool)
}

/// The announcement of a tool.
pub fn definition_of(tool: Tool) -> (r: ToolDefinition)
    ensures
        defines(r, tool),
{
    let (description, schema) = match tool {
        Tool::CreateEntities => ("Create multiple new entities in the knowledge graph", CREATE_ENTITIES_SCHEMA),
        Tool::CreateRelations => ("Create multiple new relations between entities in the knowledge graph. Relations should be in active voice", CREATE_RELATIONS_SCHEMA),
        Tool::AddObservations => ("Add new observations to existing entities in the knowledge graph", ADD_OBSERVATIONS_SCHEMA),
        Tool::DeleteEntities => ("Delete multiple entities and their associated relations from the knowledge graph", DELETE_ENTITIES_SCHEMA),
        Tool::DeleteObservations => ("Delete specific observations from entities in the knowledge graph", DELETE_OBSERVATIONS_SCHEMA),
        Tool::DeleteRelations => ("Delete multiple relations from the knowledge graph", DELETE_RELATIONS_SCHEMA),
        Tool::ReadGraph => ("Read the entire knowledge graph", READ_GRAPH_SCHEMA),
        Tool::SearchNodes => ("Search for nodes in the knowledge graph based on a query", SEARCH_NODES_SCHEMA),
        Tool::OpenNodes => ("Open specific nodes in the knowledge graph by their names", OPEN_NODES_SCHEMA),
    };
    ToolDefinition {
        name: name_of(tool).to_owned(),
        description: description.to_owned(),
        input_schema: schema.to_owned(),
    }
}

/// The announcement of the nine tools.
pub fn list_tools() -> (r: ListToolsResponse)
    ensures
        r.tools.len() == announced().len(),
        forall|i: int| 0 <= i < r.tools.len() ==> defines(#[trigger] r.tools@[i], announced()[i]),
{
    let mut tools: Vec<ToolDefinition> = Vec::new();
    tools.push(definition_of(Tool::CreateEntities));
    tools.push(definition_of(Tool::CreateRelations));
    tools.push(definition_of(Tool::AddObservations));
    tools.push(definition_of(Tool::DeleteEntities));
    tools.push(definition_of(Tool::DeleteObservations));
    tools.push(definition_of(Tool::DeleteRelations));
    tools.push(definition_of(Tool::ReadGraph));
    tools.push(definition_of(Tool::SearchNodes));
    tools.push(definition_of(Tool::OpenNodes));
    ListToolsResponse { tools }
}

} // verus!
