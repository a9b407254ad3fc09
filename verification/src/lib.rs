//! A schema-less property graph held in memory: typed nodes and typed
//! edges that carry arbitrary documents, with single-item and batch
//! operations, search, and the neighbours of a node.
//!
//! Every operation is stated over a mathematical model of the graph
//! (`model`), and the operations of the store (`kg`, `batch`, `query`) are
//! proved to do what the model says. `service` and `route` decide what one
//! request makes of the graph and answers; `mcp` is the tool-call surface
//! over the same requests. `laws` states what holds of the graph whatever
//! is done to it.

pub mod batch;
pub mod document;
pub mod ident;
pub mod kg;
pub mod laws;
pub mod lemmas;
pub mod mcp;
pub mod model;
pub mod observations;
pub mod query;
pub mod route;
pub mod service;
pub mod text;
pub mod types;
