//! Verified core of a graph engine for pull-request analysis: a graph schema whose
//! invariants are enforced by construction, an edge-write validator, rename
//! detection, graph queries, and the line-oriented Python scanner that feeds
//! the graph.

pub mod digest;
pub mod errors;
pub mod graph;
pub mod json;
pub mod laws;
pub mod parser;
pub mod project;
pub mod rename;
pub mod scanner;
pub mod schema;
pub mod text;
pub mod validator;
