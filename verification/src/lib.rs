//! An in-process MCP (Model Context Protocol) server core: a JSON-RPC 2.0
//! dispatcher over a registry of document-store tools, backed by an in-memory
//! vector store queried by cosine similarity.
//!
//! The JSON values that travel through the dispatcher are modelled by the
//! [`json::Json`] type; every number the logic itself produces is exact
//! (integers, or decimal strings derived from fixed-point arithmetic), so the
//! whole pipeline from request to response is verified.

pub mod classifier;
pub mod embed;
pub mod json;
pub mod laws;
pub mod num;
pub mod pretty;
pub mod rank;
pub mod registry;
pub mod rpc;
pub mod store;
pub mod text;
pub mod tools;
pub mod vector;

pub use json::Json;
