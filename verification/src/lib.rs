//! Indexing and search over local conversational logs: a line-delimited
//! JSON parser that yields normalized message records, an incremental
//! indexer with a fingerprint sidecar, a full-text search engine with
//! grep-style context windows, and the policies the front-ends apply.
//!
//! Filesystem, terminal and protocol work lives with the caller; the
//! library takes and returns plain values, and every function here is
//! verified against its contract.

pub mod strings;
pub mod models;
pub mod metadata;
pub mod json;
pub mod parser;
pub mod indexer;
pub mod cache;
pub mod search;
pub mod config;
pub mod dates;
pub mod terminal;
pub mod mcp;
pub mod analysis;
pub mod utils;
pub mod path_utils;
