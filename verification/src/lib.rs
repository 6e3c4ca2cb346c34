//! A unified search service: connectors gather documents from several
//! sources, an index stores them, and a query language searches them.
//! This crate holds the service's logic: the query language, the document
//! model, the index schema, the rules that turn fetched data into documents,
//! and the scheduling decisions.
use vstd::prelude::*;

pub mod text;
pub mod engine;
pub mod api;
pub mod time;
pub mod schema;
pub mod connector;
pub mod json;
pub mod config;
pub mod scheduler;

verus! {
}
