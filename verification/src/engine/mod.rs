pub mod query;
pub mod analyzer;
pub mod query_parser;
pub mod index_manager;
pub mod highlight;
