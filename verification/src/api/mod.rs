pub mod search;
pub mod connector_api;
