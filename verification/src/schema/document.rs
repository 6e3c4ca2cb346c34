//! The documents that connectors produce and the index holds.
use vstd::prelude::*;
use crate::connector::Timestamp;

verus! {

/// A document from one of the sources.
#[derive(Debug, Clone, PartialEq, Eq)]
pub struct Document {
    pub source: String,
    pub source_id: String,
    pub title: String,
    pub content: String,
    pub url: Option<String>,
    pub author: Option<String>,
    pub created_at: Timestamp,
    pub updated_at: Timestamp,
    pub tags: Vec<String>,
    pub project: Option<String>,
}

/// One value of a facet and how many results carry it.
#[derive(Debug, Clone, PartialEq, Eq)]
pub struct FacetBucket {
    pub value: String,
    pub count: usize,
}

/// The facets of a result page.
#[derive(Debug, Clone, PartialEq, Eq)]
pub struct Facets {
    pub source: Vec<FacetBucket>,
    pub author: Vec<FacetBucket>,
    pub tags: Vec<FacetBucket>,
}

} // verus!
