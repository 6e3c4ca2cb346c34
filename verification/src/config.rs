//! The service's configuration and its defaults.
use vstd::prelude::*;
use crate::text::to_owned_string;
use crate::json::JsonValue;

verus! {

broadcast use vstd::string::group_string_axioms;

/// A source to fetch from: its type, its parameters, and how often to fetch.
#[derive(Debug, PartialEq, Eq)]
pub struct ConnectorConfig {
    pub source_type: String,
    pub params: JsonValue,
    pub fetch_interval_secs: u64,
}

/// The configuration of the service.
#[derive(Debug, PartialEq, Eq)]
pub struct AppConfig {
    pub port: u16,
    pub index_dir: String,
    pub fetch_interval_secs: u64,
    pub nrt_commit_interval_ms: u64,
    pub connectors: Vec<ConnectorConfig>,
}

/// The port the service listens on unless configured otherwise.
pub fn default_port() -> (p: u16)
    ensures
        p == 8340,
{
    8340
}

/// The directory of the index unless configured otherwise.
pub fn default_index_dir() -> (d: String)
    ensures
        d@ == "./index_data"@,
{
    to_owned_string("./index_data")
}

/// Seconds between fetches of a source unless configured otherwise.
pub fn default_fetch_interval_secs() -> (s: u64)
    ensures
        s == 300,
{
    300
}

/// Milliseconds between commits of pending index changes unless configured otherwise.
pub fn default_nrt_commit_interval_ms() -> (ms: u64)
    ensures
        ms == 1000,
{
    1000
}

impl Default for AppConfig {
    /// Every setting at its default, and no sources.
    fn default() -> (c: Self)
        ensures
            c.port == 8340,
            c.index_dir@ == "./index_data"@,
            c.fetch_interval_secs == 300,
            c.nrt_commit_interval_ms == 1000,
            c.connectors@.len() == 0,
    {
        Self {
            port: default_port(),
            index_dir: default_index_dir(),
            fetch_interval_secs: default_fetch_interval_secs(),
            nrt_commit_interval_ms: default_nrt_commit_interval_ms(),
            connectors: Vec::new(),
        }
    }
}

} // verus!
