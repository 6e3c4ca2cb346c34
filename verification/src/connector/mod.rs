//! Connectors: each reads documents from one kind of source. This module
//! holds what they share: the fetch context, the errors, the description of
//! an HTTP request to a source's API, and the choice of connector for a
//! source type and its parameters.
use vstd::prelude::*;
use vstd::string::StringExecFns;
use crate::text::{to_owned_string, str_equal};
use crate::json::{JsonValue, json_get, json_str, str_of};

pub mod local_markdown;
pub mod confluence;
pub mod notion;
pub mod slack;
pub mod maildir;

verus! {

broadcast use vstd::string::group_string_axioms;

#[verifier::external_type_specification]
#[verifier::external_body]
pub struct ExIoError(std::io::Error);

/// A point in time: Unix seconds and the nanoseconds after them.
#[derive(Clone, Copy, PartialEq, Eq, Debug, Structural)]
pub struct Timestamp {
    pub secs: i64,
    pub nanos: u32,
}

/// Whether `a` comes before `b`.
pub open spec fn before(a: Timestamp, b: Timestamp) -> bool {
    a.secs < b.secs || (a.secs == b.secs && a.nanos < b.nanos)
}

impl Timestamp {
    pub fn is_before(&self, other: &Timestamp) -> (b: bool)
        ensures
            b == before(*self, *other),
    {
        self.secs < other.secs || (self.secs == other.secs && self.nanos < other.nanos)
    }
}

/// The instant of seconds and nanoseconds `o`, or `now` where there is none.
pub open spec fn instant_or(o: Option<(i64, u32)>, now: Timestamp) -> Timestamp {
    match o {
        Some((secs, nanos)) => Timestamp { secs, nanos },
        None => now,
    }
}

/// The instant of seconds and nanoseconds `o`, where there is one.
pub open spec fn instant_of(o: Option<(i64, u32)>) -> Option<Timestamp> {
    match o {
        Some((secs, nanos)) => Some(Timestamp { secs, nanos }),
        None => None,
    }
}

/// The instant of `o`, where there is one, as `instant_of` states it.
pub fn to_instant(o: Option<(i64, u32)>) -> (t: Option<Timestamp>)
    ensures
        t == instant_of(o),
{
    match o {
        Some((secs, nanos)) => Some(Timestamp { secs, nanos }),
        None => None,
    }
}

/// The instant of `o`, or `now` where there is none, as `instant_or` states it.
pub fn instant_or_now(o: Option<(i64, u32)>, now: Timestamp) -> (t: Timestamp)
    ensures
        t == instant_or(o, now),
{
    match o {
        Some((secs, nanos)) => Timestamp { secs, nanos },
        None => now,
    }
}

/// What a fetch knows of earlier fetches: when the last one happened.
#[derive(Clone, Copy)]
pub struct FetchContext {
    pub last_fetched_at: Option<Timestamp>,
}

/// Whether an incremental fetch passes over an item last modified at
/// `modified`: only when both times are known and the item is older than the
/// last fetch.
pub open spec fn unchanged_since(ctx: FetchContext, modified: Option<Timestamp>) -> bool {
    match (ctx.last_fetched_at, modified) {
        (Some(last), Some(m)) => before(m, last),
        _ => false,
    }
}

impl FetchContext {
    /// The context of a full fetch: no earlier fetch.
    pub fn full() -> (c: FetchContext)
        ensures
            c.last_fetched_at is None,
    {
        FetchContext { last_fetched_at: None }
    }

    /// Whether an item last modified at `modified` is passed over.
    pub fn skips(&self, modified: Option<Timestamp>) -> (b: bool)
        ensures
            b == unchanged_since(*self, modified),
    {
        match (self.last_fetched_at, modified) {
            (Some(last), Some(m)) => m.is_before(&last),
            _ => false,
        }
    }
}

/// Why a fetch failed.
#[derive(Debug)]
pub enum ConnectorError {
    Io(std::io::Error),
    Http(String),
    Parse(String),
    Config(String),
    Other(String),
}

/// The text of an I/O error (`std::io::Error`'s `Display`). It depends on
/// the error and the operating system, so nothing is stated of it.
#[verifier::external_body]
fn io_error_text(e: &std::io::Error) -> (s: String) {
    e.to_string()
}

impl ConnectorError {
    /// The error's message: its kind, a colon, and its text; an `Other` error
    /// is its text alone.
    pub fn message(&self) -> (s: String)
        ensures
            match self {
                ConnectorError::Io(_) => s@.len() >= 10 && s@.subrange(0, 10) == "IO error: "@,
                ConnectorError::Http(m) => s@ == "HTTP error: "@ + m@,
                ConnectorError::Parse(m) => s@ == "Parse error: "@ + m@,
                ConnectorError::Config(m) => s@ == "Config error: "@ + m@,
                ConnectorError::Other(m) => s@ == m@,
            },
    {
        match self {
            ConnectorError::Io(e) => {
                let mut s = to_owned_string("IO error: ");
                proof {
                    reveal_strlit("IO error: ");
                }
                let t = io_error_text(e);
                s.append(t.as_str());
                assert(s@.subrange(0, 10) =~= "IO error: "@);
                s
            },
            ConnectorError::Http(m) => {
                let mut s = to_owned_string("HTTP error: ");
                s.append(m.as_str());
                s
            },
            ConnectorError::Parse(m) => {
                let mut s = to_owned_string("Parse error: ");
                s.append(m.as_str());
                s
            },
            ConnectorError::Config(m) => {
                let mut s = to_owned_string("Config error: ");
                s.append(m.as_str());
                s
            },
            ConnectorError::Other(m) => m.clone(),
        }
    }
}

/// The error of a source API that answered with a failure status.
pub fn status_error(api: &str, status: &str) -> (e: ConnectorError)
    ensures
        e matches ConnectorError::Http(m) && m@ == api@ + " API returned status "@ + status@,
{
    let mut m = to_owned_string(api);
    m.append(" API returned status ");
    m.append(status);
    ConnectorError::Http(m)
}

/// The method of an HTTP request.
#[derive(Clone, Copy, PartialEq, Eq, Debug, Structural)]
pub enum HttpMethod {
    Get,
    Post,
}

/// An HTTP request to a source's API: method, URL, headers, query
/// parameters, and a JSON body when there is one.
#[derive(Debug, PartialEq, Eq)]
pub struct HttpRequest {
    pub method: HttpMethod,
    pub url: String,
    pub headers: Vec<(String, String)>,
    pub query: Vec<(String, String)>,
    pub json_body: Option<JsonValue>,
}

/// The text pairs of a list of headers or query parameters.
pub open spec fn pairs_view(v: Seq<(String, String)>) -> Seq<(Seq<char>, Seq<char>)> {
    Seq::new(v.len(), |i: int| (v[i].0@, v[i].1@))
}

/// The header that presents `token` as a bearer token.
pub fn bearer_header(token: &str) -> (h: (String, String))
    ensures
        h.0@ == "Authorization"@,
        h.1@ == "Bearer "@ + token@,
{
    let mut v = to_owned_string("Bearer ");
    v.append(token);
    (to_owned_string("Authorization"), v)
}

/// The connector of one source.
#[derive(Debug, PartialEq, Eq)]
pub enum AnyConnector {
    LocalMarkdown(local_markdown::LocalMarkdownConnector),
    Confluence(confluence::ConfluenceConnector),
    Notion(notion::NotionConnector),
    Slack(slack::SlackConnector),
    Maildir(maildir::MaildirConnector),
}

/// The parameter `key` of `params`, or `default` when it is not text.
pub open spec fn param_or(params: JsonValue, key: Seq<char>, default: Seq<char>) -> Seq<char> {
    match json_str(json_get(Some(params), key)) {
        Some(s) => s,
        None => default,
    }
}

/// The connector for `source_type` with `params`, as `create_connector`
/// makes it: missing parameters default to `./docs` for a local directory
/// and to empty text otherwise; an unknown type is a configuration error.
pub open spec fn connector_for(source_type: Seq<char>, params: JsonValue, r: Result<
    AnyConnector,
    ConnectorError,
>) -> bool {
    if source_type == "local_markdown"@ {
        r matches Ok(AnyConnector::LocalMarkdown(c)) && c.root_dir@ == param_or(
            params,
            "path"@,
            "./docs"@,
        )
    } else if source_type == "confluence"@ {
        r matches Ok(AnyConnector::Confluence(c)) && c.base_url@ == param_or(params, "base_url"@, ""@)
            && c.token@ == param_or(params, "token"@, ""@) && c.space_key@ == param_or(
            params,
            "space_key"@,
            ""@,
        )
    } else if source_type == "notion"@ {
        r matches Ok(AnyConnector::Notion(c)) && c.token@ == param_or(params, "token"@, ""@)
            && c.database_id@ == param_or(params, "database_id"@, ""@)
    } else if source_type == "slack"@ {
        r matches Ok(AnyConnector::Slack(c)) && c.token@ == param_or(params, "token"@, ""@)
            && c.channel@ == param_or(params, "channel"@, ""@)
    } else if source_type == "maildir"@ {
        r matches Ok(AnyConnector::Maildir(c)) && c.path@ == param_or(params, "path"@, ""@)
    } else {
        r matches Err(ConnectorError::Config(m)) && m@ == "Unknown source type: "@ + source_type
    }
}

fn param(params: &JsonValue, key: &str, default: &str) -> (r: String)
    ensures
        r@ == param_or(*params, key@, default@),
{
    match str_of(params.get(key)) {
        Some(s) => s,
        None => to_owned_string(default),
    }
}

/// The connector for `source_type` with `params`, as `connector_for` states.
pub fn create_connector(source_type: &str, params: &JsonValue) -> (r: Result<
    AnyConnector,
    ConnectorError,
>)
    ensures
        connector_for(source_type@, *params, r),
{
    if str_equal(source_type, "local_markdown") {
        let dir = param(params, "path", "./docs");
        Ok(AnyConnector::LocalMarkdown(local_markdown::LocalMarkdownConnector::new(dir)))
    } else if str_equal(source_type, "confluence") {
        let base_url = param(params, "base_url", "");
        let token = param(params, "token", "");
        let space_key = param(params, "space_key", "");
        Ok(
            AnyConnector::Confluence(
                confluence::ConfluenceConnector::new(base_url, token, space_key),
            ),
        )
    } else if str_equal(source_type, "notion") {
        let token = param(params, "token", "");
        let database_id = param(params, "database_id", "");
        Ok(AnyConnector::Notion(notion::NotionConnector::new(token, database_id)))
    } else if str_equal(source_type, "slack") {
        let token = param(params, "token", "");
        let channel = param(params, "channel", "");
        Ok(AnyConnector::Slack(slack::SlackConnector::new(token, channel)))
    } else if str_equal(source_type, "maildir") {
        let path = param(params, "path", "");
        Ok(AnyConnector::Maildir(maildir::MaildirConnector::new(path)))
    } else {
        let mut m = to_owned_string("Unknown source type: ");
        m.append(source_type);
        Err(ConnectorError::Config(m))
    }
}

impl AnyConnector {
    /// The kind of source the connector reads.
    pub fn source_type(&self) -> (s: &'static str)
        ensures
            match self {
                AnyConnector::LocalMarkdown(_) => s@ == "local_markdown"@,
                AnyConnector::Confluence(_) => s@ == "confluence"@,
                AnyConnector::Notion(_) => s@ == "notion"@,
                AnyConnector::Slack(_) => s@ == "slack"@,
                AnyConnector::Maildir(_) => s@ == "maildir"@,
            },
    {
        match self {
            AnyConnector::LocalMarkdown(c) => c.source_type(),
            AnyConnector::Confluence(c) => c.source_type(),
            AnyConnector::Notion(c) => c.source_type(),
            AnyConnector::Slack(c) => c.source_type(),
            AnyConnector::Maildir(c) => c.source_type(),
        }
    }
}

} // verus!
