//! The sources a client can add.
use vstd::prelude::*;
use crate::text::to_owned_string;
use crate::json::JsonValue;

verus! {

broadcast use vstd::string::group_string_axioms;

/// A source type that the service offers, with the parameters it takes.
#[derive(Debug, PartialEq, Eq)]
pub struct ConnectorInfo {
    pub source_type: String,
    pub params: JsonValue,
    pub status: String,
}

/// Whether `v` is an object of text values, with exactly these keys and texts in order.
pub open spec fn text_object(v: JsonValue, pairs: Seq<(Seq<char>, Seq<char>)>) -> bool {
    v matches JsonValue::Object(es) && es@.len() == pairs.len() && forall|i: int|
        0 <= i < pairs.len() ==> (#[trigger] es@[i]).0@ == pairs[i].0 && (es@[i].1 matches JsonValue::Str(
            s,
        ) && s@ == pairs[i].1)
}

fn text_entry(key: &str, value: &str) -> (e: (String, JsonValue))
    ensures
        e.0@ == key@,
        e.1 matches JsonValue::Str(s) && s@ == value@,
{
    (to_owned_string(key), JsonValue::Str(to_owned_string(value)))
}

fn info(source_type: &str, params: Vec<(String, JsonValue)>) -> (i: ConnectorInfo)
    ensures
        i.source_type@ == source_type@,
        i.params == JsonValue::Object(params),
        i.status@ == "available"@,
{
    ConnectorInfo {
        source_type: to_owned_string(source_type),
        params: JsonValue::Object(params),
        status: to_owned_string("available"),
    }
}

/// The source types on offer, each available, with its parameters and their
/// example values: a local directory, Confluence, Notion, Slack and a maildir.
pub fn available_connectors() -> (r: Vec<ConnectorInfo>)
    ensures
        r@.len() == 5,
        forall|i: int| 0 <= i < 5 ==> (#[trigger] r@[i]).status@ == "available"@,
        r@[0].source_type@ == "local_markdown"@,
        text_object(r@[0].params, seq![("path"@, "./docs"@)]),
        r@[1].source_type@ == "confluence"@,
        text_object(r@[1].params, seq![("base_url"@, ""@), ("space_key"@, ""@), ("token"@, ""@)]),
        r@[2].source_type@ == "notion"@,
        text_object(r@[2].params, seq![("database_id"@, ""@), ("token"@, ""@)]),
        r@[3].source_type@ == "slack"@,
        text_object(r@[3].params, seq![("channel"@, ""@), ("token"@, ""@)]),
        r@[4].source_type@ == "maildir"@,
        text_object(r@[4].params, seq![("path"@, ""@)]),
{
    let mut r: Vec<ConnectorInfo> = Vec::new();
    let mut p0: Vec<(String, JsonValue)> = Vec::new();
    p0.push(text_entry("path", "./docs"));
    r.push(info("local_markdown", p0));
    let mut p1: Vec<(String, JsonValue)> = Vec::new();
    p1.push(text_entry("base_url", ""));
    p1.push(text_entry("space_key", ""));
    p1.push(text_entry("token", ""));
    r.push(info("confluence", p1));
    let mut p2: Vec<(String, JsonValue)> = Vec::new();
    p2.push(text_entry("database_id", ""));
    p2.push(text_entry("token", ""));
    r.push(info("notion", p2));
    let mut p3: Vec<(String, JsonValue)> = Vec::new();
    p3.push(text_entry("channel", ""));
    p3.push(text_entry("token", ""));
    r.push(info("slack", p3));
    let mut p4: Vec<(String, JsonValue)> = Vec::new();
    p4.push(text_entry("path", ""));
    r.push(info("maildir", p4));
    r
}

} // verus!
