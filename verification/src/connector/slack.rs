//! Messages of a Slack channel, read through the Slack Web API.
use vstd::prelude::*;
use vstd::string::StringExecFns;
use crate::text::{to_owned_string, remove_char, remove_all, int_decimal, i64_to_decimal};
use crate::json::{JsonValue, json_get, json_str, json_bool, json_array, str_or, string_or, get_opt};
use crate::time::{timestamp_in_range, from_timestamp_seconds};
use crate::schema::document::Document;
use crate::engine::query::strings_view;
use crate::connector::{ConnectorError, FetchContext, HttpMethod, HttpRequest, bearer_header, pairs_view, Timestamp};

verus! {

broadcast use vstd::string::group_string_axioms;

/// The connector for the Slack channel `channel`.
#[derive(Debug, Clone, PartialEq, Eq)]
pub struct SlackConnector {
    pub token: String,
    pub channel: String,
}

/// The messages of an API answer.
pub open spec fn slack_messages(body: JsonValue) -> Seq<JsonValue> {
    match json_array(json_get(Some(body), "messages"@)) {
        Some(a) => a,
        None => Seq::empty(),
    }
}

/// The time of a message: the whole seconds of its `ts` (as the caller read
/// them), or `now` when they are missing or out of the range of dates.
pub open spec fn message_time(ts_seconds: Option<i64>, now: Timestamp) -> Timestamp {
    match ts_seconds {
        Some(s) => if timestamp_in_range(s) {
            Timestamp { secs: s, nanos: 0 }
        } else {
            now
        },
        None => now,
    }
}

/// Whether `d` is the document of the Slack message `msg`: its `ts` as id,
/// its thread's `ts` in the title, its text as content, a link to the message,
/// its user (or `unknown`) as author, the tag `slack`, the channel as project.
pub open spec fn message_document(
    c: SlackConnector,
    msg: JsonValue,
    ts_seconds: Option<i64>,
    now: Timestamp,
    d: Document,
) -> bool {
    let m = Some(msg);
    let ts = str_or(m, "ts"@, ""@);
    &&& d.source@ == "slack"@
    &&& d.source_id@ == ts
    &&& d.title@ == "Slack message "@ + str_or(m, "thread_ts"@, ts)
    &&& d.content@ == str_or(m, "text"@, ""@)
    &&& d.url matches Some(u) && u@ == "https://slack.com/archives/"@ + c.channel@ + "/p"@
        + remove_char(ts, '.')
    &&& d.author matches Some(a) && a@ == str_or(m, "user"@, "unknown"@)
    &&& d.created_at == message_time(ts_seconds, now)
    &&& d.updated_at == message_time(ts_seconds, now)
    &&& strings_view(d.tags@) == seq!["slack"@]
    &&& d.project matches Some(p) && p@ == c.channel@
}

impl SlackConnector {
    pub fn new(token: String, channel: String) -> (c: Self)
        ensures
            c.token@ == token@,
            c.channel@ == channel@,
    {
        Self { token, channel }
    }

    /// The kind of source this connector reads.
    pub fn source_type(&self) -> (s: &'static str)
        ensures
            s@ == "slack"@,
    {
        "slack"
    }

    /// The request for the channel's history: refused without a token;
    /// otherwise a GET of `conversations.history` for the channel, 200
    /// messages, from the last fetch's second on when there was one.
    pub fn request(&self, ctx: &FetchContext) -> (r: Result<HttpRequest, ConnectorError>)
        ensures
            self.token@.len() == 0 ==> (r matches Err(ConnectorError::Config(m)) && m@
                == "Slack connector requires token"@),
            self.token@.len() > 0 ==> (r matches Ok(req) && {
                &&& req.method == HttpMethod::Get
                &&& req.url@ == "https://slack.com/api/conversations.history"@
                &&& pairs_view(req.headers@) == seq![("Authorization"@, "Bearer "@ + self.token@)]
                &&& pairs_view(req.query@) == seq![("channel"@, self.channel@), ("limit"@, "200"@)]
                    + match ctx.last_fetched_at {
                    Some(t) => seq![("oldest"@, int_decimal(t.secs as int))],
                    None => Seq::empty(),
                }
                &&& req.json_body is None
            }),
    {
        if self.token.as_str().unicode_len() == 0 {
            return Err(ConnectorError::Config(to_owned_string("Slack connector requires token")));
        }
        let mut headers: Vec<(String, String)> = Vec::new();
        headers.push(bearer_header(self.token.as_str()));
        assert(pairs_view(headers@) =~= seq![("Authorization"@, "Bearer "@ + self.token@)]);
        let mut query: Vec<(String, String)> = Vec::new();
        query.push((to_owned_string("channel"), self.channel.clone()));
        query.push((to_owned_string("limit"), to_owned_string("200")));
        match ctx.last_fetched_at {
            Some(t) => {
                query.push((to_owned_string("oldest"), i64_to_decimal(t.secs)));
            },
            None => {},
        }
        assert(pairs_view(query@) =~= seq![("channel"@, self.channel@), ("limit"@, "200"@)]
            + match ctx.last_fetched_at {
            Some(t) => seq![("oldest"@, int_decimal(t.secs as int))],
            None => Seq::empty(),
        });
        Ok(
            HttpRequest {
                method: HttpMethod::Get,
                url: to_owned_string("https://slack.com/api/conversations.history"),
                headers,
                query,
                json_body: None,
            },
        )
    }

    /// Whether the API accepted the request: an answer whose `ok` is not true
    /// is an HTTP error with the answer's `error` text (or `unknown`).
    pub fn check_answer(&self, body: &JsonValue) -> (r: Result<(), ConnectorError>)
        ensures
            json_bool(json_get(Some(*body), "ok"@)) == Some(true) ==> r is Ok,
            json_bool(json_get(Some(*body), "ok"@)) != Some(true) ==> (r matches Err(
                ConnectorError::Http(m),
            ) && m@ == "Slack API error: "@ + str_or(Some(*body), "error"@, "unknown"@)),
    {
        let ok = match body.get("ok") {
            Some(v) => v.as_bool(),
            None => None,
        };
        match ok {
            Some(true) => Ok(()),
            _ => {
                let mut m = to_owned_string("Slack API error: ");
                let e = string_or(Some(body), "error", "unknown");
                m.append(e.as_str());
                Err(ConnectorError::Http(m))
            },
        }
    }

    /// The `ts` of each message of an answer (empty where it has none), for
    /// the caller to read as seconds.
    pub fn message_timestamps(body: &JsonValue) -> (r: Vec<String>)
        ensures
            r@.len() == slack_messages(*body).len(),
            forall|i: int|
                0 <= i < r@.len() ==> #[trigger] r@[i]@ == str_or(
                    Some(slack_messages(*body)[i]),
                    "ts"@,
                    ""@,
                ),
    {
        let mut out: Vec<String> = Vec::new();
        match get_opt(Some(body), "messages") {
            Some(v) => match v.as_array() {
                Some(msgs) => {
                    let mut k: usize = 0;
                    while k < msgs.len()
                        invariant
                            k <= msgs@.len(),
                            msgs@ == slack_messages(*body),
                            out@.len() == k,
                            forall|i: int|
                                0 <= i < k ==> #[trigger] out@[i]@ == str_or(Some(msgs@[i]), "ts"@, ""@),
                        decreases msgs@.len() - k,
                    {
                        out.push(string_or(Some(&msgs[k]), "ts", ""));
                        k += 1;
                    }
                },
                None => {},
            },
            None => {},
        }
        out
    }

    /// The document of one message, as `message_document` states it.
    pub fn message_to_document(&self, msg: &JsonValue, ts_seconds: Option<i64>, now: Timestamp) -> (d: Document)
        ensures
            message_document(*self, *msg, ts_seconds, now, d),
    {
        let ts = string_or(Some(msg), "ts", "");
        let text = string_or(Some(msg), "text", "");
        let user = string_or(Some(msg), "user", "unknown");
        let thread_ts = string_or(Some(msg), "thread_ts", ts.as_str());
        let created_at = match ts_seconds {
            Some(s) => match from_timestamp_seconds(s) {
                Some(t) => Timestamp { secs: t, nanos: 0 },
                None => now,
            },
            None => now,
        };
        let mut title = to_owned_string("Slack message ");
        title.append(thread_ts.as_str());
        let mut url = to_owned_string("https://slack.com/archives/");
        url.append(self.channel.as_str());
        url.append("/p");
        let compact = remove_all(ts.as_str(), '.');
        url.append(compact.as_str());
        let mut tags: Vec<String> = Vec::new();
        tags.push(to_owned_string("slack"));
        assert(strings_view(tags@) =~= seq!["slack"@]);
        Document {
            source: to_owned_string("slack"),
            source_id: ts,
            title,
            content: text,
            url: Some(url),
            author: Some(user),
            created_at,
            updated_at: created_at,
            tags,
            project: Some(self.channel.clone()),
        }
    }

    /// The documents of an accepted answer: one per message, the `i`th with
    /// `ts_seconds[i]` as the seconds of its `ts` (none where the list ends).
    pub fn documents(&self, body: &JsonValue, ts_seconds: &Vec<Option<i64>>, now: Timestamp) -> (r: Vec<Document>)
        ensures
            r@.len() == slack_messages(*body).len(),
            forall|i: int|
                0 <= i < r@.len() ==> message_document(
                    *self,
                    slack_messages(*body)[i],
                    if i < ts_seconds@.len() {
                        ts_seconds@[i]
                    } else {
                        None
                    },
                    now,
                    #[trigger] r@[i],
                ),
    {
        let mut docs: Vec<Document> = Vec::new();
        match get_opt(Some(body), "messages") {
            Some(v) => match v.as_array() {
                Some(msgs) => {
                    let mut k: usize = 0;
                    while k < msgs.len()
                        invariant
                            k <= msgs@.len(),
                            msgs@ == slack_messages(*body),
                            docs@.len() == k,
                            forall|i: int|
                                0 <= i < k ==> message_document(
                                    *self,
                                    msgs@[i],
                                    if i < ts_seconds@.len() {
                                        ts_seconds@[i]
                                    } else {
                                        None
                                    },
                                    now,
                                    #[trigger] docs@[i],
                                ),
                        decreases msgs@.len() - k,
                    {
                        let secs = if k < ts_seconds.len() {
                            ts_seconds[k]
                        } else {
                            None
                        };
                        docs.push(self.message_to_document(&msgs[k], secs, now));
                        k += 1;
                    }
                },
                None => {},
            },
            None => {},
        }
        docs
    }
}

} // verus!

verus! {

/// A message's document takes its author from the message's `user` string,
/// and `unknown` only when the message has no user string; likewise its id is
/// the message's `ts` string and its content the `text` string (empty when
/// absent).
pub proof fn law_slack_author_is_user(
    c: SlackConnector,
    msg: JsonValue,
    ts_seconds: Option<i64>,
    now: Timestamp,
    d: Document,
)
    requires
        message_document(c, msg, ts_seconds, now, d),
    ensures
        json_str(json_get(Some(msg), "user"@)) matches Some(u) ==> (d.author matches Some(a) && a@ == u),
        json_str(json_get(Some(msg), "user"@)) is None ==> (d.author matches Some(a) && a@ == "unknown"@),
        json_str(json_get(Some(msg), "ts"@)) matches Some(t) ==> d.source_id@ == t,
        json_str(json_get(Some(msg), "text"@)) matches Some(t) ==> d.content@ == t,
        json_str(json_get(Some(msg), "text"@)) is None ==> d.content@ == Seq::<char>::empty(),
{
    reveal_strlit("");
}

} // verus!
