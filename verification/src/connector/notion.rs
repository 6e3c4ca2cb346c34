//! Pages of a Notion database, read through the Notion API.
use vstd::prelude::*;
use vstd::string::StringExecFns;
use crate::text::{to_owned_string, remove_char, remove_all};
use crate::json::{JsonValue, json_get, json_str, json_array, str_or, string_or, str_of, get_opt, deref_opt};
use crate::time::{rfc3339_instant, parse_rfc3339};
use crate::schema::document::Document;
use crate::connector::{ConnectorError, HttpMethod, HttpRequest, bearer_header, pairs_view, Timestamp, instant_or, instant_or_now};

verus! {

broadcast use vstd::string::group_string_axioms;

/// The connector for the Notion database `database_id`.
#[derive(Debug, Clone, PartialEq, Eq)]
pub struct NotionConnector {
    pub token: String,
    pub database_id: String,
}

/// The first entry value from `i` on whose `type` is the text `ty`.
pub open spec fn first_of_type(entries: Seq<(String, JsonValue)>, ty: Seq<char>, i: int) -> Option<
    JsonValue,
>
    decreases entries.len() - i,
{
    if i < 0 || i >= entries.len() {
        None
    } else if json_str(json_get(Some(entries[i].1), "type"@)) == Some(ty) {
        Some(entries[i].1)
    } else {
        first_of_type(entries, ty, i + 1)
    }
}

/// The first property of `page` of type `ty`, in the order of its properties.
pub open spec fn property_of_type(page: JsonValue, ty: Seq<char>) -> Option<JsonValue> {
    match json_get(Some(page), "properties"@) {
        Some(JsonValue::Object(entries)) => first_of_type(entries@, ty, 0),
        _ => None,
    }
}

/// The plain text of the first part of the page's title property.
pub open spec fn notion_title(page: JsonValue) -> Seq<char> {
    match json_array(json_get(property_of_type(page, "title"@), "title"@)) {
        Some(parts) => if parts.len() > 0 {
            str_or(Some(parts[0]), "plain_text"@, ""@)
        } else {
            ""@
        },
        None => ""@,
    }
}

/// The plain texts of `parts`, joined; parts without one add nothing.
pub open spec fn plain_texts(parts: Seq<JsonValue>) -> Seq<char>
    decreases parts.len(),
{
    if parts.len() == 0 {
        Seq::empty()
    } else {
        plain_texts(parts.drop_last()) + str_or(Some(parts.last()), "plain_text"@, ""@)
    }
}

/// The joined plain text of the page's first rich-text property.
pub open spec fn notion_content(page: JsonValue) -> Seq<char> {
    match json_array(json_get(property_of_type(page, "rich_text"@), "rich_text"@)) {
        Some(parts) => plain_texts(parts),
        None => Seq::empty(),
    }
}

/// The time at `key` of the page, or `now` when it is missing or does not parse.
pub open spec fn page_time(page: JsonValue, key: Seq<char>, now: Timestamp) -> Timestamp {
    match json_str(json_get(Some(page), key)) {
        Some(s) => instant_or(rfc3339_instant(s), now),
        None => now,
    }
}

/// Whether `d` is the document of the Notion page `page`: its id, title and
/// rich text; a notion.so URL of the id without dashes; its creation and last
/// edit times (or `now`); the database as project.
pub open spec fn notion_document(c: NotionConnector, page: JsonValue, now: Timestamp, d: Document) -> bool {
    let id = str_or(Some(page), "id"@, ""@);
    &&& d.source@ == "notion"@
    &&& d.source_id@ == id
    &&& d.title@ == notion_title(page)
    &&& d.content@ == notion_content(page)
    &&& d.url matches Some(u) && u@ == "https://notion.so/"@ + remove_char(id, '-')
    &&& d.author is None
    &&& d.created_at == page_time(page, "created_time"@, now)
    &&& d.updated_at == page_time(page, "last_edited_time"@, now)
    &&& d.tags@.len() == 0
    &&& d.project matches Some(p) && p@ == c.database_id@
}

/// The pages of an API answer.
pub open spec fn notion_results(body: JsonValue) -> Seq<JsonValue> {
    match json_array(json_get(Some(body), "results"@)) {
        Some(a) => a,
        None => Seq::empty(),
    }
}

fn property_of<'a>(page: &'a JsonValue, ty: &str) -> (r: Option<&'a JsonValue>)
    ensures
        deref_opt(r) == property_of_type(*page, ty@),
{
    match page.get("properties") {
        Some(JsonValue::Object(entries)) => {
            let mut i: usize = 0;
            while i < entries.len()
                invariant
                    i <= entries@.len(),
                    first_of_type(entries@, ty@, i as int) == first_of_type(entries@, ty@, 0),
                    property_of_type(*page, ty@) == first_of_type(entries@, ty@, 0),
                decreases entries@.len() - i,
            {
                let v = &entries[i].1;
                match str_of(v.get("type")) {
                    Some(t) => {
                        if t == ty.to_owned() {
                            return Some(v);
                        }
                    },
                    None => {},
                }
                i += 1;
            }
            None
        },
        _ => None,
    }
}

fn time_at(page: &JsonValue, key: &str, now: Timestamp) -> (t: Timestamp)
    ensures
        t == page_time(*page, key@, now),
{
    match str_of(page.get(key)) {
        Some(s) => instant_or_now(parse_rfc3339(s.as_str()), now),
        None => now,
    }
}

impl NotionConnector {
    pub fn new(token: String, database_id: String) -> (c: Self)
        ensures
            c.token@ == token@,
            c.database_id@ == database_id@,
    {
        Self { token, database_id }
    }

    /// The kind of source this connector reads.
    pub fn source_type(&self) -> (s: &'static str)
        ensures
            s@ == "notion"@,
    {
        "notion"
    }

    /// The request for the database's pages: refused without a token;
    /// otherwise a POST of an empty JSON object to the database's query
    /// endpoint, with the token as bearer and API version 2022-06-28.
    pub fn request(&self) -> (r: Result<HttpRequest, ConnectorError>)
        ensures
            self.token@.len() == 0 ==> (r matches Err(ConnectorError::Config(m)) && m@
                == "Notion connector requires token"@),
            self.token@.len() > 0 ==> (r matches Ok(req) && {
                &&& req.method == HttpMethod::Post
                &&& req.url@ == "https://api.notion.com/v1/databases/"@ + self.database_id@
                    + "/query"@
                &&& pairs_view(req.headers@) == seq![
                    ("Authorization"@, "Bearer "@ + self.token@),
                    ("Notion-Version"@, "2022-06-28"@),
                ]
                &&& req.query@.len() == 0
                &&& req.json_body matches Some(JsonValue::Object(e)) && e@.len() == 0
            }),
    {
        if self.token.as_str().unicode_len() == 0 {
            return Err(ConnectorError::Config(to_owned_string("Notion connector requires token")));
        }
        let mut url = to_owned_string("https://api.notion.com/v1/databases/");
        url.append(self.database_id.as_str());
        url.append("/query");
        let mut headers: Vec<(String, String)> = Vec::new();
        headers.push(bearer_header(self.token.as_str()));
        headers.push((to_owned_string("Notion-Version"), to_owned_string("2022-06-28")));
        assert(pairs_view(headers@) =~= seq![
            ("Authorization"@, "Bearer "@ + self.token@),
            ("Notion-Version"@, "2022-06-28"@),
        ]);
        Ok(
            HttpRequest {
                method: HttpMethod::Post,
                url,
                headers,
                query: Vec::new(),
                json_body: Some(JsonValue::Object(Vec::new())),
            },
        )
    }

    /// The document of one page, as `notion_document` states it.
    pub fn page_to_document(&self, page: &JsonValue, now: Timestamp) -> (d: Document)
        ensures
            notion_document(*self, *page, now, d),
    {
        proof {
            reveal_strlit("");
        }
        let id = string_or(Some(page), "id", "");
        let title = match get_opt(property_of(page, "title"), "title") {
            Some(v) => match v.as_array() {
                Some(parts) => if parts.len() > 0 {
                    string_or(Some(&parts[0]), "plain_text", "")
                } else {
                    String::new()
                },
                None => String::new(),
            },
            None => String::new(),
        };
        let content = match get_opt(property_of(page, "rich_text"), "rich_text") {
            Some(v) => match v.as_array() {
                Some(parts) => {
                    let mut text = String::new();
                    let mut k: usize = 0;
                    assert(parts@.take(0) =~= Seq::<JsonValue>::empty());
                    while k < parts.len()
                        invariant
                            k <= parts@.len(),
                            text@ == plain_texts(parts@.take(k as int)),
                        decreases parts@.len() - k,
                    {
                        assert(parts@.take(k + 1).drop_last() =~= parts@.take(k as int));
                        let piece = string_or(Some(&parts[k]), "plain_text", "");
                        text.append(piece.as_str());
                        k += 1;
                    }
                    assert(parts@.take(k as int) =~= parts@);
                    text
                },
                None => String::new(),
            },
            None => String::new(),
        };
        let created_at = time_at(page, "created_time", now);
        let updated_at = time_at(page, "last_edited_time", now);
        let mut url = to_owned_string("https://notion.so/");
        let compact = remove_all(id.as_str(), '-');
        url.append(compact.as_str());
        assert(title@ == notion_title(*page));
        assert(content@ == notion_content(*page));
        assert(url@ == "https://notion.so/"@ + remove_char(id@, '-'));
        Document {
            source: to_owned_string("notion"),
            source_id: id,
            title,
            content,
            url: Some(url),
            author: None,
            created_at,
            updated_at,
            tags: Vec::new(),
            project: Some(self.database_id.clone()),
        }
    }

    /// The documents of an API answer: one per page of its results.
    pub fn documents(&self, body: &JsonValue, now: Timestamp) -> (r: Vec<Document>)
        ensures
            r@.len() == notion_results(*body).len(),
            forall|i: int|
                0 <= i < r@.len() ==> notion_document(
                    *self,
                    notion_results(*body)[i],
                    now,
                    #[trigger] r@[i],
                ),
    {
        let mut docs: Vec<Document> = Vec::new();
        match get_opt(Some(body), "results") {
            Some(v) => match v.as_array() {
                Some(pages) => {
                    let mut k: usize = 0;
                    while k < pages.len()
                        invariant
                            k <= pages@.len(),
                            pages@ == notion_results(*body),
                            docs@.len() == k,
                            forall|i: int|
                                0 <= i < k ==> notion_document(*self, pages@[i], now, #[trigger] docs@[i]),
                        decreases pages@.len() - k,
                    {
                        docs.push(self.page_to_document(&pages[k], now));
                        k += 1;
                    }
                },
                None => {},
            },
            None => {},
        }
        docs
    }
}

} // verus!

verus! {

/// A page's document: its id is the page's `id` string; its creation and
/// update times are the instants of the page's `created_time` and
/// `last_edited_time` strings where they parse, `now` otherwise; no author
/// and no tags; the database as project.
pub proof fn law_notion_document_fields(c: NotionConnector, page: JsonValue, now: Timestamp, d: Document)
    requires
        notion_document(c, page, now, d),
    ensures
        json_str(json_get(Some(page), "id"@)) matches Some(i) ==> d.source_id@ == i,
        json_str(json_get(Some(page), "created_time"@)) matches Some(t) ==> (rfc3339_instant(t) matches Some(
            (secs, nanos),
        ) ==> d.created_at == (Timestamp { secs, nanos })),
        json_str(json_get(Some(page), "created_time"@)) is None ==> d.created_at == now,
        json_str(json_get(Some(page), "last_edited_time"@)) matches Some(t) ==> (rfc3339_instant(
            t,
        ) matches Some((secs, nanos)) ==> d.updated_at == (Timestamp { secs, nanos })),
        json_str(json_get(Some(page), "last_edited_time"@)) is None ==> d.updated_at == now,
        d.author is None && d.tags@.len() == 0,
        d.project matches Some(p) && p@ == c.database_id@,
{
}

} // verus!
