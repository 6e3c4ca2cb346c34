//! Pages of a Confluence space, read through its REST API.
use vstd::prelude::*;
use vstd::string::StringExecFns;
use crate::text::{to_owned_string, trim_end_char, trim_end_matches_char, int_decimal, i64_to_decimal};
use crate::json::{JsonValue, json_get, json_str, json_i64, json_array, str_or, string_or, get_opt, deref_opt};
use crate::time::{rfc3339_instant, parse_rfc3339};
use crate::schema::document::Document;
use crate::engine::query::strings_view;
use crate::connector::{ConnectorError, HttpMethod, HttpRequest, bearer_header, pairs_view, Timestamp, instant_or, instant_or_now};

verus! {

broadcast use vstd::string::group_string_axioms;

/// The connector for the Confluence space `space_key` at `base_url`.
#[derive(Debug, Clone, PartialEq, Eq)]
pub struct ConfluenceConnector {
    pub base_url: String,
    pub token: String,
    pub space_key: String,
}

/// The pages of an API answer: its `results` array, or none.
pub open spec fn results_of(body: JsonValue, key: Seq<char>) -> Seq<JsonValue> {
    match json_array(json_get(Some(body), key)) {
        Some(a) => a,
        None => Seq::empty(),
    }
}

/// Whether `d` is the document of the Confluence page `page`: its id, title
/// and stored body; its last editor as author; the time of its last version
/// (or `now` when that does not parse) as creation and update time; its
/// version number (0 when absent) as the tag `v<number>`; the space as project.
pub open spec fn page_document(c: ConfluenceConnector, page: JsonValue, now: Timestamp, d: Document) -> bool {
    let p = Some(page);
    let id = str_or(p, "id"@, ""@);
    let version = json_get(p, "version"@);
    let number = match json_i64(json_get(version, "number"@)) {
        Some(n) => n,
        None => 0,
    };
    let when = str_or(version, "when"@, ""@);
    let t = instant_or(rfc3339_instant(when), now);
    &&& d.source@ == "confluence"@
    &&& d.source_id@ == id
    &&& d.title@ == str_or(p, "title"@, ""@)
    &&& d.content@ == str_or(json_get(json_get(p, "body"@), "storage"@), "value"@, ""@)
    &&& d.url matches Some(u) && u@ == trim_end_char(c.base_url@, '/') + "/pages/viewpage.action?pageId="@ + id
    &&& d.author matches Some(a) && a@ == str_or(json_get(version, "by"@), "displayName"@, ""@)
    &&& d.created_at == t
    &&& d.updated_at == t
    &&& strings_view(d.tags@) == seq!["v"@ + int_decimal(number as int)]
    &&& d.project matches Some(s) && s@ == c.space_key@
}

impl ConfluenceConnector {
    pub fn new(base_url: String, token: String, space_key: String) -> (c: Self)
        ensures
            c.base_url@ == base_url@,
            c.token@ == token@,
            c.space_key@ == space_key@,
    {
        Self { base_url, token, space_key }
    }

    /// The kind of source this connector reads.
    pub fn source_type(&self) -> (s: &'static str)
        ensures
            s@ == "confluence"@,
    {
        "confluence"
    }

    /// The request for the space's pages: refused without a base URL or a
    /// token; otherwise a GET of the content API for the space, 50 pages with
    /// their stored body and version, with the token as bearer.
    pub fn request(&self) -> (r: Result<HttpRequest, ConnectorError>)
        ensures
            (self.base_url@.len() == 0 || self.token@.len() == 0) ==> (r matches Err(
                ConnectorError::Config(m),
            ) && m@ == "Confluence connector requires base_url and token"@),
            (self.base_url@.len() > 0 && self.token@.len() > 0) ==> (r matches Ok(req) && {
                &&& req.method == HttpMethod::Get
                &&& req.url@ == trim_end_char(self.base_url@, '/') + "/rest/api/content?spaceKey="@
                    + self.space_key@ + "&limit=50&expand=body.storage,version"@
                &&& pairs_view(req.headers@) == seq![(
                    "Authorization"@,
                    "Bearer "@ + self.token@,
                )]
                &&& req.query@.len() == 0
                &&& req.json_body is None
            }),
    {
        if self.base_url.as_str().unicode_len() == 0 || self.token.as_str().unicode_len() == 0 {
            return Err(
                ConnectorError::Config(
                    to_owned_string("Confluence connector requires base_url and token"),
                ),
            );
        }
        let mut url = trim_end_matches_char(self.base_url.as_str(), '/');
        url.append("/rest/api/content?spaceKey=");
        url.append(self.space_key.as_str());
        url.append("&limit=50&expand=body.storage,version");
        let mut headers: Vec<(String, String)> = Vec::new();
        headers.push(bearer_header(self.token.as_str()));
        assert(pairs_view(headers@) =~= seq![("Authorization"@, "Bearer "@ + self.token@)]);
        Ok(HttpRequest { method: HttpMethod::Get, url, headers, query: Vec::new(), json_body: None })
    }

    /// The document of one page, as `page_document` states it.
    pub fn page_to_document(&self, page: &JsonValue, now: Timestamp) -> (d: Document)
        ensures
            page_document(*self, *page, now, d),
    {
        let p = Some(page);
        let id = string_or(p, "id", "");
        let title = string_or(p, "title", "");
        let content = string_or(get_opt(get_opt(p, "body"), "storage"), "value", "");
        let version = get_opt(p, "version");
        let number: i64 = match get_opt(version, "number") {
            Some(v) => match v.as_i64() {
                Some(n) => n,
                None => 0,
            },
            None => 0,
        };
        let by = string_or(get_opt(version, "by"), "displayName", "");
        let when = string_or(version, "when", "");
        let updated_at = instant_or_now(parse_rfc3339(when.as_str()), now);
        let mut url = trim_end_matches_char(self.base_url.as_str(), '/');
        url.append("/pages/viewpage.action?pageId=");
        url.append(id.as_str());
        let mut tag = to_owned_string("v");
        let digits = i64_to_decimal(number);
        tag.append(digits.as_str());
        let mut tags: Vec<String> = Vec::new();
        tags.push(tag);
        assert(strings_view(tags@) =~= seq!["v"@ + int_decimal(number as int)]);
        Document {
            source: to_owned_string("confluence"),
            source_id: id,
            title,
            content,
            url: Some(url),
            author: Some(by),
            created_at: updated_at,
            updated_at,
            tags,
            project: Some(self.space_key.clone()),
        }
    }

    /// The documents of an API answer: one per page of its results.
    pub fn documents(&self, body: &JsonValue, now: Timestamp) -> (r: Vec<Document>)
        ensures
            r@.len() == results_of(*body, "results"@).len(),
            forall|i: int|
                0 <= i < r@.len() ==> page_document(
                    *self,
                    results_of(*body, "results"@)[i],
                    now,
                    #[trigger] r@[i],
                ),
    {
        let mut docs: Vec<Document> = Vec::new();
        match get_opt(Some(body), "results") {
            Some(v) => match v.as_array() {
                Some(pages) => {
                    let mut k: usize = 0;
                    while k < pages.len()
                        invariant
                            k <= pages@.len(),
                            pages@ == results_of(*body, "results"@),
                            docs@.len() == k,
                            forall|i: int|
                                0 <= i < k ==> page_document(*self, pages@[i], now, #[trigger] docs@[i]),
                        decreases pages@.len() - k,
                    {
                        docs.push(self.page_to_document(&pages[k], now));
                        k += 1;
                    }
                },
                None => {},
            },
            None => {},
        }
        docs
    }
}

} // verus!

verus! {

/// A page's document takes its title from the page's `title` string (empty
/// when absent), whatever the page's id; its id from the `id` string; its
/// content from the `body.storage.value` string; its author from the
/// `version.by.displayName` string.
pub proof fn law_confluence_title_is_page_title(c: ConfluenceConnector, page: JsonValue, now: Timestamp, d: Document)
    requires
        page_document(c, page, now, d),
    ensures
        json_str(json_get(Some(page), "title"@)) matches Some(t) ==> d.title@ == t,
        json_str(json_get(Some(page), "title"@)) is None ==> d.title@ == Seq::<char>::empty(),
        json_str(json_get(Some(page), "id"@)) matches Some(i) ==> d.source_id@ == i,
        json_str(json_get(json_get(json_get(Some(page), "body"@), "storage"@), "value"@)) matches Some(v)
            ==> d.content@ == v,
        json_str(json_get(json_get(json_get(Some(page), "version"@), "by"@), "displayName"@)) matches Some(a)
            ==> (d.author matches Some(x) && x@ == a),
{
    reveal_strlit("");
}

} // verus!
