//! The search request types and the filters they carry.
use vstd::prelude::*;
use vstd::string::StringExecFns;
use crate::text::{split_on, trim, chars_of, split_chars, trim_chars, string_from_chars, join, lemma_split_on_joins};
use crate::engine::query::{strings_view, lemma_strings_push};
use crate::time::{rfc3339_instant, seconds_of, parse_rfc3339};

verus! {

/// The query-string form of a search request.
#[derive(Debug, Clone, PartialEq, Eq)]
pub struct SearchParams {
    pub q: String,
    pub limit: usize,
    pub offset: usize,
    pub source: Option<String>,
    pub author: Option<String>,
    pub tags: Option<String>,
    pub from_date: Option<String>,
    pub to_date: Option<String>,
}

/// What a search is narrowed to: sources, authors and tags (any of each list),
/// and a range of update times in seconds.
#[derive(Debug, Clone, PartialEq, Eq)]
pub struct SearchFilters {
    pub source: Option<Vec<String>>,
    pub author: Option<Vec<String>>,
    pub tags: Option<Vec<String>>,
    pub from_date: Option<i64>,
    pub to_date: Option<i64>,
}

/// The JSON-body form of a search request.
#[derive(Debug, Clone, PartialEq, Eq)]
pub struct SearchRequestBody {
    pub q: String,
    pub limit: usize,
    pub offset: usize,
    pub source: Option<Vec<String>>,
    pub author: Option<Vec<String>>,
    pub tags: Option<Vec<String>>,
    pub from_date: Option<String>,
    pub to_date: Option<String>,
}

/// The limit a request gets when it names none.
pub fn default_limit() -> (r: usize)
    ensures
        r == 20,
{
    20
}

/// The offset a request gets when it names none.
pub fn default_offset() -> (r: usize)
    ensures
        r == 0,
{
    0
}

/// The items of a comma-separated list, each trimmed of whitespace.
pub open spec fn split_list(s: Seq<char>) -> Seq<Seq<char>> {
    Seq::new(split_on(s, ',').len(), |i: int| trim(split_on(s, ',')[i]))
}

/// The first second of the day `d` (written `YYYY-MM-DD`), in UTC.
pub open spec fn day_start(d: Seq<char>) -> Option<i64> {
    seconds_of(rfc3339_instant(d + "T00:00:00Z"@))
}

/// The last second of the day `d` (written `YYYY-MM-DD`), in UTC.
pub open spec fn day_end(d: Seq<char>) -> Option<i64> {
    seconds_of(rfc3339_instant(d + "T23:59:59Z"@))
}

pub open spec fn opt_list(o: Option<String>) -> Option<Seq<Seq<char>>> {
    match o {
        Some(s) => Some(split_list(s@)),
        None => None,
    }
}

pub open spec fn opt_strings_view(o: Option<Vec<String>>) -> Option<Seq<Seq<char>>> {
    match o {
        Some(v) => Some(strings_view(v@)),
        None => None,
    }
}

pub open spec fn opt_day(o: Option<String>, end: bool) -> Option<i64> {
    match o {
        Some(d) => if end {
            day_end(d@)
        } else {
            day_start(d@)
        },
        None => None,
    }
}

/// The items of a comma-separated list, each trimmed of whitespace.
pub fn split_comma_list(s: &String) -> (r: Vec<String>)
    ensures
        strings_view(r@) == split_list(s@),
{
    let chars = chars_of(s.as_str());
    let parts = split_chars(&chars, ',');
    let mut out: Vec<String> = Vec::new();
    let mut k: usize = 0;
    while k < parts.len()
        invariant
            k <= parts@.len(),
            parts@.len() == split_on(s@, ',').len(),
            forall|i: int| 0 <= i < parts@.len() ==> #[trigger] parts@[i]@ == split_on(s@, ',')[i],
            strings_view(out@) == split_list(s@).take(k as int),
        decreases parts@.len() - k,
    {
        let item = string_from_chars(trim_chars(&parts[k]));
        proof {
            lemma_strings_push(out@, item);
        }
        out.push(item);
        k += 1;
        assert(strings_view(out@) =~= split_list(s@).take(k as int));
    }
    assert(split_list(s@).take(k as int) =~= split_list(s@));
    out
}

fn list_of(o: &Option<String>) -> (r: Option<Vec<String>>)
    ensures
        opt_strings_view(r) == opt_list(*o),
{
    match o {
        Some(s) => Some(split_comma_list(s)),
        None => None,
    }
}

/// The Unix time of the start (or, with `end`, the last second) of a day.
pub fn day_bound(d: &String, end: bool) -> (r: Option<i64>)
    ensures
        r == (if end {
            day_end(d@)
        } else {
            day_start(d@)
        }),
{
    let mut full = d.clone();
    if end {
        full.append("T23:59:59Z");
    } else {
        full.append("T00:00:00Z");
    }
    match parse_rfc3339(full.as_str()) {
        Some((secs, _)) => Some(secs),
        None => None,
    }
}

fn day_of(o: &Option<String>, end: bool) -> (r: Option<i64>)
    ensures
        r == opt_day(*o, end),
{
    match o {
        Some(d) => day_bound(d, end),
        None => None,
    }
}

fn clone_list(o: &Option<Vec<String>>) -> (r: Option<Vec<String>>)
    ensures
        opt_strings_view(r) == opt_strings_view(*o),
{
    match o {
        Some(v) => {
            let mut out: Vec<String> = Vec::new();
            let mut k: usize = 0;
            while k < v.len()
                invariant
                    k <= v@.len(),
                    strings_view(out@) == strings_view(v@).take(k as int),
                decreases v@.len() - k,
            {
                let item = v[k].clone();
                proof {
                    lemma_strings_push(out@, item);
                }
                out.push(item);
                k += 1;
                assert(strings_view(out@) =~= strings_view(v@).take(k as int));
            }
            assert(strings_view(v@).take(k as int) =~= strings_view(v@));
            Some(out)
        },
        None => None,
    }
}

impl SearchFilters {
    /// Whether these filters are the ones that query-string parameters give:
    /// each list split at commas and trimmed, each date taken as the start
    /// (from) or end (to) of that day in UTC.
    pub open spec fn from_params_spec(self, p: SearchParams) -> bool {
        &&& opt_strings_view(self.source) == opt_list(p.source)
        &&& opt_strings_view(self.author) == opt_list(p.author)
        &&& opt_strings_view(self.tags) == opt_list(p.tags)
        &&& self.from_date == opt_day(p.from_date, false)
        &&& self.to_date == opt_day(p.to_date, true)
    }

    /// Whether these filters are the ones that a JSON request body gives: the
    /// lists as they are, each date taken as the start (from) or end (to) of
    /// that day in UTC.
    pub open spec fn from_body_spec(self, b: SearchRequestBody) -> bool {
        &&& opt_strings_view(self.source) == opt_strings_view(b.source)
        &&& opt_strings_view(self.author) == opt_strings_view(b.author)
        &&& opt_strings_view(self.tags) == opt_strings_view(b.tags)
        &&& self.from_date == opt_day(b.from_date, false)
        &&& self.to_date == opt_day(b.to_date, true)
    }

    /// The filters of query-string parameters.
    pub fn from_params(params: &SearchParams) -> (r: SearchFilters)
        ensures
            r.from_params_spec(*params),
    {
        SearchFilters {
            source: list_of(&params.source),
            author: list_of(&params.author),
            tags: list_of(&params.tags),
            from_date: day_of(&params.from_date, false),
            to_date: day_of(&params.to_date, true),
        }
    }

    /// The filters of a JSON request body.
    pub fn from_body(body: &SearchRequestBody) -> (r: SearchFilters)
        ensures
            r.from_body_spec(*body),
    {
        SearchFilters {
            source: clone_list(&body.source),
            author: clone_list(&body.author),
            tags: clone_list(&body.tags),
            from_date: day_of(&body.from_date, false),
            to_date: day_of(&body.to_date, true),
        }
    }
}

impl<'a> From<&'a SearchParams> for SearchFilters {
    fn from(params: &'a SearchParams) -> (r: SearchFilters)
        ensures
            r.from_params_spec(*params),
    {
        SearchFilters::from_params(params)
    }
}

impl<'a> vstd::std_specs::convert::FromSpecImpl<&'a SearchParams> for SearchFilters {
    open spec fn obeys_from_spec() -> bool {
        false
    }

    open spec fn from_spec(v: &'a SearchParams) -> SearchFilters {
        vstd::pervasive::arbitrary()
    }
}

impl<'a> From<&'a SearchRequestBody> for SearchFilters {
    fn from(body: &'a SearchRequestBody) -> (r: SearchFilters)
        ensures
            r.from_body_spec(*body),
    {
        SearchFilters::from_body(body)
    }
}

impl<'a> vstd::std_specs::convert::FromSpecImpl<&'a SearchRequestBody> for SearchFilters {
    open spec fn obeys_from_spec() -> bool {
        false
    }

    open spec fn from_spec(v: &'a SearchRequestBody) -> SearchFilters {
        vstd::pervasive::arbitrary()
    }
}

} // verus!

verus! {

/// Whether `items` are the comma-separated items of `s`, each trimmed of
/// whitespace: `s` is some pieces joined by commas, no piece holds a comma,
/// and each item is its piece trimmed.
pub open spec fn comma_items(s: Seq<char>, items: Seq<Seq<char>>) -> bool {
    exists|pieces: Seq<Seq<char>>|
        #[trigger] join(pieces, seq![',']) == s && pieces.len() == items.len() && (forall|i: int|
            0 <= i < pieces.len() ==> !(#[trigger] pieces[i]).contains(',')) && (forall|i: int|
            0 <= i < items.len() ==> #[trigger] items[i] == trim(pieces[i]))
}

/// Whether a filter list was read from a query-string parameter: no list
/// without the parameter, else its comma-separated items, trimmed.
pub open spec fn list_read_from(param: Option<String>, list: Option<Vec<String>>) -> bool {
    match param {
        Some(s) => list matches Some(v) && comma_items(s@, strings_view(v@)),
        None => list is None,
    }
}

proof fn lemma_list_read(param: Option<String>, list: Option<Vec<String>>)
    requires
        opt_strings_view(list) == opt_list(param),
    ensures
        list_read_from(param, list),
{
    match param {
        Some(s) => {
            let pieces = split_on(s@, ',');
            lemma_split_on_joins(s@, ',');
            let v = list->Some_0;
            assert(strings_view(v@) == split_list(s@));
            assert(join(pieces, seq![',']) == s@);
        },
        None => {},
    }
}

/// Query-string parameters give their lists by one rule for the source, the
/// author and the tag list: the parameter cut at every comma, each item
/// trimmed of whitespace; no list where the parameter is absent.
pub proof fn law_param_lists_split_at_commas(f: SearchFilters, p: SearchParams)
    requires
        f.from_params_spec(p),
    ensures
        list_read_from(p.source, f.source),
        list_read_from(p.author, f.author),
        list_read_from(p.tags, f.tags),
{
    lemma_list_read(p.source, f.source);
    lemma_list_read(p.author, f.author);
    lemma_list_read(p.tags, f.tags);
}

} // verus!
