//! The index's schema, and the rules by which documents enter the index and
//! come back out of it: which field holds what, how a stored entry becomes a
//! document again, how a result page is cut, and how facets are counted.
use vstd::prelude::*;
use crate::text::{str_equal, to_owned_string};
use crate::schema::document::{Document, FacetBucket, Facets};
use crate::engine::query::{Occur, QueryNode, QueryView, strings_view, clauses_view, boolean, lemma_clauses_push, lemma_strings_push};
use crate::time::{timestamp_in_range, from_timestamp_seconds};
use crate::connector::Timestamp;

verus! {

broadcast use vstd::string::group_string_axioms;

/// How a field is indexed.
#[derive(Debug, Clone, PartialEq, Eq)]
pub enum FieldKind {
    /// The whole text is one term (what tantivy's `STRING` option gives).
    Raw,
    /// The text is split by the named tokenizer, with frequencies and positions.
    Analyzed { tokenizer: String },
    /// A signed 64-bit number, indexed.
    I64,
}

/// A field of the schema.
#[derive(Debug, Clone, PartialEq, Eq)]
pub struct FieldEntry {
    pub name: String,
    pub kind: FieldKind,
    pub stored: bool,
}

/// The fields of the index, in the order the schema assigns them.
#[derive(Debug, Clone, PartialEq, Eq)]
pub struct IndexSchema {
    pub fields: Vec<FieldEntry>,
}

/// The index of the first field named `name` from position `i` on.
pub open spec fn field_index_from(names: Seq<Seq<char>>, name: Seq<char>, i: int) -> Option<nat>
    decreases names.len() - i,
{
    if i < 0 || i >= names.len() {
        None
    } else if names[i] == name {
        Some(i as nat)
    } else {
        field_index_from(names, name, i + 1)
    }
}

/// The field named `name`, if the schema has one.
pub open spec fn field_index(names: Seq<Seq<char>>, name: Seq<char>) -> Option<nat> {
    field_index_from(names, name, 0)
}

impl IndexSchema {
    /// The names of the fields, in schema order.
    pub open spec fn names(&self) -> Seq<Seq<char>> {
        Seq::new(self.fields@.len(), |i: int| self.fields@[i].name@)
    }

    /// The field named `name`, if there is one.
    pub fn get_field(&self, name: &str) -> (r: Option<usize>)
        ensures
            match r {
                Some(i) => field_index(self.names(), name@) == Some(i as nat),
                None => field_index(self.names(), name@) is None,
            },
    {
        let mut i: usize = 0;
        while i < self.fields.len()
            invariant
                i <= self.fields@.len(),
                field_index(self.names(), name@) == field_index_from(self.names(), name@, i as int),
            decreases self.fields@.len() - i,
        {
            if str_equal(self.fields[i].name.as_str(), name) {
                return Some(i);
            }
            i += 1;
        }
        None
    }

    /// The name of field `f`.
    pub fn get_field_name(&self, f: usize) -> (r: &String)
        requires
            f < self.fields@.len(),
        ensures
            r@ == self.names()[f as int],
    {
        &self.fields[f].name
    }
}

/// Position of the `source` field in the schema.
pub const FIELD_SOURCE: usize = 0;
pub const FIELD_SOURCE_ID: usize = 1;
pub const FIELD_TITLE: usize = 2;
pub const FIELD_CONTENT: usize = 3;
pub const FIELD_URL: usize = 4;
pub const FIELD_AUTHOR: usize = 5;
pub const FIELD_CREATED_AT: usize = 6;
pub const FIELD_UPDATED_AT: usize = 7;
pub const FIELD_TAGS: usize = 8;
pub const FIELD_PROJECT: usize = 9;

/// A stored, raw (untokenized) text field named `name`.
pub open spec fn raw_field(f: FieldEntry, name: Seq<char>) -> bool {
    f.name@ == name && f.kind is Raw && f.stored
}

/// A stored text field named `name`, split by the default analyzer.
pub open spec fn analyzed_field(f: FieldEntry, name: Seq<char>) -> bool {
    &&& f.name@ == name
    &&& f.kind matches FieldKind::Analyzed { tokenizer } && tokenizer@ == "default_mixed"@
    &&& f.stored
}

/// A stored, indexed i64 field named `name`.
pub open spec fn i64_field(f: FieldEntry, name: Seq<char>) -> bool {
    f.name@ == name && f.kind is I64 && f.stored
}

fn entry(name: &str, kind: FieldKind) -> (f: FieldEntry)
    ensures
        f.name@ == name@,
        f.kind == kind,
        f.stored,
{
    FieldEntry { name: to_owned_string(name), kind, stored: true }
}

fn analyzed() -> (k: FieldKind)
    ensures
        k matches FieldKind::Analyzed { tokenizer } && tokenizer@ == "default_mixed"@,
{
    FieldKind::Analyzed { tokenizer: to_owned_string("default_mixed") }
}

/// The schema of the index: raw source, source id, url and project; analyzed
/// title, content, author and tags; i64 creation and update times; all stored.
pub fn build_schema() -> (s: IndexSchema)
    ensures
        s.fields@.len() == 10,
        raw_field(s.fields@[FIELD_SOURCE as int], "source"@),
        raw_field(s.fields@[FIELD_SOURCE_ID as int], "source_id"@),
        analyzed_field(s.fields@[FIELD_TITLE as int], "title"@),
        analyzed_field(s.fields@[FIELD_CONTENT as int], "content"@),
        raw_field(s.fields@[FIELD_URL as int], "url"@),
        analyzed_field(s.fields@[FIELD_AUTHOR as int], "author"@),
        i64_field(s.fields@[FIELD_CREATED_AT as int], "created_at"@),
        i64_field(s.fields@[FIELD_UPDATED_AT as int], "updated_at"@),
        analyzed_field(s.fields@[FIELD_TAGS as int], "tags"@),
        raw_field(s.fields@[FIELD_PROJECT as int], "project"@),
{
    let mut fields: Vec<FieldEntry> = Vec::new();
    fields.push(entry("source", FieldKind::Raw));
    fields.push(entry("source_id", FieldKind::Raw));
    fields.push(entry("title", analyzed()));
    fields.push(entry("content", analyzed()));
    fields.push(entry("url", FieldKind::Raw));
    fields.push(entry("author", analyzed()));
    fields.push(entry("created_at", FieldKind::I64));
    fields.push(entry("updated_at", FieldKind::I64));
    fields.push(entry("tags", analyzed()));
    fields.push(entry("project", FieldKind::Raw));
    IndexSchema { fields }
}

// ---------------------------------------------------------------------------
// Documents into the index.

/// A value given to a field of the index.
#[derive(Debug, Clone, PartialEq, Eq)]
pub enum IndexValue {
    Text(String),
    I64(i64),
}

pub enum IndexValueView {
    Text(Seq<char>),
    I64(i64),
}

impl View for IndexValue {
    type V = IndexValueView;

    open spec fn view(&self) -> IndexValueView {
        match self {
            IndexValue::Text(s) => IndexValueView::Text(s@),
            IndexValue::I64(n) => IndexValueView::I64(*n),
        }
    }
}

pub open spec fn entries_view(v: Seq<(usize, IndexValue)>) -> Seq<(nat, IndexValueView)> {
    Seq::new(v.len(), |i: int| (v[i].0 as nat, v[i].1@))
}

/// The text of an optional string, empty when there is none.
pub open spec fn or_empty(o: Option<String>) -> Seq<char> {
    match o {
        Some(s) => s@,
        None => Seq::empty(),
    }
}

/// The values that a document gives the index, field by field: the texts
/// (a missing url or author as empty text), the two times, one value per tag,
/// and the project when there is one.
pub open spec fn document_entries(d: Document) -> Seq<(nat, IndexValueView)> {
    seq![
        (FIELD_SOURCE as nat, IndexValueView::Text(d.source@)),
        (FIELD_SOURCE_ID as nat, IndexValueView::Text(d.source_id@)),
        (FIELD_TITLE as nat, IndexValueView::Text(d.title@)),
        (FIELD_CONTENT as nat, IndexValueView::Text(d.content@)),
        (FIELD_URL as nat, IndexValueView::Text(or_empty(d.url))),
        (FIELD_AUTHOR as nat, IndexValueView::Text(or_empty(d.author))),
        (FIELD_CREATED_AT as nat, IndexValueView::I64(d.created_at.secs)),
        (FIELD_UPDATED_AT as nat, IndexValueView::I64(d.updated_at.secs)),
    ] + Seq::new(
        d.tags@.len(),
        |i: int| (FIELD_TAGS as nat, IndexValueView::Text(d.tags@[i]@)),
    ) + match d.project {
        Some(p) => seq![(FIELD_PROJECT as nat, IndexValueView::Text(p@))],
        None => Seq::empty(),
    }
}

proof fn lemma_entries_push(v: Seq<(usize, IndexValue)>, x: (usize, IndexValue))
    ensures
        entries_view(v.push(x)) == entries_view(v).push((x.0 as nat, x.1@)),
{
    assert(entries_view(v.push(x)) =~= entries_view(v).push((x.0 as nat, x.1@)));
}

fn text_or_empty(o: &Option<String>) -> (r: String)
    ensures
        r@ == or_empty(*o),
{
    match o {
        Some(s) => s.clone(),
        None => String::new(),
    }
}

/// The values that `doc` gives the index, as `document_entries` lists them.
pub fn document_entries_of(doc: &Document) -> (r: Vec<(usize, IndexValue)>)
    ensures
        entries_view(r@) == document_entries(*doc),
{
    let mut r: Vec<(usize, IndexValue)> = Vec::new();
    r.push((FIELD_SOURCE, IndexValue::Text(doc.source.clone())));
    r.push((FIELD_SOURCE_ID, IndexValue::Text(doc.source_id.clone())));
    r.push((FIELD_TITLE, IndexValue::Text(doc.title.clone())));
    r.push((FIELD_CONTENT, IndexValue::Text(doc.content.clone())));
    r.push((FIELD_URL, IndexValue::Text(text_or_empty(&doc.url))));
    r.push((FIELD_AUTHOR, IndexValue::Text(text_or_empty(&doc.author))));
    r.push((FIELD_CREATED_AT, IndexValue::I64(doc.created_at.secs)));
    r.push((FIELD_UPDATED_AT, IndexValue::I64(doc.updated_at.secs)));
    let ghost head = entries_view(r@);
    assert(head =~= seq![
        (FIELD_SOURCE as nat, IndexValueView::Text(doc.source@)),
        (FIELD_SOURCE_ID as nat, IndexValueView::Text(doc.source_id@)),
        (FIELD_TITLE as nat, IndexValueView::Text(doc.title@)),
        (FIELD_CONTENT as nat, IndexValueView::Text(doc.content@)),
        (FIELD_URL as nat, IndexValueView::Text(or_empty(doc.url))),
        (FIELD_AUTHOR as nat, IndexValueView::Text(or_empty(doc.author))),
        (FIELD_CREATED_AT as nat, IndexValueView::I64(doc.created_at.secs)),
        (FIELD_UPDATED_AT as nat, IndexValueView::I64(doc.updated_at.secs)),
    ]);
    let mut k: usize = 0;
    assert(head =~= head + Seq::new(
        0 as nat,
        |i: int| (FIELD_TAGS as nat, IndexValueView::Text(doc.tags@[i]@)),
    ));
    while k < doc.tags.len()
        invariant
            k <= doc.tags@.len(),
            r@.len() == 8 + k,
            entries_view(r@) == head + Seq::new(
                k as nat,
                |i: int| (FIELD_TAGS as nat, IndexValueView::Text(doc.tags@[i]@)),
            ),
        decreases doc.tags@.len() - k,
    {
        let item = (FIELD_TAGS, IndexValue::Text(doc.tags[k].clone()));
        proof {
            lemma_entries_push(r@, item);
        }
        r.push(item);
        k += 1;
        assert(entries_view(r@) =~= head + Seq::new(
            k as nat,
            |i: int| (FIELD_TAGS as nat, IndexValueView::Text(doc.tags@[i]@)),
        ));
    }
    let ghost mid = entries_view(r@);
    match &doc.project {
        Some(p) => {
            let item = (FIELD_PROJECT, IndexValue::Text(p.clone()));
            proof {
                lemma_entries_push(r@, item);
            }
            r.push(item);
        },
        None => {},
    }
    assert(doc.tags@.len() == k);
    assert(entries_view(r@) =~= document_entries(*doc));
    r
}

/// The query that finds the stored versions of a document: the same source
/// and the same source id.
pub open spec fn same_document_query(d: Document) -> QueryView {
    QueryView::Boolean {
        clauses: seq![
            (Occur::Must, QueryView::Term { field: FIELD_SOURCE as nat, text: d.source@, positions: false }),
            (Occur::Must, QueryView::Term { field: FIELD_SOURCE_ID as nat, text: d.source_id@, positions: false }),
        ],
    }
}

/// The query whose matches a document replaces when it is added.
pub fn same_document(doc: &Document) -> (q: QueryNode)
    ensures
        q@ == same_document_query(*doc),
{
    let mut clauses: Vec<(Occur, QueryNode)> = Vec::new();
    clauses.push(
        (Occur::Must, QueryNode::Term { field: FIELD_SOURCE, text: doc.source.clone(), positions: false }),
    );
    clauses.push(
        (
            Occur::Must,
            QueryNode::Term { field: FIELD_SOURCE_ID, text: doc.source_id.clone(), positions: false },
        ),
    );
    let q = boolean(clauses);
    assert(q@->clauses =~= same_document_query(*doc)->clauses);
    q
}

// ---------------------------------------------------------------------------
// Documents out of the index.

/// A value as the index stored it.
#[derive(Debug, Clone, PartialEq, Eq)]
pub enum StoredValue {
    Str(String),
    I64(i64),
    Other,
}

/// The stored values of an index entry: `fields[f]` lists field `f`'s values in order.
#[derive(Debug, Clone, PartialEq, Eq)]
pub struct StoredDoc {
    pub fields: Vec<Vec<StoredValue>>,
}

/// The first stored value of field `f`, when it is text.
pub open spec fn first_str(sd: StoredDoc, f: int) -> Option<Seq<char>> {
    if 0 <= f < sd.fields@.len() && sd.fields@[f]@.len() > 0 {
        match sd.fields@[f]@[0] {
            StoredValue::Str(s) => Some(s@),
            _ => None,
        }
    } else {
        None
    }
}

/// The first stored value of field `f`, when it is a number.
pub open spec fn first_i64(sd: StoredDoc, f: int) -> Option<i64> {
    if 0 <= f < sd.fields@.len() && sd.fields@[f]@.len() > 0 {
        match sd.fields@[f]@[0] {
            StoredValue::I64(n) => Some(n),
            _ => None,
        }
    } else {
        None
    }
}

/// The text values of `vals`, in order.
pub open spec fn texts_of(vals: Seq<StoredValue>) -> Seq<Seq<char>>
    decreases vals.len(),
{
    if vals.len() == 0 {
        Seq::empty()
    } else {
        texts_of(vals.drop_last()) + match vals.last() {
            StoredValue::Str(s) => seq![s@],
            _ => Seq::<Seq<char>>::empty(),
        }
    }
}

/// All text values of field `f`, in order.
pub open spec fn all_strs(sd: StoredDoc, f: int) -> Seq<Seq<char>> {
    if 0 <= f < sd.fields@.len() {
        texts_of(sd.fields@[f]@)
    } else {
        Seq::empty()
    }
}

pub open spec fn opt_view(o: Option<String>) -> Option<Seq<char>> {
    match o {
        Some(s) => Some(s@),
        None => None,
    }
}

pub open spec fn unwrap_text(o: Option<Seq<char>>) -> Seq<char> {
    match o {
        Some(s) => s,
        None => Seq::empty(),
    }
}

/// A stored time read back: the stored seconds (0 when there are none, and
/// the epoch when they are out of the range of dates), with no nanoseconds.
pub open spec fn stored_time(sd: StoredDoc, f: int) -> Timestamp {
    let ts = match first_i64(sd, f) {
        Some(n) => n,
        None => 0,
    };
    Timestamp {
        secs: if timestamp_in_range(ts) {
            ts
        } else {
            0
        },
        nanos: 0,
    }
}

/// Whether `d` is the document that the stored entry `sd` holds: missing texts
/// read as empty, url, author and project as they were stored (an empty url
/// or author comes back as an empty text), tags as all stored tag texts.
pub open spec fn document_from_stored(sd: StoredDoc, d: Document) -> bool {
    &&& d.source@ == unwrap_text(first_str(sd, FIELD_SOURCE as int))
    &&& d.source_id@ == unwrap_text(first_str(sd, FIELD_SOURCE_ID as int))
    &&& d.title@ == unwrap_text(first_str(sd, FIELD_TITLE as int))
    &&& d.content@ == unwrap_text(first_str(sd, FIELD_CONTENT as int))
    &&& opt_view(d.url) == first_str(sd, FIELD_URL as int)
    &&& opt_view(d.author) == first_str(sd, FIELD_AUTHOR as int)
    &&& d.created_at == stored_time(sd, FIELD_CREATED_AT as int)
    &&& d.updated_at == stored_time(sd, FIELD_UPDATED_AT as int)
    &&& strings_view(d.tags@) == all_strs(sd, FIELD_TAGS as int)
    &&& opt_view(d.project) == first_str(sd, FIELD_PROJECT as int)
}

fn first_text(sd: &StoredDoc, f: usize) -> (r: Option<String>)
    ensures
        opt_view(r) == first_str(*sd, f as int),
{
    if f < sd.fields.len() && sd.fields[f].len() > 0 {
        match &sd.fields[f][0] {
            StoredValue::Str(s) => Some(s.clone()),
            _ => None,
        }
    } else {
        None
    }
}

fn text_or_default(o: Option<String>) -> (r: String)
    ensures
        r@ == unwrap_text(opt_view(o)),
{
    match o {
        Some(s) => s,
        None => String::new(),
    }
}

fn read_time(sd: &StoredDoc, f: usize) -> (r: Timestamp)
    ensures
        r == stored_time(*sd, f as int),
{
    let ts: i64 = if f < sd.fields.len() && sd.fields[f].len() > 0 {
        match &sd.fields[f][0] {
            StoredValue::I64(n) => *n,
            _ => 0,
        }
    } else {
        0
    };
    let secs = match from_timestamp_seconds(ts) {
        Some(t) => t,
        None => 0,
    };
    Timestamp { secs, nanos: 0 }
}

fn all_texts(sd: &StoredDoc, f: usize) -> (r: Vec<String>)
    ensures
        strings_view(r@) == all_strs(*sd, f as int),
{
    let mut r: Vec<String> = Vec::new();
    if f >= sd.fields.len() {
        assert(strings_view(r@) =~= Seq::<Seq<char>>::empty());
        return r;
    }
    let vals = &sd.fields[f];
    let mut k: usize = 0;
    assert(vals@.take(0) =~= Seq::<StoredValue>::empty());
    assert(strings_view(r@) =~= Seq::<Seq<char>>::empty());
    while k < vals.len()
        invariant
            k <= vals@.len(),
            strings_view(r@) == texts_of(vals@.take(k as int)),
        decreases vals@.len() - k,
    {
        assert(vals@.take(k + 1).drop_last() =~= vals@.take(k as int));
        match &vals[k] {
            StoredValue::Str(s) => {
                let item = s.clone();
                proof {
                    lemma_strings_push(r@, item);
                }
                r.push(item);
            },
            _ => {},
        }
        k += 1;
        assert(strings_view(r@) =~= texts_of(vals@.take(k as int)));
    }
    assert(vals@.take(k as int) =~= vals@);
    r
}

/// The document that a stored index entry holds, as `document_from_stored`
/// states it; it never fails.
pub fn stored_to_document(sd: &StoredDoc) -> (r: Result<Document, String>)
    ensures
        r matches Ok(d) && document_from_stored(*sd, d),
{
    Ok(
        Document {
            source: text_or_default(first_text(sd, FIELD_SOURCE)),
            source_id: text_or_default(first_text(sd, FIELD_SOURCE_ID)),
            title: text_or_default(first_text(sd, FIELD_TITLE)),
            content: text_or_default(first_text(sd, FIELD_CONTENT)),
            url: first_text(sd, FIELD_URL),
            author: first_text(sd, FIELD_AUTHOR),
            created_at: read_time(sd, FIELD_CREATED_AT),
            updated_at: read_time(sd, FIELD_UPDATED_AT),
            tags: all_texts(sd, FIELD_TAGS),
            project: first_text(sd, FIELD_PROJECT),
        },
    )
}

// ---------------------------------------------------------------------------
// Result pages and facets.

/// The part of `len` items that a page skipping `offset` and showing at most
/// `limit` covers: from `page_start` up to `page_end`.
pub open spec fn page_start(len: nat, offset: nat) -> nat {
    if offset < len {
        offset
    } else {
        len
    }
}

pub open spec fn page_end(len: nat, offset: nat, limit: nat) -> nat {
    if page_start(len, offset) + limit < len {
        page_start(len, offset) + limit
    } else {
        len
    }
}

/// The items of the page that skips `offset` items and shows at most `limit`.
pub fn page<T>(items: Vec<T>, offset: usize, limit: usize) -> (r: Vec<T>)
    ensures
        r@ == items@.subrange(
            page_start(items@.len(), offset as nat) as int,
            page_end(items@.len(), offset as nat, limit as nat) as int,
        ),
{
    let ghost all = items@;
    let len = items.len();
    let start = if offset < len {
        offset
    } else {
        len
    };
    let end = if limit < len - start {
        start + limit
    } else {
        len
    };
    let mut rest = items;
    let mut tail: Vec<T> = Vec::new();
    // Drop the items after the page, keeping them out of the result.
    while rest.len() > end
        invariant
            end <= rest@.len() <= len,
            rest@ == all.take(rest@.len() as int),
            all.len() == len,
        decreases rest@.len(),
    {
        let x = rest.pop().unwrap();
        tail.push(x);
        assert(rest@ =~= all.take(rest@.len() as int));
    }
    // Move the page's items out, last first.
    let mut rev: Vec<T> = Vec::new();
    while rest.len() > start
        invariant
            start <= rest@.len() <= end,
            end <= len,
            rest@ == all.take(rest@.len() as int),
            all.len() == len,
            rev@.len() == end - rest@.len(),
            forall|i: int| 0 <= i < rev@.len() ==> #[trigger] rev@[i] == all[end - 1 - i],
        decreases rest@.len(),
    {
        let x = rest.pop().unwrap();
        rev.push(x);
        assert(rest@ =~= all.take(rest@.len() as int));
    }
    let mut out: Vec<T> = Vec::new();
    while rev.len() > 0
        invariant
            start <= end <= len,
            all.len() == len,
            rev@.len() + out@.len() == end - start,
            forall|i: int| 0 <= i < rev@.len() ==> #[trigger] rev@[i] == all[end - 1 - i],
            forall|i: int| 0 <= i < out@.len() ==> #[trigger] out@[i] == all[start + i],
        decreases rev@.len(),
    {
        let x = rev.pop().unwrap();
        out.push(x);
    }
    assert(out@ =~= all.subrange(start as int, end as int));
    out
}

/// How often `v` occurs in `s`.
pub open spec fn count_in(s: Seq<Seq<char>>, v: Seq<char>) -> nat
    decreases s.len(),
{
    if s.len() == 0 {
        0
    } else {
        count_in(s.drop_last(), v) + if s.last() == v {
            1nat
        } else {
            0nat
        }
    }
}

/// Whether `buckets` are the facet buckets of `values`: one per distinct value,
/// each with the number of times it occurs, most frequent first.
pub open spec fn buckets_of(values: Seq<Seq<char>>, buckets: Seq<FacetBucket>) -> bool {
    &&& forall|i: int|
        0 <= i < buckets.len() ==> values.contains((#[trigger] buckets[i]).value@)
            && buckets[i].count == count_in(values, buckets[i].value@)
    &&& forall|v: Seq<char>| values.contains(v) ==> exists|i: int| 0 <= i < buckets.len() && (#[trigger] buckets[i]).value@ == v
    &&& forall|i: int, j: int|
        0 <= i < j < buckets.len() ==> (#[trigger] buckets[i]).value@ != (#[trigger] buckets[j]).value@
    &&& forall|i: int, j: int|
        0 <= i < j < buckets.len() ==> (#[trigger] buckets[i]).count >= (#[trigger] buckets[j]).count
}

proof fn lemma_count_push(s: Seq<Seq<char>>, x: Seq<char>, v: Seq<char>)
    ensures
        count_in(s.push(x), v) == count_in(s, v) + if x == v {
            1nat
        } else {
            0nat
        },
{
    assert(s.push(x).drop_last() =~= s);
}

proof fn lemma_count_bound(s: Seq<Seq<char>>, v: Seq<char>)
    ensures
        count_in(s, v) <= s.len(),
        count_in(s, v) > 0 ==> s.contains(v),
    decreases s.len(),
{
    if s.len() > 0 {
        lemma_count_bound(s.drop_last(), v);
        if count_in(s.drop_last(), v) > 0 {
            let k = choose|k: int| 0 <= k < s.drop_last().len() && s.drop_last()[k] == v;
            assert(s[k] == v);
        }
        if s.last() == v {
            assert(s[s.len() - 1] == v);
        }
    }
}

/// Every bucket of `out` is one of the first `m` buckets of `cs`.
#[verifier::opaque]
pub open spec fn taken_from(out: Seq<FacetBucket>, cs: Seq<FacetBucket>, m: int) -> bool {
    forall|i: int|
        0 <= i < out.len() ==> exists|c: int|
            0 <= c < m && (#[trigger] out[i]).value@ == cs[c].value@ && out[i].count == cs[c].count
}

/// Each of the first `m` buckets of `cs` has its value in `out`.
#[verifier::opaque]
pub open spec fn covers(out: Seq<FacetBucket>, cs: Seq<FacetBucket>, m: int) -> bool {
    forall|c: int|
        #![trigger cs[c]]
        0 <= c < m ==> exists|i: int| 0 <= i < out.len() && (#[trigger] out[i]).value@ == cs[c].value@
}

#[verifier::opaque]
pub open spec fn distinct_values(out: Seq<FacetBucket>) -> bool {
    forall|i: int, j: int|
        0 <= i < j < out.len() ==> (#[trigger] out[i]).value@ != (#[trigger] out[j]).value@
}

#[verifier::opaque]
pub open spec fn sorted_by_count(out: Seq<FacetBucket>) -> bool {
    forall|i: int, j: int|
        0 <= i < j < out.len() ==> (#[trigger] out[i]).count >= (#[trigger] out[j]).count
}

proof fn lemma_insert_taken(before: Seq<FacetBucket>, pos: int, item: FacetBucket, cs: Seq<FacetBucket>, m: int)
    requires
        taken_from(before, cs, m),
        0 <= m < cs.len(),
        item.value@ == cs[m].value@,
        item.count == cs[m].count,
        0 <= pos <= before.len(),
    ensures
        taken_from(before.insert(pos, item), cs, m + 1),
{
    reveal(taken_from);
    let out = before.insert(pos, item);
    assert forall|i: int| 0 <= i < out.len() implies exists|cc: int|
        0 <= cc < m + 1 && (#[trigger] out[i]).value@ == cs[cc].value@ && out[i].count
            == cs[cc].count by {
        if i < pos {
            assert(out[i] == before[i]);
        } else if i > pos {
            assert(out[i] == before[i - 1]);
        } else {
            assert(out[i] == item);
        }
    }
}

proof fn lemma_insert_covers(before: Seq<FacetBucket>, pos: int, item: FacetBucket, cs: Seq<FacetBucket>, m: int)
    requires
        covers(before, cs, m),
        0 <= m < cs.len(),
        item.value@ == cs[m].value@,
        0 <= pos <= before.len(),
    ensures
        covers(before.insert(pos, item), cs, m + 1),
{
    reveal(covers);
    let out = before.insert(pos, item);
    assert forall|cc: int| #![trigger cs[cc]] 0 <= cc < m + 1 implies exists|i: int|
        0 <= i < out.len() && (#[trigger] out[i]).value@ == cs[cc].value@ by {
        if cc < m {
            let i = choose|i: int| 0 <= i < before.len() && (#[trigger] before[i]).value@ == cs[cc].value@;
            if i < pos {
                assert(out[i] == before[i]);
            } else {
                assert(out[i + 1] == before[i]);
            }
        } else {
            assert(out[pos] == item);
        }
    }
}

proof fn lemma_insert_distinct(before: Seq<FacetBucket>, pos: int, item: FacetBucket, cs: Seq<FacetBucket>, m: int)
    requires
        taken_from(before, cs, m),
        distinct_values(before),
        distinct_values(cs),
        0 <= m < cs.len(),
        item.value@ == cs[m].value@,
        0 <= pos <= before.len(),
    ensures
        distinct_values(before.insert(pos, item)),
{
    reveal(taken_from);
    reveal(distinct_values);
    let out = before.insert(pos, item);
    assert forall|x: int| 0 <= x < before.len() implies (#[trigger] before[x]).value@ != item.value@ by {
        let cx = choose|cx: int|
            0 <= cx < m && (#[trigger] before[x]).value@ == cs[cx].value@ && before[x].count == cs[cx].count;
        assert(cs[cx].value@ != cs[m].value@);
    }
    assert forall|i: int, j: int| 0 <= i < j < out.len() implies (#[trigger] out[i]).value@
        != (#[trigger] out[j]).value@ by {
        if i < pos && j < pos {
            assert(out[i] == before[i] && out[j] == before[j]);
        } else if i < pos && j == pos {
            assert(out[i] == before[i] && out[j] == item);
        } else if i < pos {
            assert(out[i] == before[i] && out[j] == before[j - 1]);
        } else if i == pos {
            assert(out[i] == item && out[j] == before[j - 1]);
        } else {
            assert(out[i] == before[i - 1] && out[j] == before[j - 1]);
        }
    }
}

proof fn lemma_insert_sorted(before: Seq<FacetBucket>, pos: int, item: FacetBucket)
    requires
        sorted_by_count(before),
        0 <= pos <= before.len(),
        forall|i: int| 0 <= i < pos ==> (#[trigger] before[i]).count >= item.count,
        pos < before.len() ==> before[pos].count < item.count,
    ensures
        sorted_by_count(before.insert(pos, item)),
{
    reveal(sorted_by_count);
    let out = before.insert(pos, item);
    assert forall|i: int, j: int| 0 <= i < j < out.len() implies (#[trigger] out[i]).count
        >= (#[trigger] out[j]).count by {
        if i < pos && j < pos {
            assert(out[i] == before[i] && out[j] == before[j]);
        } else if i < pos && j == pos {
            assert(out[i] == before[i] && out[j] == item);
        } else if i < pos {
            assert(out[i] == before[i] && out[j] == before[j - 1]);
        } else if i == pos {
            assert(out[i] == item && out[j] == before[j - 1]);
            if j - 1 > pos {
                assert(before[pos].count >= before[j - 1].count);
            }
        } else {
            assert(out[i] == before[i - 1] && out[j] == before[j - 1]);
        }
    }
}

/// The facet buckets of `values`, as `buckets_of` states them; values that
/// occur equally often keep the order in which they first occur.
pub fn facet_buckets(values: &Vec<String>) -> (r: Vec<FacetBucket>)
    ensures
        buckets_of(strings_view(values@), r@),
{
    let ghost vs = strings_view(values@);
    // Count each distinct value, in order of first occurrence.
    let mut counts: Vec<FacetBucket> = Vec::new();
    let mut k: usize = 0;
    while k < values.len()
        invariant
            k <= values@.len(),
            vs == strings_view(values@),
            forall|i: int|
                0 <= i < counts@.len() ==> vs.take(k as int).contains((#[trigger] counts@[i]).value@)
                    && counts@[i].count == count_in(vs.take(k as int), counts@[i].value@),
            forall|v: Seq<char>|
                vs.take(k as int).contains(v) ==> exists|i: int|
                    0 <= i < counts@.len() && (#[trigger] counts@[i]).value@ == v,
            forall|i: int, j: int|
                0 <= i < j < counts@.len() ==> (#[trigger] counts@[i]).value@
                    != (#[trigger] counts@[j]).value@,
        decreases values@.len() - k,
    {
        let ghost prev = vs.take(k as int);
        let ghost next = vs.take(k + 1);
        assert(next =~= prev.push(vs[k as int]));
        assert(vs[k as int] == values@[k as int]@);
        let mut j: usize = 0;
        while j < counts.len() && !(counts[j].value == values[k])
            invariant
                j <= counts@.len(),
                k < values@.len(),
                forall|i: int| 0 <= i < j ==> (#[trigger] counts@[i]).value@ != values@[k as int]@,
            decreases counts@.len() - j,
        {
            j += 1;
        }
        let ghost old_counts = counts@;
        if j < counts.len() {
            proof {
                lemma_count_bound(prev, counts@[j as int].value@);
            }
            let c = counts[j].count;
            let value = counts[j].value.clone();
            counts.set(j, FacetBucket { value, count: c + 1 });
        } else {
            counts.push(FacetBucket { value: values[k].clone(), count: 1 });
        }
        proof {
            assert forall|i: int| 0 <= i < counts@.len() implies next.contains(
                (#[trigger] counts@[i]).value@,
            ) && counts@[i].count == count_in(next, counts@[i].value@) by {
                lemma_count_push(prev, vs[k as int], counts@[i].value@);
                if i < old_counts.len() {
                    assert(counts@[i].value@ == old_counts[i].value@);
                    let w = choose|w: int| 0 <= w < prev.len() && prev[w] == old_counts[i].value@;
                    assert(next[w] == prev[w]);
                } else {
                    assert(next[k as int] == vs[k as int]);
                    assert(count_in(prev, vs[k as int]) == 0) by {
                        lemma_count_bound(prev, vs[k as int]);
                    }
                }
            }
            assert forall|v: Seq<char>| next.contains(v) implies exists|i: int|
                0 <= i < counts@.len() && (#[trigger] counts@[i]).value@ == v by {
                let w = choose|w: int| 0 <= w < next.len() && next[w] == v;
                if w < prev.len() {
                    assert(prev[w] == v);
                    assert(prev.contains(v));
                    let i = choose|i: int| 0 <= i < old_counts.len() && old_counts[i].value@ == v;
                    assert(counts@[i].value@ == v);
                } else {
                    assert(v == vs[k as int]);
                    if j < old_counts.len() {
                        assert(counts@[j as int].value@ == v);
                    } else {
                        assert(counts@[old_counts.len() as int].value@ == v);
                    }
                }
            }
        }
        k += 1;
    }
    assert(vs.take(k as int) =~= vs);
    // Order the buckets by count, most frequent first, keeping ties in order.
    let ghost cs = counts@;
    let mut out: Vec<FacetBucket> = Vec::new();
    let mut m: usize = 0;
    proof {
        reveal(taken_from);
        reveal(covers);
        reveal(distinct_values);
        reveal(sorted_by_count);
    }
    while m < counts.len()
        invariant
            cs == counts@,
            m <= cs.len(),
            out@.len() == m,
            taken_from(out@, cs, m as int),
            covers(out@, cs, m as int),
            distinct_values(out@),
            sorted_by_count(out@),
            distinct_values(cs),
        decreases cs.len() - m,
    {
        let c = counts[m].count;
        let mut pos: usize = 0;
        while pos < out.len() && out[pos].count >= c
            invariant
                pos <= out@.len(),
                forall|i: int| 0 <= i < pos ==> (#[trigger] out@[i]).count >= c,
            decreases out@.len() - pos,
        {
            pos += 1;
        }
        let ghost before = out@;
        let item = FacetBucket { value: counts[m].value.clone(), count: c };
        proof {
            lemma_insert_taken(before, pos as int, item, cs, m as int);
            lemma_insert_covers(before, pos as int, item, cs, m as int);
            lemma_insert_distinct(before, pos as int, item, cs, m as int);
            lemma_insert_sorted(before, pos as int, item);
        }
        out.insert(pos, item);
        m += 1;
    }
    proof {
        reveal(taken_from);
        reveal(covers);
        reveal(distinct_values);
        reveal(sorted_by_count);
        assert forall|i: int| 0 <= i < out@.len() implies vs.contains((#[trigger] out@[i]).value@)
            && out@[i].count == count_in(vs, out@[i].value@) by {
            let c = choose|c: int|
                0 <= c < m && (#[trigger] out@[i]).value@ == cs[c].value@ && out@[i].count == cs[c].count;
        }
        assert forall|v: Seq<char>| vs.contains(v) implies exists|i: int|
            0 <= i < out@.len() && (#[trigger] out@[i]).value@ == v by {
            let c = choose|c: int| 0 <= c < cs.len() && (#[trigger] cs[c]).value@ == v;
            let i = choose|i: int| 0 <= i < out@.len() && (#[trigger] out@[i]).value@ == cs[c].value@;
        }
    }
    out
}

/// The sources of the documents, one per document.
pub open spec fn source_values(docs: Seq<Document>) -> Seq<Seq<char>> {
    Seq::new(docs.len(), |i: int| docs[i].source@)
}

/// The authors of the documents that name a non-empty one.
pub open spec fn author_values(docs: Seq<Document>) -> Seq<Seq<char>>
    decreases docs.len(),
{
    if docs.len() == 0 {
        Seq::empty()
    } else {
        author_values(docs.drop_last()) + match docs.last().author {
            Some(a) => if a@.len() > 0 {
                seq![a@]
            } else {
                Seq::<Seq<char>>::empty()
            },
            None => Seq::<Seq<char>>::empty(),
        }
    }
}

/// The tags of the documents, each occurrence once.
pub open spec fn tag_values(docs: Seq<Document>) -> Seq<Seq<char>>
    decreases docs.len(),
{
    if docs.len() == 0 {
        Seq::empty()
    } else {
        tag_values(docs.drop_last()) + strings_view(docs.last().tags@)
    }
}

/// The facets of a page of documents: sources, non-empty authors and tags,
/// each as `buckets_of` states.
pub fn compute_facets(docs: &Vec<Document>) -> (f: Facets)
    ensures
        buckets_of(source_values(docs@), f.source@),
        buckets_of(author_values(docs@), f.author@),
        buckets_of(tag_values(docs@), f.tags@),
{
    let mut sources: Vec<String> = Vec::new();
    let mut authors: Vec<String> = Vec::new();
    let mut tags: Vec<String> = Vec::new();
    let mut k: usize = 0;
    assert(docs@.take(0) =~= Seq::<Document>::empty());
    assert(strings_view(sources@) =~= Seq::<Seq<char>>::empty());
    assert(strings_view(authors@) =~= Seq::<Seq<char>>::empty());
    assert(strings_view(tags@) =~= Seq::<Seq<char>>::empty());
    while k < docs.len()
        invariant
            k <= docs@.len(),
            strings_view(sources@) == source_values(docs@.take(k as int)),
            strings_view(authors@) == author_values(docs@.take(k as int)),
            strings_view(tags@) == tag_values(docs@.take(k as int)),
        decreases docs@.len() - k,
    {
        let ghost prefix = docs@.take(k + 1);
        assert(prefix.drop_last() =~= docs@.take(k as int));
        assert(prefix.last() == docs@[k as int]);
        let doc = &docs[k];
        let s = doc.source.clone();
        proof {
            lemma_strings_push(sources@, s);
        }
        sources.push(s);
        assert(strings_view(sources@) =~= source_values(prefix));
        let ghost a0 = strings_view(authors@);
        match &doc.author {
            Some(a) => {
                if a.as_str().unicode_len() > 0 {
                    let item = a.clone();
                    proof {
                        lemma_strings_push(authors@, item);
                    }
                    authors.push(item);
                }
            },
            None => {},
        }
        assert(strings_view(authors@) =~= author_values(prefix));
        let ghost t0 = strings_view(tags@);
        let mut j: usize = 0;
        while j < doc.tags.len()
            invariant
                j <= doc.tags@.len(),
                strings_view(tags@) == t0 + strings_view(doc.tags@).take(j as int),
            decreases doc.tags@.len() - j,
        {
            let item = doc.tags[j].clone();
            proof {
                lemma_strings_push(tags@, item);
            }
            tags.push(item);
            j += 1;
            assert(strings_view(tags@) =~= t0 + strings_view(doc.tags@).take(j as int));
        }
        assert(strings_view(doc.tags@).take(j as int) =~= strings_view(doc.tags@));
        k += 1;
    }
    assert(docs@.take(k as int) =~= docs@);
    Facets {
        source: facet_buckets(&sources),
        author: facet_buckets(&authors),
        tags: facet_buckets(&tags),
    }
}

} // verus!

verus! {

/// Adding a document first removes what matches its replace query, which asks
/// for exactly the source and source id that the document itself is indexed
/// under; so a document replaces its earlier versions, and only them.
pub proof fn law_replace_query_is_document_key(d: Document)
    ensures
        document_entries(d)[FIELD_SOURCE as int] == (FIELD_SOURCE as nat, IndexValueView::Text(d.source@)),
        document_entries(d)[FIELD_SOURCE_ID as int] == (
            FIELD_SOURCE_ID as nat,
            IndexValueView::Text(d.source_id@),
        ),
        same_document_query(d) == (QueryView::Boolean {
            clauses: seq![
                (Occur::Must, QueryView::Term { field: FIELD_SOURCE as nat, text: d.source@, positions: false }),
                (Occur::Must, QueryView::Term { field: FIELD_SOURCE_ID as nat, text: d.source_id@, positions: false }),
            ],
        }),
{
}

/// The value a stored value stands for, when it is text or a number.
pub open spec fn stored_value_view(v: StoredValue) -> Option<IndexValueView> {
    match v {
        StoredValue::Str(s) => Some(IndexValueView::Text(s@)),
        StoredValue::I64(n) => Some(IndexValueView::I64(n)),
        StoredValue::Other => None,
    }
}

/// The values that `es` gives field `f`, in order.
pub open spec fn field_entries(es: Seq<(nat, IndexValueView)>, f: nat) -> Seq<IndexValueView>
    decreases es.len(),
{
    if es.len() == 0 {
        Seq::empty()
    } else {
        field_entries(es.drop_last(), f) + if es.last().0 == f {
            seq![es.last().1]
        } else {
            Seq::<IndexValueView>::empty()
        }
    }
}

/// Whether the stored entry `sd` holds, field by field and in order, the
/// values `es` gave the ten fields of the schema.
pub open spec fn stores(sd: StoredDoc, es: Seq<(nat, IndexValueView)>) -> bool {
    &&& sd.fields@.len() == 10
    &&& forall|f: int|
        0 <= f < 10 ==> (#[trigger] sd.fields@[f])@.len() == field_entries(es, f as nat).len()
            && forall|j: int|
            0 <= j < sd.fields@[f]@.len() ==> stored_value_view(#[trigger] sd.fields@[f]@[j])
                == Some(field_entries(es, f as nat)[j])
}

proof fn lemma_field_entries_concat(x: Seq<(nat, IndexValueView)>, y: Seq<(nat, IndexValueView)>, f: nat)
    ensures
        field_entries(x + y, f) == field_entries(x, f) + field_entries(y, f),
    decreases y.len(),
{
    if y.len() == 0 {
        assert(x + y =~= x);
        assert(field_entries(x, f) + field_entries(y, f) =~= field_entries(x, f));
    } else {
        assert((x + y).drop_last() =~= x + y.drop_last());
        lemma_field_entries_concat(x, y.drop_last(), f);
        assert(field_entries(x + y, f) =~= field_entries(x, f) + field_entries(y, f));
    }
}

proof fn lemma_field_entries_tags(tags: Seq<String>, n: nat, f: nat)
    requires
        n <= tags.len(),
    ensures
        field_entries(
            Seq::new(n, |i: int| (FIELD_TAGS as nat, IndexValueView::Text(tags[i]@))),
            f,
        ) == if f == FIELD_TAGS as nat {
            Seq::new(n, |i: int| IndexValueView::Text(tags[i]@))
        } else {
            Seq::<IndexValueView>::empty()
        },
    decreases n,
{
    let s = Seq::new(n, |i: int| (FIELD_TAGS as nat, IndexValueView::Text(tags[i]@)));
    if n > 0 {
        assert(s.drop_last() =~= Seq::new(
            (n - 1) as nat,
            |i: int| (FIELD_TAGS as nat, IndexValueView::Text(tags[i]@)),
        ));
        lemma_field_entries_tags(tags, (n - 1) as nat, f);
        if f == FIELD_TAGS as nat {
            assert(field_entries(s, f) =~= Seq::new(n, |i: int| IndexValueView::Text(tags[i]@)));
        } else {
            assert(field_entries(s, f) =~= Seq::<IndexValueView>::empty());
        }
    } else {
        assert(s =~= Seq::<(nat, IndexValueView)>::empty());
    }
}

proof fn lemma_texts_of(vals: Seq<StoredValue>, ts: Seq<Seq<char>>)
    requires
        vals.len() == ts.len(),
        forall|j: int| 0 <= j < vals.len() ==> stored_value_view(#[trigger] vals[j]) == Some(IndexValueView::Text(ts[j])),
    ensures
        texts_of(vals) == ts,
    decreases vals.len(),
{
    if vals.len() > 0 {
        assert(stored_value_view(vals[vals.len() - 1]) == Some(IndexValueView::Text(ts[ts.len() - 1])));
        lemma_texts_of(vals.drop_last(), ts.drop_last());
        assert(texts_of(vals) =~= ts);
    } else {
        assert(ts =~= Seq::<Seq<char>>::empty());
    }
}

/// What is read back is what was written: when a stored entry holds the
/// values a document gave the index, reading it gives the document again,
/// save that a missing url or author comes back as empty text. Times come
/// back as their whole seconds where they are within the range of dates.
pub proof fn law_read_back_what_was_written(sd: StoredDoc, d: Document, r: Document)
    requires
        stores(sd, document_entries(d)),
        timestamp_in_range(d.created_at.secs),
        timestamp_in_range(d.updated_at.secs),
        document_from_stored(sd, r),
    ensures
        r.source@ == d.source@,
        r.source_id@ == d.source_id@,
        r.title@ == d.title@,
        r.content@ == d.content@,
        opt_view(r.url) == Some(or_empty(d.url)),
        opt_view(r.author) == Some(or_empty(d.author)),
        r.created_at == (Timestamp { secs: d.created_at.secs, nanos: 0 }),
        r.updated_at == (Timestamp { secs: d.updated_at.secs, nanos: 0 }),
        strings_view(r.tags@) == strings_view(d.tags@),
        opt_view(r.project) == opt_view(d.project),
{
    let head = seq![
        (FIELD_SOURCE as nat, IndexValueView::Text(d.source@)),
        (FIELD_SOURCE_ID as nat, IndexValueView::Text(d.source_id@)),
        (FIELD_TITLE as nat, IndexValueView::Text(d.title@)),
        (FIELD_CONTENT as nat, IndexValueView::Text(d.content@)),
        (FIELD_URL as nat, IndexValueView::Text(or_empty(d.url))),
        (FIELD_AUTHOR as nat, IndexValueView::Text(or_empty(d.author))),
        (FIELD_CREATED_AT as nat, IndexValueView::I64(d.created_at.secs)),
        (FIELD_UPDATED_AT as nat, IndexValueView::I64(d.updated_at.secs)),
    ];
    let tags = Seq::new(d.tags@.len(), |i: int| (FIELD_TAGS as nat, IndexValueView::Text(d.tags@[i]@)));
    let proj = match d.project {
        Some(p) => seq![(FIELD_PROJECT as nat, IndexValueView::Text(p@))],
        None => Seq::<(nat, IndexValueView)>::empty(),
    };
    let es = document_entries(d);
    assert(es == head + tags + proj);
    assert forall|f: nat| f < 10 implies #[trigger] field_entries(es, f) == field_entries(head, f)
        + field_entries(tags, f) + field_entries(proj, f) by {
        lemma_field_entries_concat(head + tags, proj, f);
        lemma_field_entries_concat(head, tags, f);
    }
    assert forall|f: nat| f < 10 implies #[trigger] field_entries(tags, f) == if f == FIELD_TAGS as nat {
        Seq::new(d.tags@.len(), |i: int| IndexValueView::Text(d.tags@[i]@))
    } else {
        Seq::<IndexValueView>::empty()
    } by {
        lemma_field_entries_tags(d.tags@, d.tags@.len(), f);
    }
    reveal_with_fuel(field_entries, 9);
    assert(field_entries(proj, 9) == proj.map_values(|e: (nat, IndexValueView)| e.1));
    let h = |f: nat| field_entries(head, f);
    assert(h(0) =~= seq![IndexValueView::Text(d.source@)]);
    assert(h(1) =~= seq![IndexValueView::Text(d.source_id@)]);
    assert(h(2) =~= seq![IndexValueView::Text(d.title@)]);
    assert(h(3) =~= seq![IndexValueView::Text(d.content@)]);
    assert(h(4) =~= seq![IndexValueView::Text(or_empty(d.url))]);
    assert(h(5) =~= seq![IndexValueView::Text(or_empty(d.author))]);
    assert(h(6) =~= seq![IndexValueView::I64(d.created_at.secs)]);
    assert(h(7) =~= seq![IndexValueView::I64(d.updated_at.secs)]);
    assert(h(8) =~= Seq::<IndexValueView>::empty());
    assert(h(9) =~= Seq::<IndexValueView>::empty());
    assert forall|f: nat| f < 9 implies #[trigger] field_entries(proj, f) == Seq::<IndexValueView>::empty() by {
        reveal_with_fuel(field_entries, 2);
    }
    // Field by field.
    assert(field_entries(es, 0) =~= seq![IndexValueView::Text(d.source@)]);
    assert(sd.fields@[0]@.len() == 1);
    assert(stored_value_view(sd.fields@[0]@[0]) == Some(IndexValueView::Text(d.source@)));
    assert(field_entries(es, 1) =~= seq![IndexValueView::Text(d.source_id@)]);
    assert(stored_value_view(sd.fields@[1]@[0]) == Some(IndexValueView::Text(d.source_id@)));
    assert(field_entries(es, 2) =~= seq![IndexValueView::Text(d.title@)]);
    assert(stored_value_view(sd.fields@[2]@[0]) == Some(IndexValueView::Text(d.title@)));
    assert(field_entries(es, 3) =~= seq![IndexValueView::Text(d.content@)]);
    assert(stored_value_view(sd.fields@[3]@[0]) == Some(IndexValueView::Text(d.content@)));
    assert(field_entries(es, 4) =~= seq![IndexValueView::Text(or_empty(d.url))]);
    assert(stored_value_view(sd.fields@[4]@[0]) == Some(IndexValueView::Text(or_empty(d.url))));
    assert(field_entries(es, 5) =~= seq![IndexValueView::Text(or_empty(d.author))]);
    assert(stored_value_view(sd.fields@[5]@[0]) == Some(IndexValueView::Text(or_empty(d.author))));
    assert(field_entries(es, 6) =~= seq![IndexValueView::I64(d.created_at.secs)]);
    assert(stored_value_view(sd.fields@[6]@[0]) == Some(IndexValueView::I64(d.created_at.secs)));
    assert(field_entries(es, 7) =~= seq![IndexValueView::I64(d.updated_at.secs)]);
    assert(stored_value_view(sd.fields@[7]@[0]) == Some(IndexValueView::I64(d.updated_at.secs)));
    let tv = Seq::new(d.tags@.len(), |i: int| IndexValueView::Text(d.tags@[i]@));
    assert(field_entries(es, 8) =~= tv);
    assert(sd.fields@[8]@.len() == d.tags@.len());
    assert forall|j: int| 0 <= j < sd.fields@[8]@.len() implies stored_value_view(#[trigger] sd.fields@[8]@[j])
        == Some(IndexValueView::Text(strings_view(d.tags@)[j])) by {
        assert(field_entries(es, 8)[j] == tv[j]);
    }
    lemma_texts_of(sd.fields@[8]@, strings_view(d.tags@));
    match d.project {
        Some(p) => {
            assert(field_entries(es, 9) =~= seq![IndexValueView::Text(p@)]);
            assert(stored_value_view(sd.fields@[9]@[0]) == Some(IndexValueView::Text(p@)));
        },
        None => {
            assert(field_entries(es, 9) =~= Seq::<IndexValueView>::empty());
        },
    }
}

} // verus!

verus! {

// ---------------------------------------------------------------------------
// Writing documents: what the index holds after a run of writes.

/// Whether the entries `es` hold the text `t` in field `f`.
pub open spec fn holds_text(es: Seq<(nat, IndexValueView)>, f: nat, t: Seq<char>) -> bool {
    exists|i: int| 0 <= i < es.len() && es[i] == (f, IndexValueView::Text(t))
}

/// Whether a delete by the query `q`, made of required terms on untokenized
/// fields, removes the entries `es`: every clause is a required term whose
/// text the entries hold in its field.
pub open spec fn key_query_hits(q: QueryView, es: Seq<(nat, IndexValueView)>) -> bool {
    match q {
        QueryView::Boolean { clauses } => forall|i: int|
            0 <= i < clauses.len() ==> {
                &&& (#[trigger] clauses[i]).0 == Occur::Must
                &&& clauses[i].1 matches QueryView::Term { field, text, .. } && holds_text(es, field, text)
            },
        _ => false,
    }
}

/// Whether two documents have the same key: source and source id.
pub open spec fn same_key(a: Document, b: Document) -> bool {
    a.source@ == b.source@ && a.source_id@ == b.source_id@
}

/// The index entries of each document, in order.
pub open spec fn entries_of(s: Seq<Document>) -> Seq<Seq<(nat, IndexValueView)>> {
    Seq::new(s.len(), |i: int| document_entries(s[i]))
}

/// The entry lists of `held` that the query `q` does not hit, in order.
pub open spec fn not_hit(held: Seq<Seq<(nat, IndexValueView)>>, q: QueryView) -> Seq<Seq<(nat, IndexValueView)>>
    decreases held.len(),
{
    if held.len() == 0 {
        held
    } else {
        let rest = not_hit(held.drop_last(), q);
        if key_query_hits(q, held.last()) {
            rest
        } else {
            rest.push(held.last())
        }
    }
}

/// What the index holds after writing `docs` in order onto `held`: each write
/// deletes the entries that the document's replace query hits, then adds the
/// document's entries.
pub open spec fn index_after_writes(
    held: Seq<Seq<(nat, IndexValueView)>>,
    docs: Seq<Document>,
) -> Seq<Seq<(nat, IndexValueView)>>
    decreases docs.len(),
{
    if docs.len() == 0 {
        held
    } else {
        let d = docs.last();
        not_hit(index_after_writes(held, docs.drop_last()), same_document_query(d)).push(document_entries(d))
    }
}

/// The documents of `s` whose key differs from `d`'s, in order.
pub open spec fn other_keys(s: Seq<Document>, d: Document) -> Seq<Document>
    decreases s.len(),
{
    if s.len() == 0 {
        s
    } else {
        let rest = other_keys(s.drop_last(), d);
        if same_key(s.last(), d) {
            rest
        } else {
            rest.push(s.last())
        }
    }
}

/// The documents of `s` with `k`'s key, in order.
pub open spec fn with_key(s: Seq<Document>, k: Document) -> Seq<Document>
    decreases s.len(),
{
    if s.len() == 0 {
        s
    } else {
        let rest = with_key(s.drop_last(), k);
        if same_key(s.last(), k) {
            rest.push(s.last())
        } else {
            rest
        }
    }
}

/// The documents held after writing `docs` in order onto `held`, each write
/// replacing the held documents of its key.
pub open spec fn written(held: Seq<Document>, docs: Seq<Document>) -> Seq<Document>
    decreases docs.len(),
{
    if docs.len() == 0 {
        held
    } else {
        other_keys(written(held, docs.drop_last()), docs.last()).push(docs.last())
    }
}

/// The last document of `docs` with `k`'s key, if there is one.
pub open spec fn last_with_key(docs: Seq<Document>, k: Document) -> Option<Document>
    decreases docs.len(),
{
    if docs.len() == 0 {
        None
    } else if same_key(docs.last(), k) {
        Some(docs.last())
    } else {
        last_with_key(docs.drop_last(), k)
    }
}

proof fn lemma_holds_key_fields(x: Document, t: Seq<char>)
    ensures
        holds_text(document_entries(x), FIELD_SOURCE as nat, t) == (x.source@ == t),
        holds_text(document_entries(x), FIELD_SOURCE_ID as nat, t) == (x.source_id@ == t),
{
    let es = document_entries(x);
    let n = x.tags@.len() as int;
    assert forall|i: int| 0 <= i < es.len() && 8 <= i implies es[i].0 >= FIELD_TAGS as nat by {
        if i < 8 + n {
            assert(es[i] == (FIELD_TAGS as nat, IndexValueView::Text(x.tags@[i - 8]@)));
        } else {
            assert(x.project is Some);
            assert(es[i].0 == FIELD_PROJECT as nat);
        }
    }
    assert(es[0] == (FIELD_SOURCE as nat, IndexValueView::Text(x.source@)));
    assert(es[1] == (FIELD_SOURCE_ID as nat, IndexValueView::Text(x.source_id@)));
    assert(es[2].0 == 2 && es[3].0 == 3 && es[4].0 == 4 && es[5].0 == 5 && es[6].0 == 6 && es[7].0 == 7);
    if holds_text(es, FIELD_SOURCE as nat, t) {
        let i = choose|i: int| 0 <= i < es.len() && es[i] == (FIELD_SOURCE as nat, IndexValueView::Text(t));
        assert(i == 0);
    }
    if holds_text(es, FIELD_SOURCE_ID as nat, t) {
        let i = choose|i: int| 0 <= i < es.len() && es[i] == (FIELD_SOURCE_ID as nat, IndexValueView::Text(t));
        assert(i == 1);
    }
}

/// A document's replace query hits the entries of exactly the documents
/// with its key.
pub proof fn law_replace_query_hits_same_key(d: Document, x: Document)
    ensures
        key_query_hits(same_document_query(d), document_entries(x)) == same_key(x, d),
{
    lemma_holds_key_fields(x, d.source@);
    lemma_holds_key_fields(x, d.source_id@);
    let q = same_document_query(d);
    let cs = q->clauses;
    if same_key(x, d) {
        assert forall|i: int| 0 <= i < cs.len() implies {
            &&& (#[trigger] cs[i]).0 == Occur::Must
            &&& cs[i].1 matches QueryView::Term { field, text, .. } && holds_text(document_entries(x), field, text)
        } by {
            if i == 0 {
                assert(holds_text(document_entries(x), FIELD_SOURCE as nat, d.source@));
            } else {
                assert(holds_text(document_entries(x), FIELD_SOURCE_ID as nat, d.source_id@));
            }
        }
    } else {
        if key_query_hits(q, document_entries(x)) {
            assert(cs[0].1 matches QueryView::Term { field, text, .. } && holds_text(document_entries(x), field, text));
            assert(cs[1].1 matches QueryView::Term { field, text, .. } && holds_text(document_entries(x), field, text));
        }
    }
}

proof fn lemma_not_hit_is_other_keys(s: Seq<Document>, d: Document)
    ensures
        not_hit(entries_of(s), same_document_query(d)) == entries_of(other_keys(s, d)),
    decreases s.len(),
{
    if s.len() > 0 {
        let r = s.drop_last();
        lemma_not_hit_is_other_keys(r, d);
        assert(entries_of(s).drop_last() =~= entries_of(r));
        law_replace_query_hits_same_key(d, s.last());
        if !same_key(s.last(), d) {
            assert(entries_of(other_keys(r, d).push(s.last())) =~= entries_of(other_keys(r, d)).push(
                document_entries(s.last()),
            ));
        }
    }
}

proof fn lemma_index_follows_documents(held: Seq<Document>, docs: Seq<Document>)
    ensures
        index_after_writes(entries_of(held), docs) == entries_of(written(held, docs)),
    decreases docs.len(),
{
    if docs.len() > 0 {
        let d = docs.last();
        let w = written(held, docs.drop_last());
        lemma_index_follows_documents(held, docs.drop_last());
        lemma_not_hit_is_other_keys(w, d);
        assert(entries_of(other_keys(w, d).push(d)) =~= entries_of(other_keys(w, d)).push(document_entries(d)));
    }
}

proof fn lemma_with_key_of_others(s: Seq<Document>, d: Document, k: Document)
    ensures
        same_key(d, k) ==> with_key(other_keys(s, d), k) == Seq::<Document>::empty(),
        !same_key(d, k) ==> with_key(other_keys(s, d), k) == with_key(s, k),
    decreases s.len(),
{
    if s.len() > 0 {
        let r = s.drop_last();
        lemma_with_key_of_others(r, d, k);
        let o = other_keys(r, d);
        if !same_key(s.last(), d) {
            assert(o.push(s.last()).drop_last() =~= o);
            assert(o.push(s.last()).last() == s.last());
        }
    }
}

proof fn lemma_one_per_key(held: Seq<Document>, docs: Seq<Document>, k: Document)
    ensures
        match last_with_key(docs, k) {
            Some(d) => with_key(written(held, docs), k) == seq![d],
            None => with_key(written(held, docs), k) == with_key(held, k),
        },
    decreases docs.len(),
{
    if docs.len() > 0 {
        let d = docs.last();
        let w = written(held, docs.drop_last());
        lemma_one_per_key(held, docs.drop_last(), k);
        lemma_with_key_of_others(w, d, k);
        let o = other_keys(w, d);
        assert(o.push(d).drop_last() =~= o);
        assert(o.push(d).last() == d);
        if same_key(d, k) {
            assert(Seq::<Document>::empty().push(d) =~= seq![d]);
        }
    }
}

/// Writing documents keeps one document per key, the last written: after
/// writing `docs` in order onto an index holding the documents `held` (each
/// write deleting what the document's replace query hits, then adding the
/// document's entries), the index holds the entries of `written(held, docs)`;
/// there, the documents with `k`'s key are the last document of `docs` with
/// that key alone, or, when `docs` has none, those `held` had, unchanged.
pub proof fn law_writes_keep_last_document_per_key(held: Seq<Document>, docs: Seq<Document>, k: Document)
    ensures
        index_after_writes(entries_of(held), docs) == entries_of(written(held, docs)),
        match last_with_key(docs, k) {
            Some(d) => with_key(written(held, docs), k) == seq![d],
            None => with_key(written(held, docs), k) == with_key(held, k),
        },
{
    lemma_index_follows_documents(held, docs);
    lemma_one_per_key(held, docs, k);
}

} // verus!
