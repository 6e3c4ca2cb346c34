//! The query tree that the query parser produces and the index evaluates.
use vstd::prelude::*;

verus! {

/// How a clause of a boolean query takes part in a match.
#[derive(Clone, Copy, PartialEq, Eq, Debug, Structural)]
pub enum Occur {
    Should,
    Must,
    MustNot,
}

/// A query over the index. Fields are named by their position in the schema.
#[derive(Debug, PartialEq, Eq)]
pub enum QueryNode {
    /// Matches every document.
    All,
    /// Matches no document.
    Empty,
    /// Documents whose `field` holds the term `text`; `positions` asks for
    /// frequencies and positions to be read too.
    Term { field: usize, text: String, positions: bool },
    /// Documents whose `field` holds `words` at consecutive positions.
    Phrase { field: usize, words: Vec<String> },
    /// Documents whose `field` holds a term within `distance` edits of a
    /// prefix of `text`, a transposition counting as one edit.
    FuzzyPrefix { field: usize, text: String, distance: u8 },
    /// `query` with its score multiplied by `factor`.
    Boost { query: Box<QueryNode>, factor: u32 },
    /// A combination of clauses.
    Boolean { clauses: Vec<(Occur, QueryNode)> },
    /// Documents whose i64 field `field_name` lies within the inclusive bounds
    /// that are given.
    Range { field_name: String, lower: Option<i64>, upper: Option<i64> },
}

/// The mathematical value of a `QueryNode`.
pub enum QueryView {
    All,
    Empty,
    Term { field: nat, text: Seq<char>, positions: bool },
    Phrase { field: nat, words: Seq<Seq<char>> },
    FuzzyPrefix { field: nat, text: Seq<char>, distance: u8 },
    Boost { query: Box<QueryView>, factor: u32 },
    Boolean { clauses: Seq<(Occur, QueryView)> },
    Range { field_name: Seq<char>, lower: Option<i64>, upper: Option<i64> },
}

pub open spec fn strings_view(v: Seq<String>) -> Seq<Seq<char>> {
    Seq::new(v.len(), |i: int| v[i]@)
}

/// The value of a query, field by field.
pub open spec fn query_view(q: QueryNode) -> QueryView
    decreases q,
{
    match q {
        QueryNode::All => QueryView::All,
        QueryNode::Empty => QueryView::Empty,
        QueryNode::Term { field, text, positions } => QueryView::Term {
            field: field as nat,
            text: text@,
            positions,
        },
        QueryNode::Phrase { field, words } => QueryView::Phrase {
            field: field as nat,
            words: strings_view(words@),
        },
        QueryNode::FuzzyPrefix { field, text, distance } => QueryView::FuzzyPrefix {
            field: field as nat,
            text: text@,
            distance,
        },
        QueryNode::Boost { query, factor } => QueryView::Boost {
            query: Box::new(query_view(*query)),
            factor,
        },
        QueryNode::Boolean { clauses } => QueryView::Boolean {
            clauses: Seq::new(
                clauses@.len(),
                |i: int|
                    if 0 <= i < clauses@.len() {
                        (clauses@[i].0, query_view(clauses@[i].1))
                    } else {
                        (Occur::Should, QueryView::All)
                    },
            ),
        },
        QueryNode::Range { field_name, lower, upper } => QueryView::Range {
            field_name: field_name@,
            lower,
            upper,
        },
    }
}

impl View for QueryNode {
    type V = QueryView;

    open spec fn view(&self) -> QueryView {
        query_view(*self)
    }
}

/// The value of a list of clauses.
pub open spec fn clauses_view(v: Seq<(Occur, QueryNode)>) -> Seq<(Occur, QueryView)> {
    Seq::new(v.len(), |i: int| (v[i].0, v[i].1@))
}

/// The value of a list of queries.
pub open spec fn queries_view(v: Seq<QueryNode>) -> Seq<QueryView> {
    Seq::new(v.len(), |i: int| v[i]@)
}

/// A boolean query over `clauses`.
pub fn boolean(clauses: Vec<(Occur, QueryNode)>) -> (q: QueryNode)
    ensures
        q@ == (QueryView::Boolean { clauses: clauses_view(clauses@) }),
{
    let ghost c = clauses@;
    let q = QueryNode::Boolean { clauses };
    assert(q@->clauses.len() == c.len());
    assert forall|i: int| 0 <= i < c.len() implies #[trigger] q@->clauses[i] == clauses_view(c)[i] by {
        assert(q@->clauses[i] == (c[i].0, c[i].1@));
    }
    assert(q@->clauses =~= clauses_view(c));
    q
}

/// `clauses` as the value of a list grows by one clause.
pub proof fn lemma_clauses_push(v: Seq<(Occur, QueryNode)>, x: (Occur, QueryNode))
    ensures
        clauses_view(v.push(x)) == clauses_view(v).push((x.0, x.1@)),
{
    assert(clauses_view(v.push(x)) =~= clauses_view(v).push((x.0, x.1@)));
}

/// The value of a list of strings as it grows by one.
pub proof fn lemma_strings_push(v: Seq<String>, x: String)
    ensures
        strings_view(v.push(x)) == strings_view(v).push(x@),
{
    assert(strings_view(v.push(x)) =~= strings_view(v).push(x@));
}

} // verus!
