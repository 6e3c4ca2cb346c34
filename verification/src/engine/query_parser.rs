//! The search query language.
//!
//! A query string is read into tokens: bare words, `"quoted phrases"`,
//! `word~N` fuzzy terms, `field:value` terms, the operators `AND`, `OR` and
//! `NOT` (in any letter case) and parentheses. The tokens then become one
//! query: a word or phrase searches the title, content, tags and author
//! fields (title weighted 3, tags 2), `AND` makes the next term required,
//! `OR` optional, and `NOT` excludes the term that follows. Filters on source,
//! author, tags and update time are added as required clauses.
use vstd::prelude::*;
use crate::text::{is_ws, is_whitespace, trim, ascii_upper_code, trim_end_char, eq_upper, equals_upper, chars_of, string_from_chars, to_owned_string, sub_chars, substring, str_equal, trim_str};
use crate::engine::query::{Occur, QueryNode, QueryView, strings_view, clauses_view, queries_view, boolean, lemma_clauses_push, lemma_strings_push};
use crate::engine::analyzer::{search_words, jieba_search_words};
use crate::engine::index_manager::{IndexSchema, field_index};
use crate::api::search::SearchFilters;

verus! {

broadcast use vstd::string::group_string_axioms;

/// A token of the query language.
#[derive(Debug, Clone, PartialEq, Eq)]
pub enum QueryToken {
    Term(String),
    Phrase(String),
    Fuzzy(String, u8),
    Field(String, String),
    And,
    Or,
    Not,
    LParen,
    RParen,
}

/// The mathematical value of a token.
pub enum TokenView {
    Term(Seq<char>),
    Phrase(Seq<char>),
    Fuzzy(Seq<char>, u8),
    Field(Seq<char>, Seq<char>),
    And,
    Or,
    Not,
    LParen,
    RParen,
}

impl View for QueryToken {
    type V = TokenView;

    open spec fn view(&self) -> TokenView {
        match self {
            QueryToken::Term(t) => TokenView::Term(t@),
            QueryToken::Phrase(p) => TokenView::Phrase(p@),
            QueryToken::Fuzzy(t, d) => TokenView::Fuzzy(t@, *d),
            QueryToken::Field(f, v) => TokenView::Field(f@, v@),
            QueryToken::And => TokenView::And,
            QueryToken::Or => TokenView::Or,
            QueryToken::Not => TokenView::Not,
            QueryToken::LParen => TokenView::LParen,
            QueryToken::RParen => TokenView::RParen,
        }
    }
}

pub open spec fn tokens_view(v: Seq<QueryToken>) -> Seq<TokenView> {
    Seq::new(v.len(), |i: int| v[i]@)
}

pub open spec fn is_digit(c: char) -> bool {
    48 <= (c as u32) <= 57
}

/// The characters that end a bare word.
pub open spec fn is_word_stop(c: char) -> bool {
    is_ws(c) || c == '"' || c == '(' || c == ')' || c == '~'
}

/// The first position from `j` on that holds `c`, or the length of `s`.
pub open spec fn find_char_from(s: Seq<char>, c: char, j: int) -> int
    decreases s.len() - j,
{
    if j < 0 || j >= s.len() {
        s.len() as int
    } else if s[j] == c {
        j
    } else {
        find_char_from(s, c, j + 1)
    }
}

/// The first position from `j` on that ends a bare word, or the length of `s`.
pub open spec fn word_end(s: Seq<char>, j: int) -> int
    decreases s.len() - j,
{
    if j < 0 || j >= s.len() {
        s.len() as int
    } else if is_word_stop(s[j]) {
        j
    } else {
        word_end(s, j + 1)
    }
}

/// The first position from `j` on that is not an ASCII digit, or the length of `s`.
pub open spec fn digits_end(s: Seq<char>, j: int) -> int
    decreases s.len() - j,
{
    if j < 0 || j >= s.len() {
        s.len() as int
    } else if is_digit(s[j]) {
        digits_end(s, j + 1)
    } else {
        j
    }
}

pub proof fn lemma_find_char_bounds(s: Seq<char>, c: char, j: int)
    requires
        0 <= j <= s.len(),
    ensures
        j <= find_char_from(s, c, j) <= s.len(),
        find_char_from(s, c, j) < s.len() ==> s[find_char_from(s, c, j)] == c,
        forall|k: int| j <= k < find_char_from(s, c, j) ==> s[k] != c,
    decreases s.len() - j,
{
    if j < s.len() && s[j] != c {
        lemma_find_char_bounds(s, c, j + 1);
    }
}

pub proof fn lemma_word_end_bounds(s: Seq<char>, j: int)
    requires
        0 <= j <= s.len(),
    ensures
        j <= word_end(s, j) <= s.len(),
    decreases s.len() - j,
{
    if j < s.len() && !is_word_stop(s[j]) {
        lemma_word_end_bounds(s, j + 1);
    }
}

pub proof fn lemma_digits_end_bounds(s: Seq<char>, j: int)
    requires
        0 <= j <= s.len(),
    ensures
        j <= digits_end(s, j) <= s.len(),
        forall|k: int| j <= k < digits_end(s, j) ==> is_digit(s[k]),
    decreases s.len() - j,
{
    if j < s.len() && is_digit(s[j]) {
        lemma_digits_end_bounds(s, j + 1);
    }
}

/// The number that a string of ASCII digits spells in decimal.
pub open spec fn decimal_value(ds: Seq<char>) -> nat
    decreases ds.len(),
{
    if ds.len() == 0 {
        0
    } else {
        decimal_value(ds.drop_last()) * 10 + ((ds.last() as u32) - 48) as nat
    }
}

/// The edit distance that the digits after `~` give: their value when they
/// parse as a `u8`, and 2 otherwise.
pub open spec fn fuzzy_distance(ds: Seq<char>) -> u8 {
    if ds.len() > 0 && decimal_value(ds) <= 255 {
        decimal_value(ds) as u8
    } else {
        2
    }
}

/// The token that a bare word is: an operator, a `field:value` pair (split at
/// the first colon, when something follows it), or a term.
pub open spec fn classify_word(w: Seq<char>) -> TokenView {
    if eq_upper(w, "AND"@) {
        TokenView::And
    } else if eq_upper(w, "OR"@) {
        TokenView::Or
    } else if eq_upper(w, "NOT"@) {
        TokenView::Not
    } else {
        let k = find_char_from(w, ':', 0);
        if k + 1 < w.len() {
            TokenView::Field(w.subrange(0, k), w.subrange(k + 1, w.len() as int))
        } else {
            TokenView::Term(w)
        }
    }
}

/// `acc` with its last token made fuzzy with distance `d`, when it is a term.
pub open spec fn mark_fuzzy(acc: Seq<TokenView>, d: u8) -> Seq<TokenView> {
    if acc.len() > 0 {
        match acc.last() {
            TokenView::Term(t) => acc.update(acc.len() - 1, TokenView::Fuzzy(t, d)),
            _ => acc,
        }
    } else {
        acc
    }
}

/// The tokens of `s` from position `i` on, after the tokens `acc` already read.
pub open spec fn tokenize_from(s: Seq<char>, i: int, acc: Seq<TokenView>) -> Seq<TokenView>
    decreases s.len() - i,
{
    if i < 0 || i >= s.len() {
        acc
    } else if s[i] == '"' {
        let e = find_char_from(s, '"', i + 1);
        proof {
            lemma_find_char_bounds(s, '"', i + 1);
        }
        let phrase = s.subrange(i + 1, e);
        let next = if e < s.len() {
            e + 1
        } else {
            e
        };
        tokenize_from(
            s,
            next,
            if phrase.len() > 0 {
                acc.push(TokenView::Phrase(phrase))
            } else {
                acc
            },
        )
    } else if s[i] == '(' {
        tokenize_from(s, i + 1, acc.push(TokenView::LParen))
    } else if s[i] == ')' {
        tokenize_from(s, i + 1, acc.push(TokenView::RParen))
    } else if s[i] == '~' {
        let e = digits_end(s, i + 1);
        proof {
            lemma_digits_end_bounds(s, i + 1);
        }
        tokenize_from(s, e, mark_fuzzy(acc, fuzzy_distance(s.subrange(i + 1, e))))
    } else if is_ws(s[i]) {
        tokenize_from(s, i + 1, acc)
    } else {
        let e = word_end(s, i + 1);
        proof {
            lemma_word_end_bounds(s, i + 1);
        }
        tokenize_from(s, e, acc.push(classify_word(s.subrange(i, e))))
    }
}

/// The tokens of a query string.
pub open spec fn tokenize(s: Seq<char>) -> Seq<TokenView> {
    tokenize_from(s, 0, Seq::empty())
}

// ---------------------------------------------------------------------------
// From tokens to a query.

pub open spec fn is_searchable(name: Seq<char>) -> bool {
    name == "title"@ || name == "content"@ || name == "tags"@ || name == "author"@
}

/// The searchable fields from position `i` on, in schema order.
pub open spec fn searchable_from(names: Seq<Seq<char>>, i: int) -> Seq<nat>
    decreases names.len() - i,
{
    if i < 0 || i >= names.len() {
        Seq::empty()
    } else if is_searchable(names[i]) {
        seq![i as nat] + searchable_from(names, i + 1)
    } else {
        searchable_from(names, i + 1)
    }
}

pub proof fn lemma_searchable_bounds(names: Seq<Seq<char>>, i: int)
    requires
        0 <= i,
    ensures
        forall|j: int|
            0 <= j < searchable_from(names, i).len() ==> i <= #[trigger] searchable_from(names, i)[j]
                < names.len(),
    decreases names.len() - i,
{
    if 0 <= i < names.len() {
        lemma_searchable_bounds(names, i + 1);
        let r = searchable_from(names, i + 1);
        if is_searchable(names[i]) {
            let t = seq![i as nat] + r;
            assert(searchable_from(names, i) == t);
            assert forall|j: int| 0 <= j < t.len() implies i <= #[trigger] t[j] < names.len() by {
                if j > 0 {
                    assert(t[j] == r[j - 1]);
                }
            }
        }
    }
}

/// The fields that a bare term or phrase searches, in schema order.
pub open spec fn searchable_fields(names: Seq<Seq<char>>) -> Seq<nat> {
    searchable_from(names, 0)
}

/// The weight of a match in the named field.
pub open spec fn field_boost(name: Seq<char>) -> u32 {
    if name == "title"@ {
        3
    } else if name == "tags"@ {
        2
    } else {
        1
    }
}

/// `q` on field `f`, boosted by that field's weight when it is not 1.
pub open spec fn with_boost(names: Seq<Seq<char>>, f: nat, q: QueryView) -> QueryView {
    if field_boost(names[f as int]) != 1 {
        QueryView::Boost { query: Box::new(q), factor: field_boost(names[f as int]) }
    } else {
        q
    }
}

/// Nothing for no clauses, the query itself for one, and their boolean
/// combination for more.
pub open spec fn combine(clauses: Seq<(Occur, QueryView)>) -> QueryView {
    if clauses.len() == 0 {
        QueryView::Empty
    } else if clauses.len() == 1 {
        clauses[0].1
    } else {
        QueryView::Boolean { clauses }
    }
}

pub open spec fn term_clauses(names: Seq<Seq<char>>, term: Seq<char>) -> Seq<(Occur, QueryView)> {
    let fs = searchable_fields(names);
    Seq::new(
        fs.len(),
        |i: int|
            (
                Occur::Should,
                with_boost(names, fs[i], QueryView::Term { field: fs[i], text: term, positions: true }),
            ),
    )
}

/// A bare term: the term in any searchable field.
pub open spec fn term_query(names: Seq<Seq<char>>, term: Seq<char>) -> QueryView {
    combine(term_clauses(names, term))
}

pub open spec fn phrase_clauses(names: Seq<Seq<char>>, words: Seq<Seq<char>>) -> Seq<
    (Occur, QueryView),
> {
    let fs = searchable_fields(names);
    Seq::new(
        fs.len(),
        |i: int| (Occur::Should, with_boost(names, fs[i], QueryView::Phrase { field: fs[i], words })),
    )
}

/// A quoted phrase: its words, as jieba segments them, in order in any
/// searchable field; nothing when it has no words.
pub open spec fn phrase_query(names: Seq<Seq<char>>, phrase: Seq<char>) -> QueryView {
    let words = jieba_search_words(phrase);
    if words.len() == 0 {
        QueryView::Empty
    } else {
        combine(phrase_clauses(names, words))
    }
}

pub open spec fn fuzzy_clauses(names: Seq<Seq<char>>, term: Seq<char>, d: u8) -> Seq<
    (Occur, QueryView),
> {
    let fs = searchable_fields(names);
    Seq::new(
        fs.len(),
        |i: int| (Occur::Should, QueryView::FuzzyPrefix { field: fs[i], text: term, distance: d }),
    )
}

/// A fuzzy term: close matches of the term in any searchable field.
pub open spec fn fuzzy_query(names: Seq<Seq<char>>, term: Seq<char>, d: u8) -> QueryView {
    combine(fuzzy_clauses(names, term, d))
}

pub open spec fn unknown_field_error(name: Seq<char>) -> Seq<char> {
    "Unknown field: "@ + name
}

/// A `field:value` pair: an error for a field the schema lacks; otherwise a
/// phrase when the value is quoted, a fuzzy term when it ends in `~`, and a
/// term otherwise.
pub open spec fn field_query(names: Seq<Seq<char>>, name: Seq<char>, value: Seq<char>) -> Result<
    QueryView,
    Seq<char>,
> {
    match field_index(names, name) {
        None => Err(unknown_field_error(name)),
        Some(f) => if value.len() >= 2 && value[0] == '"' && value.last() == '"' {
            let words = jieba_search_words(value.subrange(1, value.len() - 1));
            if words.len() == 0 {
                Ok(QueryView::Empty)
            } else {
                Ok(QueryView::Phrase { field: f, words })
            }
        } else if value.len() > 0 && value.last() == '~' {
            Ok(QueryView::FuzzyPrefix { field: f, text: trim_end_char(value, '~'), distance: 2 })
        } else {
            Ok(QueryView::Term { field: f, text: value, positions: true })
        },
    }
}

/// The query of one token; operators and parentheses match everything.
pub open spec fn token_query(names: Seq<Seq<char>>, t: TokenView) -> Result<QueryView, Seq<char>> {
    match t {
        TokenView::Term(term) => Ok(term_query(names, term)),
        TokenView::Phrase(p) => Ok(phrase_query(names, p)),
        TokenView::Fuzzy(term, d) => Ok(fuzzy_query(names, term, d)),
        TokenView::Field(f, v) => field_query(names, f, v),
        _ => Ok(QueryView::All),
    }
}

/// The clauses of the tokens from position `i` on, after the clauses `acc`,
/// with `occur` the role of the next term.
pub open spec fn clauses_from(
    names: Seq<Seq<char>>,
    toks: Seq<TokenView>,
    i: int,
    occur: Occur,
    acc: Seq<(Occur, QueryView)>,
) -> Result<Seq<(Occur, QueryView)>, Seq<char>>
    decreases toks.len() - i,
{
    if i < 0 || i >= toks.len() {
        Ok(acc)
    } else {
        match toks[i] {
            TokenView::And => clauses_from(names, toks, i + 1, Occur::Must, acc),
            TokenView::Or => clauses_from(names, toks, i + 1, Occur::Should, acc),
            TokenView::Not => if i + 1 < toks.len() {
                match token_query(names, toks[i + 1]) {
                    Err(e) => Err(e),
                    Ok(q) => clauses_from(names, toks, i + 2, occur, acc.push((Occur::MustNot, q))),
                }
            } else {
                clauses_from(names, toks, i + 1, occur, acc)
            },
            _ => match token_query(names, toks[i]) {
                Err(e) => Err(e),
                Ok(q) => clauses_from(names, toks, i + 1, Occur::Should, acc.push((occur, q))),
            },
        }
    }
}

/// The query of a token list.
pub open spec fn tokens_query(names: Seq<Seq<char>>, toks: Seq<TokenView>) -> Result<
    QueryView,
    Seq<char>,
> {
    if toks.len() == 0 {
        Ok(QueryView::All)
    } else {
        match clauses_from(names, toks, 0, Occur::Should, Seq::empty()) {
            Err(e) => Err(e),
            Ok(r) => if r.len() == 0 {
                Ok(QueryView::All)
            } else if r.len() == 1 {
                if r[0].0 == Occur::MustNot {
                    Ok(
                        QueryView::Boolean {
                            clauses: seq![(Occur::Must, QueryView::All), (Occur::MustNot, r[0].1)],
                        },
                    )
                } else {
                    Ok(r[0].1)
                }
            } else {
                Ok(QueryView::Boolean { clauses: r })
            },
        }
    }
}

/// The query of a query string; a blank string matches everything.
pub open spec fn string_query(names: Seq<Seq<char>>, s: Seq<char>) -> Result<QueryView, Seq<char>> {
    if trim(s).len() == 0 {
        Ok(QueryView::All)
    } else {
        tokens_query(names, tokenize(trim(s)))
    }
}

pub open spec fn opt_strings(o: Option<Vec<String>>) -> Option<Seq<Seq<char>>> {
    match o {
        Some(v) => Some(strings_view(v@)),
        None => None,
    }
}

/// Any of `values` as a raw term of field `f`.
pub open spec fn any_of(f: nat, values: Seq<Seq<char>>) -> QueryView {
    QueryView::Boolean {
        clauses: Seq::new(
            values.len(),
            |i: int| (Occur::Should, QueryView::Term { field: f, text: values[i], positions: false }),
        ),
    }
}

/// The filter on the field named `name` when a list is given and the schema has the field.
pub open spec fn list_filter(
    names: Seq<Seq<char>>,
    name: Seq<char>,
    list: Option<Seq<Seq<char>>>,
) -> Seq<QueryView> {
    match list {
        Some(vs) => match field_index(names, name) {
            Some(f) => seq![any_of(f, vs)],
            None => Seq::empty(),
        },
        None => Seq::empty(),
    }
}

/// The filter on update time, inclusive at each bound that is given.
pub open spec fn date_filter(from: Option<i64>, to: Option<i64>) -> Seq<QueryView> {
    if from is Some || to is Some {
        seq![QueryView::Range { field_name: "updated_at"@, lower: from, upper: to }]
    } else {
        Seq::empty()
    }
}

/// The filter queries of `f`: source, author, tags, then update time.
pub open spec fn filter_queries(names: Seq<Seq<char>>, f: SearchFilters) -> Seq<QueryView> {
    list_filter(names, "source"@, opt_strings(f.source)) + list_filter(
        names,
        "author"@,
        opt_strings(f.author),
    ) + list_filter(names, "tags"@, opt_strings(f.tags)) + date_filter(f.from_date, f.to_date)
}

/// The whole search query: the query string's query, required, and each
/// filter, required; the string's query alone when there is no filter.
pub open spec fn search_query(names: Seq<Seq<char>>, s: Seq<char>, f: SearchFilters) -> Result<
    QueryView,
    Seq<char>,
> {
    match string_query(names, s) {
        Err(e) => Err(e),
        Ok(main) => {
            let fq = filter_queries(names, f);
            if fq.len() == 0 {
                Ok(main)
            } else {
                Ok(
                    QueryView::Boolean {
                        clauses: seq![(Occur::Must, main)] + Seq::new(
                            fq.len(),
                            |i: int| (Occur::Must, fq[i]),
                        ),
                    },
                )
            }
        },
    }
}

/// Whether an executable result agrees with a specified one.
pub open spec fn result_is(r: Result<QueryNode, String>, s: Result<QueryView, Seq<char>>) -> bool {
    match r {
        Ok(q) => s == Ok::<QueryView, Seq<char>>(q@),
        Err(e) => s == Err::<QueryView, Seq<char>>(e@),
    }
}

// ---------------------------------------------------------------------------
// Executable parser.

fn is_digit_char(c: char) -> (b: bool)
    ensures
        b == is_digit(c),
{
    let u = c as u32;
    48 <= u && u <= 57
}

fn is_word_stop_char(c: char) -> (b: bool)
    ensures
        b == is_word_stop(c),
{
    is_whitespace(c) || c == '"' || c == '(' || c == ')' || c == '~'
}

/// The fuzzy distance that the digits `s[lo..hi]` give.
fn parse_distance(s: &Vec<char>, lo: usize, hi: usize) -> (d: u8)
    requires
        lo <= hi <= s@.len(),
        forall|k: int| lo <= k < hi ==> is_digit(s@[k]),
    ensures
        d == fuzzy_distance(s@.subrange(lo as int, hi as int)),
{
    let mut val: u32 = 0;
    let mut over = false;
    let mut k = lo;
    while k < hi
        invariant
            lo <= k <= hi <= s@.len(),
            forall|j: int| lo <= j < hi ==> is_digit(s@[j]),
            !over ==> val as nat == decimal_value(s@.subrange(lo as int, k as int)) && val <= 255,
            over ==> decimal_value(s@.subrange(lo as int, k as int)) > 255,
        decreases hi - k,
    {
        let ghost prev = s@.subrange(lo as int, k as int);
        assert(s@.subrange(lo as int, k + 1).drop_last() =~= prev);
        assert(s@.subrange(lo as int, k + 1).last() == s@[k as int]);
        let digit = (s[k] as u32) - 48;
        if !over {
            let nv = val * 10 + digit;
            if nv > 255 {
                over = true;
            } else {
                val = nv;
            }
        }
        k += 1;
    }
    if lo < hi && !over {
        val as u8
    } else {
        2
    }
}

/// The token of a bare word.
fn classify(w: Vec<char>) -> (t: QueryToken)
    ensures
        t@ == classify_word(w@),
{
    if equals_upper(&w, "AND") {
        return QueryToken::And;
    }
    if equals_upper(&w, "OR") {
        return QueryToken::Or;
    }
    if equals_upper(&w, "NOT") {
        return QueryToken::Not;
    }
    let mut k: usize = 0;
    while k < w.len() && w[k] != ':'
        invariant
            k <= w@.len(),
            find_char_from(w@, ':', k as int) == find_char_from(w@, ':', 0),
        decreases w@.len() - k,
    {
        k += 1;
    }
    if k < w.len() && k + 1 < w.len() {
        let field = substring(&w, 0, k);
        let value = substring(&w, k + 1, w.len());
        QueryToken::Field(field, value)
    } else {
        QueryToken::Term(string_from_chars(w))
    }
}

/// The tokens of a query string, as `tokenize` states them.
pub fn tokenize_query(input: &str) -> (tokens: Vec<QueryToken>)
    ensures
        tokens_view(tokens@) == tokenize(input@),
{
    let s = chars_of(input);
    let n = s.len();
    let mut tokens: Vec<QueryToken> = Vec::new();
    let mut i: usize = 0;
    assert(tokens_view(tokens@) =~= Seq::<TokenView>::empty());
    while i < n
        invariant
            n == s@.len(),
            s@ == input@,
            i <= n,
            tokenize_from(s@, i as int, tokens_view(tokens@)) == tokenize(input@),
        decreases n - i,
    {
        let ghost acc = tokens_view(tokens@);
        let ch = s[i];
        if ch == '"' {
            let start = i + 1;
            let mut j = start;
            while j < n && s[j] != '"'
                invariant
                    start <= j <= n,
                    n == s@.len(),
                    find_char_from(s@, '"', j as int) == find_char_from(s@, '"', start as int),
                decreases n - j,
            {
                j += 1;
            }
            if j > start {
                let phrase = substring(&s, start, j);
                tokens.push(QueryToken::Phrase(phrase));
                assert(tokens_view(tokens@) =~= acc.push(
                    TokenView::Phrase(s@.subrange(start as int, j as int)),
                ));
            }
            if j < n {
                i = j + 1;
            } else {
                i = j;
            }
        } else if ch == '(' {
            tokens.push(QueryToken::LParen);
            assert(tokens_view(tokens@) =~= acc.push(TokenView::LParen));
            i += 1;
        } else if ch == ')' {
            tokens.push(QueryToken::RParen);
            assert(tokens_view(tokens@) =~= acc.push(TokenView::RParen));
            i += 1;
        } else if ch == '~' {
            let start = i + 1;
            let mut j = start;
            while j < n && is_digit_char(s[j])
                invariant
                    start <= j <= n,
                    n == s@.len(),
                    digits_end(s@, j as int) == digits_end(s@, start as int),
                    forall|k: int| start <= k < j ==> is_digit(s@[k]),
                decreases n - j,
            {
                j += 1;
            }
            let distance = parse_distance(&s, start, j);
            let len = tokens.len();
            if len > 0 {
                let last_term: Option<String> = match &tokens[len - 1] {
                    QueryToken::Term(t) => Some(t.clone()),
                    _ => None,
                };
                match last_term {
                    Some(t) => {
                        tokens.set(len - 1, QueryToken::Fuzzy(t, distance));
                    },
                    None => {},
                }
            }
            assert(tokens_view(tokens@) =~= mark_fuzzy(acc, distance));
            i = j;
        } else if is_whitespace(ch) {
            i += 1;
        } else {
            let mut j = i + 1;
            while j < n && !is_word_stop_char(s[j])
                invariant
                    i + 1 <= j <= n,
                    n == s@.len(),
                    word_end(s@, j as int) == word_end(s@, i + 1),
                decreases n - j,
            {
                j += 1;
            }
            let word = sub_chars(&s, i, j);
            let tok = classify(word);
            tokens.push(tok);
            assert(tokens_view(tokens@) =~= acc.push(classify_word(s@.subrange(i as int, j as int))));
            i = j;
        }
    }
    tokens
}

/// A copy of a list of strings.
fn clone_strings(v: &Vec<String>) -> (r: Vec<String>)
    ensures
        strings_view(r@) == strings_view(v@),
{
    let mut r: Vec<String> = Vec::new();
    let mut k: usize = 0;
    while k < v.len()
        invariant
            k <= v@.len(),
            strings_view(r@) == strings_view(v@).take(k as int),
        decreases v@.len() - k,
    {
        proof {
            lemma_strings_push(r@, v@[k as int]);
        }
        r.push(v[k].clone());
        k += 1;
        assert(strings_view(r@) =~= strings_view(v@).take(k as int));
    }
    assert(strings_view(v@).take(k as int) =~= strings_view(v@));
    r
}

/// The query of a list of clauses, as `combine` states it.
fn combine_clauses(queries: Vec<(Occur, QueryNode)>) -> (q: QueryNode)
    ensures
        q@ == combine(clauses_view(queries@)),
{
    let len = queries.len();
    if len == 0 {
        QueryNode::Empty
    } else if len == 1 {
        let mut queries = queries;
        let (_, q) = queries.pop().unwrap();
        q
    } else {
        boolean(queries)
    }
}

/// The parser of the query language over the fields of a schema.
pub struct SearchQueryParser<'a> {
    pub schema: &'a IndexSchema,
}

impl<'a> SearchQueryParser<'a> {
    pub fn new(schema: &'a IndexSchema) -> (p: Self)
        ensures
            p.schema == schema,
    {
        Self { schema }
    }

    /// The query of `query_str` under `filters`, as `search_query` states it.
    pub fn parse(&self, query_str: &str, filters: &SearchFilters) -> (r: Result<QueryNode, String>)
        ensures
            result_is(r, search_query(self.schema.names(), query_str@, *filters)),
    {
        let main_query = match self.parse_query_string(query_str) {
            Ok(q) => q,
            Err(e) => return Err(e),
        };
        let filter_queries = match self.build_filter_queries(filters) {
            Ok(f) => f,
            Err(e) => return Err(e),
        };
        let ghost fq = queries_view(filter_queries@);
        if filter_queries.len() == 0 {
            return Ok(main_query);
        }
        let ghost main_view = main_query@;
        let mut queries: Vec<(Occur, QueryNode)> = Vec::new();
        queries.push((Occur::Must, main_query));
        let mut rest = filter_queries;
        let ghost all = rest@;
        // Move the filters over in their order.
        let mut fwd: Vec<QueryNode> = Vec::new();
        while rest.len() > 0
            invariant
                all.len() == fwd@.len() + rest@.len(),
                forall|i: int| 0 <= i < rest@.len() ==> #[trigger] rest@[i] == all[i],
                forall|i: int|
                    0 <= i < fwd@.len() ==> #[trigger] fwd@[i] == all[all.len() - 1 - i],
            decreases rest@.len(),
        {
            let q = rest.pop().unwrap();
            fwd.push(q);
        }
        let total = fwd.len();
        assert(clauses_view(queries@) =~= seq![(Occur::Must, main_view)]);
        while fwd.len() > 0
            invariant
                total == all.len(),
                fwd@.len() <= total,
                forall|i: int|
                    0 <= i < fwd@.len() ==> #[trigger] fwd@[i] == all[all.len() - 1 - i],
                clauses_view(queries@) == seq![(Occur::Must, main_view)] + Seq::new(
                    (total - fwd@.len()) as nat,
                    |i: int| (Occur::Must, fq[i]),
                ),
                fq == queries_view(all),
            decreases fwd@.len(),
        {
            let ghost before = clauses_view(queries@);
            let ghost idx = total - fwd@.len();
            let q = fwd.pop().unwrap();
            assert(q == all[idx]);
            proof {
                lemma_clauses_push(queries@, (Occur::Must, q));
            }
            queries.push((Occur::Must, q));
            assert(clauses_view(queries@) =~= seq![(Occur::Must, main_view)] + Seq::new(
                (total - fwd@.len()) as nat,
                |i: int| (Occur::Must, fq[i]),
            ));
        }
        Ok(boolean(queries))
    }

    /// The query of the query string alone.
    pub fn parse_query_string(&self, query_str: &str) -> (r: Result<QueryNode, String>)
        ensures
            result_is(r, string_query(self.schema.names(), query_str@)),
    {
        let trimmed = trim_str(query_str);
        if trimmed.as_str().unicode_len() == 0 {
            return Ok(QueryNode::All);
        }
        let tokens = self.tokenize_query(trimmed.as_str());
        self.build_query_from_tokens(&tokens)
    }

    /// The tokens of a query string.
    pub fn tokenize_query(&self, input: &str) -> (tokens: Vec<QueryToken>)
        ensures
            tokens_view(tokens@) == tokenize(input@),
    {
        tokenize_query(input)
    }

    /// The query of a token list, as `tokens_query` states it.
    pub fn build_query_from_tokens(&self, tokens: &Vec<QueryToken>) -> (r: Result<QueryNode, String>)
        ensures
            result_is(r, tokens_query(self.schema.names(), tokens_view(tokens@))),
    {
        let ghost names = self.schema.names();
        let ghost toks = tokens_view(tokens@);
        if tokens.len() == 0 {
            return Ok(QueryNode::All);
        }
        let mut result: Vec<(Occur, QueryNode)> = Vec::new();
        let mut i: usize = 0;
        let mut default_occur = Occur::Should;
        assert(clauses_view(result@) =~= Seq::<(Occur, QueryView)>::empty());
        while i < tokens.len()
            invariant
                i <= tokens@.len(),
                toks == tokens_view(tokens@),
                names == self.schema.names(),
                clauses_from(names, toks, i as int, default_occur, clauses_view(result@))
                    == clauses_from(names, toks, 0, Occur::Should, Seq::empty()),
            decreases tokens@.len() - i,
        {
            assert(toks[i as int] == tokens@[i as int]@);
            match &tokens[i] {
                QueryToken::And => {
                    default_occur = Occur::Must;
                    i += 1;
                },
                QueryToken::Or => {
                    default_occur = Occur::Should;
                    i += 1;
                },
                QueryToken::Not => {
                    if i + 1 < tokens.len() {
                        assert(toks[i + 1] == tokens@[i + 1]@);
                        let neg = match self.token_to_query(&tokens[i + 1]) {
                            Ok(q) => q,
                            Err(e) => return Err(e),
                        };
                        proof {
                            lemma_clauses_push(result@, (Occur::MustNot, neg));
                        }
                        result.push((Occur::MustNot, neg));
                        i += 2;
                    } else {
                        i += 1;
                    }
                },
                _ => {
                    let q = match self.token_to_query(&tokens[i]) {
                        Ok(q) => q,
                        Err(e) => return Err(e),
                    };
                    proof {
                        lemma_clauses_push(result@, (default_occur, q));
                    }
                    result.push((default_occur, q));
                    default_occur = Occur::Should;
                    i += 1;
                },
            }
        }
        let len = result.len();
        if len == 0 {
            return Ok(QueryNode::All);
        }
        if len == 1 {
            let (occur, query) = result.pop().unwrap();
            match occur {
                Occur::MustNot => {
                    let mut clauses: Vec<(Occur, QueryNode)> = Vec::new();
                    clauses.push((Occur::Must, QueryNode::All));
                    let ghost qv = query@;
                    clauses.push((Occur::MustNot, query));
                    let b = boolean(clauses);
                    assert(b@->clauses =~= seq![(Occur::Must, QueryView::All), (Occur::MustNot, qv)]);
                    return Ok(b);
                },
                _ => {
                    return Ok(query);
                },
            }
        }
        Ok(boolean(result))
    }

    /// The query of one token, as `token_query` states it.
    pub fn token_to_query(&self, token: &QueryToken) -> (r: Result<QueryNode, String>)
        ensures
            result_is(r, token_query(self.schema.names(), token@)),
    {
        match token {
            QueryToken::Term(term) => Ok(self.build_multi_field_term_query(term.as_str())),
            QueryToken::Phrase(phrase) => Ok(self.build_multi_field_phrase_query(phrase.as_str())),
            QueryToken::Fuzzy(term, distance) => Ok(self.build_fuzzy_query(term.as_str(), *distance)),
            QueryToken::Field(field_name, value) => self.build_field_query(
                field_name.as_str(),
                value.as_str(),
            ),
            _ => Ok(QueryNode::All),
        }
    }

    /// A term over every searchable field.
    pub fn build_multi_field_term_query(&self, term: &str) -> (q: QueryNode)
        ensures
            q@ == term_query(self.schema.names(), term@),
    {
        let ghost names = self.schema.names();
        let fields = self.get_searchable_fields();
        let ghost fs = searchable_fields(names);
        let mut queries: Vec<(Occur, QueryNode)> = Vec::new();
        let mut k: usize = 0;
        assert(clauses_view(queries@) =~= term_clauses(names, term@).take(0));
        while k < fields.len()
            invariant
                names == self.schema.names(),
                fs == searchable_fields(names),
                fields@.len() == fs.len(),
                forall|i: int| 0 <= i < fs.len() ==> fields@[i] as nat == #[trigger] fs[i],
                forall|i: int| 0 <= i < fs.len() ==> fs[i] < names.len(),
                k <= fields@.len(),
                clauses_view(queries@) == term_clauses(names, term@).take(k as int),
            decreases fields@.len() - k,
        {
            let f = fields[k];
            assert(fs[k as int] == f as nat);
            let field_name = self.schema.get_field_name(f);
            let boost = get_field_boost(field_name.as_str());
            let tq = QueryNode::Term { field: f, text: to_owned_string(term), positions: true };
            assert(tq@ == QueryView::Term { field: fs[k as int], text: term@, positions: true });
            assert(field_name@ == names[fs[k as int] as int]);
            let q = if boost != 1 {
                QueryNode::Boost { query: Box::new(tq), factor: boost }
            } else {
                tq
            };
            assert(q@ == with_boost(
                names,
                fs[k as int],
                QueryView::Term { field: fs[k as int], text: term@, positions: true },
            ));
            assert(term_clauses(names, term@)[k as int] == (Occur::Should, q@));
            proof {
                lemma_clauses_push(queries@, (Occur::Should, q));
            }
            queries.push((Occur::Should, q));
            k += 1;
            assert(clauses_view(queries@) =~= term_clauses(names, term@).take(k as int));
        }
        assert(term_clauses(names, term@).take(k as int) =~= term_clauses(names, term@));
        combine_clauses(queries)
    }

    /// A phrase over every searchable field.
    pub fn build_multi_field_phrase_query(&self, phrase: &str) -> (q: QueryNode)
        ensures
            q@ == phrase_query(self.schema.names(), phrase@),
    {
        let ghost names = self.schema.names();
        let words = search_words(phrase);
        let ghost ws = jieba_search_words(phrase@);
        assert(strings_view(words@) =~= ws);
        if words.len() == 0 {
            return QueryNode::Empty;
        }
        let fields = self.get_searchable_fields();
        let ghost fs = searchable_fields(names);
        let mut queries: Vec<(Occur, QueryNode)> = Vec::new();
        let mut k: usize = 0;
        assert(clauses_view(queries@) =~= phrase_clauses(names, ws).take(0));
        while k < fields.len()
            invariant
                names == self.schema.names(),
                fs == searchable_fields(names),
                strings_view(words@) == ws,
                fields@.len() == fs.len(),
                forall|i: int| 0 <= i < fs.len() ==> fields@[i] as nat == #[trigger] fs[i],
                forall|i: int| 0 <= i < fs.len() ==> fs[i] < names.len(),
                k <= fields@.len(),
                clauses_view(queries@) == phrase_clauses(names, ws).take(k as int),
            decreases fields@.len() - k,
        {
            let f = fields[k];
            assert(fs[k as int] == f as nat);
            let field_name = self.schema.get_field_name(f);
            let boost = get_field_boost(field_name.as_str());
            let pq = QueryNode::Phrase { field: f, words: clone_strings(&words) };
            assert(pq@ == QueryView::Phrase { field: fs[k as int], words: ws });
            assert(field_name@ == names[fs[k as int] as int]);
            let q = if boost != 1 {
                QueryNode::Boost { query: Box::new(pq), factor: boost }
            } else {
                pq
            };
            assert(q@ == with_boost(
                names,
                fs[k as int],
                QueryView::Phrase { field: fs[k as int], words: ws },
            ));
            assert(phrase_clauses(names, ws)[k as int] == (Occur::Should, q@));
            proof {
                lemma_clauses_push(queries@, (Occur::Should, q));
            }
            queries.push((Occur::Should, q));
            k += 1;
            assert(clauses_view(queries@) =~= phrase_clauses(names, ws).take(k as int));
        }
        assert(phrase_clauses(names, ws).take(k as int) =~= phrase_clauses(names, ws));
        combine_clauses(queries)
    }

    /// A fuzzy term over every searchable field.
    pub fn build_fuzzy_query(&self, term: &str, distance: u8) -> (q: QueryNode)
        ensures
            q@ == fuzzy_query(self.schema.names(), term@, distance),
    {
        let ghost names = self.schema.names();
        let fields = self.get_searchable_fields();
        let ghost fs = searchable_fields(names);
        let mut queries: Vec<(Occur, QueryNode)> = Vec::new();
        let mut k: usize = 0;
        assert(clauses_view(queries@) =~= fuzzy_clauses(names, term@, distance).take(0));
        while k < fields.len()
            invariant
                names == self.schema.names(),
                fs == searchable_fields(names),
                fields@.len() == fs.len(),
                forall|i: int| 0 <= i < fs.len() ==> fields@[i] as nat == #[trigger] fs[i],
                k <= fields@.len(),
                clauses_view(queries@) == fuzzy_clauses(names, term@, distance).take(k as int),
            decreases fields@.len() - k,
        {
            let f = fields[k];
            assert(fs[k as int] == f as nat);
            let q = QueryNode::FuzzyPrefix { field: f, text: to_owned_string(term), distance };
            proof {
                lemma_clauses_push(queries@, (Occur::Should, q));
            }
            queries.push((Occur::Should, q));
            k += 1;
            assert(clauses_view(queries@) =~= fuzzy_clauses(names, term@, distance).take(
                k as int,
            ));
        }
        assert(fuzzy_clauses(names, term@, distance).take(k as int) =~= fuzzy_clauses(
            names,
            term@,
            distance,
        ));
        combine_clauses(queries)
    }

    /// A `field:value` query, as `field_query` states it.
    pub fn build_field_query(&self, field_name: &str, value: &str) -> (r: Result<QueryNode, String>)
        ensures
            result_is(r, field_query(self.schema.names(), field_name@, value@)),
    {
        let field = match self.schema.get_field(field_name) {
            Some(f) => f,
            None => {
                let mut e = to_owned_string("Unknown field: ");
                e.append(field_name);
                return Err(e);
            },
        };
        let v = chars_of(value);
        let n = v.len();
        if n >= 2 && v[0] == '"' && v[n - 1] == '"' {
            let inner = substring(&v, 1, n - 1);
            let words = search_words(inner.as_str());
            assert(strings_view(words@) =~= jieba_search_words(v@.subrange(1, n - 1)));
            if words.len() == 0 {
                return Ok(QueryNode::Empty);
            }
            Ok(QueryNode::Phrase { field, words })
        } else if n > 0 && v[n - 1] == '~' {
            let mut hi = n;
            assert(v@.take(n as int) =~= v@);
            while hi > 0 && v[hi - 1] == '~'
                invariant
                    hi <= n,
                    n == v@.len(),
                    trim_end_char(v@.take(hi as int), '~') == trim_end_char(v@, '~'),
                decreases hi,
            {
                assert(v@.take(hi as int).drop_last() =~= v@.take(hi - 1));
                hi -= 1;
            }
            assert(v@.take(hi as int) =~= v@.subrange(0, hi as int));
            Ok(QueryNode::FuzzyPrefix { field, text: substring(&v, 0, hi), distance: 2 })
        } else {
            Ok(QueryNode::Term { field, text: to_owned_string(value), positions: true })
        }
    }

    /// The searchable fields, in schema order.
    pub fn get_searchable_fields(&self) -> (r: Vec<usize>)
        ensures
            r@.len() == searchable_fields(self.schema.names()).len(),
            forall|i: int|
                0 <= i < r@.len() ==> r@[i] as nat == #[trigger] searchable_fields(
                    self.schema.names(),
                )[i],
            forall|i: int|
                0 <= i < r@.len() ==> #[trigger] searchable_fields(self.schema.names())[i]
                    < self.schema.names().len(),
    {
        let ghost names = self.schema.names();
        let mut fields: Vec<usize> = Vec::new();
        let ghost acc: Seq<nat> = Seq::empty();
        let mut k: usize = 0;
        proof {
            lemma_searchable_bounds(names, 0);
        }
        while k < self.schema.fields.len()
            invariant
                names == self.schema.names(),
                k <= names.len(),
                names.len() == self.schema.fields@.len(),
                acc.len() == fields@.len(),
                forall|i: int| 0 <= i < fields@.len() ==> #[trigger] fields@[i] as nat == acc[i],
                acc + searchable_from(names, k as int) == searchable_fields(names),
            decreases names.len() - k,
        {
            let name = self.schema.get_field_name(k);
            let ghost before = acc;
            if is_searchable_name(name.as_str()) {
                fields.push(k);
                proof {
                    acc = acc.push(k as nat);
                    assert(before + searchable_from(names, k as int) =~= acc + searchable_from(
                        names,
                        k + 1,
                    ));
                }
            }
            k += 1;
        }
        assert(acc =~= acc + searchable_from(names, k as int));
        fields
    }

    /// The weight of matches in the named field.
    pub fn get_field_boost(&self, field_name: &str) -> (b: u32)
        ensures
            b == field_boost(field_name@),
    {
        get_field_boost(field_name)
    }

    /// The filter queries of `filters`, as `filter_queries` states them.
    pub fn build_filter_queries(&self, filters: &SearchFilters) -> (r: Result<Vec<QueryNode>, String>)
        ensures
            r is Ok,
            r matches Ok(v) ==> queries_view(v@) == filter_queries(self.schema.names(), *filters),
    {
        let ghost names = self.schema.names();
        let mut queries: Vec<QueryNode> = Vec::new();
        match &filters.source {
            Some(list) => match self.schema.get_field("source") {
                Some(f) => {
                    queries.push(any_of_query(f, list));
                },
                None => {},
            },
            None => {},
        }
        assert(queries_view(queries@) =~= list_filter(names, "source"@, opt_strings(filters.source)));
        let ghost q1 = queries_view(queries@);
        match &filters.author {
            Some(list) => match self.schema.get_field("author") {
                Some(f) => {
                    queries.push(any_of_query(f, list));
                },
                None => {},
            },
            None => {},
        }
        assert(queries_view(queries@) =~= q1 + list_filter(
            names,
            "author"@,
            opt_strings(filters.author),
        ));
        let ghost q2 = queries_view(queries@);
        match &filters.tags {
            Some(list) => match self.schema.get_field("tags") {
                Some(f) => {
                    queries.push(any_of_query(f, list));
                },
                None => {},
            },
            None => {},
        }
        assert(queries_view(queries@) =~= q2 + list_filter(names, "tags"@, opt_strings(filters.tags)));
        let ghost q3 = queries_view(queries@);
        if filters.from_date.is_some() || filters.to_date.is_some() {
            queries.push(
                QueryNode::Range {
                    field_name: to_owned_string("updated_at"),
                    lower: filters.from_date,
                    upper: filters.to_date,
                },
            );
        }
        assert(queries_view(queries@) =~= q3 + date_filter(filters.from_date, filters.to_date));
        Ok(queries)
    }
}

/// Whether a field of that name is searched by bare terms.
fn is_searchable_name(name: &str) -> (b: bool)
    ensures
        b == is_searchable(name@),
{
    str_equal(name, "title") || str_equal(name, "content") || str_equal(name, "tags") || str_equal(
        name,
        "author",
    )
}

/// The weight of matches in the named field.
fn get_field_boost(field_name: &str) -> (b: u32)
    ensures
        b == field_boost(field_name@),
{
    if str_equal(field_name, "title") {
        3
    } else if str_equal(field_name, "tags") {
        2
    } else {
        1
    }
}

/// Any of `values` as a raw term of field `f`.
fn any_of_query(f: usize, values: &Vec<String>) -> (q: QueryNode)
    ensures
        q@ == any_of(f as nat, strings_view(values@)),
{
    let ghost target = Seq::new(
        values@.len(),
        |i: int| (Occur::Should, QueryView::Term { field: f as nat, text: values@[i]@, positions: false }),
    );
    let mut clauses: Vec<(Occur, QueryNode)> = Vec::new();
    let mut k: usize = 0;
    assert(clauses_view(clauses@) =~= target.take(0));
    while k < values.len()
        invariant
            k <= values@.len(),
            target.len() == values@.len(),
            forall|i: int|
                0 <= i < values@.len() ==> #[trigger] target[i] == (
                    Occur::Should,
                    QueryView::Term { field: f as nat, text: values@[i]@, positions: false },
                ),
            clauses_view(clauses@) == target.take(k as int),
        decreases values@.len() - k,
    {
        let q = QueryNode::Term { field: f, text: values[k].clone(), positions: false };
        proof {
            lemma_clauses_push(clauses@, (Occur::Should, q));
        }
        clauses.push((Occur::Should, q));
        k += 1;
        assert(clauses_view(clauses@) =~= target.take(k as int));
    }
    assert(target.take(k as int) =~= target);
    let q = boolean(clauses);
    assert(q@->clauses =~= any_of(f as nat, strings_view(values@))->clauses);
    q
}

} // verus!

verus! {

/// Filters that narrow nothing.
pub open spec fn no_filters(f: SearchFilters) -> bool {
    f.source is None && f.author is None && f.tags is None && f.from_date is None && f.to_date is None
}

/// A query string that is empty or all whitespace matches every document,
/// whatever the schema, when no filter is given.
pub proof fn law_blank_query_matches_all(names: Seq<Seq<char>>, s: Seq<char>, f: SearchFilters)
    requires
        trim(s).len() == 0,
        no_filters(f),
    ensures
        search_query(names, s, f) == Ok::<QueryView, Seq<char>>(QueryView::All),
{
    assert(filter_queries(names, f) =~= Seq::<QueryView>::empty());
}

/// Every filter that applies is a required clause beside the required query:
/// when the query string parses and some filter applies, the search is a
/// boolean query whose clauses are all required, the query first.
pub proof fn law_filters_are_required(names: Seq<Seq<char>>, s: Seq<char>, f: SearchFilters)
    requires
        string_query(names, s) is Ok,
        filter_queries(names, f).len() > 0,
    ensures
        search_query(names, s, f) matches Ok(QueryView::Boolean { clauses }) && clauses.len() == 1
            + filter_queries(names, f).len() && clauses[0] == (Occur::Must, string_query(
            names,
            s,
        )->Ok_0) && forall|i: int| 0 <= i < clauses.len() ==> (#[trigger] clauses[i]).0 == Occur::Must,
{
}

/// A query string that fails to parse fails the search, whatever the filters.
pub proof fn law_query_error_is_search_error(names: Seq<Seq<char>>, s: Seq<char>, f: SearchFilters)
    requires
        string_query(names, s) is Err,
    ensures
        search_query(names, s, f) == string_query(names, s),
{
}

/// The operators are words in any letter case.
pub proof fn law_operators_ignore_case(w: Seq<char>)
    requires
        w.len() == 3,
        ascii_upper_code(w[0]) == 'A' as u32,
        ascii_upper_code(w[1]) == 'N' as u32,
        ascii_upper_code(w[2]) == 'D' as u32,
    ensures
        classify_word(w) == TokenView::And,
{
    reveal_strlit("AND");
    assert(eq_upper(w, "AND"@));
}

/// A lone negated term excludes its matches from all documents.
pub proof fn law_lone_not(names: Seq<Seq<char>>, t: TokenView)
    requires
        token_query(names, t) is Ok,
        !(t is And || t is Or || t is Not),
    ensures
        tokens_query(names, seq![TokenView::Not, t]) == Ok::<QueryView, Seq<char>>(
            QueryView::Boolean {
                clauses: seq![
                    (Occur::Must, QueryView::All),
                    (Occur::MustNot, token_query(names, t)->Ok_0),
                ],
            },
        ),
{
    let toks = seq![TokenView::Not, t];
    let q = token_query(names, t)->Ok_0;
    assert(clauses_from(names, toks, 2, Occur::Should, seq![(Occur::MustNot, q)]) == Ok::<
        Seq<(Occur, QueryView)>,
        Seq<char>,
    >(seq![(Occur::MustNot, q)]));
}

/// With the index's schema, a bare term is searched in the title (weight 3),
/// the content, the author and the tags (weight 2), any of them matching.
pub proof fn law_term_fields(names: Seq<Seq<char>>, term: Seq<char>)
    requires
        names == seq![
            "source"@,
            "source_id"@,
            "title"@,
            "content"@,
            "url"@,
            "author"@,
            "created_at"@,
            "updated_at"@,
            "tags"@,
            "project"@,
        ],
    ensures
        term_query(names, term) == (QueryView::Boolean {
            clauses: seq![
                (
                    Occur::Should,
                    QueryView::Boost {
                        query: Box::new(QueryView::Term { field: 2, text: term, positions: true }),
                        factor: 3,
                    },
                ),
                (Occur::Should, QueryView::Term { field: 3, text: term, positions: true }),
                (Occur::Should, QueryView::Term { field: 5, text: term, positions: true }),
                (
                    Occur::Should,
                    QueryView::Boost {
                        query: Box::new(QueryView::Term { field: 8, text: term, positions: true }),
                        factor: 2,
                    },
                ),
            ],
        }),
{
    reveal_strlit("source");
    reveal_strlit("source_id");
    reveal_strlit("title");
    reveal_strlit("content");
    reveal_strlit("url");
    reveal_strlit("author");
    reveal_strlit("created_at");
    reveal_strlit("updated_at");
    reveal_strlit("tags");
    reveal_strlit("project");
    assert(names[0] != "author"@) by {
        assert(names[0][0] != "author"@[0]);
    }
    assert(names[9] != "content"@) by {
        assert(names[9][0] != "content"@[0]);
    }
    assert(names[0].len() == 6 && names[9].len() == 7);
    assert("title"@.len() == 5 && "content"@.len() == 7 && "tags"@.len() == 4 && "author"@.len() == 6);
    assert(names[0] != "title"@ && names[0] != "content"@ && names[0] != "tags"@);
    assert(names[9] != "title"@ && names[9] != "author"@ && names[9] != "tags"@);
    assert(names[1].len() == 9 && names[4].len() == 3 && names[6].len() == 10 && names[7].len()
        == 10);
    assert(!is_searchable(names[0]));
    assert(!is_searchable(names[1]));
    assert(is_searchable(names[2]));
    assert(is_searchable(names[3]));
    assert(!is_searchable(names[4]));
    assert(is_searchable(names[5]));
    assert(!is_searchable(names[6]));
    assert(!is_searchable(names[7]));
    assert(is_searchable(names[8]));
    assert(!is_searchable(names[9]));
    assert(searchable_from(names, 10) == Seq::<nat>::empty());
    assert(searchable_from(names, 9) == Seq::<nat>::empty());
    assert(searchable_from(names, 8) =~= seq![8nat]);
    assert(searchable_from(names, 7) =~= seq![8nat]);
    assert(searchable_from(names, 6) =~= seq![8nat]);
    assert(searchable_from(names, 5) =~= seq![5nat, 8nat]);
    assert(searchable_from(names, 4) =~= seq![5nat, 8nat]);
    assert(searchable_from(names, 3) =~= seq![3nat, 5nat, 8nat]);
    assert(searchable_from(names, 2) =~= seq![2nat, 3nat, 5nat, 8nat]);
    assert(searchable_from(names, 1) =~= seq![2nat, 3nat, 5nat, 8nat]);
    assert(searchable_fields(names) =~= seq![2nat, 3nat, 5nat, 8nat]);
    assert(field_boost(names[2]) == 3);
    assert(field_boost(names[3]) == 1);
    assert(field_boost(names[5]) == 1);
    assert(field_boost(names[8]) == 2);
    assert(term_clauses(names, term) =~= seq![
        (
            Occur::Should,
            QueryView::Boost {
                query: Box::new(QueryView::Term { field: 2, text: term, positions: true }),
                factor: 3,
            },
        ),
        (Occur::Should, QueryView::Term { field: 3, text: term, positions: true }),
        (Occur::Should, QueryView::Term { field: 5, text: term, positions: true }),
        (
            Occur::Should,
            QueryView::Boost {
                query: Box::new(QueryView::Term { field: 8, text: term, positions: true }),
                factor: 2,
            },
        ),
    ]);
}

} // verus!

verus! {

/// Between two terms, `OR` leaves the second term optional: either term may
/// match. So does mere juxtaposition, while `AND` makes the second term
/// required. The first term is optional in each case.
pub proof fn law_or_leaves_next_term_optional(names: Seq<Seq<char>>, a: Seq<char>, b: Seq<char>)
    ensures
        tokens_query(names, seq![TokenView::Term(a), TokenView::Or, TokenView::Term(b)])
            == Ok::<QueryView, Seq<char>>(
            QueryView::Boolean {
                clauses: seq![(Occur::Should, term_query(names, a)), (Occur::Should, term_query(names, b))],
            },
        ),
        tokens_query(names, seq![TokenView::Term(a), TokenView::Term(b)]) == Ok::<QueryView, Seq<char>>(
            QueryView::Boolean {
                clauses: seq![(Occur::Should, term_query(names, a)), (Occur::Should, term_query(names, b))],
            },
        ),
        tokens_query(names, seq![TokenView::Term(a), TokenView::And, TokenView::Term(b)])
            == Ok::<QueryView, Seq<char>>(
            QueryView::Boolean {
                clauses: seq![(Occur::Should, term_query(names, a)), (Occur::Must, term_query(names, b))],
            },
        ),
{
    let qa = term_query(names, a);
    let qb = term_query(names, b);
    let e = Seq::<(Occur, QueryView)>::empty();
    let one = e.push((Occur::Should, qa));
    let t1 = seq![TokenView::Term(a), TokenView::Or, TokenView::Term(b)];
    assert(clauses_from(names, t1, 3, Occur::Should, one.push((Occur::Should, qb))) == Ok::<
        Seq<(Occur, QueryView)>,
        Seq<char>,
    >(one.push((Occur::Should, qb))));
    assert(clauses_from(names, t1, 2, Occur::Should, one) == Ok::<Seq<(Occur, QueryView)>, Seq<char>>(
        one.push((Occur::Should, qb)),
    ));
    assert(clauses_from(names, t1, 1, Occur::Should, one) == Ok::<Seq<(Occur, QueryView)>, Seq<char>>(
        one.push((Occur::Should, qb)),
    ));
    assert(clauses_from(names, t1, 0, Occur::Should, e) == Ok::<Seq<(Occur, QueryView)>, Seq<char>>(
        one.push((Occur::Should, qb)),
    ));
    assert(one.push((Occur::Should, qb)) =~= seq![(Occur::Should, qa), (Occur::Should, qb)]);
    let t2 = seq![TokenView::Term(a), TokenView::Term(b)];
    assert(clauses_from(names, t2, 2, Occur::Should, one.push((Occur::Should, qb))) == Ok::<
        Seq<(Occur, QueryView)>,
        Seq<char>,
    >(one.push((Occur::Should, qb))));
    assert(clauses_from(names, t2, 1, Occur::Should, one) == Ok::<Seq<(Occur, QueryView)>, Seq<char>>(
        one.push((Occur::Should, qb)),
    ));
    assert(clauses_from(names, t2, 0, Occur::Should, e) == Ok::<Seq<(Occur, QueryView)>, Seq<char>>(
        one.push((Occur::Should, qb)),
    ));
    let t3 = seq![TokenView::Term(a), TokenView::And, TokenView::Term(b)];
    assert(clauses_from(names, t3, 3, Occur::Should, one.push((Occur::Must, qb))) == Ok::<
        Seq<(Occur, QueryView)>,
        Seq<char>,
    >(one.push((Occur::Must, qb))));
    assert(clauses_from(names, t3, 2, Occur::Must, one) == Ok::<Seq<(Occur, QueryView)>, Seq<char>>(
        one.push((Occur::Must, qb)),
    ));
    assert(clauses_from(names, t3, 1, Occur::Should, one) == Ok::<Seq<(Occur, QueryView)>, Seq<char>>(
        one.push((Occur::Must, qb)),
    ));
    assert(clauses_from(names, t3, 0, Occur::Should, e) == Ok::<Seq<(Occur, QueryView)>, Seq<char>>(
        one.push((Occur::Must, qb)),
    ));
    assert(one.push((Occur::Must, qb)) =~= seq![(Occur::Should, qa), (Occur::Must, qb)]);
}

/// Raw terms of field `f`, any of which may match: one per value.
pub open spec fn any_raw_term(f: nat, values: Seq<Seq<char>>) -> QueryView {
    QueryView::Boolean {
        clauses: Seq::new(
            values.len(),
            |i: int| (Occur::Should, QueryView::Term { field: f, text: values[i], positions: false }),
        ),
    }
}

/// The filter of a list on field `f`: one query when a list is given.
pub open spec fn list_on(f: nat, list: Option<Vec<String>>) -> Seq<QueryView> {
    match list {
        Some(v) => seq![any_raw_term(f, strings_view(v@))],
        None => Seq::empty(),
    }
}

proof fn lemma_list_filter_on(names: Seq<Seq<char>>, n: Seq<char>, k: nat, l: Option<Vec<String>>)
    requires
        field_index(names, n) == Some(k),
    ensures
        list_filter(names, n, opt_strings(l)) == list_on(k, l),
{
    match l {
        Some(v) => {
            assert(any_of(k, strings_view(v@)) =~= any_raw_term(k, strings_view(v@)));
        },
        None => {},
    }
}

/// With the index's schema, the source list filters the `source` field
/// (field 0), the author list the `author` field (field 5) and the tag list
/// the `tags` field (field 8), each value an untokenized term and any of them
/// matching; then the dates bound `updated_at`, inclusively.
pub proof fn law_filters_use_their_fields(names: Seq<Seq<char>>, f: SearchFilters)
    requires
        names == seq![
            "source"@,
            "source_id"@,
            "title"@,
            "content"@,
            "url"@,
            "author"@,
            "created_at"@,
            "updated_at"@,
            "tags"@,
            "project"@,
        ],
    ensures
        filter_queries(names, f) == list_on(0, f.source) + list_on(5, f.author) + list_on(8, f.tags) + (
        if f.from_date is Some || f.to_date is Some {
            seq![QueryView::Range { field_name: "updated_at"@, lower: f.from_date, upper: f.to_date }]
        } else {
            Seq::empty()
        }),
{
    reveal_strlit("source");
    reveal_strlit("source_id");
    reveal_strlit("title");
    reveal_strlit("content");
    reveal_strlit("url");
    reveal_strlit("author");
    reveal_strlit("created_at");
    reveal_strlit("updated_at");
    reveal_strlit("tags");
    reveal_strlit("project");
    assert(names[0] == "source"@);
    assert(field_index(names, "source"@) == Some(0nat));
    assert(names[0] != "author"@) by {
        assert(names[0][0] != "author"@[0]);
    }
    assert(names[1].len() == 9 && names[2].len() == 5 && names[3].len() == 7 && names[4].len() == 3);
    assert(names[6].len() == 10 && names[7].len() == 10 && names[5].len() == 6 && names[0].len() == 6);
    assert("author"@.len() == 6 && "tags"@.len() == 4);
    assert(names[1] != "author"@ && names[2] != "author"@ && names[3] != "author"@ && names[4] != "author"@);
    assert(names[5] == "author"@);
    assert(field_index(names, "author"@) == Some(5nat)) by {
        reveal_with_fuel(crate::engine::index_manager::field_index_from, 7);
    }
    assert(names[5].len() != 4 && names[8] == "tags"@);
    assert(forall|i: int| 0 <= i < 8 ==> names[i] != "tags"@);
    assert(field_index(names, "tags"@) == Some(8nat)) by {
        reveal_with_fuel(crate::engine::index_manager::field_index_from, 10);
    }
    lemma_list_filter_on(names, "source"@, 0, f.source);
    lemma_list_filter_on(names, "author"@, 5, f.author);
    lemma_list_filter_on(names, "tags"@, 8, f.tags);
    assert(list_filter(names, "source"@, opt_strings(f.source)) == list_on(0, f.source));
    assert(list_filter(names, "author"@, opt_strings(f.author)) == list_on(5, f.author));
    assert(list_filter(names, "tags"@, opt_strings(f.tags)) == list_on(8, f.tags));
}

} // verus!

verus! {

/// A `field:value` token searches the named field alone: a field the schema
/// lacks is the error `Unknown field: ` and its name; a plain value is that
/// exact term in the field, with positions; a value ending in `~` is a fuzzy
/// prefix of the value without its trailing `~`s at distance 2.
pub proof fn law_field_token_searches_its_field(names: Seq<Seq<char>>, name: Seq<char>, value: Seq<char>)
    ensures
        field_index(names, name) is None ==> token_query(names, TokenView::Field(name, value)) == Err::<
            QueryView,
            Seq<char>,
        >("Unknown field: "@ + name),
        field_index(names, name) matches Some(f) ==> ({
            let quoted = value.len() >= 2 && value[0] == '"' && value.last() == '"';
            &&& (!quoted && !(value.len() > 0 && value.last() == '~')) ==> token_query(
                names,
                TokenView::Field(name, value),
            ) == Ok::<QueryView, Seq<char>>(QueryView::Term { field: f, text: value, positions: true })
            &&& (!quoted && value.len() > 0 && value.last() == '~') ==> token_query(
                names,
                TokenView::Field(name, value),
            ) == Ok::<QueryView, Seq<char>>(
                QueryView::FuzzyPrefix { field: f, text: trim_end_char(value, '~'), distance: 2 },
            )
        }),
{
}

} // verus!
