use unified_search::api::search::SearchFilters;
use unified_search::engine::index_manager::{build_schema, IndexSchema};
use unified_search::engine::query::{Occur, QueryNode};
use unified_search::engine::query_parser::{tokenize_query, QueryToken, SearchQueryParser};

fn no_filters() -> SearchFilters {
    SearchFilters { source: None, author: None, tags: None, from_date: None, to_date: None }
}

fn term(field: usize, text: &str) -> QueryNode {
    QueryNode::Term { field, text: text.to_string(), positions: true }
}

fn all_fields_term(text: &str) -> QueryNode {
    QueryNode::Boolean {
        clauses: vec![
            (Occur::Should, QueryNode::Boost { query: Box::new(term(2, text)), factor: 3 }),
            (Occur::Should, term(3, text)),
            (Occur::Should, term(5, text)),
            (Occur::Should, QueryNode::Boost { query: Box::new(term(8, text)), factor: 2 }),
        ],
    }
}

fn schema() -> IndexSchema {
    build_schema()
}

#[test]
fn tokenize_words_and_operators() {
    let t = tokenize_query("rust AND search or NoT java");
    assert_eq!(
        t,
        vec![
            QueryToken::Term("rust".to_string()),
            QueryToken::And,
            QueryToken::Term("search".to_string()),
            QueryToken::Or,
            QueryToken::Not,
            QueryToken::Term("java".to_string()),
        ]
    );
}

#[test]
fn tokenize_phrases_and_parentheses() {
    let t = tokenize_query("(\"hello world\" x) \"\" \"open");
    assert_eq!(
        t,
        vec![
            QueryToken::LParen,
            QueryToken::Phrase("hello world".to_string()),
            QueryToken::Term("x".to_string()),
            QueryToken::RParen,
            QueryToken::Phrase("open".to_string()),
        ]
    );
}

#[test]
fn tokenize_fuzzy_terms() {
    assert_eq!(tokenize_query("rust~1"), vec![QueryToken::Fuzzy("rust".to_string(), 1)]);
    assert_eq!(tokenize_query("rust~"), vec![QueryToken::Fuzzy("rust".to_string(), 2)]);
    assert_eq!(tokenize_query("rust~300"), vec![QueryToken::Fuzzy("rust".to_string(), 2)]);
    assert_eq!(tokenize_query("rust~007"), vec![QueryToken::Fuzzy("rust".to_string(), 7)]);
    // A fuzzy mark with no term before it is dropped.
    assert_eq!(tokenize_query("~3 rust"), vec![QueryToken::Term("rust".to_string())]);
    // Only a term becomes fuzzy.
    assert_eq!(tokenize_query("\"a b\"~1"), vec![QueryToken::Phrase("a b".to_string())]);
}

#[test]
fn tokenize_field_pairs() {
    assert_eq!(
        tokenize_query("title:rust a: :b c:d:e"),
        vec![
            QueryToken::Field("title".to_string(), "rust".to_string()),
            QueryToken::Term("a:".to_string()),
            QueryToken::Field("".to_string(), "b".to_string()),
            QueryToken::Field("c".to_string(), "d:e".to_string()),
        ]
    );
}

#[test]
fn tokenize_unicode_whitespace() {
    assert_eq!(
        tokenize_query("a\u{3000}b\u{a0}c"),
        vec![
            QueryToken::Term("a".to_string()),
            QueryToken::Term("b".to_string()),
            QueryToken::Term("c".to_string()),
        ]
    );
}

#[test]
fn blank_query_matches_all() {
    let s = schema();
    let p = SearchQueryParser::new(&s);
    assert_eq!(p.parse("   \t ", &no_filters()).unwrap(), QueryNode::All);
    assert_eq!(p.parse("", &no_filters()).unwrap(), QueryNode::All);
}

#[test]
fn term_searches_weighted_fields() {
    let s = schema();
    let p = SearchQueryParser::new(&s);
    assert_eq!(p.parse("rust", &no_filters()).unwrap(), all_fields_term("rust"));
}

#[test]
fn two_terms_are_optional_and_makes_next_required() {
    let s = schema();
    let p = SearchQueryParser::new(&s);
    assert_eq!(
        p.parse("a b", &no_filters()).unwrap(),
        QueryNode::Boolean {
            clauses: vec![(Occur::Should, all_fields_term("a")), (Occur::Should, all_fields_term("b"))]
        }
    );
    assert_eq!(
        p.parse("a AND b c", &no_filters()).unwrap(),
        QueryNode::Boolean {
            clauses: vec![
                (Occur::Should, all_fields_term("a")),
                (Occur::Must, all_fields_term("b")),
                (Occur::Should, all_fields_term("c")),
            ]
        }
    );
}

#[test]
fn lone_not_excludes_from_everything() {
    let s = schema();
    let p = SearchQueryParser::new(&s);
    assert_eq!(
        p.parse("NOT spam", &no_filters()).unwrap(),
        QueryNode::Boolean {
            clauses: vec![(Occur::Must, QueryNode::All), (Occur::MustNot, all_fields_term("spam"))]
        }
    );
    // A trailing NOT is ignored.
    assert_eq!(p.parse("rust NOT", &no_filters()).unwrap(), all_fields_term("rust"));
    // A lone operator leaves nothing to search: everything matches.
    assert_eq!(p.parse("AND", &no_filters()).unwrap(), QueryNode::All);
}

#[test]
fn single_required_term_is_the_term() {
    let s = schema();
    let p = SearchQueryParser::new(&s);
    assert_eq!(p.parse("AND rust", &no_filters()).unwrap(), all_fields_term("rust"));
}

#[test]
fn field_queries() {
    let s = schema();
    let p = SearchQueryParser::new(&s);
    assert_eq!(p.parse("title:rust", &no_filters()).unwrap(), term(2, "rust"));
    assert_eq!(p.parse("source:slack", &no_filters()).unwrap(), term(0, "slack"));
    let e = p.parse("nosuch:value", &no_filters()).unwrap_err();
    assert_eq!(e, "Unknown field: nosuch");
    assert_eq!(
        p.build_field_query("content", "rust~~").unwrap(),
        QueryNode::FuzzyPrefix { field: 3, text: "rust".to_string(), distance: 2 }
    );
    assert_eq!(p.build_field_query("content", "\"\"").unwrap(), QueryNode::Empty);
}

#[test]
fn fuzzy_term_over_all_fields() {
    let s = schema();
    let p = SearchQueryParser::new(&s);
    let fuzzy = |f: usize| QueryNode::FuzzyPrefix { field: f, text: "rust".to_string(), distance: 1 };
    assert_eq!(
        p.parse("rust~1", &no_filters()).unwrap(),
        QueryNode::Boolean {
            clauses: vec![
                (Occur::Should, fuzzy(2)),
                (Occur::Should, fuzzy(3)),
                (Occur::Should, fuzzy(5)),
                (Occur::Should, fuzzy(8)),
            ]
        }
    );
}

#[test]
fn phrase_over_all_fields() {
    let s = schema();
    let p = SearchQueryParser::new(&s);
    let q = p.parse("\"rust\"", &no_filters()).unwrap();
    let words = vec!["rust".to_string()];
    let phrase = |f: usize| QueryNode::Phrase { field: f, words: words.clone() };
    assert_eq!(
        q,
        QueryNode::Boolean {
            clauses: vec![
                (Occur::Should, QueryNode::Boost { query: Box::new(phrase(2)), factor: 3 }),
                (Occur::Should, phrase(3)),
                (Occur::Should, phrase(5)),
                (Occur::Should, QueryNode::Boost { query: Box::new(phrase(8)), factor: 2 }),
            ]
        }
    );
}

#[test]
fn filters_are_required_clauses() {
    let s = schema();
    let p = SearchQueryParser::new(&s);
    let f = SearchFilters {
        source: Some(vec!["slack".to_string(), "notion".to_string()]),
        author: None,
        tags: Some(vec![]),
        from_date: Some(10),
        to_date: None,
    };
    let raw = |field: usize, t: &str| QueryNode::Term { field, text: t.to_string(), positions: false };
    assert_eq!(
        p.parse("", &f).unwrap(),
        QueryNode::Boolean {
            clauses: vec![
                (Occur::Must, QueryNode::All),
                (
                    Occur::Must,
                    QueryNode::Boolean {
                        clauses: vec![(Occur::Should, raw(0, "slack")), (Occur::Should, raw(0, "notion"))]
                    }
                ),
                (Occur::Must, QueryNode::Boolean { clauses: vec![] }),
                (
                    Occur::Must,
                    QueryNode::Range { field_name: "updated_at".to_string(), lower: Some(10), upper: None }
                ),
            ]
        }
    );
}

#[test]
fn date_range_filter_bounds() {
    let s = schema();
    let p = SearchQueryParser::new(&s);
    let f = SearchFilters { source: None, author: None, tags: None, from_date: Some(1), to_date: Some(2) };
    let q = p.build_filter_queries(&f).unwrap();
    assert_eq!(
        q,
        vec![QueryNode::Range { field_name: "updated_at".to_string(), lower: Some(1), upper: Some(2) }]
    );
    let f = SearchFilters { source: None, author: None, tags: None, from_date: None, to_date: Some(2) };
    assert_eq!(
        p.build_filter_queries(&f).unwrap(),
        vec![QueryNode::Range { field_name: "updated_at".to_string(), lower: None, upper: Some(2) }]
    );
}

#[test]
fn searchable_fields_and_boosts() {
    let s = schema();
    let p = SearchQueryParser::new(&s);
    assert_eq!(p.get_searchable_fields(), vec![2, 3, 5, 8]);
    assert_eq!(p.get_field_boost("title"), 3);
    assert_eq!(p.get_field_boost("tags"), 2);
    assert_eq!(p.get_field_boost("content"), 1);
}
