use unified_search::engine::index_manager::{
    build_schema, compute_facets, document_entries_of, facet_buckets, page, same_document, stored_to_document,
    FieldKind, IndexValue, StoredDoc, StoredValue,
};
use unified_search::engine::query::{Occur, QueryNode};
use unified_search::connector::Timestamp;
use unified_search::schema::document::{Document, FacetBucket};
use unified_search::time::{MAX_TIMESTAMP, MIN_TIMESTAMP};

fn doc(source: &str, id: &str, author: Option<&str>, tags: &[&str]) -> Document {
    Document {
        source: source.to_string(),
        source_id: id.to_string(),
        title: "T".to_string(),
        content: "C".to_string(),
        url: None,
        author: author.map(|a| a.to_string()),
        created_at: Timestamp { secs: 100, nanos: 0 },
        updated_at: Timestamp { secs: 200, nanos: 0 },
        tags: tags.iter().map(|t| t.to_string()).collect(),
        project: Some("p".to_string()),
    }
}

fn bucket(v: &str, c: usize) -> FacetBucket {
    FacetBucket { value: v.to_string(), count: c }
}

#[test]
fn schema_fields_in_order() {
    let s = build_schema();
    let names: Vec<&str> = s.fields.iter().map(|f| f.name.as_str()).collect();
    assert_eq!(
        names,
        vec!["source", "source_id", "title", "content", "url", "author", "created_at", "updated_at", "tags", "project"]
    );
    assert_eq!(s.fields[0].kind, FieldKind::Raw);
    assert_eq!(s.fields[2].kind, FieldKind::Analyzed { tokenizer: "default_mixed".to_string() });
    assert_eq!(s.fields[6].kind, FieldKind::I64);
    assert!(s.fields.iter().all(|f| f.stored));
    assert_eq!(s.get_field("tags"), Some(8));
    assert_eq!(s.get_field("nothing"), None);
}

#[test]
fn document_entries_in_field_order() {
    let d = doc("slack", "1", None, &["x", "y"]);
    let e = document_entries_of(&d);
    assert_eq!(
        e,
        vec![
            (0, IndexValue::Text("slack".to_string())),
            (1, IndexValue::Text("1".to_string())),
            (2, IndexValue::Text("T".to_string())),
            (3, IndexValue::Text("C".to_string())),
            (4, IndexValue::Text("".to_string())),
            (5, IndexValue::Text("".to_string())),
            (6, IndexValue::I64(100)),
            (7, IndexValue::I64(200)),
            (8, IndexValue::Text("x".to_string())),
            (8, IndexValue::Text("y".to_string())),
            (9, IndexValue::Text("p".to_string())),
        ]
    );
}

#[test]
fn replace_query_is_source_and_id() {
    let d = doc("slack", "42", None, &[]);
    assert_eq!(
        same_document(&d),
        QueryNode::Boolean {
            clauses: vec![
                (Occur::Must, QueryNode::Term { field: 0, text: "slack".to_string(), positions: false }),
                (Occur::Must, QueryNode::Term { field: 1, text: "42".to_string(), positions: false }),
            ]
        }
    );
}

fn stored(d: &Document) -> StoredDoc {
    let mut fields: Vec<Vec<StoredValue>> = (0..10).map(|_| Vec::new()).collect();
    for (f, v) in document_entries_of(d) {
        fields[f].push(match v {
            IndexValue::Text(s) => StoredValue::Str(s),
            IndexValue::I64(n) => StoredValue::I64(n),
        });
    }
    StoredDoc { fields }
}

#[test]
fn read_back_what_was_written() {
    let mut d = doc("notion", "abc", Some("ann"), &["t1", "t2"]);
    d.url = Some("https://x".to_string());
    let back = stored_to_document(&stored(&d)).unwrap();
    assert_eq!(back, d);
    // A missing url comes back as empty text.
    let mut d2 = d.clone();
    d2.author = None;
    d2.url = None;
    let back2 = stored_to_document(&stored(&d2)).unwrap();
    assert_eq!(back2.author, Some("".to_string()));
    assert_eq!(back2.url, Some("".to_string()));
}

#[test]
fn stored_times_keep_whole_seconds() {
    let mut d = doc("notion", "abc", None, &[]);
    d.created_at = Timestamp { secs: 100, nanos: 999 };
    d.updated_at = Timestamp { secs: MAX_TIMESTAMP, nanos: 5 };
    let back = stored_to_document(&stored(&d)).unwrap();
    assert_eq!(back.created_at, Timestamp { secs: 100, nanos: 0 });
    assert_eq!(back.updated_at, Timestamp { secs: MAX_TIMESTAMP, nanos: 0 });
    d.created_at = Timestamp { secs: MIN_TIMESTAMP, nanos: 0 };
    d.updated_at = Timestamp { secs: MIN_TIMESTAMP - 1, nanos: 0 };
    let back = stored_to_document(&stored(&d)).unwrap();
    assert_eq!(back.created_at, Timestamp { secs: MIN_TIMESTAMP, nanos: 0 });
    assert_eq!(back.updated_at, Timestamp { secs: 0, nanos: 0 });
}

#[test]
fn stored_entry_with_gaps() {
    let sd = StoredDoc {
        fields: vec![
            vec![StoredValue::I64(3)],
            vec![],
            vec![],
            vec![],
            vec![],
            vec![],
            vec![StoredValue::I64(i64::MAX)],
            vec![StoredValue::Other],
            vec![StoredValue::Str("a".to_string()), StoredValue::I64(1), StoredValue::Str("b".to_string())],
            vec![],
        ],
    };
    let d = stored_to_document(&sd).unwrap();
    assert_eq!(d.source, "");
    assert_eq!(d.url, None);
    assert_eq!(d.created_at, Timestamp { secs: 0, nanos: 0 });
    assert_eq!(d.updated_at, Timestamp { secs: 0, nanos: 0 });
    assert_eq!(d.tags, vec!["a".to_string(), "b".to_string()]);
    assert_eq!(d.project, None);
}

#[test]
fn pages_of_results() {
    let v: Vec<u32> = (1..=10).collect();
    assert_eq!(page(v.clone(), 3, 4), vec![4, 5, 6, 7]);
    assert_eq!(page(v.clone(), 8, 5), vec![9, 10]);
    assert_eq!(page(v.clone(), 20, 5), Vec::<u32>::new());
    assert_eq!(page(v.clone(), 0, usize::MAX), v);
}

#[test]
fn facet_buckets_by_count() {
    let vals: Vec<String> = ["a", "b", "a", "c", "b", "a", "d"].iter().map(|s| s.to_string()).collect();
    assert_eq!(facet_buckets(&vals), vec![bucket("a", 3), bucket("b", 2), bucket("c", 1), bucket("d", 1)]);
    assert_eq!(facet_buckets(&vec![]), vec![]);
}

#[test]
fn facets_of_a_page() {
    let docs = vec![
        doc("slack", "1", Some("ann"), &["x"]),
        doc("notion", "2", Some(""), &["x", "y"]),
        doc("slack", "3", None, &[]),
    ];
    let f = compute_facets(&docs);
    assert_eq!(f.source, vec![bucket("slack", 2), bucket("notion", 1)]);
    assert_eq!(f.author, vec![bucket("ann", 1)]);
    assert_eq!(f.tags, vec![bucket("x", 2), bucket("y", 1)]);
}
