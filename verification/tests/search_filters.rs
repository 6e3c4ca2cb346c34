use unified_search::api::search::{day_bound, split_comma_list, SearchFilters, SearchParams, SearchRequestBody, default_limit, default_offset};

fn params() -> SearchParams {
    SearchParams {
        q: "x".to_string(),
        limit: default_limit(),
        offset: default_offset(),
        source: Some(" slack, notion ,, maildir ".to_string()),
        author: None,
        tags: Some("a".to_string()),
        from_date: Some("2024-01-02".to_string()),
        to_date: Some("2024-01-02".to_string()),
    }
}

#[test]
fn query_string_lists_are_split_and_trimmed() {
    let f = SearchFilters::from(&params());
    assert_eq!(
        f.source,
        Some(vec!["slack".to_string(), "notion".to_string(), "".to_string(), "maildir".to_string()])
    );
    assert_eq!(f.author, None);
    assert_eq!(f.tags, Some(vec!["a".to_string()]));
}

#[test]
fn dates_cover_whole_days() {
    let f = SearchFilters::from(&params());
    assert_eq!(f.from_date, Some(1704153600));
    assert_eq!(f.to_date, Some(1704239999));
}

#[test]
fn bad_dates_are_dropped() {
    let mut p = params();
    p.from_date = Some("yesterday".to_string());
    p.to_date = Some("2024-13-01".to_string());
    let f = SearchFilters::from(&p);
    assert_eq!(f.from_date, None);
    assert_eq!(f.to_date, None);
}

#[test]
fn body_lists_are_kept_as_given() {
    let b = SearchRequestBody {
        q: "x".to_string(),
        limit: 20,
        offset: 0,
        source: Some(vec![" a ".to_string()]),
        author: Some(vec![]),
        tags: None,
        from_date: None,
        to_date: Some("1970-01-01".to_string()),
    };
    let f = SearchFilters::from(&b);
    assert_eq!(f.source, Some(vec![" a ".to_string()]));
    assert_eq!(f.author, Some(vec![]));
    assert_eq!(f.tags, None);
    assert_eq!(f.from_date, None);
    assert_eq!(f.to_date, Some(86399));
}

#[test]
fn comma_list_of_empty_text_has_one_empty_item() {
    assert_eq!(split_comma_list(&"".to_string()), vec!["".to_string()]);
    assert_eq!(split_comma_list(&"a,".to_string()), vec!["a".to_string(), "".to_string()]);
}

#[test]
fn defaults_of_a_request() {
    assert_eq!(default_limit(), 20);
    assert_eq!(default_offset(), 0);
}

#[test]
fn day_bounds_read_through_rfc3339() {
    assert_eq!(day_bound(&"1970-01-01".to_string(), false), Some(0));
    assert_eq!(day_bound(&"1970-01-02".to_string(), true), Some(172799));
    assert_eq!(day_bound(&"1970-01-01T00:00:00Z".to_string(), false), None);
    assert_eq!(day_bound(&"not a date".to_string(), true), None);
}
