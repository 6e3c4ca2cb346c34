use unified_search::api::connector_api::available_connectors;
use unified_search::config::{default_fetch_interval_secs, default_index_dir, default_nrt_commit_interval_ms, default_port, AppConfig};
use unified_search::connector::Timestamp;
use unified_search::engine::analyzer::{search_words, JiebaTokenizer};
use unified_search::engine::highlight::{combine_snippets, field_snippet, has_highlight};
use unified_search::json::{JsonNumber, JsonValue};
use unified_search::connector::{AnyConnector, ConnectorError};
use unified_search::scheduler::{should_fetch, ConnectorRegistry, ConnectorState, CycleAction};
use unified_search::text::{i64_to_decimal, remove_all, trim_str, trim_end_matches_char};

fn ts(secs: i64, nanos: u32) -> Timestamp {
    Timestamp { secs, nanos }
}

#[test]
fn config_defaults() {
    let c = AppConfig::default();
    assert_eq!(c.port, 8340);
    assert_eq!(c.index_dir, "./index_data");
    assert_eq!(c.fetch_interval_secs, 300);
    assert_eq!(c.nrt_commit_interval_ms, 1000);
    assert!(c.connectors.is_empty());
    assert_eq!(default_port(), 8340);
    assert_eq!(default_index_dir(), "./index_data");
    assert_eq!(default_fetch_interval_secs(), 300);
    assert_eq!(default_nrt_commit_interval_ms(), 1000);
}

#[test]
fn fetch_schedule() {
    assert!(should_fetch(None, ts(0, 0), 300));
    assert!(!should_fetch(Some(ts(100, 0)), ts(399, 999_999_999), 300));
    assert!(should_fetch(Some(ts(100, 0)), ts(400, 0), 300));
    // A last fetch in the future reads as long ago.
    assert!(should_fetch(Some(ts(500, 0)), ts(400, 0), 300));
    // Less than a second in the future rounds to zero seconds.
    assert!(!should_fetch(Some(ts(400, 5)), ts(400, 0), 1));
    assert!(should_fetch(Some(ts(400, 5)), ts(400, 0), 0));
}

fn state(t: &str, interval: u64) -> ConnectorState {
    ConnectorState { source_type: t.to_string(), params: JsonValue::Null, fetch_interval_secs: interval, last_fetched_at: None }
}

#[test]
fn registry_keeps_one_source_per_type() {
    let mut r = ConnectorRegistry::new();
    r.insert(state("slack", 1));
    r.insert(state("notion", 2));
    r.insert(state("slack", 3));
    assert_eq!(r.entries().len(), 2);
    assert_eq!(r.entries()[0].source_type, "slack");
    assert_eq!(r.entries()[0].fetch_interval_secs, 3);
    assert_eq!(r.entries()[1].fetch_interval_secs, 2);
    assert_eq!(r.position("notion"), Some(1));
    assert_eq!(r.position("maildir"), None);
}

#[test]
fn cycle_steps_through_due_sources_then_commits() {
    let mut r = ConnectorRegistry::new();
    r.insert(state("maildir", 10));
    r.insert(ConnectorState { last_fetched_at: Some(ts(100, 0)), ..state("slack", 10) });
    r.insert(state("ftp", 10));
    let now = ts(105, 0);
    match r.cycle_step(0, now) {
        CycleAction::Fetch { connector: AnyConnector::Maildir(c), ctx } => {
            assert_eq!(c.path, "");
            assert_eq!(ctx.last_fetched_at, None);
        }
        _ => panic!("expected a maildir fetch"),
    }
    assert!(matches!(r.cycle_step(1, now), CycleAction::Skip));
    match r.cycle_step(1, ts(110, 0)) {
        CycleAction::Fetch { connector: AnyConnector::Slack(_), ctx } => {
            assert_eq!(ctx.last_fetched_at, Some(ts(100, 0)))
        }
        _ => panic!("expected a slack fetch"),
    }
    match r.cycle_step(2, now) {
        CycleAction::CreateFailed { error: ConnectorError::Config(m) } => assert_eq!(m, "Unknown source type: ftp"),
        _ => panic!("expected a creation failure"),
    }
    assert!(matches!(r.cycle_step(3, now), CycleAction::Commit));
    assert!(matches!(r.cycle_step(99, now), CycleAction::Commit));
}

#[test]
fn snippets() {
    assert!(has_highlight("a <em>b</em>"));
    assert!(!has_highlight("a <e m>b"));
    assert!(!has_highlight(""));
    assert_eq!(field_snippet("".to_string()), None);
    assert_eq!(field_snippet("x".to_string()), Some("x".to_string()));
    let t = |s: &str| Some(s.to_string());
    assert_eq!(combine_snippets(t("<em>T</em>"), t("c")), t("<em>T</em>\nc"));
    assert_eq!(combine_snippets(t("T"), t("<em>c</em>")), t("<em>c</em>"));
    assert_eq!(combine_snippets(t("T"), t("c")), t("T"));
    assert_eq!(combine_snippets(t("T"), None), t("T"));
    assert_eq!(combine_snippets(None, t("<em>c</em>")), None);
}

#[test]
fn jieba_segmentation() {
    let words = search_words("hello world");
    assert_eq!(words, vec!["hello".to_string(), " ".to_string(), "world".to_string()]);
    let text = "我们是中国人";
    let spans = JiebaTokenizer::new().token_spans(text);
    assert!(!spans.is_empty());
    let chars: Vec<char> = text.chars().collect();
    for s in &spans {
        assert_eq!(s.position, s.offset_from);
        assert_eq!(s.position_length, s.offset_to - s.offset_from);
        let piece: String = chars[s.offset_from..s.offset_to].iter().collect();
        assert_eq!(piece, s.text);
    }
}

#[test]
fn token_stream_hands_out_tokens_in_order() {
    let mut stream = JiebaTokenizer::new().token_stream("a b");
    let mut seen = Vec::new();
    while stream.advance() {
        seen.push(stream.token().text.clone());
    }
    assert_eq!(seen, vec!["a".to_string(), " ".to_string(), "b".to_string()]);
    assert!(!stream.advance());
    assert_eq!(stream.token().text, "b");
}

#[test]
fn token_can_be_changed_in_place() {
    let mut stream = JiebaTokenizer::new().token_stream("a b");
    assert!(stream.advance());
    stream.token_mut().text = "A".to_string();
    assert_eq!(stream.token().text, "A");
    assert_eq!(stream.index, 1);
    assert!(stream.advance());
    assert_eq!(stream.token().text, " ");
}

#[test]
fn text_helpers() {
    assert_eq!(i64_to_decimal(0), "0");
    assert_eq!(i64_to_decimal(-123), "-123");
    assert_eq!(i64_to_decimal(i64::MIN), "-9223372036854775808");
    assert_eq!(i64_to_decimal(i64::MAX), "9223372036854775807");
    assert_eq!(remove_all("a-b--c", '-'), "abc");
    assert_eq!(trim_str("\u{2003} x y \n"), "x y");
    assert_eq!(trim_end_matches_char("http://a//", '/'), "http://a");
}

#[test]
fn json_reading() {
    let v = JsonValue::Object(vec![
        ("n".to_string(), JsonValue::Number(JsonNumber::PosInt(u64::MAX))),
        ("m".to_string(), JsonValue::Number(JsonNumber::NegInt(-4))),
        ("f".to_string(), JsonValue::Number(JsonNumber::Float)),
    ]);
    assert_eq!(v.get("n").unwrap().as_i64(), None);
    assert_eq!(v.get("m").unwrap().as_i64(), Some(-4));
    assert_eq!(v.get("f").unwrap().as_i64(), None);
    assert!(v.get("z").is_none());
    assert!(JsonValue::Null.get("n").is_none());
}

#[test]
fn connectors_on_offer() {
    let list = available_connectors();
    let types: Vec<&str> = list.iter().map(|c| c.source_type.as_str()).collect();
    assert_eq!(types, vec!["local_markdown", "confluence", "notion", "slack", "maildir"]);
    assert!(list.iter().all(|c| c.status == "available"));
    assert_eq!(
        list[0].params,
        JsonValue::Object(vec![("path".to_string(), JsonValue::Str("./docs".to_string()))])
    );
}
