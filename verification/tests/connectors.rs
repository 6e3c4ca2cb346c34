use unified_search::connector::confluence::ConfluenceConnector;
use unified_search::connector::local_markdown::{LocalMarkdownConnector, MarkdownFile};
use unified_search::connector::maildir::{parse_simple_email, MailFile, MaildirConnector};
use unified_search::connector::notion::NotionConnector;
use unified_search::connector::slack::SlackConnector;
use unified_search::connector::{create_connector, status_error, AnyConnector, ConnectorError, FetchContext, HttpMethod, Timestamp};
use unified_search::json::{JsonNumber, JsonValue};
use unified_search::time::{MAX_TIMESTAMP, MIN_TIMESTAMP};

fn t(secs: i64, nanos: u32) -> Timestamp {
    Timestamp { secs, nanos }
}

fn s(v: &str) -> JsonValue {
    JsonValue::Str(v.to_string())
}

fn obj(entries: Vec<(&str, JsonValue)>) -> JsonValue {
    JsonValue::Object(entries.into_iter().map(|(k, v)| (k.to_string(), v)).collect())
}

#[test]
fn create_each_connector() {
    let params = obj(vec![("path", s("/mail")), ("token", s("t")), ("channel", s("c"))]);
    match create_connector("local_markdown", &obj(vec![])).unwrap() {
        AnyConnector::LocalMarkdown(c) => assert_eq!(c.root_dir, "./docs"),
        _ => panic!("wrong connector"),
    }
    match create_connector("maildir", &params).unwrap() {
        AnyConnector::Maildir(c) => assert_eq!(c.path, "/mail"),
        _ => panic!("wrong connector"),
    }
    match create_connector("slack", &params).unwrap() {
        AnyConnector::Slack(c) => {
            assert_eq!(c.token, "t");
            assert_eq!(c.channel, "c");
        }
        _ => panic!("wrong connector"),
    }
    match create_connector("confluence", &JsonValue::Null).unwrap() {
        AnyConnector::Confluence(c) => {
            assert_eq!(c.base_url, "");
            assert_eq!(c.token, "");
            assert_eq!(c.space_key, "");
        }
        _ => panic!("wrong connector"),
    }
    match create_connector("notion", &obj(vec![("token", JsonValue::Number(JsonNumber::PosInt(3)))])).unwrap() {
        AnyConnector::Notion(c) => assert_eq!(c.token, ""),
        _ => panic!("wrong connector"),
    }
}

#[test]
fn unknown_source_type_is_config_error() {
    match create_connector("ftp", &JsonValue::Null) {
        Err(ConnectorError::Config(m)) => assert_eq!(m, "Unknown source type: ftp"),
        _ => panic!("expected a config error"),
    }
}

#[test]
fn error_messages() {
    assert_eq!(ConnectorError::Http("x".to_string()).message(), "HTTP error: x");
    assert_eq!(ConnectorError::Parse("x".to_string()).message(), "Parse error: x");
    assert_eq!(ConnectorError::Config("x".to_string()).message(), "Config error: x");
    assert_eq!(ConnectorError::Other("x".to_string()).message(), "x");
    let io = ConnectorError::Io(std::io::Error::new(std::io::ErrorKind::Other, "disk"));
    assert_eq!(io.message(), "IO error: disk");
    match status_error("Notion", "404 Not Found") {
        ConnectorError::Http(m) => assert_eq!(m, "Notion API returned status 404 Not Found"),
        _ => panic!("expected an HTTP error"),
    }
}

#[test]
fn incremental_fetch_skips_older_items() {
    let ctx = FetchContext { last_fetched_at: Some(Timestamp { secs: 100, nanos: 500 }) };
    assert!(ctx.skips(Some(Timestamp { secs: 100, nanos: 499 })));
    assert!(!ctx.skips(Some(Timestamp { secs: 100, nanos: 500 })));
    assert!(!ctx.skips(None));
    assert!(!FetchContext::full().skips(Some(Timestamp { secs: 0, nanos: 0 })));
}

#[test]
fn markdown_files_become_documents() {
    let c = LocalMarkdownConnector::new("./docs".to_string());
    assert_eq!(c.source_type(), "local_markdown");
    assert!(LocalMarkdownConnector::is_markdown_file(Some("md")));
    assert!(LocalMarkdownConnector::is_markdown_file(Some("markdown")));
    assert!(!LocalMarkdownConnector::is_markdown_file(Some("MD")));
    assert!(!LocalMarkdownConnector::is_markdown_file(None));
    let d = c.file_document("a\\b.md", None, "text".to_string(), t(1, 10), t(2, 20));
    assert_eq!(d.source_id, "a/b.md");
    assert_eq!(d.title, "untitled");
    assert_eq!(d.url, Some("file:///a/b.md".to_string()));
    assert_eq!(d.created_at, t(1, 10));
    assert_eq!(d.updated_at, t(2, 20));
    match c.missing_root_error() {
        ConnectorError::Config(m) => assert_eq!(m, "Directory does not exist: ./docs"),
        _ => panic!("expected a config error"),
    }
}

#[test]
fn missing_maildir_is_a_config_error() {
    match MaildirConnector::new("/var/mail/x".to_string()).missing_path_error() {
        ConnectorError::Config(m) => assert_eq!(m, "Maildir path does not exist: /var/mail/x"),
        _ => panic!("expected a config error"),
    }
}

#[test]
fn email_headers_and_body() {
    let raw = "From: Ann <a@x.org>\r\nSUBJECT:  Hello there \r\nDate: Thu, 01 Jan 1970 00:01:00 +0000\r\n\r\nline one\r\nline two\n";
    let (subject, from, date, body) = parse_simple_email(raw);
    assert_eq!(subject, "Hello there");
    assert_eq!(from, Some("Ann <a@x.org>".to_string()));
    assert_eq!(date, Some(t(60, 0)));
    assert_eq!(body, "line one\nline two");
}

#[test]
fn email_without_blank_line_is_all_body() {
    let (subject, from, date, body) = parse_simple_email("subject: s\nfrom: f");
    assert_eq!(subject, "s");
    assert_eq!(from, Some("f".to_string()));
    assert_eq!(date, None);
    assert_eq!(body, "subject: s\nfrom: f");
    let (subject, _, _, body) = parse_simple_email("");
    assert_eq!(subject, "(no subject)");
    assert_eq!(body, "");
}

#[test]
fn email_bad_date_clears_date() {
    let (_, _, date, _) = parse_simple_email("Date: Thu, 01 Jan 1970 00:01:00 +0000\ndate: never\n\nb");
    assert_eq!(date, None);
}

#[test]
fn mail_becomes_document() {
    let c = MaildirConnector::new("/m".to_string());
    let d = c.mail_to_document("1.eml", "Subject: Hi\n\nbody", t(77, 5));
    assert_eq!(d.source, "maildir");
    assert_eq!(d.source_id, "1.eml");
    assert_eq!(d.title, "Hi");
    assert_eq!(d.content, "body");
    assert_eq!(d.url, Some("maildir://1.eml".to_string()));
    assert_eq!(d.author, None);
    assert_eq!(d.created_at, t(77, 5));
    assert_eq!(d.updated_at, t(77, 5));
    assert_eq!(d.tags, vec!["email".to_string()]);
    let d = c.mail_to_document("2.eml", "Date: Thu, 01 Jan 1970 00:01:00 +0000\n\nbody", t(77, 5));
    assert_eq!(d.created_at, t(60, 0));
}

#[test]
fn confluence_request_and_pages() {
    let c = ConfluenceConnector::new("https://wiki/".to_string(), "tok".to_string(), "SP".to_string());
    let req = c.request().unwrap();
    assert_eq!(req.method, HttpMethod::Get);
    assert_eq!(req.url, "https://wiki/rest/api/content?spaceKey=SP&limit=50&expand=body.storage,version");
    assert_eq!(req.headers, vec![("Authorization".to_string(), "Bearer tok".to_string())]);
    let page = obj(vec![
        ("id", s("12")),
        ("title", s("Page")),
        ("body", obj(vec![("storage", obj(vec![("value", s("<p>x</p>"))]))])),
        (
            "version",
            obj(vec![
                ("number", JsonValue::Number(JsonNumber::PosInt(7))),
                ("by", obj(vec![("displayName", s("Bob"))])),
                ("when", s("1970-01-01T00:00:05.25Z")),
            ]),
        ),
    ]);
    let body = obj(vec![("results", JsonValue::Array(vec![page, obj(vec![])]))]);
    let docs = c.documents(&body, t(99, 1));
    assert_eq!(docs.len(), 2);
    assert_eq!(docs[0].source_id, "12");
    assert_eq!(docs[0].content, "<p>x</p>");
    assert_eq!(docs[0].url, Some("https://wiki/pages/viewpage.action?pageId=12".to_string()));
    assert_eq!(docs[0].author, Some("Bob".to_string()));
    assert_eq!(docs[0].created_at, t(5, 250_000_000));
    assert_eq!(docs[0].updated_at, t(5, 250_000_000));
    assert_eq!(docs[0].tags, vec!["v7".to_string()]);
    assert_eq!(docs[0].project, Some("SP".to_string()));
    assert_eq!(docs[1].tags, vec!["v0".to_string()]);
    assert_eq!(docs[1].updated_at, t(99, 1));
    let no_token = ConfluenceConnector::new("https://wiki".to_string(), "".to_string(), "SP".to_string());
    match no_token.request() {
        Err(ConnectorError::Config(m)) => assert_eq!(m, "Confluence connector requires base_url and token"),
        _ => panic!("expected a config error"),
    }
}

#[test]
fn notion_pages() {
    let c = NotionConnector::new("tok".to_string(), "db".to_string());
    let req = c.request().unwrap();
    assert_eq!(req.method, HttpMethod::Post);
    assert_eq!(req.url, "https://api.notion.com/v1/databases/db/query");
    assert_eq!(req.json_body, Some(JsonValue::Object(vec![])));
    let page = obj(vec![
        ("id", s("a-b-c")),
        (
            "properties",
            obj(vec![
                ("Body", obj(vec![("type", s("rich_text")), ("rich_text", JsonValue::Array(vec![obj(vec![("plain_text", s("x"))]), obj(vec![]), obj(vec![("plain_text", s("y"))])]))])),
                ("Name", obj(vec![("type", s("title")), ("title", JsonValue::Array(vec![obj(vec![("plain_text", s("Title"))])]))])),
            ]),
        ),
        ("created_time", s("1970-01-01T00:00:01.5Z")),
    ]);
    let docs = c.documents(&obj(vec![("results", JsonValue::Array(vec![page]))]), t(50, 0));
    assert_eq!(docs[0].title, "Title");
    assert_eq!(docs[0].content, "xy");
    assert_eq!(docs[0].url, Some("https://notion.so/abc".to_string()));
    assert_eq!(docs[0].created_at, t(1, 500_000_000));
    assert_eq!(docs[0].updated_at, t(50, 0));
    assert_eq!(docs[0].project, Some("db".to_string()));
    match NotionConnector::new("".to_string(), "db".to_string()).request() {
        Err(ConnectorError::Config(m)) => assert_eq!(m, "Notion connector requires token"),
        _ => panic!("expected a config error"),
    }
}

#[test]
fn slack_messages() {
    let c = SlackConnector::new("tok".to_string(), "C1".to_string());
    let ctx = FetchContext { last_fetched_at: Some(Timestamp { secs: -5, nanos: 0 }) };
    let req = c.request(&ctx).unwrap();
    assert_eq!(
        req.query,
        vec![
            ("channel".to_string(), "C1".to_string()),
            ("limit".to_string(), "200".to_string()),
            ("oldest".to_string(), "-5".to_string()),
        ]
    );
    let bad = obj(vec![("ok", JsonValue::Bool(false)), ("error", s("not_authed"))]);
    match c.check_answer(&bad) {
        Err(ConnectorError::Http(m)) => assert_eq!(m, "Slack API error: not_authed"),
        _ => panic!("expected an HTTP error"),
    }
    match c.check_answer(&obj(vec![])) {
        Err(ConnectorError::Http(m)) => assert_eq!(m, "Slack API error: unknown"),
        _ => panic!("expected an HTTP error"),
    }
    let msg = obj(vec![("ts", s("1512085950.000216")), ("text", s("hi"))]);
    let body = obj(vec![("ok", JsonValue::Bool(true)), ("messages", JsonValue::Array(vec![msg]))]);
    assert!(c.check_answer(&body).is_ok());
    assert_eq!(SlackConnector::message_timestamps(&body), vec!["1512085950.000216".to_string()]);
    let now = t(7, 3);
    let docs = c.documents(&body, &vec![Some(1512085950)], now);
    assert_eq!(docs[0].title, "Slack message 1512085950.000216");
    assert_eq!(docs[0].url, Some("https://slack.com/archives/C1/p1512085950000216".to_string()));
    assert_eq!(docs[0].author, Some("unknown".to_string()));
    assert_eq!(docs[0].created_at, t(1512085950, 0));
    let docs = c.documents(&body, &vec![], now);
    assert_eq!(docs[0].created_at, now);
    let docs = c.documents(&body, &vec![Some(i64::MAX)], now);
    assert_eq!(docs[0].created_at, now);
    assert_eq!(docs[0].updated_at, now);
    let docs = c.documents(&body, &vec![Some(0)], now);
    assert_eq!(docs[0].created_at, t(0, 0));
}

#[test]
fn slack_times_within_the_range_of_dates() {
    let c = SlackConnector::new("tok".to_string(), "C1".to_string());
    let msg = obj(vec![("ts", s("1.0"))]);
    let body = obj(vec![("ok", JsonValue::Bool(true)), ("messages", JsonValue::Array(vec![msg]))]);
    let now = t(7, 3);
    let at = |secs: i64| c.documents(&body, &vec![Some(secs)], now)[0].created_at;
    assert_eq!(at(MIN_TIMESTAMP), t(MIN_TIMESTAMP, 0));
    assert_eq!(at(MAX_TIMESTAMP), t(MAX_TIMESTAMP, 0));
    assert_eq!(at(MIN_TIMESTAMP - 1), now);
    assert_eq!(at(MAX_TIMESTAMP + 1), now);
}

fn md(name: &str, ext: Option<&str>, modified: Option<Timestamp>, content: Option<&str>) -> MarkdownFile {
    MarkdownFile {
        relative: name.to_string(),
        stem: Some(name.to_string()),
        extension: ext.map(|e| e.to_string()),
        modified,
        content: content.map(|c| c.to_string()),
        created_at: t(1, 0),
        updated_at: t(2, 0),
    }
}

#[test]
fn markdown_listing_gives_documents_in_order() {
    let c = LocalMarkdownConnector::new("./docs".to_string());
    let files = vec![
        md("a", Some("md"), Some(t(10, 0)), Some("A")),
        md("b", Some("txt"), Some(t(30, 0)), Some("B")),
        md("c", Some("markdown"), Some(t(20, 0)), Some("C")),
        md("d", Some("md"), None, Some("D")),
        md("e", Some("md"), Some(t(40, 0)), None),
        md("f", Some("md"), Some(t(19, 999)), Some("F")),
    ];
    let full = c.documents(&files, &FetchContext::full());
    let ids: Vec<&str> = full.iter().map(|d| d.source_id.as_str()).collect();
    assert_eq!(ids, vec!["a", "c", "d", "f"]);
    assert_eq!(full[0].content, "A");
    assert_eq!(full[0].created_at, t(1, 0));
    let since = FetchContext { last_fetched_at: Some(t(20, 0)) };
    let inc = c.documents(&files, &since);
    let ids: Vec<&str> = inc.iter().map(|d| d.source_id.as_str()).collect();
    assert_eq!(ids, vec!["c", "d"]);
    assert!(LocalMarkdownConnector::wants(&files[2], &since));
    assert!(!LocalMarkdownConnector::wants(&files[0], &since));
    assert!(!LocalMarkdownConnector::wants(&files[1], &FetchContext::full()));
}

fn mail(name: &str, modified: Option<Timestamp>, content: Option<&str>) -> MailFile {
    MailFile { filename: name.to_string(), modified, content: content.map(|c| c.to_string()), read_at: t(9, 9) }
}

#[test]
fn mail_listing_gives_documents_in_order() {
    let c = MaildirConnector::new("/m".to_string());
    let files = vec![
        mail("1", Some(t(5, 0)), Some("Subject: one\n\nx")),
        mail("2", None, Some("y")),
        mail("3", Some(t(50, 0)), None),
        mail("4", Some(t(50, 0)), Some("Subject: four\n\nz")),
    ];
    let full = c.documents(&files, &FetchContext::full());
    let ids: Vec<&str> = full.iter().map(|d| d.source_id.as_str()).collect();
    assert_eq!(ids, vec!["1", "2", "4"]);
    assert_eq!(full[1].title, "(no subject)");
    assert_eq!(full[1].created_at, t(9, 9));
    let inc = c.documents(&files, &FetchContext { last_fetched_at: Some(t(10, 0)) });
    let ids: Vec<&str> = inc.iter().map(|d| d.source_id.as_str()).collect();
    assert_eq!(ids, vec!["2", "4"]);
    assert_eq!(inc[1].title, "four");
}
