use symposium::agent::process::parse_line;
use symposium::config::schema::TrackerConfig;
use symposium::json::Json;
use symposium::tracker::notion::{
    comments_arguments, fetch_arguments, make_comment, query_arguments, NotionTracker,
};

fn tracker() -> NotionTracker {
    NotionTracker::new(TrackerConfig::default())
}

#[test]
fn parse_comments_xml_basic() {
    let xml = r#"<discussions total-count="1" shown-count="1">
<discussion id="disc-1" comment-count="2" resolved="false" type="comment" context="page">
<comment id="c1" user-url="user://alice-uuid" datetime="2026-03-01T10:00:00.000Z">This happens on login</comment>
<comment id="c2" user-url="user://bob-uuid" datetime="2026-03-02T14:30:00.000Z">Confirmed on staging</comment>
</discussion>
</discussions>"#;

    let comments = NotionTracker::parse_comments_xml(xml);
    assert_eq!(comments.len(), 2);
    assert_eq!(comments[0].author, "alice-uuid");
    assert_eq!(comments[0].body, "This happens on login");
    assert_eq!(comments[0].created_at.as_deref(), Some("2026-03-01T10:00:00.000Z"));
    assert_eq!(comments[1].author, "bob-uuid");
    assert_eq!(comments[1].body, "Confirmed on staging");
}

#[test]
fn parse_comments_from_mcp_content_wrapper() {
    let xml = r#"<discussions><discussion><comment id="c1" user-url="user://carol-uuid" datetime="2026-03-03T09:00:00.000Z">Fix the auth check</comment></discussion></discussions>"#;
    let data = Json::Object(vec![(
        "content".to_string(),
        Json::Array(vec![Json::Object(vec![
            ("type".to_string(), Json::Str("text".to_string())),
            ("text".to_string(), Json::Str(xml.to_string())),
        ])]),
    )]);

    let comments = NotionTracker::parse_comments(&data);
    assert_eq!(comments.len(), 1);
    assert_eq!(comments[0].author, "carol-uuid");
    assert_eq!(comments[0].body, "Fix the auth check");
}

#[test]
fn parse_comments_strips_inline_tags() {
    let xml = r#"<discussions><discussion>
<comment id="c1" user-url="user://uuid1" datetime="2026-01-05T19:25:00.000Z"><mention-user url="user://other"/> you should fix this<br/>See the logs</comment>
</discussion></discussions>"#;

    let comments = NotionTracker::parse_comments_xml(xml);
    assert_eq!(comments.len(), 1);
    assert_eq!(comments[0].body, "you should fix this\nSee the logs");
}

#[test]
fn parse_comments_skips_empty_body() {
    let xml = r#"<discussions><discussion>
<comment id="c1" user-url="user://uuid1" datetime="2026-01-01T00:00:00Z"><mention-user url="user://x"/></comment>
<comment id="c2" user-url="user://uuid2" datetime="2026-01-02T00:00:00Z">Real comment</comment>
</discussion></discussions>"#;

    let comments = NotionTracker::parse_comments_xml(xml);
    assert_eq!(comments.len(), 1);
    assert_eq!(comments[0].body, "Real comment");
}

#[test]
fn parse_comments_missing_user_url_defaults() {
    let xml = r#"<discussions><discussion>
<comment id="c1" datetime="2026-01-01T00:00:00Z">Anonymous comment</comment>
</discussion></discussions>"#;

    let comments = NotionTracker::parse_comments_xml(xml);
    assert_eq!(comments.len(), 1);
    assert_eq!(comments[0].author, "Unknown");
}

#[test]
fn parse_comments_empty_discussions() {
    let xml = r#"<discussions total-count="0" shown-count="0"></discussions>"#;

    let comments = NotionTracker::parse_comments_xml(xml);
    assert!(comments.is_empty());
}

#[test]
fn parse_comments_from_text_field() {
    let xml = r#"<discussions><discussion><comment id="c1" user-url="user://uuid1" datetime="2026-01-01T00:00:00Z">Direct text</comment></discussion></discussions>"#;
    let data = Json::Object(vec![("text".to_string(), Json::Str(xml.to_string()))]);

    let comments = NotionTracker::parse_comments(&data);
    assert_eq!(comments.len(), 1);
    assert_eq!(comments[0].body, "Direct text");
}

#[test]
fn comments_need_a_body() {
    assert!(make_comment(None, None, "  ").is_none());
    let comment = make_comment(Some("a".to_string()), None, " text ").unwrap();
    assert_eq!(comment.author, "a");
    assert_eq!(comment.body, "text");
    assert_eq!(comment.created_at, None);
}

#[test]
fn status_query_holds_all_conditions() {
    let config = TrackerConfig {
        property_status: "Status".to_string(),
        property_assignee: "Owner".to_string(),
        assignee_user_id: Some("u1".to_string()),
        skip_if_set: Some("PR".to_string()),
        ..TrackerConfig::default()
    };
    let statuses = vec!["Todo".to_string(), "On deck".to_string()];
    let plain = tracker();
    assert_eq!(
        NotionTracker::new(config).build_status_query("ds", &statuses),
        "SELECT * FROM \"ds\" WHERE \"Status\" IN ('Todo', 'On deck') AND \"Owner\" LIKE '%u1%' AND \"PR\" IS NULL"
    );
    assert!(!plain.build_status_query("ds", &statuses).contains("LIKE"));
}

#[test]
fn data_sources_are_collections() {
    let with_id = |id: &str| {
        NotionTracker::new(TrackerConfig {
            database_id: id.to_string(),
            ..TrackerConfig::default()
        })
    };
    assert_eq!(with_id("abc").data_source_url(), "collection://abc");
    assert_eq!(with_id("").data_source_url(), "collection://");
}

#[test]
fn properties_are_read_in_every_shape() {
    let props = parse_line(
        r#"{"a":"text","b":{"title":[{"plain_text":"x"},{"plain_text":"y"}]},"c":{"select":{"name":"s"}},"d":{"status":{"name":"t"}},"e":7,"f":null}"#,
    )
    .unwrap();
    let t = tracker();
    assert_eq!(t.extract_property(&props, "a").as_deref(), Some("text"));
    assert_eq!(t.extract_property(&props, "b").as_deref(), Some("xy"));
    assert_eq!(t.extract_property(&props, "c").as_deref(), Some("s"));
    assert_eq!(t.extract_property(&props, "d").as_deref(), Some("t"));
    assert_eq!(t.extract_property(&props, "missing"), None);
}

#[test]
fn rows_become_issues() {
    let config = TrackerConfig::default();
    let row = format!(
        r#"{{"url":"https://n/1","id":"page-1","{}":"12","{}":"Fix it","{}":"Todo","Severity":"bad"}}"#,
        config.property_id, config.property_title, config.property_status
    );
    let prefixed = NotionTracker::new(TrackerConfig {
        id_prefix: Some("BUG-".to_string()),
        ..TrackerConfig::default()
    });
    let issue = prefixed.parse_issue_row(&parse_line(&row).unwrap()).unwrap();
    assert_eq!(issue.identifier, "BUG-12");
    assert_eq!(issue.title, "Fix it");
    assert_eq!(issue.status, "Todo");
    assert_eq!(issue.source, "notion");
    assert_eq!(issue.url.as_deref(), Some("https://n/1"));
    assert_eq!(issue.notion_page_id.as_deref(), Some("page-1"));

    let answer = format!(r#"{{"results":[{row},{{}}]}}"#);
    assert_eq!(prefixed.read_issues(&parse_line(&answer).unwrap()).len(), 1);
    let text = Json::Object(vec![(
        "content".to_string(),
        Json::Array(vec![Json::Object(vec![("text".to_string(), Json::Str(answer))])]),
    )]);
    assert_eq!(prefixed.extract_issues(&text).len(), 1);
    assert!(prefixed.parse_issue_row(&parse_line("{}").unwrap()).is_none());
}

#[test]
fn tool_arguments_have_their_shapes() {
    let query = query_arguments("collection://x", "SELECT 1");
    let data = query.get("data").unwrap();
    assert_eq!(data.str_at("query"), Some("SELECT 1"));
    assert_eq!(data.array_at("data_source_urls").unwrap()[0].as_str(), Some("collection://x"));
    assert_eq!(fetch_arguments("u").str_at("url"), Some("u"));
    assert_eq!(comments_arguments("p").str_at("page_id"), Some("p"));
}
