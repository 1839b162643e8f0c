use symposium::agent::process::parse_line;
use symposium::config::schema::SentryConfig;
use symposium::error::Error;
use symposium::tracker::sentry::{SentryFields, SentryTracker};

fn make_config() -> SentryConfig {
    SentryConfig { min_events: 1, ..SentryConfig::default() }
}

fn section(short_id: &str, events: &str) -> String {
    format!("## 1. [{short_id}](https://sentry.io/{short_id}/)\n\n**Title**\n\n- **Events**: {events}\n")
}

#[test]
fn parse_issue_list_from_markdown() {
    let tracker = SentryTracker::new(make_config());
    let text = r#"# Issues in **notion/mail-ios**

Found **2** issues:

## 1. [MAIL-IOS-1A3](https://notion.sentry.io/issues/MAIL-IOS-1A3/)

**NullPointerException in FooBar**

- **Status**: unresolved
- **Users**: 5
- **Events**: 42
- **First seen**: 3 days ago
- **Last seen**: 2 hours ago
- **Culprit**: `com.example.FooBar.process`

## 2. [MAIL-IOS-2B7](https://notion.sentry.io/issues/MAIL-IOS-2B7/)

**IndexOutOfBounds in ListView**

- **Status**: unresolved
- **Users**: 12
- **Events**: 100
- **First seen**: 1 day ago
- **Last seen**: 30 minutes ago

## Next Steps

- Get more details about a specific issue
"#;

    let issues = tracker.parse_issue_list(text);

    assert_eq!(issues.len(), 2);

    let first = &issues[0];
    assert_eq!(first.identifier, "sentry:MAIL-IOS-1A3");
    assert_eq!(first.title, "NullPointerException in FooBar");
    assert_eq!(first.source, "sentry");
    assert_eq!(first.status, "unresolved");
    assert_eq!(
        first.url,
        Some("https://notion.sentry.io/issues/MAIL-IOS-1A3/".to_string())
    );
    assert_eq!(first.extra.get("event_count").unwrap(), "42");
    assert_eq!(first.extra.get("user_count").unwrap(), "5");
    assert_eq!(first.extra.get("culprit").unwrap(), "com.example.FooBar.process");

    let second = &issues[1];
    assert_eq!(second.identifier, "sentry:MAIL-IOS-2B7");
    assert_eq!(second.title, "IndexOutOfBounds in ListView");
    assert_eq!(second.extra.get("event_count").unwrap(), "100");
}

#[test]
fn parse_filters_below_min_events() {
    let config = SentryConfig { min_events: 50, ..SentryConfig::default() };

    let text = r#"## 1. [TEST-1](https://sentry.io/issues/TEST-1/)

**Low count issue**

- **Status**: unresolved
- **Users**: 1
- **Events**: 3
- **First seen**: 1 day ago
- **Last seen**: 1 hour ago
"#;

    let issues = SentryTracker::new(config).parse_issue_list(text);
    assert!(issues.is_empty());
}

#[test]
fn parse_empty_results() {
    let tracker = SentryTracker::new(make_config());
    let text = "No issues found matching your search criteria.";
    let issues = tracker.parse_issue_list(text);
    assert!(issues.is_empty());
}

#[test]
fn build_query_with_custom_query() {
    let tracker = SentryTracker::new(SentryConfig {
        project: "mail-ios".to_string(),
        query: "release:[so.notion.Mail@1.7.*,so.notion.Mail@1.8.*]".to_string(),
        ..SentryConfig::default()
    });

    let query = tracker.build_query(false);
    assert_eq!(
        query,
        "project:mail-ios is:unresolved release:[so.notion.Mail@1.7.*,so.notion.Mail@1.8.*]"
    );

    let query = tracker.build_query(true);
    assert_eq!(
        query,
        "project:mail-ios is:resolved release:[so.notion.Mail@1.7.*,so.notion.Mail@1.8.*]"
    );
}

#[test]
fn build_query_empty_query() {
    let tracker = SentryTracker::new(SentryConfig {
        project: "my-project".to_string(),
        ..SentryConfig::default()
    });

    let query = tracker.build_query(false);
    assert_eq!(query, "project:my-project is:unresolved");
}

#[test]
fn extract_field_parses_metadata() {
    let section = "- **Status**: unresolved\n- **Events**: 42\n- **Culprit**: `foo.bar`\n";
    assert_eq!(
        SentryTracker::extract_field(section, "Status"),
        Some("unresolved".to_string())
    );
    assert_eq!(SentryTracker::extract_field(section, "Events"), Some("42".to_string()));
    assert_eq!(
        SentryTracker::extract_field(section, "Culprit"),
        Some("`foo.bar`".to_string())
    );
    assert_eq!(SentryTracker::extract_field(section, "Missing"), None);
}

#[test]
fn extract_bold_line_gets_title() {
    let section = "## 1. [X](url)\n\n**My Title**\n\n- **Status**: ok\n";
    assert_eq!(SentryTracker::extract_bold_line(section), "My Title");
}

#[test]
fn issues_of_other_projects_are_left_out() {
    let tracker = SentryTracker::new(SentryConfig {
        project: "mail-ios".to_string(),
        min_events: 1,
        ..SentryConfig::default()
    });
    let text = section("MAIL-IOS-1", "5") + &section("MAIL-ANDROID-2", "5");
    let issues = tracker.parse_issue_list(&text);
    assert_eq!(issues.len(), 1);
    assert_eq!(issues[0].identifier, "sentry:MAIL-IOS-1");
}

#[test]
fn identifiers_carry_the_configured_prefix() {
    let tracker = SentryTracker::new(SentryConfig {
        id_prefix: "S-".to_string(),
        min_events: 5,
        ..SentryConfig::default()
    });
    let issues = tracker.parse_issue_list(&section("APP-1", "5"));
    assert_eq!(issues[0].identifier, "S-APP-1");
    assert_eq!(tracker.short_id("S-APP-1"), "APP-1");
    assert_eq!(tracker.short_id("APP-1"), "APP-1");
}

#[test]
fn issue_is_described_by_its_fields() {
    let tracker = SentryTracker::new(SentryConfig { min_events: 2, ..SentryConfig::default() });
    let fields = |events: &str| SentryFields {
        short_id: "A-1".to_string(),
        url: String::new(),
        title: "Crash".to_string(),
        status: None,
        users: Some("many".to_string()),
        events: Some(events.to_string()),
        first_seen: None,
        last_seen: Some("now".to_string()),
        culprit: Some("``f``".to_string()),
    };
    let issue = tracker.make_issue(&fields("2")).unwrap();
    assert_eq!(
        issue.description.as_deref(),
        Some("Sentry crash: Crash\n\nCulprit: f\nEvents: 2 | Users affected: 0\nFirst seen:  | Last seen: now\nSentry link: ")
    );
    assert_eq!(issue.priority.as_deref(), Some("High"));
    assert_eq!(issue.url, None);
    assert_eq!(issue.status, "");
    assert!(tracker.make_issue(&fields("1")).is_none());
    assert!(tracker.make_issue(&fields("x")).is_none());
}

#[test]
fn answers_are_read_by_their_text() {
    let tracker = SentryTracker::new(make_config());
    let answer = r###"{"content":[{"type":"text","text":"## 1. [A-1](u)\n\n**T**\n\n- **Events**: 3\n"},{"type":"text","text":"## 2. [A-2](u)\n\n**U**\n\n- **Events**: 4\n"}]}"###;
    let json = parse_line(answer).unwrap();
    assert!(SentryTracker::extract_text(&json).contains("A-2"));
    assert_eq!(tracker.read_search(&json).len(), 2);
    assert_eq!(tracker.read_detail(&json).unwrap().identifier, "sentry:A-1");

    let failed = r###"{"isError":true,"content":[{"text":"## 1. [A-1](u)\n\n**T**\n\n- **Events**: 3\n"}]}"###;
    assert!(tracker.read_search(&parse_line(failed).unwrap()).is_empty());
    assert!(tracker.read_detail(&parse_line("{}").unwrap()).is_none());
}

#[test]
fn questions_name_the_organization_and_project() {
    let tracker = SentryTracker::new(SentryConfig {
        org: "acme".to_string(),
        project: "app".to_string(),
        ..SentryConfig::default()
    });
    let search = tracker.search_arguments(false);
    assert_eq!(search.str_at("organizationSlug"), Some("acme"));
    assert_eq!(search.str_at("naturalLanguageQuery"), Some("project:app is:unresolved"));
    assert_eq!(search.str_at("projectSlugOrId"), Some("app"));
    let detail = tracker.detail_arguments("APP-1");
    assert_eq!(detail.str_at("organizationSlug"), Some("acme"));
    assert_eq!(detail.str_at("issueId"), Some("APP-1"));
    assert!(matches!(tracker.agent_query(), Error::Tracker(_)));
}
