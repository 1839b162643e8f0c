use symposium::collections::StringMap;
use symposium::domain::issue::{Comment, Issue};
use symposium::error::Error;
use symposium::prompt::{
    agent_dir, build_prompt, build_prompt_full, build_prompt_with_workspace, format_comments,
    prompt_result, resolve_agent_dir, RenderStage,
};

fn issue(identifier: &str, title: &str) -> Issue {
    Issue {
        identifier: identifier.to_string(),
        title: title.to_string(),
        description: None,
        status: "Todo".to_string(),
        priority: None,
        url: None,
        notion_page_id: None,
        blockers: vec![],
        source: "notion".to_string(),
        extra: StringMap::new(),
        comments: vec![],
        workflow_id: String::new(),
    }
}

#[test]
fn test_basic_render() {
    let issue = Issue {
        description: Some("Something is broken".to_string()),
        priority: Some("High".to_string()),
        url: Some("https://notion.so/page".to_string()),
        notion_page_id: Some("abc123".to_string()),
        ..issue("TASK-123", "Fix the bug")
    };

    let template = "Work on {{ issue.identifier }}: {{ issue.title }}\n{{ issue.description }}";
    let result = build_prompt(template, &issue, None).unwrap();
    assert_eq!(result, "Work on TASK-123: Fix the bug\nSomething is broken");
}

#[test]
fn test_attempt_render() {
    let issue = Issue {
        status: "In Progress".to_string(),
        ..issue("TASK-456", "Another task")
    };

    let template = "{% if attempt %}Retry #{{ attempt }}{% endif %} {{ issue.identifier }}";
    let result = build_prompt(template, &issue, Some(3)).unwrap();
    assert!(result.contains("Retry #3"));
    assert!(result.contains("TASK-456"));
}

#[test]
fn test_extra_properties_render() {
    let mut extra = StringMap::new();
    extra.insert("platform".to_string(), "iOS".to_string());
    let issue = Issue {
        status: "On Deck".to_string(),
        priority: Some("P1".to_string()),
        extra,
        ..issue("BUG-1", "Crash")
    };

    let template = "Platform: {{ issue.platform }}";
    let result = build_prompt(template, &issue, None).unwrap();
    assert_eq!(result, "Platform: iOS");
}

#[test]
fn test_comments_render() {
    let issue = Issue {
        comments: vec![
            Comment {
                author: "Alice".to_string(),
                body: "This happens on login".to_string(),
                created_at: Some("2026-03-01T10:00:00Z".to_string()),
            },
            Comment {
                author: "Bob".to_string(),
                body: "Confirmed on staging".to_string(),
                created_at: None,
            },
        ],
        ..issue("TASK-789", "Auth bug")
    };

    let template = "{% if issue.comments != blank %}Comments:\n{{ issue.comments }}{% endif %}";
    let result = build_prompt(template, &issue, None).unwrap();
    assert!(result.contains("**Alice** (2026-03-01T10:00:00Z): This happens on login"));
    assert!(result.contains("**Bob**: Confirmed on staging"));
}

#[test]
fn test_empty_comments_render() {
    let issue = issue("TASK-000", "No comments");

    let template = "{% if issue.comments != blank %}Comments:\n{{ issue.comments }}{% else %}No comments{% endif %}";
    let result = build_prompt(template, &issue, None).unwrap();
    assert_eq!(result, "No comments");
}

#[test]
fn test_base_branch_render() {
    let issue = issue("TASK-1", "Test");

    let template = "git rebase origin/{{ base_branch }}";
    let result =
        build_prompt_full(template, &issue, None, None, Some("symposium/task-TASK-99")).unwrap();
    assert_eq!(result, "git rebase origin/symposium/task-TASK-99");
}

#[test]
fn test_resolve_agent_dir_with_liquid() {
    let ios_issue = issue("TASK-1", "[iOS] Gate: swipe gesture");
    let backend_issue = Issue {
        title: "[Backend] API endpoints".to_string(),
        ..ios_issue.clone()
    };

    let ws = "/tmp/workspace";
    let tmpl = "{% if issue.title contains '[iOS]' %}mail-ios{% endif %}";

    // iOS task → subdirectory
    let dir = resolve_agent_dir(ws, Some(tmpl), &ios_issue);
    assert_eq!(dir, "/tmp/workspace/mail-ios");

    // Backend task → workspace root (template renders to empty)
    let dir = resolve_agent_dir(ws, Some(tmpl), &backend_issue);
    assert_eq!(dir, "/tmp/workspace");

    // No template → workspace root
    let dir = resolve_agent_dir(ws, None, &ios_issue);
    assert_eq!(dir, "/tmp/workspace");
}

#[test]
fn workspace_is_rendered_where_it_is_known() {
    let issue = issue("A/B", "T");
    let template = "{{ workspace }}|{{ issue.safe_identifier }}|{{ issue.status }}";
    let result = build_prompt_with_workspace(template, &issue, None, Some("/ws/A-B")).unwrap();
    assert_eq!(result, "/ws/A-B|A-B|Todo");
}

#[test]
fn own_fields_are_kept_beside_extras() {
    let mut with_extra = issue("TASK-1", "Own");
    with_extra.extra.insert("platform".to_string(), "iOS".to_string());
    let result = build_prompt(
        "{{ issue.title }} {{ issue.extra.platform }} {{ issue.platform }}",
        &with_extra,
        None,
    );
    assert_eq!(result.unwrap(), "Own iOS iOS");
}

#[test]
fn broken_templates_are_reported() {
    let issue = issue("TASK-1", "T");
    let broken = build_prompt("{% if %}", &issue, None).unwrap_err();
    assert!(matches!(broken, Error::Prompt(_)));
    assert!(broken.message().contains("parse"));
    let unknown = build_prompt("{{ issue.nothing_of_the_kind }}", &issue, None).unwrap_err();
    assert!(matches!(unknown, Error::Prompt(_)));
}

#[test]
fn outcomes_become_results() {
    assert_eq!(prompt_result(Ok("text".to_string())).unwrap(), "text");
    let parse = prompt_result(Err((RenderStage::Parse, "why".to_string()))).unwrap_err();
    let render = prompt_result(Err((RenderStage::Render, "why".to_string()))).unwrap_err();
    assert!(matches!(parse, Error::Prompt(_)));
    assert!(matches!(render, Error::Prompt(_)));
    assert!(parse.message().ends_with("why"));
    assert_ne!(parse.message(), render.message());
}

#[test]
fn comments_are_listed_in_order() {
    assert_eq!(format_comments(&vec![]), "");
    let comments = vec![
        Comment { author: "A".to_string(), body: "one".to_string(), created_at: None },
        Comment {
            author: "B".to_string(),
            body: "two".to_string(),
            created_at: Some("now".to_string()),
        },
    ];
    let text = format_comments(&comments);
    assert!(text.starts_with("**A**: one"));
    assert!(text.ends_with("**B** (now): two"));
}

#[test]
fn agent_directory_follows_the_rendered_text() {
    assert_eq!(agent_dir("/ws", &Ok("  sub ".to_string())), "/ws/sub");
    assert_eq!(agent_dir("/ws", &Ok(" \n".to_string())), "/ws");
    assert_eq!(agent_dir("/ws", &Ok("/abs".to_string())), "/abs");
    assert_eq!(agent_dir("/ws", &Err(Error::Prompt("x".to_string()))), "/ws");
}
