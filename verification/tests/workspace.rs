use symposium::collections::StringMap;
use symposium::config::schema::HooksConfig;
use symposium::domain::issue::Issue;
use symposium::error::Error;
use symposium::paths::{
    file_name, is_within, join_path, lexical_components, normalize_lexical, parent, split_path,
};
use symposium::time::Duration;
use symposium::workspace::hooks::{hook_outcome, HookExit};
use symposium::workspace::safety::{
    check_containment, check_containment_with, sanitize_key, workspace_dir, workspace_path,
};
use symposium::workspace::{
    after_removal_hook, finish_variable, issue_of_workspace, plan_creation, plan_finish, plan_prepare, plan_removal,
    render_hook, Creation, Removal,
};

fn hooks() -> HooksConfig {
    HooksConfig {
        after_create: Some("create {{ workspace }}".to_string()),
        before_run: Some("run {{ issue.identifier }} {{ attempt }}".to_string()),
        after_run: Some("done {{ workspace }}".to_string()),
        before_remove: Some("remove {{ issue.identifier }} {{ workspace }}".to_string()),
        ..HooksConfig::default()
    }
}

fn issue() -> Issue {
    Issue {
        identifier: "TASK-1".to_string(),
        title: "T".to_string(),
        description: None,
        status: "Todo".to_string(),
        priority: None,
        url: None,
        notion_page_id: None,
        blockers: vec![],
        source: "notion".to_string(),
        extra: StringMap::new(),
        comments: vec![],
        workflow_id: String::new(),
    }
}

#[test]
fn sanitize_normal_key() {
    assert_eq!(sanitize_key("TASK-123456"), "TASK-123456");
}

#[test]
fn sanitize_path_traversal() {
    assert_eq!(sanitize_key("foo/../bar"), "foo-bar");
}

#[test]
fn sanitize_double_slash() {
    assert_eq!(sanitize_key("a//b"), "a-b");
}

#[test]
fn sanitize_special_chars() {
    assert_eq!(sanitize_key("hello world!@#"), "hello-world");
}

#[test]
fn sanitize_leading_trailing() {
    assert_eq!(sanitize_key("..foo.."), "foo");
}

#[test]
fn containment_valid() {
    assert!(check_containment("/a/b", "/a/b/c").is_ok());
}

#[test]
fn containment_invalid() {
    assert!(check_containment("/a/b", "/a/c").is_err());
}

#[test]
fn containment_exact_match() {
    // Parent itself is considered contained
    assert!(check_containment("/a/b", "/a/b").is_ok());
}

#[test]
fn containment_sees_through_dots() {
    assert!(check_containment("/a/b", "/a/b/../c").is_err());
    assert!(check_containment("/a/b", "/a/./x/../b/c").is_ok());
    assert!(check_containment("/a/b", "/a/bc").is_err());
    let error = check_containment("/a", "/b").unwrap_err();
    assert!(matches!(error, Error::Workspace(_)));
    assert!(error.message().contains("path /b is not contained within /a"));
}

#[test]
fn containment_follows_no_path_up() {
    assert!(check_containment("ws", "../ws/x").is_err());
    assert!(check_containment("..", "../..").is_err());
    assert!(check_containment("..", "../x").is_ok());
    assert!(check_containment("/ws", "/../ws/x").is_ok());
    assert!(check_containment("/ws", "/ws/../../ws").is_ok());
    assert!(check_containment("/ws", "/ws/..").is_err());
}

#[test]
fn canonical_paths_decide_where_they_are_known() {
    let outside = Some(("/real/root".to_string(), "/elsewhere/x".to_string()));
    assert!(check_containment_with("/root", "/root/x", &outside).is_err());
    let inside = Some(("/real/root".to_string(), "/real/root/x".to_string()));
    assert!(check_containment_with("/root", "/linked/x", &inside).is_ok());
}

#[test]
fn sanitizing_is_done_once() {
    for key in ["sentry:MAIL-IOS-1", "a b  c", "-x-", "", "///", "ümlaut_1"] {
        let once = sanitize_key(key);
        assert_eq!(sanitize_key(&once), once);
        assert!(!once.contains('/'));
    }
    assert_eq!(sanitize_key("sentry:MAIL-IOS-1"), "sentry-MAIL-IOS-1");
}

#[test]
fn workspaces_lie_in_the_root() {
    assert_eq!(workspace_path("/ws", "../../etc"), "/ws/etc");
    assert_eq!(workspace_dir("/ws", "A/B", &None).unwrap(), "/ws/A-B");
    let linked = Some(("/ws".to_string(), "/tmp/A".to_string()));
    assert!(workspace_dir("/ws", "A", &linked).is_err());
}

#[test]
fn paths_are_split_and_joined() {
    assert_eq!(split_path("/a//b/./c/"), vec!["/", "a", "b", "c"]);
    assert_eq!(lexical_components("a/../b/.."), Vec::<String>::new());
    assert_eq!(lexical_components("../a/../../b"), vec!["..", "..", "b"]);
    assert_eq!(lexical_components("/../a"), vec!["/", "a"]);
    assert_eq!(normalize_lexical("/.."), "/");
    assert_eq!(normalize_lexical("/a/../b/./c"), "/b/c");
    assert_eq!(join_path("/a", "b"), "/a/b");
    assert_eq!(join_path("/a/", "b"), "/a/b");
    assert_eq!(join_path("/a", "/b"), "/b");
    assert_eq!(join_path("", "b"), "b");
    assert_eq!(file_name("/a/b.md").as_deref(), Some("b.md"));
    assert_eq!(file_name("/a/.."), None);
    assert_eq!(file_name("/"), None);
    assert!(is_within(&split_path("/a"), &split_path("/a/b")));
    assert!(!is_within(&split_path("/a/b"), &split_path("/a")));
}

#[test]
fn parents_are_those_of_std() {
    for path in [
        "/ws/ABC", "/ws//ABC", "/ws/./ABC/", "ABC", "a/b", "./a", "./.", ".", "", "/", "//", "/a",
        "a/./b/.", "../x", "/.", "/./a", "a//", "..", "/..", "a/..",
    ] {
        let expected = std::path::Path::new(path).parent().map(|p| p.to_string_lossy().into_owned());
        assert_eq!(parent(path), expected, "{path}");
    }
}

#[test]
fn paths_join_and_end_as_in_std() {
    for base in ["", "/", "a", "a/", "/a/b", "."] {
        for rel in ["", "x", "/x", "x/y", "..", "./x"] {
            let expected = std::path::Path::new(base).join(rel).to_string_lossy().into_owned();
            assert_eq!(join_path(base, rel), expected, "{base} {rel}");
            let name = std::path::Path::new(&expected)
                .file_name()
                .map(|n| n.to_string_lossy().into_owned());
            assert_eq!(file_name(&expected), name, "{expected}");
        }
    }
}

#[test]
fn workspaces_are_created_once() {
    let none = HooksConfig::default();
    assert!(matches!(plan_creation("/ws/T", true, &hooks(), &issue()), Creation::Done));
    assert!(matches!(plan_creation("/ws/T", false, &none, &issue()), Creation::CreateDir));
    match plan_creation("/ws/T", false, &hooks(), &issue()) {
        Creation::RunHook { parent, cwd, script } => {
            assert_eq!(parent.as_deref(), Some("/ws"));
            assert_eq!(cwd, "/ws");
            assert_eq!(script.unwrap(), "create /ws/T");
        }
        other => panic!("{other:?}"),
    }
}

#[test]
fn hooks_run_around_the_agent() {
    assert_eq!(
        plan_prepare("/ws/T", &hooks(), &issue(), Some(2)).unwrap().unwrap(),
        "run TASK-1 2"
    );
    assert!(plan_prepare("/ws/T", &HooksConfig::default(), &issue(), None).is_none());
    assert_eq!(plan_finish("/ws/T", &hooks(), &issue()).unwrap().unwrap(), "done /ws/T");
    assert!(plan_finish("/ws/T", &HooksConfig::default(), &issue()).is_none());
    assert_eq!(finish_variable(true), ("RUN_SUCCESS".to_string(), "true".to_string()));
    assert_eq!(finish_variable(false), ("RUN_SUCCESS".to_string(), "false".to_string()));
    assert!(render_hook("{% if %}", &issue(), None, "/ws").is_err());
}

#[test]
fn removal_runs_the_hook_first() {
    let none = HooksConfig::default();
    assert!(matches!(plan_removal("/ws/T", false, &hooks(), "T", &None), Ok(Removal::Done)));
    assert!(matches!(plan_removal("/ws/T", true, &none, "T", &None), Ok(Removal::RemoveDir)));
    match plan_removal("/ws/T", true, &hooks(), "T", &None) {
        Ok(Removal::RunHook { cwd, script }) => {
            assert_eq!(cwd, "/ws");
            assert_eq!(script, "remove T /ws/T");
        }
        other => panic!("{other:?}"),
    }
    match plan_removal("/ws/T", true, &hooks(), "T", &Some(issue())) {
        Ok(Removal::RunHook { script, .. }) => assert_eq!(script, "remove TASK-1 /ws/T"),
        other => panic!("{other:?}"),
    }
    let broken = HooksConfig { before_remove: Some("{% if %}".to_string()), ..none };
    assert!(plan_removal("/ws/T", true, &broken, "T", &None).is_err());
    assert_eq!(issue_of_workspace("T").source, "reaper");
    for outcome in [Ok(String::new()), Err(Error::Hook("hook timed out after 1s".to_string()))] {
        assert!(matches!(after_removal_hook(&outcome, true), Removal::RemoveDir));
        assert!(matches!(after_removal_hook(&outcome, false), Removal::Done));
    }
}

#[test]
fn hooks_end_in_output_or_error() {
    let timeout = Duration::from_millis(90_500);
    let exited = |success| HookExit::Exited {
        success,
        status: "exit status: 1".to_string(),
        output: "out".to_string(),
    };
    assert_eq!(hook_outcome(exited(true), timeout).unwrap(), "out");
    let message = |exit| hook_outcome(exit, timeout).unwrap_err().message();
    assert!(message(exited(false)).ends_with("hook exited with exit status: 1"));
    assert!(message(HookExit::TimedOut).ends_with("hook timed out after 90s"));
    assert!(message(HookExit::NotStarted { cause: "x".to_string() })
        .ends_with("failed to spawn hook: x"));
    assert!(message(HookExit::Broken { cause: "x".to_string() }).ends_with("hook I/O error: x"));
}
