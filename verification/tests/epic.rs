use std::collections::HashSet;
use symposium::collections::{StringMap, StringSet};
use symposium::domain::epic::{
    collapse_whitespace, extract_mermaid_block, match_label_to_task, nearest_title,
    normalize_for_matching, pick_pairs, EpicGraph, TaskState,
};
use symposium::domain::issue::Issue;

fn make_task(id: &str, title: &str) -> Issue {
    Issue {
        identifier: id.to_string(),
        title: title.to_string(),
        description: None,
        status: "New".to_string(),
        priority: None,
        url: None,
        notion_page_id: None,
        blockers: vec![],
        source: "notion".to_string(),
        extra: StringMap::new(),
        comments: vec![],
        workflow_id: String::new(),
    }
}

fn set_of(items: &[&str]) -> StringSet {
    let mut set = StringSet::new();
    for item in items {
        set.insert(item.to_string());
    }
    set
}

fn names(set: StringSet) -> HashSet<String> {
    set.items.into_iter().collect()
}

fn expected(items: &[&str]) -> HashSet<String> {
    items.iter().map(|s| s.to_string()).collect()
}

fn graph_of(entries: &[(&str, &[&str])]) -> EpicGraph {
    let mut dependencies = StringMap::new();
    for (task, blockers) in entries {
        dependencies.insert(task.to_string(), set_of(blockers));
    }
    EpicGraph { dependencies }
}

fn states_of(entries: Vec<(&str, TaskState)>) -> StringMap<TaskState> {
    let mut states = StringMap::new();
    for (task, state) in entries {
        states.insert(task.to_string(), state);
    }
    states
}

#[test]
fn parse_simple_mermaid_graph() {
    let tasks = vec![
        make_task("TASK-1", "Define requirements"),
        make_task("TASK-2", "Backend API"),
        make_task("TASK-3", "iOS Gate"),
    ];

    let mermaid = r#"graph TD
    A["Define requirements"]
    B["Backend API"]
    C["iOS Gate"]
    A --> B
    A --> C"#;

    let graph = EpicGraph::from_mermaid(mermaid, &tasks);

    assert!(graph.blockers("TASK-1").is_empty());
    assert_eq!(names(graph.blockers("TASK-2")), expected(&["TASK-1"]));
    assert_eq!(names(graph.blockers("TASK-3")), expected(&["TASK-1"]));
}

#[test]
fn parse_superarchive_style_mermaid() {
    let tasks = vec![
        make_task("TASK-1", "[PM] Define super-archive requirements"),
        make_task("TASK-2", "[Backend] API endpoints for archive"),
        make_task("TASK-3", "[iOS] Gate: swipe gesture framework"),
        make_task("TASK-4", "[iOS] Swipe action UI components"),
        make_task("TASK-5", "[Backend] GraphQL codegen"),
        make_task("TASK-6", "[iOS] Pending carousel"),
        make_task("TASK-7", "[All] End-to-end wiring"),
    ];

    let mermaid = r#"graph TD
    PM["Define super-archive requirements"]
    BE["API endpoints for archive"]
    GATE["Gate: swipe gesture framework"]
    SWIPE["Swipe action UI components"]
    GQL["GraphQL codegen"]
    PEND["Pending carousel"]
    E2E["End-to-end wiring"]
    PM --> BE
    PM --> GATE
    GATE --> SWIPE
    BE --> GQL
    GATE --> PEND
    GQL --> PEND
    SWIPE --> E2E
    PEND --> E2E
    GQL --> E2E
    BE --> E2E"#;

    let graph = EpicGraph::from_mermaid(mermaid, &tasks);

    // PM has no deps
    assert!(graph.blockers("TASK-1").is_empty());

    // Backend API depends on PM
    assert_eq!(names(graph.blockers("TASK-2")), expected(&["TASK-1"]));

    // iOS Gate depends on PM
    assert_eq!(names(graph.blockers("TASK-3")), expected(&["TASK-1"]));

    // Swipe depends on iOS Gate
    assert_eq!(names(graph.blockers("TASK-4")), expected(&["TASK-3"]));

    // GraphQL depends on Backend API
    assert_eq!(names(graph.blockers("TASK-5")), expected(&["TASK-2"]));

    // Pending carousel depends on iOS Gate + GraphQL
    assert_eq!(names(graph.blockers("TASK-6")), expected(&["TASK-3", "TASK-5"]));

    // E2E depends on Swipe + Pending + GraphQL + Backend
    assert_eq!(
        names(graph.blockers("TASK-7")),
        expected(&["TASK-4", "TASK-6", "TASK-5", "TASK-2"])
    );
}

#[test]
fn merge_blocked_by_adds_edges() {
    let tasks = vec![
        make_task("TASK-1", "First"),
        make_task("TASK-2", "Second"),
        make_task("TASK-3", "Third"),
    ];

    let mermaid = r#"graph TD
    A["First"]
    B["Second"]
    C["Third"]
    A --> B"#;

    let mut graph = EpicGraph::from_mermaid(mermaid, &tasks);
    // Mermaid only has A→B, add A→C from Blocked by relation
    graph.merge_blocked_by("TASK-3", &["TASK-1".to_string()]);

    assert_eq!(names(graph.blockers("TASK-3")), expected(&["TASK-1"]));
}

#[test]
fn eligibility_no_blockers() {
    let graph = graph_of(&[("TASK-1", &[])]);

    let states = StringMap::new();
    let result = graph.check_eligibility("TASK-1", &states, "main");
    assert!(result.eligible);
    assert_eq!(result.base_branch, "main");
    assert!(result.unresolved.is_empty());
}

#[test]
fn eligibility_single_blocker_completed() {
    let graph = graph_of(&[("TASK-2", &["TASK-1"])]);

    let states = states_of(vec![("TASK-1", TaskState::Completed)]);
    let result = graph.check_eligibility("TASK-2", &states, "main");
    assert!(result.eligible);
    assert_eq!(result.base_branch, "main");
}

#[test]
fn eligibility_single_blocker_has_pr_stacks() {
    let graph = graph_of(&[("TASK-2", &["TASK-1"])]);

    let states = states_of(vec![(
        "TASK-1",
        TaskState::HasPr("symposium/task-TASK-1".to_string()),
    )]);
    let result = graph.check_eligibility("TASK-2", &states, "main");
    assert!(result.eligible);
    assert_eq!(result.base_branch, "symposium/task-TASK-1");
}

#[test]
fn eligibility_fan_in_multiple_prs() {
    let graph = graph_of(&[("TASK-3", &["TASK-1", "TASK-2"])]);

    let states = states_of(vec![
        ("TASK-1", TaskState::HasPr("symposium/task-TASK-1".to_string())),
        ("TASK-2", TaskState::HasPr("symposium/task-TASK-2".to_string())),
    ]);
    let result = graph.check_eligibility("TASK-3", &states, "main");
    assert!(result.eligible);
    // Fan-in: base off main since we can't stack on multiple branches
    assert_eq!(result.base_branch, "main");
}

#[test]
fn eligibility_blocked_by_unresolved() {
    let graph = graph_of(&[("TASK-2", &["TASK-1"])]);

    let states = states_of(vec![("TASK-1", TaskState::NotStarted)]);
    let result = graph.check_eligibility("TASK-2", &states, "main");
    assert!(!result.eligible);
    assert_eq!(result.unresolved, vec!["TASK-1".to_string()]);
}

#[test]
fn eligibility_mixed_resolved_and_unresolved() {
    let graph = graph_of(&[("TASK-3", &["TASK-1", "TASK-2"])]);

    let states = states_of(vec![
        ("TASK-1", TaskState::HasPr("symposium/task-TASK-1".to_string())),
        ("TASK-2", TaskState::InProgress),
    ]);
    let result = graph.check_eligibility("TASK-3", &states, "main");
    assert!(!result.eligible);
    assert_eq!(result.unresolved, vec!["TASK-2".to_string()]);
}

#[test]
fn eligibility_blocker_cancelled_unblocks_downstream() {
    let graph = graph_of(&[("TASK-2", &["TASK-1"])]);

    let states = states_of(vec![("TASK-1", TaskState::Cancelled)]);
    let result = graph.check_eligibility("TASK-2", &states, "main");
    assert!(result.eligible);
    assert_eq!(result.base_branch, "main");
}

#[test]
fn eligibility_unknown_task_treated_as_no_deps() {
    let graph = EpicGraph::default();
    let states = StringMap::new();
    let result = graph.check_eligibility("TASK-UNKNOWN", &states, "main");
    assert!(result.eligible);
    assert_eq!(result.base_branch, "main");
}

#[test]
fn extract_mermaid_from_content() {
    let content = r#"# Epic: Super-archive

Some description here.

```mermaid
graph TD
    A["Task 1"]
    B["Task 2"]
    A --> B
```

More text after.
"#;
    let block = extract_mermaid_block(content).unwrap();
    assert!(block.contains("graph TD"));
    assert!(block.contains("A --> B"));
}

#[test]
fn extract_mermaid_missing() {
    assert!(extract_mermaid_block("no mermaid here").is_none());
}

#[test]
fn normalize_strips_tags() {
    assert_eq!(
        normalize_for_matching("[iOS] Gate: swipe gesture framework"),
        "gate: swipe gesture framework"
    );
    assert_eq!(normalize_for_matching("[Backend] API endpoints"), "api endpoints");
}

#[test]
fn match_label_to_task_with_tags() {
    let tasks = vec![
        make_task("TASK-1", "[iOS] Gate: swipe gesture framework"),
        make_task("TASK-2", "[Backend] API endpoints"),
    ];

    assert_eq!(
        match_label_to_task("Gate: swipe gesture framework", &tasks).as_deref(),
        Some("TASK-1")
    );
    assert_eq!(match_label_to_task("API endpoints", &tasks).as_deref(), Some("TASK-2"));
}

#[test]
fn mermaid_block_is_cut_at_the_fence() {
    let block = extract_mermaid_block("x\n```mermaid\nA --> B\n```\ny\n```mermaid\nC\n```");
    assert_eq!(block.as_deref().map(str::trim), Some("A --> B"));
    assert!(extract_mermaid_block("```mermaid\nnever closed").is_none());
}

#[test]
fn blocker_without_state_is_unresolved() {
    let graph = graph_of(&[("TASK-2", &["TASK-1"])]);
    let result = graph.check_eligibility("TASK-2", &StringMap::new(), "main");
    assert!(!result.eligible);
    assert_eq!(result.unresolved, vec!["TASK-1".to_string()]);
}

#[test]
fn one_open_pr_among_finished_blockers_is_stacked_on() {
    let graph = graph_of(&[("TASK-3", &["TASK-1", "TASK-2"])]);
    let states = states_of(vec![
        ("TASK-1", TaskState::Completed),
        ("TASK-2", TaskState::HasPr("branch-2".to_string())),
    ]);
    let result = graph.check_eligibility("TASK-3", &states, "main");
    assert!(result.eligible);
    assert_eq!(result.base_branch, "branch-2");
}

#[test]
fn merging_keeps_known_blockers() {
    let mut graph = graph_of(&[("TASK-3", &["TASK-1"])]);
    graph.merge_blocked_by("TASK-3", &["TASK-2".to_string(), "TASK-1".to_string()]);
    assert_eq!(names(graph.blockers("TASK-3")), expected(&["TASK-1", "TASK-2"]));
}

#[test]
fn edges_between_unknown_labels_are_dropped() {
    let tasks = vec![make_task("TASK-1", "First")];
    let graph = EpicGraph::from_mermaid("graph TD\n  A[\"First\"]\n  B[\"Other\"]\n  B --> A", &tasks);
    assert!(graph.blockers("TASK-1").is_empty());
}

#[test]
fn nearest_title_prefers_the_closest_length() {
    let titles = vec!["fix login page".to_string(), "fix login".to_string()];
    assert_eq!(nearest_title("fix login", &titles), Some(1));
    assert_eq!(nearest_title("unrelated", &titles), None);
}

#[test]
fn pairs_need_both_groups() {
    let found = vec![
        vec![None, Some("A".to_string()), Some("B".to_string())],
        vec![None, Some("A".to_string()), None],
    ];
    let pairs = pick_pairs(&found);
    assert_eq!(pairs, vec![("A".to_string(), "B".to_string())]);
}

#[test]
fn whitespace_collapses_to_single_spaces() {
    assert_eq!(collapse_whitespace("  a \t\n b  "), "a b");
}
