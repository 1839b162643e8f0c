use symposium::collections::{StringMap, StringSet};
use symposium::config::schema::ServiceConfig;
use symposium::domain::epic::{EpicGraph, TaskState};
use symposium::domain::issue::Issue;
use symposium::domain::state::OrchestratorState;
use symposium::domain::workflow::{issue_id_of_key, WorkflowId};
use symposium::orchestrator::dispatch::{
    build_task_states, check_eligible, is_eligible, priority_rank, sort_candidates,
};
use symposium::time::{Duration, Timestamp};

const NOW: Timestamp = Timestamp { secs: 1_772_000_000, nanos: 0 };

fn test_issue(id: &str) -> Issue {
    Issue {
        identifier: id.to_string(),
        title: "Test".to_string(),
        description: None,
        status: "Todo".to_string(),
        priority: None,
        url: None,
        notion_page_id: None,
        blockers: vec![],
        source: "notion".to_string(),
        extra: StringMap::new(),
        comments: vec![],
        workflow_id: String::new(),
    }
}

fn test_config(max: usize) -> ServiceConfig {
    let mut config = ServiceConfig::default();
    config.agent.max_concurrent_agents = max;
    config
}

fn two_task_graph() -> EpicGraph {
    let mut graph = EpicGraph::default();
    graph.dependencies.insert("TASK-1".to_string(), StringSet::new());
    let mut blockers = StringSet::new();
    blockers.insert("TASK-1".to_string());
    graph.dependencies.insert("TASK-2".to_string(), blockers);
    graph
}

#[test]
fn from_path_default() {
    assert_eq!(WorkflowId::from_path("WORKFLOW.md"), WorkflowId("default".to_string()));
}

#[test]
fn from_path_named() {
    assert_eq!(WorkflowId::from_path("WORKFLOW.bugs.md"), WorkflowId("bugs".to_string()));
}

#[test]
fn from_path_nested() {
    assert_eq!(
        WorkflowId::from_path("/home/user/project/WORKFLOW.sentry.md"),
        WorkflowId("sentry".to_string())
    );
}

#[test]
fn from_path_multi_dot() {
    assert_eq!(
        WorkflowId::from_path("WORKFLOW.foo.bar.md"),
        WorkflowId("foo.bar".to_string())
    );
}

#[test]
fn state_key_format() {
    let wf = WorkflowId("bugs".to_string());
    assert_eq!(wf.state_key("TASK-123"), "bugs/TASK-123");
}

#[test]
fn state_key_default() {
    let wf = WorkflowId("default".to_string());
    assert_eq!(wf.state_key("TASK-456"), "default/TASK-456");
}

#[test]
fn from_path_other_names() {
    assert_eq!(WorkflowId::from_path("notes.md").0, "notes");
    assert_eq!(WorkflowId::from_path("WORKFLOW..md").0, "default");
    assert_eq!(WorkflowId::from_path("").0, "default");
    assert_eq!(WorkflowId::from_path("a/..").0, "default");
    assert_eq!(WorkflowId::from_path("plain").0, "plain");
}

#[test]
fn state_key_gives_issue_back() {
    let wf = WorkflowId("bugs".to_string());
    assert_eq!(issue_id_of_key(&wf.state_key("TASK-123")), "TASK-123");
    assert_eq!(issue_id_of_key(&wf.state_key("TASK-123/pr-review")), "TASK-123/pr-review");
    assert_eq!(issue_id_of_key("no slash"), "no slash");
}

#[test]
fn eligible_basic() {
    let state = OrchestratorState::new();
    let issue = test_issue("TASK-1");
    let wf = WorkflowId("bugs".to_string());
    assert!(is_eligible(&issue, &state, &test_config(5), &wf, None));
}

#[test]
fn ineligible_already_running() {
    let mut state = OrchestratorState::new();
    let wf = WorkflowId("bugs".to_string());
    let issue = test_issue("TASK-1");
    state.start_session(
        &wf.state_key("TASK-1"),
        issue.clone(),
        Duration::from_secs(300),
        "bugs",
        NOW,
    );
    assert!(!is_eligible(&issue, &state, &test_config(5), &wf, None));
}

#[test]
fn per_workflow_concurrency_limit() {
    let mut state = OrchestratorState::new();
    let wf = WorkflowId("bugs".to_string());
    let config = test_config(2);

    // Fill workflow to capacity
    for id in ["TASK-1", "TASK-2"] {
        state.start_session(
            &wf.state_key(id),
            test_issue(id),
            Duration::from_secs(300),
            "bugs",
            NOW,
        );
    }

    let issue3 = test_issue("TASK-3");
    assert!(!is_eligible(&issue3, &state, &config, &wf, None));
}

#[test]
fn global_concurrency_limit() {
    let mut state = OrchestratorState::new();
    let wf_a = WorkflowId("bugs".to_string());
    let wf_b = WorkflowId("sentry".to_string());
    let config = test_config(5); // per-workflow limit is 5

    // Run 2 on workflow A
    for id in ["TASK-1", "TASK-2"] {
        state.start_session(
            &wf_a.state_key(id),
            test_issue(id),
            Duration::from_secs(300),
            "bugs",
            NOW,
        );
    }

    // Workflow B has capacity (per-workflow), but global cap is 2
    let issue = test_issue("TASK-3");
    assert!(!is_eligible(&issue, &state, &config, &wf_b, Some(2)));

    // With global cap of 5, workflow B should be eligible
    assert!(is_eligible(&issue, &state, &config, &wf_b, Some(5)));
}

#[test]
fn state_key_isolation_across_workflows() {
    let mut state = OrchestratorState::new();
    let wf_a = WorkflowId("bugs".to_string());
    let wf_b = WorkflowId("sentry".to_string());
    let config = test_config(5);

    // Same issue ID, different workflows — both should be eligible
    let issue = test_issue("TASK-1");
    state.start_session(
        &wf_a.state_key("TASK-1"),
        issue.clone(),
        Duration::from_secs(300),
        "bugs",
        NOW,
    );

    // Workflow A: not eligible (already running)
    assert!(!is_eligible(&issue, &state, &config, &wf_a, None));
    // Workflow B: eligible (different composite key)
    assert!(is_eligible(&issue, &state, &config, &wf_b, None));
}

#[test]
fn running_count_for_workflow_filters_correctly() {
    let mut state = OrchestratorState::new();
    let wf_a = WorkflowId("bugs".to_string());
    let wf_b = WorkflowId("sentry".to_string());

    let timeout = Duration::from_secs(300);
    state.start_session(&wf_a.state_key("TASK-1"), test_issue("TASK-1"), timeout, "bugs", NOW);
    state.start_session(&wf_a.state_key("TASK-2"), test_issue("TASK-2"), timeout, "bugs", NOW);
    state.start_session(&wf_b.state_key("TASK-3"), test_issue("TASK-3"), timeout, "sentry", NOW);

    assert_eq!(state.running_count_for_workflow("bugs"), 2);
    assert_eq!(state.running_count_for_workflow("sentry"), 1);
    assert_eq!(state.running_count(), 3);
}

#[test]
fn build_task_states_running() {
    let mut state = OrchestratorState::new();
    let wf = WorkflowId("epic".to_string());
    state.start_session(
        &wf.state_key("TASK-1"),
        test_issue("TASK-1"),
        Duration::from_secs(300),
        "epic",
        NOW,
    );

    let ts = build_task_states(&state, &wf);
    assert_eq!(ts.get("TASK-1"), Some(&TaskState::InProgress));
}

#[test]
fn build_task_states_has_pr() {
    let mut state = OrchestratorState::new();
    let wf = WorkflowId("epic".to_string());
    state.track_pr(
        &wf.state_key("TASK-1"),
        test_issue("TASK-1"),
        42,
        "/tmp".into(),
        "epic",
        "symposium/task-TASK-1",
    );

    let ts = build_task_states(&state, &wf);
    assert_eq!(
        ts.get("TASK-1"),
        Some(&TaskState::HasPr("symposium/task-TASK-1".to_string()))
    );
}

#[test]
fn build_task_states_completed() {
    let mut state = OrchestratorState::new();
    let wf = WorkflowId("epic".to_string());

    // Start and complete a session
    state.start_session(
        &wf.state_key("TASK-1"),
        test_issue("TASK-1"),
        Duration::from_secs(300),
        "epic",
        NOW,
    );
    state.mark_worker_done(&wf.state_key("TASK-1"), true, None, NOW);

    let ts = build_task_states(&state, &wf);
    assert_eq!(ts.get("TASK-1"), Some(&TaskState::Completed));
}

#[test]
fn build_task_states_has_pr_takes_priority_over_completed() {
    let mut state = OrchestratorState::new();
    let wf = WorkflowId("epic".to_string());

    // Task completed successfully AND has a tracked PR
    state.start_session(
        &wf.state_key("TASK-1"),
        test_issue("TASK-1"),
        Duration::from_secs(300),
        "epic",
        NOW,
    );
    state.mark_worker_done(&wf.state_key("TASK-1"), true, None, NOW);
    state.track_pr(
        &wf.state_key("TASK-1"),
        test_issue("TASK-1"),
        42,
        "/tmp".into(),
        "epic",
        "symposium/task-TASK-1",
    );

    let ts = build_task_states(&state, &wf);
    // HasPr should take priority — downstream tasks can stack on this branch
    assert_eq!(
        ts.get("TASK-1"),
        Some(&TaskState::HasPr("symposium/task-TASK-1".to_string()))
    );
}

#[test]
fn build_task_states_filters_by_workflow() {
    let mut state = OrchestratorState::new();
    let wf_a = WorkflowId("epic-a".to_string());
    let wf_b = WorkflowId("epic-b".to_string());

    state.start_session(
        &wf_a.state_key("TASK-1"),
        test_issue("TASK-1"),
        Duration::from_secs(300),
        "epic-a",
        NOW,
    );
    state.track_pr(
        &wf_b.state_key("TASK-2"),
        test_issue("TASK-2"),
        99,
        "/tmp".into(),
        "epic-b",
        "symposium/task-TASK-2",
    );

    // Workflow A should only see its own running task
    let ts_a = build_task_states(&state, &wf_a);
    assert!(ts_a.contains_key("TASK-1"));
    assert!(!ts_a.contains_key("TASK-2"));

    // Workflow B should only see its own PR
    let ts_b = build_task_states(&state, &wf_b);
    assert!(!ts_b.contains_key("TASK-1"));
    assert!(ts_b.contains_key("TASK-2"));
}

#[test]
fn epic_eligible_with_graph() {
    let mut state = OrchestratorState::new();
    let wf = WorkflowId("epic".to_string());
    let config = test_config(5);

    // Task-2 depends on Task-1; Task-1 has a PR
    let graph = two_task_graph();

    state.track_pr(
        &wf.state_key("TASK-1"),
        test_issue("TASK-1"),
        1,
        "/tmp".into(),
        "epic",
        "symposium/task-TASK-1",
    );

    let decision = check_eligible(&test_issue("TASK-2"), &state, &config, &wf, None, Some(&graph));
    assert!(decision.eligible);
    assert_eq!(decision.base_branch, "symposium/task-TASK-1");
}

#[test]
fn epic_blocked_when_dep_not_started() {
    let state = OrchestratorState::new();
    let wf = WorkflowId("epic".to_string());
    let config = test_config(5);

    // TASK-1 has no state → not resolved
    let graph = two_task_graph();

    let decision = check_eligible(&test_issue("TASK-2"), &state, &config, &wf, None, Some(&graph));
    assert!(!decision.eligible);
}

#[test]
fn waiting_and_finished_issues_are_not_dispatched() {
    let wf = WorkflowId("bugs".to_string());
    let config = test_config(5);

    let mut waiting = OrchestratorState::new();
    waiting.schedule_retry(&wf.state_key("TASK-1"), 1, "bugs");
    assert!(!is_eligible(&test_issue("TASK-1"), &waiting, &config, &wf, None));
    assert!(is_eligible(&test_issue("TASK-2"), &waiting, &config, &wf, None));

    let mut finished = OrchestratorState::new();
    finished.mark_worker_done(&wf.state_key("TASK-1"), true, None, NOW);
    assert!(!is_eligible(&test_issue("TASK-1"), &finished, &config, &wf, None));

    let mut failed = OrchestratorState::new();
    failed.mark_worker_done(&wf.state_key("TASK-1"), false, Some("no".to_string()), NOW);
    assert!(is_eligible(&test_issue("TASK-1"), &failed, &config, &wf, None));
}

#[test]
fn no_agents_means_no_dispatch() {
    let state = OrchestratorState::new();
    let wf = WorkflowId("bugs".to_string());
    assert!(!is_eligible(&test_issue("TASK-1"), &state, &test_config(0), &wf, None));
    assert!(!is_eligible(&test_issue("TASK-1"), &state, &test_config(1), &wf, Some(0)));
}

#[test]
fn default_branch_is_the_base_without_a_graph() {
    let state = OrchestratorState::new();
    let wf = WorkflowId("bugs".to_string());
    let decision = check_eligible(&test_issue("TASK-1"), &state, &test_config(1), &wf, None, None);
    assert!(decision.eligible);
    assert_eq!(decision.base_branch, "main");
}

#[test]
fn priorities_rank_from_urgent_down() {
    assert_eq!(priority_rank(Some("Urgent")), 5);
    assert_eq!(priority_rank(Some("High")), 4);
    assert_eq!(priority_rank(Some("Medium")), 3);
    assert_eq!(priority_rank(Some("Low")), 2);
    assert_eq!(priority_rank(Some("urgent")), 1);
    assert_eq!(priority_rank(None), 0);
}

#[test]
fn candidates_are_sorted_by_priority_alone() {
    let mut issues: Vec<Issue> = Vec::new();
    for (id, priority) in [
        ("B", Some("Low")),
        ("C", None),
        ("D", Some("Urgent")),
        ("A", Some("Low")),
        ("E", Some("Whatever")),
    ] {
        let mut issue = test_issue(id);
        issue.priority = priority.map(str::to_string);
        issues.push(issue);
    }
    sort_candidates(&mut issues);
    let order: Vec<&str> = issues.iter().map(|i| i.identifier.as_str()).collect();
    assert_eq!(order, vec!["D", "B", "A", "E", "C"]);
}
