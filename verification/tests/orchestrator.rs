use symposium::agent::process::parse_line;
use symposium::collections::{StringMap, StringSet};
use symposium::config::schema::{PrCreationConfig, SentryConfig, ServiceConfig};
use symposium::domain::issue::Issue;
use symposium::domain::retry::RetryEntry;
use symposium::domain::state::OrchestratorState;
use symposium::domain::workflow::WorkflowId;
use symposium::error::Error;
use symposium::orchestrator::pull_request::{
    build_default_review_prompt, build_review_prompt, create_pr_script, created_pr_script,
    default_pr_body, default_pr_title, find_pr_script, pr_metadata, pr_metadata_instructions,
    pr_metadata_update_instructions, preflight_signal_instructions, rendered_or_default_review,
    track_created, track_created_pr, trigger_script, OpenRequest, OpenStage, OpenStep,
};
use symposium::orchestrator::reconcile::{discover, discover_open_pr, is_monitored};
use symposium::orchestrator::retry::{calculate_backoff, next_retry};
use symposium::orchestrator::tick::{
    accept_retry, begin_issue, begin_retry, dispatch_candidates, has_capacity, is_removable,
    merge_candidates, reap_skip_set, refetched, retry_after, retry_source, select_reap_candidates,
    tracked_pr_ids, worker_outcome, Cycle, CycleStep, RetryPlan, RetrySource, RetryStart,
};
use symposium::orchestrator::{on_event, poll_interval, OrchestratorEvent};
use symposium::time::{Duration, Timestamp};

const NOW: Timestamp = Timestamp { secs: 1_772_000_000, nanos: 0 };

fn s(x: &str) -> String {
    x.to_string()
}

fn before(secs: i64) -> Option<Timestamp> {
    Some(Timestamp { secs: NOW.secs - secs, nanos: 0 })
}

fn issue(id: &str, priority: Option<&str>) -> Issue {
    Issue {
        identifier: s(id),
        title: s("Title"),
        description: None,
        status: s("Todo"),
        priority: priority.map(str::to_string),
        url: None,
        notion_page_id: None,
        blockers: vec![],
        source: s("notion"),
        extra: StringMap::new(),
        comments: vec![],
        workflow_id: String::new(),
    }
}

fn retry(key: &str) -> RetryEntry {
    let mut entry = RetryEntry::new(s(key), 2).with_workflow(s("bugs"));
    entry.ready = true;
    entry
}

fn bugs() -> WorkflowId {
    WorkflowId(s("bugs"))
}

#[test]
fn reaps_only_stale_unskipped() {
    let workspaces = vec![s("OLD"), s("FRESH"), s("SKIP")];
    let mut skip = StringSet::new();
    skip.insert(s("SKIP"));
    let max_age = Duration::from_secs(7 * 24 * 3600);

    let mtimes = vec![before(30 * 24 * 3600), before(3600), before(60 * 24 * 3600)];

    let out = select_reap_candidates(&workspaces, &skip, NOW, max_age, &mtimes);
    assert_eq!(out, vec![s("OLD")]);
}

#[test]
fn skips_missing_mtime() {
    let workspaces = vec![s("NO_METADATA")];
    let skip = StringSet::new();
    let out =
        select_reap_candidates(&workspaces, &skip, NOW, Duration::from_secs(60), &vec![None]);
    assert!(out.is_empty());
}

#[test]
fn skips_future_mtime() {
    // A workspace with mtime in the future (clock skew) should not be reaped.
    let workspaces = vec![s("FUTURE")];
    let skip = StringSet::new();
    let future = before(-3600);
    let out =
        select_reap_candidates(&workspaces, &skip, NOW, Duration::from_secs(60), &vec![future]);
    assert!(out.is_empty());
}

#[test]
fn workspace_is_stale_once_it_is_older_than_allowed() {
    let workspaces = vec![s("A"), s("B")];
    let out = select_reap_candidates(
        &workspaces,
        &StringSet::new(),
        NOW,
        Duration::from_secs(60),
        &vec![before(61), before(59)],
    );
    assert_eq!(out, vec![s("A")]);
}

#[test]
fn used_workspaces_are_not_reaped() {
    let mut state = OrchestratorState::new();
    state.start_session("bugs/RUN", issue("RUN", None), Duration::from_secs(1), "bugs", NOW);
    state.track_pr("bugs/PR", issue("PR", None), 1, s("/ws"), "bugs", "b");
    state.schedule_retry("bugs/WAIT", 1, "bugs");
    let skip = reap_skip_set(&state, &bugs());
    assert!(skip.contains("RUN"));
    assert!(skip.contains("PR"));
    assert!(!skip.contains("OTHER"));
    let monitored = tracked_pr_ids(&state);
    assert!(monitored.contains("PR"));
    assert!(!is_removable("PR", &monitored, &state, &bugs()));
    assert!(!is_removable("RUN", &monitored, &state, &bugs()));
    assert!(is_removable("OTHER", &monitored, &state, &bugs()));
}

#[test]
fn candidates_are_dispatched_by_priority_up_to_the_limit() {
    let mut state = OrchestratorState::new();
    let mut config = ServiceConfig::default();
    config.agent.max_concurrent_agents = 2;
    let candidates = merge_candidates(
        vec![issue("LOW", Some("Low")), issue("HIGH", Some("High"))],
        vec![issue("URGENT", Some("Urgent"))],
        &bugs(),
    );
    assert!(candidates.iter().all(|i| i.workflow_id == "bugs"));
    let started = dispatch_candidates(&mut state, &candidates, &config, &bugs(), None, NOW);
    let ids: Vec<&str> = started.iter().map(|i| i.identifier.as_str()).collect();
    assert_eq!(ids, vec!["URGENT", "HIGH"]);
    assert!(state.is_running("bugs/HIGH"));
    assert!(!state.is_running("bugs/LOW"));
    assert!(!has_capacity(&state, &bugs(), 2, None, 0));
    assert!(has_capacity(&state, &bugs(), 3, None, 0));
    assert!(!has_capacity(&state, &bugs(), 3, Some(2), 0));

    // Nothing is dispatched twice
    config.agent.max_concurrent_agents = 9;
    let more = dispatch_candidates(&mut state, &candidates, &config, &bugs(), None, NOW);
    assert_eq!(more.len(), 1);
    assert_eq!(more[0].identifier, "LOW");
}

#[test]
fn beginning_starts_a_session() {
    let mut state = OrchestratorState::new();
    let config = ServiceConfig::default();
    let key = begin_issue(&mut state, &issue("T", None), &config, &bugs(), NOW);
    assert_eq!(key, "bugs/T");
    let entry = state.get_issue_detail("bugs/T").unwrap();
    assert_eq!(entry.workflow_id, "bugs");
    assert_eq!(entry.stall_timeout, config.codex.stall_timeout());
}

#[test]
fn backoff_doubles_up_to_the_maximum() {
    let base = Duration::from_secs(1);
    let max = Duration::from_secs(300);
    let secs = |n| calculate_backoff(n, base, max).as_secs();
    assert_eq!(
        (0..11).map(secs).collect::<Vec<u128>>(),
        vec![1, 2, 4, 8, 16, 32, 64, 128, 256, 300, 300]
    );
    assert_eq!(secs(4_000_000_000), 300);
    let nano = Duration { nanos: 1 };
    assert_eq!(calculate_backoff(32, nano, Duration::from_secs(10)).nanos, 4_294_967_296);
    assert_eq!(calculate_backoff(u32::MAX, Duration { nanos: 0 }, max).nanos, 0);
    assert_eq!(calculate_backoff(0, max, base), base);
    assert_eq!(next_retry(None), (1, Duration::from_secs(1)));
    assert_eq!(next_retry(Some(3)), (4, Duration::from_secs(8)));
}

#[test]
fn failed_work_is_tried_again() {
    let mut state = OrchestratorState::new();
    assert_eq!(retry_after(&mut state, "bugs/T", None, true, &bugs()), None);
    assert!(!state.is_in_retry("bugs/T"));
    let delay = retry_after(&mut state, "bugs/T", Some(1), false, &bugs());
    assert_eq!(delay, Some(Duration::from_secs(2)));
    assert!(state.is_in_retry("bugs/T"));
    assert!(state.take_ready_retries_for_workflow("bugs").is_empty());
    let poll = on_event(
        &mut state,
        OrchestratorEvent::RetryFired { state_key: s("bugs/T"), workflow_id: s("bugs") },
        NOW,
    );
    assert!(!poll);
    assert!(state.take_ready_retries_for_workflow("other").is_empty());
    let ready = state.take_ready_retries_for_workflow("bugs");
    assert_eq!(ready.len(), 1);
    assert_eq!(ready[0].attempt, 2);
    assert!(state.take_ready_retries_for_workflow("bugs").is_empty());
}

#[test]
fn outcomes_of_work_are_recorded() {
    assert_eq!(worker_outcome(&Ok(true)), (true, None));
    assert_eq!(worker_outcome(&Ok(false)), (false, Some(s("max turns reached"))));
    let (success, error) = worker_outcome(&Err(Error::Agent(s("gone"))));
    assert!(!success);
    assert!(error.unwrap().contains("gone"));

    let mut state = OrchestratorState::new();
    state.start_session("bugs/T", issue("T", None), Duration::from_secs(1), "bugs", NOW);
    on_event(
        &mut state,
        OrchestratorEvent::WorkerCompleted { state_key: s("bugs/T"), success: true, error: None },
        NOW,
    );
    assert!(!state.is_running("bugs/T"));
    assert!(state.is_completed_successfully("bugs/T"));
    assert!(on_event(&mut state, OrchestratorEvent::RefreshRequested, NOW));
    assert!(!on_event(&mut state, OrchestratorEvent::ConfigReloaded, NOW));
}

#[test]
fn retries_are_fetched_anew() {
    let sentry = SentryConfig { enabled: true, ..SentryConfig::default() };
    assert!(matches!(retry_source("sentry:A-1", &sentry), RetrySource::Sentry));
    assert!(matches!(retry_source("TASK-1", &sentry), RetrySource::Notion));
    assert!(matches!(retry_source("sentry:A-1", &SentryConfig::default()), RetrySource::Notion));
    assert!(refetched(Err(Error::Mcp(s("down")))).is_none());
    assert!(refetched(Ok(vec![])).is_none());
    assert_eq!(refetched(Ok(vec![issue("A", None), issue("B", None)])).unwrap().identifier, "A");

    let mut state = OrchestratorState::new();
    let config = ServiceConfig::default();
    match accept_retry(&mut state, retry("bugs/T"), 1, &bugs(), None) {
        RetryPlan::Fetch { retry, issue_id } => {
            assert_eq!(issue_id, "T");
            assert_eq!(retry.attempt, 2);
        }
        other => panic!("{other:?}"),
    }
    let fetched = Some(issue("T", None));
    match begin_retry(&mut state, retry("bugs/T"), fetched, &config, &bugs(), None, NOW) {
        RetryStart::Begun { issue } => assert_eq!(issue.workflow_id, "bugs"),
        other => panic!("{other:?}"),
    }
    assert!(state.is_running("bugs/T"));
    assert!(matches!(accept_retry(&mut state, retry("bugs/T"), 9, &bugs(), None), RetryPlan::Drop));
    assert!(matches!(
        begin_retry(&mut state, retry("bugs/U"), None, &config, &bugs(), None, NOW),
        RetryStart::Drop
    ));
}

#[test]
fn retries_wait_while_the_limits_are_reached() {
    let mut state = OrchestratorState::new();
    let mut config = ServiceConfig::default();
    config.agent.max_concurrent_agents = 1;
    state.start_session("bugs/A", issue("A", None), Duration::from_secs(1), "bugs", NOW);
    assert!(matches!(accept_retry(&mut state, retry("bugs/T"), 1, &bugs(), None), RetryPlan::Wait));
    assert!(state.is_in_retry("bugs/T"));
    let waiting = state.take_ready_retries_for_workflow("bugs");
    assert_eq!(waiting.len(), 1);
    assert_eq!(waiting[0].attempt, 2);

    // What was accepted before the limit was reached waits as well
    let fetched = Some(issue("T", None));
    let begun = begin_retry(&mut state, retry("bugs/T"), fetched, &config, &bugs(), None, NOW);
    assert!(matches!(begun, RetryStart::Wait));
    assert!(state.is_in_retry("bugs/T"));
    assert_eq!(state.running_count_for_workflow("bugs"), 1);

    // The limit for all workflows binds too
    let plan = accept_retry(&mut state, retry("bugs/U"), 5, &bugs(), Some(1));
    assert!(matches!(plan, RetryPlan::Wait));
    state.mark_worker_done("bugs/A", true, None, NOW);
    let plan = accept_retry(&mut state, retry("bugs/U"), 1, &bugs(), Some(1));
    assert!(matches!(plan, RetryPlan::Fetch { .. }));
}

#[test]
fn cycle_runs_through_its_steps() {
    let state = OrchestratorState::new();
    let mut config = ServiceConfig::default();
    config.tracker.database_id = s("db");
    config.pr_review.enabled = true;
    let mut cycle = Cycle::plan(&state, &config, &bugs(), None, 0);
    let mut step = cycle.begin();
    let mut seen = vec![step];
    while step != CycleStep::End {
        step = cycle.advance(step, true);
        seen.push(step);
    }
    assert!(seen.contains(&CycleStep::Dispatch));
    assert!(seen.contains(&CycleStep::CheckReviews));
    assert_eq!(seen.iter().filter(|x| **x == CycleStep::Dispatch).count(), 1);

    // Without capacity there is no work, but feedback is still looked for
    let full = Cycle::plan(&state, &config, &bugs(), Some(0), 0);
    assert_eq!(full.begin(), CycleStep::CheckReviews);
}

#[test]
fn review_prompt_is_rendered_or_default() {
    let issue = issue("T-1", None);
    assert_eq!(build_review_prompt(&issue, ""), build_default_review_prompt(&issue));
    assert_eq!(build_review_prompt(&issue, "R {{ issue.identifier }}"), "R T-1");
    assert_eq!(build_review_prompt(&issue, "{{ nope"), build_default_review_prompt(&issue));
    assert_eq!(rendered_or_default_review(Ok(s("x")), &issue), "x");
    assert!(build_default_review_prompt(&issue).contains("T-1: Title"));
    assert!(pr_metadata_instructions(&issue).contains("Fixes T-1"));
    assert!(pr_metadata_update_instructions().contains("PR_TITLE"));
    assert!(preflight_signal_instructions().contains("PREFLIGHT_SKIP"));
}

#[test]
fn pr_says_what_the_agent_wrote() {
    let issue = issue("T-1", None);
    assert_eq!(default_pr_title(&issue), "[T-1] Title");
    assert_eq!(
        default_pr_body(&issue),
        "Automated fix for **T-1**: Title\n\n---\n*Opened by Symposium*"
    );
    assert_eq!(
        pr_metadata(&Some(s(" x \n")), &Some(s("\n")), &issue),
        (s("x"), default_pr_body(&issue))
    );
    assert_eq!(
        create_pr_script("/a", "/b"),
        "git push -u origin HEAD 2>&1 && gh pr create --draft --title \"$(cat /a)\" --body-file /b 2>&1"
    );
}

#[test]
fn pr_is_opened_by_an_action() {
    let pr_creation = PrCreationConfig {
        workflow: s("open.yml"),
        branch_input: s("branch"),
        title_input: s("title"),
        body_input: s("body"),
        poll_timeout_ms: 2500,
        poll_interval_ms: 100,
    };
    let script = trigger_script(&pr_creation, "b1", "/t", "/b");
    assert_eq!(
        script,
        "gh workflow run \"open.yml\" -f \"branch=b1\" -F \"title=@/t\" -F \"body=@/b\" 2>&1"
    );
    let request = OpenRequest { pr_creation, title_file: s("/t"), body_file: s("/b") };
    let zero = Duration::from_secs(0);
    let ok = |text: &str| Ok(text.to_string());
    let bad: Result<String, String> = Err(s("why"));

    let (stage, step) = OpenRequest::begin();
    assert!(matches!(step, OpenStep::Push));
    assert!(matches!(request.advance(stage, &bad, zero).1, OpenStep::Failed { .. }));
    let (stage, step) = request.advance(stage, &ok(""), zero);
    assert!(matches!(step, OpenStep::AskBranch));
    assert!(matches!(request.advance(stage, &ok(" \n"), zero).1, OpenStep::Failed { .. }));
    let (stage, step) = request.advance(stage, &ok("b1\n"), zero);
    match step {
        OpenStep::Run { script: run } => assert_eq!(run, script),
        other => panic!("{other:?}"),
    }
    let (stage, step) = request.advance(stage, &ok(""), zero);
    assert!(matches!(step, OpenStep::Look));
    match request.advance(stage, &bad, Duration::from_millis(2500)).1 {
        OpenStep::Failed { reason } => assert!(reason.ends_with("did not appear within 2s")),
        other => panic!("{other:?}"),
    }
    let (waiting, step) = request.advance(stage, &bad, Duration::from_millis(2499));
    match step {
        OpenStep::Sleep { interval } => assert_eq!(interval, Duration::from_millis(100)),
        other => panic!("{other:?}"),
    }
    let (stage, step) = request.advance(waiting, &ok(""), zero);
    assert!(matches!(step, OpenStep::Look));
    assert_eq!(stage, OpenStage::Look);
    assert!(matches!(request.advance(stage, &ok("{}"), zero).1, OpenStep::Opened));
}

#[test]
fn opened_prs_are_monitored() {
    let mut state = OrchestratorState::new();
    let output = r#"{"number":12,"headRefName":"fix/t"}"#;
    assert!(track_created_pr(&mut state, output, &issue("T", None), "/ws/T", "bugs/T", "bugs"));
    let prs = state.open_prs();
    assert_eq!(prs[0].pr_number, 12);
    assert_eq!(prs[0].branch_name, "fix/t");
    assert_eq!(prs[0].workspace_dir, "/ws/T");
    assert!(!track_created_pr(&mut state, "nope", &issue("T", None), "/", "bugs/U", "bugs"));
    let data = parse_line("{}").unwrap();
    assert!(!track_created(&mut state, &data, &issue("T", None), "/", "bugs/U", "bugs"));
    assert_eq!(state.open_prs().len(), 1);
    assert!(created_pr_script().contains("gh pr view"));
    assert!(find_pr_script().contains("gh pr"));
}

#[test]
fn prs_in_workspaces_are_discovered() {
    let mut state = OrchestratorState::new();
    let open = r#"{"number":5,"state":"OPEN","title":"T","headRefName":"b"}"#;
    assert!(discover_open_pr(&mut state, open, "TASK-5", "/ws/TASK-5", &bugs()));
    let prs = state.open_prs();
    assert_eq!(prs.len(), 1);
    assert_eq!(prs[0].issue.identifier, "TASK-5");
    assert_eq!(prs[0].issue.title, "T");
    assert_eq!(prs[0].branch_name, "b");
    assert!(state.open_prs.contains_key("bugs/TASK-5"));

    let closed = r#"{"number":6,"state":"CLOSED"}"#;
    assert!(!discover_open_pr(&mut state, closed, "TASK-6", "/ws", &bugs()));
    assert!(!discover_open_pr(&mut state, "nope", "TASK-7", "/ws", &bugs()));
    // What is monitored already stays as it is
    assert!(is_monitored(&state, "TASK-5", &bugs()));
    assert!(!discover_open_pr(&mut state, open, "TASK-5", "/other", &bugs()));
    assert_eq!(state.open_prs()[0].workspace_dir, "/ws/TASK-5");

    // Another workflow has a PR of its own for the same identifier
    let other = WorkflowId(s("other"));
    assert!(!is_monitored(&state, "TASK-5", &other));
    assert!(discover_open_pr(&mut state, open, "TASK-5", "/b/TASK-5", &other));
    assert!(state.open_prs.contains_key("other/TASK-5"));
    assert!(state.open_prs.contains_key("bugs/TASK-5"));
    assert!(discover(&mut state, &parse_line(open).unwrap(), "TASK-9", "/ws", &bugs()));
    assert_eq!(state.open_prs().len(), 3);
}

#[test]
fn cycles_follow_the_most_frequent_workflow() {
    let secs = |n: u64| Duration::from_secs(n);
    assert_eq!(poll_interval(&vec![]), secs(30));
    assert_eq!(poll_interval(&vec![secs(60), secs(15), secs(45)]), secs(15));
    assert_eq!(poll_interval(&vec![secs(60)]), secs(60));
}
