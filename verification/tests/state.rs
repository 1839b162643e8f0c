use symposium::collections::{StringMap, StringSet};
use symposium::domain::issue::Issue;
use symposium::domain::retry::RetryEntry;
use symposium::domain::session::{AgentEvent, AgentEventKind, LiveSession, RunStatus};
use symposium::domain::state::{OrchestratorState, MAX_COMPLETED};
use symposium::domain::workflow::WorkflowId;
use symposium::server::dashboard::render;
use symposium::startup::{claim_workflow, server_port};
use symposium::time::{Duration, Timestamp};

fn at(secs: i64) -> Timestamp {
    Timestamp { secs, nanos: 0 }
}

fn issue(id: &str) -> Issue {
    Issue {
        identifier: id.to_string(),
        title: format!("Title of {id}"),
        description: None,
        status: "Todo".to_string(),
        priority: None,
        url: None,
        notion_page_id: None,
        blockers: vec![],
        source: "notion".to_string(),
        extra: StringMap::new(),
        comments: vec![],
        workflow_id: String::new(),
    }
}

#[test]
fn sessions_start_and_end() {
    let mut state = OrchestratorState::new();
    state.start_session("w/A", issue("A"), Duration::from_secs(5), "w", at(100));
    assert!(state.is_running("w/A"));
    assert_eq!(state.running_count(), 1);
    assert_eq!(state.running_issue_ids_for_workflow("w"), vec!["A"]);
    assert!(state.running_issue_ids_for_workflow("v").is_empty());
    let entry = state.get_issue_detail("w/A").unwrap();
    assert_eq!(entry.session.status, RunStatus::Starting);
    assert_eq!(entry.session.started_at, at(100));
    assert!(state.get_issue_detail("w/B").is_none());

    state.mark_worker_done("w/A", false, Some("broken".to_string()), at(200));
    assert!(!state.is_running("w/A"));
    assert!(!state.is_completed_successfully("w/A"));
    let done = &state.snapshot().completed[0];
    assert_eq!(done.issue_id, "w/A");
    assert_eq!(done.error.as_deref(), Some("broken"));
    assert_eq!(done.completed_at, at(200));
    assert_eq!(done.workflow_id, "w");
}

#[test]
fn only_the_latest_sessions_are_remembered() {
    let mut state = OrchestratorState::new();
    for n in 0..MAX_COMPLETED + 3 {
        state.mark_worker_done(&format!("w/{n}"), true, None, at(n as i64));
    }
    assert_eq!(state.completed.len(), MAX_COMPLETED);
    assert!(!state.is_completed_successfully("w/2"));
    assert!(state.is_completed_successfully("w/3"));
    assert!(state.is_completed_successfully(&format!("w/{}", MAX_COMPLETED + 2)));
}

#[test]
fn silent_sessions_are_stalled() {
    let mut state = OrchestratorState::new();
    state.start_session("w/A", issue("A"), Duration::from_secs(10), "w", at(100));
    state.start_session("w/B", issue("B"), Duration::from_secs(50), "w", at(100));
    assert!(state.find_stalled_sessions(at(110)).is_empty());
    let stalled = state.find_stalled_sessions(at(111));
    assert_eq!(stalled.len(), 1);
    assert_eq!(stalled[0].0, "w/A");
    assert_eq!(stalled[0].1, Duration::from_secs(10));

    state.push_agent_event(
        "w/A",
        AgentEvent { at: at(111), kind: AgentEventKind::Text { text: "hi".to_string() } },
    );
    assert!(state.find_stalled_sessions(at(121)).is_empty());
    state.update_session_status("w/A", RunStatus::Stalled, at(130));
    assert_eq!(state.get_issue_detail("w/A").unwrap().session.status, RunStatus::Stalled);
    assert!(state.find_stalled_sessions(at(140)).is_empty());
}

#[test]
fn events_are_kept_in_order() {
    let mut session = LiveSession::new("w/A".to_string(), at(1));
    for n in 0..3 {
        session.push_event(AgentEvent {
            at: at(10 + n),
            kind: AgentEventKind::Text { text: format!("{n}") },
        });
    }
    assert_eq!(session.events.len(), 3);
    assert_eq!(session.last_activity, at(12));
    assert_eq!(session.events[0].at, at(10));
}

#[test]
fn retries_wait_until_they_are_ready() {
    let mut state = OrchestratorState::new();
    state.schedule_retry("w/A", 1, "w");
    state.schedule_retry("w/B", 2, "w");
    state.schedule_retry("v/C", 3, "v");
    state.mark_retry_ready("w/B");
    state.mark_retry_ready("v/C");
    state.mark_retry_ready("w/none");
    let ready = state.take_ready_retries_for_workflow("w");
    assert_eq!(ready.len(), 1);
    assert_eq!(ready[0].issue_id, "w/B");
    assert!(state.is_in_retry("w/A"));
    assert!(!state.is_in_retry("w/B"));
    assert!(state.is_in_retry("v/C"));
}

#[test]
fn retry_entries_start_unready() {
    let entry = RetryEntry::new("w/A".to_string(), 4).with_workflow("w".to_string());
    assert_eq!(entry.attempt, 4);
    assert_eq!(entry.workflow_id, "w");
    assert!(!entry.ready);
    assert!(entry.next_retry_at.is_none());
    assert_eq!(
        RetryEntry::calculate_backoff(3, Duration::from_millis(500), Duration::from_secs(60)),
        Duration::from_millis(4000)
    );
}

#[test]
fn tracking_again_replaces_a_pr() {
    let mut state = OrchestratorState::new();
    state.track_pr("w/A", issue("A"), 1, "/ws".to_string(), "w", "b1");
    state.mark_pr_addressed("w/A", at(5));
    assert_eq!(state.open_prs()[0].last_addressed_at, Some(at(5)));
    state.track_pr("w/A", issue("A"), 2, "/ws".to_string(), "w", "b2");
    assert_eq!(state.open_prs().len(), 1);
    assert_eq!(state.open_prs()[0].pr_number, 2);
    assert_eq!(state.open_prs()[0].last_addressed_at, None);
    state.untrack_pr("w/B");
    assert_eq!(state.open_prs().len(), 1);
    state.untrack_pr("w/A");
    assert!(state.open_prs().is_empty());
}

#[test]
fn dashboard_of_an_idle_state() {
    let page = render(&OrchestratorState::new().snapshot());
    assert!(page.starts_with("<!DOCTYPE html>\n<html>"));
    assert!(page.ends_with("</html>"));
    assert!(page.contains("<div class=\"stat-value\">0 / 0</div>"));
    assert!(page.contains("No running sessions"));
    assert!(page.contains("No completed sessions yet"));
    assert!(page.contains("h1 { color: #333; }"));
}

#[test]
fn dashboard_lists_sessions() {
    let mut state = OrchestratorState::new();
    state.start_session("w/A", issue("A"), Duration::from_secs(10), "w", at(100));
    state.mark_worker_done("w/B", true, None, at(1_772_323_200));
    state.mark_worker_done("w/C", false, None, at(-1));
    state.tokens.input_tokens = 12;
    state.tokens.output_tokens = 34;
    let page = render(&state.snapshot());
    assert!(page.contains("<tr><td>A</td><td>Title of A</td><td>Starting</td><td>0</td></tr>"));
    assert!(page.contains(
        "<tr><td>w/B</td><td>Success</td><td>0</td><td>2026-03-01 00:00:00</td></tr>"
    ));
    assert!(page.contains(
        "<tr><td>w/C</td><td>Failed</td><td>0</td><td>1969-12-31 23:59:59</td></tr>"
    ));
    assert!(page.contains("12 / 34"));
    assert!(!page.contains("No running sessions"));
}

#[test]
fn workflows_need_names_of_their_own() {
    let mut seen = StringSet::new();
    let id = |name: &str| WorkflowId(name.to_string());
    assert!(claim_workflow(&mut seen, &id("bugs")).is_ok());
    assert!(claim_workflow(&mut seen, &id("other")).is_ok());
    let error = claim_workflow(&mut seen, &id("bugs")).unwrap_err();
    assert_eq!(
        error,
        "duplicate workflow ID \"bugs\": each WORKFLOW file must have a unique name"
    );
    assert_eq!(seen.len(), 2);
}

#[test]
fn port_is_the_given_the_configured_or_the_default() {
    assert_eq!(server_port(Some(1), Some(2)), 1);
    assert_eq!(server_port(None, Some(2)), 2);
    assert_eq!(server_port(None, None), 8080);
}

#[test]
fn lengths_of_time() {
    assert_eq!(Duration::from_secs(u64::MAX).as_secs(), u64::MAX as u128);
    assert_eq!(Duration::from_millis(1500).as_secs(), 1);
    assert_eq!(Duration::from_millis(1500).as_millis(), 1500);
    assert_eq!(at(5).nanos_since(at(7)), -2_000_000_000);
    assert!(at(7).after(at(5)));
    assert!(!at(5).after(at(5)));
}
