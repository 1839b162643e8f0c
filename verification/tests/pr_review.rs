use symposium::agent::process::parse_line;
use symposium::collections::StringMap;
use symposium::config::schema::{ReviewerFilter, ServiceConfig};
use symposium::domain::issue::Issue;
use symposium::domain::state::{OpenPr, OrchestratorState};
use symposium::domain::workflow::WorkflowId;
use symposium::error::Error;
use symposium::json::Json;
use symposium::orchestrator::pr_review::{
    accepts_login, begin_pr_review, build_default_pr_review_prompt, build_pr_review_prompt,
    check_pr, is_reviewer_actionable, is_terminal, latest_actionable_review_at, latest_feedback,
    needs_attention, parse_status, read_status, rendered_or_default_pr_review,
    review_session_state_key, settle_pr, status_script, workflow_prs, PrCheck, PrStatus, Review,
};
use symposium::time::{Duration, Timestamp};

const NOW: Timestamp = Timestamp { secs: 1_772_000_000, nanos: 5 };

fn hour_before(t: Timestamp) -> Timestamp {
    Timestamp { secs: t.secs - 3600, nanos: t.nanos }
}

fn at(text: &str) -> Timestamp {
    let parsed = chrono::DateTime::parse_from_rfc3339(text).unwrap();
    Timestamp { secs: parsed.timestamp(), nanos: parsed.timestamp_subsec_nanos() }
}

fn make_review(state: &str, login: &str, submitted_at: &str) -> Json {
    Json::Object(vec![
        ("state".to_string(), Json::Str(state.to_string())),
        (
            "author".to_string(),
            Json::Object(vec![("login".to_string(), Json::Str(login.to_string()))]),
        ),
        ("submittedAt".to_string(), Json::Str(submitted_at.to_string())),
    ])
}

fn test_issue() -> Issue {
    Issue {
        identifier: "TASK-123".to_string(),
        title: "Fix the bug".to_string(),
        description: Some("Something is broken".to_string()),
        status: "In Progress".to_string(),
        priority: Some("High".to_string()),
        url: None,
        notion_page_id: None,
        blockers: vec![],
        source: "notion".to_string(),
        extra: StringMap::new(),
        comments: vec![],
        workflow_id: "default".to_string(),
    }
}

fn open_pr(pr_number: u64, last_addressed_at: Option<Timestamp>) -> OpenPr {
    OpenPr {
        issue: test_issue(),
        pr_number,
        workspace_dir: "/tmp".into(),
        last_addressed_at,
        workflow_id: "default".to_string(),
        branch_name: String::new(),
    }
}

fn status(state: &str, latest: Option<Timestamp>) -> PrStatus {
    PrStatus { state: state.into(), latest_actionable_review_at: latest }
}

#[test]
fn is_reviewer_actionable_all() {
    let review = make_review("CHANGES_REQUESTED", "some-bot[bot]", "2026-01-01T00:00:00Z");
    assert!(is_reviewer_actionable(&review, &ReviewerFilter::All));
}

#[test]
fn is_reviewer_actionable_humans_filters_bots() {
    let bot = make_review("CHANGES_REQUESTED", "dependabot[bot]", "2026-01-01T00:00:00Z");
    let human = make_review("CHANGES_REQUESTED", "alice", "2026-01-01T00:00:00Z");
    assert!(!is_reviewer_actionable(&bot, &ReviewerFilter::Humans));
    assert!(is_reviewer_actionable(&human, &ReviewerFilter::Humans));
}

#[test]
fn is_reviewer_actionable_specific_users() {
    let filter = ReviewerFilter::Specific(vec!["alice".to_string(), "Bob".to_string()]);
    let alice = make_review("CHANGES_REQUESTED", "Alice", "2026-01-01T00:00:00Z");
    let bob = make_review("CHANGES_REQUESTED", "bob", "2026-01-01T00:00:00Z");
    let carol = make_review("CHANGES_REQUESTED", "carol", "2026-01-01T00:00:00Z");
    assert!(is_reviewer_actionable(&alice, &filter));
    assert!(is_reviewer_actionable(&bob, &filter));
    assert!(!is_reviewer_actionable(&carol, &filter));
}

#[test]
fn needs_attention_no_reviews() {
    let pr = open_pr(1, None);
    assert!(!needs_attention(&pr, &status("OPEN", None)));
}

#[test]
fn needs_attention_new_review() {
    let pr = open_pr(1, None);
    assert!(needs_attention(&pr, &status("OPEN", Some(NOW))));
}

#[test]
fn needs_attention_already_addressed() {
    let pr = open_pr(1, Some(NOW));
    assert!(!needs_attention(&pr, &status("OPEN", Some(hour_before(NOW)))));
}

#[test]
fn needs_attention_new_review_after_addressed() {
    let pr = open_pr(1, Some(hour_before(NOW)));
    assert!(needs_attention(&pr, &status("OPEN", Some(NOW))));
}

#[test]
fn terminal_states() {
    assert!(is_terminal(&status("MERGED", None)));
    assert!(is_terminal(&status("CLOSED", None)));
    assert!(!is_terminal(&status("OPEN", None)));
}

#[test]
fn default_prompt_includes_pr_number() {
    let issue = test_issue();
    let prompt = build_default_pr_review_prompt(&issue, 42);
    assert!(prompt.contains("PR #42"));
    assert!(prompt.contains("TASK-123"));
    assert!(prompt.contains("Fix the bug"));
}

#[test]
fn superseded_review_is_ignored() {
    // Someone requests changes, then approves — should NOT trigger
    let reviews = vec![
        make_review("CHANGES_REQUESTED", "alice", "2026-01-01T10:00:00Z"),
        make_review("APPROVED", "alice", "2026-01-02T10:00:00Z"),
    ];
    let result = latest_actionable_review_at(Some(&reviews), &ReviewerFilter::All);
    assert!(result.is_none());
}

#[test]
fn comment_then_approve_is_ignored() {
    // Someone leaves comments, then approves — should NOT trigger
    let reviews = vec![
        make_review("COMMENTED", "alice", "2026-01-01T10:00:00Z"),
        make_review("APPROVED", "alice", "2026-01-02T10:00:00Z"),
    ];
    let result = latest_actionable_review_at(Some(&reviews), &ReviewerFilter::All);
    assert!(result.is_none());
}

#[test]
fn commented_review_triggers() {
    // A COMMENTED review (most common kind) should trigger
    let reviews = vec![make_review("COMMENTED", "alice", "2026-01-01T10:00:00Z")];
    let result = latest_actionable_review_at(Some(&reviews), &ReviewerFilter::All);
    assert!(result.is_some());
    assert_eq!(result, Some(at("2026-01-01T10:00:00Z")));
}

#[test]
fn superseded_review_different_authors() {
    // Alice approves after commenting, but Bob still has unaddressed comments
    let reviews = vec![
        make_review("COMMENTED", "alice", "2026-01-01T10:00:00Z"),
        make_review("APPROVED", "alice", "2026-01-02T10:00:00Z"),
        make_review("COMMENTED", "bob", "2026-01-02T12:00:00Z"),
    ];
    let result = latest_actionable_review_at(Some(&reviews), &ReviewerFilter::All);
    assert!(result.is_some());
}

#[test]
fn no_reviews_returns_none() {
    let reviews = vec![];
    let result = latest_actionable_review_at(Some(&reviews), &ReviewerFilter::All);
    assert!(result.is_none());
    assert!(latest_actionable_review_at(None, &ReviewerFilter::All).is_none());
}

#[test]
fn only_approved_reviews_returns_none() {
    let reviews = vec![
        make_review("APPROVED", "alice", "2026-01-01T10:00:00Z"),
        make_review("APPROVED", "bob", "2026-01-02T10:00:00Z"),
    ];
    let result = latest_actionable_review_at(Some(&reviews), &ReviewerFilter::All);
    assert!(result.is_none());
}

#[test]
fn real_world_mixed_reviews() {
    // Simulates typical PR data: bot comments, human comments, human approves
    let reviews = vec![
        make_review("COMMENTED", "ci-bot", "2026-03-06T21:45:13Z"),
        make_review("COMMENTED", "bot-assistant", "2026-03-06T22:14:25Z"),
        make_review("APPROVED", "author-a", "2026-03-10T15:07:10Z"),
        make_review("COMMENTED", "author-b", "2026-03-10T17:21:15Z"),
    ];
    // With "all" filter: ci-bot, bot-assistant, and author-b all have COMMENTED as latest
    let result = latest_actionable_review_at(Some(&reviews), &ReviewerFilter::All);
    assert!(result.is_some());

    // With "humans" filter: ci-bot is not filtered (doesn't end in [bot])
    // but bot-assistant and author-b still trigger
    let result = latest_actionable_review_at(Some(&reviews), &ReviewerFilter::Humans);
    assert!(result.is_some());

    // With specific filter for only author-a (who approved): no trigger
    let filter = ReviewerFilter::Specific(vec!["author-a".to_string()]);
    let result = latest_actionable_review_at(Some(&reviews), &filter);
    assert!(result.is_none());
}

/// Dry-run: feed representative `gh pr view` JSON through the full
/// status parsing pipeline and verify the decision logic.
#[test]
fn dry_run_real_gh_output() {
    // Representative output matching: gh pr view 42 --repo acme-org/acme-app --json state,reviewDecision,reviews
    let raw = r#"{"reviewDecision":"REVIEW_REQUIRED","reviews":[{"id":"PRR_fake00000000001","author":{"login":"ci-bot"},"authorAssociation":"NONE","body":"review body","submittedAt":"2026-03-06T21:45:13Z","state":"COMMENTED","commit":{"oid":"aaa1111111"}},{"id":"PRR_fake00000000002","author":{"login":"bot-assistant"},"authorAssociation":"NONE","body":"","submittedAt":"2026-03-06T22:14:25Z","state":"COMMENTED","commit":{"oid":"bbb2222222"}}],"state":"OPEN"}"#;

    let data = parse_line(raw).unwrap();
    let state = data.str_or("state", "").to_string();

    // Verify state parsing
    assert_eq!(state, "OPEN");
    assert!(!is_terminal(&status(&state, None)));

    // With "all" filter — both COMMENTED reviews are actionable
    let result = latest_actionable_review_at(data.array_at("reviews"), &ReviewerFilter::All);
    assert!(result.is_some());
    // Latest should be bot-assistant's review at 22:14:25Z
    let ts = result.unwrap();
    assert_eq!(ts, at("2026-03-06T22:14:25Z"));

    // With specific filter — only react to an author not present
    let filter = ReviewerFilter::Specific(vec!["author-a".to_string()]);
    let result = latest_actionable_review_at(data.array_at("reviews"), &filter);
    assert!(result.is_none(), "no matching author should mean no trigger");

    // Simulate an OpenPr that was never addressed — should need attention
    let pr = open_pr(42, None);
    let seen = status(&state, Some(ts));
    assert!(needs_attention(&pr, &seen));

    // After addressing, same review should NOT need attention
    let now = chrono::Utc::now();
    let addressed = Timestamp { secs: now.timestamp(), nanos: now.timestamp_subsec_nanos() };
    let pr_addressed = OpenPr { last_addressed_at: Some(addressed), ..pr };
    assert!(!needs_attention(&pr_addressed, &seen));
}

/// Dry-run: feed representative `gh pr view` JSON (APPROVED) through
/// the pipeline and verify it does NOT trigger for the approver.
#[test]
fn dry_run_approved_pr() {
    // Has COMMENTED reviews from bot-assistant and author-b, but APPROVED by author-a
    let raw = r#"{"reviewDecision":"APPROVED","reviews":[{"author":{"login":"bot-assistant"},"state":"COMMENTED","submittedAt":"2026-03-06T15:00:38Z"},{"author":{"login":"author-a"},"state":"APPROVED","submittedAt":"2026-03-10T15:07:10Z"},{"author":{"login":"author-b"},"state":"COMMENTED","submittedAt":"2026-03-10T15:42:58Z"},{"author":{"login":"author-b"},"state":"COMMENTED","submittedAt":"2026-03-10T17:21:15Z"}],"state":"OPEN"}"#;

    let data = parse_line(raw).unwrap();

    // bot-assistant's latest review: COMMENTED (actionable)
    // author-a's latest: APPROVED (not actionable)
    // author-b's latest: COMMENTED at 17:21 (actionable)
    let result = latest_actionable_review_at(data.array_at("reviews"), &ReviewerFilter::All);
    assert!(result.is_some());
    assert_eq!(result, Some(at("2026-03-10T17:21:15Z")));

    // If we filter to only author-a (the approver), no trigger
    let filter = ReviewerFilter::Specific(vec!["author-a".to_string()]);
    let result = latest_actionable_review_at(data.array_at("reviews"), &filter);
    assert!(result.is_none());
}

#[test]
fn status_is_read_from_gh_output() {
    let raw = r#"{"state":"OPEN","reviews":[{"author":{"login":"a"},"state":"CHANGES_REQUESTED","submittedAt":"2026-03-06T15:00:38.5+01:00"}]}"#;
    let read = parse_status(raw, &ReviewerFilter::All).unwrap();
    assert_eq!(read.state, "OPEN");
    assert_eq!(read.latest_actionable_review_at, Some(at("2026-03-06T14:00:38.5Z")));

    let bare = parse_status("{}", &ReviewerFilter::All).unwrap();
    assert_eq!(bare.state, "");
    assert!(bare.latest_actionable_review_at.is_none());

    assert!(parse_status("not json", &ReviewerFilter::All).is_err());
    let same = read_status(&parse_line(raw).unwrap(), &ReviewerFilter::All);
    assert_eq!(same.state, "OPEN");
}

#[test]
fn undated_reviews_do_not_trigger() {
    let reviews = vec![make_review("COMMENTED", "alice", "yesterday")];
    assert!(latest_actionable_review_at(Some(&reviews), &ReviewerFilter::All).is_none());
}

#[test]
fn latest_feedback_takes_each_author_by_the_last_review() {
    let review = |login: &str, state: &str, secs: i64| Review {
        login: login.to_string(),
        state: Some(state.to_string()),
        submitted_at: format!("{secs}"),
        at: Some(Timestamp { secs, nanos: 0 }),
    };
    let reviews = vec![
        review("alice", "CHANGES_REQUESTED", 100),
        review("bob", "COMMENTED", 200),
        review("alice", "APPROVED", 300),
    ];
    assert_eq!(
        latest_feedback(&reviews, &ReviewerFilter::All),
        Some(Timestamp { secs: 200, nanos: 0 })
    );
}

#[test]
fn logins_are_filtered() {
    assert!(accepts_login("x[bot]", &ReviewerFilter::All));
    assert!(!accepts_login("x[bot]", &ReviewerFilter::Humans));
    assert!(accepts_login("x", &ReviewerFilter::Humans));
    assert!(!accepts_login("x", &ReviewerFilter::Specific(vec![])));
}

#[test]
fn status_script_asks_for_the_pr() {
    let script = status_script(42);
    assert!(script.contains("gh pr view 42"));
    assert!(script.contains("reviews"));
}

#[test]
fn review_sessions_have_keys_of_their_own() {
    let wf = WorkflowId("default".to_string());
    assert_ne!(review_session_state_key("TASK-1", &wf), wf.state_key("TASK-1"));
    assert!(review_session_state_key("TASK-1", &wf).starts_with("default/"));
}

#[test]
fn pr_prompt_is_rendered_or_default() {
    let issue = test_issue();
    assert_eq!(build_pr_review_prompt(&issue, 7, ""), build_default_pr_review_prompt(&issue, 7));
    assert_eq!(
        build_pr_review_prompt(&issue, 7, "PR {{ issue.pr_number }} of {{ issue.identifier }}"),
        "PR 7 of TASK-123"
    );
    assert_eq!(
        build_pr_review_prompt(&issue, 7, "PR {{ issue.extra.pr_number }}"),
        "PR 7"
    );
    assert_eq!(
        build_pr_review_prompt(&issue, 7, "{% if %}"),
        build_default_pr_review_prompt(&issue, 7)
    );
    assert_eq!(
        rendered_or_default_pr_review(Ok("custom".to_string()), &issue, 7),
        "custom"
    );
    assert_eq!(
        rendered_or_default_pr_review(Err(Error::Prompt("bad".to_string())), &issue, 7),
        build_default_pr_review_prompt(&issue, 7)
    );
}

#[test]
fn open_prs_are_settled_by_their_status() {
    let wf = WorkflowId("default".to_string());
    let config = ServiceConfig::default();
    let mut state = OrchestratorState::new();
    let key = wf.state_key("TASK-123");
    state.track_pr(&key, test_issue(), 7, "/tmp".to_string(), "default", "branch");
    state.track_pr("other/X", test_issue(), 8, "/tmp".to_string(), "other", "branch");

    let prs = workflow_prs(&state, &wf);
    assert_eq!(prs.len(), 1);
    assert_eq!(prs[0].pr_number, 7);
    assert!(matches!(check_pr(&state, &prs[0], &config, &wf, None), PrCheck::Ask));
    assert!(matches!(check_pr(&state, &prs[0], &config, &wf, Some(0)), PrCheck::Stop));

    // Nothing new: nothing happens
    assert!(!settle_pr(&mut state, &prs[0], &Ok(status("OPEN", None)), &wf));
    assert_eq!(state.open_prs().len(), 2);
    assert!(!settle_pr(&mut state, &prs[0], &Err(Error::Hook("gh".to_string())), &wf));

    // New feedback: a review session starts, and runs once
    assert!(settle_pr(&mut state, &prs[0], &Ok(status("OPEN", Some(NOW))), &wf));
    let session = begin_pr_review(&mut state, &prs[0], &config, &wf, NOW);
    assert_eq!(session, review_session_state_key("TASK-123", &wf));
    assert!(state.is_running(&session));
    assert!(matches!(check_pr(&state, &prs[0], &config, &wf, None), PrCheck::Skip));

    // Merged: no longer monitored
    assert!(!settle_pr(&mut state, &prs[0], &Ok(status("MERGED", Some(NOW))), &wf));
    assert_eq!(state.open_prs().len(), 1);
    assert_eq!(state.open_prs()[0].pr_number, 8);
}

#[test]
fn addressed_feedback_is_not_addressed_again() {
    let mut state = OrchestratorState::new();
    let key = "default/TASK-123";
    state.track_pr(key, test_issue(), 7, "/tmp".to_string(), "default", "branch");
    let seen = status("OPEN", Some(NOW));
    assert!(needs_attention(&state.open_prs()[0], &seen));
    state.mark_pr_addressed(key, NOW);
    assert!(!needs_attention(&state.open_prs()[0], &seen));
    let later = Timestamp { secs: NOW.secs, nanos: NOW.nanos + 1 };
    assert!(needs_attention(&state.open_prs()[0], &status("OPEN", Some(later))));
    state.untrack_pr(key);
    assert!(state.open_prs().is_empty());
    assert_eq!(Duration::from_secs(1).nanos, 1_000_000_000);
}
