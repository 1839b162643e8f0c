use symposium::collections::StringMap;
use symposium::config::schema::ServiceConfig;
use symposium::domain::issue::{Comment, Issue};
use symposium::domain::session::AgentEventKind;
use symposium::domain::state::OpenPr;
use symposium::error::Error;
use symposium::orchestrator::review_worker::{ReviewAction, ReviewOutcome, ReviewWorker};
use symposium::orchestrator::worker::{
    agent_directory_in, Worker, WorkerAction, WorkerOutcome, WorkerStep,
};

fn issue(page: Option<&str>) -> Issue {
    Issue {
        identifier: "TASK-1".to_string(),
        title: "Fix it".to_string(),
        description: None,
        status: "Todo".to_string(),
        priority: None,
        url: None,
        notion_page_id: page.map(str::to_string),
        blockers: vec![],
        source: "notion".to_string(),
        extra: StringMap::new(),
        comments: vec![],
        workflow_id: String::new(),
    }
}

fn config() -> ServiceConfig {
    let mut config = ServiceConfig::default();
    config.prompt_template = "main".to_string();
    config
}

fn said(step: &WorkerStep) -> Vec<String> {
    step.events
        .iter()
        .map(|e| match e {
            AgentEventKind::Status { status } => status.clone(),
            AgentEventKind::Error { message } => format!("error: {message}"),
            other => panic!("{other:?}"),
        })
        .collect()
}

/// The worker and the step at which its main agent runs.
fn at_agent(config: &ServiceConfig) -> (Worker, WorkerStep) {
    let (mut worker, _) = Worker::begin(issue(None), None);
    worker.advance(config, WorkerOutcome::Workspace(Ok("/ws/TASK-1".to_string())));
    worker.advance(config, WorkerOutcome::Done(Ok(())));
    let step = worker.advance(config, WorkerOutcome::Rendered(Ok("do it".to_string())));
    (worker, step)
}

#[test]
fn work_on_an_issue_from_start_to_end() {
    let mut config = config();
    config.pr_review.enabled = true;
    let (mut worker, step) = Worker::begin(issue(Some("page")), Some(2));
    match step.action {
        WorkerAction::FetchComments { page_id } => assert_eq!(page_id, "page"),
        other => panic!("{other:?}"),
    }

    let comments = vec![Comment {
        author: "A".to_string(),
        body: "b".to_string(),
        created_at: None,
    }];
    let step = worker.advance(&config, WorkerOutcome::Comments(Some(comments)));
    assert!(matches!(step.action, WorkerAction::EnsureWorkspace));
    assert_eq!(said(&step), vec!["Setting up workspace"]);
    assert_eq!(worker.issue.comments.len(), 1);

    let step = worker.advance(&config, WorkerOutcome::Workspace(Ok("/ws/TASK-1".to_string())));
    assert!(matches!(step.action, WorkerAction::Prepare));

    let step = worker.advance(&config, WorkerOutcome::Done(Ok(())));
    match step.action {
        WorkerAction::Render { template, attempt, workspace } => {
            assert_eq!(template, "main");
            assert_eq!(attempt, Some(2));
            assert_eq!(workspace, None);
        }
        other => panic!("{other:?}"),
    }

    let step = worker.advance(&config, WorkerOutcome::Rendered(Ok("do it".to_string())));
    assert!(step.running);
    match step.action {
        WorkerAction::RunAgent { dir, prompt } => {
            assert_eq!(dir, "/ws/TASK-1");
            assert!(prompt.starts_with("do it"));
            assert!(prompt.contains("Fixes TASK-1"));
        }
        other => panic!("{other:?}"),
    }

    let step = worker.advance(&config, WorkerOutcome::AgentEnded(Ok(true)));
    assert_eq!(said(&step), vec!["Running deep review"]);
    match step.action {
        WorkerAction::RunAgent { prompt, .. } => assert!(prompt.starts_with("You are reviewing")),
        other => panic!("{other:?}"),
    }

    let step = worker.advance(&config, WorkerOutcome::AgentEnded(Err(Error::Agent("x".into()))));
    assert!(matches!(step.action, WorkerAction::TakeMetadata));

    let step = worker.advance(
        &config,
        WorkerOutcome::Metadata { title: Some(" Better title\n".to_string()), body: None },
    );
    match step.action {
        WorkerAction::OpenPr { title, body } => {
            assert_eq!(title, "Better title");
            assert_eq!(
                body,
                "Automated fix for **TASK-1**: Fix it\n\n---\n*Opened by Symposium*"
            );
        }
        other => panic!("{other:?}"),
    }

    let step = worker.advance(&config, WorkerOutcome::Opened(Ok(())));
    assert!(matches!(step.action, WorkerAction::TrackPr));
    assert_eq!(said(&step), vec!["Draft PR opened"]);

    let step = worker.advance(&config, WorkerOutcome::Done(Ok(())));
    assert!(matches!(step.action, WorkerAction::Finish { success: true }));

    let step = worker.advance(&config, WorkerOutcome::Done(Ok(())));
    assert!(matches!(step.action, WorkerAction::End { result: Ok(true) }));
}

#[test]
fn issues_without_a_page_have_no_comments_fetched() {
    let (_, step) = Worker::begin(issue(None), None);
    assert!(matches!(step.action, WorkerAction::EnsureWorkspace));
}

#[test]
fn preflight_skip_ends_the_work() {
    let mut config = config();
    config.preflight.enabled = true;
    config.preflight.prompt_template = "check".to_string();
    config.workspace.agent_subdirectory = Some("sub".to_string());
    let (mut worker, _) = Worker::begin(issue(None), None);
    worker.advance(&config, WorkerOutcome::Workspace(Ok("/ws".to_string())));
    let step = worker.advance(&config, WorkerOutcome::Done(Ok(())));
    assert!(matches!(step.action, WorkerAction::Render { .. }));
    let step = worker.advance(&config, WorkerOutcome::Rendered(Ok("p".to_string())));
    match step.action {
        WorkerAction::RunAgent { dir, prompt } => {
            assert_eq!(dir, "/ws/sub");
            assert!(prompt.contains("PREFLIGHT_SKIP"));
        }
        other => panic!("{other:?}"),
    }
    let step = worker.advance(&config, WorkerOutcome::AgentEnded(Ok(true)));
    match step.action {
        WorkerAction::TakeFile { path } => assert_eq!(path, "/ws/sub/PREFLIGHT_SKIP"),
        other => panic!("{other:?}"),
    }
    let step = worker.advance(&config, WorkerOutcome::File(Some(" fixed already \n".to_string())));
    assert_eq!(said(&step), vec!["Preflight: skipped — fixed already"]);
    assert!(matches!(step.action, WorkerAction::Finish { success: true }));
    let step = worker.advance(&config, WorkerOutcome::Done(Ok(())));
    assert!(matches!(step.action, WorkerAction::End { result: Ok(true) }));
}

#[test]
fn failing_preflight_does_not_stop_the_work() {
    let mut config = config();
    config.preflight.enabled = true;
    config.preflight.prompt_template = "check".to_string();

    // The template cannot be rendered
    let (mut worker, _) = Worker::begin(issue(None), None);
    worker.advance(&config, WorkerOutcome::Workspace(Ok("/ws".to_string())));
    worker.advance(&config, WorkerOutcome::Done(Ok(())));
    let step = worker.advance(&config, WorkerOutcome::Rendered(Err(Error::Prompt("x".into()))));
    assert!(matches!(step.action, WorkerAction::Render { .. }));

    // The agent cannot be started
    let (mut worker, _) = Worker::begin(issue(None), None);
    worker.advance(&config, WorkerOutcome::Workspace(Ok("/ws".to_string())));
    worker.advance(&config, WorkerOutcome::Done(Ok(())));
    worker.advance(&config, WorkerOutcome::Rendered(Ok("p".to_string())));
    let step =
        worker.advance(&config, WorkerOutcome::AgentNotStarted(Error::Agent("gone".into())));
    assert!(said(&step)[0].starts_with("error: Failed to start preflight agent"));
    let step = worker.advance(&config, WorkerOutcome::File(None));
    assert!(matches!(step.action, WorkerAction::Render { .. }));
}

#[test]
fn unsuccessful_agents_open_no_pr() {
    let config = config();
    let (mut worker, _) = at_agent(&config);
    let step = worker.advance(&config, WorkerOutcome::AgentEnded(Ok(false)));
    assert!(matches!(step.action, WorkerAction::Finish { success: false }));
    let step = worker.advance(&config, WorkerOutcome::Done(Ok(())));
    assert!(matches!(step.action, WorkerAction::End { result: Ok(false) }));

    let (mut worker, _) = at_agent(&config);
    let step = worker.advance(&config, WorkerOutcome::AgentEnded(Err(Error::Agent("x".into()))));
    assert!(matches!(step.action, WorkerAction::End { result: Err(Error::Agent(_)) }));
}

#[test]
fn failed_setup_ends_the_work() {
    let config = config();
    let (mut worker, _) = Worker::begin(issue(None), None);
    let step = worker.advance(&config, WorkerOutcome::Workspace(Err(Error::Workspace("x".into()))));
    assert!(matches!(step.action, WorkerAction::End { result: Err(Error::Workspace(_)) }));
    let step = worker.advance(&config, WorkerOutcome::Done(Ok(())));
    assert!(matches!(step.action, WorkerAction::End { result: Err(Error::Orchestrator(_)) }));
}

#[test]
fn review_hook_runs_before_the_review() {
    let mut config = config();
    config.review.before_review = Some("lint {{ workspace }}".to_string());
    config.review.prompt_template = "review".to_string();
    let (mut worker, _) = at_agent(&config);
    let step = worker.advance(&config, WorkerOutcome::AgentEnded(Ok(true)));
    match step.action {
        WorkerAction::Render { template, workspace, .. } => {
            assert_eq!(template, "lint {{ workspace }}");
            assert_eq!(workspace.as_deref(), Some("/ws/TASK-1"));
        }
        other => panic!("{other:?}"),
    }
    let step = worker.advance(&config, WorkerOutcome::Rendered(Ok("lint /ws".to_string())));
    match step.action {
        WorkerAction::RunHook { script } => assert_eq!(script, "lint /ws"),
        other => panic!("{other:?}"),
    }
    let step = worker.advance(&config, WorkerOutcome::Done(Err(Error::Hook("1".into()))));
    assert!(matches!(step.action, WorkerAction::Render { .. }));
    let step = worker.advance(&config, WorkerOutcome::Rendered(Ok("mine".to_string())));
    match step.action {
        WorkerAction::RunAgent { prompt, .. } => assert!(prompt.starts_with("mine\n\nFinally")),
        other => panic!("{other:?}"),
    }
}

#[test]
fn work_goes_on_when_no_pr_can_be_opened() {
    let mut config = config();
    config.review.enabled = false;
    let (mut worker, _) = at_agent(&config);
    let step = worker.advance(&config, WorkerOutcome::AgentEnded(Ok(true)));
    assert!(matches!(step.action, WorkerAction::TakeMetadata));
    worker.advance(&config, WorkerOutcome::Metadata { title: None, body: None });
    let step = worker.advance(&config, WorkerOutcome::Opened(Err("no remote".to_string())));
    assert_eq!(said(&step), vec!["error: PR creation failed: no remote"]);
    assert!(matches!(step.action, WorkerAction::Finish { success: true }));
}

#[test]
fn agents_run_in_the_configured_directory() {
    let mut config = config();
    assert_eq!(agent_directory_in(&config, "/ws"), "/ws");
    config.workspace.agent_subdirectory = Some("app".to_string());
    assert_eq!(agent_directory_in(&config, "/ws"), "/ws/app");
}

#[test]
fn feedback_is_worked_on_in_the_same_workspace() {
    let config = config();
    let pr = OpenPr {
        issue: issue(None),
        pr_number: 7,
        workspace_dir: "/ws/TASK-1".to_string(),
        last_addressed_at: None,
        workflow_id: "default".to_string(),
        branch_name: String::new(),
    };
    let (_, step) = ReviewWorker::begin(&pr, false);
    assert!(matches!(step.action, ReviewAction::End { result: Err(Error::Workspace(_)) }));

    let (mut worker, step) = ReviewWorker::begin(&pr, true);
    assert!(matches!(step.action, ReviewAction::Prepare));
    let step = worker.advance(&config, ReviewOutcome::Done(Ok(())));
    assert!(matches!(step.action, ReviewAction::BuildPrompt));
    let step = worker.advance(&config, ReviewOutcome::Prompt("p".to_string()));
    match step.action {
        ReviewAction::RunAgent { dir, prompt } => {
            assert_eq!(dir, "/ws/TASK-1");
            assert_eq!(prompt, "p");
        }
        other => panic!("{other:?}"),
    }
    let step = worker.advance(&config, ReviewOutcome::AgentEnded(Ok(true)));
    assert!(matches!(step.action, ReviewAction::Finish { success: true }));
    let step = worker.advance(&config, ReviewOutcome::Done(Ok(())));
    assert!(matches!(step.action, ReviewAction::End { result: Ok(true) }));
}
