//! The work on one issue, step by step: workspace, preflight, agent, review, PR.
use vstd::prelude::*;
use vstd::string::*;
use crate::config::schema::{ServiceConfig, ServiceConfigView};
use crate::domain::issue::{Comment, CommentView, Issue, IssueView};
use crate::domain::session::{AgentEventKind, AgentEventKindView};
use crate::error::{Error, ErrorKind, Result};
use crate::orchestrator::pull_request::{
    build_default_review_prompt, default_body, default_review_prompt, default_title,
    metadata_instructions, pr_metadata, pr_metadata_instructions, pr_metadata_update_instructions,
    preflight_signal_instructions, rendered_or_default_review, signal_instructions,
    update_instructions, written_or,
};
use crate::paths::{join_path, joined_path};
use crate::text::{cat2, str_eq, trim, trimmed};

verus! {

/// How far the work on an issue has come: what is being waited for.
#[derive(Debug, Clone, Copy, PartialEq, Eq, Structural)]
pub enum WorkerStage {
    Comments,
    Workspace,
    Prepare,
    PreflightPrompt,
    Preflight,
    SkipCheck,
    SkipFinish,
    Prompt,
    Agent,
    HookPrompt,
    Hook,
    ReviewPrompt,
    Review,
    Metadata,
    OpenPr,
    Track,
    Finish,
    Ended,
}

/// What is to be done next.
#[derive(Debug)]
pub enum WorkerAction {
    /// Fetch the comments on a Notion page.
    FetchComments { page_id: String },
    /// Make sure that the workspace exists.
    EnsureWorkspace,
    /// Run the `before_run` hook.
    Prepare,
    /// Render a template for the issue.
    Render { template: String, attempt: Option<u32>, workspace: Option<String> },
    /// Run an agent in a directory.
    RunAgent { dir: String, prompt: String },
    /// Look for a file, read it and remove it.
    TakeFile { path: String },
    /// Run a script in the workspace.
    RunHook { script: String },
    /// Read and remove the files that hold the title and the body of the PR.
    TakeMetadata,
    /// Open a PR.
    OpenPr { title: String, body: String },
    /// Monitor the PR that has been opened.
    TrackPr,
    /// Run the `after_run` hook.
    Finish { success: bool },
    /// Nothing more: this is how the work ended.
    End { result: Result<bool> },
}

/// How an action ended.
#[derive(Debug)]
pub enum WorkerOutcome {
    /// The comments, unless they could not be fetched.
    Comments(Option<Vec<Comment>>),
    /// Where the workspace is.
    Workspace(Result<String>),
    /// What a template rendered to.
    Rendered(Result<String>),
    /// The agent could not be started.
    AgentNotStarted(Error),
    /// The agent ended.
    AgentEnded(Result<bool>),
    /// What a file held, if it was there.
    File(Option<String>),
    /// What the files for the title and the body of the PR held.
    Metadata { title: Option<String>, body: Option<String> },
    /// Whether the PR was opened.
    Opened(std::result::Result<(), String>),
    /// Anything else.
    Done(Result<()>),
}

/// What comes next: reports, whether the agent now counts as running, and what
/// is to be done.
#[derive(Debug)]
pub struct WorkerStep {
    pub events: Vec<AgentEventKind>,
    pub running: bool,
    pub action: WorkerAction,
}

/// What a result holds, the error by kind and message.
pub open spec fn bool_result(r: Result<bool>) -> std::result::Result<bool, (ErrorKind, Seq<char>)> {
    match r {
        Ok(b) => Ok(b),
        Err(e) => Err(e.deep_view()),
    }
}

/// What a result holds, the error by kind and message.
pub open spec fn text_result(r: Result<String>) -> std::result::Result<
    Seq<char>,
    (ErrorKind, Seq<char>),
> {
    match r {
        Ok(s) => Ok(s@),
        Err(e) => Err(e.deep_view()),
    }
}

/// What a result holds, the error by kind and message.
pub open spec fn unit_result(r: Result<()>) -> std::result::Result<(), (ErrorKind, Seq<char>)> {
    match r {
        Ok(_) => Ok(()),
        Err(e) => Err(e.deep_view()),
    }
}

/// What a `WorkerAction` holds.
#[verifier::ext_equal]
pub enum WorkerActionView {
    FetchComments { page_id: Seq<char> },
    EnsureWorkspace,
    Prepare,
    Render { template: Seq<char>, attempt: Option<u32>, workspace: Option<Seq<char>> },
    RunAgent { dir: Seq<char>, prompt: Seq<char> },
    TakeFile { path: Seq<char> },
    RunHook { script: Seq<char> },
    TakeMetadata,
    OpenPr { title: Seq<char>, body: Seq<char> },
    TrackPr,
    Finish { success: bool },
    End { result: std::result::Result<bool, (ErrorKind, Seq<char>)> },
}

impl DeepView for WorkerAction {
    type V = WorkerActionView;

    open spec fn deep_view(&self) -> WorkerActionView {
        match self {
            WorkerAction::FetchComments { page_id } => WorkerActionView::FetchComments {
                page_id: page_id@,
            },
            WorkerAction::EnsureWorkspace => WorkerActionView::EnsureWorkspace,
            WorkerAction::Prepare => WorkerActionView::Prepare,
            WorkerAction::Render { template, attempt, workspace } => WorkerActionView::Render {
                template: template@,
                attempt: *attempt,
                workspace: workspace.deep_view(),
            },
            WorkerAction::RunAgent { dir, prompt } => WorkerActionView::RunAgent {
                dir: dir@,
                prompt: prompt@,
            },
            WorkerAction::TakeFile { path } => WorkerActionView::TakeFile { path: path@ },
            WorkerAction::RunHook { script } => WorkerActionView::RunHook { script: script@ },
            WorkerAction::TakeMetadata => WorkerActionView::TakeMetadata,
            WorkerAction::OpenPr { title, body } => WorkerActionView::OpenPr {
                title: title@,
                body: body@,
            },
            WorkerAction::TrackPr => WorkerActionView::TrackPr,
            WorkerAction::Finish { success } => WorkerActionView::Finish { success: *success },
            WorkerAction::End { result } => WorkerActionView::End { result: bool_result(*result) },
        }
    }
}

/// What a `WorkerOutcome` holds.
#[verifier::ext_equal]
pub enum WorkerOutcomeView {
    Comments(Option<Seq<CommentView>>),
    Workspace(std::result::Result<Seq<char>, (ErrorKind, Seq<char>)>),
    Rendered(std::result::Result<Seq<char>, (ErrorKind, Seq<char>)>),
    AgentNotStarted((ErrorKind, Seq<char>), Seq<char>),
    AgentEnded(std::result::Result<bool, (ErrorKind, Seq<char>)>, Seq<char>),
    File(Option<Seq<char>>),
    Metadata { title: Option<Seq<char>>, body: Option<Seq<char>> },
    Opened(std::result::Result<(), Seq<char>>),
    Done(std::result::Result<(), (ErrorKind, Seq<char>)>),
}

/// The message of an error, empty where there is none.
pub open spec fn message_of(r: Result<bool>) -> Seq<char> {
    match r {
        Ok(_) => seq![],
        Err(e) => e.prefix() + e.detail(),
    }
}

impl DeepView for WorkerOutcome {
    type V = WorkerOutcomeView;

    open spec fn deep_view(&self) -> WorkerOutcomeView {
        match self {
            WorkerOutcome::Comments(c) => WorkerOutcomeView::Comments(c.deep_view()),
            WorkerOutcome::Workspace(r) => WorkerOutcomeView::Workspace(text_result(*r)),
            WorkerOutcome::Rendered(r) => WorkerOutcomeView::Rendered(text_result(*r)),
            WorkerOutcome::AgentNotStarted(e) => WorkerOutcomeView::AgentNotStarted(
                e.deep_view(),
                e.prefix() + e.detail(),
            ),
            WorkerOutcome::AgentEnded(r) => WorkerOutcomeView::AgentEnded(
                bool_result(*r),
                message_of(*r),
            ),
            WorkerOutcome::File(f) => WorkerOutcomeView::File(f.deep_view()),
            WorkerOutcome::Metadata { title, body } => WorkerOutcomeView::Metadata {
                title: title.deep_view(),
                body: body.deep_view(),
            },
            WorkerOutcome::Opened(r) => WorkerOutcomeView::Opened(
                match *r {
                    Ok(_) => Ok(()),
                    Err(m) => Err(m@),
                },
            ),
            WorkerOutcome::Done(r) => WorkerOutcomeView::Done(unit_result(*r)),
        }
    }
}

/// What a `WorkerStep` holds.
#[verifier::ext_equal]
pub struct WorkerStepView {
    pub events: Seq<AgentEventKindView>,
    pub running: bool,
    pub action: WorkerActionView,
}

impl DeepView for WorkerStep {
    type V = WorkerStepView;

    open spec fn deep_view(&self) -> WorkerStepView {
        WorkerStepView {
            events: self.events.deep_view(),
            running: self.running,
            action: self.action.deep_view(),
        }
    }
}

/// The work on one issue.
#[derive(Debug)]
pub struct Worker {
    pub issue: Issue,
    /// The retry that this is, if it is one.
    pub attempt: Option<u32>,
    /// Where the workspace is, once it is known.
    pub dir: String,
    pub stage: WorkerStage,
    /// Whether the agent succeeded.
    pub success: bool,
}

/// What a `Worker` holds.
#[verifier::ext_equal]
pub struct WorkerView {
    pub issue: IssueView,
    pub attempt: Option<u32>,
    pub dir: Seq<char>,
    pub stage: WorkerStage,
    pub success: bool,
}

impl DeepView for Worker {
    type V = WorkerView;

    open spec fn deep_view(&self) -> WorkerView {
        WorkerView {
            issue: self.issue.deep_view(),
            attempt: self.attempt,
            dir: self.dir@,
            stage: self.stage,
            success: self.success,
        }
    }
}

/// A step without reports.
pub open spec fn quiet(action: WorkerActionView) -> WorkerStepView {
    WorkerStepView { events: seq![], running: false, action }
}

/// A step with one report.
pub open spec fn reporting(event: AgentEventKindView, action: WorkerActionView) -> WorkerStepView {
    WorkerStepView { events: seq![event], running: false, action }
}

/// A report of how far the work has come.
pub open spec fn status(text: Seq<char>) -> AgentEventKindView {
    AgentEventKindView::Status { status: text }
}

/// The directory that agents run in.
pub open spec fn agent_directory(config: ServiceConfigView, dir: Seq<char>) -> Seq<char> {
    match config.workspace.agent_subdirectory {
        Some(sub) => joined_path(dir, sub),
        None => dir,
    }
}

impl WorkerView {
    /// The same work at another stage.
    pub open spec fn at(self, stage: WorkerStage) -> WorkerView {
        WorkerView { stage, ..self }
    }

    /// The work is over.
    pub open spec fn ends(
        self,
        result: std::result::Result<bool, (ErrorKind, Seq<char>)>,
    ) -> (WorkerView, WorkerStepView) {
        (self.at(WorkerStage::Ended), quiet(WorkerActionView::End { result }))
    }

    /// The workspace is set up next.
    pub open spec fn to_workspace(self) -> (WorkerView, WorkerStepView) {
        (
            self.at(WorkerStage::Workspace),
            reporting(status("Setting up workspace"@), WorkerActionView::EnsureWorkspace),
        )
    }

    /// The prompt of the main agent is rendered next.
    pub open spec fn to_prompt(self, config: ServiceConfigView) -> (WorkerView, WorkerStepView) {
        (
            self.at(WorkerStage::Prompt),
            quiet(
                WorkerActionView::Render {
                    template: config.prompt_template,
                    attempt: self.attempt,
                    workspace: None,
                },
            ),
        )
    }

    /// The review agent runs next.
    pub open spec fn to_review(
        self,
        config: ServiceConfigView,
        prompt: Seq<char>,
    ) -> (WorkerView, WorkerStepView) {
        (
            self.at(WorkerStage::Review),
            quiet(
                WorkerActionView::RunAgent {
                    dir: agent_directory(config, self.dir),
                    prompt: prompt + update_instructions(),
                },
            ),
        )
    }

    /// The prompt of the review agent comes next, rendered where a template is
    /// configured.
    pub open spec fn to_review_prompt(self, config: ServiceConfigView) -> (
        WorkerView,
        WorkerStepView,
    ) {
        if config.review.prompt_template.len() == 0 {
            self.to_review(
                config,
                default_review_prompt(self.issue.identifier, self.issue.title),
            )
        } else {
            (
                self.at(WorkerStage::ReviewPrompt),
                quiet(
                    WorkerActionView::Render {
                        template: config.review.prompt_template,
                        attempt: None,
                        workspace: None,
                    },
                ),
            )
        }
    }

    /// What the PR is to say is read next.
    pub open spec fn to_metadata(self) -> (WorkerView, WorkerStepView) {
        (
            self.at(WorkerStage::Metadata),
            reporting(status("Opening draft PR"@), WorkerActionView::TakeMetadata),
        )
    }

    /// The `after_run` hook runs next.
    pub open spec fn to_finish(self) -> (WorkerView, WorkerStepView) {
        (
            self.at(WorkerStage::Finish),
            quiet(WorkerActionView::Finish { success: self.success }),
        )
    }

    /// The agent has ended well: review it where that is wanted, then open a PR.
    pub open spec fn after_success(self, config: ServiceConfigView) -> (WorkerView, WorkerStepView) {
        if config.review.enabled {
            let next = match config.review.before_review {
                Some(hook) => (
                    self.at(WorkerStage::HookPrompt),
                    quiet(
                        WorkerActionView::Render {
                            template: hook,
                            attempt: self.attempt,
                            workspace: Some(self.dir),
                        },
                    ),
                ),
                None => self.to_review_prompt(config),
            };
            (
                next.0,
                WorkerStepView { events: seq![status("Running deep review"@)], ..next.1 },
            )
        } else {
            self.to_metadata()
        }
    }

    /// How the work goes on after an action has ended.
    pub open spec fn after(self, config: ServiceConfigView, outcome: WorkerOutcomeView) -> (
        WorkerView,
        WorkerStepView,
    ) {
        match (self.stage, outcome) {
            (WorkerStage::Comments, WorkerOutcomeView::Comments(c)) => match c {
                Some(comments) => (WorkerView {
                    issue: IssueView { comments, ..self.issue },
                    ..self
                }).to_workspace(),
                None => self.to_workspace(),
            },
            (WorkerStage::Workspace, WorkerOutcomeView::Workspace(r)) => match r {
                Ok(dir) => (
                    (WorkerView { dir, stage: WorkerStage::Prepare, ..self }),
                    quiet(WorkerActionView::Prepare),
                ),
                Err(e) => self.ends(Err(e)),
            },
            (WorkerStage::Prepare, WorkerOutcomeView::Done(r)) => match r {
                Ok(_) => if config.preflight.enabled && config.preflight.prompt_template.len() > 0 {
                    (
                        self.at(WorkerStage::PreflightPrompt),
                        quiet(
                            WorkerActionView::Render {
                                template: config.preflight.prompt_template,
                                attempt: self.attempt,
                                workspace: None,
                            },
                        ),
                    )
                } else {
                    self.to_prompt(config)
                },
                Err(e) => self.ends(Err(e)),
            },
            (WorkerStage::PreflightPrompt, WorkerOutcomeView::Rendered(r)) => match r {
                Ok(prompt) => (
                    self.at(WorkerStage::Preflight),
                    reporting(
                        status("Running preflight check"@),
                        WorkerActionView::RunAgent {
                            dir: agent_directory(config, self.dir),
                            prompt: prompt + signal_instructions(),
                        },
                    ),
                ),
                Err(_) => self.to_prompt(config),
            },
            (WorkerStage::Preflight, WorkerOutcomeView::AgentEnded(r, message)) => {
                let action = WorkerActionView::TakeFile {
                    path: joined_path(agent_directory(config, self.dir), "PREFLIGHT_SKIP"@),
                };
                (
                    self.at(WorkerStage::SkipCheck),
                    match r {
                        Ok(_) => quiet(action),
                        Err(_) => reporting(
                            AgentEventKindView::Error {
                                message: "Preflight agent failed: "@ + message,
                            },
                            action,
                        ),
                    },
                )
            },
            (WorkerStage::Preflight, WorkerOutcomeView::AgentNotStarted(_, message)) => (
                self.at(WorkerStage::SkipCheck),
                reporting(
                    AgentEventKindView::Error {
                        message: "Failed to start preflight agent: "@ + message,
                    },
                    WorkerActionView::TakeFile {
                        path: joined_path(agent_directory(config, self.dir), "PREFLIGHT_SKIP"@),
                    },
                ),
            ),
            (WorkerStage::SkipCheck, WorkerOutcomeView::File(f)) => match f {
                Some(contents) => (
                    self.at(WorkerStage::SkipFinish),
                    reporting(
                        status(
                            "Preflight: skipped — "@ + if trimmed(contents).len() == 0 {
                                "no reason given"@
                            } else {
                                trimmed(contents)
                            },
                        ),
                        WorkerActionView::Finish { success: true },
                    ),
                ),
                None => self.to_prompt(config),
            },
            (WorkerStage::SkipFinish, WorkerOutcomeView::Done(r)) => match r {
                Ok(_) => self.ends(Ok(true)),
                Err(e) => self.ends(Err(e)),
            },
            (WorkerStage::Prompt, WorkerOutcomeView::Rendered(r)) => match r {
                Ok(prompt) => (
                    self.at(WorkerStage::Agent),
                    WorkerStepView {
                        events: seq![status("Starting agent"@)],
                        running: true,
                        action: WorkerActionView::RunAgent {
                            dir: agent_directory(config, self.dir),
                            prompt: prompt + metadata_instructions(self.issue.identifier),
                        },
                    },
                ),
                Err(e) => self.ends(Err(e)),
            },
            (WorkerStage::Agent, WorkerOutcomeView::AgentNotStarted(e, _)) => self.ends(Err(e)),
            (WorkerStage::Agent, WorkerOutcomeView::AgentEnded(r, _)) => match r {
                Ok(true) => (WorkerView { success: true, ..self }).after_success(config),
                Ok(false) => (WorkerView { success: false, ..self }).to_finish(),
                Err(e) => self.ends(Err(e)),
            },
            (WorkerStage::HookPrompt, WorkerOutcomeView::Rendered(r)) => (
                self.at(WorkerStage::Hook),
                quiet(
                    WorkerActionView::RunHook {
                        script: match r {
                            Ok(s) => s,
                            Err(_) => match config.review.before_review {
                                Some(hook) => hook,
                                None => seq![],
                            },
                        },
                    },
                ),
            ),
            (WorkerStage::Hook, WorkerOutcomeView::Done(_)) => self.to_review_prompt(config),
            (WorkerStage::ReviewPrompt, WorkerOutcomeView::Rendered(r)) => self.to_review(
                config,
                match r {
                    Ok(s) => s,
                    Err(_) => default_review_prompt(self.issue.identifier, self.issue.title),
                },
            ),
            (WorkerStage::Review, WorkerOutcomeView::AgentEnded(_, _)) => self.to_metadata(),
            (WorkerStage::Review, WorkerOutcomeView::AgentNotStarted(_, _)) => self.to_metadata(),
            (WorkerStage::Metadata, WorkerOutcomeView::Metadata { title, body }) => (
                self.at(WorkerStage::OpenPr),
                quiet(
                    WorkerActionView::OpenPr {
                        title: written_or(
                            title,
                            default_title(self.issue.identifier, self.issue.title),
                        ),
                        body: written_or(
                            body,
                            default_body(self.issue.identifier, self.issue.title),
                        ),
                    },
                ),
            ),
            (WorkerStage::OpenPr, WorkerOutcomeView::Opened(r)) => match r {
                Ok(_) => {
                    let next = if config.pr_review.enabled {
                        (self.at(WorkerStage::Track), quiet(WorkerActionView::TrackPr))
                    } else {
                        self.to_finish()
                    };
                    (
                        next.0,
                        WorkerStepView { events: seq![status("Draft PR opened"@)], ..next.1 },
                    )
                },
                Err(m) => {
                    let next = self.to_finish();
                    (
                        next.0,
                        WorkerStepView {
                            events: seq![
                                AgentEventKindView::Error { message: "PR creation failed: "@ + m },
                            ],
                            ..next.1
                        },
                    )
                },
            },
            (WorkerStage::Track, WorkerOutcomeView::Done(_)) => self.to_finish(),
            (WorkerStage::Finish, WorkerOutcomeView::Done(r)) => match r {
                Ok(_) => self.ends(Ok(self.success)),
                Err(e) => self.ends(Err(e)),
            },
            _ => self.ends(Err((ErrorKind::Orchestrator, "worker out of step"@))),
        }
    }
}

fn say(text: &str) -> (r: Vec<AgentEventKind>)
    ensures
        r.deep_view() == seq![status(text@)],
{
    let mut v: Vec<AgentEventKind> = Vec::new();
    v.push(AgentEventKind::Status { status: text.to_owned() });
    assert(v.deep_view() =~= seq![status(text@)]);
    v
}

fn complain(text: String) -> (r: Vec<AgentEventKind>)
    ensures
        r.deep_view() == seq![AgentEventKindView::Error { message: text@ }],
{
    let mut v: Vec<AgentEventKind> = Vec::new();
    v.push(AgentEventKind::Error { message: text });
    assert(v.deep_view() =~= seq![AgentEventKindView::Error { message: text@ }]);
    v
}

fn silently(action: WorkerAction) -> (r: WorkerStep)
    ensures
        r.deep_view() == quiet(action.deep_view()),
{
    let events: Vec<AgentEventKind> = Vec::new();
    assert(events.deep_view() =~= Seq::<AgentEventKindView>::empty());
    WorkerStep { events, running: false, action }
}

/// The directory that agents run in.
pub fn agent_directory_in(config: &ServiceConfig, dir: &str) -> (r: String)
    ensures
        r@ == agent_directory(config.deep_view(), dir@),
{
    match &config.workspace.agent_subdirectory {
        Some(sub) => join_path(dir, sub.as_str()),
        None => dir.to_owned(),
    }
}

impl Worker {
    /// Begin the work on an issue. The comments on a Notion page are fetched
    /// before anything else, so that the prompts can show them.
    pub fn begin(issue: Issue, attempt: Option<u32>) -> (r: (Worker, WorkerStep))
        ensures
            r.0.issue == issue,
            r.0.attempt == attempt,
            r.0.dir@.len() == 0,
            !r.0.success,
            if issue.source@ == "notion"@ && issue.notion_page_id is Some {
                &&& r.0.stage is Comments
                &&& r.1.deep_view() == quiet(
                    WorkerActionView::FetchComments { page_id: issue.notion_page_id->0@ },
                )
            } else {
                &&& r.0.stage is Workspace
                &&& r.1.deep_view() == reporting(
                    status("Setting up workspace"@),
                    WorkerActionView::EnsureWorkspace,
                )
            },
    {
        let page_id = if str_eq(issue.source.as_str(), "notion") {
            issue.notion_page_id.clone()
        } else {
            None
        };
        let mut worker = Worker {
            issue,
            attempt,
            dir: String::new(),
            stage: WorkerStage::Comments,
            success: false,
        };
        match page_id {
            Some(page_id) => (worker, silently(WorkerAction::FetchComments { page_id })),
            None => {
                let step = worker.set_up();
                (worker, step)
            },
        }
    }

    fn set_up(&mut self) -> (r: WorkerStep)
        ensures
            (final(self).deep_view(), r.deep_view()) == old(self).deep_view().to_workspace(),
            final(self).issue == old(self).issue,
            final(self).attempt == old(self).attempt,
            final(self).dir == old(self).dir,
            final(self).success == old(self).success,
    {
        self.stage = WorkerStage::Workspace;
        WorkerStep {
            events: say("Setting up workspace"),
            running: false,
            action: WorkerAction::EnsureWorkspace,
        }
    }

    fn end(&mut self, result: Result<bool>) -> (r: WorkerStep)
        ensures
            (final(self).deep_view(), r.deep_view()) == old(self).deep_view().ends(
                bool_result(result),
            ),
    {
        self.stage = WorkerStage::Ended;
        silently(WorkerAction::End { result })
    }

    fn ask_prompt(&mut self, config: &ServiceConfig) -> (r: WorkerStep)
        ensures
            (final(self).deep_view(), r.deep_view()) == old(self).deep_view().to_prompt(
                config.deep_view(),
            ),
    {
        self.stage = WorkerStage::Prompt;
        silently(
            WorkerAction::Render {
                template: config.prompt_template.clone(),
                attempt: self.attempt,
                workspace: None,
            },
        )
    }

    fn start_review(&mut self, config: &ServiceConfig, prompt: String) -> (r: WorkerStep)
        ensures
            (final(self).deep_view(), r.deep_view()) == old(self).deep_view().to_review(
                config.deep_view(),
                prompt@,
            ),
    {
        let mut prompt = prompt;
        prompt.append(pr_metadata_update_instructions());
        self.stage = WorkerStage::Review;
        let dir = agent_directory_in(config, self.dir.as_str());
        silently(WorkerAction::RunAgent { dir, prompt })
    }

    fn ask_review_prompt(&mut self, config: &ServiceConfig) -> (r: WorkerStep)
        ensures
            (final(self).deep_view(), r.deep_view()) == old(self).deep_view().to_review_prompt(
                config.deep_view(),
            ),
    {
        if config.review.prompt_template.as_str().is_empty() {
            let prompt = build_default_review_prompt(&self.issue);
            self.start_review(config, prompt)
        } else {
            self.stage = WorkerStage::ReviewPrompt;
            silently(
                WorkerAction::Render {
                    template: config.review.prompt_template.clone(),
                    attempt: None,
                    workspace: None,
                },
            )
        }
    }

    fn ask_metadata(&mut self) -> (r: WorkerStep)
        ensures
            (final(self).deep_view(), r.deep_view()) == old(self).deep_view().to_metadata(),
    {
        self.stage = WorkerStage::Metadata;
        WorkerStep {
            events: say("Opening draft PR"),
            running: false,
            action: WorkerAction::TakeMetadata,
        }
    }

    fn finish(&mut self) -> (r: WorkerStep)
        ensures
            (final(self).deep_view(), r.deep_view()) == old(self).deep_view().to_finish(),
    {
        self.stage = WorkerStage::Finish;
        silently(WorkerAction::Finish { success: self.success })
    }

    fn succeed(&mut self, config: &ServiceConfig) -> (r: WorkerStep)
        ensures
            (final(self).deep_view(), r.deep_view()) == old(self).deep_view().after_success(
                config.deep_view(),
            ),
    {
        if config.review.enabled {
            let mut step = match &config.review.before_review {
                Some(hook) => {
                    self.stage = WorkerStage::HookPrompt;
                    silently(
                        WorkerAction::Render {
                            template: hook.clone(),
                            attempt: self.attempt,
                            workspace: Some(self.dir.clone()),
                        },
                    )
                },
                None => self.ask_review_prompt(config),
            };
            step.events = say("Running deep review");
            step
        } else {
            self.ask_metadata()
        }
    }

    fn look_for_skip(
        &mut self,
        config: &ServiceConfig,
        events: Vec<AgentEventKind>,
    ) -> (r: WorkerStep)
        ensures
            final(self).deep_view() == old(self).deep_view().at(WorkerStage::SkipCheck),
            r.deep_view() == (WorkerStepView {
                events: events.deep_view(),
                running: false,
                action: WorkerActionView::TakeFile {
                    path: joined_path(
                        agent_directory(config.deep_view(), old(self).dir@),
                        "PREFLIGHT_SKIP"@,
                    ),
                },
            }),
    {
        self.stage = WorkerStage::SkipCheck;
        let dir = agent_directory_in(config, self.dir.as_str());
        let path = join_path(dir.as_str(), "PREFLIGHT_SKIP");
        WorkerStep { events, running: false, action: WorkerAction::TakeFile { path } }
    }

    /// Go on after an action has ended.
    pub fn advance(&mut self, config: &ServiceConfig, outcome: WorkerOutcome) -> (r: WorkerStep)
        ensures
            (final(self).deep_view(), r.deep_view()) == old(self).deep_view().after(
                config.deep_view(),
                outcome.deep_view(),
            ),
    {
        match (self.stage, outcome) {
            (WorkerStage::Comments, WorkerOutcome::Comments(c)) => {
                if let Some(comments) = c {
                    self.issue.comments = comments;
                }
                self.set_up()
            },
            (WorkerStage::Workspace, WorkerOutcome::Workspace(r)) => match r {
                Ok(dir) => {
                    self.dir = dir;
                    self.stage = WorkerStage::Prepare;
                    silently(WorkerAction::Prepare)
                },
                Err(e) => self.end(Err(e)),
            },
            (WorkerStage::Prepare, WorkerOutcome::Done(r)) => match r {
                Ok(_) => {
                    if config.preflight.enabled
                        && !config.preflight.prompt_template.as_str().is_empty() {
                        self.stage = WorkerStage::PreflightPrompt;
                        silently(
                            WorkerAction::Render {
                                template: config.preflight.prompt_template.clone(),
                                attempt: self.attempt,
                                workspace: None,
                            },
                        )
                    } else {
                        self.ask_prompt(config)
                    }
                },
                Err(e) => self.end(Err(e)),
            },
            (WorkerStage::PreflightPrompt, WorkerOutcome::Rendered(r)) => match r {
                Ok(prompt) => {
                    let mut prompt = prompt;
                    prompt.append(preflight_signal_instructions());
                    self.stage = WorkerStage::Preflight;
                    let dir = agent_directory_in(config, self.dir.as_str());
                    WorkerStep {
                        events: say("Running preflight check"),
                        running: false,
                        action: WorkerAction::RunAgent { dir, prompt },
                    }
                },
                Err(_) => self.ask_prompt(config),
            },
            (WorkerStage::Preflight, WorkerOutcome::AgentEnded(r)) => {
                let events = match &r {
                    Ok(_) => {
                        let v: Vec<AgentEventKind> = Vec::new();
                        assert(v.deep_view() =~= Seq::<AgentEventKindView>::empty());
                        v
                    },
                    Err(e) => {
                        let m = e.message();
                        complain(cat2("Preflight agent failed: ", m.as_str()))
                    },
                };
                self.look_for_skip(config, events)
            },
            (WorkerStage::Preflight, WorkerOutcome::AgentNotStarted(e)) => {
                let m = e.message();
                let events = complain(cat2("Failed to start preflight agent: ", m.as_str()));
                self.look_for_skip(config, events)
            },
            (WorkerStage::SkipCheck, WorkerOutcome::File(f)) => match f {
                Some(contents) => {
                    let mut reason = trim(contents.as_str());
                    if reason.as_str().is_empty() {
                        reason = "no reason given".to_owned();
                    }
                    let text = cat2("Preflight: skipped — ", reason.as_str());
                    self.stage = WorkerStage::SkipFinish;
                    WorkerStep {
                        events: say(text.as_str()),
                        running: false,
                        action: WorkerAction::Finish { success: true },
                    }
                },
                None => self.ask_prompt(config),
            },
            (WorkerStage::SkipFinish, WorkerOutcome::Done(r)) => match r {
                Ok(_) => self.end(Ok(true)),
                Err(e) => self.end(Err(e)),
            },
            (WorkerStage::Prompt, WorkerOutcome::Rendered(r)) => match r {
                Ok(prompt) => {
                    let mut prompt = prompt;
                    let more = pr_metadata_instructions(&self.issue);
                    prompt.append(more.as_str());
                    self.stage = WorkerStage::Agent;
                    let dir = agent_directory_in(config, self.dir.as_str());
                    WorkerStep {
                        events: say("Starting agent"),
                        running: true,
                        action: WorkerAction::RunAgent { dir, prompt },
                    }
                },
                Err(e) => self.end(Err(e)),
            },
            (WorkerStage::Agent, WorkerOutcome::AgentNotStarted(e)) => self.end(Err(e)),
            (WorkerStage::Agent, WorkerOutcome::AgentEnded(r)) => match r {
                Ok(success) => {
                    self.success = success;
                    if success {
                        self.succeed(config)
                    } else {
                        self.finish()
                    }
                },
                Err(e) => self.end(Err(e)),
            },
            (WorkerStage::HookPrompt, WorkerOutcome::Rendered(r)) => {
                let script = match r {
                    Ok(s) => s,
                    Err(_) => match &config.review.before_review {
                        Some(hook) => hook.clone(),
                        None => String::new(),
                    },
                };
                self.stage = WorkerStage::Hook;
                silently(WorkerAction::RunHook { script })
            },
            (WorkerStage::Hook, WorkerOutcome::Done(_)) => self.ask_review_prompt(config),
            (WorkerStage::ReviewPrompt, WorkerOutcome::Rendered(r)) => {
                let prompt = rendered_or_default_review(r, &self.issue);
                self.start_review(config, prompt)
            },
            (WorkerStage::Review, WorkerOutcome::AgentEnded(_)) => self.ask_metadata(),
            (WorkerStage::Review, WorkerOutcome::AgentNotStarted(_)) => self.ask_metadata(),
            (WorkerStage::Metadata, WorkerOutcome::Metadata { title, body }) => {
                let (title, body) = pr_metadata(&title, &body, &self.issue);
                self.stage = WorkerStage::OpenPr;
                silently(WorkerAction::OpenPr { title, body })
            },
            (WorkerStage::OpenPr, WorkerOutcome::Opened(r)) => match r {
                Ok(_) => {
                    let mut step = if config.pr_review.enabled {
                        self.stage = WorkerStage::Track;
                        silently(WorkerAction::TrackPr)
                    } else {
                        self.finish()
                    };
                    step.events = say("Draft PR opened");
                    step
                },
                Err(m) => {
                    let mut step = self.finish();
                    step.events = complain(cat2("PR creation failed: ", m.as_str()));
                    step
                },
            },
            (WorkerStage::Track, WorkerOutcome::Done(_)) => self.finish(),
            (WorkerStage::Finish, WorkerOutcome::Done(r)) => match r {
                Ok(_) => {
                    let success = self.success;
                    self.end(Ok(success))
                },
                Err(e) => self.end(Err(e)),
            },
            _ => self.end(Err(Error::Orchestrator("worker out of step".to_owned()))),
        }
    }
}

/// A preflight check never stands in the way of the work by failing: where no
/// skip file is found, the main prompt is rendered next, however the preflight
/// agent ended, and also where its own prompt could not be rendered.
pub proof fn law_preflight_fails_open(w: WorkerView, config: ServiceConfigView, outcome: WorkerOutcomeView)
    requires
        ({
            ||| w.stage is SkipCheck && outcome == WorkerOutcomeView::File(None)
            ||| w.stage is PreflightPrompt && outcome is Rendered && outcome->Rendered_0 is Err
        }),
    ensures
        w.after(config, outcome) == w.to_prompt(config),
{
}

/// A skip file ends the work as a success, once the `after_run` hook has run,
/// and no other agent runs.
pub proof fn law_skip_file_ends_work(
    w: WorkerView,
    config: ServiceConfigView,
    contents: Seq<char>,
)
    requires
        w.stage is SkipCheck,
    ensures
        ({
            let (next, step) = w.after(config, WorkerOutcomeView::File(Some(contents)));
            &&& step.action == (WorkerActionView::Finish { success: true })
            &&& next.after(config, WorkerOutcomeView::Done(Ok(()))).1.action == (
            WorkerActionView::End { result: Ok(true) })
        }),
{
}

/// A PR is opened only by work whose main agent succeeded: the stages from the
/// review on are entered with `success` set, and no other stage leads to them.
pub proof fn law_pr_only_after_success(
    w: WorkerView,
    config: ServiceConfigView,
    outcome: WorkerOutcomeView,
)
    requires
        is_past_agent(w.stage) ==> w.success,
    ensures
        is_past_agent(w.after(config, outcome).0.stage) ==> w.after(config, outcome).0.success,
        w.after(config, outcome).1.action is OpenPr ==> w.after(config, outcome).0.success,
        w.after(config, outcome).1.action is TrackPr ==> w.stage is OpenPr && outcome is Opened
            && outcome->Opened_0 is Ok && config.pr_review.enabled,
{
}

/// The stages between a successful agent and the end of the work.
pub open spec fn is_past_agent(stage: WorkerStage) -> bool {
    ||| stage is HookPrompt
    ||| stage is Hook
    ||| stage is ReviewPrompt
    ||| stage is Review
    ||| stage is Metadata
    ||| stage is OpenPr
    ||| stage is Track
}

/// How much is left to do, at most.
pub open spec fn distance(stage: WorkerStage) -> nat {
    match stage {
        WorkerStage::Comments => 17,
        WorkerStage::Workspace => 16,
        WorkerStage::Prepare => 15,
        WorkerStage::PreflightPrompt => 14,
        WorkerStage::Preflight => 13,
        WorkerStage::SkipCheck => 12,
        WorkerStage::Prompt => 11,
        WorkerStage::Agent => 10,
        WorkerStage::HookPrompt => 9,
        WorkerStage::Hook => 8,
        WorkerStage::ReviewPrompt => 7,
        WorkerStage::Review => 6,
        WorkerStage::Metadata => 5,
        WorkerStage::OpenPr => 4,
        WorkerStage::Track => 3,
        WorkerStage::Finish => 2,
        WorkerStage::SkipFinish => 1,
        WorkerStage::Ended => 0,
    }
}

/// The work on an issue comes to an end, whatever its actions come to: each
/// step leads to a later stage.
pub proof fn law_worker_ends(w: WorkerView, config: ServiceConfigView, outcome: WorkerOutcomeView)
    requires
        !(w.stage is Ended),
    ensures
        distance(w.after(config, outcome).0.stage) < distance(w.stage),
        w.after(config, outcome).1.action is End <==> w.after(config, outcome).0.stage is Ended,
{
}

/// What a finished run reports is what the main agent came to.
pub proof fn law_result_is_agents(w: WorkerView, config: ServiceConfigView, success: bool)
    requires
        w.stage is Agent,
    ensures
        w.after(config, WorkerOutcomeView::AgentEnded(Ok(success), seq![])).0.success == success,
        ({
            let f = w.at(WorkerStage::Finish);
            f.after(config, WorkerOutcomeView::Done(Ok(()))).1.action == (WorkerActionView::End {
                result: Ok(w.success),
            })
        }),
{
}

/// What the work waits for at a stage.
pub open spec fn answers(stage: WorkerStage, outcome: WorkerOutcomeView) -> bool {
    match stage {
        WorkerStage::Comments => outcome is Comments,
        WorkerStage::Workspace => outcome is Workspace,
        WorkerStage::PreflightPrompt | WorkerStage::Prompt | WorkerStage::HookPrompt
        | WorkerStage::ReviewPrompt => outcome is Rendered,
        WorkerStage::Preflight | WorkerStage::Agent | WorkerStage::Review => outcome is AgentEnded
            || outcome is AgentNotStarted,
        WorkerStage::SkipCheck => outcome is File,
        WorkerStage::Metadata => outcome is Metadata,
        WorkerStage::OpenPr => outcome is Opened,
        WorkerStage::Prepare | WorkerStage::Hook | WorkerStage::Track | WorkerStage::Finish
        | WorkerStage::SkipFinish => outcome is Done,
        WorkerStage::Ended => false,
    }
}

/// Every agent, whether it does the preflight check, the work or its review, runs
/// in the configured subdirectory of the workspace, or in the workspace itself
/// where none is configured; and that is where a preflight agent leaves its word
/// that the issue is to be skipped.
pub proof fn law_agents_run_in_configured_directory(
    w: WorkerView,
    config: ServiceConfigView,
    outcome: WorkerOutcomeView,
)
    ensures
        ({
            let place = match config.workspace.agent_subdirectory {
                Some(sub) => joined_path(w.dir, sub),
                None => w.dir,
            };
            &&& w.after(config, outcome).1.action matches WorkerActionView::RunAgent { dir, .. }
                ==> dir == place
            &&& w.after(config, outcome).1.action matches WorkerActionView::TakeFile { path }
                ==> path == joined_path(place, "PREFLIGHT_SKIP"@)
        }),
{
}

/// The work stays with one issue and one attempt: only comments are added to the
/// issue, once, where they could be fetched. Its directory is the workspace that
/// was made, and never changes after.
pub proof fn law_work_keeps_its_issue_and_place(
    w: WorkerView,
    config: ServiceConfigView,
    outcome: WorkerOutcomeView,
)
    ensures
        ({
            let next = w.after(config, outcome).0;
            &&& next.attempt == w.attempt
            &&& next.issue.comments == w.issue.comments || (w.stage is Comments && outcome
                == WorkerOutcomeView::Comments(Some(next.issue.comments)))
            &&& next.issue == (IssueView { comments: next.issue.comments, ..w.issue })
            &&& w.stage is Comments ==> forall|c: Seq<CommentView>|
                outcome == WorkerOutcomeView::Comments(Some(c)) ==> next.issue.comments == c
            &&& next.dir == w.dir || (w.stage is Workspace && outcome
                == WorkerOutcomeView::Workspace(Ok(next.dir)))
            &&& w.stage is Workspace ==> forall|d: Seq<char>|
                outcome == WorkerOutcomeView::Workspace(Ok(d)) ==> next.dir == d
            &&& next.success == w.success || w.stage is Agent
        }),
{
}

/// A workspace that could not be made, a hook before or after the run that failed,
/// a main prompt that could not be rendered, and a main agent that could not be
/// started or broke off end the work with that very error.
pub proof fn law_failures_end_work(
    w: WorkerView,
    config: ServiceConfigView,
    e: (ErrorKind, Seq<char>),
    message: Seq<char>,
)
    ensures
        ({
            let fails = |o: WorkerOutcomeView|
                w.after(config, o).1.action == (WorkerActionView::End { result: Err(e) });
            &&& w.stage is Workspace ==> fails(WorkerOutcomeView::Workspace(Err(e)))
            &&& w.stage is Prepare ==> fails(WorkerOutcomeView::Done(Err(e)))
            &&& w.stage is Prompt ==> fails(WorkerOutcomeView::Rendered(Err(e)))
            &&& w.stage is Agent ==> fails(WorkerOutcomeView::AgentNotStarted(e, message))
            &&& w.stage is Agent ==> fails(WorkerOutcomeView::AgentEnded(Err(e), message))
            &&& w.stage is Finish ==> fails(WorkerOutcomeView::Done(Err(e)))
            &&& w.stage is SkipFinish ==> fails(WorkerOutcomeView::Done(Err(e)))
        }),
{
}

/// Nothing else ends the work early: as long as outcomes answer what was asked
/// for, it ends only with an error it was handed at one of these stages, or once
/// the hook after the run has run.
pub proof fn law_work_ends_only_so(
    w: WorkerView,
    config: ServiceConfigView,
    outcome: WorkerOutcomeView,
)
    requires
        answers(w.stage, outcome),
    ensures
        w.after(config, outcome).1.action matches WorkerActionView::End { result } ==> match result {
            Ok(success) => outcome is Done && outcome->Done_0 is Ok && (w.stage is SkipFinish
                && success || w.stage is Finish && success == w.success),
            Err(e) => match outcome {
                WorkerOutcomeView::Workspace(r) => w.stage is Workspace && r == Err::<
                    Seq<char>,
                    (ErrorKind, Seq<char>),
                >(e),
                WorkerOutcomeView::Rendered(r) => w.stage is Prompt && r == Err::<
                    Seq<char>,
                    (ErrorKind, Seq<char>),
                >(e),
                WorkerOutcomeView::AgentNotStarted(f, _) => w.stage is Agent && f == e,
                WorkerOutcomeView::AgentEnded(r, _) => w.stage is Agent && r == Err::<
                    bool,
                    (ErrorKind, Seq<char>),
                >(e),
                WorkerOutcomeView::Done(r) => (w.stage is Prepare || w.stage is Finish || w.stage
                    is SkipFinish) && r is Err && r->Err_0 == e,
                _ => false,
            },
        },
{
}

/// An outcome that does not answer what was asked for ends the work with an error.
pub proof fn law_work_out_of_step_fails(
    w: WorkerView,
    config: ServiceConfigView,
    outcome: WorkerOutcomeView,
)
    requires
        !answers(w.stage, outcome),
    ensures
        w.after(config, outcome).1.action matches WorkerActionView::End { result } && result is Err,
{
}

/// The agent counts as running from the moment that the main agent is to be
/// started, and the main agent is started once its prompt has been rendered.
pub proof fn law_main_agent_counts_as_running(
    w: WorkerView,
    config: ServiceConfigView,
    outcome: WorkerOutcomeView,
)
    ensures
        ({
            let (next, step) = w.after(config, outcome);
            &&& step.running <==> next.stage is Agent
            &&& next.stage is Agent <==> w.stage is Prompt && outcome is Rendered
                && outcome->Rendered_0 is Ok
            &&& step.running ==> step.action is RunAgent
        }),
{
}

/// An agent is told what its template rendered to, before anything else: the
/// preflight agent then how to say that the issue is to be skipped, the main agent
/// how to describe its PR, and the review agent how to keep that up to date.
pub proof fn law_agents_are_told_the_rendered_prompt(
    w: WorkerView,
    config: ServiceConfigView,
    text: Seq<char>,
)
    ensures
        ({
            let action = w.after(config, WorkerOutcomeView::Rendered(Ok(text))).1.action;
            &&& w.stage is PreflightPrompt ==> action is RunAgent && action->RunAgent_prompt == text
                + signal_instructions()
            &&& w.stage is Prompt ==> action is RunAgent && action->RunAgent_prompt == text
                + metadata_instructions(w.issue.identifier)
            &&& w.stage is ReviewPrompt ==> action is RunAgent && action->RunAgent_prompt == text
                + update_instructions()
            &&& w.stage is HookPrompt ==> action == (WorkerActionView::RunHook { script: text })
        }),
{
}

/// The prompt of the main agent is what the workflow's template renders to for
/// this attempt; it is asked for once the workspace is prepared and no preflight
/// check is configured, or once that check has not asked for the issue to be
/// skipped.
pub proof fn law_main_prompt_comes_from_workflow(
    w: WorkerView,
    config: ServiceConfigView,
    outcome: WorkerOutcomeView,
)
    ensures
        ({
            let (next, step) = w.after(config, outcome);
            &&& next.stage is Prompt ==> step.action == (WorkerActionView::Render {
                template: config.prompt_template,
                attempt: w.attempt,
                workspace: None,
            })
            &&& next.stage is Prompt <==> {
                ||| w.stage is Prepare && outcome is Done && outcome->Done_0 is Ok && !(
                config.preflight.enabled && config.preflight.prompt_template.len() > 0)
                ||| w.stage is PreflightPrompt && outcome is Rendered && outcome->Rendered_0 is Err
                ||| w.stage is SkipCheck && outcome == WorkerOutcomeView::File(None)
            }
        }),
{
}

/// A preflight check is made where it is enabled and has a template, and with that
/// template; whatever becomes of its agent, its word is looked for next.
pub proof fn law_preflight_where_configured(
    w: WorkerView,
    config: ServiceConfigView,
    outcome: WorkerOutcomeView,
)
    ensures
        ({
            let (next, step) = w.after(config, outcome);
            &&& next.stage is PreflightPrompt <==> w.stage is Prepare && outcome is Done && outcome->Done_0 is Ok && config.preflight.enabled
                && config.preflight.prompt_template.len() > 0
            &&& next.stage is PreflightPrompt ==> step.action == (WorkerActionView::Render {
                template: config.preflight.prompt_template,
                attempt: w.attempt,
                workspace: None,
            })
            &&& w.stage is Preflight && answers(w.stage, outcome) ==> step.action is TakeFile
            &&& w.stage is Workspace && outcome is Workspace && outcome->Workspace_0 is Ok
                ==> step.action is Prepare
            &&& w.stage is Comments && outcome is Comments ==> step.action is EnsureWorkspace
        }),
{
}

/// The reason that a preflight agent gives is reported; and so is what went wrong
/// with the agent.
pub proof fn law_preflight_is_reported(
    w: WorkerView,
    config: ServiceConfigView,
    contents: Seq<char>,
    e: (ErrorKind, Seq<char>),
    message: Seq<char>,
)
    ensures
        w.stage is SkipCheck && trimmed(contents).len() > 0 ==> w.after(
            config,
            WorkerOutcomeView::File(Some(contents)),
        ).1.events == seq![
            AgentEventKindView::Status { status: "Preflight: skipped — "@ + trimmed(contents) },
        ],
        w.stage is Preflight ==> w.after(
            config,
            WorkerOutcomeView::AgentEnded(Err(e), message),
        ).1.events == seq![
            AgentEventKindView::Error { message: "Preflight agent failed: "@ + message },
        ],
        w.stage is Preflight ==> w.after(
            config,
            WorkerOutcomeView::AgentNotStarted(e, message),
        ).1.events == seq![
            AgentEventKindView::Error { message: "Failed to start preflight agent: "@ + message },
        ],
{
}

/// After a main agent that succeeded, its changes are reviewed where that is
/// enabled, after a hook where one is configured, which finds the workspace;
/// otherwise the PR comes next. After one that did not succeed, only the hook
/// after the run follows.
pub proof fn law_success_is_reviewed_then_opened(
    w: WorkerView,
    config: ServiceConfigView,
    message: Seq<char>,
)
    requires
        w.stage is Agent,
    ensures
        ({
            let good = w.after(config, WorkerOutcomeView::AgentEnded(Ok(true), message));
            let bad = w.after(config, WorkerOutcomeView::AgentEnded(Ok(false), message));
            &&& good.0.success && !bad.0.success
            &&& bad.1.action == (WorkerActionView::Finish { success: false })
            &&& !config.review.enabled ==> good.1.action is TakeMetadata
            &&& config.review.enabled && config.review.before_review is Some ==> good.1.action == (
            WorkerActionView::Render {
                template: config.review.before_review->0,
                attempt: w.attempt,
                workspace: Some(w.dir),
            })
            &&& config.review.enabled && config.review.before_review is None
                && config.review.prompt_template.len() > 0 ==> good.1.action == (
            WorkerActionView::Render {
                template: config.review.prompt_template,
                attempt: None,
                workspace: None,
            })
            &&& config.review.enabled && config.review.before_review is None
                && config.review.prompt_template.len() == 0 ==> good.1.action is RunAgent
                && good.1.action->RunAgent_prompt == default_review_prompt(
                w.issue.identifier,
                w.issue.title,
            ) + update_instructions()
        }),
{
}

/// Nothing about a review stands in the way of the PR: a hook that cannot be
/// rendered runs as it is written, one that fails is followed by the review all the
/// same, a prompt that cannot be rendered gives way to the built-in one, and
/// however the review agent ends, the PR comes next.
pub proof fn law_review_never_holds_pr_up(
    w: WorkerView,
    config: ServiceConfigView,
    outcome: WorkerOutcomeView,
)
    requires
        answers(w.stage, outcome),
    ensures
        ({
            let (next, step) = w.after(config, outcome);
            &&& w.stage is HookPrompt && outcome->Rendered_0 is Err && config.review.before_review
                is Some ==> step.action == (WorkerActionView::RunHook {
                script: config.review.before_review->0,
            })
            &&& w.stage is Hook ==> if config.review.prompt_template.len() > 0 {
                step.action == (WorkerActionView::Render {
                    template: config.review.prompt_template,
                    attempt: None,
                    workspace: None,
                })
            } else {
                step.action is RunAgent && step.action->RunAgent_prompt == default_review_prompt(
                    w.issue.identifier,
                    w.issue.title,
                ) + update_instructions()
            }
            &&& w.stage is ReviewPrompt && outcome->Rendered_0 is Err ==> step.action is RunAgent
                && step.action->RunAgent_prompt == default_review_prompt(
                w.issue.identifier,
                w.issue.title,
            ) + update_instructions()
            &&& w.stage is Review ==> step.action is TakeMetadata
        }),
{
}

/// A PR says what the agent wrote, and names the issue where it wrote nothing.
pub proof fn law_pr_says_what_agent_wrote(
    w: WorkerView,
    config: ServiceConfigView,
    title: Option<Seq<char>>,
    body: Option<Seq<char>>,
)
    requires
        w.stage is Metadata,
    ensures
        w.after(config, WorkerOutcomeView::Metadata { title, body }).1.action matches
            WorkerActionView::OpenPr { title: t, body: b } && {
            &&& title is Some && trimmed(title->0).len() > 0 ==> t == trimmed(title->0)
            &&& title is None || trimmed(title->0).len() == 0 ==> t == "["@ + w.issue.identifier
                + "] "@ + w.issue.title
            &&& body is Some && trimmed(body->0).len() > 0 ==> b == trimmed(body->0)
            &&& body is None || trimmed(body->0).len() == 0 ==> b == "Automated fix for **"@
                + w.issue.identifier + "**: "@ + w.issue.title
                + "\n\n---\n*Opened by Symposium*"@
        },
{
}

/// A PR that has been opened is monitored where that is enabled; whether it was
/// opened or monitored or not, what follows is the hook after the run, told of the
/// main agent's success; and a PR that was not opened is reported.
pub proof fn law_opened_pr_is_monitored(
    w: WorkerView,
    config: ServiceConfigView,
    outcome: WorkerOutcomeView,
)
    requires
        answers(w.stage, outcome),
    ensures
        ({
            let (next, step) = w.after(config, outcome);
            let last = WorkerActionView::Finish { success: w.success };
            &&& w.stage is OpenPr && outcome->Opened_0 is Ok ==> step.action == if config.pr_review.enabled {
                WorkerActionView::TrackPr
            } else {
                last
            }
            &&& w.stage is OpenPr && outcome->Opened_0 is Err ==> step.action == last && step.events
                == seq![
                AgentEventKindView::Error {
                    message: "PR creation failed: "@ + outcome->Opened_0->Err_0,
                },
            ]
            &&& w.stage is Track ==> step.action == last
        }),
{
}

/// What went wrong is told as the error says it, and an agent that did not break off has
/// nothing to tell.
pub proof fn law_errors_told_as_they_are(r: Result<bool>, text: Result<String>, done: Result<()>)
    ensures
        r is Ok ==> message_of(r).len() == 0 && bool_result(r) is Ok && bool_result(r)->Ok_0
            == r->Ok_0,
        r is Err ==> message_of(r) == r->Err_0.prefix() + r->Err_0.detail() && bool_result(r) is Err
            && bool_result(r)->Err_0 == (r->Err_0.kind(), r->Err_0.detail()),
        text is Ok ==> text_result(text) is Ok && text_result(text)->Ok_0 == text->Ok_0@,
        text is Err ==> text_result(text) is Err && text_result(text)->Err_0 == (
            text->Err_0.kind(),
            text->Err_0.detail(),
        ),
        done is Ok <==> unit_result(done) is Ok,
        done is Err ==> unit_result(done)->Err_0 == (done->Err_0.kind(), done->Err_0.detail()),
{
}

/// Work says how far it has come: when it sets up the workspace, starts the agent, has its
/// work looked over, opens a PR, and has opened it.
pub proof fn law_progress_is_reported(
    w: WorkerView,
    config: ServiceConfigView,
    outcome: WorkerOutcomeView,
)
    ensures
        ({
            let step = w.after(config, outcome).1;
            let says = |text: Seq<char>|
                step.events == seq![AgentEventKindView::Status { status: text }];
            &&& step.action is EnsureWorkspace ==> says("Setting up workspace"@)
            &&& step.action is TakeMetadata ==> says("Opening draft PR"@)
            &&& w.stage is Prompt && outcome is Rendered && outcome->Rendered_0 is Ok ==> says(
                "Starting agent"@,
            )
            &&& w.stage is PreflightPrompt && outcome is Rendered && outcome->Rendered_0 is Ok ==> says(
                "Running preflight check"@,
            )
            &&& w.stage is Agent && outcome is AgentEnded && outcome->AgentEnded_0 is Ok
                && outcome->AgentEnded_0->Ok_0 && config.review.enabled ==> says(
                "Running deep review"@,
            )
            &&& w.stage is OpenPr && outcome is Opened && outcome->Opened_0 is Ok ==> says(
                "Draft PR opened"@,
            )
        }),
{
}

} // verus!
