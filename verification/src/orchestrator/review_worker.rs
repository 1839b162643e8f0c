//! The work on the feedback on a pull request, step by step.
use vstd::prelude::*;
use vstd::string::*;
use crate::config::schema::{ServiceConfig, ServiceConfigView};
use crate::domain::session::{AgentEventKind, AgentEventKindView};
use crate::domain::state::OpenPr;
use crate::error::{Error, ErrorKind, Result};
use crate::paths::joined_path;
use crate::orchestrator::worker::{agent_directory, agent_directory_in, bool_result, status};

verus! {

/// How far the work on feedback has come: what is being waited for.
#[derive(Debug, Clone, Copy, PartialEq, Eq, Structural)]
pub enum ReviewStage {
    Prepare,
    Prompt,
    Agent,
    Finish,
    Ended,
}

/// What is to be done next.
#[derive(Debug)]
pub enum ReviewAction {
    /// Run the `before_run` hook.
    Prepare,
    /// Build the prompt.
    BuildPrompt,
    /// Run an agent in a directory.
    RunAgent { dir: String, prompt: String },
    /// Run the `after_run` hook.
    Finish { success: bool },
    /// Nothing more: this is how the work ended.
    End { result: Result<bool> },
}

/// What a `ReviewAction` holds.
#[verifier::ext_equal]
pub enum ReviewActionView {
    Prepare,
    BuildPrompt,
    RunAgent { dir: Seq<char>, prompt: Seq<char> },
    Finish { success: bool },
    End { result: std::result::Result<bool, (ErrorKind, Seq<char>)> },
}

impl DeepView for ReviewAction {
    type V = ReviewActionView;

    open spec fn deep_view(&self) -> ReviewActionView {
        match self {
            ReviewAction::Prepare => ReviewActionView::Prepare,
            ReviewAction::BuildPrompt => ReviewActionView::BuildPrompt,
            ReviewAction::RunAgent { dir, prompt } => ReviewActionView::RunAgent {
                dir: dir@,
                prompt: prompt@,
            },
            ReviewAction::Finish { success } => ReviewActionView::Finish { success: *success },
            ReviewAction::End { result } => ReviewActionView::End { result: bool_result(*result) },
        }
    }
}

/// How an action ended.
#[derive(Debug)]
pub enum ReviewOutcome {
    Done(Result<()>),
    Prompt(String),
    AgentEnded(Result<bool>),
}

/// What comes next: a report, whether the agent now counts as running, and what
/// is to be done.
#[derive(Debug)]
pub struct ReviewStep {
    pub event: Option<AgentEventKind>,
    pub running: bool,
    pub action: ReviewAction,
}

/// The work on the feedback on a pull request.
#[derive(Debug)]
pub struct ReviewWorker {
    /// Where the workspace of the PR is: where it was when the PR was opened,
    /// whatever the configuration says by now.
    pub dir: String,
    pub stage: ReviewStage,
    /// Whether the agent succeeded.
    pub success: bool,
}

/// What a step holds: report, running, action.
pub open spec fn review_step(s: ReviewStep) -> (
    Option<AgentEventKindView>,
    bool,
    ReviewActionView,
) {
    (s.event.deep_view(), s.running, s.action.deep_view())
}

/// The step of work whose workspace is gone.
pub open spec fn missing_workspace(id: Seq<char>, dir: Seq<char>) -> (
    Option<AgentEventKindView>,
    bool,
    ReviewActionView,
) {
    (
        None,
        false,
        ReviewActionView::End {
            result: Err(
                (ErrorKind::Workspace, "workspace for "@ + id + " no longer exists at "@ + dir),
            ),
        },
    )
}

impl ReviewWorker {
    /// How the work goes on after an action has ended: the stage, whether the
    /// agent has succeeded, and the step.
    pub open spec fn next(&self, config: ServiceConfigView, outcome: ReviewOutcome) -> (
        ReviewStage,
        bool,
        (Option<AgentEventKindView>, bool, ReviewActionView),
    ) {
        match (self.stage, outcome) {
            (ReviewStage::Prepare, ReviewOutcome::Done(r)) => match r {
                Ok(_) => (
                    ReviewStage::Prompt,
                    self.success,
                    (None, false, ReviewActionView::BuildPrompt),
                ),
                Err(e) => (
                    ReviewStage::Ended,
                    self.success,
                    (None, false, ReviewActionView::End { result: Err(e.deep_view()) }),
                ),
            },
            (ReviewStage::Prompt, ReviewOutcome::Prompt(prompt)) => (
                ReviewStage::Agent,
                self.success,
                (
                    Some(status("Starting PR review agent"@)),
                    true,
                    ReviewActionView::RunAgent {
                        dir: agent_directory(config, self.dir@),
                        prompt: prompt@,
                    },
                ),
            ),
            (ReviewStage::Agent, ReviewOutcome::AgentEnded(r)) => match r {
                Ok(success) => (
                    ReviewStage::Finish,
                    success,
                    (None, false, ReviewActionView::Finish { success }),
                ),
                Err(e) => (
                    ReviewStage::Ended,
                    self.success,
                    (None, false, ReviewActionView::End { result: Err(e.deep_view()) }),
                ),
            },
            (ReviewStage::Finish, ReviewOutcome::Done(r)) => (
                ReviewStage::Ended,
                self.success,
                (
                    None,
                    false,
                    ReviewActionView::End {
                        result: match r {
                            Ok(_) => Ok(self.success),
                            Err(e) => Err(e.deep_view()),
                        },
                    },
                ),
            ),
            _ => (
                ReviewStage::Ended,
                self.success,
                (
                    None,
                    false,
                    ReviewActionView::End {
                        result: Err((ErrorKind::Orchestrator, "worker out of step"@)),
                    },
                ),
            ),
        }
    }

    /// Begin the work on the feedback on a PR, where its workspace still exists.
    pub fn begin(pr: &OpenPr, found: bool) -> (r: (ReviewWorker, ReviewStep))
        ensures
            r.0.dir@ == pr.workspace_dir@,
            !r.0.success,
            if found {
                &&& r.0.stage is Prepare
                &&& review_step(r.1) == (
                    Some(status("Preparing workspace for PR review"@)),
                    false,
                    ReviewActionView::Prepare,
                )
            } else {
                &&& r.0.stage is Ended
                &&& review_step(r.1) == missing_workspace(
                    pr.issue.identifier@,
                    pr.workspace_dir@,
                )
            },
    {
        let dir = pr.workspace_dir.clone();
        if found {
            let event = AgentEventKind::Status {
                status: "Preparing workspace for PR review".to_owned(),
            };
            (
                ReviewWorker { dir, stage: ReviewStage::Prepare, success: false },
                ReviewStep { event: Some(event), running: false, action: ReviewAction::Prepare },
            )
        } else {
            let mut m = "workspace for ".to_owned();
            m.append(pr.issue.identifier.as_str());
            m.append(" no longer exists at ");
            m.append(pr.workspace_dir.as_str());
            (
                ReviewWorker { dir, stage: ReviewStage::Ended, success: false },
                ReviewStep {
                    event: None,
                    running: false,
                    action: ReviewAction::End { result: Err(Error::Workspace(m)) },
                },
            )
        }
    }

    fn end(&mut self, result: Result<bool>) -> (r: ReviewStep)
        ensures
            final(self).stage is Ended,
            final(self).success == old(self).success,
            final(self).dir == old(self).dir,
            review_step(r) == (
                None::<AgentEventKindView>,
                false,
                (ReviewActionView::End { result: bool_result(result) }),
            ),
    {
        self.stage = ReviewStage::Ended;
        ReviewStep { event: None, running: false, action: ReviewAction::End { result } }
    }

    /// Go on after an action has ended.
    pub fn advance(&mut self, config: &ServiceConfig, outcome: ReviewOutcome) -> (r: ReviewStep)
        ensures
            (final(self).stage, final(self).success, review_step(r)) == old(self).next(
                config.deep_view(),
                outcome,
            ),
            final(self).dir == old(self).dir,
    {
        match (self.stage, outcome) {
            (ReviewStage::Prepare, ReviewOutcome::Done(r)) => match r {
                Ok(_) => {
                    self.stage = ReviewStage::Prompt;
                    ReviewStep { event: None, running: false, action: ReviewAction::BuildPrompt }
                },
                Err(e) => self.end(Err(e)),
            },
            (ReviewStage::Prompt, ReviewOutcome::Prompt(prompt)) => {
                self.stage = ReviewStage::Agent;
                let dir = agent_directory_in(config, self.dir.as_str());
                let event = AgentEventKind::Status {
                    status: "Starting PR review agent".to_owned(),
                };
                ReviewStep {
                    event: Some(event),
                    running: true,
                    action: ReviewAction::RunAgent { dir, prompt },
                }
            },
            (ReviewStage::Agent, ReviewOutcome::AgentEnded(r)) => match r {
                Ok(success) => {
                    self.stage = ReviewStage::Finish;
                    self.success = success;
                    ReviewStep {
                        event: None,
                        running: false,
                        action: ReviewAction::Finish { success },
                    }
                },
                Err(e) => self.end(Err(e)),
            },
            (ReviewStage::Finish, ReviewOutcome::Done(r)) => match r {
                Ok(_) => {
                    let success = self.success;
                    self.end(Ok(success))
                },
                Err(e) => self.end(Err(e)),
            },
            _ => self.end(Err(Error::Orchestrator("worker out of step".to_owned()))),
        }
    }
}

/// The work on feedback comes to what its agent came to: an agent that broke off
/// ends it with the agent's error, and any other end is told to the hook after the
/// run and is, once that has run, the end of the work.
pub proof fn law_feedback_ends_as_its_agent(
    w: ReviewWorker,
    config: ServiceConfigView,
    outcome: ReviewOutcome,
    done: ReviewOutcome,
)
    requires
        w.stage is Agent,
        outcome is AgentEnded,
    ensures
        ({
            let (stage, success, step) = w.next(config, outcome);
            match outcome->AgentEnded_0 {
                Err(e) => step.2 == (ReviewActionView::End { result: Err(e.deep_view()) }),
                Ok(b) => {
                    let after = ReviewWorker { dir: w.dir, stage, success };
                    &&& step.2 == (ReviewActionView::Finish { success: b })
                    &&& done is Done && done->Done_0 is Ok ==> after.next(config, done).2.2 == (
                    ReviewActionView::End { result: Ok(b) })
                    &&& done is Done && done->Done_0 is Err ==> after.next(config, done).2.2 == (
                    ReviewActionView::End { result: Err(done->Done_0->Err_0.deep_view()) })
                },
            }
        }),
{
}

/// Work on feedback ends well only where its agent succeeded and the hook after
/// the run did: no step reports success by itself, and none but the end of the
/// agent sets it.
pub proof fn law_feedback_succeeds_only_with_agent(
    w: ReviewWorker,
    config: ServiceConfigView,
    outcome: ReviewOutcome,
)
    ensures
        ({
            let (stage, success, step) = w.next(config, outcome);
            &&& step.2 == (ReviewActionView::End { result: Ok(true) }) ==> w.stage is Finish
                && w.success && outcome is Done && outcome->Done_0 is Ok
            &&& success && !w.success ==> w.stage is Agent && outcome is AgentEnded
                && outcome->AgentEnded_0 is Ok && outcome->AgentEnded_0->Ok_0
            &&& stage is Finish ==> w.stage is Agent && outcome is AgentEnded
                && outcome->AgentEnded_0 == Ok::<bool, Error>(success)
        }),
{
}

/// The agent that works on feedback runs on the prompt that was built, in the
/// configured subdirectory of the PR's workspace or in the workspace itself, and
/// from then on it counts as running; before it, the hook before the run has run.
pub proof fn law_feedback_agent_runs_in_configured_directory(
    w: ReviewWorker,
    config: ServiceConfigView,
    outcome: ReviewOutcome,
)
    ensures
        ({
            let (stage, success, step) = w.next(config, outcome);
            let place = match config.workspace.agent_subdirectory {
                Some(sub) => joined_path(w.dir@, sub),
                None => w.dir@,
            };
            &&& step.1 <==> w.stage is Prompt && outcome is Prompt
            &&& step.1 ==> step.2 == (ReviewActionView::RunAgent {
                dir: place,
                prompt: outcome->Prompt_0@,
            }) && stage is Agent
            &&& step.2 is RunAgent ==> step.1
            &&& step.2 is BuildPrompt <==> w.stage is Prepare && outcome is Done && outcome->Done_0
                is Ok
            &&& w.stage is Prepare && outcome is Done && outcome->Done_0 is Err ==> step.2 == (
            ReviewActionView::End { result: Err(outcome->Done_0->Err_0.deep_view()) })
            &&& stage is Ended <==> step.2 is End
        }),
{
}

/// Work on feedback that is told of an action it did not ask for fails, and so does work
/// that has ended already.
pub proof fn law_feedback_out_of_step_fails(
    w: ReviewWorker,
    config: ServiceConfigView,
    outcome: ReviewOutcome,
)
    requires
        w.stage is Ended || (w.stage is Prompt && !(outcome is Prompt)) || (w.stage is Agent && !(
        outcome is AgentEnded)) || ((w.stage is Prepare || w.stage is Finish) && !(outcome is Done)),
    ensures
        w.next(config, outcome).0 is Ended,
        w.next(config, outcome).2.2 == (ReviewActionView::End {
            result: Err((ErrorKind::Orchestrator, "worker out of step"@)),
        }),
{
}

/// Work whose workspace is gone ends at once, with an error that names the issue and the
/// place.
pub proof fn law_missing_workspace_ends_work(id: Seq<char>, dir: Seq<char>)
    ensures
        missing_workspace(id, dir).0 is None,
        !missing_workspace(id, dir).1,
        missing_workspace(id, dir).2 == (ReviewActionView::End {
            result: Err(
                (ErrorKind::Workspace, "workspace for "@ + id + " no longer exists at "@ + dir),
            ),
        }),
{
}

/// Work on feedback says when its agent starts.
pub proof fn law_feedback_start_is_reported(
    w: ReviewWorker,
    config: ServiceConfigView,
    outcome: ReviewOutcome,
)
    ensures
        w.next(config, outcome).2.0 == (if w.stage is Prompt && outcome is Prompt {
            Some(AgentEventKindView::Status { status: "Starting PR review agent"@ })
        } else {
            None
        }),
{
}

} // verus!
