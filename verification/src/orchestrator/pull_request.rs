//! Pull requests: their texts, how they are opened, and how they are found again.
use vstd::prelude::*;
use vstd::string::*;
use crate::config::schema::PrCreationConfig;
use crate::domain::issue::Issue;
use crate::domain::state::OrchestratorState;
use crate::error::Result;
use crate::json::{json_parsed, parse, Json, JsonView};
use crate::prompt::{build_prompt, can_render, prompt_globals};
use crate::text::{cat2, decimal, decimal_string, holds, lemma_holds, trim, trimmed};
use crate::time::Duration;

verus! {

/// What the built-in review prompt asks for, after it has named the issue.
pub const REVIEW_STEPS: &'static str = r#".

First, read `AGENTS.md` at the repo root and any relevant subsystem `AGENTS.md` files.

Then run `git diff origin/main` to see all changes on this branch.

Perform a thorough code review covering:

1. **Correctness** — Does the fix actually address the bug? Are there edge cases or off-by-one errors?
2. **Error handling** — Are errors handled properly? No swallowed errors or missing error paths?
3. **Type safety** — Are types used correctly? Any unsafe casts or implicit conversions?
4. **Performance** — Any unnecessary allocations, N+1 queries, or hot-path regressions?
5. **Security** — Any injection, XSS, auth bypass, or other vulnerabilities introduced?
6. **Tests** — Are tests adequate? Do they cover the regression? Are there missing test cases?
7. **Code quality** — Naming, duplication, dead code, or overly complex logic?

Fix any real issues you find. Keep changes minimal — only fix actual problems, do not refactor working code or make stylistic changes. If no issues are found, do nothing.

If you made any changes, commit them with `git add` and `git commit` with a descriptive message."#;

/// How a preflight agent says that an issue is to be skipped.
pub const SIGNAL_INSTRUCTIONS: &'static str = r#"

After your investigation, decide whether this issue should proceed to the implementation phase:

- If the issue is NOT reproducible, already fixed, or not a real issue: write a file called `PREFLIGHT_SKIP` in your current working directory containing a brief explanation of why this issue should be skipped. Do NOT create any branches or make code changes.
- If the issue IS valid and should be fixed: do NOT create a `PREFLIGHT_SKIP` file. Simply finish — the system will proceed to the implementation phase automatically.

Do NOT commit any files. Do NOT create pull requests."#;

/// How an agent says what its PR is to say, up to the issue that it fixes.
pub const METADATA_INSTRUCTIONS: &'static str = r#"

After committing, write a PR title and body for the changes on this branch:

1. Write a single-line PR title to a file called `PR_TITLE` in the root of the git repository. The title should be a concise, human-readable summary of the actual change (not just the bug title). Do NOT include prefixes like `fix:` or `[BUG-123]`.
2. Write a PR body in Markdown to a file called `PR_BODY.md` in the root of the git repository. The body should include:
   - **Summary**: 1-2 sentence overview of the change
   - **Investigation**: What you found when investigating the root cause
   - **Fix**: What was changed and why this approach was chosen
   - **Testing**: How the fix was verified
   - A link back to the issue: `Fixes "#;

/// How a review agent keeps up what the PR is to say.
pub const UPDATE_INSTRUCTIONS: &'static str = r#"

Finally, read the `PR_TITLE` and `PR_BODY.md` files in the root of the git repository. These were written by the implementer. If you made any changes during your review, update these files to reflect the final state of the branch. If you made no changes, leave them as-is. Do NOT git-commit these files."#;

/// The title of a PR whose agent wrote none.
pub open spec fn default_title(id: Seq<char>, title: Seq<char>) -> Seq<char> {
    "["@ + id + "] "@ + title
}

/// The title of a PR whose agent wrote none.
pub fn default_pr_title(issue: &Issue) -> (r: String)
    ensures
        r@ == default_title(issue.identifier@, issue.title@),
{
    let mut s = "[".to_owned();
    s.append(issue.identifier.as_str());
    s.append("] ");
    s.append(issue.title.as_str());
    s
}

/// The body of a PR whose agent wrote none.
pub open spec fn default_body(id: Seq<char>, title: Seq<char>) -> Seq<char> {
    "Automated fix for **"@ + id + "**: "@ + title + "\n\n---\n*Opened by Symposium*"@
}

/// The body of a PR whose agent wrote none.
pub fn default_pr_body(issue: &Issue) -> (r: String)
    ensures
        r@ == default_body(issue.identifier@, issue.title@),
{
    let mut s = "Automated fix for **".to_owned();
    s.append(issue.identifier.as_str());
    s.append("**: ");
    s.append(issue.title.as_str());
    s.append("\n\n---\n*Opened by Symposium*");
    s
}

/// What a file holds, trimmed; the default where that is nothing, or where the
/// file could not be read.
pub open spec fn written_or(contents: Option<Seq<char>>, default: Seq<char>) -> Seq<char> {
    match contents {
        Some(c) => if trimmed(c).len() == 0 {
            default
        } else {
            trimmed(c)
        },
        None => default,
    }
}

/// The title and body of a PR: what the agent wrote to `PR_TITLE` and
/// `PR_BODY.md`, falling back to defaults.
pub fn pr_metadata(
    title_file: &Option<String>,
    body_file: &Option<String>,
    issue: &Issue,
) -> (r: (String, String))
    ensures
        r.0@ == written_or(
            title_file.deep_view(),
            default_title(issue.identifier@, issue.title@),
        ),
        r.1@ == written_or(body_file.deep_view(), default_body(issue.identifier@, issue.title@)),
{
    let title = match title_file {
        Some(c) => {
            let t = trim(c.as_str());
            if t.as_str().is_empty() {
                default_pr_title(issue)
            } else {
                t
            }
        },
        None => default_pr_title(issue),
    };
    let body = match body_file {
        Some(c) => {
            let t = trim(c.as_str());
            if t.as_str().is_empty() {
                default_pr_body(issue)
            } else {
                t
            }
        },
        None => default_pr_body(issue),
    };
    (title, body)
}

/// The built-in prompt for the review of an agent's changes.
pub open spec fn default_review_prompt(id: Seq<char>, title: Seq<char>) -> Seq<char> {
    "You are reviewing changes for bug "@ + id + ": "@ + title
        + REVIEW_STEPS@
}

/// The built-in prompt for the review of an agent's changes.
pub fn build_default_review_prompt(issue: &Issue) -> (r: String)
    ensures
        r@ == default_review_prompt(issue.identifier@, issue.title@),
{
    let mut s = "You are reviewing changes for bug ".to_owned();
    s.append(issue.identifier.as_str());
    s.append(": ");
    s.append(issue.title.as_str());
    s.append(REVIEW_STEPS);
    s
}

/// The prompt that a rendered template gives: the built-in one where it could
/// not be rendered.
pub fn rendered_or_default_review(rendered: Result<String>, issue: &Issue) -> (r: String)
    ensures
        match rendered {
            Ok(s) => r == s,
            Err(_) => r@ == default_review_prompt(issue.identifier@, issue.title@),
        },
{
    match rendered {
        Ok(s) => s,
        Err(_) => build_default_review_prompt(issue),
    }
}

/// Build a review-focused prompt for the second agent pass.
///
/// If the workflow has a `review.prompt_template`, it is rendered as a Liquid
/// template with issue variables. Otherwise, the built-in prompt is used.
pub fn build_review_prompt(issue: &Issue, custom_template: &str) -> (r: String)
    ensures
        if custom_template@.len() == 0 {
            r@ == default_review_prompt(issue.identifier@, issue.title@)
        } else {
            exists|p: Result<String>| {
                &&& #[trigger] can_render(
                    custom_template@,
                    prompt_globals(issue.deep_view(), None, None, None),
                    p,
                )
                &&& match p {
                    Ok(s) => r@ == s@,
                    Err(_) => r@ == default_review_prompt(issue.identifier@, issue.title@),
                }
            }
        },
{
    if custom_template.is_empty() {
        return build_default_review_prompt(issue);
    }
    let rendered = build_prompt(custom_template, issue, None);
    let ghost p = rendered;
    let r = rendered_or_default_review(rendered, issue);
    assert(can_render(custom_template@, prompt_globals(issue.deep_view(), None, None, None), p));
    r
}

/// Instructions appended to the preflight prompt for signaling skip/proceed.
pub open spec fn signal_instructions() -> Seq<char> {
    SIGNAL_INSTRUCTIONS@
}

/// Instructions appended to the preflight prompt for signaling skip/proceed.
pub fn preflight_signal_instructions() -> (r: &'static str)
    ensures
        r@ == signal_instructions(),
{
    SIGNAL_INSTRUCTIONS
}

/// Instructions appended to the implementer prompt for writing PR metadata files.
pub open spec fn metadata_instructions(id: Seq<char>) -> Seq<char> {
    METADATA_INSTRUCTIONS@ + id
        + "`\n\nThese files must NOT be git-committed — just write them to disk."@
}

/// Instructions appended to the implementer prompt for writing PR metadata files.
///
/// The implementer has the richest context: it investigated the bug, found
/// the root cause, and chose the fix.
pub fn pr_metadata_instructions(issue: &Issue) -> (r: String)
    ensures
        r@ == metadata_instructions(issue.identifier@),
{
    let mut s = METADATA_INSTRUCTIONS.to_owned();
    s.append(issue.identifier.as_str());
    s.append("`\n\nThese files must NOT be git-committed — just write them to disk.");
    s
}

/// Instructions appended to the review prompt for updating PR metadata.
pub open spec fn update_instructions() -> Seq<char> {
    UPDATE_INSTRUCTIONS@
}

/// Instructions appended to the review prompt for updating PR metadata, which
/// the review may have outdated by further changes.
pub fn pr_metadata_update_instructions() -> (r: &'static str)
    ensures
        r@ == update_instructions(),
{
    UPDATE_INSTRUCTIONS
}

/// The script that pushes the branch and opens a draft PR.
pub fn create_pr_script(title_file: &str, body_file: &str) -> (r: String)
    ensures
        r@ == "git push -u origin HEAD 2>&1 && gh pr create --draft --title \"$(cat "@ + title_file@
            + ")\" --body-file "@ + body_file@ + " 2>&1"@,
{
    let mut s = "git push -u origin HEAD 2>&1 && gh pr create --draft --title \"$(cat ".to_owned();
    s.append(title_file);
    s.append(")\" --body-file ");
    s.append(body_file);
    s.append(" 2>&1");
    s
}

/// The script that has a GitHub Action open the PR.
pub open spec fn trigger_script_of(
    workflow: Seq<char>,
    branch_input: Seq<char>,
    title_input: Seq<char>,
    body_input: Seq<char>,
    branch: Seq<char>,
    title_file: Seq<char>,
    body_file: Seq<char>,
) -> Seq<char> {
    "gh workflow run \""@ + workflow + "\" -f \""@ + branch_input + "="@ + branch + "\" -F \""@
        + title_input + "=@"@ + title_file + "\" -F \""@ + body_input + "=@"@ + body_file
        + "\" 2>&1"@
}

/// The script that has a GitHub Action open the PR. `gh workflow run -F key=@file`
/// reads the value from the file, which lets multi-line markdown bodies pass
/// without shell-quoting.
pub fn trigger_script(
    pr_creation: &PrCreationConfig,
    branch: &str,
    title_file: &str,
    body_file: &str,
) -> (r: String)
    ensures
        r@ == trigger_script_of(
            pr_creation.workflow@,
            pr_creation.branch_input@,
            pr_creation.title_input@,
            pr_creation.body_input@,
            branch@,
            title_file@,
            body_file@,
        ),
{
    let mut s = "gh workflow run \"".to_owned();
    s.append(pr_creation.workflow.as_str());
    s.append("\" -f \"");
    s.append(pr_creation.branch_input.as_str());
    s.append("=");
    s.append(branch);
    s.append("\" -F \"");
    s.append(pr_creation.title_input.as_str());
    s.append("=@");
    s.append(title_file);
    s.append("\" -F \"");
    s.append(pr_creation.body_input.as_str());
    s.append("=@");
    s.append(body_file);
    s.append("\" 2>&1");
    s
}

/// How far the opening of a PR by a GitHub Action has come.
#[derive(Debug, Clone, Copy, PartialEq, Eq, Structural)]
pub enum OpenStage {
    /// The branch is being pushed.
    Push,
    /// The name of the branch is being asked for.
    Branch,
    /// The Action is being triggered.
    Trigger,
    /// The PR is being looked for.
    Look,
    /// Waiting before the PR is looked for again.
    Wait,
}

/// What is to be done next to open a PR by a GitHub Action.
#[derive(Debug)]
pub enum OpenStep {
    /// Push the branch upstream.
    Push,
    /// Ask for the name of the branch.
    AskBranch,
    /// Run a script that triggers the Action.
    Run { script: String },
    /// Look whether the PR is there.
    Look,
    /// Wait this long, then look again.
    Sleep { interval: Duration },
    /// The PR is open.
    Opened,
    /// The PR was not opened.
    Failed { reason: String },
}

/// What a `OpenStep` holds.
#[verifier::ext_equal]
pub enum OpenStepView {
    Push,
    AskBranch,
    Run { script: Seq<char> },
    Look,
    Sleep { interval: Duration },
    Opened,
    Failed { reason: Seq<char> },
}

impl DeepView for OpenStep {
    type V = OpenStepView;

    open spec fn deep_view(&self) -> OpenStepView {
        match self {
            OpenStep::Push => OpenStepView::Push,
            OpenStep::AskBranch => OpenStepView::AskBranch,
            OpenStep::Run { script } => OpenStepView::Run { script: script@ },
            OpenStep::Look => OpenStepView::Look,
            OpenStep::Sleep { interval } => OpenStepView::Sleep { interval: *interval },
            OpenStep::Opened => OpenStepView::Opened,
            OpenStep::Failed { reason } => OpenStepView::Failed { reason: reason@ },
        }
    }
}

/// Where a PR that a GitHub Action opens is to come from.
#[derive(Debug)]
pub struct OpenRequest {
    pub pr_creation: PrCreationConfig,
    pub title_file: String,
    pub body_file: String,
}

impl OpenRequest {
    /// What went wrong when the PR did not appear in time.
    pub open spec fn timeout_reason(&self) -> Seq<char> {
        "workflow `"@ + self.pr_creation.workflow@
            + "` was triggered but the PR did not appear within "@ + decimal(
            (self.pr_creation.poll_timeout_ms / 1000) as nat,
        ) + "s"@
    }

    /// The stage and the step that follow a stage, by how the last step ended
    /// and how long the PR has been looked for.
    pub open spec fn after(
        &self,
        stage: OpenStage,
        result: std::result::Result<Seq<char>, Seq<char>>,
        waited: Duration,
    ) -> (OpenStage, OpenStepView) {
        match (stage, result) {
            (OpenStage::Push, Ok(_)) => (OpenStage::Branch, OpenStepView::AskBranch),
            (OpenStage::Push, Err(e)) => (
                stage,
                OpenStepView::Failed { reason: "git push failed: "@ + e },
            ),
            (OpenStage::Branch, Ok(output)) => if trimmed(output).len() == 0 {
                (
                    stage,
                    OpenStepView::Failed {
                        reason: "git rev-parse returned an empty branch name"@,
                    },
                )
            } else {
                (
                    OpenStage::Trigger,
                    OpenStepView::Run {
                        script: trigger_script_of(
                            self.pr_creation.workflow@,
                            self.pr_creation.branch_input@,
                            self.pr_creation.title_input@,
                            self.pr_creation.body_input@,
                            trimmed(output),
                            self.title_file@,
                            self.body_file@,
                        ),
                    },
                )
            },
            (OpenStage::Branch, Err(e)) => (
                stage,
                OpenStepView::Failed { reason: "failed to resolve branch name: "@ + e },
            ),
            (OpenStage::Trigger, Ok(_)) => (OpenStage::Look, OpenStepView::Look),
            (OpenStage::Trigger, Err(e)) => (
                stage,
                OpenStepView::Failed { reason: "gh workflow run failed: "@ + e },
            ),
            (OpenStage::Look, Ok(_)) => (stage, OpenStepView::Opened),
            (OpenStage::Look, Err(_)) => if waited.nanos >= self.pr_creation.poll_timeout_ms
                * 1_000_000 {
                (stage, OpenStepView::Failed { reason: self.timeout_reason() })
            } else {
                (
                    OpenStage::Wait,
                    OpenStepView::Sleep {
                        interval: Duration {
                            nanos: (self.pr_creation.poll_interval_ms * 1_000_000) as u128,
                        },
                    },
                )
            },
            (OpenStage::Wait, _) => (OpenStage::Look, OpenStepView::Look),
        }
    }

    /// The first step: push the branch upstream so the workflow can resolve it.
    pub fn begin() -> (r: (OpenStage, OpenStep))
        ensures
            r.0 is Push,
            r.1 is Push,
    {
        (OpenStage::Push, OpenStep::Push)
    }

    /// The stage and the step that follow a stage, by how the last step ended
    /// (what it printed, or what went wrong) and how long the PR has been looked
    /// for.
    ///
    /// The workflow runs asynchronously on GitHub's side, so the PR does not
    /// exist immediately; it is looked for until it is there or the time is up.
    pub fn advance(
        &self,
        stage: OpenStage,
        result: &std::result::Result<String, String>,
        waited: Duration,
    ) -> (r: (OpenStage, OpenStep))
        ensures
            (r.0, r.1.deep_view()) == self.after(
                stage,
                match *result {
                    Ok(s) => Ok(s@),
                    Err(e) => Err(e@),
                },
                waited,
            ),
    {
        match (stage, result) {
            (OpenStage::Push, Ok(_)) => (OpenStage::Branch, OpenStep::AskBranch),
            (OpenStage::Push, Err(e)) => (
                stage,
                OpenStep::Failed { reason: cat2("git push failed: ", e.as_str()) },
            ),
            (OpenStage::Branch, Ok(output)) => {
                let branch = trim(output.as_str());
                if branch.as_str().is_empty() {
                    (
                        stage,
                        OpenStep::Failed {
                            reason: "git rev-parse returned an empty branch name".to_owned(),
                        },
                    )
                } else {
                    let script = trigger_script(
                        &self.pr_creation,
                        branch.as_str(),
                        self.title_file.as_str(),
                        self.body_file.as_str(),
                    );
                    (OpenStage::Trigger, OpenStep::Run { script })
                }
            },
            (OpenStage::Branch, Err(e)) => (
                stage,
                OpenStep::Failed { reason: cat2("failed to resolve branch name: ", e.as_str()) },
            ),
            (OpenStage::Trigger, Ok(_)) => (OpenStage::Look, OpenStep::Look),
            (OpenStage::Trigger, Err(e)) => (
                stage,
                OpenStep::Failed { reason: cat2("gh workflow run failed: ", e.as_str()) },
            ),
            (OpenStage::Look, Ok(_)) => (stage, OpenStep::Opened),
            (OpenStage::Look, Err(_)) => {
                if waited.nanos >= self.pr_creation.poll_timeout().nanos {
                    let secs: u64 = self.pr_creation.poll_timeout_ms / 1000;
                    let n = decimal_string(secs);
                    let mut reason = "workflow `".to_owned();
                    reason.append(self.pr_creation.workflow.as_str());
                    reason.append("` was triggered but the PR did not appear within ");
                    reason.append(n.as_str());
                    reason.append("s");
                    (stage, OpenStep::Failed { reason })
                } else {
                    (
                        OpenStage::Wait,
                        OpenStep::Sleep { interval: self.pr_creation.poll_interval() },
                    )
                }
            },
            (OpenStage::Wait, _) => (OpenStage::Look, OpenStep::Look),
        }
    }
}

/// The opening of a PR by a GitHub Action ends well only once the PR has been
/// seen, and gives up looking only once the time is up.
pub proof fn law_open_ends_when_seen_or_late(
    request: OpenRequest,
    stage: OpenStage,
    result: std::result::Result<Seq<char>, Seq<char>>,
    waited: Duration,
)
    ensures
        ({
            let step = request.after(stage, result, waited).1;
            &&& step is Opened <==> stage is Look && result is Ok
            &&& stage is Look && step is Failed ==> waited.nanos
                >= request.pr_creation.poll_timeout_ms * 1_000_000 && result is Err
        }),
{
}

/// What `gh` is asked about the PR of a workspace.
pub fn find_pr_script() -> (r: &'static str)
    ensures
        r@ == "gh pr view --json number,state,title,headRefName 2>/dev/null"@,
{
    "gh pr view --json number,state,title,headRefName 2>/dev/null"
}

/// What `gh` is asked about a PR that has just been opened.
pub fn created_pr_script() -> (r: &'static str)
    ensures
        r@ == "gh pr view --json number,headRefName"@,
{
    "gh pr view --json number,headRefName"
}

/// The branch that an answer of `gh pr view` names, empty where it names none.
pub open spec fn head_branch(data: JsonView) -> Seq<char> {
    match data.str_at("headRefName"@) {
        Some(b) => b,
        None => seq![],
    }
}

/// Monitor a PR that has just been opened, as the answer of `gh pr view`
/// describes it; whether it gave the number of the PR.
pub fn track_created(
    state: &mut OrchestratorState,
    data: &Json,
    issue: &Issue,
    workspace_dir: &str,
    state_key: &str,
    workflow_id: &str,
) -> (r: bool)
    requires
        old(state).wf(),
    ensures
        final(state).wf(),
        match data.deep_view().u64_at("number"@) {
            Some(number) => {
                &&& r
                &&& match final(state).open_prs.at(state_key@) {
                    Some(p) => {
                        &&& p.issue.deep_view() == issue.deep_view()
                        &&& p.pr_number == number
                        &&& p.workspace_dir@ == workspace_dir@
                        &&& p.last_addressed_at is None
                        &&& p.workflow_id@ == workflow_id@
                        &&& p.branch_name@ == head_branch(data.deep_view())
                    },
                    None => false,
                }
                &&& forall|k: Seq<char>|
                    k != state_key@ ==> #[trigger] final(state).open_prs.at(k) == old(
                        state,
                    ).open_prs.at(k)
                &&& final(state).running == old(state).running
                &&& final(state).retries == old(state).retries
                &&& final(state).completed == old(state).completed
                &&& final(state).tokens == old(state).tokens
            },
            None => !r && *final(state) == *old(state),
        },
{
    match data.u64_at("number") {
        Some(number) => {
            let branch = data.str_or("headRefName", "");
            assert(branch@ =~= head_branch(data.deep_view())) by {
                reveal_strlit("");
            }
            state.track_pr(
                state_key,
                issue.clone(),
                number,
                workspace_dir.to_owned(),
                workflow_id,
                branch,
            );
            true
        },
        None => false,
    }
}

/// Monitor a PR that has just been opened, as the output of `gh pr view`
/// describes it; whether it gave the number of the PR.
pub fn track_created_pr(
    state: &mut OrchestratorState,
    output: &str,
    issue: &Issue,
    workspace_dir: &str,
    state_key: &str,
    workflow_id: &str,
) -> (r: bool)
    requires
        old(state).wf(),
    ensures
        final(state).wf(),
        match json_parsed(trimmed(output@)) {
            Ok(data) => match data.u64_at("number"@) {
                Some(number) => {
                    &&& r
                    &&& match final(state).open_prs.at(state_key@) {
                        Some(p) => {
                            &&& p.issue.deep_view() == issue.deep_view()
                            &&& p.pr_number == number
                            &&& p.workspace_dir@ == workspace_dir@
                            &&& p.last_addressed_at is None
                            &&& p.workflow_id@ == workflow_id@
                            &&& p.branch_name@ == head_branch(data)
                        },
                        None => false,
                    }
                    &&& forall|k: Seq<char>|
                        k != state_key@ ==> #[trigger] final(state).open_prs.at(k) == old(
                            state,
                        ).open_prs.at(k)
                    &&& final(state).running == old(state).running
                    &&& final(state).retries == old(state).retries
                    &&& final(state).completed == old(state).completed
                    &&& final(state).tokens == old(state).tokens
                },
                None => !r && *final(state) == *old(state),
            },
            Err(_) => !r && *final(state) == *old(state),
        },
{
    let text = trim(output);
    match parse(text.as_str()) {
        Ok(data) => track_created(state, &data, issue, workspace_dir, state_key, workflow_id),
        Err(_) => false,
    }
}

/// While its steps end well, the opening of a PR pushes the branch, asks for its
/// name, triggers the Action and looks for the PR, in this order.
pub proof fn law_opening_goes_in_order(request: OpenRequest, printed: Seq<char>, waited: Duration)
    ensures
        ({
            let pushed = request.after(OpenStage::Push, Ok(printed), waited);
            let named = request.after(OpenStage::Branch, Ok(printed), waited);
            let triggered = request.after(OpenStage::Trigger, Ok(printed), waited);
            &&& pushed.0 is Branch && pushed.1 is AskBranch
            &&& trimmed(printed).len() > 0 ==> named.0 is Trigger && named.1 is Run
            &&& triggered.0 is Look && triggered.1 is Look
        }),
{
}

/// A step that fails before the Action runs ends the opening, with a reason that
/// says which step it was and what went wrong.
pub proof fn law_failed_step_ends_opening(request: OpenRequest, error: Seq<char>, waited: Duration)
    ensures
        request.after(OpenStage::Push, Err(error), waited).1 == (OpenStepView::Failed {
            reason: "git push failed: "@ + error,
        }),
        request.after(OpenStage::Branch, Err(error), waited).1 == (OpenStepView::Failed {
            reason: "failed to resolve branch name: "@ + error,
        }),
        request.after(OpenStage::Trigger, Err(error), waited).1 == (OpenStepView::Failed {
            reason: "gh workflow run failed: "@ + error,
        }),
{
}

/// A branch without a name ends the opening.
pub proof fn law_nameless_branch_ends_opening(
    request: OpenRequest,
    printed: Seq<char>,
    waited: Duration,
)
    requires
        trimmed(printed).len() == 0,
    ensures
        request.after(OpenStage::Branch, Ok(printed), waited).1 == (OpenStepView::Failed {
            reason: "git rev-parse returned an empty branch name"@,
        }),
{
}

/// The Action is told the branch, without the white space around its name, and the
/// files of the title and of the body, each under the input configured for it.
pub proof fn law_action_is_told_branch_and_files(
    request: OpenRequest,
    printed: Seq<char>,
    waited: Duration,
)
    requires
        trimmed(printed).len() > 0,
    ensures
        ({
            let step = request.after(OpenStage::Branch, Ok(printed), waited).1;
            let c = request.pr_creation;
            &&& step is Run
            &&& exists|rest: Seq<char>|
                step->script == "gh workflow run \""@ + c.workflow@ + "\""@ + rest
            &&& holds(step->script, "-f \""@ + c.branch_input@ + "="@ + trimmed(printed) + "\""@)
            &&& holds(
                step->script,
                "-F \""@ + c.title_input@ + "=@"@ + request.title_file@ + "\""@,
            )
            &&& holds(
                step->script,
                "-F \""@ + c.body_input@ + "=@"@ + request.body_file@ + "\""@,
            )
        }),
{
    let c = request.pr_creation;
    let b = trimmed(printed);
    let script = request.after(OpenStage::Branch, Ok(printed), waited).1->script;
    let f1 = "\" -f \""@;
    let f2 = "\" -F \""@;
    let d1 = "-f \""@;
    let d2 = "-F \""@;
    let quote = "\""@;
    let end = "\" 2>&1"@;
    let gap = "\" "@;
    let redirect = " 2>&1"@;
    reveal_strlit("\" -f \"");
    reveal_strlit("\" -F \"");
    reveal_strlit("-f \"");
    reveal_strlit("-F \"");
    reveal_strlit("\"");
    reveal_strlit("\" ");
    reveal_strlit("\" 2>&1");
    reveal_strlit(" 2>&1");
    assert(f1 =~= gap + d1);
    assert(f2 =~= gap + d2);
    assert(f2 =~= quote + (" "@ + d2)) by {
        reveal_strlit(" ");
    }
    assert(f1 =~= quote + (" "@ + d1)) by {
        reveal_strlit(" ");
    }
    assert(end =~= quote + redirect);
    let start = "gh workflow run \""@ + c.workflow@;
    let branch_part = c.branch_input@ + "="@ + b;
    let title_part = c.title_input@ + "=@"@ + request.title_file@;
    let body_part = c.body_input@ + "=@"@ + request.body_file@;
    assert(script =~= start + f1 + branch_part + f2 + title_part + f2 + body_part + end);
    assert(script =~= start + quote + ((" "@ + d1) + branch_part + f2 + title_part + f2 + body_part
        + end));
    lemma_holds(
        script,
        start + gap,
        d1 + c.branch_input@ + "="@ + b + quote,
        (" "@ + d2) + title_part + f2 + body_part + end,
    );
    lemma_holds(
        script,
        start + f1 + branch_part + gap,
        d2 + c.title_input@ + "=@"@ + request.title_file@ + quote,
        (" "@ + d2) + body_part + end,
    );
    lemma_holds(
        script,
        start + f1 + branch_part + f2 + title_part + gap,
        d2 + c.body_input@ + "=@"@ + request.body_file@ + quote,
        redirect,
    );
}

/// As long as time is left, a PR that is not there yet is looked for again after the
/// configured interval; once the time is up, the opening fails.
pub proof fn law_looked_for_until_late(
    request: OpenRequest,
    error: Seq<char>,
    result: std::result::Result<Seq<char>, Seq<char>>,
    waited: Duration,
)
    ensures
        ({
            let c = request.pr_creation;
            let missed = request.after(OpenStage::Look, Err(error), waited);
            let rested = request.after(OpenStage::Wait, result, waited);
            &&& waited.nanos < c.poll_timeout_ms * 1_000_000 ==> missed.0 is Wait && missed.1 is Sleep
                && missed.1->interval.nanos == c.poll_interval_ms * 1_000_000
            &&& waited.nanos >= c.poll_timeout_ms * 1_000_000 ==> missed.1 is Failed && missed.1->reason
                == "workflow `"@ + c.workflow@
                + "` was triggered but the PR did not appear within "@ + decimal(
                (c.poll_timeout_ms / 1000) as nat,
            ) + "s"@
            &&& rested.0 is Look && rested.1 is Look
        }),
{
    let c = request.pr_creation;
    assert(c.poll_interval_ms * 1_000_000 <= u128::MAX) by (nonlinear_arith)
        requires
            c.poll_interval_ms <= 0xffff_ffff_ffff_ffff,
    ;
}

/// What the agent wrote is what a PR says, without the white space around it; where
/// it wrote nothing, the PR says what it would without an agent.
pub proof fn law_written_text_wins(contents: Option<Seq<char>>, default: Seq<char>)
    ensures
        contents is None ==> written_or(contents, default) == default,
        contents matches Some(c) ==> trimmed(c).len() == 0 ==> written_or(contents, default)
            == default,
        contents matches Some(c) ==> trimmed(c).len() > 0 ==> written_or(contents, default)
            == trimmed(c),
{
}

/// A PR whose agent wrote nothing names the issue and its title, in the title as in
/// the body.
pub proof fn law_default_texts_name_the_issue(id: Seq<char>, title: Seq<char>)
    ensures
        default_title(id, title) == "["@ + id + "] "@ + title,
        holds(default_body(id, title), "**"@ + id + "**: "@ + title),
        holds(default_body(id, title), "*Opened by Symposium*"@),
{
    reveal_strlit("Automated fix for **");
    reveal_strlit("**");
    reveal_strlit("Automated fix for ");
    reveal_strlit("\n\n---\n*Opened by Symposium*");
    reveal_strlit("*Opened by Symposium*");
    reveal_strlit("\n\n---\n");
    assert("Automated fix for **"@ =~= "Automated fix for "@ + "**"@);
    assert("\n\n---\n*Opened by Symposium*"@ =~= "\n\n---\n"@ + "*Opened by Symposium*"@);
    lemma_holds(
        default_body(id, title),
        "Automated fix for "@,
        "**"@ + id + "**: "@ + title,
        "\n\n---\n*Opened by Symposium*"@,
    );
    lemma_holds(
        default_body(id, title),
        "Automated fix for **"@ + id + "**: "@ + title + "\n\n---\n"@,
        "*Opened by Symposium*"@,
        seq![],
    );
}

/// The built-in prompt for a review names the issue and its title, and then says what
/// to look at.
pub proof fn law_review_prompt_names_the_issue(id: Seq<char>, title: Seq<char>)
    ensures
        default_review_prompt(id, title) == "You are reviewing changes for bug "@ + (id + ": "@
            + title) + REVIEW_STEPS@,
{
    assert(default_review_prompt(id, title) =~= "You are reviewing changes for bug "@ + (id + ": "@
        + title) + REVIEW_STEPS@);
}

/// The branch of a PR is its "headRefName", and nothing where it has none.
pub proof fn law_branch_is_the_head(data: JsonView, branch: Seq<char>)
    ensures
        data.get("headRefName"@) == Some(JsonView::Str(branch)) ==> head_branch(data) == branch,
        data.get("headRefName"@) is None ==> head_branch(data).len() == 0,
{
}

/// An agent is told to name the issue that its PR fixes.
pub proof fn law_metadata_names_the_issue(id: Seq<char>)
    ensures
        metadata_instructions(id) == METADATA_INSTRUCTIONS@ + (id
            + "`\n\nThese files must NOT be git-committed — just write them to disk."@),
        signal_instructions() == SIGNAL_INSTRUCTIONS@,
        update_instructions() == UPDATE_INSTRUCTIONS@,
{
    assert(metadata_instructions(id) =~= METADATA_INSTRUCTIONS@ + (id
        + "`\n\nThese files must NOT be git-committed — just write them to disk."@));
}

} // verus!
