//! Open pull requests and the feedback on them.
use vstd::prelude::*;
use vstd::string::*;
use crate::config::schema::{ReviewerFilter, ReviewerFilterView, ServiceConfig};
use crate::collections::has_key;
use crate::domain::issue::{Issue, IssueView};
use crate::domain::state::{count_running, OpenPr, OpenPrView, OrchestratorState};
use crate::domain::workflow::{key_of, WorkflowId};
use crate::error::{Error, Result};
use crate::json::{json_parsed, parse, Json, JsonView};
use crate::prompt::{build_prompt, can_render, prompt_globals};
use crate::text::{
    ascii_lowered, cat2, cat3, decimal, decimal_string, ends_with, eq_ignore_ascii_case, has_suffix,
    holds, lemma_holds, less_than, opt_str_eq, precedes, str_eq, trim, trimmed,
};
use crate::time::{parse_rfc3339, rfc3339_instant, Timestamp};

verus! {

/// What the built-in prompt for feedback asks for first, up to the number of the PR.
pub const FEEDBACK_START: &'static str = r#"" has changes requested in review.

First, read `AGENTS.md` at the repo root and any relevant subsystem docs.

Then review the feedback:

1. Run `gh pr view "#;

/// What the built-in prompt for feedback asks for last.
pub const FEEDBACK_STEPS: &'static str = r#"` to check CI status

Address each piece of review feedback:

- For code change requests: make the requested modifications
- For questions: if they reveal a real issue, fix it; otherwise leave a PR comment explaining
- For nits/style suggestions: fix them
- For suggestions you disagree with: leave a PR comment explaining your reasoning

After making all changes:

1. Stage and commit your changes with a descriptive message
2. Push to update the PR: `git push`

Do NOT create a new PR — the existing PR #"#;

/// PR status retrieved from `gh pr view`.
#[derive(Debug)]
pub struct PrStatus {
    pub state: String,
    pub latest_actionable_review_at: Option<Timestamp>,
}

/// A review of a pull request.
#[derive(Debug)]
pub struct Review {
    /// Who wrote it.
    pub login: String,
    /// What it comes to, e.g. "APPROVED".
    pub state: Option<String>,
    /// When it was submitted, as written.
    pub submitted_at: String,
    /// When it was submitted, where the text above says it.
    pub at: Option<Timestamp>,
}

/// What a `Review` holds.
#[verifier::ext_equal]
pub struct ReviewView {
    pub login: Seq<char>,
    pub state: Option<Seq<char>>,
    pub submitted_at: Seq<char>,
    pub at: Option<Timestamp>,
}

impl DeepView for Review {
    type V = ReviewView;

    open spec fn deep_view(&self) -> ReviewView {
        ReviewView {
            login: self.login@,
            state: self.state.deep_view(),
            submitted_at: self.submitted_at@,
            at: self.at,
        }
    }
}

/// The login of a review's author, empty where it has none.
pub open spec fn author_login(review: JsonView) -> Seq<char> {
    match review.get("author"@) {
        Some(author) => match author.str_at("login"@) {
            Some(login) => login,
            None => seq![],
        },
        None => seq![],
    }
}

/// The review that a JSON value describes.
pub open spec fn review_of(review: JsonView) -> ReviewView {
    let submitted = match review.str_at("submittedAt"@) {
        Some(s) => s,
        None => seq![],
    };
    ReviewView {
        login: author_login(review),
        state: review.str_at("state"@),
        submitted_at: submitted,
        at: match rfc3339_instant(submitted) {
            Some((secs, nanos)) => Some(Timestamp { secs, nanos }),
            None => None,
        },
    }
}

/// The authors whose feedback a filter lets through.
pub open spec fn accepts(filter: ReviewerFilterView, login: Seq<char>) -> bool {
    match filter {
        ReviewerFilterView::All => true,
        ReviewerFilterView::Humans => !has_suffix(login, "[bot]"@),
        ReviewerFilterView::Specific(names) => is_named(names, login),
    }
}

/// One of the names is the login, but for the case of letters.
pub open spec fn is_named(names: Seq<Seq<char>>, login: Seq<char>) -> bool {
    exists|i: int|
        0 <= i < names.len() && ascii_lowered(#[trigger] names[i]) == ascii_lowered(login)
}

/// The review is the author's latest: no review of the same author was
/// submitted later, and none before it in the list at the same time. A review
/// without a time is nobody's latest.
pub open spec fn is_latest(rs: Seq<ReviewView>, i: int) -> bool {
    &&& 0 <= i < rs.len()
    &&& rs[i].submitted_at.len() > 0
    &&& forall|j: int|
        0 <= j < rs.len() && (#[trigger] rs[j]).login == rs[i].login ==> {
            &&& !precedes(rs[i].submitted_at, rs[j].submitted_at)
            &&& j < i ==> precedes(rs[j].submitted_at, rs[i].submitted_at)
        }
}

/// A review that asks for something.
pub open spec fn asks(r: ReviewView) -> bool {
    r.state == Some("CHANGES_REQUESTED"@) || r.state == Some("COMMENTED"@)
}

/// The review counts as feedback: it is its author's latest, it asks for
/// something, its author is one we listen to, and its time is known.
pub open spec fn counts(rs: Seq<ReviewView>, filter: ReviewerFilterView, i: int) -> bool {
    &&& is_latest(rs, i)
    &&& asks(rs[i])
    &&& accepts(filter, rs[i].login)
    &&& rs[i].at is Some
}

/// `t` is the time of the latest feedback among the reviews.
pub open spec fn is_last_feedback(
    rs: Seq<ReviewView>,
    filter: ReviewerFilterView,
    t: Option<Timestamp>,
) -> bool {
    match t {
        Some(t) => {
            &&& exists|i: int| #[trigger] counts(rs, filter, i) && rs[i].at == Some(t)
            &&& forall|j: int| #[trigger] counts(rs, filter, j) ==> rs[j].at->0.at() <= t.at()
        },
        None => forall|i: int| !#[trigger] counts(rs, filter, i),
    }
}

/// Whether the feedback of an author is let through.
pub fn accepts_login(login: &str, filter: &ReviewerFilter) -> (r: bool)
    ensures
        r == accepts(filter.deep_view(), login@),
{
    match filter {
        ReviewerFilter::All => true,
        ReviewerFilter::Humans => !ends_with(login, "[bot]"),
        ReviewerFilter::Specific(names) => {
            let ghost ns = names.deep_view();
            let mut i: usize = 0;
            while i < names.len()
                invariant
                    i <= names@.len(),
                    ns == names.deep_view(),
                    filter.deep_view() == ReviewerFilterView::Specific(ns),
                    forall|k: int|
                        0 <= k < i ==> ascii_lowered(#[trigger] ns[k]) != ascii_lowered(login@),
                decreases names@.len() - i,
            {
                assert(ns[i as int] == names@[i as int]@);
                if eq_ignore_ascii_case(names[i].as_str(), login) {
                    assert(ascii_lowered(ns[i as int]) == ascii_lowered(login@));
                    assert(is_named(ns, login@));
                    return true;
                }
                i += 1;
            }
            false
        },
    }
}

fn login_of(review: &Json) -> (r: String)
    ensures
        r@ == author_login(review.deep_view()),
{
    match review.get("author") {
        Some(author) => match author.str_at("login") {
            Some(login) => login.to_owned(),
            None => String::new(),
        },
        None => String::new(),
    }
}

/// Check whether a review matches the configured filter.
pub fn is_reviewer_actionable(review: &Json, filter: &ReviewerFilter) -> (r: bool)
    ensures
        r == accepts(filter.deep_view(), author_login(review.deep_view())),
{
    let login = login_of(review);
    accepts_login(login.as_str(), filter)
}

fn read_review(review: &Json) -> (r: Review)
    ensures
        r.deep_view() == review_of(review.deep_view()),
{
    let login = login_of(review);
    let state = match review.str_at("state") {
        Some(s) => Some(s.to_owned()),
        None => None,
    };
    let submitted_at = match review.str_at("submittedAt") {
        Some(s) => s.to_owned(),
        None => String::new(),
    };
    let at = parse_rfc3339(submitted_at.as_str());
    Review { login, state, submitted_at, at }
}

fn check_latest(reviews: &Vec<Review>, i: usize) -> (r: bool)
    requires
        i < reviews@.len(),
    ensures
        r == is_latest(reviews.deep_view(), i as int),
{
    let ghost rs = reviews.deep_view();
    if reviews[i].submitted_at.as_str().is_empty() {
        return false;
    }
    let mut j: usize = 0;
    while j < reviews.len()
        invariant
            i < reviews@.len(),
            j <= reviews@.len(),
            rs == reviews.deep_view(),
            forall|k: int|
                0 <= k < j && (#[trigger] rs[k]).login == rs[i as int].login ==> {
                    &&& !precedes(rs[i as int].submitted_at, rs[k].submitted_at)
                    &&& k < i ==> precedes(rs[k].submitted_at, rs[i as int].submitted_at)
                },
        decreases reviews@.len() - j,
    {
        assert(rs[j as int] == reviews@[j as int].deep_view());
        assert(rs[i as int] == reviews@[i as int].deep_view());
        if str_eq(reviews[j].login.as_str(), reviews[i].login.as_str()) {
            if less_than(reviews[i].submitted_at.as_str(), reviews[j].submitted_at.as_str()) {
                return false;
            }
            if j < i && !less_than(
                reviews[j].submitted_at.as_str(),
                reviews[i].submitted_at.as_str(),
            ) {
                return false;
            }
        }
        j += 1;
    }
    true
}

/// The time of the latest feedback among the reviews.
///
/// A review counts if it is its author's latest and asks for changes or leaves
/// comments: an approval or dismissal settles what its author asked before.
pub fn latest_feedback(reviews: &Vec<Review>, filter: &ReviewerFilter) -> (r: Option<Timestamp>)
    ensures
        is_last_feedback(reviews.deep_view(), filter.deep_view(), r),
{
    let ghost rs = reviews.deep_view();
    let ghost f = filter.deep_view();
    let mut best: Option<Timestamp> = None;
    let mut i: usize = 0;
    while i < reviews.len()
        invariant
            i <= reviews@.len(),
            rs == reviews.deep_view(),
            f == filter.deep_view(),
            match best {
                Some(t) => {
                    &&& exists|k: int|
                        0 <= k < i && #[trigger] counts(rs, f, k) && rs[k].at == Some(t)
                    &&& forall|j: int|
                        0 <= j < i && #[trigger] counts(rs, f, j) ==> rs[j].at->0.at() <= t.at()
                },
                None => forall|k: int| 0 <= k < i ==> !#[trigger] counts(rs, f, k),
            },
        decreases reviews@.len() - i,
    {
        assert(rs[i as int] == reviews@[i as int].deep_view());
        let review = &reviews[i];
        let asking = opt_str_eq(&review.state, "CHANGES_REQUESTED") || opt_str_eq(
            &review.state,
            "COMMENTED",
        );
        if asking && accepts_login(review.login.as_str(), filter) && check_latest(reviews, i) {
            if let Some(t) = review.at {
                assert(counts(rs, f, i as int));
                let newer = match best {
                    Some(b) => t.after(b),
                    None => true,
                };
                if newer {
                    best = Some(t);
                }
            }
        }
        i += 1;
    }
    best
}

/// The reviews that the items of a JSON array describe.
pub open spec fn reviews_of(items: Seq<JsonView>) -> Seq<ReviewView> {
    items.map_values(|r: JsonView| review_of(r))
}

/// Find the latest actionable review timestamp, considering only each author's
/// most recent review.
pub fn latest_actionable_review_at(
    reviews: Option<&Vec<Json>>,
    reviewer_filter: &ReviewerFilter,
) -> (r: Option<Timestamp>)
    ensures
        match reviews {
            Some(items) => is_last_feedback(
                reviews_of(items.deep_view()),
                reviewer_filter.deep_view(),
                r,
            ),
            None => r is None,
        },
{
    match reviews {
        Some(items) => {
            let mut list: Vec<Review> = Vec::new();
            let ghost want = reviews_of(items.deep_view());
            let mut i: usize = 0;
            while i < items.len()
                invariant
                    i <= items@.len(),
                    want == reviews_of(items.deep_view()),
                    list.deep_view() == want.take(i as int),
                decreases items@.len() - i,
            {
                let ghost before = list.deep_view();
                let review = read_review(&items[i]);
                let ghost v = review.deep_view();
                assert(want[i as int] == v);
                list.push(review);
                assert(list.deep_view() =~= before.push(v));
                assert(want.take(i + 1) =~= before.push(v));
                i += 1;
            }
            assert(want.take(i as int) =~= want);
            latest_feedback(&list, reviewer_filter)
        },
        None => None,
    }
}

/// A review that its author followed up on counts for nothing.
pub proof fn law_superseded_review_ignored(
    rs: Seq<ReviewView>,
    filter: ReviewerFilterView,
    i: int,
    j: int,
)
    requires
        0 <= i < rs.len(),
        0 <= j < rs.len(),
        rs[i].login == rs[j].login,
        precedes(rs[i].submitted_at, rs[j].submitted_at),
    ensures
        !counts(rs, filter, i),
{
}

/// What `gh` is asked about a pull request.
pub fn status_script(pr_number: u64) -> (r: String)
    ensures
        r@ == "gh pr view "@ + decimal(pr_number as nat) + " --json state,reviewDecision,reviews"@,
{
    let n = decimal_string(pr_number);
    cat3("gh pr view ", n.as_str(), " --json state,reviewDecision,reviews")
}

/// The status that an answer of `gh pr view` describes.
pub fn read_status(data: &Json, reviewer_filter: &ReviewerFilter) -> (r: PrStatus)
    ensures
        r.state@ == match data.deep_view().str_at("state"@) {
            Some(s) => s,
            None => Seq::<char>::empty(),
        },
        match data.deep_view().array_at("reviews"@) {
            Some(items) => is_last_feedback(
                reviews_of(items),
                reviewer_filter.deep_view(),
                r.latest_actionable_review_at,
            ),
            None => r.latest_actionable_review_at is None,
        },
{
    let state = match data.str_at("state") {
        Some(s) => s.to_owned(),
        None => String::new(),
    };
    let latest = latest_actionable_review_at(data.array_at("reviews"), reviewer_filter);
    PrStatus { state, latest_actionable_review_at: latest }
}

/// The status that the output of `gh pr view` describes.
pub fn parse_status(output: &str, reviewer_filter: &ReviewerFilter) -> (r: Result<PrStatus>)
    ensures
        match (r, json_parsed(trimmed(output@))) {
            (Ok(status), Ok(data)) => {
                &&& status.state@ == match data.str_at("state"@) {
                    Some(s) => s,
                    None => Seq::<char>::empty(),
                }
                &&& match data.array_at("reviews"@) {
                    Some(items) => is_last_feedback(
                        reviews_of(items),
                        reviewer_filter.deep_view(),
                        status.latest_actionable_review_at,
                    ),
                    None => status.latest_actionable_review_at is None,
                }
            },
            (Err(e), Err(m)) => e is Json && e.detail() == m,
            _ => false,
        },
{
    let text = trim(output);
    match parse(text.as_str()) {
        Ok(data) => Ok(read_status(&data, reviewer_filter)),
        Err(m) => Err(Error::Json(m)),
    }
}

/// There is feedback newer than what has been worked on.
pub open spec fn has_new_feedback(addressed: Option<Timestamp>, latest: Option<Timestamp>) -> bool {
    match (latest, addressed) {
        (Some(l), Some(a)) => l.at() > a.at(),
        (Some(_), None) => true,
        _ => false,
    }
}

/// Does this PR have new review feedback we haven't yet addressed?
pub fn needs_attention(pr: &OpenPr, status: &PrStatus) -> (r: bool)
    ensures
        r == has_new_feedback(pr.last_addressed_at, status.latest_actionable_review_at),
{
    match (status.latest_actionable_review_at, pr.last_addressed_at) {
        (Some(requested), Some(addressed)) => requested.after(addressed),
        (Some(_), None) => true,
        _ => false,
    }
}

/// Once feedback has been worked on, it asks for attention no more; only
/// feedback that is newer does.
pub proof fn law_addressed_feedback_settled(addressed: Timestamp, latest: Timestamp)
    ensures
        has_new_feedback(Some(addressed), Some(latest)) <==> latest.at() > addressed.at(),
        latest.at() <= addressed.at() ==> !has_new_feedback(Some(addressed), Some(latest)),
{
}

/// Merged or closed.
pub open spec fn is_final_state(state: Seq<char>) -> bool {
    state == "MERGED"@ || state == "CLOSED"@
}

/// Is the PR merged or closed?
pub fn is_terminal(status: &PrStatus) -> (r: bool)
    ensures
        r == is_final_state(status.state@),
{
    str_eq(status.state.as_str(), "MERGED") || str_eq(status.state.as_str(), "CLOSED")
}

/// The identifier of the review of an issue.
pub open spec fn review_identifier(issue_id: Seq<char>) -> Seq<char> {
    "pr-review:"@ + issue_id
}

/// State key for a PR review worker session.
pub fn review_session_state_key(issue_id: &str, workflow_id: &WorkflowId) -> (r: String)
    ensures
        r@ == key_of(workflow_id.0@, review_identifier(issue_id@)),
{
    let id = cat2("pr-review:", issue_id);
    workflow_id.state_key(id.as_str())
}

/// What is to be done about an open PR before its status is known.
#[derive(Debug, Clone, Copy, PartialEq, Eq, Structural)]
pub enum PrCheck {
    /// No more sessions may start: leave this PR and those after it.
    Stop,
    /// Its review runs already: leave it.
    Skip,
    /// Ask for its status.
    Ask,
}

/// What is to be done about an open PR before its status is known.
pub open spec fn pr_check(
    state: OrchestratorState,
    issue_id: Seq<char>,
    max: usize,
    workflow: Seq<char>,
    global_max: Option<usize>,
) -> PrCheck {
    if count_running(state.running@, workflow) >= max || (global_max is Some && state.running@.len()
        >= global_max->0) {
        PrCheck::Stop
    } else if has_key(state.running@, key_of(workflow, review_identifier(issue_id))) {
        PrCheck::Skip
    } else {
        PrCheck::Ask
    }
}

/// What is to be done about an open PR before its status is known.
pub fn check_pr(
    state: &OrchestratorState,
    pr: &OpenPr,
    config: &ServiceConfig,
    workflow_id: &WorkflowId,
    global_max_agents: Option<usize>,
) -> (r: PrCheck)
    ensures
        r == pr_check(
            *state,
            pr.issue.identifier@,
            config.agent.max_concurrent_agents,
            workflow_id.0@,
            global_max_agents,
        ),
{
    if state.running_count_for_workflow(workflow_id.0.as_str())
        >= config.agent.max_concurrent_agents {
        return PrCheck::Stop;
    }
    if let Some(global_max) = global_max_agents {
        if state.running_count() >= global_max {
            return PrCheck::Stop;
        }
    }
    let key = review_session_state_key(pr.issue.identifier.as_str(), workflow_id);
    if state.is_running(key.as_str()) {
        PrCheck::Skip
    } else {
        PrCheck::Ask
    }
}

/// The open PRs of a workflow, in order.
pub open spec fn prs_of(prs: Seq<(String, OpenPr)>, workflow: Seq<char>) -> Seq<OpenPrView>
    decreases prs.len(),
{
    if prs.len() == 0 {
        seq![]
    } else if prs.last().1.workflow_id@ == workflow {
        prs_of(prs.drop_last(), workflow).push(prs.last().1.deep_view())
    } else {
        prs_of(prs.drop_last(), workflow)
    }
}

/// The open PRs of a workflow.
pub fn workflow_prs(state: &OrchestratorState, workflow_id: &WorkflowId) -> (r: Vec<OpenPr>)
    ensures
        r.deep_view() == prs_of(state.open_prs@, workflow_id.0@),
{
    let mut out: Vec<OpenPr> = Vec::new();
    let mut i: usize = 0;
    assert(out.deep_view() =~= prs_of(state.open_prs@.take(0), workflow_id.0@));
    while i < state.open_prs.entries.len()
        invariant
            i <= state.open_prs@.len(),
            out.deep_view() == prs_of(state.open_prs@.take(i as int), workflow_id.0@),
        decreases state.open_prs@.len() - i,
    {
        assert(state.open_prs@.take(i + 1).drop_last() =~= state.open_prs@.take(i as int));
        let pr = &state.open_prs.entries[i].1;
        if str_eq(pr.workflow_id.as_str(), workflow_id.0.as_str()) {
            let ghost before = out.deep_view();
            let copy = pr.clone();
            let ghost v = copy.deep_view();
            out.push(copy);
            assert(out.deep_view() =~= before.push(v));
        }
        i += 1;
    }
    assert(state.open_prs@.take(i as int) =~= state.open_prs@);
    out
}

/// Take note of the status of an open PR, and say whether its feedback is to be
/// worked on.
///
/// A merged or closed PR is monitored no more; a status that could not be
/// fetched changes nothing.
pub fn settle_pr(
    state: &mut OrchestratorState,
    pr: &OpenPr,
    status: &Result<PrStatus>,
    workflow_id: &WorkflowId,
) -> (dispatch: bool)
    requires
        old(state).wf(),
    ensures
        final(state).wf(),
        match *status {
            Ok(s) => if is_final_state(s.state@) {
                &&& !dispatch
                &&& final(state).open_prs.at(key_of(workflow_id.0@, pr.issue.identifier@)) is None
                &&& forall|k: Seq<char>|
                    k != key_of(workflow_id.0@, pr.issue.identifier@)
                        ==> #[trigger] final(state).open_prs.at(k) == old(state).open_prs.at(k)
                &&& final(state).running == old(state).running
                &&& final(state).retries == old(state).retries
                &&& final(state).completed == old(state).completed
                &&& final(state).tokens == old(state).tokens
            } else {
                &&& dispatch == has_new_feedback(
                    pr.last_addressed_at,
                    s.latest_actionable_review_at,
                )
                &&& *final(state) == *old(state)
            },
            Err(_) => !dispatch && *final(state) == *old(state),
        },
{
    match status {
        Ok(s) => if is_terminal(s) {
            let key = workflow_id.state_key(pr.issue.identifier.as_str());
            state.untrack_pr(key.as_str());
            false
        } else {
            needs_attention(pr, s)
        },
        Err(_) => false,
    }
}

/// The issue that a review session works on.
pub open spec fn review_issue_of(issue: IssueView, workflow: Seq<char>) -> IssueView {
    IssueView {
        identifier: review_identifier(issue.identifier),
        title: "PR review: "@ + issue.title,
        source: "pr_review"@,
        workflow_id: workflow,
        ..issue
    }
}

/// The issue that a review session works on.
pub fn review_issue(issue: &Issue, workflow_id: &WorkflowId) -> (r: Issue)
    ensures
        r.deep_view() == review_issue_of(issue.deep_view(), workflow_id.0@),
{
    let mut r = issue.clone();
    r.identifier = cat2("pr-review:", issue.identifier.as_str());
    r.title = cat2("PR review: ", issue.title.as_str());
    r.source = "pr_review".to_owned();
    r.workflow_id = workflow_id.0.clone();
    r
}

/// Start the session that works on the feedback on a PR; its key.
pub fn begin_pr_review(
    state: &mut OrchestratorState,
    pr: &OpenPr,
    config: &ServiceConfig,
    workflow_id: &WorkflowId,
    now: Timestamp,
) -> (key: String)
    requires
        old(state).wf(),
    ensures
        final(state).wf(),
        key@ == key_of(workflow_id.0@, review_identifier(pr.issue.identifier@)),
        match final(state).running.at(key@) {
            Some(e) => {
                &&& e.issue.deep_view() == review_issue_of(pr.issue.deep_view(), workflow_id.0@)
                &&& e.stall_timeout.nanos == config.codex.stall_timeout_ms * 1_000_000
                &&& e.workflow_id@ == workflow_id.0@
                &&& e.session.is_new(key@, now)
            },
            None => false,
        },
        forall|k: Seq<char>|
            k != key@ ==> #[trigger] final(state).running.at(k) == old(state).running.at(k),
        final(state).retries == old(state).retries,
        final(state).completed == old(state).completed,
        final(state).tokens == old(state).tokens,
        final(state).open_prs == old(state).open_prs,
{
    let key = review_session_state_key(pr.issue.identifier.as_str(), workflow_id);
    let issue = review_issue(&pr.issue, workflow_id);
    state.start_session(
        key.as_str(),
        issue,
        config.codex.stall_timeout(),
        workflow_id.0.as_str(),
        now,
    );
    key
}

/// The built-in prompt for feedback on a PR.
pub open spec fn default_pr_review_prompt(id: Seq<char>, title: Seq<char>, number: Seq<char>) -> Seq<
    char,
> {
    "PR #"@ + number + " for issue "@ + id + ": \""@ + title
        + FEEDBACK_START@
        + number + " --comments` to see all review comments and discussion\n2. Run `gh pr diff "@ + number
        + "` to see the current changes on this PR\n3. Run `gh pr checks "@ + number
        + FEEDBACK_STEPS@
        + number + " will be updated automatically when you push."@
}

/// The built-in prompt for feedback on a PR.
pub fn build_default_pr_review_prompt(issue: &Issue, pr_number: u64) -> (r: String)
    ensures
        r@ == default_pr_review_prompt(
            issue.identifier@,
            issue.title@,
            decimal(pr_number as nat),
        ),
{
    let n = decimal_string(pr_number);
    let number = n.as_str();
    let mut s = "PR #".to_owned();
    s.append(number);
    s.append(" for issue ");
    s.append(issue.identifier.as_str());
    s.append(": \"");
    s.append(issue.title.as_str());
    s.append(FEEDBACK_START);
    s.append(number);
    s.append(" --comments` to see all review comments and discussion\n2. Run `gh pr diff ");
    s.append(number);
    s.append("` to see the current changes on this PR\n3. Run `gh pr checks ");
    s.append(number);
    s.append(FEEDBACK_STEPS);
    s.append(number);
    s.append(" will be updated automatically when you push.");
    s
}

/// An issue with one more extra property, in place of one of the same name.
pub open spec fn with_extra(issue: IssueView, key: Seq<char>, value: Seq<char>) -> IssueView {
    IssueView { extra: issue.extra.push((key, value)), ..issue }
}

/// The prompt that a rendered template gives: the built-in one where it could
/// not be rendered.
pub fn rendered_or_default_pr_review(
    rendered: Result<String>,
    issue: &Issue,
    pr_number: u64,
) -> (r: String)
    ensures
        match rendered {
            Ok(s) => r == s,
            Err(_) => r@ == default_pr_review_prompt(
                issue.identifier@,
                issue.title@,
                decimal(pr_number as nat),
            ),
        },
{
    match rendered {
        Ok(s) => s,
        Err(_) => build_default_pr_review_prompt(issue, pr_number),
    }
}

/// Build a prompt for addressing PR review feedback.
///
/// A custom template finds the number of the PR as `issue.pr_number`.
pub fn build_pr_review_prompt(issue: &Issue, pr_number: u64, custom_template: &str) -> (r: String)
    ensures
        if custom_template@.len() == 0 {
            r@ == default_pr_review_prompt(
                issue.identifier@,
                issue.title@,
                decimal(pr_number as nat),
            )
        } else {
            exists|p: Result<String>| {
                &&& #[trigger] can_render(
                    custom_template@,
                    prompt_globals(
                        with_extra(issue.deep_view(), "pr_number"@, decimal(pr_number as nat)),
                        None,
                        None,
                        None,
                    ),
                    p,
                )
                &&& match p {
                    Ok(s) => r@ == s@,
                    Err(_) => r@ == default_pr_review_prompt(
                        issue.identifier@,
                        issue.title@,
                        decimal(pr_number as nat),
                    ),
                }
            }
        },
{
    if custom_template.is_empty() {
        return build_default_pr_review_prompt(issue, pr_number);
    }
    let mut shown = issue.clone();
    let ghost extra = shown.extra.deep_view();
    shown.extra.entries.push(("pr_number".to_owned(), decimal_string(pr_number)));
    proof {
        assert(shown.extra.deep_view() =~= extra.push(
            ("pr_number"@, decimal(pr_number as nat)),
        ));
        assert(shown.deep_view() =~= with_extra(
            issue.deep_view(),
            "pr_number"@,
            decimal(pr_number as nat),
        ));
    }
    let rendered = build_prompt(custom_template, &shown, None);
    let ghost p = rendered;
    let r = rendered_or_default_pr_review(rendered, issue, pr_number);
    assert(can_render(
        custom_template@,
        prompt_globals(
            with_extra(issue.deep_view(), "pr_number"@, decimal(pr_number as nat)),
            None,
            None,
            None,
        ),
        p,
    ));
    r
}

/// Without a filter everybody is listened to.
pub proof fn law_all_are_heard(login: Seq<char>)
    ensures
        accepts(ReviewerFilterView::All, login),
{
}

/// A filter for humans leaves out every login that ends in "[bot]", and no other.
pub proof fn law_bots_are_not_human(name: Seq<char>, login: Seq<char>)
    ensures
        !accepts(ReviewerFilterView::Humans, name + "[bot]"@),
        accepts(ReviewerFilterView::Humans, login) || exists|n: Seq<char>|
            login == #[trigger] (n + "[bot]"@),
{
    let bot = "[bot]"@;
    let l = name + bot;
    assert(l.subrange(l.len() - bot.len(), l.len() - bot.len() + bot.len()) =~= bot);
    if !accepts(ReviewerFilterView::Humans, login) {
        assert(login =~= login.take(login.len() - bot.len()) + bot);
    }
}

/// A filter by names lets through those whose login is one of them, but for the case
/// of letters, and nobody else.
pub proof fn law_named_are_heard(names: Seq<Seq<char>>, login: Seq<char>)
    ensures
        accepts(ReviewerFilterView::Specific(names), login) <==> exists|i: int|
            0 <= i < names.len() && ascii_lowered(#[trigger] names[i]) == ascii_lowered(login),
        names.contains(login) ==> accepts(ReviewerFilterView::Specific(names), login),
        (forall|i: int| 0 <= i < names.len() ==> (#[trigger] names[i]).len() != login.len())
            ==> !accepts(ReviewerFilterView::Specific(names), login),
{
    if names.contains(login) {
        let i = names.index_of(login);
        assert(ascii_lowered(names[i]) == ascii_lowered(login));
    }
    assert forall|i: int|
        0 <= i < names.len() && (#[trigger] names[i]).len() != login.len() implies ascii_lowered(
        names[i],
    ) != ascii_lowered(login) by {
        assert(ascii_lowered(names[i]).len() == names[i].len());
        assert(ascii_lowered(login).len() == login.len());
    }
}

/// What the latest review of an author says settles all their earlier ones: where it
/// asks for nothing, as an approval or a dismissal, no review of theirs counts.
pub proof fn law_last_word_settles(
    rs: Seq<ReviewView>,
    filter: ReviewerFilterView,
    i: int,
    j: int,
)
    requires
        is_latest(rs, i),
        rs[i].state != Some("CHANGES_REQUESTED"@),
        rs[i].state != Some("COMMENTED"@),
        0 <= j < rs.len(),
        rs[j].login == rs[i].login,
    ensures
        !counts(rs, filter, j),
{
}

/// Only reviews that ask for changes or leave comments count, only those of authors
/// who are listened to, and only those with a time.
pub proof fn law_what_counts_as_feedback(rs: Seq<ReviewView>, filter: ReviewerFilterView, i: int)
    ensures
        counts(rs, filter, i) ==> {
            &&& 0 <= i < rs.len()
            &&& rs[i].state == Some("CHANGES_REQUESTED"@) || rs[i].state == Some("COMMENTED"@)
            &&& accepts(filter, rs[i].login)
            &&& rs[i].at is Some
            &&& rs[i].submitted_at.len() > 0
        },
{
}

/// The only review of an author counts once it asks for something at a known time and
/// its author is listened to.
pub proof fn law_only_review_counts(rs: Seq<ReviewView>, filter: ReviewerFilterView, i: int)
    requires
        0 <= i < rs.len(),
        forall|j: int| 0 <= j < rs.len() && j != i ==> (#[trigger] rs[j]).login != rs[i].login,
        rs[i].state == Some("CHANGES_REQUESTED"@) || rs[i].state == Some("COMMENTED"@),
        accepts(filter, rs[i].login),
        rs[i].at is Some,
        rs[i].submitted_at.len() > 0,
    ensures
        counts(rs, filter, i),
{
    lemma_not_before_itself(rs[i].submitted_at);
}

proof fn lemma_not_before_itself(a: Seq<char>)
    ensures
        !precedes(a, a),
    decreases a.len(),
{
    if a.len() > 0 {
        lemma_not_before_itself(a.skip(1));
    }
}

/// The time of the latest feedback is no earlier than that of any review that counts,
/// and there is one only where some review counts: where none asks for anything,
/// there is none.
pub proof fn law_latest_feedback_time(
    rs: Seq<ReviewView>,
    filter: ReviewerFilterView,
    t: Option<Timestamp>,
    i: int,
)
    requires
        is_last_feedback(rs, filter, t),
    ensures
        counts(rs, filter, i) ==> t is Some && t->0.at() >= rs[i].at->0.at(),
        t is Some ==> exists|k: int|
            0 <= k < rs.len() && (#[trigger] rs[k]).at == t && (rs[k].state == Some(
                "CHANGES_REQUESTED"@,
            ) || rs[k].state == Some("COMMENTED"@)),
        (forall|k: int|
            0 <= k < rs.len() ==> (#[trigger] rs[k]).state != Some("CHANGES_REQUESTED"@)
                && rs[k].state != Some("COMMENTED"@)) ==> t is None,
{
    if t is Some {
        let k = choose|k: int| #[trigger] counts(rs, filter, k) && rs[k].at == t;
        assert(rs[k].at == t);
    }
}

/// A review is read from its own fields: the author's login, the state, and the time
/// of its submission, both as written and as an instant.
pub proof fn law_review_from_its_fields(review: JsonView, text: Seq<char>)
    ensures
        ({
            let r = review_of(review);
            &&& review.get("state"@) == Some(JsonView::Str(text)) ==> r.state == Some(text)
            &&& review.get("state"@) is None ==> r.state is None
            &&& review.get("submittedAt"@) == Some(JsonView::Str(text)) ==> r.submitted_at == text && (
            match rfc3339_instant(text) {
                Some((secs, nanos)) => r.at == Some(Timestamp { secs, nanos }),
                None => r.at is None,
            })
            &&& review.get("submittedAt"@) is None ==> r.submitted_at.len() == 0
            &&& review.get("author"@) is Some && review.get("author"@)->0.get("login"@) == Some(
                JsonView::Str(text),
            ) ==> r.login == text
            &&& review.get("author"@) is None ==> r.login.len() == 0
        }),
{
}

/// Every item of a list of reviews is read, in its place.
pub proof fn law_reviews_read_in_place(items: Seq<JsonView>)
    ensures
        reviews_of(items).len() == items.len(),
        forall|i: int|
            0 <= i < items.len() ==> #[trigger] reviews_of(items)[i] == review_of(items[i]),
{
}

/// A PR without feedback asks for no attention, and the first feedback does.
pub proof fn law_first_feedback_asks_for_attention(
    addressed: Option<Timestamp>,
    latest: Timestamp,
)
    ensures
        !has_new_feedback(addressed, None),
        has_new_feedback(None, Some(latest)),
{
}

/// A PR is settled when it is merged or closed, and in no other state.
pub proof fn law_settled_when_merged_or_closed(state: Seq<char>)
    ensures
        is_final_state("MERGED"@),
        is_final_state("CLOSED"@),
        state != "MERGED"@ && state != "CLOSED"@ ==> !is_final_state(state),
{
}

/// A PR is asked about exactly where its workflow and all workflows together may run
/// one more session and none runs on its feedback yet; the PRs after it are left
/// exactly where there is no such room.
pub proof fn law_prs_checked_while_there_is_room(
    state: OrchestratorState,
    issue_id: Seq<char>,
    max: usize,
    workflow: Seq<char>,
    global_max: Option<usize>,
)
    ensures
        ({
            let r = pr_check(state, issue_id, max, workflow, global_max);
            let room = {
                &&& count_running(state.running@, workflow) < max
                &&& global_max is None || state.running@.len() < global_max->0
            };
            let busy = exists|i: int|
                0 <= i < state.running@.len() && (#[trigger] state.running@[i]).0@ == workflow + "/"@
                    + ("pr-review:"@ + issue_id);
            &&& r is Stop <==> !room
            &&& r is Skip <==> room && busy
            &&& r is Ask <==> room && !busy
        }),
{
    let key = workflow + "/"@ + ("pr-review:"@ + issue_id);
    assert(key_of(workflow, review_identifier(issue_id)) == key);
    if has_key(state.running@, key) {
        let i = choose|i: int| 0 <= i < state.running@.len() && (#[trigger] state.running@[i]).0@ == key;
        assert(state.running@[i].0@ == key);
    }
}

/// The PRs of a workflow are those that say so, all of them, and in their order.
pub proof fn law_prs_of_their_workflow(
    a: Seq<(String, OpenPr)>,
    b: Seq<(String, OpenPr)>,
    workflow: Seq<char>,
)
    ensures
        prs_of(a + b, workflow) == prs_of(a, workflow) + prs_of(b, workflow),
        a.len() == 1 ==> prs_of(a, workflow) == (if a[0].1.workflow_id@ == workflow {
            seq![a[0].1.deep_view()]
        } else {
            seq![]
        }),
    decreases b.len(),
{
    if a.len() == 1 {
        assert(a.drop_last() =~= seq![]);
        reveal_with_fuel(prs_of, 2);
        assert(a.last() == a[0]);
        assert(prs_of(a, workflow) =~= (if a[0].1.workflow_id@ == workflow {
            seq![a[0].1.deep_view()]
        } else {
            seq![]
        }));
    }
    if b.len() > 0 {
        law_prs_of_their_workflow(a, b.drop_last(), workflow);
        assert((a + b).drop_last() =~= a + b.drop_last());
        assert(prs_of(a + b, workflow) =~= prs_of(a, workflow) + prs_of(b, workflow));
    } else {
        assert(a + b =~= a);
        assert(prs_of(a, workflow) + prs_of(b, workflow) =~= prs_of(a, workflow));
    }
}

/// A review session works on the issue of its PR under a name of its own, marked as a
/// review of the workflow; all else is the issue's.
pub proof fn law_review_issue_is_the_pr_issue(issue: IssueView, workflow: Seq<char>)
    ensures
        ({
            let r = review_issue_of(issue, workflow);
            &&& r.identifier == "pr-review:"@ + issue.identifier
            &&& r.title == "PR review: "@ + issue.title
            &&& r.source == "pr_review"@
            &&& r.workflow_id == workflow
            &&& r.description == issue.description
            &&& r.status == issue.status
            &&& r.priority == issue.priority
            &&& r.url == issue.url
            &&& r.notion_page_id == issue.notion_page_id
            &&& r.blockers == issue.blockers
            &&& r.extra == issue.extra
            &&& r.comments == issue.comments
        }),
{
}

/// The review of an issue never has the name of another issue's review.
pub proof fn law_review_names_apart(a: Seq<char>, b: Seq<char>)
    requires
        review_identifier(a) == review_identifier(b),
    ensures
        a == b,
{
    let p = "pr-review:"@;
    assert(a =~= review_identifier(a).skip(p.len() as int));
    assert(b =~= review_identifier(b).skip(p.len() as int));
}

/// The built-in prompt for feedback names the PR and its issue, and has the agent look
/// at that PR's comments, changes and checks.
pub proof fn law_feedback_prompt_names_the_pr(id: Seq<char>, title: Seq<char>, number: Seq<char>)
    ensures
        ({
            let p = default_pr_review_prompt(id, title, number);
            &&& holds(p, "PR #"@ + number + " for issue "@ + id + ": \""@ + title)
            &&& holds(p, number + " --comments` to see all review comments"@)
            &&& holds(p, "gh pr diff "@ + number)
            &&& holds(p, "gh pr checks "@ + number)
            &&& holds(p, number + " will be updated automatically when you push."@)
        }),
{
    let p = default_pr_review_prompt(id, title, number);
    let head = "PR #"@ + number + " for issue "@ + id + ": \""@ + title;
    let comments = " --comments` to see all review comments and discussion\n2. Run `gh pr diff "@;
    let diff = "` to see the current changes on this PR\n3. Run `gh pr checks "@;
    let last = " will be updated automatically when you push."@;
    let c1 = " --comments` to see all review comments"@;
    let c2 = " and discussion\n2. Run `"@;
    let c3 = "gh pr diff "@;
    let d1 = "` to see the current changes on this PR\n3. Run `"@;
    let d2 = "gh pr checks "@;
    assert(comments =~= c1 + (c2 + c3)) by {
        reveal_strlit(" --comments` to see all review comments and discussion\n2. Run `gh pr diff ");
        reveal_strlit(" --comments` to see all review comments");
        reveal_strlit(" and discussion\n2. Run `");
        reveal_strlit("gh pr diff ");
    }
    assert(diff =~= d1 + d2) by {
        reveal_strlit("` to see the current changes on this PR\n3. Run `gh pr checks ");
        reveal_strlit("` to see the current changes on this PR\n3. Run `");
        reveal_strlit("gh pr checks ");
    }
    let tail1 = number + diff + number + FEEDBACK_STEPS@ + number + last;
    let tail2 = diff + number + FEEDBACK_STEPS@ + number + last;
    let tail3 = FEEDBACK_STEPS@ + number + last;
    let top = head + FEEDBACK_START@;
    assert(p =~= top + number + comments + number + diff + number + FEEDBACK_STEPS@ + number + last);
    lemma_holds(p, seq![], head, FEEDBACK_START@ + number + comments + tail1);
    lemma_holds(p, top, number + c1, (c2 + c3) + tail1);
    lemma_holds(p, top + number + c1 + c2, c3 + number, tail2);
    lemma_holds(p, top + number + comments + number + d1, d2 + number, tail3);
    lemma_holds(
        p,
        top + number + comments + number + diff + number + FEEDBACK_STEPS@,
        number + last,
        seq![],
    );
}

/// A template for feedback sees the issue as it is, with the number of the PR besides.
pub proof fn law_extra_is_added(issue: IssueView, key: Seq<char>, value: Seq<char>)
    ensures
        ({
            let r = with_extra(issue, key, value);
            &&& r.extra == issue.extra + seq![(key, value)]
            &&& r.identifier == issue.identifier
            &&& r.title == issue.title
            &&& r.description == issue.description
            &&& r.status == issue.status
            &&& r.priority == issue.priority
            &&& r.url == issue.url
            &&& r.source == issue.source
            &&& r.workflow_id == issue.workflow_id
            &&& r.comments == issue.comments
        }),
{
    assert(with_extra(issue, key, value).extra =~= issue.extra + seq![(key, value)]);
}

} // verus!
