//! Pull requests that were opened before the orchestrator started.
use vstd::prelude::*;
use crate::collections::{has_key, StringMap};
use crate::domain::issue::{BlockerView, CommentView, Issue, IssueView};
use crate::domain::state::OrchestratorState;
use crate::domain::workflow::{key_of, WorkflowId};
use crate::json::{json_parsed, parse, Json, JsonView};
use crate::orchestrator::pull_request::head_branch;
use crate::text::{str_eq, trim, trimmed};

verus! {

/// An open PR, as an answer of `gh pr view` describes it: its number, its
/// title, and its branch. `None` for any other answer.
pub open spec fn found_pr(data: JsonView) -> Option<(u64, Seq<char>, Seq<char>)> {
    match (data.str_at("state"@), data.u64_at("number"@)) {
        (Some(state), Some(number)) => if state == "OPEN"@ {
            Some(
                (
                    number,
                    match data.str_at("title"@) {
                        Some(t) => t,
                        None => "(unknown)"@,
                    },
                    head_branch(data),
                ),
            )
        } else {
            None
        },
        _ => None,
    }
}

/// The issue of a PR that was found in a workspace.
pub open spec fn reconciled_issue(id: Seq<char>, title: Seq<char>, workflow: Seq<char>) -> IssueView {
    IssueView {
        identifier: id,
        title,
        description: None,
        status: seq![],
        priority: None,
        url: None,
        notion_page_id: None,
        blockers: Seq::<BlockerView>::empty(),
        source: "reconciled"@,
        extra: Seq::<(Seq<char>, Seq<char>)>::empty(),
        comments: Seq::<CommentView>::empty(),
        workflow_id: workflow,
    }
}

/// What the state becomes when a workspace has been asked for its PR.
pub open spec fn discovers(
    before: OrchestratorState,
    after: OrchestratorState,
    found: Option<(u64, Seq<char>, Seq<char>)>,
    id: Seq<char>,
    path: Seq<char>,
    workflow: Seq<char>,
) -> bool {
    match found {
        Some((number, title, branch)) => {
            &&& match after.open_prs.at(key_of(workflow, id)) {
                Some(p) => {
                    &&& p.issue.deep_view() == reconciled_issue(id, title, workflow)
                    &&& p.pr_number == number
                    &&& p.workspace_dir@ == path
                    &&& p.last_addressed_at is None
                    &&& p.workflow_id@ == workflow
                    &&& p.branch_name@ == branch
                },
                None => false,
            }
            &&& forall|k: Seq<char>|
                k != key_of(workflow, id) ==> #[trigger] after.open_prs.at(k) == before.open_prs.at(
                    k,
                )
            &&& after.running == before.running
            &&& after.retries == before.retries
            &&& after.completed == before.completed
            &&& after.tokens == before.tokens
        },
        None => after == before,
    }
}

/// Monitor the PR of a workspace, if the answer of `gh pr view` describes an
/// open one; whether it did.
pub fn discover(
    state: &mut OrchestratorState,
    data: &Json,
    issue_id: &str,
    path: &str,
    workflow_id: &WorkflowId,
) -> (r: bool)
    requires
        old(state).wf(),
    ensures
        final(state).wf(),
        r == (found_pr(data.deep_view()) is Some),
        discovers(
            *old(state),
            *final(state),
            found_pr(data.deep_view()),
            issue_id@,
            path@,
            workflow_id.0@,
        ),
{
    proof {
        reveal_strlit("");
        reveal_strlit("OPEN");
    }
    let pr_state = data.str_or("state", "");
    if !str_eq(pr_state, "OPEN") {
        return false;
    }
    match data.u64_at("number") {
        Some(number) => {
            let title = data.str_or("title", "(unknown)");
            let branch = data.str_or("headRefName", "");
            assert(branch@ =~= head_branch(data.deep_view()));
            let key = workflow_id.state_key(issue_id);
            let issue = Issue {
                identifier: issue_id.to_owned(),
                title: title.to_owned(),
                description: None,
                status: String::new(),
                priority: None,
                url: None,
                notion_page_id: None,
                blockers: Vec::new(),
                source: "reconciled".to_owned(),
                extra: StringMap::new(),
                comments: Vec::new(),
                workflow_id: workflow_id.0.clone(),
            };
            assert(issue.deep_view() =~= reconciled_issue(issue_id@, title@, workflow_id.0@)) by {
                assert(issue.blockers.deep_view() =~= Seq::<BlockerView>::empty());
                assert(issue.comments.deep_view() =~= Seq::<CommentView>::empty());
                assert(issue.extra.deep_view() =~= Seq::<(Seq<char>, Seq<char>)>::empty());
            }
            state.track_pr(
                key.as_str(),
                issue,
                number,
                path.to_owned(),
                workflow_id.0.as_str(),
                branch,
            );
            true
        },
        None => false,
    }
}

/// Whether the PR of an issue is monitored in a workflow, so that its workspace
/// need not be asked.
pub fn is_monitored(state: &OrchestratorState, issue_id: &str, workflow_id: &WorkflowId) -> (r: bool)
    ensures
        r == has_key(state.open_prs@, key_of(workflow_id.0@, issue_id@)),
{
    let key = workflow_id.state_key(issue_id);
    state.open_prs.contains_key(key.as_str())
}

/// Monitor the PR of a workspace, if it is not monitored already and the output
/// of `gh pr view` describes an open one; whether it did.
///
/// What another workflow monitors under the same identifier does not count.
pub fn discover_open_pr(
    state: &mut OrchestratorState,
    output: &str,
    issue_id: &str,
    path: &str,
    workflow_id: &WorkflowId,
) -> (r: bool)
    requires
        old(state).wf(),
    ensures
        final(state).wf(),
        ({
            let found = if has_key(old(state).open_prs@, key_of(workflow_id.0@, issue_id@)) {
                None
            } else {
                match json_parsed(trimmed(output@)) {
                    Ok(data) => found_pr(data),
                    Err(_) => None,
                }
            };
            &&& r == (found is Some)
            &&& discovers(*old(state), *final(state), found, issue_id@, path@, workflow_id.0@)
        }),
{
    if is_monitored(state, issue_id, workflow_id) {
        return false;
    }
    let text = trim(output);
    match parse(text.as_str()) {
        Ok(data) => discover(state, &data, issue_id, path, workflow_id),
        Err(_) => false,
    }
}

/// Only a PR that is open is found, with its number, its branch and its title, which
/// is "(unknown)" where the answer has none.
pub proof fn law_only_open_prs_are_found(data: JsonView, text: Seq<char>)
    ensures
        match found_pr(data) {
            Some((number, title, branch)) => {
                &&& data.get("state"@) == Some(JsonView::Str("OPEN"@))
                &&& data.get("number"@) is Some
                &&& data.get("number"@)->0 is Number
                &&& data.get("number"@)->0->Number_0.unsigned == Some(number)
                &&& data.get("title"@) == Some(JsonView::Str(text)) ==> title == text
                &&& data.get("title"@) is None ==> title == "(unknown)"@
                &&& data.get("headRefName"@) == Some(JsonView::Str(text)) ==> branch == text
                &&& data.get("headRefName"@) is None ==> branch.len() == 0
            },
            None => !(data.get("state"@) == Some(JsonView::Str("OPEN"@)) && data.get("number"@) is Some
                && data.get("number"@)->0 is Number
                && data.get("number"@)->0->Number_0.unsigned is Some),
        },
{
}

/// A PR that is found is monitored under the key of its issue in the workflow, as the
/// PR of that workspace, with feedback on it yet to be worked on; its issue is marked
/// as reconciled. Other PRs stay as they are.
pub proof fn law_found_pr_is_monitored(
    before: OrchestratorState,
    after: OrchestratorState,
    number: u64,
    title: Seq<char>,
    branch: Seq<char>,
    id: Seq<char>,
    path: Seq<char>,
    workflow: Seq<char>,
)
    requires
        discovers(before, after, Some((number, title, branch)), id, path, workflow),
    ensures
        ({
            let key = workflow + "/"@ + id;
            let p = after.open_prs.at(key);
            &&& p is Some
            &&& p->0.pr_number == number
            &&& p->0.branch_name@ == branch
            &&& p->0.workspace_dir@ == path
            &&& p->0.workflow_id@ == workflow
            &&& p->0.last_addressed_at is None
            &&& p->0.issue.identifier@ == id
            &&& p->0.issue.title@ == title
            &&& p->0.issue.source@ == "reconciled"@
            &&& p->0.issue.workflow_id@ == workflow
            &&& forall|k: Seq<char>|
                k != key ==> #[trigger] after.open_prs.at(k) == before.open_prs.at(k)
            &&& after.running == before.running
            &&& after.retries == before.retries
            &&& after.completed == before.completed
        }),
{
    let key = workflow + "/"@ + id;
    assert(key_of(workflow, id) == key);
    let v = after.open_prs.at(key)->0.issue.deep_view();
    assert(v == reconciled_issue(id, title, workflow));
    assert(v.identifier == id && v.title == title && v.workflow_id == workflow && v.source
        == "reconciled"@);
}

/// Where no PR is found, nothing changes.
pub proof fn law_nothing_found_changes_nothing(
    before: OrchestratorState,
    after: OrchestratorState,
    id: Seq<char>,
    path: Seq<char>,
    workflow: Seq<char>,
)
    requires
        discovers(before, after, None, id, path, workflow),
    ensures
        after == before,
{
}

} // verus!
