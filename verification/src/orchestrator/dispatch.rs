//! Which issues are dispatched, and in which order.
use vstd::prelude::*;
use crate::collections::{has_key, StringMap};
use crate::config::schema::ServiceConfig;
use crate::domain::epic::{EpicGraph, TaskState, TaskStateView, TaskStates, pending, pr_branches};
use crate::domain::issue::Issue;
use crate::domain::state::{
    count_running, has_succeeded, CompletedEntry, OpenPr, OrchestratorState, RunningEntry,
};
use crate::domain::workflow::{key_of, WorkflowId};
use crate::text::str_eq;

verus! {

/// Result of eligibility check, including epic-aware base_branch.
#[derive(Debug)]
pub struct DispatchDecision {
    pub eligible: bool,
    pub base_branch: String,
}

/// The branch of the PR that a workflow has open for a task: of the one listed
/// last, should there be several.
pub open spec fn open_branch(
    prs: Seq<(String, OpenPr)>,
    workflow: Seq<char>,
    task: Seq<char>,
) -> Option<Seq<char>>
    decreases prs.len(),
{
    if prs.len() == 0 {
        None
    } else if prs.last().1.workflow_id@ == workflow && prs.last().1.issue.identifier@ == task {
        Some(prs.last().1.branch_name@)
    } else {
        open_branch(prs.drop_last(), workflow, task)
    }
}

/// A session of the workflow ended successfully on the task.
pub open spec fn finished(s: Seq<CompletedEntry>, workflow: Seq<char>, task: Seq<char>) -> bool {
    exists|i: int| 0 <= i < s.len() && finished_by(#[trigger] s[i], workflow, task)
}

/// The session belonged to the workflow and ended successfully on the task.
pub open spec fn finished_by(e: CompletedEntry, workflow: Seq<char>, task: Seq<char>) -> bool {
    &&& e.workflow_id@ == workflow
    &&& e.success
    &&& e.issue is Some
    &&& e.issue->0.identifier@ == task
}

/// A session of the workflow runs on the task.
pub open spec fn at_work(s: Seq<(String, RunningEntry)>, workflow: Seq<char>, task: Seq<char>) -> bool {
    exists|i: int| 0 <= i < s.len() && at_work_in(#[trigger] s[i].1, workflow, task)
}

/// The session belongs to the workflow and runs on the task.
pub open spec fn at_work_in(e: RunningEntry, workflow: Seq<char>, task: Seq<char>) -> bool {
    e.workflow_id@ == workflow && e.issue.identifier@ == task
}

/// The state of each task of a workflow: an open PR counts for more than a
/// success, and a success for more than a running session.
pub open spec fn task_states(state: OrchestratorState, workflow: Seq<char>) -> TaskStates {
    |task: Seq<char>|
        match open_branch(state.open_prs@, workflow, task) {
            Some(branch) => Some(TaskStateView::HasPr(branch)),
            None => if finished(state.completed@, workflow, task) {
                Some(TaskStateView::Completed)
            } else if at_work(state.running@, workflow, task) {
                Some(TaskStateView::InProgress)
            } else {
                None
            },
        }
}

/// Build a map of task_identifier to TaskState from orchestrator state.
///
/// Filters to the given workflow so that identifiers from other workflows
/// don't leak into the epic dependency graph.
///
/// Priority ordering: HasPr > Completed > InProgress. A task with a tracked
/// PR is always reported as HasPr, even if a review worker is running on it.
pub fn build_task_states(state: &OrchestratorState, workflow_id: &WorkflowId) -> (r: StringMap<
    TaskState,
>)
    ensures
        r.wf(),
        forall|task: Seq<char>| #[trigger]
            r.at(task).deep_view() == task_states(*state, workflow_id.0@)(task),
{
    let ghost wf = workflow_id.0@;
    let mut out: StringMap<TaskState> = StringMap::new();
    let mut i: usize = 0;
    while i < state.open_prs.entries.len()
        invariant
            i <= state.open_prs@.len(),
            wf == workflow_id.0@,
            out.wf(),
            forall|t: Seq<char>| #[trigger]
                out.at(t).deep_view() == match open_branch(state.open_prs@.take(i as int), wf, t) {
                    Some(b) => Some(TaskStateView::HasPr(b)),
                    None => None,
                },
        decreases state.open_prs@.len() - i,
    {
        let pr = &state.open_prs.entries[i].1;
        let ghost o0 = out;
        assert(state.open_prs@.take(i + 1).drop_last() =~= state.open_prs@.take(i as int));
        if str_eq(pr.workflow_id.as_str(), workflow_id.0.as_str()) {
            out.insert(pr.issue.identifier.clone(), TaskState::HasPr(pr.branch_name.clone()));
        }
        proof {
            assert forall|t: Seq<char>| #[trigger]
                out.at(t).deep_view() == match open_branch(
                    state.open_prs@.take(i + 1),
                    wf,
                    t,
                ) {
                    Some(b) => Some(TaskStateView::HasPr(b)),
                    None => None,
                } by {
                let _ = o0.at(t).deep_view();
            }
        }
        i += 1;
    }
    assert(state.open_prs@.take(i as int) =~= state.open_prs@);
    let ghost with_prs = out;
    i = 0;
    while i < state.completed.len()
        invariant
            i <= state.completed@.len(),
            wf == workflow_id.0@,
            out.wf(),
            forall|t: Seq<char>| #[trigger]
                out.at(t).deep_view() == match with_prs.at(t).deep_view() {
                    Some(s) => Some(s),
                    None => if finished(state.completed@.take(i as int), wf, t) {
                        Some(TaskStateView::Completed)
                    } else {
                        None
                    },
                },
        decreases state.completed@.len() - i,
    {
        let e = &state.completed[i];
        let ghost o0 = out;
        let ghost prev = state.completed@.take(i as int);
        let ghost next = state.completed@.take(i + 1);
        if e.success && str_eq(e.workflow_id.as_str(), workflow_id.0.as_str()) {
            if let Some(issue) = &e.issue {
                if !out.contains_key(issue.identifier.as_str()) {
                    out.insert(issue.identifier.clone(), TaskState::Completed);
                }
            }
        }
        proof {
            assert forall|t: Seq<char>| finished(next, wf, t) == (finished(prev, wf, t)
                || finished_by(*e, wf, t)) by {
                if finished(prev, wf, t) {
                    let k = choose|k: int| 0 <= k < prev.len() && finished_by(#[trigger] prev[k], wf, t);
                    assert(next[k] == prev[k]);
                }
                if finished_by(*e, wf, t) {
                    assert(next[i as int] == *e);
                }
                if finished(next, wf, t) {
                    let k = choose|k: int| 0 <= k < next.len() && finished_by(#[trigger] next[k], wf, t);
                    if k < i {
                        assert(prev[k] == next[k]);
                    }
                }
            }
            assert forall|t: Seq<char>| #[trigger]
                out.at(t).deep_view() == match with_prs.at(t).deep_view() {
                    Some(s) => Some(s),
                    None => if finished(next, wf, t) {
                        Some(TaskStateView::Completed)
                    } else {
                        None
                    },
                } by {
                let _ = o0.at(t).deep_view();
                assert(finished(next, wf, t) == (finished(prev, wf, t) || finished_by(*e, wf, t)));
                assert(o0.at(t).deep_view() == match with_prs.at(t).deep_view() {
                    Some(s) => Some(s),
                    None => if finished(prev, wf, t) {
                        Some(TaskStateView::Completed)
                    } else {
                        None
                    },
                });
            }
        }
        i += 1;
    }
    assert(state.completed@.take(i as int) =~= state.completed@);
    let ghost with_done = out;
    i = 0;
    while i < state.running.entries.len()
        invariant
            i <= state.running@.len(),
            wf == workflow_id.0@,
            out.wf(),
            forall|t: Seq<char>| #[trigger]
                out.at(t).deep_view() == match with_done.at(t).deep_view() {
                    Some(s) => Some(s),
                    None => if at_work(state.running@.take(i as int), wf, t) {
                        Some(TaskStateView::InProgress)
                    } else {
                        None
                    },
                },
        decreases state.running@.len() - i,
    {
        let e = &state.running.entries[i].1;
        let ghost o0 = out;
        let ghost prev = state.running@.take(i as int);
        let ghost next = state.running@.take(i + 1);
        if str_eq(e.workflow_id.as_str(), workflow_id.0.as_str()) {
            if !out.contains_key(e.issue.identifier.as_str()) {
                out.insert(e.issue.identifier.clone(), TaskState::InProgress);
            }
        }
        proof {
            assert forall|t: Seq<char>| at_work(next, wf, t) == (at_work(prev, wf, t)
                || at_work_in(*e, wf, t)) by {
                if at_work(prev, wf, t) {
                    let k = choose|k: int|
                        0 <= k < prev.len() && at_work_in(#[trigger] prev[k].1, wf, t);
                    assert(next[k].1 == prev[k].1);
                }
                if at_work_in(*e, wf, t) {
                    assert(next[i as int].1 == *e);
                }
                if at_work(next, wf, t) {
                    let k = choose|k: int|
                        0 <= k < next.len() && at_work_in(#[trigger] next[k].1, wf, t);
                    if k < i {
                        assert(prev[k].1 == next[k].1);
                    }
                }
            }
            assert forall|t: Seq<char>| #[trigger]
                out.at(t).deep_view() == match with_done.at(t).deep_view() {
                    Some(s) => Some(s),
                    None => if at_work(next, wf, t) {
                        Some(TaskStateView::InProgress)
                    } else {
                        None
                    },
                } by {
                assert(at_work(next, wf, t) == (at_work(prev, wf, t) || at_work_in(*e, wf, t)));
                assert(o0.at(t).deep_view() == match with_done.at(t).deep_view() {
                    Some(s) => Some(s),
                    None => if at_work(prev, wf, t) {
                        Some(TaskStateView::InProgress)
                    } else {
                        None
                    },
                });
            }
        }
        i += 1;
    }
    assert(state.running@.take(i as int) =~= state.running@);
    proof {
        assert forall|task: Seq<char>| #[trigger]
            out.at(task).deep_view() == task_states(*state, wf)(task) by {
            let _ = with_done.at(task).deep_view();
            let _ = with_prs.at(task).deep_view();
        }
    }
    out
}

/// The issue runs, waits to be tried again, or is done.
pub open spec fn is_taken(state: OrchestratorState, key: Seq<char>) -> bool {
    ||| has_key(state.running@, key)
    ||| has_key(state.retries@, key)
    ||| has_succeeded(state.completed@, key)
}

/// The workflow, and all workflows together, may start one more session.
pub open spec fn has_room(
    state: OrchestratorState,
    workflow: Seq<char>,
    max: usize,
    global_max: Option<usize>,
) -> bool {
    &&& count_running(state.running@, workflow) < max
    &&& global_max is Some ==> state.running@.len() < global_max->0
}

/// Whether an issue is dispatched, and on which branch.
pub open spec fn dispatch_decision(
    issue: Issue,
    state: OrchestratorState,
    config: ServiceConfig,
    workflow: Seq<char>,
    global_max: Option<usize>,
    graph: Option<EpicGraph>,
) -> (bool, Seq<char>) {
    let default_branch = config.workspace.default_branch@;
    if is_taken(state, key_of(workflow, issue.identifier@)) || !has_room(
        state,
        workflow,
        config.agent.max_concurrent_agents,
        global_max,
    ) {
        (false, default_branch)
    } else {
        match graph {
            Some(g) => {
                let v = g.verdict(issue.identifier@, task_states(state, workflow), default_branch);
                (v.0, v.1)
            },
            None => (issue.blockers@.len() == 0, default_branch),
        }
    }
}

proof fn lemma_same_states(deps: Seq<String>, f: TaskStates, g: TaskStates)
    requires
        forall|t: Seq<char>| #[trigger] f(t) == g(t),
    ensures
        pending(deps, f) == pending(deps, g),
        pr_branches(deps, f) == pr_branches(deps, g),
    decreases deps.len(),
{
    if deps.len() > 0 {
        lemma_same_states(deps.drop_last(), f, g);
        assert(f(deps.last()@) == g(deps.last()@));
    }
}

/// Check if an issue is eligible to be dispatched.
/// Returns a `DispatchDecision` with eligibility and the base branch for epic workflows.
pub fn check_eligible(
    issue: &Issue,
    state: &OrchestratorState,
    config: &ServiceConfig,
    workflow_id: &WorkflowId,
    global_max_agents: Option<usize>,
    epic_graph: Option<&EpicGraph>,
) -> (r: DispatchDecision)
    requires
        epic_graph is Some ==> epic_graph->0.wf(),
    ensures
        (r.eligible, r.base_branch@) == dispatch_decision(
            *issue,
            *state,
            *config,
            workflow_id.0@,
            global_max_agents,
            match epic_graph {
                Some(g) => Some(*g),
                None => None,
            },
        ),
{
    let default_branch = config.workspace.default_branch.clone();
    let state_key = workflow_id.state_key(issue.identifier.as_str());
    let taken = state.is_running(state_key.as_str()) || state.is_in_retry(state_key.as_str())
        || state.is_completed_successfully(state_key.as_str());
    if taken {
        return DispatchDecision { eligible: false, base_branch: default_branch };
    }
    if state.running_count_for_workflow(workflow_id.0.as_str())
        >= config.agent.max_concurrent_agents {
        return DispatchDecision { eligible: false, base_branch: default_branch };
    }
    if let Some(global_max) = global_max_agents {
        if state.running_count() >= global_max {
            return DispatchDecision { eligible: false, base_branch: default_branch };
        }
    }
    match epic_graph {
        Some(graph) => {
            let states = build_task_states(state, workflow_id);
            let e = graph.check_eligibility(
                issue.identifier.as_str(),
                &states,
                default_branch.as_str(),
            );
            proof {
                let f = crate::domain::epic::states_in(states@);
                let g = task_states(*state, workflow_id.0@);
                assert forall|t: Seq<char>| #[trigger] f(t) == g(t) by {
                    assert(states.at(t).deep_view() == g(t));
                }
                lemma_same_states(graph.deps(issue.identifier@), f, g);
            }
            if e.eligible {
                DispatchDecision { eligible: true, base_branch: e.base_branch }
            } else {
                DispatchDecision { eligible: false, base_branch: default_branch }
            }
        },
        None => DispatchDecision {
            eligible: issue.blockers.len() == 0,
            base_branch: default_branch,
        },
    }
}

/// Whether an issue is dispatched, for callers that need no branch.
pub fn is_eligible(
    issue: &Issue,
    state: &OrchestratorState,
    config: &ServiceConfig,
    workflow_id: &WorkflowId,
    global_max_agents: Option<usize>,
) -> (r: bool)
    ensures
        r == (!is_taken(*state, key_of(workflow_id.0@, issue.identifier@)) && has_room(
            *state,
            workflow_id.0@,
            config.agent.max_concurrent_agents,
            global_max_agents,
        ) && issue.blockers@.len() == 0),
{
    check_eligible(issue, state, config, workflow_id, global_max_agents, None).eligible
}

/// How urgent a priority is: Urgent, High, Medium, Low, anything else, none.
pub open spec fn rank(priority: Option<Seq<char>>) -> u8 {
    match priority {
        Some(p) => if p == "Urgent"@ {
            5
        } else if p == "High"@ {
            4
        } else if p == "Medium"@ {
            3
        } else if p == "Low"@ {
            2
        } else {
            1
        },
        None => 0,
    }
}

/// How urgent a priority is.
pub fn priority_rank(priority: Option<&str>) -> (r: u8)
    ensures
        r == rank(
            match priority {
                Some(p) => Some(p@),
                None => None,
            },
        ),
{
    match priority {
        Some(p) => if str_eq(p, "Urgent") {
            5
        } else if str_eq(p, "High") {
            4
        } else if str_eq(p, "Medium") {
            3
        } else if str_eq(p, "Low") {
            2
        } else {
            1
        },
        None => 0,
    }
}

/// How urgent an issue is.
pub open spec fn urgency(issue: Issue) -> u8 {
    rank(issue.priority.deep_view())
}

fn urgency_of(issue: &Issue) -> (r: u8)
    ensures
        r == urgency(*issue),
{
    match &issue.priority {
        Some(p) => priority_rank(Some(p.as_str())),
        None => priority_rank(None),
    }
}

/// The issues of one urgency, in order.
pub open spec fn of_urgency(s: Seq<Issue>, r: u8) -> Seq<Issue>
    decreases s.len(),
{
    if s.len() == 0 {
        seq![]
    } else if urgency(s.last()) == r {
        of_urgency(s.drop_last(), r).push(s.last())
    } else {
        of_urgency(s.drop_last(), r)
    }
}

/// No issue stands before a more urgent one.
pub open spec fn most_urgent_first(s: Seq<Issue>) -> bool {
    forall|i: int, j: int| 0 <= i < j < s.len() ==> urgency(#[trigger] s[i]) >= urgency(#[trigger] s[j])
}

proof fn lemma_of_urgency_concat(a: Seq<Issue>, b: Seq<Issue>, r: u8)
    ensures
        of_urgency(a + b, r) == of_urgency(a, r) + of_urgency(b, r),
    decreases b.len(),
{
    if b.len() == 0 {
        assert(a + b =~= a);
        assert(of_urgency(a, r) + of_urgency(b, r) =~= of_urgency(a, r));
    } else {
        lemma_of_urgency_concat(a, b.drop_last(), r);
        assert((a + b).drop_last() =~= a + b.drop_last());
        assert(of_urgency(a + b, r) =~= of_urgency(a, r) + of_urgency(b, r));
    }
}

/// Exchanging two neighbours of different urgency leaves the order within each
/// urgency as it is.
proof fn lemma_exchange(s: Seq<Issue>, j: int, r: u8)
    requires
        0 < j < s.len(),
        urgency(s[j - 1]) != urgency(s[j]),
    ensures
        of_urgency(s.remove(j).insert(j - 1, s[j]), r) == of_urgency(s, r),
{
    reveal_with_fuel(of_urgency, 3);
    let t = s.remove(j).insert(j - 1, s[j]);
    let a = s.take(j - 1);
    let b = s.skip(j + 1);
    let pair = seq![s[j - 1], s[j]];
    let swapped = seq![s[j], s[j - 1]];
    assert(s =~= a + pair + b);
    assert(t =~= a + swapped + b);
    lemma_of_urgency_concat(a + pair, b, r);
    lemma_of_urgency_concat(a, pair, r);
    lemma_of_urgency_concat(a + swapped, b, r);
    lemma_of_urgency_concat(a, swapped, r);
    assert(pair.drop_last() =~= seq![s[j - 1]]);
    assert(swapped.drop_last() =~= seq![s[j]]);
    assert(seq![s[j - 1]].drop_last() =~= seq![]);
    assert(seq![s[j]].drop_last() =~= seq![]);
    assert(of_urgency(pair, r) =~= of_urgency(swapped, r));
}

/// Sort candidate issues by priority (higher priority first); issues of one
/// priority keep their order.
/// Priority mapping: Urgent > High > Medium > Low > other > None
pub fn sort_candidates(issues: &mut Vec<Issue>)
    ensures
        most_urgent_first(final(issues)@),
        forall|r: u8| #[trigger] of_urgency(final(issues)@, r) == of_urgency(old(issues)@, r),
        final(issues)@.len() == old(issues)@.len(),
{
    let ghost start = issues@;
    let mut i: usize = 0;
    while i < issues.len()
        invariant
            i <= issues@.len(),
            issues@.len() == start.len(),
            most_urgent_first(issues@.take(i as int)),
            forall|r: u8| #[trigger] of_urgency(issues@, r) == of_urgency(start, r),
        decreases issues@.len() - i,
    {
        let mut j: usize = i;
        assert forall|a: int, b: int| 0 <= a < b < i implies urgency(#[trigger] issues@[a])
            >= urgency(#[trigger] issues@[b]) by {
            let t = issues@.take(i as int);
            assert(urgency(t[a]) >= urgency(t[b]));
        }
        while j > 0 && urgency_of(&issues[j - 1]) < urgency_of(&issues[j])
            invariant
                j <= i < issues@.len(),
                issues@.len() == start.len(),
                forall|a: int, b: int|
                    0 <= a < b <= i && a != j && b != j ==> urgency(#[trigger] issues@[a])
                        >= urgency(#[trigger] issues@[b]),
                forall|b: int| j < b <= i ==> urgency(issues@[j as int]) > urgency(#[trigger] issues@[b]),
                forall|r: u8| #[trigger] of_urgency(issues@, r) == of_urgency(start, r),
            decreases j,
        {
            let ghost before = issues@;
            let x = issues.remove(j);
            issues.insert(j - 1, x);
            proof {
                assert(issues@ =~= before.remove(j as int).insert(j - 1, before[j as int]));
                assert forall|r: u8| #[trigger] of_urgency(issues@, r) == of_urgency(start, r) by {
                    lemma_exchange(before, j as int, r);
                }
            }
            j -= 1;
        }
        proof {
            let t = issues@.take(i + 1);
            assert forall|a: int, b: int| 0 <= a < b < t.len() implies urgency(#[trigger] t[a])
                >= urgency(#[trigger] t[b]) by {
                if b == j {
                    if a < j - 1 {
                        assert(urgency(issues@[a]) >= urgency(issues@[j - 1]));
                    }
                }
            }
        }
        i += 1;
    }
    assert(issues@.take(i as int) =~= issues@);
}

/// Where an issue is dispatched, its workflow and all workflows together stay
/// within their limits once its session has started.
pub proof fn law_dispatch_keeps_limits(
    issue: Issue,
    before: OrchestratorState,
    after: OrchestratorState,
    config: ServiceConfig,
    workflow: Seq<char>,
    global_max: Option<usize>,
    graph: Option<EpicGraph>,
)
    requires
        dispatch_decision(issue, before, config, workflow, global_max, graph).0,
        after.running@.len() == before.running@.len() + 1,
        after.running@.drop_last() == before.running@,
    ensures
        count_running(after.running@, workflow) <= config.agent.max_concurrent_agents,
        global_max is Some ==> after.running@.len() <= global_max->0,
{
}

/// An issue that runs, waits to be tried again or is done is never dispatched,
/// whatever the limits and the graph.
pub proof fn law_taken_issue_not_dispatched(
    issue: Issue,
    state: OrchestratorState,
    config: ServiceConfig,
    workflow: Seq<char>,
    global_max: Option<usize>,
    graph: Option<EpicGraph>,
)
    requires
        is_taken(state, key_of(workflow, issue.identifier@)),
    ensures
        !dispatch_decision(issue, state, config, workflow, global_max, graph).0,
{
}

proof fn lemma_open_branch(prs: Seq<(String, OpenPr)>, workflow: Seq<char>, task: Seq<char>)
    ensures
        open_branch(prs, workflow, task) is None <==> forall|i: int|
            0 <= i < prs.len() ==> !((#[trigger] prs[i]).1.workflow_id@ == workflow
                && prs[i].1.issue.identifier@ == task),
        open_branch(prs, workflow, task) is Some ==> exists|i: int|
            0 <= i < prs.len() && (#[trigger] prs[i]).1.workflow_id@ == workflow
                && prs[i].1.issue.identifier@ == task && prs[i].1.branch_name@ == open_branch(
                prs,
                workflow,
                task,
            )->0,
    decreases prs.len(),
{
    if prs.len() > 0 {
        let before = prs.drop_last();
        lemma_open_branch(before, workflow, task);
        assert(forall|i: int| 0 <= i < before.len() ==> #[trigger] before[i] == prs[i]);
        assert(prs.last() == prs[prs.len() - 1]);
        if open_branch(before, workflow, task) is Some {
            let i = choose|i: int|
                0 <= i < before.len() && (#[trigger] before[i]).1.workflow_id@ == workflow
                    && before[i].1.issue.identifier@ == task && before[i].1.branch_name@
                    == open_branch(before, workflow, task)->0;
            assert(prs[i] == before[i]);
        } else if open_branch(prs, workflow, task) is None {
            assert forall|i: int| 0 <= i < prs.len() implies !((#[trigger] prs[i]).1.workflow_id@
                == workflow && prs[i].1.issue.identifier@ == task) by {
                if i < before.len() {
                    assert(before[i] == prs[i]);
                }
            }
        }
    }
}

/// What the state of a task rests on: a pull request that the workflow has open for
/// it, with that branch; a session of the workflow that ended on it with success;
/// or a session of the workflow that runs on it. Sessions that failed, and those of
/// other workflows, give no state.
pub proof fn law_task_states_have_a_reason(
    state: OrchestratorState,
    workflow: Seq<char>,
    task: Seq<char>,
)
    ensures
        match task_states(state, workflow)(task) {
            Some(TaskStateView::HasPr(branch)) => exists|i: int|
                0 <= i < state.open_prs@.len() && (#[trigger] state.open_prs@[i]).1.workflow_id@
                    == workflow && state.open_prs@[i].1.issue.identifier@ == task
                    && state.open_prs@[i].1.branch_name@ == branch,
            Some(TaskStateView::Completed) => exists|i: int|
                0 <= i < state.completed@.len() && (#[trigger] state.completed@[i]).workflow_id@
                    == workflow && state.completed@[i].success && state.completed@[i].issue is Some
                    && state.completed@[i].issue->0.identifier@ == task,
            Some(TaskStateView::InProgress) => exists|i: int|
                0 <= i < state.running@.len() && (#[trigger] state.running@[i]).1.workflow_id@
                    == workflow && state.running@[i].1.issue.identifier@ == task,
            Some(_) => false,
            None => true,
        },
{
    lemma_open_branch(state.open_prs@, workflow, task);
    match task_states(state, workflow)(task) {
        Some(TaskStateView::Completed) => {
            let s = state.completed@;
            let i = choose|i: int| 0 <= i < s.len() && finished_by(#[trigger] s[i], workflow, task);
            assert(s[i].success);
        },
        Some(TaskStateView::InProgress) => {
            let s = state.running@;
            let i = choose|i: int| 0 <= i < s.len() && at_work_in(#[trigger] s[i].1, workflow, task);
            assert(s[i].1.issue.identifier@ == task);
        },
        _ => {},
    }
}

/// A task whose pull request the workflow has open has that state, whatever else
/// happened to it; without one, a session that ended on it with success makes it
/// completed; and without either, a running session makes it one in progress.
pub proof fn law_task_states_rank(
    state: OrchestratorState,
    workflow: Seq<char>,
    task: Seq<char>,
)
    ensures
        ({
            let s = task_states(state, workflow)(task);
            let open = exists|i: int|
                0 <= i < state.open_prs@.len() && (#[trigger] state.open_prs@[i]).1.workflow_id@
                    == workflow && state.open_prs@[i].1.issue.identifier@ == task;
            let done = exists|i: int|
                0 <= i < state.completed@.len() && (#[trigger] state.completed@[i]).workflow_id@
                    == workflow && state.completed@[i].success && state.completed@[i].issue is Some
                    && state.completed@[i].issue->0.identifier@ == task;
            let busy = exists|i: int|
                0 <= i < state.running@.len() && (#[trigger] state.running@[i]).1.workflow_id@
                    == workflow && state.running@[i].1.issue.identifier@ == task;
            &&& open ==> s is Some && s->0 is HasPr
            &&& !open && done ==> s == Some(TaskStateView::Completed)
            &&& !open && !done && busy ==> s == Some(TaskStateView::InProgress)
            &&& !open && !done && !busy ==> s is None
        }),
{
    lemma_open_branch(state.open_prs@, workflow, task);
    let done = state.completed@;
    let busy = state.running@;
    if finished(done, workflow, task) {
        let i = choose|i: int| 0 <= i < done.len() && finished_by(#[trigger] done[i], workflow, task);
        assert(done[i].success && done[i].workflow_id@ == workflow);
    } else {
        assert forall|i: int| 0 <= i < done.len() implies !((#[trigger] done[i]).workflow_id@
            == workflow && done[i].success && done[i].issue is Some && done[i].issue->0.identifier@
            == task) by {
            assert(!finished_by(done[i], workflow, task));
        }
    }
    if at_work(busy, workflow, task) {
        let i = choose|i: int| 0 <= i < busy.len() && at_work_in(#[trigger] busy[i].1, workflow, task);
        assert(busy[i].1.workflow_id@ == workflow);
    } else {
        assert forall|i: int| 0 <= i < busy.len() implies !((#[trigger] busy[i]).1.workflow_id@
            == workflow && busy[i].1.issue.identifier@ == task) by {
            assert(!at_work_in(busy[i].1, workflow, task));
        }
    }
}

/// A task with a blocker that has no open pull request and no successful session in
/// the workflow is not dispatched, however many sessions failed on that blocker.
pub proof fn law_unfinished_blocker_holds_back(
    issue: Issue,
    state: OrchestratorState,
    config: ServiceConfig,
    workflow: Seq<char>,
    global_max: Option<usize>,
    graph: EpicGraph,
    blocker: Seq<char>,
)
    requires
        graph.upstream(issue.identifier@).contains(blocker),
        forall|i: int|
            0 <= i < state.open_prs@.len() ==> !((#[trigger] state.open_prs@[i]).1.workflow_id@
                == workflow && state.open_prs@[i].1.issue.identifier@ == blocker),
        forall|i: int|
            0 <= i < state.completed@.len() ==> !((#[trigger] state.completed@[i]).workflow_id@
                == workflow && state.completed@[i].success && state.completed@[i].issue is Some
                && state.completed@[i].issue->0.identifier@ == blocker),
    ensures
        !dispatch_decision(issue, state, config, workflow, global_max, Some(graph)).0,
{
    law_task_states_rank(state, workflow, blocker);
    let states = task_states(state, workflow);
    crate::domain::epic::law_only_settled_blockers_let_through(
        graph,
        issue.identifier@,
        states,
        config.workspace.default_branch@,
    );
}

/// An issue is dispatched if and only if no session runs under its key, none waits
/// there to be tried again and none ended there with success; its workflow and all
/// workflows together may run one more; and nothing blocks it: by the graph, where
/// there is one, and by its own list otherwise.
pub proof fn law_dispatched_exactly_when_free(
    issue: Issue,
    state: OrchestratorState,
    config: ServiceConfig,
    workflow: Seq<char>,
    global_max: Option<usize>,
    graph: Option<EpicGraph>,
)
    ensures
        ({
            let key = workflow + "/"@ + issue.identifier@;
            let free = {
                &&& forall|i: int| 0 <= i < state.running@.len() ==> (#[trigger] state.running@[i]).0@
                    != key
                &&& forall|i: int| 0 <= i < state.retries@.len() ==> (#[trigger] state.retries@[i]).0@
                    != key
                &&& forall|i: int|
                    0 <= i < state.completed@.len() ==> !((#[trigger] state.completed@[i]).issue_id@
                        == key && state.completed@[i].success)
            };
            let room = {
                &&& count_running(state.running@, workflow) < config.agent.max_concurrent_agents
                &&& global_max is Some ==> state.running@.len() < global_max->0
            };
            let open = match graph {
                Some(g) => forall|u: Seq<char>| #[trigger]
                    g.upstream(issue.identifier@).contains(u) ==> {
                        let s = task_states(state, workflow)(u);
                        s == Some(TaskStateView::Completed) || s == Some(TaskStateView::Cancelled)
                            || (s is Some && s->0 is HasPr)
                    },
                None => issue.blockers@.len() == 0,
            };
            dispatch_decision(issue, state, config, workflow, global_max, graph).0 <==> free && room
                && open
        }),
{
    let key = workflow + "/"@ + issue.identifier@;
    assert(key_of(workflow, issue.identifier@) == key);
    if has_key(state.running@, key) {
        let i = choose|i: int| 0 <= i < state.running@.len() && (#[trigger] state.running@[i]).0@ == key;
        assert(state.running@[i].0@ == key);
    }
    if has_key(state.retries@, key) {
        let i = choose|i: int| 0 <= i < state.retries@.len() && (#[trigger] state.retries@[i]).0@ == key;
        assert(state.retries@[i].0@ == key);
    }
    if let Some(g) = graph {
        crate::domain::epic::law_only_settled_blockers_let_through(
            g,
            issue.identifier@,
            task_states(state, workflow),
            config.workspace.default_branch@,
        );
    }
}

/// Without a graph, work starts from the default branch; with one, from the branch
/// of a blocker's pull request where exactly one blocker has one, and otherwise
/// from the default branch as well.
pub proof fn law_base_branch(
    issue: Issue,
    state: OrchestratorState,
    config: ServiceConfig,
    workflow: Seq<char>,
    global_max: Option<usize>,
    graph: Option<EpicGraph>,
)
    ensures
        ({
            let d = dispatch_decision(issue, state, config, workflow, global_max, graph);
            &&& graph is None ==> d.1 == config.workspace.default_branch@
            &&& !d.0 ==> d.1 == config.workspace.default_branch@
            &&& graph matches Some(g) ==> d.1 == config.workspace.default_branch@ || exists|
                i: int,
            |
                0 <= i < g.deps(issue.identifier@).len() && task_states(state, workflow)(
                    (#[trigger] g.deps(issue.identifier@)[i])@,
                ) == Some(TaskStateView::HasPr(d.1))
        }),
{
    if let Some(g) = graph {
        lemma_branch_of_some(g.deps(issue.identifier@), task_states(state, workflow));
    }
}

proof fn lemma_branch_of_some(deps: Seq<String>, states: TaskStates)
    ensures
        forall|k: int|
            0 <= k < pr_branches(deps, states).len() ==> exists|i: int|
                0 <= i < deps.len() && states((#[trigger] deps[i])@) == Some(
                    TaskStateView::HasPr(#[trigger] pr_branches(deps, states)[k]),
                ),
    decreases deps.len(),
{
    if deps.len() > 0 {
        let before = deps.drop_last();
        lemma_branch_of_some(before, states);
        let b = pr_branches(before, states);
        let all = pr_branches(deps, states);
        assert forall|k: int| 0 <= k < all.len() implies exists|i: int|
            0 <= i < deps.len() && states((#[trigger] deps[i])@) == Some(
                TaskStateView::HasPr(#[trigger] all[k]),
            ) by {
            if k < b.len() {
                assert(b[k] == all[k]);
                let i = choose|i: int|
                    0 <= i < before.len() && states((#[trigger] before[i])@) == Some(
                        TaskStateView::HasPr(b[k]),
                    );
                assert(deps[i] == before[i]);
            } else {
                assert(deps[deps.len() - 1] == deps.last());
            }
        }
    }
}

/// Urgent goes before High, High before Medium, Medium before Low, Low before any
/// other priority, and any priority before none.
pub proof fn law_priorities_in_order(other: Seq<char>)
    requires
        other != "Urgent"@,
        other != "High"@,
        other != "Medium"@,
        other != "Low"@,
    ensures
        rank(Some("Urgent"@)) > rank(Some("High"@)),
        rank(Some("High"@)) > rank(Some("Medium"@)),
        rank(Some("Medium"@)) > rank(Some("Low"@)),
        rank(Some("Low"@)) > rank(Some(other)),
        rank(Some(other)) > rank(None),
{
    reveal_strlit("Urgent");
    reveal_strlit("High");
    reveal_strlit("Medium");
    reveal_strlit("Low");
    assert("Urgent"@.len() == 6 && "High"@.len() == 4 && "Medium"@.len() == 6 && "Low"@.len() == 3);
    assert("Urgent"@[0] == 'U' && "Medium"@[0] == 'M');
}

/// Sorted candidates are the same candidates, and one that comes earlier has no
/// lower priority.
pub proof fn law_sorted_candidates(before: Seq<Issue>, after: Seq<Issue>)
    requires
        most_urgent_first(after),
        forall|r: u8| #[trigger] of_urgency(after, r) == of_urgency(before, r),
    ensures
        after.to_multiset() == before.to_multiset(),
        forall|i: int, j: int|
            0 <= i < j < after.len() ==> rank((#[trigger] after[i]).priority.deep_view()) >= rank(
                (#[trigger] after[j]).priority.deep_view(),
            ),
{
    assert forall|x: Issue| #[trigger] after.to_multiset().count(x) == before.to_multiset().count(x) by {
        lemma_counted_by_urgency(after, x);
        lemma_counted_by_urgency(before, x);
        assert(of_urgency(after, urgency(x)) == of_urgency(before, urgency(x)));
    }
    assert(after.to_multiset() =~= before.to_multiset());
    assert forall|i: int, j: int| 0 <= i < j < after.len() implies rank(
        (#[trigger] after[i]).priority.deep_view(),
    ) >= rank((#[trigger] after[j]).priority.deep_view()) by {
        assert(urgency(after[i]) >= urgency(after[j]));
    }
}

proof fn lemma_counted_by_urgency(s: Seq<Issue>, x: Issue)
    ensures
        s.to_multiset().count(x) == of_urgency(s, urgency(x)).to_multiset().count(x),
    decreases s.len(),
{
    broadcast use vstd::seq_lib::group_to_multiset_ensures;

    if s.len() > 0 {
        let t = s.drop_last();
        lemma_counted_by_urgency(t, x);
        assert(s =~= t.push(s.last()));
        if urgency(s.last()) == urgency(x) {
            assert(of_urgency(s, urgency(x)) == of_urgency(t, urgency(x)).push(s.last()));
        } else {
            assert(s.last() != x);
        }
    }
}

} // verus!
