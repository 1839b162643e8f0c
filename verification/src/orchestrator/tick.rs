//! One poll-and-dispatch cycle of a workflow.
use vstd::prelude::*;
use vstd::string::*;
use crate::collections::{has_item, has_key, lemma_lookup_at, StringSet};
use crate::config::schema::{ServiceConfig, SentryConfig};
use crate::domain::issue::{Issue, IssueView};
use crate::domain::state::{count_running, OpenPr, OrchestratorState, RunningEntry};
use crate::domain::workflow::{issue_id_of_key, issue_of_key, key_of, WorkflowId};
use crate::error::Result;
use crate::orchestrator::dispatch::{
    is_eligible, is_taken, most_urgent_first, of_urgency, sort_candidates,
};
use crate::orchestrator::retry::{next_retry, tries_before};
use crate::domain::retry::{backoff, RetryEntry};
use crate::text::{has_prefix, starts_with, str_eq};
use crate::time::{Duration, Timestamp};
use crate::workspace::safety::{sanitize_key, sanitized};

verus! {

/// Whether a cycle looks for work: it does where a session more may run, and
/// where retries are ready, whatever runs.
pub fn has_capacity(
    state: &OrchestratorState,
    workflow_id: &WorkflowId,
    max: usize,
    global_max_agents: Option<usize>,
    ready_retries: usize,
) -> (r: bool)
    ensures
        r == (ready_retries > 0 || (count_running(state.running@, workflow_id.0@) < max && (
        global_max_agents is Some ==> state.running@.len() < global_max_agents->0))),
{
    let at_workflow_capacity = state.running_count_for_workflow(workflow_id.0.as_str()) >= max;
    let at_global_capacity = match global_max_agents {
        Some(g) => state.running_count() >= g,
        None => false,
    };
    !(at_workflow_capacity || at_global_capacity) || ready_retries > 0
}

/// The issue, in the given workflow.
pub open spec fn tagged(issue: Issue, workflow_id: String) -> Issue {
    Issue { workflow_id, ..issue }
}

/// Tag all candidates with the workflow ID.
pub fn tag_issues(issues: &mut Vec<Issue>, workflow_id: &WorkflowId)
    ensures
        final(issues)@ == old(issues)@.map_values(|i: Issue| tagged(i, workflow_id.0)),
{
    let ghost start = issues@;
    let ghost want = start.map_values(|i: Issue| tagged(i, workflow_id.0));
    let mut i: usize = 0;
    while i < issues.len()
        invariant
            i <= issues@.len(),
            issues@.len() == start.len(),
            want == start.map_values(|i: Issue| tagged(i, workflow_id.0)),
            forall|k: int| 0 <= k < i ==> #[trigger] issues@[k] == want[k],
            forall|k: int| i <= k < issues@.len() ==> #[trigger] issues@[k] == start[k],
        decreases issues@.len() - i,
    {
        issues[i].workflow_id = workflow_id.0.clone();
        i += 1;
    }
    assert(issues@ =~= want);
}

/// The candidates of a cycle: what the trackers gave, in the workflow's name,
/// most urgent first.
pub fn merge_candidates(
    notion: Vec<Issue>,
    sentry: Vec<Issue>,
    workflow_id: &WorkflowId,
) -> (r: Vec<Issue>)
    ensures
        most_urgent_first(r@),
        forall|u: u8| #[trigger]
            of_urgency(r@, u) == of_urgency(
                (notion@ + sentry@).map_values(|i: Issue| tagged(i, workflow_id.0)),
                u,
            ),
        r@.len() == notion@.len() + sentry@.len(),
{
    let mut all = notion;
    let mut more = sentry;
    all.append(&mut more);
    assert(all@ =~= notion@ + sentry@);
    tag_issues(&mut all, workflow_id);
    sort_candidates(&mut all);
    all
}

/// An issue among `before` has the identifier `id`.
pub open spec fn is_picked(before: Seq<Issue>, id: Seq<char>) -> bool {
    exists|i: int| 0 <= i < before.len() && (#[trigger] before[i]).identifier@ == id
}

/// The issue can be dispatched after those of `before` have been.
pub open spec fn can_pick(
    issue: Issue,
    before: Seq<Issue>,
    state: OrchestratorState,
    max: usize,
    workflow: Seq<char>,
    global_max: Option<usize>,
) -> bool {
    &&& !is_taken(state, key_of(workflow, issue.identifier@))
    &&& !is_picked(before, issue.identifier@)
    &&& count_running(state.running@, workflow) + before.len() < max
    &&& global_max is Some ==> state.running@.len() + before.len() < global_max->0
    &&& issue.blockers@.len() == 0
}

/// The issues that a cycle dispatches, in order: each that can be dispatched
/// after those before it have been.
pub open spec fn picks(
    candidates: Seq<Issue>,
    state: OrchestratorState,
    max: usize,
    workflow: Seq<char>,
    global_max: Option<usize>,
) -> Seq<Issue>
    decreases candidates.len(),
{
    if candidates.len() == 0 {
        seq![]
    } else {
        let before = picks(candidates.drop_last(), state, max, workflow, global_max);
        if can_pick(candidates.last(), before, state, max, workflow, global_max) {
            before.push(candidates.last())
        } else {
            before
        }
    }
}

proof fn lemma_keys_of_workflow(workflow: Seq<char>, a: Seq<char>, b: Seq<char>)
    ensures
        key_of(workflow, a) == key_of(workflow, b) ==> a == b,
{
    let p = workflow + "/"@;
    assert(key_of(workflow, a).skip(p.len() as int) =~= a);
    assert(key_of(workflow, b).skip(p.len() as int) =~= b);
}

/// Start a session for an issue; its key.
pub fn begin_issue(
    state: &mut OrchestratorState,
    issue: &Issue,
    config: &ServiceConfig,
    workflow_id: &WorkflowId,
    now: Timestamp,
) -> (key: String)
    requires
        old(state).wf(),
    ensures
        final(state).wf(),
        key@ == key_of(workflow_id.0@, issue.identifier@),
        match final(state).running.at(key@) {
            Some(e) => {
                &&& e.issue.deep_view() == issue.deep_view()
                &&& e.stall_timeout.nanos == config.codex.stall_timeout_ms * 1_000_000
                &&& e.workflow_id@ == workflow_id.0@
                &&& e.session.is_new(key@, now)
            },
            None => false,
        },
        forall|k: Seq<char>|
            k != key@ ==> #[trigger] final(state).running.at(k) == old(state).running.at(k),
        !has_key(old(state).running@, key@) ==> final(state).running@.len()
            == old(state).running@.len() + 1 && final(state).running@.drop_last()
            == old(state).running@ && final(state).running@.last().0@ == key@,
        final(state).retries == old(state).retries,
        final(state).completed == old(state).completed,
        final(state).tokens == old(state).tokens,
        final(state).open_prs == old(state).open_prs,
{
    let key = workflow_id.state_key(issue.identifier.as_str());
    let copy = issue.clone();
    state.start_session(
        key.as_str(),
        copy,
        config.codex.stall_timeout(),
        workflow_id.0.as_str(),
        now,
    );
    key
}

/// A session for the issue has started at `now`.
pub open spec fn is_started(
    state: OrchestratorState,
    issue: Issue,
    workflow: Seq<char>,
    stall_timeout_ms: u64,
    now: Timestamp,
) -> bool {
    let key = key_of(workflow, issue.identifier@);
    match state.running.at(key) {
        Some(e) => {
            &&& e.issue.deep_view() == issue.deep_view()
            &&& e.stall_timeout.nanos == stall_timeout_ms * 1_000_000
            &&& e.workflow_id@ == workflow
            &&& e.session.is_new(key, now)
        },
        None => false,
    }
}

/// Dispatch the candidates that can be, in order, and hand them out; a session
/// has then started for each.
pub fn dispatch_candidates(
    state: &mut OrchestratorState,
    candidates: &Vec<Issue>,
    config: &ServiceConfig,
    workflow_id: &WorkflowId,
    global_max_agents: Option<usize>,
    now: Timestamp,
) -> (r: Vec<Issue>)
    requires
        old(state).wf(),
    ensures
        final(state).wf(),
        r.deep_view() == picks(
            candidates@,
            *old(state),
            config.agent.max_concurrent_agents,
            workflow_id.0@,
            global_max_agents,
        ).map_values(|i: Issue| i.deep_view()),
        forall|id: Seq<char>|
            has_key(final(state).running@, #[trigger] key_of(workflow_id.0@, id)) <==> has_key(
                old(state).running@,
                key_of(workflow_id.0@, id),
            ) || is_picked(
                picks(
                    candidates@,
                    *old(state),
                    config.agent.max_concurrent_agents,
                    workflow_id.0@,
                    global_max_agents,
                ),
                id,
            ),
        forall|k: Seq<char>| #[trigger]
            old(state).running.at(k) is Some ==> final(state).running.at(k) == old(
                state,
            ).running.at(k),
        ({
            let started = picks(
                candidates@,
                *old(state),
                config.agent.max_concurrent_agents,
                workflow_id.0@,
                global_max_agents,
            );
            forall|i: int|
                0 <= i < started.len() ==> is_started(
                    *final(state),
                    #[trigger] started[i],
                    workflow_id.0@,
                    config.codex.stall_timeout_ms,
                    now,
                )
        }),
        count_running(final(state).running@, workflow_id.0@) == count_running(
            old(state).running@,
            workflow_id.0@,
        ) + r@.len(),
        final(state).running@.len() == old(state).running@.len() + r@.len(),
        final(state).retries == old(state).retries,
        final(state).completed == old(state).completed,
        final(state).tokens == old(state).tokens,
        final(state).open_prs == old(state).open_prs,
{
    let ghost start = *state;
    let ghost wf = workflow_id.0@;
    let ghost max = config.agent.max_concurrent_agents;
    let mut out: Vec<Issue> = Vec::new();
    let mut i: usize = 0;
    let ghost mut done: Seq<Issue> = seq![];
    assert(candidates@.take(0) =~= seq![]);
    assert(out.deep_view() =~= done.map_values(|i: Issue| i.deep_view()));
    while i < candidates.len()
        invariant
            i <= candidates@.len(),
            wf == workflow_id.0@,
            max == config.agent.max_concurrent_agents,
            state.wf(),
            done == picks(candidates@.take(i as int), start, max, wf, global_max_agents),
            out.deep_view() == done.map_values(|i: Issue| i.deep_view()),
            count_running(state.running@, wf) == count_running(start.running@, wf) + done.len(),
            state.running@.len() == start.running@.len() + done.len(),
            forall|id: Seq<char>|
                has_key(state.running@, #[trigger] key_of(wf, id)) <==> has_key(
                    start.running@,
                    key_of(wf, id),
                ) || is_picked(done, id),
            forall|k: Seq<char>| #[trigger]
                start.running.at(k) is Some ==> state.running.at(k) == start.running.at(k),
            forall|i: int|
                0 <= i < done.len() ==> is_started(
                    *state,
                    #[trigger] done[i],
                    wf,
                    config.codex.stall_timeout_ms,
                    now,
                ),
            state.retries == start.retries,
            state.completed == start.completed,
            state.tokens == start.tokens,
            state.open_prs == start.open_prs,
        decreases candidates@.len() - i,
    {
        let issue = &candidates[i];
        assert(candidates@.take(i + 1).drop_last() =~= candidates@.take(i as int));
        assert(candidates@.take(i + 1).last() == *issue);
        let ghost key = key_of(wf, issue.identifier@);
        if is_eligible(issue, state, config, workflow_id, global_max_agents) {
            let ghost prev = *state;
            let ghost before = done;
            let _ = begin_issue(state, issue, config, workflow_id, now);
            let copy = issue.clone();
            let ghost v = copy.deep_view();
            let ghost shown = out.deep_view();
            out.push(copy);
            proof {
                done = done.push(*issue);
                assert(out.deep_view() =~= shown.push(v));
                assert(out.deep_view() =~= done.map_values(|i: Issue| i.deep_view()));
                let n = state.running@.len() - 1;
                lemma_lookup_at(state.running@, n);
                assert(state.running@.last().1.workflow_id@ == wf);
                assert forall|id: Seq<char>|
                    has_key(state.running@, #[trigger] key_of(wf, id)) <==> has_key(
                        start.running@,
                        key_of(wf, id),
                    ) || is_picked(done, id) by {
                    lemma_keys_of_workflow(wf, id, issue.identifier@);
                    let k = key_of(wf, id);
                    if id == issue.identifier@ {
                        assert(done[before.len() as int].identifier@ == id);
                        assert(state.running.at(k) is Some);
                    } else {
                        assert(state.running.at(k) == prev.running.at(k));
                        assert(has_key(prev.running@, k) <==> has_key(start.running@, k) || is_picked(before, id));
                        if is_picked(before, id) {
                            let j = choose|j: int| 0 <= j < before.len() && (#[trigger] before[j]).identifier@ == id;
                            assert(done[j].identifier@ == id);
                        }
                        if is_picked(done, id) {
                            let j = choose|j: int| 0 <= j < done.len() && (#[trigger] done[j]).identifier@ == id;
                            assert(before[j].identifier@ == id);
                        }
                    }
                }
                assert forall|n: int| 0 <= n < done.len() implies is_started(
                    *state,
                    #[trigger] done[n],
                    wf,
                    config.codex.stall_timeout_ms,
                    now,
                ) by {
                    if n < before.len() {
                        assert(done[n] == before[n]);
                        assert(is_started(
                            prev,
                            before[n],
                            wf,
                            config.codex.stall_timeout_ms,
                            now,
                        ));
                        lemma_keys_of_workflow(wf, before[n].identifier@, issue.identifier@);
                        assert(is_picked(before, before[n].identifier@));
                    }
                }
                assert forall|k: Seq<char>| #[trigger]
                    start.running.at(k) is Some implies state.running.at(k) == start.running.at(k) by {
                    assert(prev.running.at(k) == start.running.at(k));
                    assert(!has_key(prev.running@, key));
                    assert(k != key);
                }
            }
        }
        i += 1;
    }
    assert(candidates@.take(i as int) =~= candidates@);
    out
}

proof fn lemma_picks_bounded(
    candidates: Seq<Issue>,
    state: OrchestratorState,
    max: usize,
    workflow: Seq<char>,
    global_max: Option<usize>,
)
    ensures
        ({
            let p = picks(candidates, state, max, workflow, global_max);
            p.len() > 0 ==> count_running(state.running@, workflow) + p.len() <= max && (global_max
                is Some ==> state.running@.len() + p.len() <= global_max->0)
        }),
    decreases candidates.len(),
{
    if candidates.len() > 0 {
        lemma_picks_bounded(candidates.drop_last(), state, max, workflow, global_max);
    }
}

/// A cycle that dispatches anything leaves the workflow, and all workflows
/// together, within their limits.
pub proof fn law_cycle_keeps_limits(
    candidates: Seq<Issue>,
    state: OrchestratorState,
    max: usize,
    workflow: Seq<char>,
    global_max: Option<usize>,
)
    requires
        picks(candidates, state, max, workflow, global_max).len() > 0,
    ensures
        count_running(state.running@, workflow) + picks(
            candidates,
            state,
            max,
            workflow,
            global_max,
        ).len() <= max,
        global_max is Some ==> state.running@.len() + picks(
            candidates,
            state,
            max,
            workflow,
            global_max,
        ).len() <= global_max->0,
{
    lemma_picks_bounded(candidates, state, max, workflow, global_max);
}

/// No cycle dispatches two issues with the same identifier, nor one that runs,
/// waits to be tried again, or is done.
pub proof fn law_cycle_dispatches_once(
    candidates: Seq<Issue>,
    state: OrchestratorState,
    max: usize,
    workflow: Seq<char>,
    global_max: Option<usize>,
)
    ensures
        ({
            let p = picks(candidates, state, max, workflow, global_max);
            &&& forall|i: int, j: int|
                0 <= i < j < p.len() ==> (#[trigger] p[i]).identifier@ != (
                #[trigger] p[j]).identifier@
            &&& forall|i: int|
                0 <= i < p.len() ==> !is_taken(
                    state,
                    key_of(workflow, (#[trigger] p[i]).identifier@),
                )
        }),
    decreases candidates.len(),
{
    if candidates.len() > 0 {
        law_cycle_dispatches_once(candidates.drop_last(), state, max, workflow, global_max);
        let before = picks(candidates.drop_last(), state, max, workflow, global_max);
        let p = picks(candidates, state, max, workflow, global_max);
        assert forall|i: int, j: int| 0 <= i < j < p.len() implies (#[trigger] p[i]).identifier@ != (
        #[trigger] p[j]).identifier@ by {
            assert(before[i].identifier@ == p[i].identifier@);
            if j < before.len() {
                assert(before[j].identifier@ == p[j].identifier@);
            }
        }
        assert forall|i: int| 0 <= i < p.len() implies !is_taken(
            state,
            key_of(workflow, (#[trigger] p[i]).identifier@),
        ) by {
            if i < before.len() {
                assert(before[i] == p[i]);
            }
        }
    }
}

/// What a worker's result comes to: whether it succeeded, and what went wrong.
pub fn worker_outcome(result: &Result<bool>) -> (r: (bool, Option<String>))
    ensures
        match *result {
            Ok(true) => r.0 && r.1 is None,
            Ok(false) => !r.0 && r.1 is Some && r.1->0@ == "max turns reached"@,
            Err(e) => !r.0 && r.1 is Some && r.1->0@ == e.prefix() + e.detail(),
        },
{
    match result {
        Ok(true) => (true, None),
        Ok(false) => (false, Some("max turns reached".to_owned())),
        Err(e) => (false, Some(e.message())),
    }
}

/// Schedule the retry of work that failed; when it is to fire.
///
/// `attempt` is the retry that the work was, if it was one.
pub fn retry_after(
    state: &mut OrchestratorState,
    state_key: &str,
    attempt: Option<u32>,
    success: bool,
    workflow_id: &WorkflowId,
) -> (delay: Option<Duration>)
    requires
        old(state).wf(),
        !success ==> tries_before(attempt) < u32::MAX,
    ensures
        final(state).wf(),
        success ==> delay is None && *final(state) == *old(state),
        !success ==> {
            &&& delay is Some
            &&& delay->0.nanos == backoff(tries_before(attempt), 1_000_000_000, 300_000_000_000)
            &&& match final(state).retries.at(state_key@) {
                Some(e) => e.attempt == tries_before(attempt) + 1 && !e.ready && e.next_retry_at is None
                    && e.workflow_id@
                    == workflow_id.0@ && e.issue_id@ == state_key@,
                None => false,
            }
            &&& forall|k: Seq<char>|
                k != state_key@ ==> #[trigger] final(state).retries.at(k) == old(state).retries.at(k)
            &&& final(state).running == old(state).running
            &&& final(state).completed == old(state).completed
            &&& final(state).tokens == old(state).tokens
            &&& final(state).open_prs == old(state).open_prs
        },
{
    if success {
        return None;
    }
    let (next, delay) = next_retry(attempt);
    state.schedule_retry(state_key, next, workflow_id.0.as_str());
    Some(delay)
}

/// Where an issue that is tried again is fetched from.
#[derive(Debug, Clone, Copy, PartialEq, Eq, Structural)]
pub enum RetrySource {
    Sentry,
    Notion,
}

/// The identifier is one that Sentry issues have.
pub open spec fn is_sentry_id(enabled: bool, prefix: Seq<char>, id: Seq<char>) -> bool {
    enabled && prefix.len() > 0 && has_prefix(id, prefix)
}

/// Where an issue that is tried again is fetched from.
pub fn retry_source(issue_id: &str, sentry: &SentryConfig) -> (r: RetrySource)
    ensures
        r == if is_sentry_id(sentry.enabled, sentry.id_prefix@, issue_id@) {
            RetrySource::Sentry
        } else {
            RetrySource::Notion
        },
{
    if sentry.enabled && !sentry.id_prefix.as_str().is_empty() && starts_with(
        issue_id,
        sentry.id_prefix.as_str(),
    ) {
        RetrySource::Sentry
    } else {
        RetrySource::Notion
    }
}

/// The issue that a tracker's answer gives for a retry: the first, if any came.
pub fn refetched(answer: Result<Vec<Issue>>) -> (r: Option<Issue>)
    ensures
        match answer {
            Ok(issues) => if issues@.len() > 0 {
                r == Some(issues@[0])
            } else {
                r is None
            },
            Err(_) => r is None,
        },
{
    match answer {
        Ok(issues) => {
            let mut issues = issues;
            if issues.len() > 0 {
                Some(issues.remove(0))
            } else {
                None
            }
        },
        Err(_) => None,
    }
}

/// One more session of the workflow may run: neither its limit nor the one for
/// all workflows is reached.
pub open spec fn has_room(
    state: OrchestratorState,
    max: usize,
    workflow: Seq<char>,
    global_max: Option<usize>,
) -> bool {
    &&& count_running(state.running@, workflow) < max
    &&& global_max is Some ==> state.running@.len() < global_max->0
}

fn room_for_one(
    state: &OrchestratorState,
    max: usize,
    workflow_id: &WorkflowId,
    global_max_agents: Option<usize>,
) -> (r: bool)
    ensures
        r == has_room(*state, max, workflow_id.0@, global_max_agents),
{
    state.running_count_for_workflow(workflow_id.0.as_str()) < max && match global_max_agents {
        Some(g) => state.running_count() < g,
        None => true,
    }
}

/// The retry waits until the next cycle, and nothing else has changed.
pub open spec fn waits(
    before: OrchestratorState,
    after: OrchestratorState,
    retry: RetryEntry,
) -> bool {
    &&& after.retries.at(retry.issue_id@) == Some((RetryEntry { ready: true, ..retry }))
    &&& forall|k: Seq<char>|
        k != retry.issue_id@ ==> #[trigger] after.retries.at(k) == before.retries.at(k)
    &&& after.running == before.running
    &&& after.completed == before.completed
    &&& after.tokens == before.tokens
    &&& after.open_prs == before.open_prs
}

/// What is done about a retry that is ready.
#[derive(Debug)]
pub enum RetryPlan {
    /// Fetch its issue anew.
    Fetch { retry: RetryEntry, issue_id: String },
    /// It waits until a session more may run.
    Wait,
    /// A session still runs under its key: it is dropped.
    Drop,
}

/// Take up a retry that is ready, unless a session still runs under its key, or
/// no more sessions may run.
pub fn accept_retry(
    state: &mut OrchestratorState,
    retry: RetryEntry,
    max: usize,
    workflow_id: &WorkflowId,
    global_max_agents: Option<usize>,
) -> (r: RetryPlan)
    requires
        old(state).wf(),
    ensures
        final(state).wf(),
        if has_key(old(state).running@, retry.issue_id@) {
            r is Drop && *final(state) == *old(state)
        } else if has_room(*old(state), max, workflow_id.0@, global_max_agents) {
            &&& r matches RetryPlan::Fetch { retry: taken, issue_id } && taken == retry && issue_id@
                == issue_of_key(retry.issue_id@)
            &&& *final(state) == *old(state)
        } else {
            r is Wait && waits(*old(state), *final(state), retry)
        },
{
    if state.is_running(retry.issue_id.as_str()) {
        RetryPlan::Drop
    } else if room_for_one(state, max, workflow_id, global_max_agents) {
        let issue_id = issue_id_of_key(retry.issue_id.as_str());
        RetryPlan::Fetch { retry, issue_id }
    } else {
        state.put_back_retry(retry);
        RetryPlan::Wait
    }
}

/// How a retry whose issue has been fetched goes on.
#[derive(Debug)]
pub enum RetryStart {
    /// A session has started for the issue.
    Begun { issue: Issue },
    /// It waits until a session more may run.
    Wait,
    /// There is no issue, or a session has started under its key meanwhile: it
    /// is dropped.
    Drop,
}

/// Start the session of a retry whose issue has been fetched anew, in the
/// workflow's name, unless no more sessions may run by now. Without an issue the
/// retry is dropped.
pub fn begin_retry(
    state: &mut OrchestratorState,
    retry: RetryEntry,
    issue: Option<Issue>,
    config: &ServiceConfig,
    workflow_id: &WorkflowId,
    global_max_agents: Option<usize>,
    now: Timestamp,
) -> (r: RetryStart)
    requires
        old(state).wf(),
    ensures
        final(state).wf(),
        if issue is None || has_key(old(state).running@, retry.issue_id@) {
            r is Drop && *final(state) == *old(state)
        } else if !has_room(
            *old(state),
            config.agent.max_concurrent_agents,
            workflow_id.0@,
            global_max_agents,
        ) {
            r is Wait && waits(*old(state), *final(state), retry)
        } else {
            &&& r matches RetryStart::Begun { issue: begun } && begun.deep_view() == (IssueView {
                workflow_id: workflow_id.0@,
                ..issue->0.deep_view()
            }) && match final(state).running.at(retry.issue_id@) {
                Some(e) => e.issue.deep_view() == begun.deep_view() && e.workflow_id@
                    == workflow_id.0@ && e.stall_timeout.nanos == config.codex.stall_timeout_ms
                    * 1_000_000 && e.session.is_new(retry.issue_id@, now),
                None => false,
            }
            &&& forall|k: Seq<char>|
                k != retry.issue_id@ ==> #[trigger] final(state).running.at(k) == old(
                    state,
                ).running.at(k)
            &&& final(state).running@.len() == old(state).running@.len() + 1
            &&& final(state).running@.drop_last() == old(state).running@
            &&& final(state).retries == old(state).retries
            &&& final(state).completed == old(state).completed
            &&& final(state).tokens == old(state).tokens
            &&& final(state).open_prs == old(state).open_prs
        },
{
    let i = match issue {
        Some(i) => i,
        None => {
            return RetryStart::Drop;
        },
    };
    if state.is_running(retry.issue_id.as_str()) {
        return RetryStart::Drop;
    }
    if !room_for_one(state, config.agent.max_concurrent_agents, workflow_id, global_max_agents) {
        state.put_back_retry(retry);
        return RetryStart::Wait;
    }
    let mut issue = i;
    issue.workflow_id = workflow_id.0.clone();
    let copy = issue.clone();
    state.start_session(
        retry.issue_id.as_str(),
        copy,
        config.codex.stall_timeout(),
        workflow_id.0.as_str(),
        now,
    );
    RetryStart::Begun { issue }
}

/// Where a retry starts a session, its workflow and all workflows together stay
/// within their limits.
pub proof fn law_retry_keeps_limits(
    before: OrchestratorState,
    after: OrchestratorState,
    max: usize,
    workflow: Seq<char>,
    global_max: Option<usize>,
)
    requires
        has_room(before, max, workflow, global_max),
        after.running@.len() == before.running@.len() + 1,
        after.running@.drop_last() == before.running@,
    ensures
        count_running(after.running@, workflow) <= max,
        global_max is Some ==> after.running@.len() <= global_max->0,
{
}

/// The workspace is old enough to go.
pub open spec fn is_stale(mtime: Option<Timestamp>, now: Timestamp, max_age: Duration) -> bool {
    match mtime {
        Some(t) => t.at() <= now.at() && now.at() - t.at() >= max_age.nanos,
        None => false,
    }
}

/// The modification time of workspace `i`, where it is known.
pub open spec fn mtime_at(mtimes: Seq<Option<Timestamp>>, i: int) -> Option<Timestamp> {
    if 0 <= i < mtimes.len() {
        mtimes[i]
    } else {
        None
    }
}

/// The workspaces that are old enough to go and not in use, in order.
pub open spec fn reapable(
    names: Seq<String>,
    skip: Seq<String>,
    now: Timestamp,
    max_age: Duration,
    mtimes: Seq<Option<Timestamp>>,
) -> Seq<Seq<char>>
    decreases names.len(),
{
    if names.len() == 0 {
        seq![]
    } else {
        let before = reapable(names.drop_last(), skip, now, max_age, mtimes);
        if !has_item(skip, names.last()@) && is_stale(
            mtime_at(mtimes, names.len() - 1),
            now,
            max_age,
        ) {
            before.push(names.last()@)
        } else {
            before
        }
    }
}

/// Pure selection logic for the reaper: given the candidate directory names,
/// the skip set (sanitized names of running issues and tracked open PRs), the
/// "now" reference, the age threshold and each workspace's mtime, in the order
/// of the names, return the names of those that should be deleted.
///
/// A workspace whose mtime is unknown or lies in the future stays.
pub fn select_reap_candidates(
    workspaces: &Vec<String>,
    skip: &StringSet,
    now: Timestamp,
    max_age: Duration,
    mtimes: &Vec<Option<Timestamp>>,
) -> (r: Vec<String>)
    ensures
        r.deep_view() == reapable(workspaces@, skip@, now, max_age, mtimes@),
{
    let mut out: Vec<String> = Vec::new();
    let mut i: usize = 0;
    assert(out.deep_view() =~= reapable(workspaces@.take(0), skip@, now, max_age, mtimes@));
    while i < workspaces.len()
        invariant
            i <= workspaces@.len(),
            out.deep_view() == reapable(
                workspaces@.take(i as int),
                skip@,
                now,
                max_age,
                mtimes@,
            ),
        decreases workspaces@.len() - i,
    {
        assert(workspaces@.take(i + 1).drop_last() =~= workspaces@.take(i as int));
        let name = &workspaces[i];
        if !skip.contains(name.as_str()) && i < mtimes.len() {
            if let Some(t) = mtimes[i] {
                let age: i128 = now.nanos_since(t);
                if age >= 0 && (age as u128) >= max_age.nanos {
                    let ghost before = out.deep_view();
                    out.push(name.clone());
                    assert(out.deep_view() =~= before.push(name@));
                }
            }
        }
        i += 1;
    }
    assert(workspaces@.take(i as int) =~= workspaces@);
    out
}

/// A directory name that the reaper leaves alone: that of an issue running in
/// the workflow, or of one with an open PR.
pub open spec fn is_in_use(state: OrchestratorState, workflow: Seq<char>, name: Seq<char>) -> bool {
    ||| runs_as(state.running@, workflow, name)
    ||| open_as(state.open_prs@, name)
}

/// A running issue of the workflow has the directory name.
pub open spec fn runs_as(s: Seq<(String, RunningEntry)>, workflow: Seq<char>, name: Seq<char>) -> bool {
    exists|i: int|
        0 <= i < s.len() && s[i].1.workflow_id@ == workflow && sanitized(
            (#[trigger] s[i]).1.issue.identifier@,
        ) == name
}

/// An issue with an open PR has the directory name.
pub open spec fn open_as(s: Seq<(String, OpenPr)>, name: Seq<char>) -> bool {
    exists|i: int| 0 <= i < s.len() && sanitized((#[trigger] s[i]).1.issue.identifier@) == name
}

/// The directory names that the reaper leaves alone.
pub fn reap_skip_set(state: &OrchestratorState, workflow_id: &WorkflowId) -> (r: StringSet)
    ensures
        r.wf(),
        forall|name: Seq<char>| #[trigger]
            has_item(r@, name) <==> is_in_use(*state, workflow_id.0@, name),
{
    let ghost wf = workflow_id.0@;
    let mut out = StringSet::new();
    let mut i: usize = 0;
    while i < state.running.entries.len()
        invariant
            i <= state.running@.len(),
            wf == workflow_id.0@,
            out.wf(),
            forall|n: Seq<char>| #[trigger]
                has_item(out@, n) <==> runs_as(state.running@.take(i as int), wf, n),
        decreases state.running@.len() - i,
    {
        let e = &state.running.entries[i].1;
        let ghost o0 = out;
        let ghost prev = state.running@.take(i as int);
        let ghost next = state.running@.take(i + 1);
        if str_eq(e.workflow_id.as_str(), workflow_id.0.as_str()) {
            let _ = out.insert(sanitize_key(e.issue.identifier.as_str()));
        }
        proof {
            assert forall|n: Seq<char>| #[trigger] has_item(out@, n) <==> runs_as(next, wf, n) by {
                assert(has_item(o0@, n) <==> runs_as(prev, wf, n));
                assert(out.elems().contains(n) == has_item(out@, n));
                assert(o0.elems().contains(n) == has_item(o0@, n));
                if runs_as(prev, wf, n) {
                    let k = choose|k: int|
                        0 <= k < prev.len() && prev[k].1.workflow_id@ == wf && sanitized(
                            (#[trigger] prev[k]).1.issue.identifier@,
                        ) == n;
                    assert(next[k] == prev[k]);
                }
                if e.workflow_id@ == wf && sanitized(e.issue.identifier@) == n {
                    assert(next[i as int].1 == *e);
                }
                if runs_as(next, wf, n) {
                    let k = choose|k: int|
                        0 <= k < next.len() && next[k].1.workflow_id@ == wf && sanitized(
                            (#[trigger] next[k]).1.issue.identifier@,
                        ) == n;
                    if k < i {
                        assert(prev[k] == next[k]);
                    }
                }
            }
        }
        i += 1;
    }
    assert(state.running@.take(i as int) =~= state.running@);
    i = 0;
    while i < state.open_prs.entries.len()
        invariant
            i <= state.open_prs@.len(),
            wf == workflow_id.0@,
            out.wf(),
            forall|n: Seq<char>| #[trigger]
                has_item(out@, n) <==> runs_as(state.running@, wf, n) || open_as(
                    state.open_prs@.take(i as int),
                    n,
                ),
        decreases state.open_prs@.len() - i,
    {
        let pr = &state.open_prs.entries[i].1;
        let ghost o0 = out;
        let ghost prev = state.open_prs@.take(i as int);
        let ghost next = state.open_prs@.take(i + 1);
        let _ = out.insert(sanitize_key(pr.issue.identifier.as_str()));
        proof {
            assert forall|n: Seq<char>| #[trigger]
                has_item(out@, n) <==> runs_as(state.running@, wf, n) || open_as(next, n) by {
                assert(has_item(o0@, n) <==> runs_as(state.running@, wf, n) || open_as(prev, n));
                assert(out.elems().contains(n) == has_item(out@, n));
                assert(o0.elems().contains(n) == has_item(o0@, n));
                if open_as(prev, n) {
                    let k = choose|k: int|
                        0 <= k < prev.len() && sanitized((#[trigger] prev[k]).1.issue.identifier@)
                            == n;
                    assert(next[k] == prev[k]);
                }
                if sanitized(pr.issue.identifier@) == n {
                    assert(next[i as int].1 == *pr);
                }
                if open_as(next, n) {
                    let k = choose|k: int|
                        0 <= k < next.len() && sanitized((#[trigger] next[k]).1.issue.identifier@)
                            == n;
                    if k < i {
                        assert(prev[k] == next[k]);
                    }
                }
            }
        }
        i += 1;
    }
    assert(state.open_prs@.take(i as int) =~= state.open_prs@);
    out
}

/// The reaper never deletes the workspace of an issue that runs in the
/// workflow or has an open PR, nor one whose age is unknown or below the limit.
pub proof fn law_reaper_spares_used_and_young(
    names: Seq<String>,
    skip: Seq<String>,
    now: Timestamp,
    max_age: Duration,
    mtimes: Seq<Option<Timestamp>>,
    state: OrchestratorState,
    workflow: Seq<char>,
)
    requires
        forall|n: Seq<char>| #[trigger] has_item(skip, n) <==> is_in_use(state, workflow, n),
    ensures
        forall|n: Seq<char>| #[trigger]
            reapable(names, skip, now, max_age, mtimes).contains(n) ==> {
                &&& !is_in_use(state, workflow, n)
                &&& exists|i: int|
                    0 <= i < names.len() && (#[trigger] names[i])@ == n && is_stale(
                        mtime_at(mtimes, i),
                        now,
                        max_age,
                    )
            },
    decreases names.len(),
{
    if names.len() > 0 {
        let t = names.drop_last();
        law_reaper_spares_used_and_young(t, skip, now, max_age, mtimes, state, workflow);
        let before = reapable(t, skip, now, max_age, mtimes);
        let all = reapable(names, skip, now, max_age, mtimes);
        assert forall|n: Seq<char>| #[trigger] all.contains(n) implies ({
            &&& !is_in_use(state, workflow, n)
            &&& exists|i: int|
                0 <= i < names.len() && (#[trigger] names[i])@ == n && is_stale(
                    mtime_at(mtimes, i),
                    now,
                    max_age,
                )
        }) by {
            let k = all.index_of(n);
            if k < before.len() {
                assert(before[k] == n);
                assert(before.contains(n));
                let i = choose|i: int|
                    0 <= i < t.len() && (#[trigger] t[i])@ == n && is_stale(
                        mtime_at(mtimes, i),
                        now,
                        max_age,
                    );
                assert(names[i]@ == n);
            } else {
                assert(!has_item(skip, n));
                assert(names[names.len() - 1]@ == n);
            }
        }
    }
}

/// The identifiers of the issues with an open PR.
pub open spec fn has_open_pr(s: Seq<(String, OpenPr)>, id: Seq<char>) -> bool {
    exists|i: int| 0 <= i < s.len() && (#[trigger] s[i]).1.issue.identifier@ == id
}

/// The identifiers of the issues with an open PR.
pub fn tracked_pr_ids(state: &OrchestratorState) -> (r: StringSet)
    ensures
        r.wf(),
        forall|id: Seq<char>| #[trigger] has_item(r@, id) <==> has_open_pr(state.open_prs@, id),
{
    let mut out = StringSet::new();
    let mut i: usize = 0;
    while i < state.open_prs.entries.len()
        invariant
            i <= state.open_prs@.len(),
            out.wf(),
            forall|id: Seq<char>| #[trigger]
                has_item(out@, id) <==> has_open_pr(state.open_prs@.take(i as int), id),
        decreases state.open_prs@.len() - i,
    {
        let pr = &state.open_prs.entries[i].1;
        let ghost o0 = out;
        let ghost prev = state.open_prs@.take(i as int);
        let ghost next = state.open_prs@.take(i + 1);
        let _ = out.insert(pr.issue.identifier.clone());
        proof {
            assert forall|id: Seq<char>| #[trigger]
                has_item(out@, id) <==> has_open_pr(next, id) by {
                assert(has_item(o0@, id) <==> has_open_pr(prev, id));
                assert(out.elems().contains(id) == has_item(out@, id));
                assert(o0.elems().contains(id) == has_item(o0@, id));
                if has_open_pr(prev, id) {
                    let k = choose|k: int|
                        0 <= k < prev.len() && (#[trigger] prev[k]).1.issue.identifier@ == id;
                    assert(next[k] == prev[k]);
                }
                if pr.issue.identifier@ == id {
                    assert(next[i as int].1 == *pr);
                }
                if has_open_pr(next, id) {
                    let k = choose|k: int|
                        0 <= k < next.len() && (#[trigger] next[k]).1.issue.identifier@ == id;
                    if k < i {
                        assert(prev[k] == next[k]);
                    }
                }
            }
        }
        i += 1;
    }
    assert(state.open_prs@.take(i as int) =~= state.open_prs@);
    out
}

/// Whether the workspace of an issue in a terminal state is removed: not while
/// a PR of it is tracked (the PR review monitor needs the workspace), nor while
/// a session runs on it.
pub fn is_removable(
    issue_id: &str,
    monitored: &StringSet,
    state: &OrchestratorState,
    workflow_id: &WorkflowId,
) -> (r: bool)
    ensures
        r == (!has_item(monitored@, issue_id@) && !has_key(
            state.running@,
            key_of(workflow_id.0@, issue_id@),
        )),
{
    if monitored.contains(issue_id) {
        return false;
    }
    let key = workflow_id.state_key(issue_id);
    !state.is_running(key.as_str())
}

/// What a cycle does, one thing after the other.
#[derive(Debug, Clone, Copy, PartialEq, Eq, Structural)]
pub enum CycleStep {
    /// Fetch candidates from Notion.
    FetchNotion,
    /// Fetch candidates from Sentry.
    FetchSentry,
    /// Dispatch candidates, then ready retries.
    Dispatch,
    /// Remove the workspaces of Notion issues in terminal states.
    CleanNotion,
    /// Remove the workspaces of Sentry issues in terminal states.
    CleanSentry,
    /// Check open PRs for feedback.
    CheckReviews,
    /// Remove stale workspaces.
    Reap,
    /// The cycle is over.
    End,
}

/// What a cycle is to do.
#[derive(Debug, Clone, Copy, PartialEq, Eq, Structural)]
pub struct Cycle {
    /// Whether to look for work.
    pub capacity: bool,
    /// Whether Notion is asked for work.
    pub notion: bool,
    /// Whether Sentry is asked for work, and has not failed to answer.
    pub sentry: bool,
    /// Whether open PRs are monitored.
    pub reviews: bool,
    /// Whether stale workspaces are removed.
    pub reap: bool,
}

impl Cycle {
    /// What is left once there is no more work to dispatch and clean up after.
    pub open spec fn rest(self) -> CycleStep {
        if self.reviews {
            CycleStep::CheckReviews
        } else if self.reap {
            CycleStep::Reap
        } else {
            CycleStep::End
        }
    }

    /// What a cycle does first.
    pub open spec fn start(self) -> CycleStep {
        if !self.capacity {
            self.rest()
        } else if self.notion {
            CycleStep::FetchNotion
        } else if self.sentry {
            CycleStep::FetchSentry
        } else {
            CycleStep::Dispatch
        }
    }

    /// What a cycle does after a step that went well or failed. Where Notion
    /// does not answer, the cycle is over; where Sentry does not, it goes on
    /// without it; nothing else that fails changes the course.
    pub open spec fn next(self, step: CycleStep, ok: bool) -> (Cycle, CycleStep) {
        match step {
            CycleStep::FetchNotion => (
                self,
                if !ok {
                    CycleStep::End
                } else if self.sentry {
                    CycleStep::FetchSentry
                } else {
                    CycleStep::Dispatch
                },
            ),
            CycleStep::FetchSentry => ((Cycle { sentry: ok, ..self }), CycleStep::Dispatch),
            CycleStep::Dispatch => (
                self,
                if self.notion {
                    CycleStep::CleanNotion
                } else if self.sentry {
                    CycleStep::CleanSentry
                } else {
                    self.rest()
                },
            ),
            CycleStep::CleanNotion => (
                self,
                if self.sentry {
                    CycleStep::CleanSentry
                } else {
                    self.rest()
                },
            ),
            CycleStep::CleanSentry => (self, self.rest()),
            CycleStep::CheckReviews => (
                self,
                if self.reap {
                    CycleStep::Reap
                } else {
                    CycleStep::End
                },
            ),
            CycleStep::Reap => (self, CycleStep::End),
            CycleStep::End => (self, CycleStep::End),
        }
    }

    /// What a cycle is to do, by the configuration and what runs and waits.
    pub fn plan(
        state: &OrchestratorState,
        config: &ServiceConfig,
        workflow_id: &WorkflowId,
        global_max_agents: Option<usize>,
        ready_retries: usize,
    ) -> (r: Cycle)
        ensures
            r.capacity == (ready_retries > 0 || (count_running(state.running@, workflow_id.0@)
                < config.agent.max_concurrent_agents && (global_max_agents is Some
                ==> state.running@.len() < global_max_agents->0))),
            r.notion == (config.tracker.active_states@.len() > 0),
            r.sentry == config.sentry.enabled,
            r.reviews == config.pr_review.enabled,
            r.reap == (config.workspace.max_age_days is Some),
    {
        Cycle {
            capacity: has_capacity(
                state,
                workflow_id,
                config.agent.max_concurrent_agents,
                global_max_agents,
                ready_retries,
            ),
            notion: config.tracker.active_states.len() > 0,
            sentry: config.sentry.enabled,
            reviews: config.pr_review.enabled,
            reap: config.workspace.max_age_days.is_some(),
        }
    }

    fn remainder(&self) -> (r: CycleStep)
        ensures
            r == self.rest(),
    {
        if self.reviews {
            CycleStep::CheckReviews
        } else if self.reap {
            CycleStep::Reap
        } else {
            CycleStep::End
        }
    }

    /// What a cycle does first.
    pub fn begin(&self) -> (r: CycleStep)
        ensures
            r == self.start(),
    {
        if !self.capacity {
            self.remainder()
        } else if self.notion {
            CycleStep::FetchNotion
        } else if self.sentry {
            CycleStep::FetchSentry
        } else {
            CycleStep::Dispatch
        }
    }

    /// What a cycle does after a step that went well or failed.
    pub fn advance(&mut self, step: CycleStep, ok: bool) -> (r: CycleStep)
        ensures
            (*final(self), r) == old(self).next(step, ok),
    {
        match step {
            CycleStep::FetchNotion => if !ok {
                CycleStep::End
            } else if self.sentry {
                CycleStep::FetchSentry
            } else {
                CycleStep::Dispatch
            },
            CycleStep::FetchSentry => {
                self.sentry = ok;
                CycleStep::Dispatch
            },
            CycleStep::Dispatch => if self.notion {
                CycleStep::CleanNotion
            } else if self.sentry {
                CycleStep::CleanSentry
            } else {
                self.remainder()
            },
            CycleStep::CleanNotion => if self.sentry {
                CycleStep::CleanSentry
            } else {
                self.remainder()
            },
            CycleStep::CleanSentry => self.remainder(),
            CycleStep::CheckReviews => if self.reap {
                CycleStep::Reap
            } else {
                CycleStep::End
            },
            CycleStep::Reap => CycleStep::End,
            CycleStep::End => CycleStep::End,
        }
    }
}

/// The steps of a cycle whose fetches from Notion and Sentry go well or fail as
/// given, from one step on.
pub open spec fn course(c: Cycle, step: CycleStep, notion_ok: bool, sentry_ok: bool, fuel: nat) -> Seq<
    CycleStep,
>
    decreases fuel,
{
    if fuel == 0 || step is End {
        seq![]
    } else {
        let ok = match step {
            CycleStep::FetchNotion => notion_ok,
            CycleStep::FetchSentry => sentry_ok,
            _ => true,
        };
        let (d, next) = c.next(step, ok);
        seq![step] + course(d, next, notion_ok, sentry_ok, (fuel - 1) as nat)
    }
}

/// The checks of open PRs and the removal of stale workspaces that a cycle is
/// to do are among the steps.
pub open spec fn covers(c: Cycle, steps: Seq<CycleStep>) -> bool {
    &&& c.reviews ==> steps.contains(CycleStep::CheckReviews)
    &&& c.reap ==> steps.contains(CycleStep::Reap)
}

proof fn lemma_covers_after(c: Cycle, step: CycleStep, notion_ok: bool, sentry_ok: bool, fuel: nat)
    requires
        fuel > 0,
        !(step is End),
        ({
            let ok = match step {
                CycleStep::FetchNotion => notion_ok,
                CycleStep::FetchSentry => sentry_ok,
                _ => true,
            };
            let (d, next) = c.next(step, ok);
            covers(c, course(d, next, notion_ok, sentry_ok, (fuel - 1) as nat))
        }),
    ensures
        covers(c, course(c, step, notion_ok, sentry_ok, fuel)),
{
    let ok = match step {
        CycleStep::FetchNotion => notion_ok,
        CycleStep::FetchSentry => sentry_ok,
        _ => true,
    };
    let (d, next) = c.next(step, ok);
    let rest = course(d, next, notion_ok, sentry_ok, (fuel - 1) as nat);
    let all = course(c, step, notion_ok, sentry_ok, fuel);
    assert(all =~= seq![step] + rest);
    if c.reviews {
        assert(all[rest.index_of(CycleStep::CheckReviews) + 1] is CheckReviews);
    }
    if c.reap {
        assert(all[rest.index_of(CycleStep::Reap) + 1] is Reap);
    }
}

proof fn lemma_covers_rest(c: Cycle, notion_ok: bool, sentry_ok: bool, fuel: nat)
    requires
        fuel >= 2,
    ensures
        covers(c, course(c, c.rest(), notion_ok, sentry_ok, fuel)),
{
    reveal_with_fuel(course, 3);
    let all = course(c, c.rest(), notion_ok, sentry_ok, fuel);
    if c.reviews {
        assert(all[0] is CheckReviews);
        if c.reap {
            assert(all[1] is Reap);
        }
    } else if c.reap {
        assert(all[0] is Reap);
    }
}

/// Open PRs are checked, and stale workspaces removed, in every cycle where
/// that is configured, at capacity or not, unless Notion was asked and did not
/// answer.
pub proof fn law_reviews_and_reaper_always_run(c: Cycle, notion_ok: bool, sentry_ok: bool)
    requires
        !(c.capacity && c.notion && !notion_ok),
    ensures
        covers(c, course(c, c.start(), notion_ok, sentry_ok, 8)),
{
    let d = Cycle { sentry: sentry_ok, ..c };
    if !c.capacity {
        lemma_covers_rest(c, notion_ok, sentry_ok, 8);
    } else {
        lemma_covers_dispatch(c, notion_ok, sentry_ok, 8);
        lemma_covers_dispatch(c, notion_ok, sentry_ok, 7);
        lemma_covers_dispatch(d, notion_ok, sentry_ok, 7);
        lemma_covers_dispatch(d, notion_ok, sentry_ok, 6);
        if c.sentry {
            lemma_covers_after(c, CycleStep::FetchSentry, notion_ok, sentry_ok, 8);
            lemma_covers_after(c, CycleStep::FetchSentry, notion_ok, sentry_ok, 7);
        }
        if c.notion {
            lemma_covers_after(c, CycleStep::FetchNotion, notion_ok, sentry_ok, 8);
        }
    }
}

proof fn lemma_covers_dispatch(c: Cycle, notion_ok: bool, sentry_ok: bool, fuel: nat)
    requires
        fuel >= 5,
    ensures
        covers(c, course(c, CycleStep::Dispatch, notion_ok, sentry_ok, fuel)),
{
    let f1 = (fuel - 1) as nat;
    let f2 = (fuel - 2) as nat;
    let f3 = (fuel - 3) as nat;
    lemma_covers_rest(c, notion_ok, sentry_ok, f1);
    lemma_covers_rest(c, notion_ok, sentry_ok, f2);
    lemma_covers_rest(c, notion_ok, sentry_ok, f3);
    lemma_covers_after(c, CycleStep::CleanSentry, notion_ok, sentry_ok, f2);
    lemma_covers_after(c, CycleStep::CleanSentry, notion_ok, sentry_ok, f1);
    lemma_covers_after(c, CycleStep::CleanNotion, notion_ok, sentry_ok, f1);
    lemma_covers_after(c, CycleStep::Dispatch, notion_ok, sentry_ok, fuel);
}

/// A candidate that is tagged is in the workflow, and else as it was.
pub proof fn law_tagged_issue_is_the_issue(issue: Issue, workflow_id: String)
    ensures
        ({
            let t = tagged(issue, workflow_id);
            &&& t.workflow_id == workflow_id
            &&& t.identifier == issue.identifier
            &&& t.title == issue.title
            &&& t.description == issue.description
            &&& t.status == issue.status
            &&& t.priority == issue.priority
            &&& t.url == issue.url
            &&& t.notion_page_id == issue.notion_page_id
            &&& t.blockers == issue.blockers
            &&& t.source == issue.source
            &&& t.extra == issue.extra
            &&& t.comments == issue.comments
        }),
{
}

/// Every issue that a cycle dispatches is one of the candidates, has no blockers, and
/// neither runs nor waits to be tried again nor has been done under its key.
pub proof fn law_dispatched_are_free_candidates(
    candidates: Seq<Issue>,
    state: OrchestratorState,
    max: usize,
    workflow: Seq<char>,
    global_max: Option<usize>,
    k: int,
)
    requires
        0 <= k < picks(candidates, state, max, workflow, global_max).len(),
    ensures
        ({
            let p = picks(candidates, state, max, workflow, global_max)[k];
            let key = workflow + "/"@ + p.identifier@;
            &&& candidates.contains(p)
            &&& p.blockers@.len() == 0
            &&& forall|i: int| 0 <= i < state.running@.len() ==> (#[trigger] state.running@[i]).0@ != key
            &&& forall|i: int| 0 <= i < state.retries@.len() ==> (#[trigger] state.retries@[i]).0@ != key
            &&& forall|i: int|
                0 <= i < state.completed@.len() ==> !((#[trigger] state.completed@[i]).issue_id@ == key
                    && state.completed@[i].success)
        }),
    decreases candidates.len(),
{
    let t = candidates.drop_last();
    let before = picks(t, state, max, workflow, global_max);
    let p = picks(candidates, state, max, workflow, global_max)[k];
    if k < before.len() {
        law_dispatched_are_free_candidates(t, state, max, workflow, global_max, k);
        assert(before[k] == p);
        let i = t.index_of(p);
        assert(candidates[i] == p);
    } else {
        assert(candidates[candidates.len() - 1] == p);
        let key = workflow + "/"@ + p.identifier@;
        assert(key_of(workflow, p.identifier@) == key);
        assert(!has_key(state.running@, key));
        assert(!has_key(state.retries@, key));
    }
}

/// A candidate that is free and has no blockers is dispatched, unless another with its
/// identifier is, or a limit is reached.
pub proof fn law_free_candidates_are_dispatched(
    candidates: Seq<Issue>,
    state: OrchestratorState,
    max: usize,
    workflow: Seq<char>,
    global_max: Option<usize>,
    i: int,
)
    requires
        0 <= i < candidates.len(),
        candidates[i].blockers@.len() == 0,
        ({
            let key = workflow + "/"@ + candidates[i].identifier@;
            &&& forall|j: int| 0 <= j < state.running@.len() ==> (#[trigger] state.running@[j]).0@ != key
            &&& forall|j: int| 0 <= j < state.retries@.len() ==> (#[trigger] state.retries@[j]).0@ != key
            &&& forall|j: int|
                0 <= j < state.completed@.len() ==> !((#[trigger] state.completed@[j]).issue_id@ == key
                    && state.completed@[j].success)
        }),
    ensures
        ({
            let p = picks(candidates, state, max, workflow, global_max);
            ||| exists|k: int|
                0 <= k < p.len() && (#[trigger] p[k]).identifier@ == candidates[i].identifier@
            ||| count_running(state.running@, workflow) + p.len() >= max
            ||| global_max is Some && state.running@.len() + p.len() >= global_max->0
        }),
    decreases candidates.len(),
{
    let t = candidates.drop_last();
    let before = picks(t, state, max, workflow, global_max);
    let p = picks(candidates, state, max, workflow, global_max);
    if i < t.len() {
        assert(t[i] == candidates[i]);
        law_free_candidates_are_dispatched(t, state, max, workflow, global_max, i);
        if exists|k: int|
            0 <= k < before.len() && (#[trigger] before[k]).identifier@ == candidates[i].identifier@ {
            let k = choose|k: int|
                0 <= k < before.len() && (#[trigger] before[k]).identifier@
                    == candidates[i].identifier@;
            assert(p[k] == before[k]);
        }
    } else {
        let key = workflow + "/"@ + candidates[i].identifier@;
        assert(key_of(workflow, candidates[i].identifier@) == key);
        assert(!is_taken(state, key));
        if can_pick(candidates[i], before, state, max, workflow, global_max) {
            assert(p[before.len() as int] == candidates[i]);
        } else if is_picked(before, candidates[i].identifier@) {
            let k = choose|k: int|
                0 <= k < before.len() && (#[trigger] before[k]).identifier@
                    == candidates[i].identifier@;
            assert(p[k] == before[k]);
        }
    }
}

/// Candidates that come first are dispatched first: those behind them change nothing
/// about which of them are.
pub proof fn law_earlier_candidates_go_first(
    a: Seq<Issue>,
    b: Seq<Issue>,
    state: OrchestratorState,
    max: usize,
    workflow: Seq<char>,
    global_max: Option<usize>,
)
    ensures
        ({
            let first = picks(a, state, max, workflow, global_max);
            let all = picks(a + b, state, max, workflow, global_max);
            first.len() <= all.len() && all.take(first.len() as int) == first
        }),
    decreases b.len(),
{
    let first = picks(a, state, max, workflow, global_max);
    let all = picks(a + b, state, max, workflow, global_max);
    if b.len() > 0 {
        law_earlier_candidates_go_first(a, b.drop_last(), state, max, workflow, global_max);
        assert((a + b).drop_last() =~= a + b.drop_last());
        let before = picks(a + b.drop_last(), state, max, workflow, global_max);
        assert(all.take(first.len() as int) =~= before.take(first.len() as int));
    } else {
        assert(a + b =~= a);
        assert(all.take(first.len() as int) =~= first);
    }
}

/// A session that has started for an issue runs under its key, on that issue, in that
/// workflow, from that time on, and may be silent as long as is configured.
pub proof fn law_started_session_is_the_issue(
    state: OrchestratorState,
    issue: Issue,
    workflow: Seq<char>,
    stall_timeout_ms: u64,
    now: Timestamp,
)
    requires
        is_started(state, issue, workflow, stall_timeout_ms, now),
    ensures
        ({
            let e = state.running.at(workflow + "/"@ + issue.identifier@);
            &&& e is Some
            &&& e->0.issue.deep_view() == issue.deep_view()
            &&& e->0.workflow_id@ == workflow
            &&& e->0.stall_timeout.nanos == stall_timeout_ms * 1_000_000
            &&& e->0.session.started_at == now
            &&& e->0.session.last_activity == now
            &&& e->0.session.attempts@.len() == 0
        }),
{
    assert(key_of(workflow, issue.identifier@) == workflow + "/"@ + issue.identifier@);
}

/// The identifiers that Sentry issues have are those that begin with its prefix; none
/// are where Sentry is not enabled or has no prefix.
pub proof fn law_sentry_ids_have_the_prefix(
    enabled: bool,
    prefix: Seq<char>,
    rest: Seq<char>,
    id: Seq<char>,
)
    ensures
        enabled && prefix.len() > 0 ==> is_sentry_id(enabled, prefix, prefix + rest),
        !enabled ==> !is_sentry_id(enabled, prefix, id),
        prefix.len() == 0 ==> !is_sentry_id(enabled, prefix, id),
        is_sentry_id(enabled, prefix, id) ==> id == prefix + id.skip(prefix.len() as int),
{
    let s = prefix + rest;
    assert(s.subrange(0, prefix.len() as int) =~= prefix);
    if is_sentry_id(enabled, prefix, id) {
        assert(id =~= id.subrange(0, prefix.len() as int) + id.skip(prefix.len() as int));
    }
}

/// A retry that waits is kept as it is under its own key, ready for the next cycle;
/// other retries stay, and no session starts or ends.
pub proof fn law_waiting_retry_is_kept(
    before: OrchestratorState,
    after: OrchestratorState,
    retry: RetryEntry,
)
    requires
        waits(before, after, retry),
    ensures
        after.retries.at(retry.issue_id@) is Some,
        after.retries.at(retry.issue_id@)->0.ready,
        after.retries.at(retry.issue_id@)->0.attempt == retry.attempt,
        after.retries.at(retry.issue_id@)->0.issue_id == retry.issue_id,
        after.retries.at(retry.issue_id@)->0.workflow_id == retry.workflow_id,
        forall|k: Seq<char>|
            k != retry.issue_id@ ==> #[trigger] after.retries.at(k) == before.retries.at(k),
        after.running == before.running,
        after.completed == before.completed,
        after.open_prs == before.open_prs,
{
}

/// One more session may run exactly where the workflow has fewer than its limit and
/// all workflows together fewer than theirs, if there is one.
pub proof fn law_room_below_limits(
    state: OrchestratorState,
    max: usize,
    workflow: Seq<char>,
    global_max: Option<usize>,
)
    ensures
        has_room(state, max, workflow, global_max) <==> count_running(state.running@, workflow)
            < max && (global_max is None || state.running@.len() < global_max->0),
{
}

/// A workspace is removed exactly where it is not to be spared and its time is known
/// and lies at least the limit back.
pub proof fn law_reaped_exactly_when_old(
    names: Seq<String>,
    skip: Seq<String>,
    now: Timestamp,
    max_age: Duration,
    mtimes: Seq<Option<Timestamp>>,
    n: Seq<char>,
)
    ensures
        reapable(names, skip, now, max_age, mtimes).contains(n) <==> exists|i: int|
            0 <= i < names.len() && (#[trigger] names[i])@ == n && i < mtimes.len()
                && mtimes[i] is Some && now.at() - mtimes[i]->0.at() >= max_age.nanos && (forall|
                j: int,
            |
                0 <= j < skip.len() ==> (#[trigger] skip[j])@ != n),
    decreases names.len(),
{
    if names.len() > 0 {
        let t = names.drop_last();
        let last = names.len() - 1;
        law_reaped_exactly_when_old(t, skip, now, max_age, mtimes, n);
        let before = reapable(t, skip, now, max_age, mtimes);
        let all = reapable(names, skip, now, max_age, mtimes);
        if has_item(skip, n) {
            let j = choose|j: int| 0 <= j < skip.len() && (#[trigger] skip[j])@ == n;
            assert(skip[j]@ == n);
        }
        if all.contains(n) {
            let k = all.index_of(n);
            if k < before.len() {
                assert(before[k] == n);
                let i = choose|i: int|
                    0 <= i < t.len() && (#[trigger] t[i])@ == n && i < mtimes.len()
                        && mtimes[i] is Some && now.at() - mtimes[i]->0.at() >= max_age.nanos && (
                    forall|j: int| 0 <= j < skip.len() ==> (#[trigger] skip[j])@ != n);
                assert(names[i] == t[i]);
            } else {
                assert(names[last]@ == n);
            }
        }
        if exists|i: int|
            0 <= i < names.len() && (#[trigger] names[i])@ == n && i < mtimes.len()
                && mtimes[i] is Some && now.at() - mtimes[i]->0.at() >= max_age.nanos && (forall|
                j: int,
            |
                0 <= j < skip.len() ==> (#[trigger] skip[j])@ != n) {
            let i = choose|i: int|
                0 <= i < names.len() && (#[trigger] names[i])@ == n && i < mtimes.len()
                    && mtimes[i] is Some && now.at() - mtimes[i]->0.at() >= max_age.nanos && (forall|
                    j: int,
                |
                    0 <= j < skip.len() ==> (#[trigger] skip[j])@ != n);
            if i < last {
                assert(t[i] == names[i]);
                let k = before.index_of(n);
                assert(all[k] == n);
            } else {
                assert(all[all.len() - 1] == n);
            }
        }
    }
}

/// The workspace of an issue that runs in the workflow is in use, and so is that of an
/// issue with an open PR, in whichever workflow; no other is.
pub proof fn law_workspaces_in_use(state: OrchestratorState, workflow: Seq<char>, name: Seq<char>)
    ensures
        is_in_use(state, workflow, name) <==> {
            ||| exists|i: int|
                0 <= i < state.running@.len() && (#[trigger] state.running@[i]).1.workflow_id@
                    == workflow && sanitized(state.running@[i].1.issue.identifier@) == name
            ||| exists|i: int|
                0 <= i < state.open_prs@.len() && sanitized(
                    (#[trigger] state.open_prs@[i]).1.issue.identifier@,
                ) == name
        },
{
    if runs_as(state.running@, workflow, name) {
        let s = state.running@;
        let i = choose|i: int|
            0 <= i < s.len() && s[i].1.workflow_id@ == workflow && sanitized(
                (#[trigger] s[i]).1.issue.identifier@,
            ) == name;
        assert(s[i].1.workflow_id@ == workflow);
    }
}

/// The step alone where it is done, and nothing where it is not.
pub open spec fn done_if(b: bool, step: CycleStep) -> Seq<CycleStep> {
    if b {
        seq![step]
    } else {
        seq![]
    }
}

proof fn lemma_course_step(c: Cycle, step: CycleStep, notion_ok: bool, sentry_ok: bool, fuel: nat)
    requires
        fuel > 0,
        !(step is End),
    ensures
        ({
            let ok = match step {
                CycleStep::FetchNotion => notion_ok,
                CycleStep::FetchSentry => sentry_ok,
                _ => true,
            };
            let (d, next) = c.next(step, ok);
            course(c, step, notion_ok, sentry_ok, fuel) == seq![step] + course(
                d,
                next,
                notion_ok,
                sentry_ok,
                (fuel - 1) as nat,
            )
        }),
{
}

proof fn lemma_course_end(c: Cycle, notion_ok: bool, sentry_ok: bool, fuel: nat)
    ensures
        course(c, CycleStep::End, notion_ok, sentry_ok, fuel) == Seq::<CycleStep>::empty(),
{
}

proof fn lemma_course_of_rest(c: Cycle, notion_ok: bool, sentry_ok: bool, fuel: nat)
    requires
        fuel >= 2,
    ensures
        course(c, c.rest(), notion_ok, sentry_ok, fuel) == done_if(
            c.reviews,
            CycleStep::CheckReviews,
        ) + done_if(c.reap, CycleStep::Reap),
{
    let f1 = (fuel - 1) as nat;
    let f2 = (fuel - 2) as nat;
    lemma_course_end(c, notion_ok, sentry_ok, fuel);
    lemma_course_end(c, notion_ok, sentry_ok, f1);
    lemma_course_end(c, notion_ok, sentry_ok, f2);
    lemma_course_step(c, CycleStep::CheckReviews, notion_ok, sentry_ok, fuel);
    lemma_course_step(c, CycleStep::Reap, notion_ok, sentry_ok, fuel);
    lemma_course_step(c, CycleStep::Reap, notion_ok, sentry_ok, f1);
    assert(course(c, c.rest(), notion_ok, sentry_ok, fuel) =~= done_if(
        c.reviews,
        CycleStep::CheckReviews,
    ) + done_if(c.reap, CycleStep::Reap));
}

proof fn lemma_course_of_dispatch(c: Cycle, notion_ok: bool, sentry_ok: bool, fuel: nat)
    requires
        fuel >= 5,
    ensures
        course(c, CycleStep::Dispatch, notion_ok, sentry_ok, fuel) == seq![CycleStep::Dispatch]
            + done_if(c.notion, CycleStep::CleanNotion) + done_if(c.sentry, CycleStep::CleanSentry) + (
        done_if(c.reviews, CycleStep::CheckReviews) + done_if(c.reap, CycleStep::Reap)),
{
    let f1 = (fuel - 1) as nat;
    let f2 = (fuel - 2) as nat;
    let f3 = (fuel - 3) as nat;
    lemma_course_of_rest(c, notion_ok, sentry_ok, f1);
    lemma_course_of_rest(c, notion_ok, sentry_ok, f2);
    lemma_course_of_rest(c, notion_ok, sentry_ok, f3);
    lemma_course_step(c, CycleStep::Dispatch, notion_ok, sentry_ok, fuel);
    lemma_course_step(c, CycleStep::CleanNotion, notion_ok, sentry_ok, f1);
    lemma_course_step(c, CycleStep::CleanSentry, notion_ok, sentry_ok, f1);
    lemma_course_step(c, CycleStep::CleanSentry, notion_ok, sentry_ok, f2);
    let last = done_if(c.reviews, CycleStep::CheckReviews) + done_if(c.reap, CycleStep::Reap);
    assert(course(c, CycleStep::Dispatch, notion_ok, sentry_ok, fuel) =~= seq![CycleStep::Dispatch]
        + done_if(c.notion, CycleStep::CleanNotion) + done_if(c.sentry, CycleStep::CleanSentry)
        + last);
}

/// A cycle goes through its steps in one order. Without capacity it looks for no work;
/// where Notion was asked and did not answer it ends there; where Sentry did not
/// answer it goes on, without cleaning up after it. PRs and stale workspaces come
/// last.
pub proof fn law_course_of_a_cycle(c: Cycle, notion_ok: bool, sentry_ok: bool)
    ensures
        ({
            let last = done_if(c.reviews, CycleStep::CheckReviews) + done_if(
                c.reap,
                CycleStep::Reap,
            );
            let work = done_if(c.sentry, CycleStep::FetchSentry) + seq![CycleStep::Dispatch]
                + done_if(c.notion, CycleStep::CleanNotion) + done_if(
                c.sentry && sentry_ok,
                CycleStep::CleanSentry,
            ) + last;
            let all = course(c, c.start(), notion_ok, sentry_ok, 8);
            &&& !c.capacity ==> all == last
            &&& c.capacity && c.notion && !notion_ok ==> all == seq![CycleStep::FetchNotion]
            &&& c.capacity && c.notion && notion_ok ==> all == seq![CycleStep::FetchNotion] + work
            &&& c.capacity && !c.notion ==> all == work
        }),
{
    let last = done_if(c.reviews, CycleStep::CheckReviews) + done_if(c.reap, CycleStep::Reap);
    let work = done_if(c.sentry, CycleStep::FetchSentry) + seq![CycleStep::Dispatch] + done_if(
        c.notion,
        CycleStep::CleanNotion,
    ) + done_if(c.sentry && sentry_ok, CycleStep::CleanSentry) + last;
    let all = course(c, c.start(), notion_ok, sentry_ok, 8);
    let d = Cycle { sentry: sentry_ok, ..c };
    if !c.capacity {
        lemma_course_of_rest(c, notion_ok, sentry_ok, 8);
    } else {
        lemma_course_step(c, CycleStep::FetchNotion, notion_ok, sentry_ok, 8);
        lemma_course_end(c, notion_ok, sentry_ok, 7);
        if c.sentry {
            lemma_course_step(c, CycleStep::FetchSentry, notion_ok, sentry_ok, 8);
            lemma_course_step(c, CycleStep::FetchSentry, notion_ok, sentry_ok, 7);
            lemma_course_of_dispatch(d, notion_ok, sentry_ok, 7);
            lemma_course_of_dispatch(d, notion_ok, sentry_ok, 6);
        } else {
            lemma_course_of_dispatch(c, notion_ok, sentry_ok, 8);
            lemma_course_of_dispatch(c, notion_ok, sentry_ok, 7);
        }
        if c.notion && !notion_ok {
            assert(all =~= seq![CycleStep::FetchNotion]);
        } else if c.notion {
            assert(all =~= seq![CycleStep::FetchNotion] + work);
        } else {
            assert(all =~= work);
        }
    }
}

/// An issue has an open PR exactly where one of the monitored PRs is for it.
pub proof fn law_open_pr_of_an_issue(prs: Seq<(String, OpenPr)>, id: Seq<char>)
    ensures
        has_open_pr(prs, id) <==> exists|i: int|
            0 <= i < prs.len() && id == (#[trigger] prs[i]).1.issue.identifier@,
{
    if has_open_pr(prs, id) {
        let i = choose|i: int| 0 <= i < prs.len() && (#[trigger] prs[i]).1.issue.identifier@ == id;
        assert(id == prs[i].1.issue.identifier@);
    }
}

} // verus!
