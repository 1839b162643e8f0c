//! The orchestrator's decisions: what to start, what to retry, what to remove.
pub mod dispatch;
pub mod pr_review;
pub mod pull_request;
pub mod reconcile;
pub mod retry;
pub mod review_worker;
pub mod tick;
pub mod worker;

use vstd::prelude::*;
use crate::domain::state::{remembered, OrchestratorState};
use crate::domain::retry::RetryEntry;
use crate::json::Json;
use crate::time::{Duration, Timestamp};

verus! {

/// Events that drive the orchestrator.
#[derive(Debug)]
pub enum OrchestratorEvent {
    WorkerCompleted { state_key: String, success: bool, error: Option<String> },
    RetryFired { state_key: String, workflow_id: String },
    AgentUpdate { state_key: String, event: Json },
    ConfigReloaded,
    RefreshRequested,
}

/// What an event does to the state.
pub open spec fn handles(
    before: OrchestratorState,
    after: OrchestratorState,
    event: OrchestratorEvent,
    now: Timestamp,
) -> bool {
    match event {
        OrchestratorEvent::WorkerCompleted { state_key, success, error } => {
            &&& after.running.at(state_key@) is None
            &&& forall|k: Seq<char>|
                k != state_key@ ==> #[trigger] after.running.at(k) == before.running.at(k)
            &&& ({
                let e = after.completed@.last();
                &&& after.completed@ == remembered(before.completed@.push(e))
                &&& e.issue_id@ == state_key@
                &&& e.success == success
                &&& e.error == error
                &&& e.completed_at == now
                &&& match before.running.at(state_key@) {
                    Some(r) => e.issue == Some(r.issue) && e.workflow_id == r.workflow_id
                        && e.attempts == r.session.attempts.len() as u32,
                    None => e.issue is None && e.workflow_id@.len() == 0 && e.attempts == 0,
                }
            })
            &&& after.retries == before.retries
            &&& after.tokens == before.tokens
            &&& after.open_prs == before.open_prs
        },
        OrchestratorEvent::RetryFired { state_key, workflow_id } => {
            &&& match before.retries.at(state_key@) {
                Some(e) => after.retries.at(state_key@) == Some((RetryEntry { ready: true, ..e })),
                None => after.retries@ == before.retries@,
            }
            &&& forall|k: Seq<char>|
                k != state_key@ ==> #[trigger] after.retries.at(k) == before.retries.at(k)
            &&& after.running == before.running
            &&& after.completed == before.completed
            &&& after.tokens == before.tokens
            &&& after.open_prs == before.open_prs
        },
        _ => after == before,
    }
}

/// How long to wait between cycles: as long as the most frequent workflow, or
/// half a minute where there is none.
pub fn poll_interval(intervals: &Vec<Duration>) -> (r: Duration)
    ensures
        intervals@.len() == 0 ==> r.nanos == 30_000_000_000,
        intervals@.len() > 0 ==> intervals@.contains(r),
        forall|i: int| 0 <= i < intervals@.len() ==> r.nanos <= (#[trigger] intervals@[i]).nanos,
{
    if intervals.len() == 0 {
        return Duration::from_secs(30);
    }
    let mut least = intervals[0];
    let mut i: usize = 1;
    while i < intervals.len()
        invariant
            1 <= i <= intervals@.len(),
            intervals@.contains(least),
            forall|j: int| 0 <= j < i ==> least.nanos <= (#[trigger] intervals@[j]).nanos,
        decreases intervals@.len() - i,
    {
        if intervals[i].nanos < least.nanos {
            least = intervals[i];
        }
        i += 1;
    }
    least
}

/// Take note of an event; whether a cycle is to run at once.
pub fn on_event(state: &mut OrchestratorState, event: OrchestratorEvent, now: Timestamp) -> (poll: bool)
    requires
        old(state).wf(),
        now.in_calendar(),
    ensures
        final(state).wf(),
        handles(*old(state), *final(state), event, now),
        poll == (event is RefreshRequested),
{
    match event {
        OrchestratorEvent::WorkerCompleted { state_key, success, error } => {
            state.mark_worker_done(state_key.as_str(), success, error, now);
            false
        },
        OrchestratorEvent::RetryFired { state_key, workflow_id: _ } => {
            state.mark_retry_ready(state_key.as_str());
            false
        },
        OrchestratorEvent::AgentUpdate { state_key: _, event: _ } => false,
        OrchestratorEvent::ConfigReloaded => false,
        OrchestratorEvent::RefreshRequested => true,
    }
}

/// When a worker is done, its session runs no more and is remembered as it ended: under
/// its key, with its success and error, the time, and the issue and workflow it ran
/// for. Other sessions run on, and nothing else changes.
pub proof fn law_done_worker_is_remembered(
    before: OrchestratorState,
    after: OrchestratorState,
    state_key: String,
    success: bool,
    error: Option<String>,
    now: Timestamp,
)
    requires
        handles(
            before,
            after,
            (OrchestratorEvent::WorkerCompleted { state_key, success, error }),
            now,
        ),
    ensures
        after.running.at(state_key@) is None,
        forall|k: Seq<char>|
            k != state_key@ ==> #[trigger] after.running.at(k) == before.running.at(k),
        after.completed@.len() > 0,
        after.completed@.last().issue_id@ == state_key@,
        after.completed@.last().success == success,
        after.completed@.last().error == error,
        after.completed@.last().completed_at == now,
        before.running.at(state_key@) matches Some(r) ==> after.completed@.last().issue == Some(
            r.issue,
        ) && after.completed@.last().workflow_id == r.workflow_id,
        before.completed@.len() < 50 ==> after.completed@ == before.completed@.push(
            after.completed@.last(),
        ),
        after.retries == before.retries,
        after.open_prs == before.open_prs,
        after.tokens == before.tokens,
{
}

/// When the wait of a retry is over, that retry is ready, and else as it was; other
/// retries, and all that runs or is done, stay as they are.
pub proof fn law_fired_retry_is_ready(
    before: OrchestratorState,
    after: OrchestratorState,
    state_key: String,
    workflow_id: String,
    now: Timestamp,
)
    requires
        handles(
            before,
            after,
            (OrchestratorEvent::RetryFired { state_key, workflow_id }),
            now,
        ),
    ensures
        before.retries.at(state_key@) matches Some(e) ==> {
            &&& after.retries.at(state_key@) is Some
            &&& after.retries.at(state_key@)->0.ready
            &&& after.retries.at(state_key@)->0.attempt == e.attempt
            &&& after.retries.at(state_key@)->0.issue_id == e.issue_id
            &&& after.retries.at(state_key@)->0.workflow_id == e.workflow_id
        },
        before.retries.at(state_key@) is None ==> after.retries@ == before.retries@,
        forall|k: Seq<char>|
            k != state_key@ ==> #[trigger] after.retries.at(k) == before.retries.at(k),
        after.running == before.running,
        after.completed == before.completed,
        after.open_prs == before.open_prs,
{
}

/// News of an agent, of the configuration or of a refresh leave the state as it is.
pub proof fn law_other_events_change_nothing(
    before: OrchestratorState,
    after: OrchestratorState,
    event: OrchestratorEvent,
    now: Timestamp,
)
    requires
        handles(before, after, event, now),
        event is AgentUpdate || event is ConfigReloaded || event is RefreshRequested,
    ensures
        after == before,
{
}

} // verus!
