//! What is running, waiting, done, and open for review.
use vstd::prelude::*;
use crate::collections::{has_key, key_index, lemma_lookup_at, lookup, unique_keys, StringMap};
use crate::domain::issue::{Issue, IssueView};
use crate::domain::retry::RetryEntry;
use crate::domain::session::{AgentEvent, LiveSession, LiveSessionView, RunStatus};
use crate::text::str_eq;
use crate::time::{Duration, Timestamp};

verus! {

/// How many finished sessions are remembered.
pub const MAX_COMPLETED: usize = 50;

/// A PR opened by Symposium that is being monitored for review feedback.
#[derive(Debug)]
pub struct OpenPr {
    pub issue: Issue,
    pub pr_number: u64,
    pub workspace_dir: String,
    /// When feedback on it was last worked on, if it was.
    pub last_addressed_at: Option<Timestamp>,
    pub workflow_id: String,
    /// The branch the PR is made from.
    pub branch_name: String,
}

/// What a `OpenPr` holds.
#[verifier::ext_equal]
pub struct OpenPrView {
    pub issue: IssueView,
    pub pr_number: u64,
    pub workspace_dir: Seq<char>,
    pub last_addressed_at: Option<Timestamp>,
    pub workflow_id: Seq<char>,
    pub branch_name: Seq<char>,
}

impl DeepView for OpenPr {
    type V = OpenPrView;

    open spec fn deep_view(&self) -> OpenPrView {
        OpenPrView {
            issue: self.issue.deep_view(),
            pr_number: self.pr_number,
            workspace_dir: self.workspace_dir@,
            last_addressed_at: self.last_addressed_at,
            workflow_id: self.workflow_id@,
            branch_name: self.branch_name@,
        }
    }
}

impl Clone for OpenPr {
    fn clone(&self) -> (r: Self)
        ensures
            r.deep_view() == self.deep_view(),
    {
        OpenPr {
            issue: self.issue.clone(),
            pr_number: self.pr_number,
            workspace_dir: self.workspace_dir.clone(),
            last_addressed_at: self.last_addressed_at,
            workflow_id: self.workflow_id.clone(),
            branch_name: self.branch_name.clone(),
        }
    }
}

/// An issue that an agent works on.
#[derive(Debug)]
pub struct RunningEntry {
    pub issue: Issue,
    pub session: LiveSession,
    pub stall_timeout: Duration,
    pub workflow_id: String,
}

/// What a `RunningEntry` holds.
#[verifier::ext_equal]
pub struct RunningEntryView {
    pub issue: IssueView,
    pub session: LiveSessionView,
    pub stall_timeout: Duration,
    pub workflow_id: Seq<char>,
}

impl DeepView for RunningEntry {
    type V = RunningEntryView;

    open spec fn deep_view(&self) -> RunningEntryView {
        RunningEntryView {
            issue: self.issue.deep_view(),
            session: self.session.deep_view(),
            stall_timeout: self.stall_timeout,
            workflow_id: self.workflow_id@,
        }
    }
}

impl Clone for RunningEntry {
    fn clone(&self) -> (r: Self)
        ensures
            r.deep_view() == self.deep_view(),
    {
        RunningEntry {
            issue: self.issue.clone(),
            session: self.session.clone(),
            stall_timeout: self.stall_timeout,
            workflow_id: self.workflow_id.clone(),
        }
    }
}

/// A session that has ended.
#[derive(Debug)]
pub struct CompletedEntry {
    /// The state key of the session.
    pub issue_id: String,
    /// The issue worked on, where the session was a running one.
    pub issue: Option<Issue>,
    pub success: bool,
    pub error: Option<String>,
    pub completed_at: Timestamp,
    pub attempts: u32,
    pub workflow_id: String,
}

/// What a `CompletedEntry` holds.
#[verifier::ext_equal]
pub struct CompletedEntryView {
    pub issue_id: Seq<char>,
    pub issue: Option<IssueView>,
    pub success: bool,
    pub error: Option<Seq<char>>,
    pub completed_at: Timestamp,
    pub attempts: u32,
    pub workflow_id: Seq<char>,
}

impl DeepView for CompletedEntry {
    type V = CompletedEntryView;

    open spec fn deep_view(&self) -> CompletedEntryView {
        CompletedEntryView {
            issue_id: self.issue_id@,
            issue: self.issue.deep_view(),
            success: self.success,
            error: self.error.deep_view(),
            completed_at: self.completed_at,
            attempts: self.attempts,
            workflow_id: self.workflow_id@,
        }
    }
}

impl Clone for CompletedEntry {
    fn clone(&self) -> (r: Self)
        ensures
            r.deep_view() == self.deep_view(),
    {
        CompletedEntry {
            issue_id: self.issue_id.clone(),
            issue: self.issue.clone(),
            success: self.success,
            error: self.error.clone(),
            completed_at: self.completed_at,
            attempts: self.attempts,
            workflow_id: self.workflow_id.clone(),
        }
    }
}

/// How many tokens were used.
#[derive(Debug)]
pub struct TokenTotals {
    pub input_tokens: u64,
    pub output_tokens: u64,
}

/// What a `TokenTotals` holds.
#[verifier::ext_equal]
pub struct TokenTotalsView {
    pub input_tokens: u64,
    pub output_tokens: u64,
}

impl DeepView for TokenTotals {
    type V = TokenTotalsView;

    open spec fn deep_view(&self) -> TokenTotalsView {
        TokenTotalsView {
            input_tokens: self.input_tokens,
            output_tokens: self.output_tokens,
        }
    }
}

impl Clone for TokenTotals {
    fn clone(&self) -> (r: Self)
        ensures
            r.deep_view() == self.deep_view(),
    {
        TokenTotals {
            input_tokens: self.input_tokens,
            output_tokens: self.output_tokens,
        }
    }
}

/// Everything the state holds at one moment.
#[derive(Debug)]
pub struct StateSnapshot {
    pub running: Vec<RunningEntry>,
    /// The state keys of the issues that wait to be tried again.
    pub retries: Vec<String>,
    pub completed: Vec<CompletedEntry>,
    pub tokens: TokenTotals,
    pub open_prs: Vec<OpenPr>,
}

/// What a `StateSnapshot` holds.
#[verifier::ext_equal]
pub struct StateSnapshotView {
    pub running: Seq<RunningEntryView>,
    pub retries: Seq<Seq<char>>,
    pub completed: Seq<CompletedEntryView>,
    pub tokens: TokenTotalsView,
    pub open_prs: Seq<OpenPrView>,
}

impl DeepView for StateSnapshot {
    type V = StateSnapshotView;

    open spec fn deep_view(&self) -> StateSnapshotView {
        StateSnapshotView {
            running: self.running.deep_view(),
            retries: self.retries.deep_view(),
            completed: self.completed.deep_view(),
            tokens: self.tokens.deep_view(),
            open_prs: self.open_prs.deep_view(),
        }
    }
}

impl Clone for StateSnapshot {
    fn clone(&self) -> (r: Self)
        ensures
            r.deep_view() == self.deep_view(),
    {
        let r = StateSnapshot {
            running: self.running.clone(),
            retries: self.retries.clone(),
            completed: self.completed.clone(),
            tokens: self.tokens.clone(),
            open_prs: self.open_prs.clone(),
        };
        assert(r.running.deep_view() =~= self.running.deep_view());
        assert(r.retries.deep_view() =~= self.retries.deep_view());
        assert(r.completed.deep_view() =~= self.completed.deep_view());
        assert(r.open_prs.deep_view() =~= self.open_prs.deep_view());
        r
    }
}

/// What is running, waiting to be tried again, done, and open for review.
#[derive(Debug)]
pub struct OrchestratorState {
    pub running: StringMap<RunningEntry>,
    pub retries: StringMap<RetryEntry>,
    pub completed: Vec<CompletedEntry>,
    pub tokens: TokenTotals,
    pub open_prs: StringMap<OpenPr>,
}

/// How many of the running entries belong to a workflow.
pub open spec fn count_running(s: Seq<(String, RunningEntry)>, workflow: Seq<char>) -> nat
    decreases s.len(),
{
    if s.len() == 0 {
        0
    } else {
        count_running(s.drop_last(), workflow) + if s.last().1.workflow_id@ == workflow {
            1nat
        } else {
            0nat
        }
    }
}

/// A retry of the given workflow whose waiting is over.
pub open spec fn is_due(e: RetryEntry, workflow: Seq<char>) -> bool {
    e.ready && e.workflow_id@ == workflow
}

/// The retries that are due, in order.
pub open spec fn due(s: Seq<(String, RetryEntry)>, workflow: Seq<char>) -> Seq<RetryEntry>
    decreases s.len(),
{
    if s.len() == 0 {
        seq![]
    } else if is_due(s.last().1, workflow) {
        due(s.drop_last(), workflow).push(s.last().1)
    } else {
        due(s.drop_last(), workflow)
    }
}

/// The entries whose retries are not due, in order.
pub open spec fn not_due(s: Seq<(String, RetryEntry)>, workflow: Seq<char>) -> Seq<
    (String, RetryEntry),
>
    decreases s.len(),
{
    if s.len() == 0 {
        seq![]
    } else if is_due(s.last().1, workflow) {
        not_due(s.drop_last(), workflow)
    } else {
        not_due(s.drop_last(), workflow).push(s.last())
    }
}

/// How long a session may be silent, in nanoseconds: its stall timeout, or 300
/// seconds where that is more than 2^63 - 1 milliseconds.
pub open spec fn stall_threshold(timeout: Duration) -> int {
    if timeout.nanos <= 9_223_372_036_854_775_807_000_000 {
        timeout.nanos as int
    } else {
        300_000_000_000
    }
}

/// A session that has been silent for longer than it may.
pub open spec fn is_stalled(e: RunningEntry, now: Timestamp) -> bool {
    now.at() - e.session.last_activity.at() > stall_threshold(e.stall_timeout)
}

/// The keys and stall timeouts of the stalled sessions, in order.
pub open spec fn stalled(s: Seq<(String, RunningEntry)>, now: Timestamp) -> Seq<
    (Seq<char>, Duration),
>
    decreases s.len(),
{
    if s.len() == 0 {
        seq![]
    } else if is_stalled(s.last().1, now) {
        stalled(s.drop_last(), now).push((s.last().0@, s.last().1.stall_timeout))
    } else {
        stalled(s.drop_last(), now)
    }
}

/// The identifiers of the issues that run in a workflow, in order.
pub open spec fn running_ids(s: Seq<(String, RunningEntry)>, workflow: Seq<char>) -> Seq<Seq<char>>
    decreases s.len(),
{
    if s.len() == 0 {
        seq![]
    } else if s.last().1.workflow_id@ == workflow {
        running_ids(s.drop_last(), workflow).push(s.last().1.issue.identifier@)
    } else {
        running_ids(s.drop_last(), workflow)
    }
}

/// A session under the key `key` ended successfully and is remembered.
pub open spec fn has_succeeded(s: Seq<CompletedEntry>, key: Seq<char>) -> bool {
    exists|i: int| 0 <= i < s.len() && (#[trigger] s[i]).issue_id@ == key && s[i].success
}

/// The last `MAX_COMPLETED` of the finished sessions.
pub open spec fn remembered(s: Seq<CompletedEntry>) -> Seq<CompletedEntry> {
    if s.len() > MAX_COMPLETED {
        s.skip(s.len() - MAX_COMPLETED)
    } else {
        s
    }
}

proof fn lemma_not_due(s: Seq<(String, RetryEntry)>, workflow: Seq<char>)
    ensures
        unique_keys(s) ==> unique_keys(not_due(s, workflow)),
        forall|k: Seq<char>| #[trigger] has_key(not_due(s, workflow), k) ==> has_key(s, k),
        forall|i: int|
            0 <= i < not_due(s, workflow).len() ==> s.contains(#[trigger] not_due(s, workflow)[i])
                && !is_due(not_due(s, workflow)[i].1, workflow),
        forall|i: int|
            0 <= i < s.len() && !is_due((#[trigger] s[i]).1, workflow) ==> not_due(
                s,
                workflow,
            ).contains(s[i]),
    decreases s.len(),
{
    if s.len() > 0 {
        let t = s.drop_last();
        lemma_not_due(t, workflow);
        let a = not_due(t, workflow);
        let b = not_due(s, workflow);
        assert forall|k: Seq<char>| #[trigger] has_key(b, k) implies has_key(s, k) by {
            let i = choose|i: int| 0 <= i < b.len() && (#[trigger] b[i]).0@ == k;
            if i < a.len() {
                assert(a[i].0@ == k);
                assert(has_key(a, k));
                let j = choose|j: int| 0 <= j < t.len() && (#[trigger] t[j]).0@ == k;
                assert(s[j].0@ == k);
            } else {
                assert(s[s.len() - 1].0@ == k);
            }
        }
        assert forall|i: int| 0 <= i < b.len() implies s.contains(#[trigger] b[i]) && !is_due(
            b[i].1,
            workflow,
        ) by {
            if i < a.len() {
                assert(a[i] == b[i]);
                assert(t.contains(a[i]));
                let j = t.index_of(a[i]);
                assert(s[j] == b[i]);
            } else {
                assert(s[s.len() - 1] == b[i]);
            }
        }
        assert forall|i: int|
            0 <= i < s.len() && !is_due((#[trigger] s[i]).1, workflow) implies b.contains(s[i]) by {
            if i < t.len() {
                assert(t[i] == s[i]);
                assert(a.contains(t[i]));
                let j = a.index_of(t[i]);
                assert(b[j] == s[i]);
            } else {
                assert(b[b.len() - 1] == s[i]);
            }
        }
        if unique_keys(s) {
            assert(unique_keys(t)) by {
                assert forall|i: int, j: int| 0 <= i < j < t.len() implies (#[trigger] t[i]).0@ != (
                #[trigger] t[j]).0@ by {
                    assert(s[i].0@ != s[j].0@);
                }
            }
            assert forall|i: int, j: int| 0 <= i < j < b.len() implies (#[trigger] b[i]).0@ != (
            #[trigger] b[j]).0@ by {
                if j < a.len() {
                    assert(a[i].0@ != a[j].0@);
                } else {
                    assert(a[i] == b[i]);
                    assert(t.contains(a[i]));
                    let m = t.index_of(a[i]);
                    assert(s[m].0@ != s[s.len() - 1].0@);
                }
            }
        }
    }
}

/// Taking the retries of a workflow that are ready takes each of them once, and
/// leaves every other retry where it is.
pub proof fn law_ready_retries_taken_once(s: Seq<(String, RetryEntry)>, workflow: Seq<char>)
    ensures
        due(s, workflow).len() + not_due(s, workflow).len() == s.len(),
        due(not_due(s, workflow), workflow) == Seq::<RetryEntry>::empty(),
        not_due(not_due(s, workflow), workflow) == not_due(s, workflow),
        forall|i: int|
            0 <= i < s.len() ==> if is_due((#[trigger] s[i]).1, workflow) {
                due(s, workflow).contains(s[i].1)
            } else {
                not_due(s, workflow).contains(s[i])
            },
    decreases s.len(),
{
    if s.len() > 0 {
        let t = s.drop_last();
        law_ready_retries_taken_once(t, workflow);
        lemma_not_due(s, workflow);
        let a = not_due(t, workflow);
        if !is_due(s.last().1, workflow) {
            assert(a.push(s.last()).drop_last() =~= a);
        }
        let d = due(s, workflow);
        assert forall|i: int| 0 <= i < s.len() && is_due((#[trigger] s[i]).1, workflow) implies d.contains(
            s[i].1,
        ) by {
            if i < t.len() {
                assert(t[i] == s[i]);
                assert(due(t, workflow).contains(t[i].1));
                let j = due(t, workflow).index_of(t[i].1);
                assert(d[j] == s[i].1);
            } else {
                assert(d[d.len() - 1] == s[i].1);
            }
        }
    }
}

/// The session that ended last is always remembered, and so are the others
/// until as many as may be remembered have ended after them.
pub proof fn law_latest_sessions_remembered(s: Seq<CompletedEntry>, i: int)
    requires
        0 <= i < s.len(),
        s.len() - i <= MAX_COMPLETED,
    ensures
        remembered(s).len() <= MAX_COMPLETED,
        remembered(s).contains(s[i]),
        s[i].success ==> has_succeeded(remembered(s), s[i].issue_id@),
{
    let r = remembered(s);
    let k = i - (s.len() - r.len());
    assert(r[k] == s[i]);
}

impl OrchestratorState {
    /// No key occurs twice, no more finished sessions are remembered than may
    /// be, and the calendar has a date for when each of them ended.
    pub open spec fn wf(&self) -> bool {
        &&& self.running.wf()
        &&& self.retries.wf()
        &&& self.open_prs.wf()
        &&& self.completed@.len() <= MAX_COMPLETED
        &&& forall|i: int|
            0 <= i < self.completed@.len() ==> (
            #[trigger] self.completed@[i]).completed_at.in_calendar()
    }

    /// A state in which nothing has happened yet.
    pub fn new() -> (r: Self)
        ensures
            r.wf(),
            r.running@.len() == 0,
            r.retries@.len() == 0,
            r.completed@.len() == 0,
            r.tokens.input_tokens == 0,
            r.tokens.output_tokens == 0,
            r.open_prs@.len() == 0,
    {
        OrchestratorState {
            running: StringMap::new(),
            retries: StringMap::new(),
            completed: Vec::new(),
            tokens: TokenTotals { input_tokens: 0, output_tokens: 0 },
            open_prs: StringMap::new(),
        }
    }

    /// Whether a session runs under the key.
    pub fn is_running(&self, state_key: &str) -> (r: bool)
        ensures
            r == has_key(self.running@, state_key@),
    {
        self.running.contains_key(state_key)
    }

    /// Whether a retry is scheduled under the key.
    pub fn is_in_retry(&self, state_key: &str) -> (r: bool)
        ensures
            r == has_key(self.retries@, state_key@),
    {
        self.retries.contains_key(state_key)
    }

    /// Whether a session under the key ended successfully and is remembered.
    pub fn is_completed_successfully(&self, state_key: &str) -> (r: bool)
        ensures
            r == has_succeeded(self.completed@, state_key@),
    {
        let mut i: usize = 0;
        while i < self.completed.len()
            invariant
                i <= self.completed@.len(),
                forall|k: int|
                    0 <= k < i ==> !((#[trigger] self.completed@[k]).issue_id@ == state_key@
                        && self.completed@[k].success),
            decreases self.completed@.len() - i,
        {
            if self.completed[i].success && str_eq(self.completed[i].issue_id.as_str(), state_key) {
                return true;
            }
            i += 1;
        }
        false
    }

    /// How many sessions run.
    pub fn running_count(&self) -> (n: usize)
        ensures
            n == self.running@.len(),
    {
        self.running.len()
    }

    /// How many sessions of a workflow run.
    pub fn running_count_for_workflow(&self, workflow_id: &str) -> (n: usize)
        ensures
            n == count_running(self.running@, workflow_id@),
    {
        let mut n: usize = 0;
        let mut i: usize = 0;
        while i < self.running.entries.len()
            invariant
                i <= self.running@.len(),
                n <= i,
                n == count_running(self.running@.take(i as int), workflow_id@),
            decreases self.running@.len() - i,
        {
            assert(self.running@.take(i + 1).drop_last() =~= self.running@.take(i as int));
            if str_eq(self.running.entries[i].1.workflow_id.as_str(), workflow_id) {
                n += 1;
            }
            i += 1;
        }
        assert(self.running@.take(i as int) =~= self.running@);
        n
    }

    /// The identifiers of the issues that run in a workflow.
    pub fn running_issue_ids_for_workflow(&self, workflow_id: &str) -> (r: Vec<String>)
        ensures
            r.deep_view() == running_ids(self.running@, workflow_id@),
    {
        let mut out: Vec<String> = Vec::new();
        let mut i: usize = 0;
        assert(out.deep_view() =~= running_ids(self.running@.take(0), workflow_id@));
        while i < self.running.entries.len()
            invariant
                i <= self.running@.len(),
                out.deep_view() == running_ids(self.running@.take(i as int), workflow_id@),
            decreases self.running@.len() - i,
        {
            assert(self.running@.take(i + 1).drop_last() =~= self.running@.take(i as int));
            let e = &self.running.entries[i].1;
            if str_eq(e.workflow_id.as_str(), workflow_id) {
                let ghost before = out.deep_view();
                out.push(e.issue.identifier.clone());
                assert(out.deep_view() =~= before.push(e.issue.identifier@));
            }
            i += 1;
        }
        assert(self.running@.take(i as int) =~= self.running@);
        out
    }

    /// Start a session under the key, in place of one that may run there.
    pub fn start_session(
        &mut self,
        state_key: &str,
        issue: Issue,
        stall_timeout: Duration,
        workflow_id: &str,
        now: Timestamp,
    )
        requires
            old(self).wf(),
        ensures
            final(self).wf(),
            match final(self).running.at(state_key@) {
                Some(e) => e.issue == issue && e.stall_timeout == stall_timeout && e.workflow_id@
                    == workflow_id@ && e.session.is_new(state_key@, now),
                None => false,
            },
            forall|k: Seq<char>|
                k != state_key@ ==> #[trigger] final(self).running.at(k) == old(self).running.at(k),
            has_key(old(self).running@, state_key@) ==> final(self).running@.len()
                == old(self).running@.len(),
            !has_key(old(self).running@, state_key@) ==> final(self).running@.len()
                == old(self).running@.len() + 1 && final(self).running@.drop_last()
                == old(self).running@ && final(self).running@.last().0@ == state_key@,
            final(self).retries == old(self).retries,
            final(self).completed == old(self).completed,
            final(self).tokens == old(self).tokens,
            final(self).open_prs == old(self).open_prs,
    {
        let session = LiveSession::new(state_key.to_owned(), now);
        let entry = RunningEntry {
            issue,
            session,
            stall_timeout,
            workflow_id: workflow_id.to_owned(),
        };
        let ghost before = self.running@;
        self.running.insert(state_key.to_owned(), entry);
        proof {
            if !has_key(before, state_key@) {
                assert(self.running@.drop_last() =~= before);
            }
        }
    }

    /// End the session under the key and remember how it ended.
    pub fn mark_worker_done(
        &mut self,
        state_key: &str,
        success: bool,
        error: Option<String>,
        now: Timestamp,
    )
        requires
            old(self).wf(),
            now.in_calendar(),
        ensures
            final(self).wf(),
            final(self).running.at(state_key@) is None,
            forall|k: Seq<char>|
                k != state_key@ ==> #[trigger] final(self).running.at(k) == old(self).running.at(k),
            has_key(old(self).running@, state_key@) ==> final(self).running@
                == old(self).running@.remove(key_index(old(self).running@, state_key@)),
            !has_key(old(self).running@, state_key@) ==> final(self).running@ == old(self).running@,
            ({
                let e = final(self).completed@.last();
                &&& final(self).completed@ == remembered(old(self).completed@.push(e))
                &&& e.issue_id@ == state_key@
                &&& e.success == success
                &&& e.error == error
                &&& e.completed_at == now
                &&& match old(self).running.at(state_key@) {
                    Some(r) => e.issue == Some(r.issue) && e.workflow_id == r.workflow_id
                        && e.attempts == r.session.attempts.len() as u32,
                    None => e.issue is None && e.workflow_id@.len() == 0 && e.attempts == 0,
                }
            }),
            final(self).retries == old(self).retries,
            final(self).tokens == old(self).tokens,
            final(self).open_prs == old(self).open_prs,
    {
        let (issue, attempts, workflow_id) = match self.running.remove(state_key) {
            Some(e) => {
                let attempts: u32 = e.session.attempts.len() as u32;
                (Some(e.issue), attempts, e.workflow_id)
            },
            None => (None, 0, String::new()),
        };
        let entry = CompletedEntry {
            issue_id: state_key.to_owned(),
            issue,
            success,
            error,
            completed_at: now,
            attempts,
            workflow_id,
        };
        self.completed.push(entry);
        if self.completed.len() > MAX_COMPLETED {
            let _ = self.completed.remove(0);
        }
        let ghost all = old(self).completed@.push(entry);
        assert(self.completed@ =~= remembered(all));
        proof {
            let n = all.len() - self.completed@.len();
            assert forall|i: int| 0 <= i < self.completed@.len() implies (
            #[trigger] self.completed@[i]).completed_at.in_calendar() by {
                assert(self.completed@[i] == all[i + n]);
                if i + n < old(self).completed@.len() {
                    assert(all[i + n] == old(self).completed@[i + n]);
                }
            }
        }
    }

    /// Let the retry under the key be taken, if there is one.
    pub fn mark_retry_ready(&mut self, state_key: &str)
        requires
            old(self).wf(),
        ensures
            final(self).wf(),
            match old(self).retries.at(state_key@) {
                Some(e) => final(self).retries.at(state_key@) == Some(
                    (RetryEntry { ready: true, ..e }),
                ),
                None => final(self).retries@ == old(self).retries@,
            },
            forall|k: Seq<char>|
                k != state_key@ ==> #[trigger] final(self).retries.at(k) == old(self).retries.at(k),
            final(self).running == old(self).running,
            final(self).completed == old(self).completed,
            final(self).tokens == old(self).tokens,
            final(self).open_prs == old(self).open_prs,
    {
        if let Some(i) = self.retries.position(state_key) {
            let ghost before = self.retries@;
            self.retries.entries[i].1.ready = true;
            let ghost after = self.retries@;
            proof {
                lemma_updated(before, after, i as int);
            }
        }
    }

    /// Schedule a retry under the key, in place of one that may be scheduled there.
    pub fn schedule_retry(&mut self, state_key: &str, attempt: u32, workflow_id: &str)
        requires
            old(self).wf(),
        ensures
            final(self).wf(),
            match final(self).retries.at(state_key@) {
                Some(e) => e.issue_id@ == state_key@ && e.attempt == attempt && e.next_retry_at is None
                    && !e.ready && e.workflow_id@ == workflow_id@,
                None => false,
            },
            forall|k: Seq<char>|
                k != state_key@ ==> #[trigger] final(self).retries.at(k) == old(self).retries.at(k),
            final(self).running == old(self).running,
            final(self).completed == old(self).completed,
            final(self).tokens == old(self).tokens,
            final(self).open_prs == old(self).open_prs,
    {
        let entry = RetryEntry::new(state_key.to_owned(), attempt).with_workflow(
            workflow_id.to_owned(),
        );
        self.retries.insert(state_key.to_owned(), entry);
    }

    /// Let a retry that was taken out wait until it is taken again, in place of
    /// one that may be scheduled under its key.
    pub fn put_back_retry(&mut self, retry: RetryEntry)
        requires
            old(self).wf(),
        ensures
            final(self).wf(),
            final(self).retries.at(retry.issue_id@) == Some((RetryEntry { ready: true, ..retry })),
            forall|k: Seq<char>|
                k != retry.issue_id@ ==> #[trigger] final(self).retries.at(k)
                    == old(self).retries.at(k),
            final(self).running == old(self).running,
            final(self).completed == old(self).completed,
            final(self).tokens == old(self).tokens,
            final(self).open_prs == old(self).open_prs,
    {
        let key = retry.issue_id.clone();
        let entry = RetryEntry {
            issue_id: retry.issue_id,
            attempt: retry.attempt,
            next_retry_at: retry.next_retry_at,
            ready: true,
            workflow_id: retry.workflow_id,
        };
        self.retries.insert(key, entry);
    }

    /// Take out the retries of a workflow that are ready.
    pub fn take_ready_retries_for_workflow(&mut self, workflow_id: &str) -> (r: Vec<RetryEntry>)
        requires
            old(self).wf(),
        ensures
            final(self).wf(),
            r@ == due(old(self).retries@, workflow_id@),
            final(self).retries@ == not_due(old(self).retries@, workflow_id@),
            final(self).running == old(self).running,
            final(self).completed == old(self).completed,
            final(self).tokens == old(self).tokens,
            final(self).open_prs == old(self).open_prs,
    {
        let ghost all = self.retries@;
        let ghost mut seen: int = 0;
        let mut out: Vec<RetryEntry> = Vec::new();
        let mut i: usize = 0;
        assert(all.take(0) =~= seq![]);
        assert(all.skip(0) =~= all);
        while i < self.retries.entries.len()
            invariant
                0 <= seen <= all.len(),
                i == not_due(all.take(seen), workflow_id@).len(),
                self.retries@ == not_due(all.take(seen), workflow_id@) + all.skip(seen),
                out@ == due(all.take(seen), workflow_id@),
                self.running == old(self).running,
                self.completed == old(self).completed,
                self.tokens == old(self).tokens,
                self.open_prs == old(self).open_prs,
            decreases self.retries@.len() - i,
        {
            let ghost now = self.retries@;
            proof {
                assert(now[i as int] == all.skip(seen)[0]);
                assert(all.take(seen + 1).drop_last() =~= all.take(seen));
                assert(all.take(seen + 1).last() == all[seen]);
                assert(all.skip(seen + 1) =~= all.skip(seen).skip(1));
            }
            let ready = self.retries.entries[i].1.ready && str_eq(
                self.retries.entries[i].1.workflow_id.as_str(),
                workflow_id,
            );
            if ready {
                let e = self.retries.entries.remove(i);
                out.push(e.1);
                assert(self.retries@ =~= not_due(all.take(seen + 1), workflow_id@) + all.skip(
                    seen + 1,
                ));
            } else {
                i += 1;
                assert(self.retries@ =~= not_due(all.take(seen + 1), workflow_id@) + all.skip(
                    seen + 1,
                ));
            }
            proof {
                seen = seen + 1;
            }
        }
        proof {
            assert(seen == all.len());
            assert(all.take(seen) =~= all);
            assert(self.retries@ =~= not_due(all, workflow_id@));
            lemma_not_due(all, workflow_id@);
        }
        out
    }

    /// Record what the agent of a running session reported.
    pub fn push_agent_event(&mut self, state_key: &str, event: AgentEvent)
        requires
            old(self).wf(),
        ensures
            final(self).wf(),
            match (old(self).running.at(state_key@), final(self).running.at(state_key@)) {
                (Some(a), Some(b)) => b.session.events@ == a.session.events@.push(event)
                    && b.session.last_activity == event.at && b.session.status == a.session.status
                    && b.session.issue_id == a.session.issue_id && b.session.thread_id
                    == a.session.thread_id && b.session.current_turn == a.session.current_turn
                    && b.session.started_at
                    == a.session.started_at && b.session.attempts == a.session.attempts && b.issue
                    == a.issue && b.stall_timeout == a.stall_timeout && b.workflow_id
                    == a.workflow_id,
                (None, None) => true,
                _ => false,
            },
            forall|k: Seq<char>|
                k != state_key@ ==> #[trigger] final(self).running.at(k) == old(self).running.at(k),
            final(self).running@.len() == old(self).running@.len(),
            final(self).retries == old(self).retries,
            final(self).completed == old(self).completed,
            final(self).tokens == old(self).tokens,
            final(self).open_prs == old(self).open_prs,
    {
        if let Some(i) = self.running.position(state_key) {
            let ghost before = self.running@;
            self.running.entries[i].1.session.push_event(event);
            let ghost after = self.running@;
            proof {
                lemma_updated(before, after, i as int);
            }
        }
    }

    /// Set the status of a running session; it counts as activity.
    pub fn update_session_status(&mut self, state_key: &str, status: RunStatus, now: Timestamp)
        requires
            old(self).wf(),
        ensures
            final(self).wf(),
            match old(self).running.at(state_key@) {
                Some(e) => final(self).running.at(state_key@) == Some(
                    (RunningEntry {
                        session: LiveSession { status, last_activity: now, ..e.session },
                        ..e
                    }),
                ),
                None => final(self).running@ == old(self).running@,
            },
            forall|k: Seq<char>|
                k != state_key@ ==> #[trigger] final(self).running.at(k) == old(self).running.at(k),
            final(self).running@.len() == old(self).running@.len(),
            final(self).retries == old(self).retries,
            final(self).completed == old(self).completed,
            final(self).tokens == old(self).tokens,
            final(self).open_prs == old(self).open_prs,
    {
        if let Some(i) = self.running.position(state_key) {
            let ghost before = self.running@;
            self.running.entries[i].1.session.status = status;
            self.running.entries[i].1.session.last_activity = now;
            let ghost after = self.running@;
            proof {
                lemma_updated(before, after, i as int);
            }
        }
    }

    /// Monitor a PR under the key, in place of one that may be monitored there.
    pub fn track_pr(
        &mut self,
        state_key: &str,
        issue: Issue,
        pr_number: u64,
        workspace_dir: String,
        workflow_id: &str,
        branch_name: &str,
    )
        requires
            old(self).wf(),
        ensures
            final(self).wf(),
            match final(self).open_prs.at(state_key@) {
                Some(p) => p.issue == issue && p.pr_number == pr_number && p.workspace_dir
                    == workspace_dir && p.last_addressed_at is None && p.workflow_id@ == workflow_id@
                    && p.branch_name@ == branch_name@,
                None => false,
            },
            forall|k: Seq<char>|
                k != state_key@ ==> #[trigger] final(self).open_prs.at(k) == old(self).open_prs.at(k),
            final(self).running == old(self).running,
            final(self).retries == old(self).retries,
            final(self).completed == old(self).completed,
            final(self).tokens == old(self).tokens,
    {
        let pr = OpenPr {
            issue,
            pr_number,
            workspace_dir,
            last_addressed_at: None,
            workflow_id: workflow_id.to_owned(),
            branch_name: branch_name.to_owned(),
        };
        self.open_prs.insert(state_key.to_owned(), pr);
    }

    /// Stop monitoring the PR under the key.
    pub fn untrack_pr(&mut self, state_key: &str)
        requires
            old(self).wf(),
        ensures
            final(self).wf(),
            final(self).open_prs.at(state_key@) is None,
            forall|k: Seq<char>|
                k != state_key@ ==> #[trigger] final(self).open_prs.at(k) == old(self).open_prs.at(k),
            final(self).running == old(self).running,
            final(self).retries == old(self).retries,
            final(self).completed == old(self).completed,
            final(self).tokens == old(self).tokens,
    {
        let _ = self.open_prs.remove(state_key);
    }

    /// The monitored PRs.
    pub fn open_prs(&self) -> (r: Vec<OpenPr>)
        ensures
            r.deep_view() == self.prs(),
    {
        let mut out: Vec<OpenPr> = Vec::new();
        let mut i: usize = 0;
        while i < self.open_prs.entries.len()
            invariant
                i <= self.open_prs@.len(),
                out.deep_view() == self.prs().take(i as int),
            decreases self.open_prs@.len() - i,
        {
            let ghost before = out.deep_view();
            let pr = self.open_prs.entries[i].1.clone();
            let ghost v = pr.deep_view();
            out.push(pr);
            assert(out.deep_view() =~= before.push(v));
            assert(self.prs().take(i + 1) =~= before.push(self.prs()[i as int]));
            i += 1;
        }
        assert(self.prs().take(i as int) =~= self.prs());
        out
    }

    /// Note that feedback on the PR under the key has been worked on.
    pub fn mark_pr_addressed(&mut self, state_key: &str, now: Timestamp)
        requires
            old(self).wf(),
        ensures
            final(self).wf(),
            match old(self).open_prs.at(state_key@) {
                Some(p) => final(self).open_prs.at(state_key@) == Some(
                    (OpenPr { last_addressed_at: Some(now), ..p }),
                ),
                None => final(self).open_prs@ == old(self).open_prs@,
            },
            forall|k: Seq<char>|
                k != state_key@ ==> #[trigger] final(self).open_prs.at(k) == old(self).open_prs.at(k),
            final(self).running == old(self).running,
            final(self).retries == old(self).retries,
            final(self).completed == old(self).completed,
            final(self).tokens == old(self).tokens,
    {
        if let Some(i) = self.open_prs.position(state_key) {
            let ghost before = self.open_prs@;
            self.open_prs.entries[i].1.last_addressed_at = Some(now);
            let ghost after = self.open_prs@;
            proof {
                lemma_updated(before, after, i as int);
            }
        }
    }

    /// The monitored PRs, in order.
    pub open spec fn prs(&self) -> Seq<OpenPrView> {
        self.open_prs@.map_values(|e: (String, OpenPr)| e.1.deep_view())
    }

    /// Everything the state holds.
    pub open spec fn contents(&self) -> StateSnapshotView {
        StateSnapshotView {
            running: self.running@.map_values(|e: (String, RunningEntry)| e.1.deep_view()),
            retries: self.retries@.map_values(|e: (String, RetryEntry)| e.0@),
            completed: self.completed.deep_view(),
            tokens: self.tokens.deep_view(),
            open_prs: self.prs(),
        }
    }

    /// Everything the state holds at this moment.
    pub fn snapshot(&self) -> (r: StateSnapshot)
        ensures
            r.deep_view() == self.contents(),
            self.wf() ==> forall|i: int|
                0 <= i < r.completed@.len() ==> (
                #[trigger] r.completed@[i]).completed_at.in_calendar(),
    {
        let ghost want = self.contents();
        let mut running: Vec<RunningEntry> = Vec::new();
        let mut i: usize = 0;
        while i < self.running.entries.len()
            invariant
                i <= self.running@.len(),
                want == self.contents(),
                running.deep_view() == want.running.take(i as int),
            decreases self.running@.len() - i,
        {
            let ghost before = running.deep_view();
            let e = self.running.entries[i].1.clone();
            let ghost v = e.deep_view();
            running.push(e);
            assert(running.deep_view() =~= before.push(v));
            assert(want.running.take(i + 1) =~= before.push(want.running[i as int]));
            i += 1;
        }
        assert(want.running.take(i as int) =~= want.running);
        let mut retries: Vec<String> = Vec::new();
        i = 0;
        while i < self.retries.entries.len()
            invariant
                i <= self.retries@.len(),
                want == self.contents(),
                retries.deep_view() == want.retries.take(i as int),
            decreases self.retries@.len() - i,
        {
            let ghost before = retries.deep_view();
            let k = self.retries.entries[i].0.clone();
            retries.push(k);
            assert(retries.deep_view() =~= before.push(k@));
            assert(want.retries.take(i + 1) =~= before.push(want.retries[i as int]));
            i += 1;
        }
        assert(want.retries.take(i as int) =~= want.retries);
        let completed = self.completed.clone();
        assert(completed.deep_view() =~= self.completed.deep_view());
        proof {
            if self.wf() {
                assert forall|i: int| 0 <= i < completed@.len() implies (
                #[trigger] completed@[i]).completed_at.in_calendar() by {
                    assert(completed.deep_view()[i] == self.completed.deep_view()[i]);
                    assert(self.completed@[i].completed_at.in_calendar());
                }
            }
        }
        StateSnapshot {
            running,
            retries,
            completed,
            tokens: self.tokens.clone(),
            open_prs: self.open_prs(),
        }
    }

    /// The running session under the key.
    pub fn get_issue_detail(&self, state_key: &str) -> (r: Option<RunningEntry>)
        requires
            self.wf(),
        ensures
            r.deep_view() == self.running.at(state_key@).deep_view(),
    {
        match self.running.get(state_key) {
            Some(e) => Some(e.clone()),
            None => None,
        }
    }

    /// Find sessions with no activity within their per-entry stall timeout.
    pub fn find_stalled_sessions(&self, now: Timestamp) -> (r: Vec<(String, Duration)>)
        ensures
            r@.len() == stalled(self.running@, now).len(),
            forall|i: int|
                0 <= i < r@.len() ==> ((#[trigger] r@[i]).0@, r@[i].1) == stalled(
                    self.running@,
                    now,
                )[i],
    {
        let mut out: Vec<(String, Duration)> = Vec::new();
        let mut i: usize = 0;
        while i < self.running.entries.len()
            invariant
                i <= self.running@.len(),
                out@.len() == stalled(self.running@.take(i as int), now).len(),
                forall|k: int|
                    0 <= k < out@.len() ==> ((#[trigger] out@[k]).0@, out@[k].1) == stalled(
                        self.running@.take(i as int),
                        now,
                    )[k],
            decreases self.running@.len() - i,
        {
            assert(self.running@.take(i + 1).drop_last() =~= self.running@.take(i as int));
            let e = &self.running.entries[i].1;
            let silent: i128 = now.nanos_since(e.session.last_activity);
            let over = if e.stall_timeout.nanos <= 9_223_372_036_854_775_807_000_000 {
                silent > e.stall_timeout.nanos as i128
            } else {
                silent > 300_000_000_000
            };
            if over {
                out.push((self.running.entries[i].0.clone(), e.stall_timeout));
            }
            i += 1;
        }
        assert(self.running@.take(i as int) =~= self.running@);
        out
    }
}

/// Changing the value of one entry changes what is found under its key and
/// nothing else.
proof fn lemma_updated<V>(before: Seq<(String, V)>, after: Seq<(String, V)>, i: int)
    requires
        unique_keys(before),
        0 <= i < before.len(),
        after.len() == before.len(),
        after[i].0 == before[i].0,
        forall|k: int| 0 <= k < before.len() && k != i ==> #[trigger] after[k] == before[k],
    ensures
        unique_keys(after),
        has_key(before, before[i].0@),
        lookup(before, before[i].0@) == Some(before[i].1),
        lookup(after, before[i].0@) == Some(after[i].1),
        forall|x: Seq<char>|
            x != before[i].0@ ==> #[trigger] lookup(after, x) == lookup(before, x),
{
    assert forall|a: int, b: int| 0 <= a < b < after.len() implies (#[trigger] after[a]).0@ != (
    #[trigger] after[b]).0@ by {
        assert(before[a].0@ != before[b].0@);
    }
    lemma_lookup_at(before, i);
    lemma_lookup_at(after, i);
    assert forall|x: Seq<char>| x != before[i].0@ implies #[trigger] lookup(after, x) == lookup(
        before,
        x,
    ) by {
        if has_key(before, x) {
            let j = key_index(before, x);
            assert(before[j].0@ == x);
            assert(after[j].0@ == x);
            lemma_lookup_at(after, j);
        }
        if has_key(after, x) {
            let j = key_index(after, x);
            assert(after[j].0@ == x);
            assert(before[j].0@ == x);
        }
    }
}

impl Default for OrchestratorState {
    fn default() -> (r: Self)
        ensures
            r.wf(),
            r.running@.len() == 0,
            r.retries@.len() == 0,
            r.completed@.len() == 0,
            r.tokens.input_tokens == 0,
            r.tokens.output_tokens == 0,
            r.open_prs@.len() == 0,
    {
        Self::new()
    }
}

/// The sessions of a workflow are counted one by one, and no others with them.
pub proof fn law_sessions_counted(
    a: Seq<(String, RunningEntry)>,
    b: Seq<(String, RunningEntry)>,
    workflow: Seq<char>,
)
    ensures
        count_running(a + b, workflow) == count_running(a, workflow) + count_running(b, workflow),
        a.len() == 1 ==> count_running(a, workflow) == (if a[0].1.workflow_id@ == workflow {
            1nat
        } else {
            0nat
        }),
    decreases b.len(),
{
    if a.len() == 1 {
        assert(a.drop_last() =~= seq![]);
        reveal_with_fuel(count_running, 2);
        assert(a.last() == a[0]);
        assert(count_running(a, workflow) == (if a[0].1.workflow_id@ == workflow {
            1nat
        } else {
            0nat
        }));
    }
    if b.len() > 0 {
        law_sessions_counted(a, b.drop_last(), workflow);
        assert((a + b).drop_last() =~= a + b.drop_last());
        assert(count_running(a + b, workflow) == count_running(a, workflow) + count_running(b, workflow));
    } else {
        assert(a + b =~= a);
    }
}

/// A retry is due once it is ready, and in its own workflow alone; the retries that are
/// due come in their order.
pub proof fn law_due_when_ready(
    a: Seq<(String, RetryEntry)>,
    b: Seq<(String, RetryEntry)>,
    workflow: Seq<char>,
)
    ensures
        due(a + b, workflow) == due(a, workflow) + due(b, workflow),
        a.len() == 1 ==> due(a, workflow) == (if a[0].1.ready && a[0].1.workflow_id@ == workflow {
            seq![a[0].1]
        } else {
            seq![]
        }),
    decreases b.len(),
{
    if a.len() == 1 {
        assert(a.drop_last() =~= seq![]);
        reveal_with_fuel(due, 2);
        assert(a.last() == a[0]);
        assert(due(a, workflow) =~= (if a[0].1.ready && a[0].1.workflow_id@ == workflow {
            seq![a[0].1]
        } else {
            seq![]
        }));
    }
    if b.len() > 0 {
        law_due_when_ready(a, b.drop_last(), workflow);
        assert((a + b).drop_last() =~= a + b.drop_last());
        assert(due(a + b, workflow) =~= due(a, workflow) + due(b, workflow));
    } else {
        assert(a + b =~= a);
        assert(due(a, workflow) + due(b, workflow) =~= due(a, workflow));
    }
}

/// A retry that is not ready, or that another workflow is to try, stays where it is.
pub proof fn law_not_due_stays(
    a: Seq<(String, RetryEntry)>,
    b: Seq<(String, RetryEntry)>,
    workflow: Seq<char>,
)
    ensures
        not_due(a + b, workflow) == not_due(a, workflow) + not_due(b, workflow),
        a.len() == 1 ==> not_due(a, workflow) == (if a[0].1.ready && a[0].1.workflow_id@ == workflow {
            seq![]
        } else {
            seq![a[0]]
        }),
    decreases b.len(),
{
    if a.len() == 1 {
        assert(a.drop_last() =~= seq![]);
        reveal_with_fuel(not_due, 2);
        assert(a.last() == a[0]);
        assert(not_due(a, workflow) =~= (if a[0].1.ready && a[0].1.workflow_id@ == workflow {
            seq![]
        } else {
            seq![a[0]]
        }));
    }
    if b.len() > 0 {
        law_not_due_stays(a, b.drop_last(), workflow);
        assert((a + b).drop_last() =~= a + b.drop_last());
        assert(not_due(a + b, workflow) =~= not_due(a, workflow) + not_due(b, workflow));
    } else {
        assert(a + b =~= a);
        assert(not_due(a, workflow) + not_due(b, workflow) =~= not_due(a, workflow));
    }
}

/// A session is stalled once nothing has happened in it for longer than its stall
/// timeout, or than five minutes where that timeout is out of all bounds; the stalled
/// ones come in their order.
pub proof fn law_stalled_after_timeout(
    a: Seq<(String, RunningEntry)>,
    b: Seq<(String, RunningEntry)>,
    now: Timestamp,
)
    ensures
        stalled(a + b, now) == stalled(a, now) + stalled(b, now),
        a.len() == 1 ==> stalled(a, now) == (if (now.at() - a[0].1.session.last_activity.at()) > (if a[0].1.stall_timeout.nanos
            <= 9_223_372_036_854_775_807_000_000 {
            a[0].1.stall_timeout.nanos as int
        } else {
            300_000_000_000
        }) {
            seq![(a[0].0@, a[0].1.stall_timeout)]
        } else {
            seq![]
        }),
    decreases b.len(),
{
    if a.len() == 1 {
        assert(a.drop_last() =~= seq![]);
        reveal_with_fuel(stalled, 2);
        assert(a.last() == a[0]);
        assert(stalled(a, now) =~= (if (now.at() - a[0].1.session.last_activity.at()) > (if a[0].1.stall_timeout.nanos
            <= 9_223_372_036_854_775_807_000_000 {
            a[0].1.stall_timeout.nanos as int
        } else {
            300_000_000_000
        }) {
            seq![(a[0].0@, a[0].1.stall_timeout)]
        } else {
            seq![]
        }));
    }
    if b.len() > 0 {
        law_stalled_after_timeout(a, b.drop_last(), now);
        assert((a + b).drop_last() =~= a + b.drop_last());
        assert(stalled(a + b, now) =~= stalled(a, now) + stalled(b, now));
    } else {
        assert(a + b =~= a);
        assert(stalled(a, now) + stalled(b, now) =~= stalled(a, now));
    }
}

/// The issues that run in a workflow are those of its sessions, in their order.
pub proof fn law_running_issues(
    a: Seq<(String, RunningEntry)>,
    b: Seq<(String, RunningEntry)>,
    workflow: Seq<char>,
)
    ensures
        running_ids(a + b, workflow) == running_ids(a, workflow) + running_ids(b, workflow),
        a.len() == 1 ==> running_ids(a, workflow) == (if a[0].1.workflow_id@ == workflow {
            seq![a[0].1.issue.identifier@]
        } else {
            seq![]
        }),
    decreases b.len(),
{
    if a.len() == 1 {
        assert(a.drop_last() =~= seq![]);
        reveal_with_fuel(running_ids, 2);
        assert(a.last() == a[0]);
        assert(running_ids(a, workflow) =~= (if a[0].1.workflow_id@ == workflow {
            seq![a[0].1.issue.identifier@]
        } else {
            seq![]
        }));
    }
    if b.len() > 0 {
        law_running_issues(a, b.drop_last(), workflow);
        assert((a + b).drop_last() =~= a + b.drop_last());
        assert(running_ids(a + b, workflow) =~= running_ids(a, workflow) + running_ids(b, workflow));
    } else {
        assert(a + b =~= a);
        assert(running_ids(a, workflow) + running_ids(b, workflow) =~= running_ids(a, workflow));
    }
}

/// As many as fifty finished sessions are remembered: all of them up to that number,
/// and beyond it the last fifty, in their order.
pub proof fn law_last_fifty_remembered(s: Seq<CompletedEntry>)
    ensures
        s.len() <= 50 ==> remembered(s) == s,
        s.len() > 50 ==> remembered(s).len() == 50,
        s == s.take(s.len() - remembered(s).len()) + remembered(s),
{
    assert(s =~= s.take(s.len() - remembered(s).len()) + remembered(s));
}

/// A snapshot holds every running session, the keys of the retries, the finished
/// sessions, the tokens used and the open PRs, each in its place.
pub proof fn law_snapshot_holds_everything(state: OrchestratorState)
    ensures
        ({
            let c = state.contents();
            &&& c.running.len() == state.running@.len()
            &&& forall|i: int|
                0 <= i < state.running@.len() ==> #[trigger] c.running[i]
                    == state.running@[i].1.deep_view()
            &&& c.retries.len() == state.retries@.len()
            &&& forall|i: int|
                0 <= i < state.retries@.len() ==> #[trigger] c.retries[i] == state.retries@[i].0@
            &&& c.completed == state.completed.deep_view()
            &&& c.tokens.input_tokens == state.tokens.input_tokens
            &&& c.tokens.output_tokens == state.tokens.output_tokens
            &&& c.open_prs.len() == state.open_prs@.len()
            &&& forall|i: int|
                0 <= i < state.open_prs@.len() ==> #[trigger] c.open_prs[i]
                    == state.open_prs@[i].1.deep_view()
        }),
{
}

/// A session under a key counts as a success only where a remembered one ended so, and
/// then always.
pub proof fn law_success_is_remembered(s: Seq<CompletedEntry>, key: Seq<char>)
    ensures
        has_succeeded(s, key) <==> !(forall|i: int|
            0 <= i < s.len() && (#[trigger] s[i]).issue_id@ == key ==> !s[i].success),
{
}

} // verus!
