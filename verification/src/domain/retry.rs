//! Retries of issues that failed.
use vstd::prelude::*;
use vstd::arithmetic::power2::{lemma_pow2_unfold, pow2};
use crate::time::{Duration, Timestamp};

verus! {

/// An issue that waits to be tried again.
#[derive(Debug)]
pub struct RetryEntry {
    pub issue_id: String,
    pub attempt: u32,
    pub next_retry_at: Option<Timestamp>,
    /// Whether the waiting is over.
    pub ready: bool,
    /// The workflow that tries the issue.
    pub workflow_id: String,
}

/// What a `RetryEntry` holds.
#[verifier::ext_equal]
pub struct RetryEntryView {
    pub issue_id: Seq<char>,
    pub attempt: u32,
    pub next_retry_at: Option<Timestamp>,
    pub ready: bool,
    pub workflow_id: Seq<char>,
}

impl DeepView for RetryEntry {
    type V = RetryEntryView;

    open spec fn deep_view(&self) -> RetryEntryView {
        RetryEntryView {
            issue_id: self.issue_id@,
            attempt: self.attempt,
            next_retry_at: self.next_retry_at,
            ready: self.ready,
            workflow_id: self.workflow_id@,
        }
    }
}

impl Clone for RetryEntry {
    fn clone(&self) -> (r: Self)
        ensures
            r.deep_view() == self.deep_view(),
    {
        RetryEntry {
            issue_id: self.issue_id.clone(),
            attempt: self.attempt,
            next_retry_at: self.next_retry_at,
            ready: self.ready,
            workflow_id: self.workflow_id.clone(),
        }
    }
}

/// The delay before a retry, in nanoseconds: `base` times 2 to the power of
/// `attempt`, at most `max`.
pub open spec fn backoff(attempt: nat, base: nat, max: nat) -> nat {
    let grown = base * pow2(attempt);
    if grown > max {
        max
    } else {
        grown
    }
}

proof fn lemma_doubled(base: nat, i: nat)
    ensures
        base * pow2(i + 1) == 2 * (base * pow2(i)),
{
    lemma_pow2_unfold(i + 1);
    let p = pow2(i);
    assert(base * (2 * p) == 2 * (base * p)) by (nonlinear_arith);
}

proof fn lemma_backoff_monotone(a: nat, b: nat, base: nat)
    requires
        a <= b,
    ensures
        base * pow2(a) <= base * pow2(b),
    decreases b - a,
{
    if a < b {
        lemma_backoff_monotone(a, (b - 1) as nat, base);
        lemma_doubled(base, (b - 1) as nat);
    }
}

impl RetryEntry {
    /// A retry that is not ready yet.
    pub fn new(issue_id: String, attempt: u32) -> (r: Self)
        ensures
            r.issue_id == issue_id,
            r.attempt == attempt,
            r.next_retry_at is None,
            !r.ready,
            r.workflow_id@.len() == 0,
    {
        RetryEntry {
            issue_id,
            attempt,
            next_retry_at: None,
            ready: false,
            workflow_id: String::new(),
        }
    }

    /// The same retry, in the given workflow.
    pub fn with_workflow(self, workflow_id: String) -> (r: Self)
        ensures
            r.issue_id == self.issue_id,
            r.attempt == self.attempt,
            r.next_retry_at == self.next_retry_at,
            r.ready == self.ready,
            r.workflow_id == workflow_id,
    {
        RetryEntry {
            issue_id: self.issue_id,
            attempt: self.attempt,
            next_retry_at: self.next_retry_at,
            ready: self.ready,
            workflow_id,
        }
    }

    /// Calculate exponential backoff: base_delay * 2^attempt, capped at max_delay.
    pub fn calculate_backoff(attempt: u32, base_delay: Duration, max_delay: Duration) -> (r: Duration)
        ensures
            r.nanos == backoff(attempt as nat, base_delay.nanos as nat, max_delay.nanos as nat),
    {
        let ghost base = base_delay.nanos as nat;
        proof {
            vstd::arithmetic::power2::lemma2_to64();
        }
        if base_delay.nanos == 0 {
            return base_delay;
        }
        let mut delay: u128 = base_delay.nanos;
        let mut i: u32 = 0;
        while i < attempt && delay < max_delay.nanos
            invariant
                i <= attempt,
                base == base_delay.nanos,
                delay <= base * pow2(i as nat),
                delay < max_delay.nanos ==> delay == base * pow2(i as nat),
            decreases attempt - i,
        {
            proof {
                lemma_doubled(base, i as nat);
            }
            delay = if delay > max_delay.nanos / 2 {
                max_delay.nanos
            } else {
                delay * 2
            };
            i += 1;
        }
        proof {
            lemma_backoff_monotone(i as nat, attempt as nat, base);
        }
        if delay > max_delay.nanos {
            max_delay
        } else {
            Duration { nanos: delay }
        }
    }
}

/// A later retry never waits less than an earlier one, and none waits longer
/// than the limit.
pub proof fn law_backoff_grows_up_to_limit(a: nat, b: nat, base: nat, max: nat)
    requires
        a <= b,
    ensures
        backoff(a, base, max) <= backoff(b, base, max),
        backoff(b, base, max) <= max,
{
    lemma_backoff_monotone(a, b, base);
}

/// Below the limit, each retry waits twice as long as the one before.
pub proof fn law_backoff_doubles(attempt: nat, base: nat, max: nat)
    requires
        backoff(attempt + 1, base, max) < max,
    ensures
        backoff(attempt + 1, base, max) == 2 * backoff(attempt, base, max),
{
    lemma_doubled(base, attempt);
    assert(base * pow2(attempt) >= 0) by (nonlinear_arith);
}

/// The first retry waits as long as the base delay, or as the limit where that is
/// less.
pub proof fn law_backoff_starts_at_base(base: nat, max: nat)
    ensures
        backoff(0, base, max) == (if base <= max {
            base
        } else {
            max
        }),
{
    vstd::arithmetic::power2::lemma2_to64();
}

} // verus!
