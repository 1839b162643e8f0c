//! When failed work is tried again.
use vstd::prelude::*;
use crate::domain::retry::{backoff, RetryEntry};
use crate::time::Duration;

verus! {

/// Calculate exponential backoff delay: base * 2^attempt, capped at max.
pub fn calculate_backoff(attempt: u32, base: Duration, max: Duration) -> (r: Duration)
    ensures
        r.nanos == backoff(attempt as nat, base.nanos as nat, max.nanos as nat),
{
    RetryEntry::calculate_backoff(attempt, base, max)
}

/// The retries that went before: none where the work was the first try.
pub open spec fn tries_before(attempt: Option<u32>) -> nat {
    match attempt {
        Some(n) => n as nat,
        None => 0,
    }
}

/// The number of the next retry after work that failed, and how long it waits:
/// a second after the first try, twice as long after each retry, and never
/// more than 300 seconds.
pub fn next_retry(attempt: Option<u32>) -> (r: (u32, Duration))
    requires
        tries_before(attempt) < u32::MAX,
    ensures
        r.0 == tries_before(attempt) + 1,
        r.1.nanos == backoff(tries_before(attempt), 1_000_000_000, 300_000_000_000),
{
    let before: u32 = match attempt {
        Some(n) => n,
        None => 0,
    };
    let base = Duration::from_secs(1);
    let max = Duration::from_secs(300);
    (before + 1, calculate_backoff(before, base, max))
}

/// Work that has not been tried again yet counts no retry, and other work as many as
/// it says.
pub proof fn law_tries_counted(n: u32)
    ensures
        tries_before(None) == 0,
        tries_before(Some(n)) == n,
{
}

} // verus!
