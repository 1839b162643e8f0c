//! Hooks: shell scripts that run around the work on an issue.
use vstd::prelude::*;
use crate::error::{Error, Result};
use crate::text::{cat2, cat3, decimal, decimal_string};
use crate::time::Duration;

verus! {

/// How a hook came to an end.
#[derive(Debug)]
pub enum HookExit {
    /// It could not be started.
    NotStarted { cause: String },
    /// It ended with a status, which says whether it succeeded.
    Exited { success: bool, status: String, output: String },
    /// It could not be waited for.
    Broken { cause: String },
    /// It did not end in time.
    TimedOut,
}

/// What a hook that ended that way gives: its output, or what is wrong.
pub open spec fn outcome_of(exit: HookExit, timeout: Duration) -> std::result::Result<
    Seq<char>,
    Seq<char>,
> {
    match exit {
        HookExit::NotStarted { cause } => Err("failed to spawn hook: "@ + cause@),
        HookExit::Exited { success, status, output } => if success {
            Ok(output@)
        } else {
            Err("hook exited with "@ + status@)
        },
        HookExit::Broken { cause } => Err("hook I/O error: "@ + cause@),
        HookExit::TimedOut => Err(
            "hook timed out after "@ + decimal((timeout.nanos as int / 1_000_000_000) as nat) + "s"@,
        ),
    }
}

/// What a hook gives: its output where it succeeded, an error otherwise.
pub fn hook_outcome(exit: HookExit, timeout: Duration) -> (r: Result<String>)
    requires
        timeout.nanos as int / 1_000_000_000 <= u64::MAX,
    ensures
        match (r, outcome_of(exit, timeout)) {
            (Ok(output), Ok(o)) => output@ == o,
            (Err(e), Err(m)) => e is Hook && e.detail() == m,
            _ => false,
        },
{
    match exit {
        HookExit::NotStarted { cause } => Err(
            Error::Hook(cat2("failed to spawn hook: ", cause.as_str())),
        ),
        HookExit::Exited { success, status, output } => if success {
            Ok(output)
        } else {
            Err(Error::Hook(cat2("hook exited with ", status.as_str())))
        },
        HookExit::Broken { cause } => Err(Error::Hook(cat2("hook I/O error: ", cause.as_str()))),
        HookExit::TimedOut => {
            let secs = decimal_string(timeout.as_secs() as u64);
            Err(Error::Hook(cat3("hook timed out after ", secs.as_str(), "s")))
        },
    }
}

/// A hook that succeeded gives its output; one that failed, could not be started, broke
/// off or took too long gives an error that says so.
pub proof fn law_hook_succeeds_only_so(exit: HookExit, timeout: Duration)
    ensures
        outcome_of(exit, timeout) is Ok <==> exit is Exited && exit->success,
        exit is Exited && exit->success ==> outcome_of(exit, timeout)->Ok_0 == exit->output@,
        exit is Exited && !exit->success ==> outcome_of(exit, timeout)->Err_0
            == "hook exited with "@ + exit->status@,
        exit is NotStarted ==> outcome_of(exit, timeout)->Err_0 == "failed to spawn hook: "@
            + exit->NotStarted_cause@,
        exit is Broken ==> outcome_of(exit, timeout)->Err_0 == "hook I/O error: "@
            + exit->Broken_cause@,
        exit is TimedOut ==> outcome_of(exit, timeout)->Err_0 == "hook timed out after "@ + decimal(
            (timeout.nanos / 1_000_000_000) as nat,
        ) + "s"@,
{
}

} // verus!
