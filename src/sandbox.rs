//! The decisions of the sandbox supervisor. The supervisor starts a child
//! that runs the mutant, waits for the whole time budget, checks the child's
//! status once without blocking, and acts on what it finds.
use vstd::prelude::*;

verus! {

/// How one execution of a mutant ended.
#[derive(Clone, Copy, Debug, PartialEq, Eq, Structural)]
pub enum RunResult {
    /// The tests passed: the mutant survived.
    Success,
    /// The tests or the interpreter failed: the mutant was killed.
    RuntimeError,
    /// The child was still running when the budget ran out, and was killed.
    Timeout,
}

/// The stored name of an outcome.
pub open spec fn outcome_name(r: RunResult) -> Seq<char> {
    match r {
        RunResult::Success => "Success"@,
        RunResult::RuntimeError => "RuntimeError"@,
        RunResult::Timeout => "Timeout"@,
    }
}

impl RunResult {
    /// The name under which the outcome is stored.
    pub fn name(&self) -> (r: &'static str)
        ensures
            r@ == outcome_name(*self),
    {
        match self {
            RunResult::Success => "Success",
            RunResult::RuntimeError => "RuntimeError",
            RunResult::Timeout => "Timeout",
        }
    }
}

/// What a single non-blocking status check found.
#[derive(Clone, Copy, Debug, PartialEq, Eq, Structural)]
pub enum ChildStatus {
    /// The child exited with this code.
    Exited { code: i32 },
    /// The child was ended by a signal (it crashed).
    Signaled,
    /// The child has not ended yet.
    Running,
}

/// What the supervisor does after the status check.
#[derive(Clone, Copy, Debug, PartialEq, Eq, Structural)]
pub enum Verdict {
    /// The child has ended: record this outcome.
    Finished(RunResult),
    /// The child is still running: kill it, then record a timeout.
    Kill,
}

/// Why supervising one mutant failed.
#[derive(Clone, Copy, Debug, PartialEq, Eq, Structural)]
pub enum SandboxError {
    /// The child could not be killed.
    KillFailed,
}

/// The outcome that a status found at the end of the budget implies.
pub open spec fn verdict_of(status: ChildStatus) -> Verdict {
    match status {
        ChildStatus::Exited { code } => if code == 0 {
            Verdict::Finished(RunResult::Success)
        } else {
            Verdict::Finished(RunResult::RuntimeError)
        },
        ChildStatus::Signaled => Verdict::Finished(RunResult::RuntimeError),
        ChildStatus::Running => Verdict::Kill,
    }
}

/// Decides on the status found at the end of the budget: an exit with code
/// zero is a success, any other end a runtime error, and a child still
/// running must be killed.
pub fn classify(status: ChildStatus) -> (r: Verdict)
    ensures
        r == verdict_of(status),
{
    match status {
        ChildStatus::Exited { code } => {
            if code == 0 {
                Verdict::Finished(RunResult::Success)
            } else {
                Verdict::Finished(RunResult::RuntimeError)
            }
        },
        ChildStatus::Signaled => Verdict::Finished(RunResult::RuntimeError),
        ChildStatus::Running => Verdict::Kill,
    }
}

/// Decides after the kill request: a killed child is a timeout; a failed
/// kill is an error for this mutant.
pub fn after_kill(killed: bool) -> (r: Result<RunResult, SandboxError>)
    ensures
        killed ==> r == Ok::<RunResult, SandboxError>(RunResult::Timeout),
        !killed ==> r == Err::<RunResult, SandboxError>(SandboxError::KillFailed),
{
    if killed {
        Ok(RunResult::Timeout)
    } else {
        Err(SandboxError::KillFailed)
    }
}

} // verus!
