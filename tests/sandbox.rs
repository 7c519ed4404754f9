use pymutant::sandbox::{after_kill, classify, ChildStatus, RunResult, SandboxError, Verdict};

#[test]
fn exit_zero_is_success() {
    assert_eq!(classify(ChildStatus::Exited { code: 0 }), Verdict::Finished(RunResult::Success));
}

#[test]
fn nonzero_exit_is_runtime_error() {
    assert_eq!(classify(ChildStatus::Exited { code: 1 }), Verdict::Finished(RunResult::RuntimeError));
    assert_eq!(classify(ChildStatus::Exited { code: -3 }), Verdict::Finished(RunResult::RuntimeError));
    assert_eq!(classify(ChildStatus::Signaled), Verdict::Finished(RunResult::RuntimeError));
}

#[test]
fn running_child_is_killed_and_times_out() {
    assert_eq!(classify(ChildStatus::Running), Verdict::Kill);
    assert_eq!(after_kill(true), Ok(RunResult::Timeout));
    assert_eq!(after_kill(false), Err(SandboxError::KillFailed));
}

#[test]
fn outcome_names() {
    assert_eq!(RunResult::Success.name(), "Success");
    assert_eq!(RunResult::RuntimeError.name(), "RuntimeError");
    assert_eq!(RunResult::Timeout.name(), "Timeout");
}
