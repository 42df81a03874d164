use code_assistant_rust::command::CommandOutput;
use code_assistant_rust::execution::{
    interpreter_probe, Action, Event, ExecutionOutcome, Phase, Sandbox, SCRATCH_PREFIX,
    SOURCE_FILE,
};

fn left_behind(stdout: &[u8], stderr: &[u8], exit_code: Option<i32>) -> CommandOutput {
    CommandOutput { stdout: stdout.to_vec(), stderr: stderr.to_vec(), exit_code }
}

fn started_sandbox(timeout_ms: u64) -> Sandbox {
    let (sandbox, action) = Sandbox::new(timeout_ms);
    assert!(matches!(action, Action::CreateScratch));
    assert_eq!(sandbox.phase(), Phase::Creating);
    let (sandbox, action) = sandbox.step(Event::ScratchCreated);
    assert!(matches!(action, Action::WriteSource));
    assert_eq!(sandbox.phase(), Phase::Writing);
    let (sandbox, action) = sandbox.step(Event::SourceWritten);
    assert!(matches!(action, Action::StartInterpreter));
    assert_eq!(sandbox.phase(), Phase::Starting);
    let (sandbox, action) = sandbox.step(Event::ChildStarted);
    assert!(matches!(action, Action::Wait));
    assert_eq!(sandbox.phase(), Phase::Running);
    sandbox
}

fn released(sandbox: Sandbox) -> Result<ExecutionOutcome, String> {
    assert_eq!(sandbox.phase(), Phase::Releasing);
    let (sandbox, action) = sandbox.step(Event::ScratchRemoved);
    assert_eq!(sandbox.phase(), Phase::Finished);
    match action {
        Action::Finish(Ok(outcome)) => Ok(outcome),
        Action::Finish(Err(error)) => Err(error.message()),
        other => panic!("no outcome: {:?}", other),
    }
}

#[test]
fn a_script_that_prints_ok_and_exits_with_zero_succeeds() {
    let sandbox = started_sandbox(5000);
    let (sandbox, action) = sandbox.step(Event::ChildExited(left_behind(b"ok\n", b"", Some(0)), 37));
    assert!(matches!(action, Action::RemoveScratch));
    let outcome = released(sandbox).unwrap();
    assert!(outcome.success);
    assert_eq!(outcome.stdout, "ok\n");
    assert_eq!(outcome.stderr, "");
    assert_eq!(outcome.exit_code, Some(0));
    assert_eq!(outcome.duration_ms, 37);
    assert!(!outcome.timed_out);
}

#[test]
fn a_script_that_outlasts_the_limit_is_ended_and_reported_as_timed_out() {
    let sandbox = started_sandbox(1000);
    let (sandbox, action) = sandbox.step(Event::StillRunning(400));
    assert!(matches!(action, Action::Wait));
    assert_eq!(sandbox.phase(), Phase::Running);
    let (sandbox, action) = sandbox.step(Event::StillRunning(999));
    assert!(matches!(action, Action::Wait));
    let (sandbox, action) = sandbox.step(Event::StillRunning(1000));
    assert!(matches!(action, Action::Kill));
    assert_eq!(sandbox.phase(), Phase::Killing);
    let (sandbox, action) =
        sandbox.step(Event::ChildExited(left_behind(b"partial", b"", None), 1004));
    assert!(matches!(action, Action::RemoveScratch));
    let outcome = released(sandbox).unwrap();
    assert!(outcome.timed_out);
    assert!(!outcome.success);
    assert_eq!(outcome.exit_code, None);
    assert_eq!(outcome.stdout, "partial");
    assert_eq!(outcome.duration_ms, 1004);
}

#[test]
fn a_run_ended_for_the_limit_is_no_success_whatever_its_status() {
    let sandbox = started_sandbox(10);
    let (sandbox, _) = sandbox.step(Event::StillRunning(11));
    let (sandbox, _) = sandbox.step(Event::ChildExited(left_behind(b"", b"", Some(0)), 12));
    let outcome = released(sandbox).unwrap();
    assert!(outcome.timed_out);
    assert!(!outcome.success);
    assert_eq!(outcome.exit_code, None);
}

#[test]
fn a_limit_of_zero_ends_a_run_at_the_first_look() {
    let sandbox = started_sandbox(0);
    let (sandbox, action) = sandbox.step(Event::StillRunning(0));
    assert!(matches!(action, Action::Kill));
    assert_eq!(sandbox.phase(), Phase::Killing);
}

#[test]
fn a_limit_beyond_64_bits_of_elapsed_time_is_compared_exactly() {
    let sandbox = started_sandbox(u64::MAX);
    let (sandbox, action) = sandbox.step(Event::StillRunning(u64::MAX as u128 - 1));
    assert!(matches!(action, Action::Wait));
    let (_, action) = sandbox.step(Event::StillRunning(u64::MAX as u128 + 5));
    assert!(matches!(action, Action::Kill));
}

#[test]
fn a_script_found_ended_after_the_limit_is_reported_as_timed_out() {
    let sandbox = started_sandbox(10);
    let (sandbox, action) =
        sandbox.step(Event::ChildExited(left_behind(b"late", b"", Some(0)), 5000));
    assert!(matches!(action, Action::RemoveScratch));
    let outcome = released(sandbox).unwrap();
    assert!(outcome.timed_out);
    assert!(!outcome.success);
    assert_eq!(outcome.exit_code, None);
    assert_eq!(outcome.stdout, "late");
    assert_eq!(outcome.duration_ms, 5000);
}

#[test]
fn a_script_that_ends_within_the_limit_is_no_timeout() {
    let sandbox = started_sandbox(10);
    let (sandbox, _) = sandbox.step(Event::StillRunning(5));
    let (sandbox, _) = sandbox.step(Event::ChildExited(left_behind(b"", b"", Some(0)), 9));
    let outcome = released(sandbox).unwrap();
    assert!(!outcome.timed_out);
    assert!(outcome.success);
    assert_eq!(outcome.exit_code, Some(0));
}

#[test]
fn a_script_that_takes_exactly_the_limit_is_reported_as_timed_out() {
    let sandbox = started_sandbox(10);
    let (sandbox, _) = sandbox.step(Event::ChildExited(left_behind(b"", b"", Some(0)), 10));
    let outcome = released(sandbox).unwrap();
    assert!(outcome.timed_out);
    assert!(!outcome.success);
    assert_eq!(outcome.exit_code, None);
}

#[test]
fn a_scratch_directory_that_cannot_be_removed_is_told_of_and_the_outcome_handed_out() {
    let sandbox = started_sandbox(5000);
    let (sandbox, action) = sandbox.step(Event::ChildExited(left_behind(b"ok\n", b"", Some(0)), 3));
    assert!(matches!(action, Action::RemoveScratch));
    assert!(sandbox.expects(&Event::ScratchLeft));
    let (sandbox, action) = sandbox.step(Event::ScratchLeft);
    assert_eq!(sandbox.phase(), Phase::Leftover);
    match action {
        Action::Finish(Ok(outcome)) => {
            assert!(outcome.success);
            assert_eq!(outcome.stdout, "ok\n");
        }
        other => panic!("no outcome: {:?}", other),
    }
    assert!(!sandbox.expects(&Event::ScratchRemoved));
    assert!(!sandbox.expects(&Event::ScratchLeft));
    assert!(sandbox.try_step(Event::ScratchRemoved).is_err());
}

#[test]
fn a_failure_is_handed_out_too_where_the_scratch_directory_cannot_be_removed() {
    let (sandbox, _) = Sandbox::new(100);
    let (sandbox, _) = sandbox.step(Event::ScratchCreated);
    let (sandbox, _) = sandbox.step(Event::SourceFailed(String::from("read-only")));
    let (sandbox, action) = sandbox.step(Event::ScratchLeft);
    assert_eq!(sandbox.phase(), Phase::Leftover);
    match action {
        Action::Finish(Err(error)) => {
            assert_eq!(error.message(), "Failed to write code to temporary file: read-only")
        }
        other => panic!("no failure: {:?}", other),
    }
}

#[test]
fn a_status_other_than_zero_is_an_outcome_and_no_failure() {
    let sandbox = started_sandbox(5000);
    let (sandbox, _) = sandbox.step(Event::ChildExited(
        left_behind(b"", b"Traceback (most recent call last):\n", Some(1)),
        20,
    ));
    let outcome = released(sandbox).unwrap();
    assert!(!outcome.success);
    assert_eq!(outcome.exit_code, Some(1));
    assert_eq!(outcome.stderr, "Traceback (most recent call last):\n");
    assert!(!outcome.timed_out);
}

#[test]
fn a_run_ended_by_a_signal_has_no_status() {
    let outcome = ExecutionOutcome::from_output(&left_behind(b"", b"", None), 3, false);
    assert!(!outcome.success);
    assert_eq!(outcome.exit_code, None);
    assert!(!outcome.timed_out);
}

#[test]
fn a_scratch_directory_that_cannot_be_made_ends_the_run_at_once() {
    let (sandbox, _) = Sandbox::new(100);
    let (sandbox, action) = sandbox.step(Event::ScratchFailed(String::from("disk full")));
    assert_eq!(sandbox.phase(), Phase::Finished);
    match action {
        Action::Finish(Err(error)) => {
            assert_eq!(error.message(), "Failed to create temporary directory: disk full")
        }
        other => panic!("no failure: {:?}", other),
    }
}

#[test]
fn a_source_that_cannot_be_written_has_the_scratch_removed_first() {
    let (sandbox, _) = Sandbox::new(100);
    let (sandbox, _) = sandbox.step(Event::ScratchCreated);
    let (sandbox, action) = sandbox.step(Event::SourceFailed(String::from("read-only")));
    assert!(matches!(action, Action::RemoveScratch));
    assert_eq!(
        released(sandbox).unwrap_err(),
        "Failed to write code to temporary file: read-only"
    );
}

#[test]
fn an_interpreter_that_cannot_be_started_has_the_scratch_removed_first() {
    let (sandbox, _) = Sandbox::new(100);
    let (sandbox, _) = sandbox.step(Event::ScratchCreated);
    let (sandbox, _) = sandbox.step(Event::SourceWritten);
    let (sandbox, action) = sandbox.step(Event::ChildFailed(String::from("not found")));
    assert!(matches!(action, Action::RemoveScratch));
    assert_eq!(released(sandbox).unwrap_err(), "Failed to execute code: not found");
}

#[test]
fn the_sandbox_tells_which_events_it_waits_for() {
    let (sandbox, _) = Sandbox::new(100);
    assert!(sandbox.expects(&Event::ScratchCreated));
    assert!(sandbox.expects(&Event::ScratchFailed(String::new())));
    assert!(!sandbox.expects(&Event::SourceWritten));
    assert!(!sandbox.expects(&Event::ScratchRemoved));
    assert!(!sandbox.expects(&Event::ScratchLeft));
    let (sandbox, _) = sandbox.step(Event::ScratchCreated);
    assert!(sandbox.expects(&Event::SourceWritten));
    assert!(!sandbox.expects(&Event::ScratchCreated));
    let sandbox = started_sandbox(100);
    assert!(sandbox.expects(&Event::StillRunning(0)));
    assert!(sandbox.expects(&Event::ChildExited(left_behind(b"", b"", None), 0)));
    assert!(!sandbox.expects(&Event::ChildStarted));
    let (sandbox, _) = sandbox.step(Event::StillRunning(100));
    assert!(!sandbox.expects(&Event::StillRunning(101)));
    assert!(sandbox.expects(&Event::ChildExited(left_behind(b"", b"", None), 0)));
    let (sandbox, _) = sandbox.step(Event::ChildExited(left_behind(b"", b"", None), 0));
    assert!(sandbox.expects(&Event::ScratchRemoved));
    assert!(!sandbox.expects(&Event::ChildExited(left_behind(b"", b"", None), 0)));
    let (sandbox, _) = sandbox.step(Event::ScratchRemoved);
    assert!(!sandbox.expects(&Event::ScratchRemoved));
    assert!(!sandbox.expects(&Event::ScratchCreated));
}

#[test]
fn output_that_is_no_utf8_is_read_with_replacement_characters() {
    let outcome = ExecutionOutcome::from_output(
        &left_behind(b"a\xFFb", b"\xE2\x82", Some(0)),
        1,
        false,
    );
    assert_eq!(outcome.stdout, "a\u{FFFD}b");
    assert_eq!(outcome.stderr, "\u{FFFD}");
    assert!(outcome.success);
}

#[test]
fn output_that_is_utf8_is_read_as_it_is() {
    let outcome = ExecutionOutcome::from_output(
        &left_behind("gr\u{fc}\u{df}e\n".as_bytes(), "\u{1F600}".as_bytes(), Some(0)),
        1,
        false,
    );
    assert_eq!(outcome.stdout, "gr\u{fc}\u{df}e\n");
    assert_eq!(outcome.stderr, "\u{1F600}");
}

#[test]
fn an_outcome_is_a_success_on_status_zero_alone() {
    for (exit_code, timed_out, success, kept) in [
        (Some(0), false, true, Some(0)),
        (Some(1), false, false, Some(1)),
        (Some(-1), false, false, Some(-1)),
        (None, false, false, None),
        (Some(0), true, false, None),
        (Some(9), true, false, None),
        (None, true, false, None),
    ] {
        let outcome =
            ExecutionOutcome::new(String::from("o"), String::from("e"), exit_code, 8, timed_out);
        assert_eq!(outcome.success, success);
        assert_eq!(outcome.exit_code, kept);
        assert_eq!(outcome.timed_out, timed_out);
        assert_eq!(outcome.stdout, "o");
        assert_eq!(outcome.stderr, "e");
        assert_eq!(outcome.duration_ms, 8);
    }
}

#[test]
fn the_interpreter_is_handed_the_path_of_the_source() {
    let probe = interpreter_probe("/tmp/code_exec_abc/code.py");
    assert_eq!(probe.program, "python3");
    assert_eq!(probe.arguments, vec!["/tmp/code_exec_abc/code.py"]);
    assert_eq!(SCRATCH_PREFIX, "code_exec_");
    assert_eq!(SOURCE_FILE, "code.py");
}

#[test]
fn an_event_that_is_not_waited_for_leaves_the_sandbox_as_it_was() {
    let (sandbox, _) = Sandbox::new(100);
    let (sandbox, event) = sandbox.try_step(Event::ChildStarted).unwrap_err();
    assert!(matches!(event, Event::ChildStarted));
    assert_eq!(sandbox.phase(), Phase::Creating);
    let (sandbox, action) = sandbox.try_step(Event::ScratchCreated).unwrap();
    assert!(matches!(action, Action::WriteSource));
    assert_eq!(sandbox.phase(), Phase::Writing);
    let (sandbox, event) =
        sandbox.try_step(Event::ScratchFailed(String::from("late"))).unwrap_err();
    assert!(matches!(event, Event::ScratchFailed(reason) if reason == "late"));
    assert_eq!(sandbox.phase(), Phase::Writing);
}

#[test]
fn a_finished_sandbox_waits_for_nothing() {
    let (sandbox, _) = Sandbox::new(100);
    let (sandbox, _) = sandbox.step(Event::ScratchFailed(String::from("no space")));
    assert_eq!(sandbox.phase(), Phase::Finished);
    let (sandbox, _) = sandbox.try_step(Event::ScratchRemoved).unwrap_err();
    assert!(sandbox.try_step(Event::ScratchCreated).is_err());
}
