//! Running a piece of source in a scratch directory, under a time limit.
//!
//! The library decides; the caller acts. `Sandbox` says what to do next, the
//! caller does it and tells what came of it, until `Sandbox` hands out the
//! outcome. No outcome is handed out before the scratch directory was
//! removed, or its removal was tried and failed; the sandbox says which.

use crate::command::{CommandOutput, Invocation};
use crate::error::{context_message, CodeAssistantError};
use vstd::prelude::*;
use vstd::string::StringExecFns;
use vstd::utf8::{decode_utf8, valid_utf8};

verus! {

/// What came of running a piece of source.
#[derive(Debug)]
pub struct ExecutionOutcome {
    /// Whether the interpreter ended with status 0.
    pub success: bool,
    /// What was written to standard output, as text.
    pub stdout: String,
    /// What was written to standard error, as text.
    pub stderr: String,
    /// How long the run took, in milliseconds.
    pub duration_ms: u128,
    /// The status that the interpreter ended with; `None` where a signal
    /// ended it or the run timed out.
    pub exit_code: Option<i32>,
    /// Whether the run timed out: it was ended for the time limit, or it
    /// took the limit or longer.
    pub timed_out: bool,
}

/// An outcome as a value of the model.
pub struct OutcomeModel {
    pub success: bool,
    pub stdout: Seq<char>,
    pub stderr: Seq<char>,
    pub duration_ms: u128,
    pub exit_code: Option<i32>,
    pub timed_out: bool,
}

impl View for ExecutionOutcome {
    type V = OutcomeModel;

    open spec fn view(&self) -> OutcomeModel {
        OutcomeModel {
            success: self.success,
            stdout: self.stdout@,
            stderr: self.stderr@,
            duration_ms: self.duration_ms,
            exit_code: self.exit_code,
            timed_out: self.timed_out,
        }
    }
}

impl OutcomeModel {
    /// Success means status 0, and a run ended for the time limit has no status.
    pub open spec fn wf(self) -> bool {
        &&& self.success <==> self.exit_code == Some(0i32)
        &&& self.timed_out ==> self.exit_code is None
    }
}

/// The text that `String::from_utf8_lossy` makes of `bytes`.
pub uninterp spec fn lossy_text(bytes: Seq<u8>) -> Seq<char>;

/// Calls `String::from_utf8_lossy`, which reads bytes as UTF-8 and puts the
/// replacement character for what is none. Valid UTF-8 comes out as it is.
#[verifier::external_body]
fn from_utf8_lossy(bytes: &[u8]) -> (text: String)
    ensures
        text@ == lossy_text(bytes@),
        valid_utf8(bytes@) ==> text@ == decode_utf8(bytes@),
{
    String::from_utf8_lossy(bytes).into_owned()
}

/// The outcome of a run that printed `stdout` and `stderr`, ended with
/// `exit_code` after `duration_ms`, and was or was not ended for the time limit.
pub open spec fn outcome_model(
    stdout: Seq<char>,
    stderr: Seq<char>,
    exit_code: Option<i32>,
    duration_ms: u128,
    timed_out: bool,
) -> OutcomeModel {
    OutcomeModel {
        success: !timed_out && exit_code == Some(0i32),
        stdout,
        stderr,
        duration_ms,
        exit_code: if timed_out {
            None
        } else {
            exit_code
        },
        timed_out,
    }
}

/// The outcome of a run that left `output` behind.
pub open spec fn outcome_of(output: CommandOutput, duration_ms: u128, timed_out: bool)
    -> OutcomeModel {
    outcome_model(
        lossy_text(output.stdout@),
        lossy_text(output.stderr@),
        output.exit_code,
        duration_ms,
        timed_out,
    )
}

impl ExecutionOutcome {
    /// The outcome of a run that printed `stdout` and `stderr` and ended with
    /// `exit_code` after `duration_ms`. With `timed_out` the run counts as
    /// ended for the time limit: it has no status then and is no success.
    pub fn new(
        stdout: String,
        stderr: String,
        exit_code: Option<i32>,
        duration_ms: u128,
        timed_out: bool,
    ) -> (outcome: Self)
        ensures
            outcome@ == outcome_model(stdout@, stderr@, exit_code, duration_ms, timed_out),
            outcome@.wf(),
    {
        let ended_with_zero = match exit_code {
            Some(code) => code == 0,
            None => false,
        };
        ExecutionOutcome {
            success: !timed_out && ended_with_zero,
            stdout,
            stderr,
            duration_ms,
            exit_code: if timed_out {
                None
            } else {
                exit_code
            },
            timed_out,
        }
    }

    /// The outcome of a run that left `output` behind, its bytes read as text.
    pub fn from_output(output: &CommandOutput, duration_ms: u128, timed_out: bool) -> (outcome:
        Self)
        ensures
            outcome@ == outcome_of(*output, duration_ms, timed_out),
            outcome@.wf(),
            valid_utf8(output.stdout@) ==> outcome@.stdout == decode_utf8(output.stdout@),
            valid_utf8(output.stderr@) ==> outcome@.stderr == decode_utf8(output.stderr@),
    {
        let stdout = from_utf8_lossy(output.stdout.as_slice());
        let stderr = from_utf8_lossy(output.stderr.as_slice());
        ExecutionOutcome::new(stdout, stderr, output.exit_code, duration_ms, timed_out)
    }
}

/// What the name of the scratch directory begins with.
pub const SCRATCH_PREFIX: &'static str = "code_exec_";

/// The name of the file in the scratch directory that holds the source.
pub const SOURCE_FILE: &'static str = "code.py";

/// The command that runs the source in the file at `source_path`: `python3`
/// with the path as its one argument.
pub fn interpreter_probe(source_path: &str) -> (probe: Invocation)
    ensures
        probe.program@ == "python3"@,
        probe.argument_texts() == seq![source_path@],
{
    let mut arguments: Vec<String> = Vec::new();
    arguments.push(String::from_str(source_path));
    Invocation { program: String::from_str("python3"), arguments }
}

/// What the sandbox waits for.
#[derive(Clone, Copy, PartialEq, Eq, Structural, Debug)]
pub enum Phase {
    /// For the scratch directory to be made.
    Creating,
    /// For the source to be written into it.
    Writing,
    /// For the interpreter to be started.
    Starting,
    /// For the interpreter to end.
    Running,
    /// For the interpreter to end after it was told to.
    Killing,
    /// For the scratch directory to be removed.
    Releasing,
    /// For nothing: the outcome was handed out, and no scratch directory exists.
    Finished,
    /// For nothing: the outcome was handed out, but the scratch directory
    /// could not be removed and is still there.
    Leftover,
}

/// What the caller tells the sandbox.
#[derive(Debug)]
pub enum Event {
    /// The scratch directory was made.
    ScratchCreated,
    /// It could not be made, for the reason given.
    ScratchFailed(String),
    /// The source was written.
    SourceWritten,
    /// It could not be written, for the reason given.
    SourceFailed(String),
    /// The interpreter was started.
    ChildStarted,
    /// It could not be started, for the reason given.
    ChildFailed(String),
    /// The interpreter still runs, so many milliseconds after its start.
    StillRunning(u128),
    /// The interpreter ended, so many milliseconds after its start, and left this behind.
    ChildExited(CommandOutput, u128),
    /// The scratch directory was removed.
    ScratchRemoved,
    /// The scratch directory could not be removed.
    ScratchLeft,
}

/// What the sandbox tells the caller to do.
#[derive(Debug)]
pub enum Action {
    /// Make the scratch directory.
    CreateScratch,
    /// Write the source into a file in it.
    WriteSource,
    /// Start the interpreter on that file.
    StartInterpreter,
    /// Look again in a while whether the interpreter has ended.
    Wait,
    /// End the interpreter and gather what it printed.
    Kill,
    /// Remove the scratch directory with all that it holds.
    RemoveScratch,
    /// Stop: this is what came of it.
    Finish(Result<ExecutionOutcome, CodeAssistantError>),
}

/// What came of it, as a value of the model.
pub enum Verdict {
    Completed(OutcomeModel),
    Failed(Seq<char>),
}

/// What the sandbox tells the caller to do, as a value of the model.
pub enum ActionModel {
    CreateScratch,
    WriteSource,
    StartInterpreter,
    Wait,
    Kill,
    RemoveScratch,
    Finish(Verdict),
}

/// The verdict that `result` stands for.
pub open spec fn verdict_of(result: Result<ExecutionOutcome, CodeAssistantError>) -> Verdict {
    match result {
        Ok(outcome) => Verdict::Completed(outcome@),
        Err(e) => Verdict::Failed(e@),
    }
}

impl View for Action {
    type V = ActionModel;

    open spec fn view(&self) -> ActionModel {
        match *self {
            Action::CreateScratch => ActionModel::CreateScratch,
            Action::WriteSource => ActionModel::WriteSource,
            Action::StartInterpreter => ActionModel::StartInterpreter,
            Action::Wait => ActionModel::Wait,
            Action::Kill => ActionModel::Kill,
            Action::RemoveScratch => ActionModel::RemoveScratch,
            Action::Finish(result) => ActionModel::Finish(verdict_of(result)),
        }
    }
}

/// The run of one piece of source, as far as it has come.
#[derive(Debug)]
pub struct Sandbox {
    timeout_ms: u64,
    phase: Phase,
    pending: Option<Result<ExecutionOutcome, CodeAssistantError>>,
}

/// The run of one piece of source as a value of the model.
pub struct SandboxModel {
    /// The time limit, in milliseconds.
    pub timeout_ms: u64,
    pub phase: Phase,
    /// What will be handed out once the scratch directory is removed.
    pub pending: Option<Verdict>,
}

/// Whether a scratch directory exists while the sandbox is in `phase`.
pub open spec fn holds_scratch(phase: Phase) -> bool {
    phase is Writing || phase is Starting || phase is Running || phase is Killing
        || phase is Releasing || phase is Leftover
}

/// Whether a run counts as ended for the time limit: it was told to end, or
/// it was found ended no sooner than the limit after its start.
pub open spec fn outlasted(phase: Phase, timeout_ms: u64, elapsed_ms: u128) -> bool {
    phase is Killing || elapsed_ms >= timeout_ms
}

/// Whether `outcome` holds, as they are, the streams of `output` that are UTF-8.
pub open spec fn keeps_utf8(output: CommandOutput, outcome: OutcomeModel) -> bool {
    &&& valid_utf8(output.stdout@) ==> outcome.stdout == decode_utf8(output.stdout@)
    &&& valid_utf8(output.stderr@) ==> outcome.stderr == decode_utf8(output.stderr@)
}

/// Whether the sandbox `next`, reached on `event`, holds back an outcome that
/// keeps the UTF-8 of what the run left behind, where `event` is its end.
pub open spec fn keeps_utf8_of(event: Event, next: SandboxModel) -> bool {
    event matches Event::ChildExited(output, _) ==> (next.pending matches Some(
        Verdict::Completed(outcome),
    ) && keeps_utf8(output, outcome))
}

/// Whether `event` is one that the sandbox waits for in `phase`.
pub open spec fn expected(phase: Phase, event: Event) -> bool {
    match phase {
        Phase::Creating => event is ScratchCreated || event is ScratchFailed,
        Phase::Writing => event is SourceWritten || event is SourceFailed,
        Phase::Starting => event is ChildStarted || event is ChildFailed,
        Phase::Running => event is StillRunning || event is ChildExited,
        Phase::Killing => event is ChildExited,
        Phase::Releasing => event is ScratchRemoved || event is ScratchLeft,
        Phase::Finished => false,
        Phase::Leftover => false,
    }
}

/// The text of the failure to make the scratch directory.
pub open spec fn scratch_failure() -> Seq<char> {
    "Failed to create temporary directory"@
}

/// The text of the failure to write the source.
pub open spec fn source_failure() -> Seq<char> {
    "Failed to write code to temporary file"@
}

/// The text of the failure to start the interpreter.
pub open spec fn child_failure() -> Seq<char> {
    "Failed to execute code"@
}

/// The sandbox that is first to be removed and then to hand out `verdict`.
pub open spec fn releasing(timeout_ms: u64, verdict: Verdict) -> (SandboxModel, ActionModel) {
    (
        SandboxModel { timeout_ms, phase: Phase::Releasing, pending: Some(verdict) },
        ActionModel::RemoveScratch,
    )
}

/// The sandbox that waits in `phase` while the caller does `action`.
pub open spec fn waiting(timeout_ms: u64, phase: Phase, action: ActionModel) -> (
    SandboxModel,
    ActionModel,
) {
    (SandboxModel { timeout_ms, phase, pending: None }, action)
}

/// What becomes of `sandbox` on an `event` that it waits for, and what the
/// caller is to do next.
pub open spec fn step_model(sandbox: SandboxModel, event: Event) -> (SandboxModel, ActionModel) {
    let limit = sandbox.timeout_ms;
    match event {
        Event::ScratchCreated => waiting(limit, Phase::Writing, ActionModel::WriteSource),
        Event::ScratchFailed(reason) => waiting(
            limit,
            Phase::Finished,
            ActionModel::Finish(Verdict::Failed(context_message(scratch_failure(), reason@))),
        ),
        Event::SourceWritten => waiting(limit, Phase::Starting, ActionModel::StartInterpreter),
        Event::SourceFailed(reason) => releasing(
            limit,
            Verdict::Failed(context_message(source_failure(), reason@)),
        ),
        Event::ChildStarted => waiting(limit, Phase::Running, ActionModel::Wait),
        Event::ChildFailed(reason) => releasing(
            limit,
            Verdict::Failed(context_message(child_failure(), reason@)),
        ),
        Event::StillRunning(elapsed_ms) => if elapsed_ms >= limit {
            waiting(limit, Phase::Killing, ActionModel::Kill)
        } else {
            waiting(limit, Phase::Running, ActionModel::Wait)
        },
        Event::ChildExited(output, elapsed_ms) => releasing(
            limit,
            Verdict::Completed(
                outcome_of(output, elapsed_ms, outlasted(sandbox.phase, limit, elapsed_ms)),
            ),
        ),
        Event::ScratchRemoved => waiting(
            limit,
            Phase::Finished,
            ActionModel::Finish(sandbox.pending->0),
        ),
        Event::ScratchLeft => waiting(
            limit,
            Phase::Leftover,
            ActionModel::Finish(sandbox.pending->0),
        ),
    }
}

/// A run that still goes on when the time limit is reached is ended, and
/// what is handed out once it has ended and the scratch directory is removed
/// is an outcome that tells of the time limit and is no success.
pub proof fn lemma_timeout_is_reported(
    timeout_ms: u64,
    elapsed_ms: u128,
    output: CommandOutput,
    ended_ms: u128,
)
    requires
        elapsed_ms >= timeout_ms,
    ensures
        ({
            let running = SandboxModel { timeout_ms, phase: Phase::Running, pending: None };
            let (killing, first) = step_model(running, Event::StillRunning(elapsed_ms));
            let (releasing, second) = step_model(killing, Event::ChildExited(output, ended_ms));
            let (finished, third) = step_model(releasing, Event::ScratchRemoved);
            &&& first is Kill
            &&& expected(killing.phase, Event::ChildExited(output, ended_ms))
            &&& second is RemoveScratch
            &&& expected(releasing.phase, Event::ScratchRemoved)
            &&& finished.phase is Finished
            &&& third matches ActionModel::Finish(Verdict::Completed(outcome))
            &&& outcome.timed_out
            &&& !outcome.success
            &&& outcome.exit_code is None
            &&& outcome.duration_ms == ended_ms
        }),
{
}

/// A run that is found ended tells of the time limit exactly where it took
/// the limit or longer, whatever status it ended with; a run that took less
/// is a success exactly where it ended with status 0.
pub proof fn lemma_outlasting_is_reported(timeout_ms: u64, output: CommandOutput, ended_ms: u128)
    ensures
        ({
            let running = SandboxModel { timeout_ms, phase: Phase::Running, pending: None };
            let (releasing, first) = step_model(running, Event::ChildExited(output, ended_ms));
            let (finished, second) = step_model(releasing, Event::ScratchRemoved);
            &&& first is RemoveScratch
            &&& expected(releasing.phase, Event::ScratchRemoved)
            &&& finished.phase is Finished
            &&& second matches ActionModel::Finish(Verdict::Completed(outcome))
            &&& outcome.timed_out <==> ended_ms >= timeout_ms
            &&& outcome.timed_out ==> !outcome.success && outcome.exit_code is None
            &&& !outcome.timed_out ==> outcome.exit_code == output.exit_code && (outcome.success
                <==> output.exit_code == Some(0i32))
            &&& outcome.duration_ms == ended_ms
        }),
{
}

/// An outcome or a failure is handed out only when no scratch directory was
/// made, or when the step that hands it out takes in that the directory was
/// removed or could not be removed. The sandbox ends as `Finished` exactly
/// where no scratch directory exists then, and as `Leftover` exactly where
/// the removal failed. Until then a scratch directory that exists stays known.
pub proof fn lemma_scratch_is_released(sandbox: SandboxModel, event: Event)
    requires
        sandbox.wf(),
        expected(sandbox.phase, event),
    ensures
        ({
            let (next, action) = step_model(sandbox, event);
            &&& next.wf()
            &&& action is Finish <==> next.phase is Finished || next.phase is Leftover
            &&& action is Finish && holds_scratch(sandbox.phase) ==> event is ScratchRemoved
                || event is ScratchLeft
            &&& next.phase is Leftover <==> event is ScratchLeft
            &&& next.phase is Finished ==> !holds_scratch(next.phase)
            &&& !(action is Finish) ==> holds_scratch(next.phase)
            &&& action is RemoveScratch <==> next.phase is Releasing
        }),
{
}

impl View for Sandbox {
    type V = SandboxModel;

    closed spec fn view(&self) -> SandboxModel {
        SandboxModel {
            timeout_ms: self.timeout_ms,
            phase: self.phase,
            pending: match self.pending {
                Some(result) => Some(verdict_of(result)),
                None => None,
            },
        }
    }
}

impl SandboxModel {
    /// An outcome is held back while the scratch directory is being removed,
    /// and at no other time; an outcome held back is well formed.
    pub open spec fn wf(self) -> bool {
        &&& self.phase is Releasing <==> self.pending is Some
        &&& self.pending matches Some(Verdict::Completed(outcome)) ==> outcome.wf()
    }
}

impl Sandbox {
    /// Holds of every sandbox: see `SandboxModel::wf`.
    #[verifier::type_invariant]
    spec fn inv(self) -> bool {
        self@.wf()
    }

    /// A sandbox for one run with a time limit of `timeout_ms` milliseconds,
    /// and the first thing to do.
    pub fn new(timeout_ms: u64) -> (r: (Sandbox, Action))
        ensures
            (r.0@, r.1@) == waiting(timeout_ms, Phase::Creating, ActionModel::CreateScratch),
            r.0@.wf(),
    {
        (Sandbox { timeout_ms, phase: Phase::Creating, pending: None }, Action::CreateScratch)
    }

    /// What the sandbox waits for.
    pub fn phase(&self) -> (phase: Phase)
        ensures
            phase == self@.phase,
    {
        self.phase
    }

    /// Tells whether `event` is one that the sandbox waits for.
    pub fn expects(&self, event: &Event) -> (r: bool)
        ensures
            r == expected(self@.phase, *event),
    {
        match self.phase {
            Phase::Creating => matches!(event, Event::ScratchCreated | Event::ScratchFailed(_)),
            Phase::Writing => matches!(event, Event::SourceWritten | Event::SourceFailed(_)),
            Phase::Starting => matches!(event, Event::ChildStarted | Event::ChildFailed(_)),
            Phase::Running => matches!(event, Event::StillRunning(_) | Event::ChildExited(_, _)),
            Phase::Killing => matches!(event, Event::ChildExited(_, _)),
            Phase::Releasing => matches!(event, Event::ScratchRemoved | Event::ScratchLeft),
            Phase::Finished => false,
            Phase::Leftover => false,
        }
    }

    /// Takes in what came of the last action and says what to do next.
    ///
    /// A run that still goes on when the time limit is reached is ended, and
    /// the outcome of a run that took the limit or longer says so. What the
    /// run printed is handed out as it is where it is UTF-8. No outcome is
    /// handed out before the scratch directory was removed or its removal
    /// was tried and failed.
    pub fn step(self, event: Event) -> (r: (Sandbox, Action))
        requires
            expected(self@.phase, event),
        ensures
            (r.0@, r.1@) == step_model(self@, event),
            r.0@.wf(),
            r.0@.timeout_ms == self@.timeout_ms,
            keeps_utf8_of(event, r.0@),
            r.1 is Finish ==> r.0@.phase is Finished || r.0@.phase is Leftover,
            r.0@.phase is Leftover <==> event is ScratchLeft,
            holds_scratch(self@.phase) && !(r.1 is Finish) ==> holds_scratch(r.0@.phase),
            event matches Event::StillRunning(elapsed_ms) ==> (r.1 is Kill <==> elapsed_ms
                >= self@.timeout_ms),
            event matches Event::ChildExited(_, elapsed_ms) ==> (r.0@.pending matches Some(
                Verdict::Completed(outcome),
            ) && (outcome.timed_out <==> outlasted(self@.phase, self@.timeout_ms, elapsed_ms))
                && (outcome.timed_out ==> !outcome.success)),
    {
        proof {
            use_type_invariant(&self);
        }
        let timeout_ms = self.timeout_ms;
        let killing = matches!(self.phase, Phase::Killing);
        match event {
            Event::ScratchCreated => (
                Sandbox { timeout_ms, phase: Phase::Writing, pending: None },
                Action::WriteSource,
            ),
            Event::ScratchFailed(reason) => (
                Sandbox { timeout_ms, phase: Phase::Finished, pending: None },
                Action::Finish(
                    Err(
                        CodeAssistantError::with_context(
                            "Failed to create temporary directory",
                            reason.as_str(),
                        ),
                    ),
                ),
            ),
            Event::SourceWritten => (
                Sandbox { timeout_ms, phase: Phase::Starting, pending: None },
                Action::StartInterpreter,
            ),
            Event::SourceFailed(reason) => (
                Sandbox {
                    timeout_ms,
                    phase: Phase::Releasing,
                    pending: Some(
                        Err(
                            CodeAssistantError::with_context(
                                "Failed to write code to temporary file",
                                reason.as_str(),
                            ),
                        ),
                    ),
                },
                Action::RemoveScratch,
            ),
            Event::ChildStarted => (
                Sandbox { timeout_ms, phase: Phase::Running, pending: None },
                Action::Wait,
            ),
            Event::ChildFailed(reason) => (
                Sandbox {
                    timeout_ms,
                    phase: Phase::Releasing,
                    pending: Some(
                        Err(
                            CodeAssistantError::with_context(
                                "Failed to execute code",
                                reason.as_str(),
                            ),
                        ),
                    ),
                },
                Action::RemoveScratch,
            ),
            Event::StillRunning(elapsed_ms) => if elapsed_ms >= timeout_ms as u128 {
                (Sandbox { timeout_ms, phase: Phase::Killing, pending: None }, Action::Kill)
            } else {
                (Sandbox { timeout_ms, phase: Phase::Running, pending: None }, Action::Wait)
            },
            Event::ChildExited(output, elapsed_ms) => {
                let timed_out = killing || elapsed_ms >= timeout_ms as u128;
                (
                    Sandbox {
                        timeout_ms,
                        phase: Phase::Releasing,
                        pending: Some(
                            Ok(ExecutionOutcome::from_output(&output, elapsed_ms, timed_out)),
                        ),
                    },
                    Action::RemoveScratch,
                )
            },
            Event::ScratchRemoved => {
                let result = self.pending.unwrap();
                (
                    Sandbox { timeout_ms, phase: Phase::Finished, pending: None },
                    Action::Finish(result),
                )
            },
            Event::ScratchLeft => {
                let result = self.pending.unwrap();
                (
                    Sandbox { timeout_ms, phase: Phase::Leftover, pending: None },
                    Action::Finish(result),
                )
            },
        }
    }

    /// Takes in `event` where the sandbox waits for it, as `step` does, what
    /// the run printed handed out as it is where it is UTF-8; hands the
    /// sandbox and the event back untouched where it does not wait for it.
    pub fn try_step(self, event: Event) -> (r: Result<(Sandbox, Action), (Sandbox, Event)>)
        ensures
            expected(self@.phase, event) ==> r is Ok && (r->Ok_0.0@, r->Ok_0.1@) == step_model(
                self@,
                event,
            ) && keeps_utf8_of(event, r->Ok_0.0@),
            !expected(self@.phase, event) ==> r is Err && r->Err_0.0@ == self@ && r->Err_0.1
                == event,
    {
        if self.expects(&event) {
            Ok(self.step(event))
        } else {
            Err((self, event))
        }
    }
}

} // verus!
