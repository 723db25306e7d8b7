//! The uniform outcome model for local and remote commands, and the step
//! policy that the pipelines apply to every outcome.
//!
//! Both the local executor and the remote session report a command as a
//! [`CommandResult`]: combined output text plus an exit code. Exit code 0 is
//! success; any other value is failure, whatever the output says.
use vstd::prelude::*;

verus! {

/// The exit code recorded when a command's real status could not be
/// determined.
pub const UNKNOWN_EXIT: i32 = -1;

/// The outcome of running one command, local or remote: the combined
/// standard output and standard error text, and the exit code.
pub struct CommandResult {
    pub output: String,
    pub exit_code: i32,
}

impl CommandResult {
    /// Packs an output text and an exit code.
    pub fn new(output: String, exit_code: i32) -> (r: CommandResult)
        ensures
            r.output == output,
            r.exit_code == exit_code,
    {
        CommandResult { output, exit_code }
    }

    /// A command succeeded exactly when its exit code is 0.
    pub open spec fn spec_success(self) -> bool {
        self.exit_code == 0
    }

    /// Whether the command succeeded.
    pub fn is_success(&self) -> (r: bool)
        ensures
            r == self.spec_success(),
    {
        self.exit_code == 0
    }
}

/// How a pipeline treats a failing step.
#[derive(Clone, Copy, PartialEq, Eq, Structural, Debug)]
pub enum Policy {
    /// A non-zero exit aborts the pipeline.
    Critical,
    /// A non-zero exit is logged and ignored (used for idempotent
    /// "create if absent" commands).
    BestEffort,
}

/// What the pipeline does after one step's outcome.
#[derive(Clone, Copy, PartialEq, Eq, Structural, Debug)]
pub enum Verdict {
    /// Go on to the next step.
    Proceed,
    /// Stop the pipeline and surface the step's command and output.
    Abort,
}

/// The verdict for one outcome under one policy: abort exactly when the
/// step is critical and the exit code is non-zero. The output text plays
/// no part.
pub open spec fn spec_verdict(policy: Policy, result: CommandResult) -> Verdict {
    if policy is Critical && result.exit_code != 0 {
        Verdict::Abort
    } else {
        Verdict::Proceed
    }
}

/// Judges one step outcome.
pub fn step_verdict(policy: &Policy, result: &CommandResult) -> (v: Verdict)
    ensures
        v == spec_verdict(*policy, *result),
{
    match policy {
        Policy::Critical => {
            if result.exit_code != 0 {
                Verdict::Abort
            } else {
                Verdict::Proceed
            }
        },
        Policy::BestEffort => Verdict::Proceed,
    }
}

/// An exit code of 0 is success for every step, and any other code is
/// failure, regardless of the output content: two outcomes with the same
/// exit code get the same verdict under every policy.
pub proof fn lemma_verdict_ignores_output(p: Policy, r1: CommandResult, r2: CommandResult)
    requires
        r1.exit_code == r2.exit_code,
    ensures
        spec_verdict(p, r1) == spec_verdict(p, r2),
        r1.exit_code == 0 ==> spec_verdict(p, r1) == Verdict::Proceed,
        r1.exit_code != 0 && p is Critical ==> spec_verdict(p, r1) == Verdict::Abort,
{
}

/// What one pipeline step asks its collaborators to do.
pub enum StepKind {
    /// Run a local process to completion.
    Local { program: String, args: Vec<String> },
    /// Run a shell command string on the remote host.
    Remote { command: String },
    /// Copy a local file to an absolute remote path.
    Upload { local_path: String, remote_path: String },
}

/// One unit of a pipeline: a command plus the policy applied to its outcome.
pub struct Step {
    pub kind: StepKind,
    pub policy: Policy,
}

/// The mathematical image of a [`StepKind`].
pub enum SpecStepKind {
    Local { program: Seq<char>, args: Seq<Seq<char>> },
    Remote { command: Seq<char> },
    Upload { local_path: Seq<char>, remote_path: Seq<char> },
}

/// The mathematical image of a [`Step`].
pub struct SpecStep {
    pub kind: SpecStepKind,
    pub policy: Policy,
}

impl View for StepKind {
    type V = SpecStepKind;

    open spec fn view(&self) -> SpecStepKind {
        match self {
            StepKind::Local { program, args } => SpecStepKind::Local {
                program: program@,
                args: args.deep_view(),
            },
            StepKind::Remote { command } => SpecStepKind::Remote { command: command@ },
            StepKind::Upload { local_path, remote_path } => SpecStepKind::Upload {
                local_path: local_path@,
                remote_path: remote_path@,
            },
        }
    }
}

impl DeepView for StepKind {
    type V = SpecStepKind;

    open spec fn deep_view(&self) -> SpecStepKind {
        self.view()
    }
}

impl View for Step {
    type V = SpecStep;

    open spec fn view(&self) -> SpecStep {
        SpecStep { kind: self.kind.view(), policy: self.policy }
    }
}

impl DeepView for Step {
    type V = SpecStep;

    open spec fn deep_view(&self) -> SpecStep {
        self.view()
    }
}

/// Packs a critical remote shell step.
pub fn remote_step(command: String, policy: Policy) -> (r: Step)
    ensures
        r@ == (SpecStep { kind: SpecStepKind::Remote { command: command@ }, policy }),
{
    Step { kind: StepKind::Remote { command }, policy }
}

/// Runs a local process to completion; the work itself is done by the
/// caller's process-spawning collaborator outside this crate.
pub struct CommandExecutor;

impl CommandExecutor {
    /// A fresh local executor.
    pub fn new() -> (r: CommandExecutor) {
        CommandExecutor
    }
}

} // verus!
