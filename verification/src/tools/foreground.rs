//! Running a process in the foreground: it is started, waited for and read,
//! and what a shell changed in a copy of the workspace is committed only after
//! it has succeeded.

use vstd::prelude::*;
use vstd::string::*;

use super::cow::{
    decide, operations_abs, CowDecision, CowError, CowErrorAbs, CowOperationAbs,
    CowWorkspaceDiff,
};
use super::patch_error::{PatchError, PatchErrorAbs};
use super::process::WorkspaceAccess;
use super::shell::{ShellArgs, ShellExpectedEffects, ShellRoute};
use crate::value::{contents, Abstract};

verus! {

/// A step of a foreground execution.
#[derive(Clone, Copy, Debug, Eq, PartialEq, Structural)]
pub enum ForegroundStep {
    /// Start the process.
    Start,
    /// Wait a little, and look at the process again.
    Poll,
    /// Ask the process to end.
    Terminate,
    /// Compare the copy of the workspace with what it was.
    Compare,
    /// Apply the differences to the workspace.
    Apply,
    /// Read the output of the process.
    Read,
    /// Nothing more is to be done.
    Finished,
}

/// What became of a step.
#[derive(Clone, Debug)]
pub enum ForegroundEvent {
    /// The process was started or looked at, and the caller has cancelled the
    /// call or let its deadline pass.
    Seen { ended: bool, exit_code: Option<i32>, cancelled: bool, expired: bool },
    /// The process was asked to end.
    Terminated { cancelled: bool },
    Compared(CowWorkspaceDiff),
    Refused(CowError),
    Applied,
    Rejected(PatchError),
    OutputRead,
    Failed(String),
}

/// The content of an event.
pub enum EventAbs {
    Seen { ended: bool, exit_code: Option<i32>, cancelled: bool, expired: bool },
    Terminated { cancelled: bool },
    Compared(DiffAbs),
    Refused(CowErrorAbs),
    Applied,
    Rejected(PatchErrorAbs),
    OutputRead,
    Failed(Seq<char>),
}

/// The content of what a shell changed.
pub struct DiffAbs {
    pub operations: Seq<CowOperationAbs>,
    pub changed_paths: Seq<Seq<char>>,
}

pub open spec fn diff_abs(diff: CowWorkspaceDiff) -> DiffAbs {
    DiffAbs {
        operations: operations_abs(diff.operations@),
        changed_paths: contents(diff.changed_paths@),
    }
}

impl ForegroundEvent {
    pub open spec fn view(&self) -> EventAbs {
        match self {
            ForegroundEvent::Seen { ended, exit_code, cancelled, expired } => EventAbs::Seen {
                ended: *ended,
                exit_code: *exit_code,
                cancelled: *cancelled,
                expired: *expired,
            },
            ForegroundEvent::Terminated { cancelled } => EventAbs::Terminated {
                cancelled: *cancelled,
            },
            ForegroundEvent::Compared(diff) => EventAbs::Compared(diff_abs(*diff)),
            ForegroundEvent::Refused(error) => EventAbs::Refused(error@),
            ForegroundEvent::Applied => EventAbs::Applied,
            ForegroundEvent::Rejected(error) => EventAbs::Rejected(error@),
            ForegroundEvent::OutputRead => EventAbs::OutputRead,
            ForegroundEvent::Failed(error) => EventAbs::Failed(error@),
        }
    }
}

/// Why a foreground execution gave no answer.
#[derive(Clone, Debug, Eq, PartialEq)]
pub enum ForegroundFailure {
    /// The execution service failed, or the call was stopped.
    Execution(String),
    /// The shell changed what it did not declare, or more than can be
    /// committed.
    Changes(CowError),
    /// The changes were not taken into the workspace.
    Patch(PatchError),
}

pub enum FailureAbs {
    Execution(Seq<char>),
    Changes(CowErrorAbs),
    Patch(PatchErrorAbs),
}

impl ForegroundFailure {
    pub open spec fn view(&self) -> FailureAbs {
        match self {
            ForegroundFailure::Execution(error) => FailureAbs::Execution(error@),
            ForegroundFailure::Changes(error) => FailureAbs::Changes(error@),
            ForegroundFailure::Patch(error) => FailureAbs::Patch(error@),
        }
    }
}

/// A foreground execution on its way.
#[derive(Clone, Debug)]
pub struct Foreground {
    over_copy: bool,
    step: ForegroundStep,
    exit_code: Option<i32>,
    diff: Option<CowWorkspaceDiff>,
    failure: Option<ForegroundFailure>,
}

/// The content of a foreground execution.
pub struct ForegroundAbs {
    /// Whether a shell runs over a copy of the workspace.
    pub over_copy: bool,
    pub step: ForegroundStep,
    /// The exit code of the process, where it ended with one.
    pub exit_code: Option<i32>,
    pub diff: Option<DiffAbs>,
    pub failure: Option<FailureAbs>,
}

pub open spec fn option_diff(diff: Option<CowWorkspaceDiff>) -> Option<DiffAbs> {
    match diff {
        Some(diff) => Some(diff_abs(diff)),
        None => None,
    }
}

pub open spec fn option_failure(failure: Option<ForegroundFailure>) -> Option<FailureAbs> {
    match failure {
        Some(failure) => Some(failure@),
        None => None,
    }
}

/// An execution that has not been started.
pub open spec fn foreground(over_copy: bool) -> ForegroundAbs {
    ForegroundAbs {
        over_copy,
        step: ForegroundStep::Start,
        exit_code: None,
        diff: None,
        failure: None,
    }
}

pub open spec fn failing(state: ForegroundAbs, failure: FailureAbs) -> ForegroundAbs {
    ForegroundAbs { step: ForegroundStep::Finished, failure: Some(failure), ..state }
}

/// What is told of a call that was stopped.
pub open spec fn stop_text(cancelled: bool) -> Seq<char> {
    if cancelled {
        "tool execution was cancelled"@
    } else {
        "tool execution deadline elapsed"@
    }
}

/// The process has been started or looked at.
pub open spec fn after_seen(
    state: ForegroundAbs,
    ended: bool,
    exit_code: Option<i32>,
    stopped: bool,
) -> ForegroundAbs {
    if !ended {
        ForegroundAbs {
            step: if stopped {
                ForegroundStep::Terminate
            } else {
                ForegroundStep::Poll
            },
            ..state
        }
    } else {
        ForegroundAbs {
            step: if state.over_copy {
                ForegroundStep::Compare
            } else {
                ForegroundStep::Read
            },
            exit_code,
            ..state
        }
    }
}

/// The execution after an event. An event that does not belong to the step
/// changes nothing.
pub open spec fn continued(state: ForegroundAbs, event: EventAbs) -> ForegroundAbs {
    match (state.step, event) {
        (
            ForegroundStep::Start | ForegroundStep::Poll,
            EventAbs::Seen { ended, exit_code, cancelled, expired },
        ) => after_seen(state, ended, exit_code, cancelled || expired),
        (ForegroundStep::Terminate, EventAbs::Terminated { cancelled }) => failing(
            state,
            FailureAbs::Execution(stop_text(cancelled)),
        ),
        (ForegroundStep::Compare, EventAbs::Compared(diff)) => ForegroundAbs {
            step: if state.exit_code == Some(0i32) && diff.operations.len() > 0 {
                ForegroundStep::Apply
            } else {
                ForegroundStep::Read
            },
            diff: Some(diff),
            ..state
        },
        (ForegroundStep::Compare, EventAbs::Refused(error)) => failing(
            state,
            FailureAbs::Changes(error),
        ),
        (ForegroundStep::Apply, EventAbs::Applied) => ForegroundAbs {
            step: ForegroundStep::Read,
            ..state
        },
        (ForegroundStep::Apply, EventAbs::Rejected(error)) => failing(
            state,
            FailureAbs::Patch(error),
        ),
        (ForegroundStep::Read, EventAbs::OutputRead) => ForegroundAbs {
            step: ForegroundStep::Finished,
            ..state
        },
        (
            ForegroundStep::Start | ForegroundStep::Poll | ForegroundStep::Terminate
            | ForegroundStep::Compare | ForegroundStep::Read,
            EventAbs::Failed(error),
        ) => failing(state, FailureAbs::Execution(error)),
        _ => state,
    }
}

impl Foreground {
    pub closed spec fn view(&self) -> ForegroundAbs {
        ForegroundAbs {
            over_copy: self.over_copy,
            step: self.step,
            exit_code: self.exit_code,
            diff: option_diff(self.diff),
            failure: option_failure(self.failure),
        }
    }

    pub fn new(over_copy: bool) -> (r: Foreground)
        ensures
            r@ == foreground(over_copy),
    {
        Foreground {
            over_copy,
            step: ForegroundStep::Start,
            exit_code: None,
            diff: None,
            failure: None,
        }
    }

    /// What is to be done next.
    pub fn step(&self) -> (r: ForegroundStep)
        ensures
            r == self@.step,
    {
        self.step
    }

    /// The exit code of the process, where it ended with one.
    pub fn exit_code(&self) -> (r: Option<i32>)
        ensures
            r == self@.exit_code,
    {
        self.exit_code
    }

    /// What the shell changed.
    pub fn diff(&self) -> (r: Option<&CowWorkspaceDiff>)
        ensures
            match r {
                Some(diff) => self@.diff == Some(diff_abs(*diff)),
                None => self@.diff is None,
            },
    {
        match &self.diff {
            Some(diff) => Some(diff),
            None => None,
        }
    }

    /// Why there is no answer.
    pub fn failure(&self) -> (r: Option<&ForegroundFailure>)
        ensures
            match r {
                Some(failure) => self@.failure == Some(failure@),
                None => self@.failure is None,
            },
    {
        match &self.failure {
            Some(failure) => Some(failure),
            None => None,
        }
    }

    fn fail(&mut self, failure: ForegroundFailure)
        ensures
            final(self)@ == failing(old(self)@, failure@),
    {
        self.step = ForegroundStep::Finished;
        self.failure = Some(failure);
    }

    fn saw(&mut self, ended: bool, exit_code: Option<i32>, stopped: bool)
        ensures
            final(self)@ == after_seen(old(self)@, ended, exit_code, stopped),
    {
        if !ended {
            self.step = if stopped {
                ForegroundStep::Terminate
            } else {
                ForegroundStep::Poll
            };
        } else {
            self.exit_code = exit_code;
            self.step = if self.over_copy {
                ForegroundStep::Compare
            } else {
                ForegroundStep::Read
            };
        }
    }

    /// Goes on after a step.
    pub fn advance(&mut self, event: ForegroundEvent)
        ensures
            final(self)@ == continued(old(self)@, event@),
    {
        match (self.step, event) {
            (
                ForegroundStep::Start | ForegroundStep::Poll,
                ForegroundEvent::Seen { ended, exit_code, cancelled, expired },
            ) => {
                self.saw(ended, exit_code, cancelled || expired);
            },
            (ForegroundStep::Terminate, ForegroundEvent::Terminated { cancelled }) => {
                let error: String = if cancelled {
                    "tool execution was cancelled".to_owned()
                } else {
                    "tool execution deadline elapsed".to_owned()
                };
                self.fail(ForegroundFailure::Execution(error));
            },
            (ForegroundStep::Compare, ForegroundEvent::Compared(diff)) => {
                let decision: CowDecision = decide(self.exit_code, &diff);
                assert(operations_abs(diff.operations@).len() == diff.operations@.len());
                self.step = if decision.apply {
                    ForegroundStep::Apply
                } else {
                    ForegroundStep::Read
                };
                self.diff = Some(diff);
            },
            (ForegroundStep::Compare, ForegroundEvent::Refused(error)) => {
                self.fail(ForegroundFailure::Changes(error));
            },
            (ForegroundStep::Apply, ForegroundEvent::Applied) => {
                self.step = ForegroundStep::Read;
            },
            (ForegroundStep::Apply, ForegroundEvent::Rejected(error)) => {
                self.fail(ForegroundFailure::Patch(error));
            },
            (ForegroundStep::Read, ForegroundEvent::OutputRead) => {
                self.step = ForegroundStep::Finished;
            },
            (
                ForegroundStep::Start | ForegroundStep::Poll | ForegroundStep::Terminate
                | ForegroundStep::Compare | ForegroundStep::Read,
                ForegroundEvent::Failed(error),
            ) => {
                self.fail(ForegroundFailure::Execution(error));
            },
            _ => {},
        }
    }
}

// ---------------------------------------------------------------------------
// What is told of a shell call
// ---------------------------------------------------------------------------

/// What is told of a shell call, beside its output.
#[derive(Clone, Debug)]
pub struct ShellReport {
    pub guarantee_class: &'static str,
    pub semantic_intent: String,
    pub fallback_reason: String,
    pub requested_workspace_access: WorkspaceAccess,
    pub expected_effects: ShellExpectedEffects,
    /// The paths of the workspace that were seen to change.
    pub observed_paths: Vec<String>,
    /// The effects outside of the workspace.
    pub observed_external: Vec<&'static str>,
    /// What became of the changes to the copy of the workspace.
    pub transaction: Option<&'static str>,
}

fn copy_effects(effects: &ShellExpectedEffects) -> (r: ShellExpectedEffects)
    ensures
        r.process == effects.process,
        contents(r.workspace_paths@) == contents(effects.workspace_paths@),
        contents(r.external@) == contents(effects.external@),
{
    ShellExpectedEffects {
        process: effects.process,
        workspace_paths: effects.workspace_paths.duplicate(),
        external: effects.external.duplicate(),
    }
}

/// What is told of a shell call that ran along a route. Only a shell over a
/// copy of the workspace has changes and an exit code that count.
pub fn shell_report(
    args: &ShellArgs,
    route: ShellRoute,
    exit_code: Option<i32>,
    diff: &CowWorkspaceDiff,
) -> (r: ShellReport)
    ensures
        r.guarantee_class == "degraded_shell_fallback",
        r.semantic_intent@ == args.semantic_intent@,
        r.fallback_reason@ == args.fallback_reason@,
        r.requested_workspace_access == args.workspace_access,
        r.expected_effects.process == args.expected_effects.process,
        contents(r.expected_effects.workspace_paths@) == contents(
            args.expected_effects.workspace_paths@,
        ),
        contents(r.expected_effects.external@) == contents(args.expected_effects.external@),
        contents(r.observed_paths@) == if route == ShellRoute::CopyOnWrite {
            contents(diff.changed_paths@)
        } else {
            Seq::empty()
        },
        r.observed_external@ == if route == ShellRoute::Host {
            seq!["host_process"]
        } else {
            Seq::<&'static str>::empty()
        },
        r.transaction == match route {
            ShellRoute::CopyOnWrite => Some(
                if exit_code == Some(0i32) {
                    "committed"
                } else {
                    "discarded"
                },
            ),
            _ => None::<&'static str>,
        },
{
    let nothing: Vec<String> = Vec::new();
    assert(contents(nothing@) =~= Seq::<Seq<char>>::empty());
    let observed_paths: Vec<String> = match route {
        ShellRoute::CopyOnWrite => diff.changed_paths.duplicate(),
        _ => nothing,
    };
    let observed_external: Vec<&'static str> = match route {
        ShellRoute::Host => vec!["host_process"],
        _ => Vec::new(),
    };
    assert(route == ShellRoute::Host ==> observed_external@ =~= seq!["host_process"]);
    let transaction: Option<&'static str> = match route {
        ShellRoute::CopyOnWrite => Some(decide(exit_code, diff).state),
        _ => None,
    };
    ShellReport {
        guarantee_class: "degraded_shell_fallback",
        semantic_intent: args.semantic_intent.duplicate(),
        fallback_reason: args.fallback_reason.duplicate(),
        requested_workspace_access: args.workspace_access,
        expected_effects: copy_effects(&args.expected_effects),
        observed_paths,
        observed_external,
        transaction,
    }
}

// ---------------------------------------------------------------------------
// Laws
// ---------------------------------------------------------------------------

/// An execution after some events.
pub open spec fn after_events(over_copy: bool, events: Seq<EventAbs>) -> ForegroundAbs
    decreases events.len(),
{
    if events.len() == 0 {
        foreground(over_copy)
    } else {
        continued(after_events(over_copy, events.drop_last()), events.last())
    }
}

/// Whatever happens, the workspace is changed only by a shell that ran over a
/// copy of it, ended with the code zero and changed something that could be
/// compared; and an execution that has failed does nothing more.
pub proof fn only_success_is_applied(over_copy: bool, events: Seq<EventAbs>)
    ensures
        ({
            let state = after_events(over_copy, events);
            &&& state.over_copy == over_copy
            &&& state.step is Compare ==> over_copy
            &&& state.step is Apply ==> over_copy && state.exit_code == Some(0i32)
                && state.diff is Some && state.diff->Some_0.operations.len() > 0
            &&& state.diff is Some ==> over_copy
            &&& state.failure is Some ==> state.step is Finished
        }),
    decreases events.len(),
{
    if events.len() > 0 {
        only_success_is_applied(over_copy, events.drop_last());
    }
}

/// A finished execution stays as it is.
pub proof fn finished_executions_stay_finished(state: ForegroundAbs, event: EventAbs)
    requires
        state.step is Finished,
    ensures
        continued(state, event) == state,
{
}

/// A process whose caller has gone is not waited for any longer.
pub proof fn stopped_calls_are_terminated(
    state: ForegroundAbs,
    exit_code: Option<i32>,
    cancelled: bool,
    expired: bool,
)
    requires
        state.step is Start || state.step is Poll,
        cancelled || expired,
    ensures
        continued(
            state,
            EventAbs::Seen { ended: false, exit_code, cancelled, expired },
        ).step is Terminate,
{
}

} // verus!
