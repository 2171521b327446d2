//! Committing a planned patch: the steps that are performed, and the rollback
//! when one of them fails.

use vstd::prelude::*;
use vstd::string::*;

use super::patch_error::{failed_patch, unknown_outcome, PatchError, PatchErrorAbs};
use super::patch_plan::{PatchPlan, PlannedFileChange};
use super::repo_path::slashed;

verus! {

/// A step of a commit. The number of a change is its place in the plan.
#[derive(Clone, Copy, Debug, Eq, PartialEq, Structural)]
pub enum CommitStep {
    /// Make the directories of the transaction.
    Prepare,
    /// Write the new content of a change aside.
    Stage { index: usize },
    /// Make the missing directories above a change.
    Parents { index: usize },
    /// Put the old content of a change aside.
    Backup { index: usize },
    /// Put the staged content of a change in its place.
    Install { index: usize },
    /// Take back what was put in place for a change; nothing there is fine.
    RemoveTarget { index: usize },
    /// Put the old content of a change back.
    Restore { index: usize },
    /// Remove a directory that was made; nothing there is fine.
    RemoveDirectory { index: usize },
    /// Put the old content of the change back that failed.
    RestoreCurrent { index: usize },
    /// Remove the directories of the transaction.
    Cleanup,
    /// Nothing more is to be done.
    Finished,
}

/// What became of a step. `created` counts the directories that have been made
/// since the commit began.
#[derive(Clone, Debug)]
pub enum StepOutcome {
    Done { created: usize },
    Failed { created: usize, error: String },
    /// The content was staged, but not its permissions.
    PermissionsFailed { error: String },
}

/// The content of an outcome.
pub enum OutcomeAbs {
    Done { created: usize },
    Failed { created: usize, error: Seq<char> },
    PermissionsFailed { error: Seq<char> },
}

impl StepOutcome {
    pub open spec fn view(&self) -> OutcomeAbs {
        match self {
            StepOutcome::Done { created } => OutcomeAbs::Done { created: *created },
            StepOutcome::Failed { created, error } => OutcomeAbs::Failed {
                created: *created,
                error: error@,
            },
            StepOutcome::PermissionsFailed { error } => OutcomeAbs::PermissionsFailed {
                error: error@,
            },
        }
    }
}

/// What a commit knows of a change.
#[derive(Clone, Debug)]
pub struct CommitItem {
    pub path: String,
    /// Whether there is old content.
    pub replaces: bool,
    /// Whether there is new content.
    pub writes: bool,
}

pub struct ItemAbs {
    pub path: Seq<char>,
    pub replaces: bool,
    pub writes: bool,
}

impl CommitItem {
    pub open spec fn view(&self) -> ItemAbs {
        ItemAbs { path: self.path@, replaces: self.replaces, writes: self.writes }
    }
}

/// Which step made a commit roll back.
#[derive(Clone, Copy, Debug, Eq, PartialEq, Structural)]
pub enum CauseKind {
    Parents,
    Backup,
    Install,
    /// A failure that was asked for after a number of changes.
    Injected,
}

/// Why a commit rolls back.
#[derive(Clone, Debug)]
pub struct Cause {
    pub kind: CauseKind,
    pub index: usize,
    pub error: String,
}

pub struct CauseAbs {
    pub kind: CauseKind,
    pub index: usize,
    pub error: Seq<char>,
}

impl Cause {
    pub open spec fn view(&self) -> CauseAbs {
        CauseAbs { kind: self.kind, index: self.index, error: self.error@ }
    }
}

/// A commit on its way.
pub struct PatchCommit {
    items: Vec<CommitItem>,
    fail_after: Option<usize>,
    step: CommitStep,
    created: usize,
    cause: Option<Cause>,
    failure: Option<PatchError>,
}

/// The content of a commit on its way.
pub struct CommitAbs {
    pub items: Seq<ItemAbs>,
    pub fail_after: Option<usize>,
    pub step: CommitStep,
    pub created: usize,
    pub cause: Option<CauseAbs>,
    pub failure: Option<PatchErrorAbs>,
}

pub open spec fn items_abs(items: Seq<CommitItem>) -> Seq<ItemAbs> {
    Seq::new(items.len(), |i: int| items[i]@)
}

pub open spec fn cause_abs(cause: Option<Cause>) -> Option<CauseAbs> {
    match cause {
        Some(cause) => Some(cause@),
        None => None,
    }
}

pub open spec fn failure_abs(failure: Option<PatchError>) -> Option<PatchErrorAbs> {
    match failure {
        Some(error) => Some(error@),
        None => None,
    }
}

// ---------------------------------------------------------------------------
// Steps
// ---------------------------------------------------------------------------

/// What is told when the rollback has succeeded.
pub open spec fn cause_text(items: Seq<ItemAbs>, cause: CauseAbs) -> Seq<char> {
    let path = items[cause.index as int].path;
    match cause.kind {
        CauseKind::Parents => "failed to create parent for `"@ + path + "`: "@ + cause.error,
        CauseKind::Backup => "failed to prepare `"@ + path + "` for commit: "@ + cause.error,
        CauseKind::Install => "patch commit failed for `"@ + path + "`: "@ + cause.error,
        CauseKind::Injected => "injected patch commit failure"@,
    }
}

/// What is told when the rollback fails too.
pub open spec fn rollback_text(items: Seq<ItemAbs>, cause: CauseAbs, error: Seq<char>) -> Seq<char> {
    let path = items[cause.index as int].path;
    match cause.kind {
        CauseKind::Parents => "failed to create parent for `"@ + path + "`: "@ + cause.error
            + "; rollback failed: "@ + error,
        CauseKind::Backup => "failed to prepare `"@ + path + "` for commit: "@ + cause.error
            + "; rollback failed: "@ + error,
        CauseKind::Install => "commit failed for `"@ + path + "`: "@ + cause.error
            + "; rollback failed: "@ + error,
        CauseKind::Injected => "injected commit failure rollback failed: "@ + error,
    }
}

/// What is told when the old content of the change that failed cannot be put
/// back.
pub open spec fn current_text(items: Seq<ItemAbs>, cause: CauseAbs, error: Seq<char>) -> Seq<char> {
    "commit failed for `"@ + items[cause.index as int].path + "`: "@ + cause.error
        + "; current rollback failed: "@ + error
}

/// The commit ends with an error, after cleaning up.
pub open spec fn ending(state: CommitAbs, error: PatchErrorAbs) -> CommitAbs {
    CommitAbs { step: CommitStep::Cleanup, failure: Some(error), ..state }
}

/// Everything has been taken back but for the change that failed.
pub open spec fn undone(state: CommitAbs) -> CommitAbs {
    match state.cause {
        None => state,
        Some(cause) => if cause.kind == CauseKind::Install
            && state.items[cause.index as int].replaces {
            CommitAbs { step: CommitStep::RestoreCurrent { index: cause.index }, ..state }
        } else {
            ending(state, failed_patch(cause_text(state.items, cause)))
        },
    }
}

/// The first `n` of the directories that were made are still to be removed.
pub open spec fn undo_directories(state: CommitAbs, n: int) -> CommitAbs {
    if n <= 0 {
        undone(state)
    } else {
        CommitAbs { step: CommitStep::RemoveDirectory { index: (n - 1) as usize }, ..state }
    }
}

/// The first `n` changes are still to be taken back.
pub open spec fn undo(state: CommitAbs, n: int) -> CommitAbs
    decreases n,
{
    if n <= 0 {
        undo_directories(state, state.created as int)
    } else if state.items[n - 1].writes {
        CommitAbs { step: CommitStep::RemoveTarget { index: (n - 1) as usize }, ..state }
    } else if state.items[n - 1].replaces {
        CommitAbs { step: CommitStep::Restore { index: (n - 1) as usize }, ..state }
    } else {
        undo(state, n - 1)
    }
}

/// The commit rolls back.
pub open spec fn roll_back(
    state: CommitAbs,
    kind: CauseKind,
    index: usize,
    error: Seq<char>,
    applied: int,
) -> CommitAbs {
    undo(CommitAbs { cause: Some(CauseAbs { kind, index, error }), ..state }, applied)
}

/// Whether a failure was asked for after that many changes.
pub open spec fn injects(state: CommitAbs, applied: int) -> bool {
    state.fail_after matches Some(limit) && applied >= limit
}

/// The change `i` and those after it are to be committed.
pub open spec fn begin(state: CommitAbs, i: int) -> CommitAbs
    decreases state.items.len() - i,
{
    if i >= state.items.len() {
        CommitAbs { step: CommitStep::Cleanup, ..state }
    } else if state.items[i].writes {
        CommitAbs { step: CommitStep::Parents { index: i as usize }, ..state }
    } else if state.items[i].replaces {
        CommitAbs { step: CommitStep::Backup { index: i as usize }, ..state }
    } else if injects(state, i + 1) {
        roll_back(state, CauseKind::Injected, i as usize, Seq::empty(), i + 1)
    } else {
        begin(state, i + 1)
    }
}

/// The change `i` has been committed.
pub open spec fn applied(state: CommitAbs, i: int) -> CommitAbs {
    if injects(state, i + 1) {
        roll_back(state, CauseKind::Injected, i as usize, Seq::empty(), i + 1)
    } else {
        begin(state, i + 1)
    }
}

/// The change `i` and those after it are to be staged.
pub open spec fn stage_from(state: CommitAbs, i: int) -> CommitAbs
    decreases state.items.len() - i,
{
    if i >= state.items.len() {
        begin(state, 0)
    } else if state.items[i].writes {
        CommitAbs { step: CommitStep::Stage { index: i as usize }, ..state }
    } else {
        stage_from(state, i + 1)
    }
}

/// What a failed step says.
pub open spec fn error_of(outcome: OutcomeAbs) -> Seq<char> {
    match outcome {
        OutcomeAbs::Done { .. } => Seq::empty(),
        OutcomeAbs::Failed { error, .. } => error,
        OutcomeAbs::PermissionsFailed { error } => error,
    }
}

/// A rollback step has failed: the state of the workspace is not known.
pub open spec fn lost(state: CommitAbs, error: Seq<char>) -> CommitAbs {
    match state.cause {
        None => state,
        Some(cause) => ending(state, unknown_outcome(rollback_text(state.items, cause, error))),
    }
}

/// A step has been done.
pub open spec fn after_done(state: CommitAbs) -> CommitAbs {
    match state.step {
        CommitStep::Prepare => stage_from(state, 0),
        CommitStep::Stage { index } => stage_from(state, index + 1),
        CommitStep::Parents { index } => if state.items[index as int].replaces {
            CommitAbs { step: CommitStep::Backup { index }, ..state }
        } else {
            CommitAbs { step: CommitStep::Install { index }, ..state }
        },
        CommitStep::Backup { index } => if state.items[index as int].writes {
            CommitAbs { step: CommitStep::Install { index }, ..state }
        } else {
            applied(state, index as int)
        },
        CommitStep::Install { index } => applied(state, index as int),
        CommitStep::RemoveTarget { index } => if state.items[index as int].replaces {
            CommitAbs { step: CommitStep::Restore { index }, ..state }
        } else {
            undo(state, index as int)
        },
        CommitStep::Restore { index } => undo(state, index as int),
        CommitStep::RemoveDirectory { index } => undo_directories(state, index as int),
        CommitStep::RestoreCurrent { index } => match state.cause {
            None => state,
            Some(cause) => ending(state, failed_patch(cause_text(state.items, cause))),
        },
        CommitStep::Cleanup => CommitAbs { step: CommitStep::Finished, ..state },
        CommitStep::Finished => state,
    }
}

/// A step has failed.
pub open spec fn after_failed(state: CommitAbs, outcome: OutcomeAbs) -> CommitAbs {
    let error = error_of(outcome);
    match state.step {
        CommitStep::Prepare => CommitAbs {
            step: CommitStep::Finished,
            failure: Some(failed_patch("failed to prepare patch transaction: "@ + error)),
            ..state
        },
        CommitStep::Stage { index } => {
            let path = state.items[index as int].path;
            if outcome is PermissionsFailed {
                ending(
                    state,
                    failed_patch(
                        "failed to preserve permissions for staged `"@ + path + "`: "@ + error,
                    ),
                )
            } else {
                ending(state, failed_patch("failed to stage `"@ + path + "`: "@ + error))
            }
        },
        CommitStep::Parents { index } => roll_back(
            state,
            CauseKind::Parents,
            index,
            error,
            index as int,
        ),
        CommitStep::Backup { index } => roll_back(
            state,
            CauseKind::Backup,
            index,
            error,
            index as int,
        ),
        CommitStep::Install { index } => roll_back(
            state,
            CauseKind::Install,
            index,
            error,
            index as int,
        ),
        CommitStep::RemoveTarget { index } => lost(state, error),
        CommitStep::Restore { index } => lost(state, error),
        CommitStep::RemoveDirectory { index } => lost(state, error),
        CommitStep::RestoreCurrent { index } => match state.cause {
            None => state,
            Some(cause) => ending(
                state,
                unknown_outcome(current_text(state.items, cause, error)),
            ),
        },
        CommitStep::Cleanup => CommitAbs {
            step: CommitStep::Finished,
            failure: match state.failure {
                Some(failure) => Some(failure),
                None => Some(
                    unknown_outcome(
                        "patch committed but transaction cleanup failed: "@ + error,
                    ),
                ),
            },
            ..state
        },
        CommitStep::Finished => state,
    }
}

/// The directories that have been made are counted where they are made.
pub open spec fn counted(state: CommitAbs, outcome: OutcomeAbs) -> CommitAbs {
    if state.step is Parents {
        match outcome {
            OutcomeAbs::Done { created } => CommitAbs { created, ..state },
            OutcomeAbs::Failed { created, .. } => CommitAbs { created, ..state },
            OutcomeAbs::PermissionsFailed { .. } => state,
        }
    } else {
        state
    }
}

/// The commit after its step had that outcome.
pub open spec fn advanced(state: CommitAbs, outcome: OutcomeAbs) -> CommitAbs {
    let next = counted(state, outcome);
    if outcome is Done {
        after_done(next)
    } else {
        after_failed(next, outcome)
    }
}

/// A commit that begins.
pub open spec fn started(items: Seq<ItemAbs>, fail_after: Option<usize>) -> CommitAbs {
    CommitAbs {
        items,
        fail_after,
        step: CommitStep::Prepare,
        created: 0,
        cause: None,
        failure: None,
    }
}

/// What a plan tells a commit of its changes.
pub open spec fn plan_items(changes: Seq<PlannedFileChange>) -> Seq<ItemAbs> {
    Seq::new(
        changes.len(),
        |i: int|
            ItemAbs {
                path: slashed(changes[i].relative@),
                replaces: changes[i].before is Some,
                writes: changes[i].after is Some,
            },
    )
}

/// Whether the step and the cause name changes of the commit.
pub open spec fn in_range(state: CommitAbs) -> bool {
    &&& match state.step {
        CommitStep::Stage { index } => index < state.items.len(),
        CommitStep::Parents { index } => index < state.items.len(),
        CommitStep::Backup { index } => index < state.items.len(),
        CommitStep::Install { index } => index < state.items.len(),
        CommitStep::RemoveTarget { index } => index < state.items.len() && state.cause is Some,
        CommitStep::Restore { index } => index < state.items.len() && state.cause is Some,
        CommitStep::RemoveDirectory { index } => state.cause is Some,
        CommitStep::RestoreCurrent { index } => index < state.items.len() && state.cause is Some,
        _ => true,
    }
    &&& state.cause matches Some(cause) ==> cause.index < state.items.len()
    &&& state.items.len() <= usize::MAX
}

pub proof fn lemma_undo_in_range(state: CommitAbs, n: int)
    requires
        0 <= n <= state.items.len() <= usize::MAX,
        state.cause matches Some(cause) && cause.index < state.items.len(),
    ensures
        in_range(undo(state, n)),
    decreases n,
{
    if n > 0 {
        lemma_undo_in_range(state, n - 1);
    }
}

pub proof fn lemma_begin_in_range(state: CommitAbs, i: int)
    requires
        0 <= i <= state.items.len() <= usize::MAX,
        state.cause matches Some(cause) ==> cause.index < state.items.len(),
    ensures
        in_range(begin(state, i)),
    decreases state.items.len() - i,
{
    if i < state.items.len() {
        if injects(state, i + 1) {
            let cause = CauseAbs {
                kind: CauseKind::Injected,
                index: i as usize,
                error: Seq::empty(),
            };
            lemma_undo_in_range(CommitAbs { cause: Some(cause), ..state }, i + 1);
        }
        lemma_begin_in_range(state, i + 1);
    }
}

pub proof fn lemma_stage_in_range(state: CommitAbs, i: int)
    requires
        0 <= i <= state.items.len() <= usize::MAX,
        state.cause matches Some(cause) ==> cause.index < state.items.len(),
    ensures
        in_range(stage_from(state, i)),
    decreases state.items.len() - i,
{
    if i < state.items.len() {
        lemma_stage_in_range(state, i + 1);
    } else {
        lemma_begin_in_range(state, 0);
    }
}

proof fn lemma_applied_in_range(state: CommitAbs, i: int)
    requires
        0 <= i < state.items.len() <= usize::MAX,
        state.cause matches Some(cause) ==> cause.index < state.items.len(),
    ensures
        in_range(applied(state, i)),
{
    if injects(state, i + 1) {
        let cause = CauseAbs {
            kind: CauseKind::Injected,
            index: i as usize,
            error: Seq::empty(),
        };
        lemma_undo_in_range(CommitAbs { cause: Some(cause), ..state }, i + 1);
    }
    lemma_begin_in_range(state, i + 1);
}

impl PatchCommit {
    pub closed spec fn view(&self) -> CommitAbs {
        CommitAbs {
            items: items_abs(self.items@),
            fail_after: self.fail_after,
            step: self.step,
            created: self.created,
            cause: cause_abs(self.cause),
            failure: failure_abs(self.failure),
        }
    }

    /// Whether the commit is at a step that it can be at.
    pub open spec fn wf(&self) -> bool {
        in_range(self@)
    }

    /// Begins the commit of a plan. After `fail_after` changes it fails, where
    /// that is given.
    pub fn new(plan: &PatchPlan, fail_after: Option<usize>) -> (r: PatchCommit)
        ensures
            r.wf(),
            r@ == started(plan_items(plan.changes@), fail_after),
    {
        let mut items: Vec<CommitItem> = Vec::new();
        let mut i: usize = 0;
        while i < plan.changes.len()
            invariant
                i <= plan.changes@.len(),
                items@.len() == i,
                forall|k: int|
                    0 <= k < i ==> (#[trigger] items@[k])@ == plan_items(plan.changes@)[k],
            decreases plan.changes@.len() - i,
        {
            let change: &PlannedFileChange = &plan.changes[i];
            items.push(
                CommitItem {
                    path: change.relative.display(),
                    replaces: change.before.is_some(),
                    writes: change.after.is_some(),
                },
            );
            i += 1;
        }
        let commit: PatchCommit = PatchCommit {
            items,
            fail_after,
            step: CommitStep::Prepare,
            created: 0,
            cause: None,
            failure: None,
        };
        assert(commit@.items =~= plan_items(plan.changes@));
        commit
    }

    /// The step that is to be performed.
    pub fn step(&self) -> (r: CommitStep)
        ensures
            r == self@.step,
    {
        self.step
    }

    /// What a finished commit failed with; nothing where it succeeded.
    pub fn into_failure(self) -> (r: Option<PatchError>)
        ensures
            failure_abs(r) == self@.failure,
    {
        self.failure
    }

    fn writes(&self, index: usize) -> (b: bool)
        requires
            index < self@.items.len(),
        ensures
            b == self@.items[index as int].writes,
    {
        self.items[index].writes
    }

    fn replaces(&self, index: usize) -> (b: bool)
        requires
            index < self@.items.len(),
        ensures
            b == self@.items[index as int].replaces,
    {
        self.items[index].replaces
    }

    fn count(&self) -> (r: usize)
        ensures
            r == self@.items.len(),
    {
        self.items.len()
    }

    fn end(&mut self, error: PatchError)
        ensures
            final(self)@ == ending(old(self)@, error@),
    {
        self.failure = Some(error);
        self.step = CommitStep::Cleanup;
    }

    fn named(&self, lead: &str, index: usize, middle: &str, error: &str) -> (r: String)
        requires
            index < self@.items.len(),
        ensures
            r@ == lead@ + self@.items[index as int].path + middle@ + error@,
    {
        lead.to_owned().concat(self.items[index].path.as_str()).concat(middle).concat(error)
    }

    /// What is told when the rollback has succeeded.
    fn cause_message(&self, cause: &Cause) -> (r: String)
        requires
            cause.index < self@.items.len(),
        ensures
            r@ == cause_text(self@.items, cause@),
    {
        match cause.kind {
            CauseKind::Parents => self.named(
                "failed to create parent for `",
                cause.index,
                "`: ",
                cause.error.as_str(),
            ),
            CauseKind::Backup => self.named(
                "failed to prepare `",
                cause.index,
                "` for commit: ",
                cause.error.as_str(),
            ),
            CauseKind::Install => self.named(
                "patch commit failed for `",
                cause.index,
                "`: ",
                cause.error.as_str(),
            ),
            CauseKind::Injected => "injected patch commit failure".to_owned(),
        }
    }

    /// What is told when the rollback fails too.
    fn rollback_message(&self, cause: &Cause, error: &str) -> (r: String)
        requires
            cause.index < self@.items.len(),
        ensures
            r@ == rollback_text(self@.items, cause@, error@),
    {
        match cause.kind {
            CauseKind::Parents => self.named(
                "failed to create parent for `",
                cause.index,
                "`: ",
                cause.error.as_str(),
            ).concat("; rollback failed: ").concat(error),
            CauseKind::Backup => self.named(
                "failed to prepare `",
                cause.index,
                "` for commit: ",
                cause.error.as_str(),
            ).concat("; rollback failed: ").concat(error),
            CauseKind::Install => self.named(
                "commit failed for `",
                cause.index,
                "`: ",
                cause.error.as_str(),
            ).concat("; rollback failed: ").concat(error),
            CauseKind::Injected => "injected commit failure rollback failed: ".to_owned().concat(
                error,
            ),
        }
    }

    fn finish_undoing(&mut self)
        requires
            old(self)@.cause matches Some(cause) && cause.index < old(self)@.items.len(),
        ensures
            final(self)@ == undone(old(self)@),
    {
        let (kind, index): (CauseKind, usize) = match &self.cause {
            Some(cause) => (cause.kind, cause.index),
            None => (CauseKind::Injected, 0),
        };
        let current: bool = match kind {
            CauseKind::Install => self.replaces(index),
            _ => false,
        };
        if current {
            self.step = CommitStep::RestoreCurrent { index };
        } else {
            let message: String = match &self.cause {
                Some(cause) => self.cause_message(cause),
                None => String::new(),
            };
            self.end(PatchError::terminal(message));
        }
    }

    fn undo_directories(&mut self, n: usize)
        requires
            old(self)@.cause matches Some(cause) && cause.index < old(self)@.items.len(),
        ensures
            final(self)@ == undo_directories(old(self)@, n as int),
    {
        if n == 0 {
            self.finish_undoing();
        } else {
            self.step = CommitStep::RemoveDirectory { index: n - 1 };
        }
    }

    fn undo(&mut self, n: usize)
        requires
            n <= old(self)@.items.len(),
            old(self)@.cause matches Some(cause) && cause.index < old(self)@.items.len(),
        ensures
            final(self)@ == undo(old(self)@, n as int),
    {
        let mut k: usize = n;
        while k > 0 && !self.items[k - 1].writes && !self.items[k - 1].replaces
            invariant
                k <= n <= self@.items.len(),
                *self == *old(self),
                undo(self@, n as int) == undo(self@, k as int),
            decreases k,
        {
            assert(self@.items[k - 1] == self.items@[k - 1]@);
            k -= 1;
        }
        if k == 0 {
            let created: usize = self.created;
            self.undo_directories(created);
        } else if self.writes(k - 1) {
            self.step = CommitStep::RemoveTarget { index: k - 1 };
        } else {
            self.step = CommitStep::Restore { index: k - 1 };
        }
    }

    fn roll_back(&mut self, kind: CauseKind, index: usize, error: String, applied: usize)
        requires
            index < old(self)@.items.len(),
            applied <= old(self)@.items.len(),
        ensures
            final(self)@ == roll_back(old(self)@, kind, index, error@, applied as int),
    {
        self.cause = Some(Cause { kind, index, error });
        self.undo(applied);
    }

    fn injected(&self, applied: usize) -> (b: bool)
        ensures
            b == injects(self@, applied as int),
    {
        match self.fail_after {
            Some(limit) => applied >= limit,
            None => false,
        }
    }

    fn begin(&mut self, from: usize)
        requires
            from <= old(self)@.items.len(),
        ensures
            final(self)@ == begin(old(self)@, from as int),
    {
        let mut i: usize = from;
        while i < self.items.len() && !self.items[i].writes && !self.items[i].replaces
            invariant
                from <= i <= self@.items.len(),
                *self == *old(self),
                begin(self@, from as int) == begin(self@, i as int),
            ensures
                i >= self@.items.len() || self@.items[i as int].writes
                    || self@.items[i as int].replaces,
            decreases self@.items.len() - i,
        {
            assert(self@.items[i as int] == self.items@[i as int]@);
            if self.injected(i + 1) {
                self.roll_back(CauseKind::Injected, i, String::new(), i + 1);
                return ;
            }
            i += 1;
        }
        if i >= self.count() {
            self.step = CommitStep::Cleanup;
        } else if self.writes(i) {
            self.step = CommitStep::Parents { index: i };
        } else {
            self.step = CommitStep::Backup { index: i };
        }
    }

    fn applied(&mut self, index: usize)
        requires
            index < old(self)@.items.len(),
        ensures
            final(self)@ == applied(old(self)@, index as int),
    {
        let count: usize = self.count();
        assert(index < count);
        if self.injected(index + 1) {
            self.roll_back(CauseKind::Injected, index, String::new(), index + 1);
        } else {
            self.begin(index + 1);
        }
    }

    fn stage_from(&mut self, from: usize)
        requires
            from <= old(self)@.items.len(),
        ensures
            final(self)@ == stage_from(old(self)@, from as int),
    {
        let mut i: usize = from;
        while i < self.items.len() && !self.items[i].writes
            invariant
                from <= i <= self@.items.len(),
                *self == *old(self),
                stage_from(self@, from as int) == stage_from(self@, i as int),
            decreases self@.items.len() - i,
        {
            assert(self@.items[i as int] == self.items@[i as int]@);
            i += 1;
        }
        if i >= self.count() {
            self.begin(0);
        } else {
            assert(self@.items[i as int] == self.items@[i as int]@);
            self.step = CommitStep::Stage { index: i };
        }
    }

    fn lose(&mut self, error: &str)
        requires
            old(self)@.cause matches Some(cause) && cause.index < old(self)@.items.len(),
        ensures
            final(self)@ == lost(old(self)@, error@),
    {
        let message: String = match &self.cause {
            Some(cause) => self.rollback_message(cause, error),
            None => String::new(),
        };
        self.end(PatchError::outcome_unknown(message));
    }

    fn done(&mut self)
        requires
            old(self).wf(),
        ensures
            final(self)@ == after_done(old(self)@),
    {
        let count: usize = self.count();
        match self.step {
            CommitStep::Prepare => {
                self.stage_from(0);
            },
            CommitStep::Stage { index } => {
                assert(index < count);
                self.stage_from(index + 1);
            },
            CommitStep::Parents { index } => {
                if self.replaces(index) {
                    self.step = CommitStep::Backup { index };
                } else {
                    self.step = CommitStep::Install { index };
                }
            },
            CommitStep::Backup { index } => {
                if self.writes(index) {
                    self.step = CommitStep::Install { index };
                } else {
                    self.applied(index);
                }
            },
            CommitStep::Install { index } => {
                self.applied(index);
            },
            CommitStep::RemoveTarget { index } => {
                if self.replaces(index) {
                    self.step = CommitStep::Restore { index };
                } else {
                    self.undo(index);
                }
            },
            CommitStep::Restore { index } => {
                self.undo(index);
            },
            CommitStep::RemoveDirectory { index } => {
                self.undo_directories(index);
            },
            CommitStep::RestoreCurrent { index } => {
                let message: String = match &self.cause {
                    Some(cause) => self.cause_message(cause),
                    None => String::new(),
                };
                self.end(PatchError::terminal(message));
            },
            CommitStep::Cleanup => {
                self.step = CommitStep::Finished;
            },
            CommitStep::Finished => {},
        }
    }

    fn failed(&mut self, error: String, permissions: bool, Ghost(outcome): Ghost<OutcomeAbs>)
        requires
            old(self).wf(),
            error@ == error_of(outcome),
            permissions == (outcome is PermissionsFailed),
        ensures
            final(self)@ == after_failed(old(self)@, outcome),
    {
        match self.step {
            CommitStep::Prepare => {
                self.failure = Some(
                    PatchError::terminal(
                        "failed to prepare patch transaction: ".to_owned().concat(error.as_str()),
                    ),
                );
                self.step = CommitStep::Finished;
            },
            CommitStep::Stage { index } => {
                let message: String = if permissions {
                    self.named(
                        "failed to preserve permissions for staged `",
                        index,
                        "`: ",
                        error.as_str(),
                    )
                } else {
                    self.named("failed to stage `", index, "`: ", error.as_str())
                };
                self.end(PatchError::terminal(message));
            },
            CommitStep::Parents { index } => {
                self.roll_back(CauseKind::Parents, index, error, index);
            },
            CommitStep::Backup { index } => {
                self.roll_back(CauseKind::Backup, index, error, index);
            },
            CommitStep::Install { index } => {
                self.roll_back(CauseKind::Install, index, error, index);
            },
            CommitStep::RemoveTarget { index } => {
                self.lose(error.as_str());
            },
            CommitStep::Restore { index } => {
                self.lose(error.as_str());
            },
            CommitStep::RemoveDirectory { index } => {
                self.lose(error.as_str());
            },
            CommitStep::RestoreCurrent { index } => {
                let message: String = match &self.cause {
                    Some(cause) => self.named(
                        "commit failed for `",
                        cause.index,
                        "`: ",
                        cause.error.as_str(),
                    ).concat("; current rollback failed: ").concat(error.as_str()),
                    None => String::new(),
                };
                self.end(PatchError::outcome_unknown(message));
            },
            CommitStep::Cleanup => {
                if self.failure.is_none() {
                    self.failure = Some(
                        PatchError::outcome_unknown(
                            "patch committed but transaction cleanup failed: ".to_owned().concat(
                                error.as_str(),
                            ),
                        ),
                    );
                }
                self.step = CommitStep::Finished;
            },
            CommitStep::Finished => {},
        }
    }

    /// Goes on after the step had that outcome.
    pub fn advance(&mut self, outcome: StepOutcome)
        requires
            old(self).wf(),
        ensures
            final(self).wf(),
            final(self)@ == advanced(old(self)@, outcome@),
    {
        let ghost before = self@;
        let ghost told = outcome@;
        let making: bool = match self.step {
            CommitStep::Parents { index } => true,
            _ => false,
        };
        match outcome {
            StepOutcome::Done { created } => {
                if making {
                    self.created = created;
                }
                assert(self@ == counted(before, told));
                self.done();
            },
            StepOutcome::Failed { created, error } => {
                if making {
                    self.created = created;
                }
                assert(self@ == counted(before, told));
                self.failed(error, false, Ghost(told));
            },
            StepOutcome::PermissionsFailed { error } => {
                assert(self@ == counted(before, told));
                self.failed(error, true, Ghost(told));
            },
        }
        proof {
            advancing_stays_in_range(before, told);
        }
    }
}

/// A commit always is at a step that it can be at.
pub proof fn advancing_stays_in_range(state: CommitAbs, outcome: OutcomeAbs)
    requires
        in_range(state),
    ensures
        in_range(advanced(state, outcome)),
{
    let next = counted(state, outcome);
    let error = error_of(outcome);
    match state.step {
        CommitStep::Prepare => {
            lemma_stage_in_range(next, 0);
        },
        CommitStep::Stage { index } => {
            lemma_stage_in_range(next, index + 1);
        },
        CommitStep::Parents { index } => {
            let cause = CauseAbs { kind: CauseKind::Parents, index, error };
            lemma_undo_in_range(CommitAbs { cause: Some(cause), ..next }, index as int);
        },
        CommitStep::Backup { index } => {
            let cause = CauseAbs { kind: CauseKind::Backup, index, error };
            lemma_undo_in_range(CommitAbs { cause: Some(cause), ..next }, index as int);
            lemma_applied_in_range(next, index as int);
        },
        CommitStep::Install { index } => {
            let cause = CauseAbs { kind: CauseKind::Install, index, error };
            lemma_undo_in_range(CommitAbs { cause: Some(cause), ..next }, index as int);
            lemma_applied_in_range(next, index as int);
        },
        CommitStep::RemoveTarget { index } => {
            lemma_undo_in_range(next, index as int);
        },
        CommitStep::Restore { index } => {
            lemma_undo_in_range(next, index as int);
        },
        _ => {},
    }
}

} // verus!
