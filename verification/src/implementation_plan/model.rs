//! The parts of an implementation plan.

use vstd::prelude::*;

use super::ids::{
    CheckId, ConditionalReadId, DecisionId, EvidenceId, GitCommit, InvariantId, OpenDecisionId,
    PlanDigest, PlanId, PlanItemId, PlanText, ReadRequirementId, SliceId, StepId, WorkspacePath,
};
use crate::correlation_id::{AgentRunId, ConversationId};

verus! {

/// A plan that is handed from planning to implementation.
#[derive(Clone, Debug, Eq, PartialEq)]
pub struct ImplementationPlan {
    pub schema: PlanSchema,
    pub id: PlanId,
    pub workspace: WorkspaceEvidence,
    pub objective: Objective,
    pub evidence: Vec<Evidence>,
    pub decisions: Vec<Decision>,
    pub invariants: Vec<Invariant>,
    pub slices: Vec<ImplementationSlice>,
    pub open_decisions: Vec<OpenDecision>,
}

/// The version of the plan format.
#[derive(Clone, Copy, Debug, Eq, PartialEq, Structural)]
pub enum PlanSchema {
    V1,
}

/// The workspace that a plan was made for.
#[derive(Clone, Debug, Eq, PartialEq)]
pub struct WorkspaceEvidence {
    pub canonical_root_sha256: PlanDigest,
    pub git_commit: Option<GitCommit>,
    pub dirty_paths: Vec<WorkspacePath>,
}

/// What a plan is to reach.
#[derive(Clone, Debug, Eq, PartialEq)]
pub struct Objective {
    pub outcome: PlanText,
    pub acceptance: Vec<Check>,
    pub sources: Vec<SourceRef>,
}

/// A fact that a plan rests on.
#[derive(Clone, Debug, Eq, PartialEq)]
pub struct Evidence {
    pub id: EvidenceId,
    pub statement: PlanText,
    pub sources: Vec<SourceRef>,
}

/// A decision that has been made.
#[derive(Clone, Debug, Eq, PartialEq)]
pub struct Decision {
    pub id: DecisionId,
    pub statement: PlanText,
    pub authority: DecisionAuthority,
    pub sources: Vec<SourceRef>,
}

/// Who made a decision.
#[derive(Clone, Copy, Debug, Eq, PartialEq, Structural)]
pub enum DecisionAuthority {
    Repository,
    Human,
}

/// What the implementation must keep.
#[derive(Clone, Debug, Eq, PartialEq)]
pub struct Invariant {
    pub id: InvariantId,
    pub statement: PlanText,
    pub sources: Vec<SourceRef>,
}

/// A part of a plan that is implemented at once.
#[derive(Clone, Debug, Eq, PartialEq)]
pub struct ImplementationSlice {
    pub id: SliceId,
    pub outcome: PlanText,
    pub depends_on: Vec<SliceId>,
    pub files: Vec<FileChange>,
    pub required_reads: Vec<ReadRequirement>,
    pub conditional_reads: Vec<ConditionalRead>,
    pub start_condition: Vec<PlanItemId>,
    pub steps: Vec<ImplementationStep>,
    pub verification: Vec<Verification>,
    pub done_when: Vec<Check>,
}

/// A file that a slice changes.
#[derive(Clone, Debug, Eq, PartialEq)]
pub struct FileChange {
    pub path: WorkspacePath,
    pub disposition: FileDisposition,
    pub purpose: PlanText,
    pub symbols: Vec<PlanText>,
}

/// What happens to a file.
#[derive(Clone, Copy, Debug, Eq, PartialEq, Structural)]
pub enum FileDisposition {
    Create,
    Modify,
    Delete,
    Move,
}

/// What must be read before a slice begins.
#[derive(Clone, Debug, Eq, PartialEq)]
pub struct ReadRequirement {
    pub id: ReadRequirementId,
    pub path: WorkspacePath,
    pub symbols_or_ranges: Vec<PlanText>,
    pub obtain: PlanText,
}

/// What must be read under a condition.
#[derive(Clone, Debug, Eq, PartialEq)]
pub struct ConditionalRead {
    pub id: ConditionalReadId,
    pub condition: PlanText,
    pub read: ReadRequirement,
}

/// A step of a slice.
#[derive(Clone, Debug, Eq, PartialEq)]
pub struct ImplementationStep {
    pub id: StepId,
    pub action: PlanText,
    pub files: Vec<WorkspacePath>,
    pub symbols: Vec<PlanText>,
    pub depends_on: Vec<StepId>,
    pub satisfies: Vec<PlanItemId>,
}

/// A command that shows that a slice works.
#[derive(Clone, Debug, Eq, PartialEq)]
pub struct Verification {
    pub command: PlanText,
    pub working_directory: WorkspacePath,
    pub expected: VerificationExpected,
    pub covers: Vec<PlanItemId>,
}

/// What a verification is expected to give.
#[derive(Clone, Debug, Eq, PartialEq)]
pub struct VerificationExpected {
    pub exit_code: i32,
    pub stdout_contains: Vec<PlanText>,
    pub stderr_contains: Vec<PlanText>,
}

/// A statement that can be checked.
#[derive(Clone, Debug, Eq, PartialEq)]
pub struct Check {
    pub id: CheckId,
    pub statement: PlanText,
    pub sources: Vec<SourceRef>,
}

/// A decision that is still to be made.
#[derive(Clone, Debug, Eq, PartialEq)]
pub struct OpenDecision {
    pub id: OpenDecisionId,
    pub question: PlanText,
    pub consequences: PlanText,
    pub affected_slices: Vec<SliceId>,
    pub sources: Vec<SourceRef>,
}

/// Where a statement comes from.
#[derive(Clone, Debug, Eq, PartialEq)]
pub struct SourceRef {
    pub kind: SourceKind,
    pub locator: PlanText,
    pub digest: Option<PlanDigest>,
    pub line_start: Option<u32>,
    pub line_end: Option<u32>,
}

/// The lifecycle state of a slice.
#[derive(Clone, Copy, Debug, Eq, PartialEq, Structural)]
pub enum SliceState {
    Pending,
    Running,
    Completed,
    Failed,
    Stale,
}

/// A file of a workspace and its digest.
#[derive(Clone, Debug, Eq, PartialEq)]
pub struct WorkspaceFileDigest {
    pub path: WorkspacePath,
    pub digest: PlanDigest,
}

/// The files of a workspace and their common digest.
#[derive(Clone, Debug, Eq, PartialEq)]
pub struct WorkspaceSnapshot {
    pub digest: PlanDigest,
    pub files: Vec<WorkspaceFileDigest>,
}

/// A file before and after a slice.
#[derive(Clone, Debug, Eq, PartialEq)]
pub struct SliceChangedPath {
    pub path: WorkspacePath,
    pub before: Option<PlanDigest>,
    pub after: Option<PlanDigest>,
}

/// What a verification gave.
#[derive(Clone, Debug, Eq, PartialEq)]
pub struct VerificationResult {
    pub command: PlanText,
    pub passed: bool,
    pub evidence: PlanText,
}

/// What was read beyond the plan.
#[derive(Clone, Debug, Eq, PartialEq)]
pub struct AdditionalRead {
    pub path: WorkspacePath,
    pub justification: PlanText,
}

/// What became of a slice.
#[derive(Clone, Debug, Eq, PartialEq)]
pub struct SliceResult {
    pub schema: SliceResultSchema,
    pub plan_id: PlanId,
    pub plan_digest: PlanDigest,
    pub slice_id: SliceId,
    pub state: SliceState,
    pub changed_paths: Vec<SliceChangedPath>,
    pub verification: Vec<VerificationResult>,
    pub additional_reads: Vec<AdditionalRead>,
    pub conversation_id: Option<ConversationId>,
    pub run_id: Option<AgentRunId>,
    pub workspace: WorkspaceSnapshot,
    pub failure: Option<PlanText>,
}

/// The version of the slice result format.
#[derive(Clone, Copy, Debug, Eq, PartialEq, Structural)]
pub enum SliceResultSchema {
    V1,
}

/// What kind of source a statement has.
#[derive(Clone, Copy, Debug, Eq, PartialEq, Structural)]
pub enum SourceKind {
    File,
    Message,
    Decision,
    Test,
    Config,
}

/// Durable lifecycle state for a generated implementation plan.
#[derive(Clone, Copy, Debug, Eq, PartialEq, Structural)]
pub enum PlanState {
    Draft,
    AwaitingDecisions,
    ReadyForApproval,
    Approved,
    Implementing,
    Completed,
    Failed,
    Stale,
}

impl PlanState {
    /// The state of a plan that has been drafted: it waits for decisions while
    /// any are open.
    pub fn for_draft(plan: &ImplementationPlan) -> (r: PlanState)
        ensures
            r == if plan.open_decisions@.len() == 0 {
                PlanState::ReadyForApproval
            } else {
                PlanState::AwaitingDecisions
            },
    {
        if plan.open_decisions.len() == 0 {
            PlanState::ReadyForApproval
        } else {
            PlanState::AwaitingDecisions
        }
    }
}

} // verus!
