//! Strict, canonical handoff documents between planning and implementation.

use vstd::prelude::*;

pub mod graph;
pub mod ids;
pub mod model;
pub mod plan;
pub mod plan_laws;
pub mod slices;
pub mod validation;
pub mod wire;
pub mod wire_laws;

pub use ids::{
    CheckId, ConditionalReadId, DecisionId, EvidenceId, GitCommit, InvariantId,
    OpenDecisionId, PlanDigest, PlanId, PlanItemId, PlanText, ReadRequirementId, SliceId,
    StepId, WorkspacePath,
};
pub use model::{
    AdditionalRead, Check, ConditionalRead, Decision, DecisionAuthority, Evidence,
    FileChange, FileDisposition, ImplementationPlan, ImplementationSlice,
    ImplementationStep, Invariant, Objective, OpenDecision, PlanSchema, PlanState,
    ReadRequirement, SliceChangedPath, SliceResult, SliceResultSchema, SliceState,
    SourceKind, SourceRef, Verification, VerificationExpected, VerificationResult,
    WorkspaceEvidence, WorkspaceFileDigest, WorkspaceSnapshot,
};
pub use plan::{PlanError, PlanValidationError, workspace_root_digest};

verus! {

pub const IMPLEMENTATION_PLAN_SCHEMA: &'static str = "agentlibre.implementation-plan/v1";

pub const MAX_PLAN_BYTES: usize = 4 * 1024 * 1024;

pub const MAX_COLLECTION_ITEMS: usize = 256;

pub const MAX_TEXT_BYTES: usize = 16 * 1024;

pub const MAX_PATH_BYTES: usize = 512;

} // verus!
