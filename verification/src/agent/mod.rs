//! Agent runs: their snapshots, operations, state machines and memory.

pub mod claim_laws;
pub mod compaction;
pub mod compaction_laws;
pub mod consistency_laws;
pub mod content_laws;
pub mod context;
pub mod conversation;
pub mod corpus_laws;
pub mod entry_laws;
pub mod event;
pub mod fsm;
pub mod fsm_laws;
pub mod inference;
pub mod memory;
pub mod memory_corpus;
pub mod memory_entry;
pub mod memory_index;
pub mod memory_laws;
pub mod message;
pub mod operation;
pub mod operation_fsm;
pub mod operation_laws;
pub mod presentation;
pub mod presentation_laws;
pub mod run;
pub mod run_laws;
pub mod selection_laws;
pub mod text_form;
pub mod text_form_laws;
pub mod topic_laws;

pub use crate::{AuthorityGrant, AuthorityGrantSet, ToolDefinition};
pub use compaction::{
    CompactionContent, CompactionExactState, CompactionFailure, CompactionFailureStage,
    CompactionMetadata, CompactionRequest, CompactionResult, FoldedOperationFact,
    InspectedFileFact, InspectedFileRange, OperationFact, SemanticSummary,
    SourceTokenContribution, SummaryClaim, summary_runtime,
};
pub use context::{CompactionBudgets, ContextCapacity, ContextExhaustion};
pub use conversation::{ConversationBinding, ConversationView};
pub use event::{
    AgentEvent, AgentEventData, AgentEventId, AgentEventPage, ModelOutputDiagnostic,
    ModelOutputFailureClass,
};
pub use fsm::{AgentFsm, AgentFsmError, AgentFsmInput, AgentFsmOutput, AgentFsmState};
pub use inference::{
    GenerationSettings, GpuLayerSelection, KvCacheType, ModelAdapterSelection,
    ModelArtifactKind, ModelArtifactRef, ModelDialect, ModelLoadSelection,
    ModelRuntimeSelection, ModelServiceSelection, PhysicalDeviceSelector, ReasoningEffort,
    ReasoningSelection, SpeculativeSelection, SplitMode, ToolCallFormat,
};
pub use memory::{
    MemoryClaim, MemoryClaimOutcome, MemoryClaimRejection, MemoryTopic, is_valid_slug,
};
pub use memory_corpus::{MemoryCorpus, title_from_slug};
pub use memory_entry::{
    ClaimApplyOutcome, ClaimStatus, CorpusParseError, EntryParseError, FileSource,
    INDEX_HEADER, INDEX_MAX_LINES, IndexLine, IndexParseError, MemoryEntry, StoredClaim,
    parse_entry, render_entry,
};
pub use memory_index::{parse_index, render_index_line};
pub use message::{
    AgentContextEntry, AgentMessage, AgentMessagePage, MessageRole, MessageVisibility,
};
pub use operation::{
    AgentOperation, AgentOperationDeliveryState, AgentOperationDispatch,
    AgentOperationFailure, AgentOperationFailureKind, AgentOperationKey, AgentOperationKind,
    AgentOperationRequest, AgentOperationResult, AgentOperationTerminal,
    AgentOperationTerminalStatus, AgentOperationView, AssistantToolCall, DeliveryClass,
    EffectReceipt, INVALID_MODEL_OUTPUT_CORRECTION, InferenceRealizationRef,
    ModelCorrectionRecord, ModelFinishReason, ModelGenerationOutput, ModelGenerationRequest,
    ModelGenerationResult, ModelUsage, ToolCall, ToolFailure, ToolFailureEffect,
    ToolFailureKind, ToolRequest, ToolResult,
};
pub use operation_fsm::{
    AgentOperationFsm, AgentOperationFsmError, AgentOperationFsmInput,
    AgentOperationFsmOutput, AgentOperationFsmState,
};
pub use presentation::{
    AgentPresentation, ModelGenerationPresentation, PresentationColors,
    ToolOutputPresentation, ToolPresentation,
};
pub use run::{
    AbsolutePath, AdmittedTool, AgentCheckpoint, AgentDefinitionRef, AgentRun,
    AgentRunFailureKind, AgentRunFailureView, AgentRunLimits, AgentRunOrigin,
    AgentRunSnapshot, AgentRunSpec, AgentRunStatus, AgentRunUsage, AgentRunView,
    ExactPackageRef, ExtensionDefinitionDigest, ExtensionDefinitionRef,
    InferenceEngineBuildDigest, InferenceRuntimeProfileDigest, InstructionBlock,
    InstructionDigest, InstructionSet, InstructionSource,
    InvalidModelOutputRecoverySelection, MAX_TOOL_RESULT_BYTES, ModelDefinitionRef,
    ModelSelection, PackageDigest, PhysicalResourceDigest, RelativePath, SkillDefinitionRef,
    ToolDefinitionDigest, WorkspaceScope,
};
