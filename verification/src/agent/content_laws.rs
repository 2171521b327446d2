//! The content of a value is made of that of its parts.

use vstd::prelude::*;

use super::compaction::{
    CompactionContent, CompactionExactState, CompactionFailure, CompactionMetadata,
    CompactionRequest, CompactionResult, FoldedOperationFact, InspectedFileFact, InspectedFileRange,
    OperationFact, SemanticSummary, SourceTokenContribution, SummaryClaim,
};
use super::context::ContextExhaustion;
use super::event::{AgentEventData, AgentEventDataAbs, ModelOutputDiagnostic};
use super::fsm::{AgentFsmInput, AgentFsmInputAbs, AgentFsmOutput, AgentFsmState};
use super::inference::{
    GenerationSettings, ModelAdapterSelection, ModelArtifactRef, ModelLoadSelection,
    ModelRuntimeSelection, ModelServiceSelection, PhysicalDeviceSelector, PhysicalDeviceSelectorAbs,
};
use super::memory::{MemoryClaim, MemoryTopic};
use super::memory_entry::{
    CorpusParseError, EntryParseError, EntryParseErrorAbs, FileSource, IndexLine, IndexParseError,
    IndexParseErrorAbs, MemoryEntry, StoredClaim,
};
use super::message::AgentMessage;
use super::operation::{
    AgentOperation, AgentOperationDispatch, AgentOperationFailure, AgentOperationFailureKind,
    AgentOperationFailureKindAbs, AgentOperationKey, AgentOperationRequest,
    AgentOperationRequestAbs, AgentOperationResult, AgentOperationResultAbs, AgentOperationTerminal,
    AssistantToolCall, EffectReceipt, InferenceRealizationRef, ModelCorrectionRecord,
    ModelGenerationOutput, ModelGenerationOutputAbs, ModelGenerationRequest, ModelGenerationResult,
    ToolCall, ToolFailure, ToolFailureEffect, ToolFailureEffectAbs, ToolRequest, ToolResult,
};
use super::operation_fsm::{
    AgentOperationFsmInput, AgentOperationFsmInputAbs, AgentOperationFsmOutput,
};
use super::run::{
    AgentCheckpoint, AgentCheckpointAbs, AgentDefinitionRef, AgentRunOrigin, AgentRunOriginAbs,
    ExactPackageRef, InstructionSource, InstructionSourceAbs, ModelDefinitionRef, ModelSelection,
    SkillDefinitionRef, WorkspaceScope,
};
use crate::value::Abstract;

verus! {

/// Texts, numbers, lists and values that may be missing are what they hold.
pub proof fn plain_content(text: String, list: Vec<String>, i: int, maybe: Option<u64>, flag: bool)
    ensures
        text.abs() == text@,
        list.abs().len() == list@.len(),
        0 <= i < list@.len() ==> list.abs()[i] == list@[i]@,
        maybe.abs() == maybe,
        flag.abs() == flag,
{
}

/// The content of `CompactionRequest` holds the content of each of its fields.
pub proof fn compaction_request_content(given: CompactionRequest)
    ensures
        given.abs().context == given.context.abs(),
        given.abs().before == given.before.abs(),
        given.abs().correction_of == given.correction_of.abs(),
{
}

/// The content of `SummaryClaim` holds the content of each of its fields.
pub proof fn summary_claim_content(given: SummaryClaim)
    ensures
        given.abs().text == given.text.abs(),
        given.abs().sources == given.sources.abs(),
{
}

/// The content of `SemanticSummary` holds the content of each of its fields.
pub proof fn semantic_summary_content(given: SemanticSummary)
    ensures
        given.abs().objective == given.objective.abs(),
        given.abs().rationale == given.rationale.abs(),
        given.abs().decisions == given.decisions.abs(),
        given.abs().completed == given.completed.abs(),
        given.abs().discoveries == given.discoveries.abs(),
        given.abs().unresolved == given.unresolved.abs(),
        given.abs().next_position == given.next_position.abs(),
        given.abs().memory == given.memory.abs(),
{
}

/// The content of `InspectedFileRange` holds the content of each of its fields.
pub proof fn inspected_file_range_content(given: InspectedFileRange)
    ensures
        given.abs().start_line == given.start_line.abs(),
        given.abs().end_line == given.end_line.abs(),
{
}

/// The content of `InspectedFileFact` holds the content of each of its fields.
pub proof fn inspected_file_fact_content(given: InspectedFileFact)
    ensures
        given.abs().path == given.path.abs(),
        given.abs().digest == given.digest.abs(),
        given.abs().ranges == given.ranges.abs(),
        given.abs().sources == given.sources.abs(),
{
}

/// The content of `OperationFact` holds the content of each of its fields.
pub proof fn operation_fact_content(given: OperationFact)
    ensures
        given.abs().kind == given.kind.abs(),
        given.abs().tool_id == given.tool_id.abs(),
        given.abs().status == given.status.abs(),
        given.abs().failure == given.failure.abs(),
        given.abs().effect_receipts == given.effect_receipts.abs(),
{
}

/// The content of `FoldedOperationFact` holds the content of each of its fields.
pub proof fn folded_operation_fact_content(given: FoldedOperationFact)
    ensures
        given.abs().fact == given.fact.abs(),
        given.abs().count == given.count.abs(),
        given.abs().first == given.first.abs(),
        given.abs().last == given.last.abs(),
        given.abs().sources == given.sources.abs(),
{
}

/// The content of `CompactionExactState` holds the content of each of its fields.
pub proof fn compaction_exact_state_content(given: CompactionExactState)
    ensures
        given.abs().snapshot_run == given.snapshot_run.abs(),
        given.abs().snapshot_digest == given.snapshot_digest.abs(),
        given.abs().workspace == given.workspace.abs(),
        given.abs().operations == given.operations.abs(),
        given.abs().inspected_files == given.inspected_files.abs(),
{
}

/// The content of `CompactionContent` holds the content of each of its fields.
pub proof fn compaction_content_content(given: CompactionContent)
    ensures
        given.abs().exact == given.exact.abs(),
        given.abs().semantic == given.semantic.abs(),
{
}

/// The content of `CompactionMetadata` holds the content of each of its fields.
pub proof fn compaction_metadata_content(given: CompactionMetadata)
    ensures
        given.abs().source_start == given.source_start.abs(),
        given.abs().source_end == given.source_end.abs(),
        given.abs().source == given.source.abs(),
        given.abs().retained_checkpoints == given.retained_checkpoints.abs(),
        given.abs().tail_first == given.tail_first.abs(),
        given.abs().tail == given.tail.abs(),
        given.abs().tail_tokens == given.tail_tokens.abs(),
        given.abs().summary_tokens == given.summary_tokens.abs(),
        given.abs().before == given.before.abs(),
        given.abs().summary_request == given.summary_request.abs(),
        given.abs().after == given.after.abs(),
        given.abs().tokenizer_artifact == given.tokenizer_artifact.abs(),
        given.abs().realization == given.realization.abs(),
        given.abs().summary_operation == given.summary_operation.abs(),
        given.abs().correction_of == given.correction_of.abs(),
        given.abs().reasoning == given.reasoning.abs(),
        given.abs().usage == given.usage.abs(),
{
}

/// The content of `CompactionResult` holds the content of each of its fields.
pub proof fn compaction_result_content(given: CompactionResult)
    ensures
        given.abs().content == given.content.abs(),
        given.abs().metadata == given.metadata.abs(),
{
}

/// The content of `SourceTokenContribution` holds the content of each of its fields.
pub proof fn source_token_contribution_content(given: SourceTokenContribution)
    ensures
        given.abs().source_start == given.source_start.abs(),
        given.abs().source_end == given.source_end.abs(),
        given.abs().isolated_prompt_tokens == given.isolated_prompt_tokens.abs(),
{
}

/// The content of `CompactionFailure` holds the content of each of its fields.
pub proof fn compaction_failure_content(given: CompactionFailure)
    ensures
        given.abs().stage == given.stage.abs(),
        given.abs().model_called == given.model_called.abs(),
        given.abs().usage == given.usage.abs(),
        given.abs().summary_source_start == given.summary_source_start.abs(),
        given.abs().summary_source_end == given.summary_source_end.abs(),
        given.abs().source_contributions == given.source_contributions.abs(),
{
}

/// The content of `ContextExhaustion` holds the content of each of its fields.
pub proof fn context_exhaustion_content(given: ContextExhaustion)
    ensures
        given.abs().capacity == given.capacity.abs(),
        given.abs().compaction == given.compaction.abs(),
{
}

/// The content of `ModelOutputDiagnostic` holds the content of each of its fields.
pub proof fn model_output_diagnostic_content(given: ModelOutputDiagnostic)
    ensures
        given.abs().class == given.class.abs(),
        given.abs().field == given.field.abs(),
        given.abs().finish_reason == given.finish_reason.abs(),
        given.abs().output_bytes == given.output_bytes.abs(),
        given.abs().output_digest == given.output_digest.abs(),
{
}

/// The content of `AgentEventData` is the variant with the content of its fields.
pub proof fn agent_event_data_content(given: AgentEventData)
    ensures
        match given {
            AgentEventData::ModelOutputRejected {
                key,
                delivery_attempt,
                correction_attempt,
                diagnostic,
                usage,
                realization,
            } => {
                &&& given.abs() matches AgentEventDataAbs::ModelOutputRejected {
                    key: held_key,
                    delivery_attempt: held_delivery_attempt,
                    correction_attempt: held_correction_attempt,
                    diagnostic: held_diagnostic,
                    usage: held_usage,
                    realization: held_realization,
                }
                &&& held_key == key.abs()
                &&& held_delivery_attempt == delivery_attempt.abs()
                &&& held_correction_attempt == correction_attempt.abs()
                &&& held_diagnostic == diagnostic.abs()
                &&& held_usage == usage.abs()
                &&& held_realization == realization.abs()
            },
            AgentEventData::MemoryClaimRejected { key, slug, reason, text, sources } => {
                &&& given.abs() matches AgentEventDataAbs::MemoryClaimRejected {
                    key: held_key,
                    slug: held_slug,
                    reason: held_reason,
                    text: held_text,
                    sources: held_sources,
                }
                &&& held_key == key.abs()
                &&& held_slug == slug.abs()
                &&& held_reason == reason.abs()
                &&& held_text == text.abs()
                &&& held_sources == sources.abs()
            },
            AgentEventData::RunAdmitted { origin } => {
                &&& given.abs() matches AgentEventDataAbs::RunAdmitted { origin: held_origin }
                &&& held_origin == origin.abs()
            },
            AgentEventData::RunStatusChanged { from, to, failure_kind } => {
                &&& given.abs() matches AgentEventDataAbs::RunStatusChanged {
                    from: held_from,
                    to: held_to,
                    failure_kind: held_failure_kind,
                }
                &&& held_from == from.abs()
                &&& held_to == to.abs()
                &&& held_failure_kind == failure_kind.abs()
            },
            AgentEventData::OperationCreated { key, kind, tool_id, delivery } => {
                &&& given.abs() matches AgentEventDataAbs::OperationCreated {
                    key: held_key,
                    kind: held_kind,
                    tool_id: held_tool_id,
                    delivery: held_delivery,
                }
                &&& held_key == key.abs()
                &&& held_kind == kind.abs()
                &&& held_tool_id == tool_id.abs()
                &&& held_delivery == delivery.abs()
            },
            AgentEventData::OperationStarted { key, delivery_attempt } => {
                &&& given.abs() matches AgentEventDataAbs::OperationStarted {
                    key: held_key,
                    delivery_attempt: held_delivery_attempt,
                }
                &&& held_key == key.abs()
                &&& held_delivery_attempt == delivery_attempt.abs()
            },
            AgentEventData::OperationRetryScheduled { key, delivery_attempt, retry_at_ms } => {
                &&& given.abs() matches AgentEventDataAbs::OperationRetryScheduled {
                    key: held_key,
                    delivery_attempt: held_delivery_attempt,
                    retry_at_ms: held_retry_at_ms,
                }
                &&& held_key == key.abs()
                &&& held_delivery_attempt == delivery_attempt.abs()
                &&& held_retry_at_ms == retry_at_ms
            },
            AgentEventData::OperationCompleted { key, delivery_attempt, status } => {
                &&& given.abs() matches AgentEventDataAbs::OperationCompleted {
                    key: held_key,
                    delivery_attempt: held_delivery_attempt,
                    status: held_status,
                }
                &&& held_key == key.abs()
                &&& held_delivery_attempt == delivery_attempt.abs()
                &&& held_status == status.abs()
            },
            AgentEventData::OperationOutcomeUnknown { key, delivery_attempt } => {
                &&& given.abs() matches AgentEventDataAbs::OperationOutcomeUnknown {
                    key: held_key,
                    delivery_attempt: held_delivery_attempt,
                }
                &&& held_key == key.abs()
                &&& held_delivery_attempt == delivery_attempt.abs()
            },
            AgentEventData::MessageAppended { message_id, role, visibility } => {
                &&& given.abs() matches AgentEventDataAbs::MessageAppended {
                    message_id: held_message_id,
                    role: held_role,
                    visibility: held_visibility,
                }
                &&& held_message_id == message_id.abs()
                &&& held_role == role.abs()
                &&& held_visibility == visibility.abs()
            },
            AgentEventData::UsageUpdated { usage } => {
                &&& given.abs() matches AgentEventDataAbs::UsageUpdated { usage: held_usage }
                &&& held_usage == usage.abs()
            },
        },
{
}

/// The content of `AgentFsmState` holds the content of each of its fields.
pub proof fn agent_fsm_state_content(given: AgentFsmState)
    ensures
        given.abs().status == given.status.abs(),
        given.abs().checkpoint == given.checkpoint.abs(),
        given.abs().usage == given.usage.abs(),
{
}

/// The content of `AgentFsmInput` is the variant with the content of its fields.
pub proof fn agent_fsm_input_content(given: AgentFsmInput)
    ensures
        match given {
            AgentFsmInput::Drive => given.abs() is Drive,
            AgentFsmInput::OperationFinished { operation, message_id } => {
                &&& given.abs() matches AgentFsmInputAbs::OperationFinished {
                    operation: held_operation,
                    message_id: held_message_id,
                }
                &&& held_operation == operation.abs()
                &&& held_message_id == message_id.abs()
            },
            AgentFsmInput::Cancel => given.abs() is Cancel,
            AgentFsmInput::DeadlineReached => given.abs() is DeadlineReached,
        },
{
}

/// The content of `AgentFsmOutput` holds the content of each of its fields.
pub proof fn agent_fsm_output_content(given: AgentFsmOutput)
    ensures
        given.abs().operation == given.operation.abs(),
        given.abs().message == given.message.abs(),
        given.abs().events == given.events.abs(),
{
}

/// The content of `ModelArtifactRef` holds the content of each of its fields.
pub proof fn model_artifact_ref_content(given: ModelArtifactRef)
    ensures
        given.abs().kind == given.kind.abs(),
        given.abs().url == given.url.abs(),
        given.abs().digest == given.digest.abs(),
        given.abs().bytes == given.bytes.abs(),
{
}

/// The content of `GenerationSettings` holds the content of each of its fields.
pub proof fn generation_settings_content(given: GenerationSettings)
    ensures
        given.abs().max_output_tokens == given.max_output_tokens.abs(),
        given.abs().seed == given.seed.abs(),
        given.abs().temperature == given.temperature.abs(),
        given.abs().top_k == given.top_k.abs(),
        given.abs().top_p == given.top_p.abs(),
        given.abs().min_p == given.min_p.abs(),
        given.abs().typical_p == given.typical_p.abs(),
        given.abs().repeat_last_n == given.repeat_last_n.abs(),
        given.abs().repeat_penalty == given.repeat_penalty.abs(),
        given.abs().presence_penalty == given.presence_penalty.abs(),
        given.abs().frequency_penalty == given.frequency_penalty.abs(),
        given.abs().stop == given.stop.abs(),
{
}

/// The content of `PhysicalDeviceSelector` is the variant with the content of its fields.
pub proof fn physical_device_selector_content(given: PhysicalDeviceSelector)
    ensures
        match given {
            PhysicalDeviceSelector::Pci { address } => {
                &&& given.abs() matches PhysicalDeviceSelectorAbs::Pci { address: held_address }
                &&& held_address == address.abs()
            },
            PhysicalDeviceSelector::Uuid { uuid } => {
                &&& given.abs() matches PhysicalDeviceSelectorAbs::Uuid { uuid: held_uuid }
                &&& held_uuid == uuid.abs()
            },
        },
{
}

/// The content of `ModelLoadSelection` holds the content of each of its fields.
pub proof fn model_load_selection_content(given: ModelLoadSelection)
    ensures
        given.abs().context_tokens == given.context_tokens.abs(),
        given.abs().batch_size == given.batch_size.abs(),
        given.abs().ubatch_size == given.ubatch_size.abs(),
        given.abs().threads == given.threads.abs(),
        given.abs().threads_batch == given.threads_batch.abs(),
        given.abs().gpu_layers == given.gpu_layers.abs(),
        given.abs().devices == given.devices.abs(),
        given.abs().split_mode == given.split_mode.abs(),
        given.abs().main_gpu == given.main_gpu.abs(),
        given.abs().tensor_split == given.tensor_split.abs(),
        given.abs().mmap == given.mmap.abs(),
        given.abs().mlock == given.mlock.abs(),
        given.abs().flash_attention == given.flash_attention.abs(),
        given.abs().kv_cache_type_k == given.kv_cache_type_k.abs(),
        given.abs().kv_cache_type_v == given.kv_cache_type_v.abs(),
        given.abs().engine_build_digest == given.engine_build_digest.abs(),
{
}

/// The content of `ModelAdapterSelection` holds the content of each of its fields.
pub proof fn model_adapter_selection_content(given: ModelAdapterSelection)
    ensures
        given.abs().model == given.model.abs(),
        given.abs().artifact == given.artifact.abs(),
        given.abs().scale == given.scale.abs(),
{
}

/// The content of `ModelServiceSelection` holds the content of each of its fields.
pub proof fn model_service_selection_content(given: ModelServiceSelection)
    ensures
        given.abs().key == given.key.abs(),
        given.abs().slots == given.slots.abs(),
        given.abs().queue_capacity == given.queue_capacity.abs(),
        given.abs().continuous_batching == given.continuous_batching.abs(),
        given.abs().idle_timeout_ms == given.idle_timeout_ms.abs(),
{
}

/// The content of `ModelRuntimeSelection` holds the content of each of its fields.
pub proof fn model_runtime_selection_content(given: ModelRuntimeSelection)
    ensures
        given.abs().artifact == given.artifact.abs(),
        given.abs().dialect == given.dialect.abs(),
        given.abs().tool_call_format == given.tool_call_format.abs(),
        given.abs().generation == given.generation.abs(),
        given.abs().reasoning == given.reasoning.abs(),
        given.abs().load == given.load.abs(),
        given.abs().speculative == given.speculative.abs(),
        given.abs().adapters == given.adapters.abs(),
        given.abs().service == given.service.abs(),
{
}

/// The content of `MemoryClaim` holds the content of each of its fields.
pub proof fn memory_claim_content(given: MemoryClaim)
    ensures
        given.abs().text == given.text.abs(),
        given.abs().sources == given.sources.abs(),
        given.abs().files == given.files.abs(),
        given.abs().supersedes == given.supersedes.abs(),
{
}

/// The content of `MemoryTopic` holds the content of each of its fields.
pub proof fn memory_topic_content(given: MemoryTopic)
    ensures
        given.abs().slug == given.slug.abs(),
        given.abs().claims == given.claims.abs(),
{
}

/// The content of `FileSource` holds the content of each of its fields.
pub proof fn file_source_content(given: FileSource)
    ensures
        given.abs().path == given.path.abs(),
        given.abs().digest == given.digest.abs(),
{
}

/// The content of `StoredClaim` holds the content of each of its fields.
pub proof fn stored_claim_content(given: StoredClaim)
    ensures
        given.abs().text == given.text.abs(),
        given.abs().sources == given.sources.abs(),
        given.abs().files == given.files.abs(),
        given.abs().status == given.status.abs(),
        given.abs().superseded_by == given.superseded_by.abs(),
{
}

/// The content of `MemoryEntry` holds the content of each of its fields.
pub proof fn memory_entry_content(given: MemoryEntry)
    ensures
        given.abs().title == given.title.abs(),
        given.abs().slug == given.slug.abs(),
        given.abs().created == given.created.abs(),
        given.abs().updated == given.updated.abs(),
        given.abs().artifact == given.artifact.abs(),
        given.abs().claims == given.claims.abs(),
{
}

/// The content of `EntryParseError` is the variant with the content of its fields.
pub proof fn entry_parse_error_content(given: EntryParseError)
    ensures
        match given {
            EntryParseError::MissingTitle => given.abs() is MissingTitle,
            EntryParseError::EmptyTitle => given.abs() is EmptyTitle,
            EntryParseError::DuplicateHeaderLine(inner) => {
                &&& given.abs() matches EntryParseErrorAbs::DuplicateHeaderLine(held)
                &&& held == inner.abs()
            },
            EntryParseError::MissingClaimsSection => given.abs() is MissingClaimsSection,
            EntryParseError::UnknownField { line, field } => {
                &&& given.abs() matches EntryParseErrorAbs::UnknownField {
                    line: held_line,
                    field: held_field,
                }
                &&& held_line == line.abs()
                &&& held_field == field.abs()
            },
            EntryParseError::MissingField { field } => {
                &&& given.abs() matches EntryParseErrorAbs::MissingField { field: held_field }
                &&& held_field == field.abs()
            },
            EntryParseError::InvalidSlug(inner) => {
                &&& given.abs() matches EntryParseErrorAbs::InvalidSlug(held)
                &&& held == inner.abs()
            },
            EntryParseError::InvalidRun { field, value } => {
                &&& given.abs() matches EntryParseErrorAbs::InvalidRun {
                    field: held_field,
                    value: held_value,
                }
                &&& held_field == field.abs()
                &&& held_value == value.abs()
            },
            EntryParseError::UnknownStatus { line, value } => {
                &&& given.abs() matches EntryParseErrorAbs::UnknownStatus {
                    line: held_line,
                    value: held_value,
                }
                &&& held_line == line.abs()
                &&& held_value == value.abs()
            },
            EntryParseError::InvalidMessageSource { line, value } => {
                &&& given.abs() matches EntryParseErrorAbs::InvalidMessageSource {
                    line: held_line,
                    value: held_value,
                }
                &&& held_line == line.abs()
                &&& held_value == value.abs()
            },
            EntryParseError::InvalidFileSource { line, value } => {
                &&& given.abs() matches EntryParseErrorAbs::InvalidFileSource {
                    line: held_line,
                    value: held_value,
                }
                &&& held_line == line.abs()
                &&& held_value == value.abs()
            },
            EntryParseError::InvalidSupersededBy { line, value } => {
                &&& given.abs() matches EntryParseErrorAbs::InvalidSupersededBy {
                    line: held_line,
                    value: held_value,
                }
                &&& held_line == line.abs()
                &&& held_value == value.abs()
            },
            EntryParseError::DuplicateTag { line, tag } => {
                &&& given.abs() matches EntryParseErrorAbs::DuplicateTag {
                    line: held_line,
                    tag: held_tag,
                }
                &&& held_line == line.abs()
                &&& held_tag == tag.abs()
            },
            EntryParseError::MalformedClaimLine { line } => {
                &&& given.abs() matches EntryParseErrorAbs::MalformedClaimLine { line: held_line }
                &&& held_line == line.abs()
            },
            EntryParseError::UnsourcefulClaim { line } => {
                &&& given.abs() matches EntryParseErrorAbs::UnsourcefulClaim { line: held_line }
                &&& held_line == line.abs()
            },
            EntryParseError::UnexpectedLine { line, text } => {
                &&& given.abs() matches EntryParseErrorAbs::UnexpectedLine {
                    line: held_line,
                    text: held_text,
                }
                &&& held_line == line.abs()
                &&& held_text == text.abs()
            },
        },
{
}

/// The content of `CorpusParseError` holds the content of each of its fields.
pub proof fn corpus_parse_error_content(given: CorpusParseError)
    ensures
        given.abs().path == given.path.abs(),
        given.abs().source == given.source.abs(),
{
}

/// The content of `IndexLine` holds the content of each of its fields.
pub proof fn index_line_content(given: IndexLine)
    ensures
        given.abs().slug == given.slug.abs(),
        given.abs().title == given.title.abs(),
        given.abs().claims == given.claims.abs(),
        given.abs().path == given.path.abs(),
{
}

/// The content of `IndexParseError` is the variant with the content of its fields.
pub proof fn index_parse_error_content(given: IndexParseError)
    ensures
        match given {
            IndexParseError::MissingHeader => given.abs() is MissingHeader,
            IndexParseError::MalformedLine { line, text } => {
                &&& given.abs() matches IndexParseErrorAbs::MalformedLine {
                    line: held_line,
                    text: held_text,
                }
                &&& held_line == line.abs()
                &&& held_text == text.abs()
            },
            IndexParseError::InvalidSlug { line, slug } => {
                &&& given.abs() matches IndexParseErrorAbs::InvalidSlug {
                    line: held_line,
                    slug: held_slug,
                }
                &&& held_line == line.abs()
                &&& held_slug == slug.abs()
            },
            IndexParseError::InvalidClaimCount { line, value } => {
                &&& given.abs() matches IndexParseErrorAbs::InvalidClaimCount {
                    line: held_line,
                    value: held_value,
                }
                &&& held_line == line.abs()
                &&& held_value == value.abs()
            },
            IndexParseError::PathMismatch { line, slug, path } => {
                &&& given.abs() matches IndexParseErrorAbs::PathMismatch {
                    line: held_line,
                    slug: held_slug,
                    path: held_path,
                }
                &&& held_line == line.abs()
                &&& held_slug == slug.abs()
                &&& held_path == path.abs()
            },
        },
{
}

/// The content of `AgentMessage` holds the content of each of its fields.
pub proof fn agent_message_content(given: AgentMessage)
    ensures
        given.abs().id == given.id.abs(),
        given.abs().conversation_id == given.conversation_id.abs(),
        given.abs().run_id == given.run_id.abs(),
        given.abs().source_operation == given.source_operation.abs(),
        given.abs().role == given.role.abs(),
        given.abs().visibility == given.visibility.abs(),
        given.abs().content == given.content.abs(),
{
}

/// The content of `AgentOperationKey` holds the content of each of its fields.
pub proof fn agent_operation_key_content(given: AgentOperationKey)
    ensures
        given.abs().run_id == given.run_id.abs(),
        given.abs().ordinal == given.ordinal.abs(),
{
}

/// The content of `ModelGenerationRequest` holds the content of each of its fields.
pub proof fn model_generation_request_content(given: ModelGenerationRequest)
    ensures
        given.abs().context == given.context.abs(),
        given.abs().max_output_tokens == given.max_output_tokens.abs(),
{
}

/// The content of `ToolRequest` holds the content of each of its fields.
pub proof fn tool_request_content(given: ToolRequest)
    ensures
        given.abs().tool_id == given.tool_id.abs(),
        given.abs().input == given.input.abs(),
{
}

/// The content of `AgentOperationRequest` is the variant with the content of its fields.
pub proof fn agent_operation_request_content(given: AgentOperationRequest)
    ensures
        match given {
            AgentOperationRequest::ModelGeneration(inner) => {
                &&& given.abs() matches AgentOperationRequestAbs::ModelGeneration(held)
                &&& held == inner.abs()
            },
            AgentOperationRequest::Compaction(inner) => {
                &&& given.abs() matches AgentOperationRequestAbs::Compaction(held)
                &&& held == inner.abs()
            },
            AgentOperationRequest::Tool(inner) => {
                &&& given.abs() matches AgentOperationRequestAbs::Tool(held)
                &&& held == inner.abs()
            },
        },
{
}

/// The content of `ToolCall` holds the content of each of its fields.
pub proof fn tool_call_content(given: ToolCall)
    ensures
        given.abs().tool_id == given.tool_id.abs(),
        given.abs().input == given.input.abs(),
{
}

/// The content of `AssistantToolCall` holds the content of each of its fields.
pub proof fn assistant_tool_call_content(given: AssistantToolCall)
    ensures
        given.abs().content == given.content.abs(),
        given.abs().call == given.call.abs(),
{
}

/// The content of `ModelGenerationOutput` is the variant with the content of its fields.
pub proof fn model_generation_output_content(given: ModelGenerationOutput)
    ensures
        match given {
            ModelGenerationOutput::Assistant(inner) => {
                &&& given.abs() matches ModelGenerationOutputAbs::Assistant(held)
                &&& held == inner.abs()
            },
            ModelGenerationOutput::ToolCall(inner) => {
                &&& given.abs() matches ModelGenerationOutputAbs::ToolCall(held)
                &&& held == inner.abs()
            },
            ModelGenerationOutput::ToolCalls(inner) => {
                &&& given.abs() matches ModelGenerationOutputAbs::ToolCalls(held)
                &&& held == inner.abs()
            },
            ModelGenerationOutput::AssistantToolCall(inner) => {
                &&& given.abs() matches ModelGenerationOutputAbs::AssistantToolCall(held)
                &&& held == inner.abs()
            },
            ModelGenerationOutput::AssistantToolCalls { content, calls } => {
                &&& given.abs() matches ModelGenerationOutputAbs::AssistantToolCalls {
                    content: held_content,
                    calls: held_calls,
                }
                &&& held_content == content.abs()
                &&& held_calls == calls.abs()
            },
        },
{
}

/// The content of `InferenceRealizationRef` holds the content of each of its fields.
pub proof fn inference_realization_ref_content(given: InferenceRealizationRef)
    ensures
        given.abs().runtime_profile_digest == given.runtime_profile_digest.abs(),
        given.abs().engine_build_digest == given.engine_build_digest.abs(),
        given.abs().physical_resource_digest == given.physical_resource_digest.abs(),
{
}

/// The content of `ModelCorrectionRecord` holds the content of each of its fields.
pub proof fn model_correction_record_content(given: ModelCorrectionRecord)
    ensures
        given.abs().model == given.model.abs(),
        given.abs().attempts == given.attempts.abs(),
        given.abs().usage == given.usage.abs(),
        given.abs().realization == given.realization.abs(),
{
}

/// The content of `ModelGenerationResult` holds the content of each of its fields.
pub proof fn model_generation_result_content(given: ModelGenerationResult)
    ensures
        given.abs().output == given.output.abs(),
        given.abs().private_reasoning == given.private_reasoning.abs(),
        given.abs().finish_reason == given.finish_reason.abs(),
        given.abs().usage == given.usage.abs(),
        given.abs().realization == given.realization.abs(),
        given.abs().correction == given.correction.abs(),
{
}

/// The content of `EffectReceipt` holds the content of each of its fields.
pub proof fn effect_receipt_content(given: EffectReceipt)
    ensures
        given.abs().effect == given.effect.abs(),
        given.abs().scope == given.scope.abs(),
{
}

/// The content of `ToolResult` holds the content of each of its fields.
pub proof fn tool_result_content(given: ToolResult)
    ensures
        given.abs().content == given.content.abs(),
        given.abs().effect_receipts == given.effect_receipts.abs(),
{
}

/// The content of `ToolFailureEffect` is the variant with the content of its fields.
pub proof fn tool_failure_effect_content(given: ToolFailureEffect)
    ensures
        match given {
            ToolFailureEffect::Absent { field, next_actions, details } => {
                &&& given.abs() matches ToolFailureEffectAbs::Absent {
                    field: held_field,
                    next_actions: held_next_actions,
                    details: held_details,
                }
                &&& held_field == field.abs()
                &&& held_next_actions == next_actions.abs()
                &&& held_details == details.abs()
            },
            ToolFailureEffect::Unknown => given.abs() is Unknown,
        },
{
}

/// The content of `ToolFailure` holds the content of each of its fields.
pub proof fn tool_failure_content(given: ToolFailure)
    ensures
        given.abs().kind == given.kind.abs(),
        given.abs().effect == given.effect.abs(),
{
}

/// The content of `AgentOperationResult` is the variant with the content of its fields.
pub proof fn agent_operation_result_content(given: AgentOperationResult)
    ensures
        match given {
            AgentOperationResult::ModelGeneration(inner) => {
                &&& given.abs() matches AgentOperationResultAbs::ModelGeneration(held)
                &&& held == inner.abs()
            },
            AgentOperationResult::Compaction(inner) => {
                &&& given.abs() matches AgentOperationResultAbs::Compaction(held)
                &&& held == inner.abs()
            },
            AgentOperationResult::Tool(inner) => {
                &&& given.abs() matches AgentOperationResultAbs::Tool(held)
                &&& held == inner.abs()
            },
        },
{
}

/// The content of `AgentOperationFailureKind` is the variant with the content of its fields.
pub proof fn agent_operation_failure_kind_content(given: AgentOperationFailureKind)
    ensures
        match given {
            AgentOperationFailureKind::InvalidInput => given.abs() is InvalidInput,
            AgentOperationFailureKind::InvalidResult => given.abs() is InvalidResult,
            AgentOperationFailureKind::InvalidModelOutput { usage } => {
                &&& given.abs() matches AgentOperationFailureKindAbs::InvalidModelOutput {
                    usage: held_usage,
                }
                &&& held_usage == usage.abs()
            },
            AgentOperationFailureKind::InvalidCompactionOutput { usage } => {
                &&& given.abs() matches AgentOperationFailureKindAbs::InvalidCompactionOutput {
                    usage: held_usage,
                }
                &&& held_usage == usage.abs()
            },
            AgentOperationFailureKind::CorrectionFailed {
                primary_usage,
                calls,
                input_tokens,
                output_tokens,
            } => {
                &&& given.abs() matches AgentOperationFailureKindAbs::CorrectionFailed {
                    primary_usage: held_primary_usage,
                    calls: held_calls,
                    input_tokens: held_input_tokens,
                    output_tokens: held_output_tokens,
                }
                &&& held_primary_usage == primary_usage.abs()
                &&& held_calls == calls.abs()
                &&& held_input_tokens == input_tokens.abs()
                &&& held_output_tokens == output_tokens.abs()
            },
            AgentOperationFailureKind::IdentityMismatch => given.abs() is IdentityMismatch,
            AgentOperationFailureKind::ResultTooLarge => given.abs() is ResultTooLarge,
            AgentOperationFailureKind::ContextExhausted(inner) => {
                &&& given.abs() matches AgentOperationFailureKindAbs::ContextExhausted(held)
                &&& held == inner.abs()
            },
            AgentOperationFailureKind::CompactionRequired(inner) => {
                &&& given.abs() matches AgentOperationFailureKindAbs::CompactionRequired(held)
                &&& held == inner.abs()
            },
            AgentOperationFailureKind::Unauthorized => given.abs() is Unauthorized,
            AgentOperationFailureKind::Unavailable => given.abs() is Unavailable,
            AgentOperationFailureKind::Deadline => given.abs() is Deadline,
            AgentOperationFailureKind::Cancelled => given.abs() is Cancelled,
            AgentOperationFailureKind::Execution => given.abs() is Execution,
            AgentOperationFailureKind::OutcomeUnknown => given.abs() is OutcomeUnknown,
            AgentOperationFailureKind::ToolLoopDetected => given.abs() is ToolLoopDetected,
        },
{
}

/// The content of `AgentOperationFailure` holds the content of each of its fields.
pub proof fn agent_operation_failure_content(given: AgentOperationFailure)
    ensures
        given.abs().kind == given.kind.abs(),
{
}

/// The content of `AgentOperation` holds the content of each of its fields.
pub proof fn agent_operation_content(given: AgentOperation)
    ensures
        given.abs().key == given.key.abs(),
        given.abs().request == given.request.abs(),
        given.abs().delivery == given.delivery.abs(),
        given.abs().delivery_attempt == given.delivery_attempt.abs(),
        given.abs().state == given.state.abs(),
        given.abs().result == given.result.abs(),
        given.abs().failure == given.failure.abs(),
        given.abs().revision == given.revision.abs(),
{
}

/// The content of `AgentOperationDispatch` holds the content of each of its fields.
pub proof fn agent_operation_dispatch_content(given: AgentOperationDispatch)
    ensures
        given.abs().key == given.key.abs(),
        given.abs().delivery_attempt == given.delivery_attempt.abs(),
        given.abs().request == given.request.abs(),
{
}

/// The content of `AgentOperationTerminal` holds the content of each of its fields.
pub proof fn agent_operation_terminal_content(given: AgentOperationTerminal)
    ensures
        given.abs().key == given.key.abs(),
        given.abs().status == given.status.abs(),
        given.abs().result == given.result.abs(),
        given.abs().failure == given.failure.abs(),
{
}

/// The content of `AgentOperationFsmInput` is the variant with the content of its fields.
pub proof fn agent_operation_fsm_input_content(given: AgentOperationFsmInput)
    ensures
        match given {
            AgentOperationFsmInput::Start { key, delivery_attempt, request } => {
                &&& given.abs() matches AgentOperationFsmInputAbs::Start {
                    key: held_key,
                    delivery_attempt: held_delivery_attempt,
                    request: held_request,
                }
                &&& held_key == key.abs()
                &&& held_delivery_attempt == delivery_attempt.abs()
                &&& held_request == request.abs()
            },
            AgentOperationFsmInput::Result { key, delivery_attempt, result } => {
                &&& given.abs() matches AgentOperationFsmInputAbs::Result {
                    key: held_key,
                    delivery_attempt: held_delivery_attempt,
                    result: held_result,
                }
                &&& held_key == key.abs()
                &&& held_delivery_attempt == delivery_attempt.abs()
                &&& held_result == result.abs()
            },
            AgentOperationFsmInput::Failure { key, delivery_attempt, failure, retry_at_ms } => {
                &&& given.abs() matches AgentOperationFsmInputAbs::Failure {
                    key: held_key,
                    delivery_attempt: held_delivery_attempt,
                    failure: held_failure,
                    retry_at_ms: held_retry_at_ms,
                }
                &&& held_key == key.abs()
                &&& held_delivery_attempt == delivery_attempt.abs()
                &&& held_failure == failure.abs()
                &&& held_retry_at_ms == retry_at_ms
            },
            AgentOperationFsmInput::RetryDue { key, delivery_attempt, request } => {
                &&& given.abs() matches AgentOperationFsmInputAbs::RetryDue {
                    key: held_key,
                    delivery_attempt: held_delivery_attempt,
                    request: held_request,
                }
                &&& held_key == key.abs()
                &&& held_delivery_attempt == delivery_attempt.abs()
                &&& held_request == request.abs()
            },
            AgentOperationFsmInput::Cancel { key, delivery_attempt } => {
                &&& given.abs() matches AgentOperationFsmInputAbs::Cancel {
                    key: held_key,
                    delivery_attempt: held_delivery_attempt,
                }
                &&& held_key == key.abs()
                &&& held_delivery_attempt == delivery_attempt.abs()
            },
            AgentOperationFsmInput::Recover { key, delivery_attempt } => {
                &&& given.abs() matches AgentOperationFsmInputAbs::Recover {
                    key: held_key,
                    delivery_attempt: held_delivery_attempt,
                }
                &&& held_key == key.abs()
                &&& held_delivery_attempt == delivery_attempt.abs()
            },
        },
{
}

/// The content of `AgentOperationFsmOutput` holds the content of each of its fields.
pub proof fn agent_operation_fsm_output_content(given: AgentOperationFsmOutput)
    ensures
        given.abs().dispatch == given.dispatch.abs(),
        given.abs().terminal == given.terminal.abs(),
        given.abs().events == given.events.abs(),
{
}

/// The content of `AgentDefinitionRef` holds the content of each of its fields.
pub proof fn agent_definition_ref_content(given: AgentDefinitionRef)
    ensures
        given.abs().id == given.id.abs(),
        given.abs().version == given.version.abs(),
        given.abs().digest == given.digest.abs(),
{
}

/// The content of `SkillDefinitionRef` holds the content of each of its fields.
pub proof fn skill_definition_ref_content(given: SkillDefinitionRef)
    ensures
        given.abs().id == given.id.abs(),
        given.abs().version == given.version.abs(),
        given.abs().digest == given.digest.abs(),
{
}

/// The content of `ModelDefinitionRef` holds the content of each of its fields.
pub proof fn model_definition_ref_content(given: ModelDefinitionRef)
    ensures
        given.abs().id == given.id.abs(),
        given.abs().version == given.version.abs(),
        given.abs().digest == given.digest.abs(),
{
}

/// The content of `ExactPackageRef` holds the content of each of its fields.
pub proof fn exact_package_ref_content(given: ExactPackageRef)
    ensures
        given.abs().id == given.id.abs(),
        given.abs().version == given.version.abs(),
        given.abs().digest == given.digest.abs(),
{
}

/// The content of `ModelSelection` holds the content of each of its fields.
pub proof fn model_selection_content(given: ModelSelection)
    ensures
        given.abs().model == given.model.abs(),
        given.abs().runtime == given.runtime.abs(),
        given.abs().reasoning_efforts == given.reasoning_efforts.abs(),
{
}

/// The content of `InstructionSource` is the variant with the content of its fields.
pub proof fn instruction_source_content(given: InstructionSource)
    ensures
        match given {
            InstructionSource::Agent => given.abs() is Agent,
            InstructionSource::Skill(inner) => {
                &&& given.abs() matches InstructionSourceAbs::Skill(held)
                &&& held == inner.abs()
            },
        },
{
}

/// The content of `WorkspaceScope` holds the content of each of its fields.
pub proof fn workspace_scope_content(given: WorkspaceScope)
    ensures
        given.abs().root == given.root.abs(),
        given.abs().working_directory == given.working_directory.abs(),
{
}

/// The content of `AgentRunOrigin` is the variant with the content of its fields.
pub proof fn agent_run_origin_content(given: AgentRunOrigin)
    ensures
        match given {
            AgentRunOrigin::User { conversation_id, message_id } => {
                &&& given.abs() matches AgentRunOriginAbs::User {
                    conversation_id: held_conversation_id,
                    message_id: held_message_id,
                }
                &&& held_conversation_id == conversation_id.abs()
                &&& held_message_id == message_id.abs()
            },
        },
{
}

/// The content of `AgentCheckpoint` is the variant with the content of its fields.
pub proof fn agent_checkpoint_content(given: AgentCheckpoint)
    ensures
        match given {
            AgentCheckpoint::Ready { context, next_operation_ordinal } => {
                &&& given.abs() matches AgentCheckpointAbs::Ready {
                    context: held_context,
                    next_operation_ordinal: held_next_operation_ordinal,
                }
                &&& held_context == context.abs()
                &&& held_next_operation_ordinal == next_operation_ordinal.abs()
            },
            AgentCheckpoint::Waiting {
                operation,
                context,
                next_operation_ordinal,
                pending_tool_calls,
            } => {
                &&& given.abs() matches AgentCheckpointAbs::Waiting {
                    operation: held_operation,
                    context: held_context,
                    next_operation_ordinal: held_next_operation_ordinal,
                    pending_tool_calls: held_pending_tool_calls,
                }
                &&& held_operation == operation.abs()
                &&& held_context == context.abs()
                &&& held_next_operation_ordinal == next_operation_ordinal.abs()
                &&& held_pending_tool_calls == pending_tool_calls.abs()
            },
        },
{
}

} // verus!
