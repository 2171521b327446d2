//! Operations of a run: model generations, compactions and tool calls.

use vstd::prelude::*;
use vstd::string::*;

use super::compaction::{CompactionRequest, CompactionRequestAbs, CompactionResult,
    CompactionResultAbs};
use super::context::{ContextCapacity, ContextExhaustion, ContextExhaustionAbs};
use super::event::{AgentEventData, AgentEventDataAbs};
use super::operation_fsm::{AgentOperationFsmOutput, AgentOperationFsmOutputAbs};
use super::run::{
    InferenceEngineBuildDigest, InferenceRuntimeProfileDigest, ModelDefinitionRef,
    ModelDefinitionRefAbs, PhysicalResourceDigest,
};
use crate::content::Content;
use crate::correlation_id::{AgentRunId, MessageId};
use crate::effect::CanonicalJson;
use crate::ids::{EffectId, ToolId};
use crate::json::{equal_json, jsons_equal, Json, JsonAbs};
use crate::num::NonZeroU32;
use crate::value::{contents, Abstract};

verus! {

/// The identity of an operation in its run.
#[derive(Clone, Copy, Debug, Eq, Hash, Ord, PartialEq, PartialOrd)]
pub struct AgentOperationKey {
    pub run_id: AgentRunId,
    pub ordinal: NonZeroU32,
}

/// The content of `AgentOperationKey`.
pub struct AgentOperationKeyAbs {
    pub run_id: Seq<u8>,
    pub ordinal: u32,
}

impl Abstract for AgentOperationKey {
    type Abs = AgentOperationKeyAbs;

    open spec fn abs(&self) -> AgentOperationKeyAbs {
        AgentOperationKeyAbs {
            run_id: self.run_id.abs(),
            ordinal: self.ordinal.abs(),
        }
    }

    fn duplicate(&self) -> AgentOperationKey {
        AgentOperationKey {
            run_id: self.run_id.duplicate(),
            ordinal: self.ordinal.duplicate(),
        }
    }

    fn same(&self, other: &AgentOperationKey) -> bool {
        self.run_id.same(&other.run_id) && self.ordinal.same(&other.ordinal)
    }
}

/// Whether an operation may be delivered again.
#[derive(Clone, Copy, Debug, Eq, PartialEq, Structural)]
pub enum DeliveryClass {
    Retryable,
    AtMostOnce,
}

impl Abstract for DeliveryClass {
    type Abs = DeliveryClass;

    open spec fn abs(&self) -> DeliveryClass {
        *self
    }

    fn duplicate(&self) -> DeliveryClass {
        *self
    }

    fn same(&self, other: &DeliveryClass) -> bool {
        *self == *other
    }
}

/// The kind of an operation.
#[derive(Clone, Copy, Debug, Eq, PartialEq, Structural)]
pub enum AgentOperationKind {
    ModelGeneration,
    Compaction,
    Tool,
}

impl Abstract for AgentOperationKind {
    type Abs = AgentOperationKind;

    open spec fn abs(&self) -> AgentOperationKind {
        *self
    }

    fn duplicate(&self) -> AgentOperationKind {
        *self
    }

    fn same(&self, other: &AgentOperationKind) -> bool {
        *self == *other
    }
}

/// A generation that is asked of the model.
#[derive(Clone, Debug, Eq, PartialEq)]
pub struct ModelGenerationRequest {
    pub context: Vec<MessageId>,
    pub max_output_tokens: u64,
}

/// The content of `ModelGenerationRequest`.
pub struct ModelGenerationRequestAbs {
    pub context: Seq<Seq<char>>,
    pub max_output_tokens: u64,
}

impl Abstract for ModelGenerationRequest {
    type Abs = ModelGenerationRequestAbs;

    open spec fn abs(&self) -> ModelGenerationRequestAbs {
        ModelGenerationRequestAbs {
            context: self.context.abs(),
            max_output_tokens: self.max_output_tokens.abs(),
        }
    }

    fn duplicate(&self) -> ModelGenerationRequest {
        ModelGenerationRequest {
            context: self.context.duplicate(),
            max_output_tokens: self.max_output_tokens.duplicate(),
        }
    }

    fn same(&self, other: &ModelGenerationRequest) -> bool {
        self.context.same(&other.context) && self.max_output_tokens.same(&other.max_output_tokens)
    }
}

/// A call that is asked of a tool.
#[derive(Clone, Debug, Eq, PartialEq)]
pub struct ToolRequest {
    pub tool_id: ToolId,
    pub input: Json,
}

/// The content of `ToolRequest`.
pub struct ToolRequestAbs {
    pub tool_id: Seq<char>,
    pub input: JsonAbs,
}

impl Abstract for ToolRequest {
    type Abs = ToolRequestAbs;

    open spec fn abs(&self) -> ToolRequestAbs {
        ToolRequestAbs {
            tool_id: self.tool_id.abs(),
            input: self.input.abs(),
        }
    }

    fn duplicate(&self) -> ToolRequest {
        ToolRequest {
            tool_id: self.tool_id.duplicate(),
            input: self.input.duplicate(),
        }
    }

    fn same(&self, other: &ToolRequest) -> bool {
        self.tool_id.same(&other.tool_id) && self.input.same(&other.input)
    }
}

/// What an operation asks for.
#[derive(Clone, Debug, Eq, PartialEq)]
pub enum AgentOperationRequest {
    ModelGeneration(ModelGenerationRequest),
    Compaction(CompactionRequest),
    Tool(ToolRequest),
}

/// The content of `AgentOperationRequest`.
pub enum AgentOperationRequestAbs {
    ModelGeneration(ModelGenerationRequestAbs),
    Compaction(CompactionRequestAbs),
    Tool(ToolRequestAbs),
}

impl Abstract for AgentOperationRequest {
    type Abs = AgentOperationRequestAbs;

    open spec fn abs(&self) -> AgentOperationRequestAbs {
        match self {
            AgentOperationRequest::ModelGeneration(x) => AgentOperationRequestAbs::ModelGeneration(
                x.abs(),
            ),
            AgentOperationRequest::Compaction(x) => AgentOperationRequestAbs::Compaction(x.abs()),
            AgentOperationRequest::Tool(x) => AgentOperationRequestAbs::Tool(x.abs()),
        }
    }

    fn duplicate(&self) -> AgentOperationRequest {
        match self {
            AgentOperationRequest::ModelGeneration(x) => AgentOperationRequest::ModelGeneration(
                x.duplicate(),
            ),
            AgentOperationRequest::Compaction(x) => AgentOperationRequest::Compaction(
                x.duplicate(),
            ),
            AgentOperationRequest::Tool(x) => AgentOperationRequest::Tool(x.duplicate()),
        }
    }

    fn same(&self, other: &AgentOperationRequest) -> bool {
        match (self, other) {
            (
                AgentOperationRequest::ModelGeneration(x),
                AgentOperationRequest::ModelGeneration(y),
            ) => x.same(y),
            (
                AgentOperationRequest::Compaction(x),
                AgentOperationRequest::Compaction(y),
            ) => x.same(y),
            (AgentOperationRequest::Tool(x), AgentOperationRequest::Tool(y)) => x.same(y),
            _ => false,
        }
    }
}

/// Why a generation ended.
#[derive(Clone, Copy, Debug, Eq, PartialEq, Structural)]
pub enum ModelFinishReason {
    Stop,
    Length,
    ToolCall,
}

impl Abstract for ModelFinishReason {
    type Abs = ModelFinishReason;

    open spec fn abs(&self) -> ModelFinishReason {
        *self
    }

    fn duplicate(&self) -> ModelFinishReason {
        *self
    }

    fn same(&self, other: &ModelFinishReason) -> bool {
        *self == *other
    }
}

/// The tokens of a model call.
#[derive(Clone, Copy, Debug, Eq, PartialEq, Structural)]
pub struct ModelUsage {
    pub input_tokens: u64,
    pub output_tokens: u64,
}

impl Abstract for ModelUsage {
    type Abs = ModelUsage;

    open spec fn abs(&self) -> ModelUsage {
        *self
    }

    fn duplicate(&self) -> ModelUsage {
        *self
    }

    fn same(&self, other: &ModelUsage) -> bool {
        *self == *other
    }
}

impl Default for ModelUsage {
    fn default() -> (r: ModelUsage)
        ensures
            r == (ModelUsage { input_tokens: 0, output_tokens: 0 }),
    {
        ModelUsage { input_tokens: 0, output_tokens: 0 }
    }
}

/// A call that a model wants.
#[derive(Clone, Debug, Eq, PartialEq)]
pub struct ToolCall {
    pub tool_id: ToolId,
    pub input: Json,
}

/// The content of `ToolCall`.
pub struct ToolCallAbs {
    pub tool_id: Seq<char>,
    pub input: JsonAbs,
}

impl Abstract for ToolCall {
    type Abs = ToolCallAbs;

    open spec fn abs(&self) -> ToolCallAbs {
        ToolCallAbs {
            tool_id: self.tool_id.abs(),
            input: self.input.abs(),
        }
    }

    fn duplicate(&self) -> ToolCall {
        ToolCall {
            tool_id: self.tool_id.duplicate(),
            input: self.input.duplicate(),
        }
    }

    fn same(&self, other: &ToolCall) -> bool {
        self.tool_id.same(&other.tool_id) && self.input.same(&other.input)
    }
}

/// A call with assistant text beside it.
#[derive(Clone, Debug, Eq, PartialEq)]
pub struct AssistantToolCall {
    pub content: Content,
    pub call: ToolCall,
}

/// The content of `AssistantToolCall`.
pub struct AssistantToolCallAbs {
    pub content: Seq<char>,
    pub call: ToolCallAbs,
}

impl Abstract for AssistantToolCall {
    type Abs = AssistantToolCallAbs;

    open spec fn abs(&self) -> AssistantToolCallAbs {
        AssistantToolCallAbs {
            content: self.content.abs(),
            call: self.call.abs(),
        }
    }

    fn duplicate(&self) -> AssistantToolCall {
        AssistantToolCall {
            content: self.content.duplicate(),
            call: self.call.duplicate(),
        }
    }

    fn same(&self, other: &AssistantToolCall) -> bool {
        self.content.same(&other.content) && self.call.same(&other.call)
    }
}

/// What a model produced.
#[derive(Clone, Debug, Eq, PartialEq)]
pub enum ModelGenerationOutput {
    Assistant(Content),
    ToolCall(ToolCall),
    ToolCalls(Vec<ToolCall>),
    AssistantToolCall(AssistantToolCall),
    AssistantToolCalls { content: Content, calls: Vec<ToolCall> },
}

/// The content of `ModelGenerationOutput`.
pub enum ModelGenerationOutputAbs {
    Assistant(Seq<char>),
    ToolCall(ToolCallAbs),
    ToolCalls(Seq<ToolCallAbs>),
    AssistantToolCall(AssistantToolCallAbs),
    AssistantToolCalls { content: Seq<char>, calls: Seq<ToolCallAbs> },
}

impl Abstract for ModelGenerationOutput {
    type Abs = ModelGenerationOutputAbs;

    open spec fn abs(&self) -> ModelGenerationOutputAbs {
        match self {
            ModelGenerationOutput::Assistant(x) => ModelGenerationOutputAbs::Assistant(x.abs()),
            ModelGenerationOutput::ToolCall(x) => ModelGenerationOutputAbs::ToolCall(x.abs()),
            ModelGenerationOutput::ToolCalls(x) => ModelGenerationOutputAbs::ToolCalls(x.abs()),
            ModelGenerationOutput::AssistantToolCall(x) => {
                ModelGenerationOutputAbs::AssistantToolCall(x.abs())
            },
            ModelGenerationOutput::AssistantToolCalls { content, calls } => {
                ModelGenerationOutputAbs::AssistantToolCalls {
                    content: content.abs(),
                    calls: calls.abs(),
                }
            },
        }
    }

    fn duplicate(&self) -> ModelGenerationOutput {
        match self {
            ModelGenerationOutput::Assistant(x) => ModelGenerationOutput::Assistant(x.duplicate()),
            ModelGenerationOutput::ToolCall(x) => ModelGenerationOutput::ToolCall(x.duplicate()),
            ModelGenerationOutput::ToolCalls(x) => ModelGenerationOutput::ToolCalls(x.duplicate()),
            ModelGenerationOutput::AssistantToolCall(x) => ModelGenerationOutput::AssistantToolCall(
                x.duplicate(),
            ),
            ModelGenerationOutput::AssistantToolCalls { content, calls } => {
                ModelGenerationOutput::AssistantToolCalls {
                    content: content.duplicate(),
                    calls: calls.duplicate(),
                }
            },
        }
    }

    fn same(&self, other: &ModelGenerationOutput) -> bool {
        match (self, other) {
            (ModelGenerationOutput::Assistant(x), ModelGenerationOutput::Assistant(y)) => x.same(y),
            (ModelGenerationOutput::ToolCall(x), ModelGenerationOutput::ToolCall(y)) => x.same(y),
            (ModelGenerationOutput::ToolCalls(x), ModelGenerationOutput::ToolCalls(y)) => x.same(y),
            (
                ModelGenerationOutput::AssistantToolCall(x),
                ModelGenerationOutput::AssistantToolCall(y),
            ) => x.same(y),
            (
                ModelGenerationOutput::AssistantToolCalls { content, calls },
                ModelGenerationOutput::AssistantToolCalls { content: content2, calls: calls2 },
            ) => {
                content.same(content2) && calls.same(calls2)
            },
            _ => false,
        }
    }
}

/// What an inference ran on.
#[derive(Clone, Debug, Eq, PartialEq)]
pub struct InferenceRealizationRef {
    pub runtime_profile_digest: InferenceRuntimeProfileDigest,
    pub engine_build_digest: InferenceEngineBuildDigest,
    pub physical_resource_digest: PhysicalResourceDigest,
}

/// The content of `InferenceRealizationRef`.
pub struct InferenceRealizationRefAbs {
    pub runtime_profile_digest: Seq<u8>,
    pub engine_build_digest: Seq<u8>,
    pub physical_resource_digest: Seq<u8>,
}

impl Abstract for InferenceRealizationRef {
    type Abs = InferenceRealizationRefAbs;

    open spec fn abs(&self) -> InferenceRealizationRefAbs {
        InferenceRealizationRefAbs {
            runtime_profile_digest: self.runtime_profile_digest.abs(),
            engine_build_digest: self.engine_build_digest.abs(),
            physical_resource_digest: self.physical_resource_digest.abs(),
        }
    }

    fn duplicate(&self) -> InferenceRealizationRef {
        InferenceRealizationRef {
            runtime_profile_digest: self.runtime_profile_digest.duplicate(),
            engine_build_digest: self.engine_build_digest.duplicate(),
            physical_resource_digest: self.physical_resource_digest.duplicate(),
        }
    }

    fn same(&self, other: &InferenceRealizationRef) -> bool {
        self.runtime_profile_digest.same(&other.runtime_profile_digest)
            && self.engine_build_digest.same(&other.engine_build_digest)
            && self.physical_resource_digest.same(&other.physical_resource_digest)
    }
}

/// How invalid output was corrected.
#[derive(Clone, Debug, Eq, PartialEq)]
pub struct ModelCorrectionRecord {
    pub model: ModelDefinitionRef,
    pub attempts: u32,
    pub usage: ModelUsage,
    pub realization: InferenceRealizationRef,
}

/// The content of `ModelCorrectionRecord`.
pub struct ModelCorrectionRecordAbs {
    pub model: ModelDefinitionRefAbs,
    pub attempts: u32,
    pub usage: ModelUsage,
    pub realization: InferenceRealizationRefAbs,
}

impl Abstract for ModelCorrectionRecord {
    type Abs = ModelCorrectionRecordAbs;

    open spec fn abs(&self) -> ModelCorrectionRecordAbs {
        ModelCorrectionRecordAbs {
            model: self.model.abs(),
            attempts: self.attempts.abs(),
            usage: self.usage.abs(),
            realization: self.realization.abs(),
        }
    }

    fn duplicate(&self) -> ModelCorrectionRecord {
        ModelCorrectionRecord {
            model: self.model.duplicate(),
            attempts: self.attempts.duplicate(),
            usage: self.usage.duplicate(),
            realization: self.realization.duplicate(),
        }
    }

    fn same(&self, other: &ModelCorrectionRecord) -> bool {
        self.model.same(&other.model) && self.attempts.same(&other.attempts)
            && self.usage.same(&other.usage) && self.realization.same(&other.realization)
    }
}

/// The result of a generation.
#[derive(Clone, Debug, Eq, PartialEq)]
pub struct ModelGenerationResult {
    pub output: ModelGenerationOutput,
    pub private_reasoning: Option<Content>,
    pub finish_reason: ModelFinishReason,
    pub usage: ModelUsage,
    pub realization: InferenceRealizationRef,
    pub correction: Option<Box<ModelCorrectionRecord>>,
}

/// The content of `ModelGenerationResult`.
pub struct ModelGenerationResultAbs {
    pub output: ModelGenerationOutputAbs,
    pub private_reasoning: Option<Seq<char>>,
    pub finish_reason: ModelFinishReason,
    pub usage: ModelUsage,
    pub realization: InferenceRealizationRefAbs,
    pub correction: Option<ModelCorrectionRecordAbs>,
}

impl Abstract for ModelGenerationResult {
    type Abs = ModelGenerationResultAbs;

    open spec fn abs(&self) -> ModelGenerationResultAbs {
        ModelGenerationResultAbs {
            output: self.output.abs(),
            private_reasoning: self.private_reasoning.abs(),
            finish_reason: self.finish_reason.abs(),
            usage: self.usage.abs(),
            realization: self.realization.abs(),
            correction: self.correction.abs(),
        }
    }

    fn duplicate(&self) -> ModelGenerationResult {
        ModelGenerationResult {
            output: self.output.duplicate(),
            private_reasoning: self.private_reasoning.duplicate(),
            finish_reason: self.finish_reason.duplicate(),
            usage: self.usage.duplicate(),
            realization: self.realization.duplicate(),
            correction: self.correction.duplicate(),
        }
    }

    fn same(&self, other: &ModelGenerationResult) -> bool {
        self.output.same(&other.output) && self.private_reasoning.same(&other.private_reasoning)
            && self.finish_reason.same(&other.finish_reason) && self.usage.same(&other.usage)
            && self.realization.same(&other.realization) && self.correction.same(&other.correction)
    }
}

/// An effect that a tool had.
#[derive(Clone, Debug, Eq, PartialEq)]
pub struct EffectReceipt {
    pub effect: EffectId,
    pub scope: CanonicalJson,
}

/// The content of `EffectReceipt`.
pub struct EffectReceiptAbs {
    pub effect: Seq<char>,
    pub scope: JsonAbs,
}

impl Abstract for EffectReceipt {
    type Abs = EffectReceiptAbs;

    open spec fn abs(&self) -> EffectReceiptAbs {
        EffectReceiptAbs {
            effect: self.effect.abs(),
            scope: self.scope.abs(),
        }
    }

    fn duplicate(&self) -> EffectReceipt {
        EffectReceipt {
            effect: self.effect.duplicate(),
            scope: self.scope.duplicate(),
        }
    }

    fn same(&self, other: &EffectReceipt) -> bool {
        self.effect.same(&other.effect) && self.scope.same(&other.scope)
    }
}

/// The result of a tool call.
#[derive(Clone, Debug, Eq, PartialEq)]
pub struct ToolResult {
    pub content: Content,
    pub effect_receipts: Vec<EffectReceipt>,
}

/// The content of `ToolResult`.
pub struct ToolResultAbs {
    pub content: Seq<char>,
    pub effect_receipts: Seq<EffectReceiptAbs>,
}

impl Abstract for ToolResult {
    type Abs = ToolResultAbs;

    open spec fn abs(&self) -> ToolResultAbs {
        ToolResultAbs {
            content: self.content.abs(),
            effect_receipts: self.effect_receipts.abs(),
        }
    }

    fn duplicate(&self) -> ToolResult {
        ToolResult {
            content: self.content.duplicate(),
            effect_receipts: self.effect_receipts.duplicate(),
        }
    }

    fn same(&self, other: &ToolResult) -> bool {
        self.content.same(&other.content) && self.effect_receipts.same(&other.effect_receipts)
    }
}

/// The kind of a tool failure.
#[derive(Clone, Copy, Debug, Eq, PartialEq, Structural)]
pub enum ToolFailureKind {
    /// The rejected input class; `ToolFailure.effect` separately establishes
    /// effect state.
    InvalidInput,
    InvalidResult,
    ResultTooLarge,
    /// The authority failure class; this alone does not prove absence of an
    /// effect.
    Unauthorized,
    Unavailable,
    Deadline,
    Cancelled,
    Execution,
    OutcomeUnknown,
}

impl Abstract for ToolFailureKind {
    type Abs = ToolFailureKind;

    open spec fn abs(&self) -> ToolFailureKind {
        *self
    }

    fn duplicate(&self) -> ToolFailureKind {
        *self
    }

    fn same(&self, other: &ToolFailureKind) -> bool {
        *self == *other
    }
}

/// What is known of the effect of a failed call.
#[derive(Clone, Debug, Eq, PartialEq)]
pub enum ToolFailureEffect {
    /// The provider proves that this request performed no effect.
    Absent { field: Option<String>, next_actions: Vec<String>, details: Option<CanonicalJson> },
    Unknown,
}

/// The content of `ToolFailureEffect`.
pub enum ToolFailureEffectAbs {
    Absent { field: Option<Seq<char>>, next_actions: Seq<Seq<char>>, details: Option<JsonAbs> },
    Unknown,
}

impl Abstract for ToolFailureEffect {
    type Abs = ToolFailureEffectAbs;

    open spec fn abs(&self) -> ToolFailureEffectAbs {
        match self {
            ToolFailureEffect::Absent { field, next_actions, details } => {
                ToolFailureEffectAbs::Absent {
                    field: field.abs(),
                    next_actions: next_actions.abs(),
                    details: details.abs(),
                }
            },
            ToolFailureEffect::Unknown => ToolFailureEffectAbs::Unknown,
        }
    }

    fn duplicate(&self) -> ToolFailureEffect {
        match self {
            ToolFailureEffect::Absent { field, next_actions, details } => {
                ToolFailureEffect::Absent {
                    field: field.duplicate(),
                    next_actions: next_actions.duplicate(),
                    details: details.duplicate(),
                }
            },
            ToolFailureEffect::Unknown => ToolFailureEffect::Unknown,
        }
    }

    fn same(&self, other: &ToolFailureEffect) -> bool {
        match (self, other) {
            (
                ToolFailureEffect::Absent { field, next_actions, details },
                ToolFailureEffect::Absent {
                    field: field2,
                    next_actions: next_actions2,
                    details: details2,
                },
            ) => {
                field.same(field2) && next_actions.same(next_actions2) && details.same(details2)
            },
            (ToolFailureEffect::Unknown, ToolFailureEffect::Unknown) => true,
            _ => false,
        }
    }
}

/// A failed tool call.
#[derive(Clone, Debug, Eq, PartialEq)]
pub struct ToolFailure {
    pub kind: ToolFailureKind,
    pub effect: ToolFailureEffect,
}

/// The content of `ToolFailure`.
pub struct ToolFailureAbs {
    pub kind: ToolFailureKind,
    pub effect: ToolFailureEffectAbs,
}

impl Abstract for ToolFailure {
    type Abs = ToolFailureAbs;

    open spec fn abs(&self) -> ToolFailureAbs {
        ToolFailureAbs {
            kind: self.kind.abs(),
            effect: self.effect.abs(),
        }
    }

    fn duplicate(&self) -> ToolFailure {
        ToolFailure {
            kind: self.kind.duplicate(),
            effect: self.effect.duplicate(),
        }
    }

    fn same(&self, other: &ToolFailure) -> bool {
        self.kind.same(&other.kind) && self.effect.same(&other.effect)
    }
}

/// Copies of texts.
fn owned_texts(texts: &[&str]) -> (r: Vec<String>)
    ensures
        r@.len() == texts@.len(),
        forall|i: int| 0 <= i < texts@.len() ==> (#[trigger] r@[i])@ == texts@[i]@,
{
    let mut out: Vec<String> = Vec::new();
    let mut i: usize = 0;
    while i < texts.len()
        invariant
            i <= texts@.len(),
            out@.len() == i,
            forall|k: int| 0 <= k < i ==> (#[trigger] out@[k])@ == texts@[k]@,
        decreases texts@.len() - i,
    {
        out.push(texts[i].to_owned());
        i += 1;
    }
    out
}

/// The effect state of a failure without effect.
pub open spec fn no_effect_state(
    field: Option<&str>,
    next_actions: Seq<&str>,
    details: Option<JsonAbs>,
) -> ToolFailureEffectAbs {
    ToolFailureEffectAbs::Absent {
        field: match field {
            Some(name) => Some(name@),
            None => None,
        },
        next_actions: Seq::new(next_actions.len(), |i: int| next_actions[i]@),
        details,
    }
}

impl ToolFailure {
    pub fn no_effect(kind: ToolFailureKind, field: Option<&str>, next_actions: &[&str]) -> (r:
        ToolFailure)
        ensures
            r.kind == kind,
            r.effect.abs() == no_effect_state(field, next_actions@, None),
    {
        let actions: Vec<String> = owned_texts(next_actions);
        assert(contents(actions@) =~= Seq::new(next_actions@.len(), |i: int| next_actions@[i]@));
        ToolFailure {
            kind,
            effect: ToolFailureEffect::Absent {
                field: match field {
                    Some(name) => Some(name.to_owned()),
                    None => None,
                },
                next_actions: actions,
                details: None,
            },
        }
    }

    pub fn no_effect_with_details(
        kind: ToolFailureKind,
        field: Option<&str>,
        next_actions: &[&str],
        details: CanonicalJson,
    ) -> (r: ToolFailure)
        ensures
            r.kind == kind,
            r.effect.abs() == no_effect_state(field, next_actions@, Some(details@)),
    {
        let actions: Vec<String> = owned_texts(next_actions);
        assert(contents(actions@) =~= Seq::new(next_actions@.len(), |i: int| next_actions@[i]@));
        ToolFailure {
            kind,
            effect: ToolFailureEffect::Absent {
                field: match field {
                    Some(name) => Some(name.to_owned()),
                    None => None,
                },
                next_actions: actions,
                details: Some(details),
            },
        }
    }

    pub fn unknown(kind: ToolFailureKind) -> (r: ToolFailure)
        ensures
            r == (ToolFailure { kind, effect: ToolFailureEffect::Unknown }),
    {
        ToolFailure { kind, effect: ToolFailureEffect::Unknown }
    }
}

/// What an operation produced.
#[derive(Clone, Debug, Eq, PartialEq)]
pub enum AgentOperationResult {
    ModelGeneration(ModelGenerationResult),
    Compaction(Box<CompactionResult>),
    Tool(ToolResult),
}

/// The content of `AgentOperationResult`.
pub enum AgentOperationResultAbs {
    ModelGeneration(ModelGenerationResultAbs),
    Compaction(CompactionResultAbs),
    Tool(ToolResultAbs),
}

impl Abstract for AgentOperationResult {
    type Abs = AgentOperationResultAbs;

    open spec fn abs(&self) -> AgentOperationResultAbs {
        match self {
            AgentOperationResult::ModelGeneration(x) => AgentOperationResultAbs::ModelGeneration(
                x.abs(),
            ),
            AgentOperationResult::Compaction(x) => AgentOperationResultAbs::Compaction(x.abs()),
            AgentOperationResult::Tool(x) => AgentOperationResultAbs::Tool(x.abs()),
        }
    }

    fn duplicate(&self) -> AgentOperationResult {
        match self {
            AgentOperationResult::ModelGeneration(x) => AgentOperationResult::ModelGeneration(
                x.duplicate(),
            ),
            AgentOperationResult::Compaction(x) => AgentOperationResult::Compaction(x.duplicate()),
            AgentOperationResult::Tool(x) => AgentOperationResult::Tool(x.duplicate()),
        }
    }

    fn same(&self, other: &AgentOperationResult) -> bool {
        match (self, other) {
            (
                AgentOperationResult::ModelGeneration(x),
                AgentOperationResult::ModelGeneration(y),
            ) => x.same(y),
            (AgentOperationResult::Compaction(x), AgentOperationResult::Compaction(y)) => x.same(y),
            (AgentOperationResult::Tool(x), AgentOperationResult::Tool(y)) => x.same(y),
            _ => false,
        }
    }
}

/// Why an operation failed.
#[derive(Clone, Debug, Eq, PartialEq)]
pub enum AgentOperationFailureKind {
    InvalidInput,
    InvalidResult,
    InvalidModelOutput { usage: ModelUsage },
    InvalidCompactionOutput { usage: ModelUsage },
    CorrectionFailed {
        primary_usage: ModelUsage,
        calls: u64,
        input_tokens: u64,
        output_tokens: u64,
    },
    IdentityMismatch,
    ResultTooLarge,
    ContextExhausted(ContextExhaustion),
    CompactionRequired(ContextCapacity),
    Unauthorized,
    Unavailable,
    Deadline,
    Cancelled,
    Execution,
    OutcomeUnknown,
    ToolLoopDetected,
}

/// The content of `AgentOperationFailureKind`.
pub enum AgentOperationFailureKindAbs {
    InvalidInput,
    InvalidResult,
    InvalidModelOutput { usage: ModelUsage },
    InvalidCompactionOutput { usage: ModelUsage },
    CorrectionFailed {
        primary_usage: ModelUsage,
        calls: u64,
        input_tokens: u64,
        output_tokens: u64,
    },
    IdentityMismatch,
    ResultTooLarge,
    ContextExhausted(ContextExhaustionAbs),
    CompactionRequired(ContextCapacity),
    Unauthorized,
    Unavailable,
    Deadline,
    Cancelled,
    Execution,
    OutcomeUnknown,
    ToolLoopDetected,
}

impl Abstract for AgentOperationFailureKind {
    type Abs = AgentOperationFailureKindAbs;

    open spec fn abs(&self) -> AgentOperationFailureKindAbs {
        match self {
            AgentOperationFailureKind::InvalidInput => AgentOperationFailureKindAbs::InvalidInput,
            AgentOperationFailureKind::InvalidResult => AgentOperationFailureKindAbs::InvalidResult,
            AgentOperationFailureKind::InvalidModelOutput { usage } => {
                AgentOperationFailureKindAbs::InvalidModelOutput { usage: usage.abs() }
            },
            AgentOperationFailureKind::InvalidCompactionOutput { usage } => {
                AgentOperationFailureKindAbs::InvalidCompactionOutput { usage: usage.abs() }
            },
            AgentOperationFailureKind::CorrectionFailed {
                primary_usage,
                calls,
                input_tokens,
                output_tokens,
            } => {
                AgentOperationFailureKindAbs::CorrectionFailed {
                    primary_usage: primary_usage.abs(),
                    calls: calls.abs(),
                    input_tokens: input_tokens.abs(),
                    output_tokens: output_tokens.abs(),
                }
            },
            AgentOperationFailureKind::IdentityMismatch => AgentOperationFailureKindAbs::IdentityMismatch,
            AgentOperationFailureKind::ResultTooLarge => AgentOperationFailureKindAbs::ResultTooLarge,
            AgentOperationFailureKind::ContextExhausted(x) => {
                AgentOperationFailureKindAbs::ContextExhausted(x.abs())
            },
            AgentOperationFailureKind::CompactionRequired(x) => {
                AgentOperationFailureKindAbs::CompactionRequired(x.abs())
            },
            AgentOperationFailureKind::Unauthorized => AgentOperationFailureKindAbs::Unauthorized,
            AgentOperationFailureKind::Unavailable => AgentOperationFailureKindAbs::Unavailable,
            AgentOperationFailureKind::Deadline => AgentOperationFailureKindAbs::Deadline,
            AgentOperationFailureKind::Cancelled => AgentOperationFailureKindAbs::Cancelled,
            AgentOperationFailureKind::Execution => AgentOperationFailureKindAbs::Execution,
            AgentOperationFailureKind::OutcomeUnknown => AgentOperationFailureKindAbs::OutcomeUnknown,
            AgentOperationFailureKind::ToolLoopDetected => AgentOperationFailureKindAbs::ToolLoopDetected,
        }
    }

    fn duplicate(&self) -> AgentOperationFailureKind {
        match self {
            AgentOperationFailureKind::InvalidInput => AgentOperationFailureKind::InvalidInput,
            AgentOperationFailureKind::InvalidResult => AgentOperationFailureKind::InvalidResult,
            AgentOperationFailureKind::InvalidModelOutput { usage } => {
                AgentOperationFailureKind::InvalidModelOutput { usage: usage.duplicate() }
            },
            AgentOperationFailureKind::InvalidCompactionOutput { usage } => {
                AgentOperationFailureKind::InvalidCompactionOutput { usage: usage.duplicate() }
            },
            AgentOperationFailureKind::CorrectionFailed {
                primary_usage,
                calls,
                input_tokens,
                output_tokens,
            } => {
                AgentOperationFailureKind::CorrectionFailed {
                    primary_usage: primary_usage.duplicate(),
                    calls: calls.duplicate(),
                    input_tokens: input_tokens.duplicate(),
                    output_tokens: output_tokens.duplicate(),
                }
            },
            AgentOperationFailureKind::IdentityMismatch => AgentOperationFailureKind::IdentityMismatch,
            AgentOperationFailureKind::ResultTooLarge => AgentOperationFailureKind::ResultTooLarge,
            AgentOperationFailureKind::ContextExhausted(x) => {
                AgentOperationFailureKind::ContextExhausted(x.duplicate())
            },
            AgentOperationFailureKind::CompactionRequired(x) => {
                AgentOperationFailureKind::CompactionRequired(x.duplicate())
            },
            AgentOperationFailureKind::Unauthorized => AgentOperationFailureKind::Unauthorized,
            AgentOperationFailureKind::Unavailable => AgentOperationFailureKind::Unavailable,
            AgentOperationFailureKind::Deadline => AgentOperationFailureKind::Deadline,
            AgentOperationFailureKind::Cancelled => AgentOperationFailureKind::Cancelled,
            AgentOperationFailureKind::Execution => AgentOperationFailureKind::Execution,
            AgentOperationFailureKind::OutcomeUnknown => AgentOperationFailureKind::OutcomeUnknown,
            AgentOperationFailureKind::ToolLoopDetected => AgentOperationFailureKind::ToolLoopDetected,
        }
    }

    fn same(&self, other: &AgentOperationFailureKind) -> bool {
        match (self, other) {
            (
                AgentOperationFailureKind::InvalidInput,
                AgentOperationFailureKind::InvalidInput,
            ) => true,
            (
                AgentOperationFailureKind::InvalidResult,
                AgentOperationFailureKind::InvalidResult,
            ) => true,
            (
                AgentOperationFailureKind::InvalidModelOutput { usage },
                AgentOperationFailureKind::InvalidModelOutput { usage: usage2 },
            ) => usage.same(usage2),
            (
                AgentOperationFailureKind::InvalidCompactionOutput { usage },
                AgentOperationFailureKind::InvalidCompactionOutput { usage: usage2 },
            ) => usage.same(usage2),
            (
                AgentOperationFailureKind::CorrectionFailed {
                    primary_usage,
                    calls,
                    input_tokens,
                    output_tokens,
                },
                AgentOperationFailureKind::CorrectionFailed {
                    primary_usage: primary_usage2,
                    calls: calls2,
                    input_tokens: input_tokens2,
                    output_tokens: output_tokens2,
                },
            ) => {
                primary_usage.same(primary_usage2) && calls.same(calls2)
                    && input_tokens.same(input_tokens2) && output_tokens.same(output_tokens2)
            },
            (
                AgentOperationFailureKind::IdentityMismatch,
                AgentOperationFailureKind::IdentityMismatch,
            ) => true,
            (
                AgentOperationFailureKind::ResultTooLarge,
                AgentOperationFailureKind::ResultTooLarge,
            ) => true,
            (
                AgentOperationFailureKind::ContextExhausted(x),
                AgentOperationFailureKind::ContextExhausted(y),
            ) => x.same(y),
            (
                AgentOperationFailureKind::CompactionRequired(x),
                AgentOperationFailureKind::CompactionRequired(y),
            ) => x.same(y),
            (
                AgentOperationFailureKind::Unauthorized,
                AgentOperationFailureKind::Unauthorized,
            ) => true,
            (
                AgentOperationFailureKind::Unavailable,
                AgentOperationFailureKind::Unavailable,
            ) => true,
            (AgentOperationFailureKind::Deadline, AgentOperationFailureKind::Deadline) => true,
            (AgentOperationFailureKind::Cancelled, AgentOperationFailureKind::Cancelled) => true,
            (AgentOperationFailureKind::Execution, AgentOperationFailureKind::Execution) => true,
            (
                AgentOperationFailureKind::OutcomeUnknown,
                AgentOperationFailureKind::OutcomeUnknown,
            ) => true,
            (
                AgentOperationFailureKind::ToolLoopDetected,
                AgentOperationFailureKind::ToolLoopDetected,
            ) => true,
            _ => false,
        }
    }
}

/// The message that asks a model to correct invalid output.
pub const INVALID_MODEL_OUTPUT_CORRECTION: &'static str =
    "{\"kind\":\"invalid_model_output\",\"instruction\":\"The model returned no valid public action. Produce one assistant answer, one admitted Tool call, or one admitted Tool call with adjacent assistant text.\"}";

/// A failed operation.
#[derive(Clone, Debug, Eq, PartialEq)]
pub struct AgentOperationFailure {
    pub kind: AgentOperationFailureKind,
}

/// The content of `AgentOperationFailure`.
pub struct AgentOperationFailureAbs {
    pub kind: AgentOperationFailureKindAbs,
}

impl Abstract for AgentOperationFailure {
    type Abs = AgentOperationFailureAbs;

    open spec fn abs(&self) -> AgentOperationFailureAbs {
        AgentOperationFailureAbs {
            kind: self.kind.abs(),
        }
    }

    fn duplicate(&self) -> AgentOperationFailure {
        AgentOperationFailure {
            kind: self.kind.duplicate(),
        }
    }

    fn same(&self, other: &AgentOperationFailure) -> bool {
        self.kind.same(&other.kind)
    }
}

/// The operation failure that a tool failure amounts to: an unknown outcome
/// wherever the effect is unknown.
pub open spec fn operation_failure_of(failure: ToolFailure) -> AgentOperationFailure {
    AgentOperationFailure {
        kind: if failure.effect is Unknown {
            AgentOperationFailureKind::OutcomeUnknown
        } else {
            match failure.kind {
                ToolFailureKind::InvalidInput => AgentOperationFailureKind::InvalidInput,
                ToolFailureKind::InvalidResult => AgentOperationFailureKind::InvalidResult,
                ToolFailureKind::ResultTooLarge => AgentOperationFailureKind::ResultTooLarge,
                ToolFailureKind::Unauthorized => AgentOperationFailureKind::Unauthorized,
                ToolFailureKind::Unavailable => AgentOperationFailureKind::Unavailable,
                ToolFailureKind::Deadline => AgentOperationFailureKind::Deadline,
                ToolFailureKind::Cancelled => AgentOperationFailureKind::Cancelled,
                ToolFailureKind::Execution => AgentOperationFailureKind::Execution,
                ToolFailureKind::OutcomeUnknown => AgentOperationFailureKind::OutcomeUnknown,
            }
        },
    }
}

impl From<ToolFailure> for AgentOperationFailure {
    fn from(failure: ToolFailure) -> AgentOperationFailure {
        if let ToolFailureEffect::Unknown = failure.effect {
            return AgentOperationFailure { kind: AgentOperationFailureKind::OutcomeUnknown };
        }
        AgentOperationFailure {
            kind: match failure.kind {
                ToolFailureKind::InvalidInput => AgentOperationFailureKind::InvalidInput,
                ToolFailureKind::InvalidResult => AgentOperationFailureKind::InvalidResult,
                ToolFailureKind::ResultTooLarge => AgentOperationFailureKind::ResultTooLarge,
                ToolFailureKind::Unauthorized => AgentOperationFailureKind::Unauthorized,
                ToolFailureKind::Unavailable => AgentOperationFailureKind::Unavailable,
                ToolFailureKind::Deadline => AgentOperationFailureKind::Deadline,
                ToolFailureKind::Cancelled => AgentOperationFailureKind::Cancelled,
                ToolFailureKind::Execution => AgentOperationFailureKind::Execution,
                ToolFailureKind::OutcomeUnknown => AgentOperationFailureKind::OutcomeUnknown,
            },
        }
    }
}

impl vstd::std_specs::convert::FromSpecImpl<ToolFailure> for AgentOperationFailure {
    open spec fn obeys_from_spec() -> bool {
        true
    }

    open spec fn from_spec(failure: ToolFailure) -> AgentOperationFailure {
        operation_failure_of(failure)
    }
}

/// How far an operation has come.
#[derive(Clone, Copy, Debug, Eq, PartialEq, Structural)]
pub enum AgentOperationDeliveryState {
    Pending,
    Running,
    RetryScheduled,
    Succeeded,
    Failed,
    OutcomeUnknown,
    Cancelled,
}

impl Abstract for AgentOperationDeliveryState {
    type Abs = AgentOperationDeliveryState;

    open spec fn abs(&self) -> AgentOperationDeliveryState {
        *self
    }

    fn duplicate(&self) -> AgentOperationDeliveryState {
        *self
    }

    fn same(&self, other: &AgentOperationDeliveryState) -> bool {
        *self == *other
    }
}

impl AgentOperationDeliveryState {
    /// Whether the operation is over.
    pub open spec fn is_over(self) -> bool {
        self is Succeeded || self is Failed || self is OutcomeUnknown || self is Cancelled
    }

    pub fn is_terminal(self) -> (b: bool)
        ensures
            b == self.is_over(),
    {
        matches!(
            self,
            AgentOperationDeliveryState::Succeeded | AgentOperationDeliveryState::Failed
            | AgentOperationDeliveryState::OutcomeUnknown | AgentOperationDeliveryState::Cancelled
        )
    }
}

/// An operation of a run.
#[derive(Clone, Debug, Eq, PartialEq)]
pub struct AgentOperation {
    pub key: AgentOperationKey,
    pub request: AgentOperationRequest,
    pub delivery: DeliveryClass,
    pub delivery_attempt: NonZeroU32,
    pub state: AgentOperationDeliveryState,
    pub result: Option<AgentOperationResult>,
    pub failure: Option<AgentOperationFailure>,
    pub revision: u64,
}

/// The content of `AgentOperation`.
pub struct AgentOperationAbs {
    pub key: AgentOperationKeyAbs,
    pub request: AgentOperationRequestAbs,
    pub delivery: DeliveryClass,
    pub delivery_attempt: u32,
    pub state: AgentOperationDeliveryState,
    pub result: Option<AgentOperationResultAbs>,
    pub failure: Option<AgentOperationFailureAbs>,
    pub revision: u64,
}

impl Abstract for AgentOperation {
    type Abs = AgentOperationAbs;

    open spec fn abs(&self) -> AgentOperationAbs {
        AgentOperationAbs {
            key: self.key.abs(),
            request: self.request.abs(),
            delivery: self.delivery.abs(),
            delivery_attempt: self.delivery_attempt.abs(),
            state: self.state.abs(),
            result: self.result.abs(),
            failure: self.failure.abs(),
            revision: self.revision.abs(),
        }
    }

    fn duplicate(&self) -> AgentOperation {
        AgentOperation {
            key: self.key.duplicate(),
            request: self.request.duplicate(),
            delivery: self.delivery.duplicate(),
            delivery_attempt: self.delivery_attempt.duplicate(),
            state: self.state.duplicate(),
            result: self.result.duplicate(),
            failure: self.failure.duplicate(),
            revision: self.revision.duplicate(),
        }
    }

    fn same(&self, other: &AgentOperation) -> bool {
        self.key.same(&other.key) && self.request.same(&other.request)
            && self.delivery.same(&other.delivery)
            && self.delivery_attempt.same(&other.delivery_attempt) && self.state.same(&other.state)
            && self.result.same(&other.result) && self.failure.same(&other.failure)
            && self.revision.same(&other.revision)
    }
}

/// Client-neutral read-only projection of the authoritative stored operation.
#[derive(Clone, Debug, Eq, PartialEq)]
pub struct AgentOperationView {
    pub key: AgentOperationKey,
    pub request: AgentOperationRequest,
    pub delivery: DeliveryClass,
    pub delivery_attempt: NonZeroU32,
    pub state: AgentOperationDeliveryState,
    pub result: Option<AgentOperationResult>,
    pub failure: Option<AgentOperationFailure>,
    pub revision: u64,
}

/// The projection of an operation.
pub open spec fn projection(operation: AgentOperation) -> AgentOperationView {
    AgentOperationView {
        key: operation.key,
        request: operation.request,
        delivery: operation.delivery,
        delivery_attempt: operation.delivery_attempt,
        state: operation.state,
        result: operation.result,
        failure: operation.failure,
        revision: operation.revision,
    }
}

impl From<AgentOperation> for AgentOperationView {
    fn from(operation: AgentOperation) -> AgentOperationView {
        AgentOperationView {
            key: operation.key,
            request: operation.request,
            delivery: operation.delivery,
            delivery_attempt: operation.delivery_attempt,
            state: operation.state,
            result: operation.result,
            failure: operation.failure,
            revision: operation.revision,
        }
    }
}

impl vstd::std_specs::convert::FromSpecImpl<AgentOperation> for AgentOperationView {
    open spec fn obeys_from_spec() -> bool {
        true
    }

    open spec fn from_spec(operation: AgentOperation) -> AgentOperationView {
        projection(operation)
    }
}

/// An operation that is to be delivered.
#[derive(Clone, Debug, Eq, PartialEq)]
pub struct AgentOperationDispatch {
    pub key: AgentOperationKey,
    pub delivery_attempt: NonZeroU32,
    pub request: AgentOperationRequest,
}

/// The content of `AgentOperationDispatch`.
pub struct AgentOperationDispatchAbs {
    pub key: AgentOperationKeyAbs,
    pub delivery_attempt: u32,
    pub request: AgentOperationRequestAbs,
}

impl Abstract for AgentOperationDispatch {
    type Abs = AgentOperationDispatchAbs;

    open spec fn abs(&self) -> AgentOperationDispatchAbs {
        AgentOperationDispatchAbs {
            key: self.key.abs(),
            delivery_attempt: self.delivery_attempt.abs(),
            request: self.request.abs(),
        }
    }

    fn duplicate(&self) -> AgentOperationDispatch {
        AgentOperationDispatch {
            key: self.key.duplicate(),
            delivery_attempt: self.delivery_attempt.duplicate(),
            request: self.request.duplicate(),
        }
    }

    fn same(&self, other: &AgentOperationDispatch) -> bool {
        self.key.same(&other.key) && self.delivery_attempt.same(&other.delivery_attempt)
            && self.request.same(&other.request)
    }
}

/// How an operation ended.
#[derive(Clone, Copy, Debug, Eq, PartialEq, Structural)]
pub enum AgentOperationTerminalStatus {
    Succeeded,
    Failed,
    Cancelled,
}

impl Abstract for AgentOperationTerminalStatus {
    type Abs = AgentOperationTerminalStatus;

    open spec fn abs(&self) -> AgentOperationTerminalStatus {
        *self
    }

    fn duplicate(&self) -> AgentOperationTerminalStatus {
        *self
    }

    fn same(&self, other: &AgentOperationTerminalStatus) -> bool {
        *self == *other
    }
}

/// The end of an operation.
#[derive(Clone, Debug, Eq, PartialEq)]
pub struct AgentOperationTerminal {
    pub key: AgentOperationKey,
    pub status: AgentOperationTerminalStatus,
    pub result: Option<AgentOperationResult>,
    pub failure: Option<AgentOperationFailure>,
}

/// The content of `AgentOperationTerminal`.
pub struct AgentOperationTerminalAbs {
    pub key: AgentOperationKeyAbs,
    pub status: AgentOperationTerminalStatus,
    pub result: Option<AgentOperationResultAbs>,
    pub failure: Option<AgentOperationFailureAbs>,
}

impl Abstract for AgentOperationTerminal {
    type Abs = AgentOperationTerminalAbs;

    open spec fn abs(&self) -> AgentOperationTerminalAbs {
        AgentOperationTerminalAbs {
            key: self.key.abs(),
            status: self.status.abs(),
            result: self.result.abs(),
            failure: self.failure.abs(),
        }
    }

    fn duplicate(&self) -> AgentOperationTerminal {
        AgentOperationTerminal {
            key: self.key.duplicate(),
            status: self.status.duplicate(),
            result: self.result.duplicate(),
            failure: self.failure.duplicate(),
        }
    }

    fn same(&self, other: &AgentOperationTerminal) -> bool {
        self.key.same(&other.key) && self.status.same(&other.status)
            && self.result.same(&other.result) && self.failure.same(&other.failure)
    }
}

/// The kind of a request.
pub open spec fn kind_of_request(request: AgentOperationRequestAbs) -> AgentOperationKind {
    match request {
        AgentOperationRequestAbs::ModelGeneration(_) => AgentOperationKind::ModelGeneration,
        AgentOperationRequestAbs::Compaction(_) => AgentOperationKind::Compaction,
        AgentOperationRequestAbs::Tool(_) => AgentOperationKind::Tool,
    }
}

/// The attempt that a dispatch of the operation must carry.
pub open spec fn due_attempt(operation: AgentOperationAbs) -> Result<u32, &'static str> {
    match operation.state {
        AgentOperationDeliveryState::Pending => Ok(operation.delivery_attempt),
        AgentOperationDeliveryState::RetryScheduled => if operation.delivery_attempt == u32::MAX {
            Err("delivery attempt overflow")
        } else {
            Ok((operation.delivery_attempt + 1) as u32)
        },
        _ => Err("invalid source state for dispatch"),
    }
}

/// The terminal status that belongs to a terminal delivery state.
pub open spec fn terminal_status(state: AgentOperationDeliveryState) -> AgentOperationTerminalStatus {
    match state {
        AgentOperationDeliveryState::Succeeded => AgentOperationTerminalStatus::Succeeded,
        AgentOperationDeliveryState::Failed => AgentOperationTerminalStatus::Failed,
        _ => AgentOperationTerminalStatus::Cancelled,
    }
}

/// What a terminal output may not carry.
pub open spec fn terminal_failure(
    state: AgentOperationDeliveryState,
    terminal: AgentOperationTerminalAbs,
) -> Option<&'static str> {
    match state {
        AgentOperationDeliveryState::Succeeded => if terminal.result is None
            || terminal.failure is Some {
            Some("successful terminal requires only a result")
        } else {
            None
        },
        AgentOperationDeliveryState::Failed => if terminal.result is Some
            || terminal.failure is None {
            Some("failed terminal requires only a failure")
        } else {
            None
        },
        _ => if terminal.result is Some || terminal.failure is Some {
            Some("cancelled terminal cannot carry result or failure")
        } else {
            None
        },
    }
}

/// Whether two requests are equal. The inputs of tools are equal as JSON.
pub open spec fn equal_requests(
    left: AgentOperationRequestAbs,
    right: AgentOperationRequestAbs,
) -> bool {
    match (left, right) {
        (AgentOperationRequestAbs::Tool(a), AgentOperationRequestAbs::Tool(b)) => a.tool_id
            == b.tool_id && equal_json(a.input, b.input),
        _ => left == right,
    }
}

/// Whether two requests are equal.
pub fn requests_equal(left: &AgentOperationRequest, right: &AgentOperationRequest) -> (b: bool)
    ensures
        b == equal_requests(left.abs(), right.abs()),
{
    match (left, right) {
        (AgentOperationRequest::Tool(a), AgentOperationRequest::Tool(b)) => {
            a.tool_id.same(&b.tool_id) && jsons_equal(&a.input, &b.input)
        },
        _ => left.same(right),
    }
}

/// The operation after a transition of its state machine, or why the
/// transition does not belong to the operation.
pub open spec fn applied(
    operation: AgentOperationAbs,
    state: AgentOperationDeliveryState,
    output: AgentOperationFsmOutputAbs,
) -> Result<AgentOperationAbs, &'static str> {
    let next = AgentOperationAbs {
        state,
        revision: (operation.revision + 1) as u64,
        ..operation
    };
    if operation.revision == u64::MAX {
        Err("operation revision overflow")
    } else {
        match state {
            AgentOperationDeliveryState::Running => match output.dispatch {
                None => Err("Running transition requires dispatch"),
                Some(dispatch) => if output.terminal is Some || dispatch.key != operation.key
                    || !equal_requests(dispatch.request, operation.request) {
                    Err("dispatch does not match operation")
                } else {
                    match due_attempt(operation) {
                        Err(error) => Err(error),
                        Ok(attempt) => if dispatch.delivery_attempt != attempt {
                            Err("dispatch attempt does not match operation")
                        } else if output.events != seq![
                            AgentEventDataAbs::OperationStarted {
                                key: operation.key,
                                delivery_attempt: attempt,
                            },
                        ] {
                            Err("started event does not match operation dispatch")
                        } else {
                            Ok(
                                AgentOperationAbs {
                                    delivery_attempt: attempt,
                                    result: None,
                                    failure: None,
                                    ..next
                                },
                            )
                        },
                    }
                },
            },
            AgentOperationDeliveryState::Succeeded | AgentOperationDeliveryState::Failed
            | AgentOperationDeliveryState::Cancelled => match output.terminal {
                None => Err("terminal transition requires terminal output"),
                Some(terminal) => if output.dispatch is Some || terminal.key != operation.key {
                    Err("terminal output does not match operation")
                } else if terminal.status != terminal_status(state) {
                    Err("terminal status does not match delivery state")
                } else if output.events != seq![
                    AgentEventDataAbs::OperationCompleted {
                        key: operation.key,
                        delivery_attempt: operation.delivery_attempt,
                        status: terminal_status(state),
                    },
                ] {
                    Err("completed event does not match operation terminal")
                } else {
                    match terminal_failure(state, terminal) {
                        Some(error) => Err(error),
                        None => Ok(
                            AgentOperationAbs {
                                result: terminal.result,
                                failure: terminal.failure,
                                ..next
                            },
                        ),
                    }
                },
            },
            AgentOperationDeliveryState::OutcomeUnknown => if output.dispatch is Some
                || output.terminal is Some {
                Err("OutcomeUnknown cannot dispatch or produce a normal terminal")
            } else if output.events != seq![
                AgentEventDataAbs::OperationOutcomeUnknown {
                    key: operation.key,
                    delivery_attempt: operation.delivery_attempt,
                },
            ] {
                Err("outcome-unknown event does not match operation")
            } else {
                Ok(
                    AgentOperationAbs {
                        result: None,
                        failure: Some(
                            AgentOperationFailureAbs {
                                kind: AgentOperationFailureKindAbs::OutcomeUnknown,
                            },
                        ),
                        ..next
                    },
                )
            },
            AgentOperationDeliveryState::RetryScheduled => if output.dispatch is Some
                || output.terminal is Some {
                Err("RetryScheduled cannot dispatch or terminate")
            } else if !is_retry_of(operation, output.events) {
                Err("retry event does not match operation")
            } else {
                Ok(AgentOperationAbs { result: None, failure: None, ..next })
            },
            AgentOperationDeliveryState::Pending => Err("FSM cannot transition back to Pending"),
        }
    }
}

/// Whether the events are one retry of the operation, at a time that is not
/// negative.
pub open spec fn is_retry_of(operation: AgentOperationAbs, events: Seq<AgentEventDataAbs>) -> bool {
    events.len() == 1 && match events[0] {
        AgentEventDataAbs::OperationRetryScheduled { key, delivery_attempt, retry_at_ms } => key
            == operation.key && delivery_attempt == operation.delivery_attempt && retry_at_ms >= 0,
        _ => false,
    }
}

/// Whether the events are exactly the expected one.
fn only_event(events: &Vec<AgentEventData>, expected: &AgentEventData) -> (b: bool)
    ensures
        b == (contents(events@) == seq![expected.abs()]),
{
    if events.len() != 1 {
        assert(contents(events@).len() != 1);
        return false;
    }
    let b: bool = events[0].same(expected);
    proof {
        assert(contents(events@)[0] == events@[0].abs());
        if b {
            assert(contents(events@) =~= seq![expected.abs()]);
        }
    }
    b
}

impl AgentOperation {
    pub fn kind(&self) -> (r: AgentOperationKind)
        ensures
            r == kind_of_request(self.request.abs()),
    {
        match self.request {
            AgentOperationRequest::ModelGeneration(_) => AgentOperationKind::ModelGeneration,
            AgentOperationRequest::Compaction(_) => AgentOperationKind::Compaction,
            AgentOperationRequest::Tool(_) => AgentOperationKind::Tool,
        }
    }

    pub fn apply_fsm_transition(
        &self,
        state: AgentOperationDeliveryState,
        output: &AgentOperationFsmOutput,
    ) -> (r: Result<AgentOperation, &'static str>)
        ensures
            match r {
                Ok(next) => applied(self.abs(), state, output.abs()) == Ok::<
                    AgentOperationAbs,
                    &'static str,
                >(next.abs()),
                Err(error) => applied(self.abs(), state, output.abs()) == Err::<
                    AgentOperationAbs,
                    &'static str,
                >(error),
            },
    {
        let mut next: AgentOperation = self.duplicate();
        next.state = state;
        next.revision = match self.revision.checked_add(1) {
            Some(revision) => revision,
            None => {
                return Err("operation revision overflow");
            },
        };
        match state {
            AgentOperationDeliveryState::Running => {
                let dispatch: &AgentOperationDispatch = match &output.dispatch {
                    Some(dispatch) => dispatch,
                    None => {
                        return Err("Running transition requires dispatch");
                    },
                };
                if output.terminal.is_some() || !dispatch.key.same(&self.key)
                    || !requests_equal(&dispatch.request, &self.request) {
                    return Err("dispatch does not match operation");
                }
                let expected_attempt: NonZeroU32 = match self.state {
                    AgentOperationDeliveryState::Pending => self.delivery_attempt,
                    AgentOperationDeliveryState::RetryScheduled => {
                        match self.delivery_attempt.checked_next() {
                            Some(attempt) => attempt,
                            None => {
                                return Err("delivery attempt overflow");
                            },
                        }
                    },
                    _ => {
                        return Err("invalid source state for dispatch");
                    },
                };
                if !dispatch.delivery_attempt.same(&expected_attempt) {
                    return Err("dispatch attempt does not match operation");
                }
                let expected_event: AgentEventData = AgentEventData::OperationStarted {
                    key: self.key,
                    delivery_attempt: expected_attempt,
                };
                if !only_event(&output.events, &expected_event) {
                    return Err("started event does not match operation dispatch");
                }
                next.delivery_attempt = dispatch.delivery_attempt;
                next.result = None;
                next.failure = None;
            },
            AgentOperationDeliveryState::Succeeded | AgentOperationDeliveryState::Failed
            | AgentOperationDeliveryState::Cancelled => {
                let terminal: &AgentOperationTerminal = match &output.terminal {
                    Some(terminal) => terminal,
                    None => {
                        return Err("terminal transition requires terminal output");
                    },
                };
                if output.dispatch.is_some() || !terminal.key.same(&self.key) {
                    return Err("terminal output does not match operation");
                }
                let expected: AgentOperationTerminalStatus = match state {
                    AgentOperationDeliveryState::Succeeded => AgentOperationTerminalStatus::Succeeded,
                    AgentOperationDeliveryState::Failed => AgentOperationTerminalStatus::Failed,
                    _ => AgentOperationTerminalStatus::Cancelled,
                };
                if terminal.status != expected {
                    return Err("terminal status does not match delivery state");
                }
                let expected_event: AgentEventData = AgentEventData::OperationCompleted {
                    key: self.key,
                    delivery_attempt: self.delivery_attempt,
                    status: expected,
                };
                if !only_event(&output.events, &expected_event) {
                    return Err("completed event does not match operation terminal");
                }
                match state {
                    AgentOperationDeliveryState::Succeeded => {
                        if terminal.result.is_none() || terminal.failure.is_some() {
                            return Err("successful terminal requires only a result");
                        }
                    },
                    AgentOperationDeliveryState::Failed => {
                        if terminal.result.is_some() || terminal.failure.is_none() {
                            return Err("failed terminal requires only a failure");
                        }
                    },
                    _ => {
                        if terminal.result.is_some() || terminal.failure.is_some() {
                            return Err("cancelled terminal cannot carry result or failure");
                        }
                    },
                }
                next.result = terminal.result.duplicate();
                next.failure = terminal.failure.duplicate();
            },
            AgentOperationDeliveryState::OutcomeUnknown => {
                if output.dispatch.is_some() || output.terminal.is_some() {
                    return Err("OutcomeUnknown cannot dispatch or produce a normal terminal");
                }
                let expected_event: AgentEventData = AgentEventData::OperationOutcomeUnknown {
                    key: self.key,
                    delivery_attempt: self.delivery_attempt,
                };
                if !only_event(&output.events, &expected_event) {
                    return Err("outcome-unknown event does not match operation");
                }
                next.result = None;
                next.failure = Some(
                    AgentOperationFailure { kind: AgentOperationFailureKind::OutcomeUnknown },
                );
            },
            AgentOperationDeliveryState::RetryScheduled => {
                if output.dispatch.is_some() || output.terminal.is_some() {
                    return Err("RetryScheduled cannot dispatch or terminate");
                }
                if output.events.len() != 1 {
                    return Err("retry event does not match operation");
                }
                assert(contents(output.events@)[0] == output.events@[0].abs());
                match &output.events[0] {
                    AgentEventData::OperationRetryScheduled { key, delivery_attempt, retry_at_ms } => {
                        if !key.same(&self.key) || !delivery_attempt.same(&self.delivery_attempt)
                            || *retry_at_ms < 0 {
                            return Err("retry event does not match operation");
                        }
                    },
                    _ => {
                        return Err("retry event does not match operation");
                    },
                }
                next.result = None;
                next.failure = None;
            },
            AgentOperationDeliveryState::Pending => {
                return Err("FSM cannot transition back to Pending");
            },
        }
        Ok(next)
    }
}

/// An applied transition counts the revision up and keeps the identity, the
/// request and the delivery class.
pub proof fn applied_transition_keeps_identity(
    operation: AgentOperationAbs,
    state: AgentOperationDeliveryState,
    output: AgentOperationFsmOutputAbs,
)
    requires
        applied(operation, state, output) is Ok,
    ensures
        applied(operation, state, output) matches Ok(next) && {
            &&& next.revision == operation.revision + 1
            &&& next.state == state
            &&& next.key == operation.key
            &&& next.request == operation.request
            &&& next.delivery == operation.delivery
        },
{
}
} // verus!
