//! The state machine of a run.

use vstd::prelude::*;
use vstd::string::*;

use super::compaction::{
    claims_failure, rendering_failure, summary_claims, CompactionFailureStage, CompactionMetadata,
    CompactionMetadataAbs, CompactionRequest, CompactionRequestAbs, CompactionResult,
    CompactionResultAbs,
};
use super::context::{budgets_for, measured, CompactionBudgets, ContextCapacity};
use super::event::{AgentEventData, AgentEventDataAbs};
use super::message::{AgentMessage, AgentMessageAbs, MessageRole, MessageVisibility};
use super::operation::{
    kind_of_request, AgentOperation, AgentOperationAbs, AgentOperationDeliveryState,
    AgentOperationFailureAbs, AgentOperationFailureKind, AgentOperationFailureKindAbs,
    AgentOperationKey, AgentOperationKeyAbs, AgentOperationRequest, AgentOperationRequestAbs,
    AgentOperationResult, AgentOperationResultAbs, DeliveryClass, ModelFinishReason,
    ModelGenerationOutput, ModelGenerationOutputAbs, ModelGenerationRequest,
    ModelGenerationRequestAbs, ModelGenerationResult, ModelGenerationResultAbs, ModelUsage,
    ToolCall, ToolCallAbs, ToolRequest, ToolRequestAbs, ToolResult, ToolResultAbs,
    INVALID_MODEL_OUTPUT_CORRECTION,
};
use super::run::{
    checked_next, AdmittedTool, AgentCheckpoint, AgentCheckpointAbs, AgentRunFailureKind,
    AgentRunLimits, AgentRunStatus, AgentRunUsage,
};
use super::text_form::compaction_text;
use crate::content::{content_failure, Content};
use crate::correlation_id::{AgentRunId, ConversationId, MessageId};
use crate::effect::{canonical_failure, CanonicalJson};
use crate::fsm::{Fsm, Transition};
use crate::ids::ToolId;
use crate::json::Json;
use crate::num::NonZeroU32;
use crate::text::{byte_len_bound, precedes, text_before};
use crate::value::{
    contains_value, contents, contents_add, contents_empty, contents_push, Abstract,
};

verus! {

/// How far a run has come.
#[derive(Clone, Debug, Eq, PartialEq)]
pub struct AgentFsmState {
    pub status: AgentRunStatus,
    pub checkpoint: AgentCheckpoint,
    pub usage: AgentRunUsage,
}

/// The content of `AgentFsmState`.
pub struct AgentFsmStateAbs {
    pub status: AgentRunStatus,
    pub checkpoint: AgentCheckpointAbs,
    pub usage: AgentRunUsage,
}

impl Abstract for AgentFsmState {
    type Abs = AgentFsmStateAbs;

    open spec fn abs(&self) -> AgentFsmStateAbs {
        AgentFsmStateAbs {
            status: self.status.abs(),
            checkpoint: self.checkpoint.abs(),
            usage: self.usage.abs(),
        }
    }

    fn duplicate(&self) -> AgentFsmState {
        AgentFsmState {
            status: self.status.duplicate(),
            checkpoint: self.checkpoint.duplicate(),
            usage: self.usage.duplicate(),
        }
    }

    fn same(&self, other: &AgentFsmState) -> bool {
        self.status.same(&other.status) && self.checkpoint.same(&other.checkpoint)
            && self.usage.same(&other.usage)
    }
}

/// What happens to a run.
#[derive(Clone, Debug, Eq, PartialEq)]
pub enum AgentFsmInput {
    Drive,
    /// An operation came to an end. `message_id` names the message that it
    /// brings.
    OperationFinished {
        operation: AgentOperation,
        message_id: Option<MessageId>,
    },
    Cancel,
    DeadlineReached,
}

/// The content of `AgentFsmInput`.
pub enum AgentFsmInputAbs {
    Drive,
    OperationFinished {
        operation: AgentOperationAbs,
        message_id: Option<Seq<char>>,
    },
    Cancel,
    DeadlineReached,
}

impl Abstract for AgentFsmInput {
    type Abs = AgentFsmInputAbs;

    open spec fn abs(&self) -> AgentFsmInputAbs {
        match self {
            AgentFsmInput::Drive => AgentFsmInputAbs::Drive,
            AgentFsmInput::OperationFinished { operation, message_id } => {
                AgentFsmInputAbs::OperationFinished {
                    operation: operation.abs(),
                    message_id: message_id.abs(),
                }
            },
            AgentFsmInput::Cancel => AgentFsmInputAbs::Cancel,
            AgentFsmInput::DeadlineReached => AgentFsmInputAbs::DeadlineReached,
        }
    }

    fn duplicate(&self) -> AgentFsmInput {
        match self {
            AgentFsmInput::Drive => AgentFsmInput::Drive,
            AgentFsmInput::OperationFinished { operation, message_id } => {
                AgentFsmInput::OperationFinished {
                    operation: operation.duplicate(),
                    message_id: message_id.duplicate(),
                }
            },
            AgentFsmInput::Cancel => AgentFsmInput::Cancel,
            AgentFsmInput::DeadlineReached => AgentFsmInput::DeadlineReached,
        }
    }

    fn same(&self, other: &AgentFsmInput) -> bool {
        match (self, other) {
            (AgentFsmInput::Drive, AgentFsmInput::Drive) => true,
            (
                AgentFsmInput::OperationFinished { operation, message_id },
                AgentFsmInput::OperationFinished {
                    operation: operation2,
                    message_id: message_id2,
                },
            ) => {
                operation.same(operation2) && message_id.same(message_id2)
            },
            (AgentFsmInput::Cancel, AgentFsmInput::Cancel) => true,
            (AgentFsmInput::DeadlineReached, AgentFsmInput::DeadlineReached) => true,
            _ => false,
        }
    }
}

/// What follows from what happened.
#[derive(Clone, Debug, Eq, PartialEq)]
pub struct AgentFsmOutput {
    pub operation: Option<AgentOperation>,
    pub message: Option<AgentMessage>,
    pub events: Vec<AgentEventData>,
}

/// The content of `AgentFsmOutput`.
pub struct AgentFsmOutputAbs {
    pub operation: Option<AgentOperationAbs>,
    pub message: Option<AgentMessageAbs>,
    pub events: Seq<AgentEventDataAbs>,
}

impl Abstract for AgentFsmOutput {
    type Abs = AgentFsmOutputAbs;

    open spec fn abs(&self) -> AgentFsmOutputAbs {
        AgentFsmOutputAbs {
            operation: self.operation.abs(),
            message: self.message.abs(),
            events: self.events.abs(),
        }
    }

    fn duplicate(&self) -> AgentFsmOutput {
        AgentFsmOutput {
            operation: self.operation.duplicate(),
            message: self.message.duplicate(),
            events: self.events.duplicate(),
        }
    }

    fn same(&self, other: &AgentFsmOutput) -> bool {
        self.operation.same(&other.operation) && self.message.same(&other.message)
            && self.events.same(&other.events)
    }
}

#[derive(Clone, Copy, Debug, Eq, PartialEq, Structural)]
pub enum AgentFsmError {
    Terminal,
    NotReady,
    OperationMismatch,
    OperationNotSucceeded,
    MissingMessageId,
    UnexpectedMessageId,
    OrdinalOverflow,
    LimitExceeded,
    InvalidModelResult,
}

impl AgentFsmError {
    /// The sentence that tells a reader of this error.
    pub open spec fn message(&self) -> Seq<char> {
        match self {
            AgentFsmError::Terminal => "AgentRun is terminal"@,
            AgentFsmError::NotReady => "AgentRun is waiting"@,
            AgentFsmError::OperationMismatch => "operation does not match checkpoint"@,
            AgentFsmError::OperationNotSucceeded => "operation has not succeeded"@,
            AgentFsmError::MissingMessageId => "accepted content requires a message ID"@,
            AgentFsmError::UnexpectedMessageId => "operation does not produce a message"@,
            AgentFsmError::OrdinalOverflow => "operation ordinal overflow"@,
            AgentFsmError::LimitExceeded => "AgentRun limit exceeded"@,
            AgentFsmError::InvalidModelResult => "model result is structurally inconsistent"@,
        }
    }

    pub fn to_string(&self) -> (r: String)
        ensures
            r@ == self.message(),
    {
        match self {
            AgentFsmError::Terminal => "AgentRun is terminal".to_owned(),
            AgentFsmError::NotReady => "AgentRun is waiting".to_owned(),
            AgentFsmError::OperationMismatch => "operation does not match checkpoint".to_owned(),
            AgentFsmError::OperationNotSucceeded => "operation has not succeeded".to_owned(),
            AgentFsmError::MissingMessageId => "accepted content requires a message ID".to_owned(),
            AgentFsmError::UnexpectedMessageId => "operation does not produce a message".to_owned(),
            AgentFsmError::OrdinalOverflow => "operation ordinal overflow".to_owned(),
            AgentFsmError::LimitExceeded => "AgentRun limit exceeded".to_owned(),
            AgentFsmError::InvalidModelResult =>
                "model result is structurally inconsistent".to_owned(),
        }
    }
}

/// The machine of one run.
#[derive(Clone, Debug)]
pub struct AgentFsm {
    run_id: AgentRunId,
    conversation_id: Option<ConversationId>,
    limits: AgentRunLimits,
    generation_max_output_tokens: u64,
    tools: Vec<(ToolId, DeliveryClass)>,
}

/// The content of `AgentFsm`.
pub struct AgentFsmAbs {
    pub run_id: Seq<u8>,
    pub conversation_id: Option<Seq<u8>>,
    pub limits: AgentRunLimits,
    pub generation_max_output_tokens: u64,
    pub tools: Map<Seq<char>, DeliveryClass>,
}

/// The delivery class of each tool; the last of two tools with one name
/// counts.
pub open spec fn tool_classes(tools: Seq<(Seq<char>, DeliveryClass)>) -> Map<
    Seq<char>,
    DeliveryClass,
>
    decreases tools.len(),
{
    if tools.len() == 0 {
        Map::empty()
    } else {
        tool_classes(tools.drop_last()).insert(tools.last().0, tools.last().1)
    }
}

/// The tools of a run, by name and delivery class.
pub open spec fn admitted_classes(tools: Seq<AdmittedTool>) -> Seq<(Seq<char>, DeliveryClass)> {
    Seq::new(tools.len(), |i: int| (tools[i].definition.id@, tools[i].definition.delivery))
}

pub type RunStep = Result<(AgentFsmStateAbs, AgentFsmOutputAbs), AgentFsmError>;

/// The content of a transition.
pub open spec fn step_of(r: Result<Transition<AgentFsmState, AgentFsmOutput>, AgentFsmError>) -> RunStep {
    match r {
        Ok(step) => Ok((step.state.abs(), step.output.abs())),
        Err(error) => Err(error),
    }
}

/// An operation that has just been created.
pub open spec fn new_operation(
    machine: AgentFsmAbs,
    ordinal: u32,
    request: AgentOperationRequestAbs,
    delivery: DeliveryClass,
) -> AgentOperationAbs {
    AgentOperationAbs {
        key: AgentOperationKeyAbs { run_id: machine.run_id, ordinal },
        request,
        delivery,
        delivery_attempt: 1,
        state: AgentOperationDeliveryState::Pending,
        result: None,
        failure: None,
        revision: 0,
    }
}

/// The event that tells of a new operation.
pub open spec fn created_event(operation: AgentOperationAbs) -> AgentEventDataAbs {
    AgentEventDataAbs::OperationCreated {
        key: operation.key,
        kind: kind_of_request(operation.request),
        tool_id: match operation.request {
            AgentOperationRequestAbs::Tool(request) => Some(request.tool_id),
            _ => None,
        },
        delivery: operation.delivery,
    }
}

/// The run waits for a new operation.
pub open spec fn waiting_for(
    status: AgentRunStatus,
    usage: AgentRunUsage,
    operation: AgentOperationAbs,
    context: Seq<Seq<char>>,
    pending: Seq<ToolCallAbs>,
    message: Option<AgentMessageAbs>,
    events: Seq<AgentEventDataAbs>,
) -> RunStep {
    if operation.key.ordinal == u32::MAX {
        Err(AgentFsmError::OrdinalOverflow)
    } else {
        Ok(
            (
                AgentFsmStateAbs {
                    status,
                    checkpoint: AgentCheckpointAbs::Waiting {
                        operation: operation.key,
                        context,
                        next_operation_ordinal: (operation.key.ordinal + 1) as u32,
                        pending_tool_calls: pending,
                    },
                    usage,
                },
                AgentFsmOutputAbs {
                    operation: Some(operation),
                    message,
                    events: events.push(created_event(operation)),
                },
            ),
        )
    }
}

/// Usage after a model call.
pub open spec fn with_model_call(usage: AgentRunUsage, tokens: Option<ModelUsage>) -> Option<
    AgentRunUsage,
> {
    let input = match tokens {
        Some(tokens) => tokens.input_tokens,
        None => 0,
    };
    let output = match tokens {
        Some(tokens) => tokens.output_tokens,
        None => 0,
    };
    if usage.model_calls + 1 > u64::MAX || usage.model_input_tokens + input > u64::MAX
        || usage.model_output_tokens + output > u64::MAX {
        None
    } else {
        Some(
            AgentRunUsage {
                model_calls: (usage.model_calls + 1) as u64,
                model_input_tokens: (usage.model_input_tokens + input) as u64,
                model_output_tokens: (usage.model_output_tokens + output) as u64,
                ..usage
            },
        )
    }
}

/// Usage after corrections.
pub open spec fn with_corrections(
    usage: AgentRunUsage,
    calls: u64,
    input_tokens: u64,
    output_tokens: u64,
) -> Option<AgentRunUsage> {
    if usage.correction_calls + calls > u64::MAX || usage.correction_input_tokens + input_tokens
        > u64::MAX || usage.correction_output_tokens + output_tokens > u64::MAX {
        None
    } else {
        Some(
            AgentRunUsage {
                correction_calls: (usage.correction_calls + calls) as u64,
                correction_input_tokens: (usage.correction_input_tokens + input_tokens) as u64,
                correction_output_tokens: (usage.correction_output_tokens + output_tokens) as u64,
                ..usage
            },
        )
    }
}

/// Whether another model call is within the limits.
pub open spec fn model_budget_left(limits: AgentRunLimits, usage: AgentRunUsage) -> bool {
    &&& usage.model_calls < limits.model_calls
    &&& (limits.model_input_tokens matches Some(limit) ==> usage.model_input_tokens < limit)
    &&& usage.model_output_tokens < limits.model_output_tokens
}

/// Whether model calls and corrections have gone over the limits.
pub open spec fn over_model_limits(limits: AgentRunLimits, usage: AgentRunUsage) -> bool {
    ||| usage.model_calls > limits.model_calls
    ||| (limits.model_input_tokens matches Some(limit) && usage.model_input_tokens > limit)
    ||| usage.model_output_tokens > limits.model_output_tokens
    ||| usage.correction_calls > limits.correction_calls
    ||| usage.correction_input_tokens > limits.correction_input_tokens
    ||| usage.correction_output_tokens > limits.correction_output_tokens
}

/// A message that an operation brings.
pub open spec fn operation_message(
    machine: AgentFsmAbs,
    id: Seq<char>,
    key: AgentOperationKeyAbs,
    role: MessageRole,
    visibility: MessageVisibility,
    content: Seq<char>,
) -> AgentMessageAbs {
    AgentMessageAbs {
        id,
        conversation_id: machine.conversation_id,
        run_id: Some(machine.run_id),
        source_operation: Some(key),
        role,
        visibility,
        content,
    }
}

/// Who sees what the assistant says.
pub open spec fn assistant_visibility(machine: AgentFsmAbs) -> MessageVisibility {
    if machine.conversation_id is Some {
        MessageVisibility::Conversation
    } else {
        MessageVisibility::Internal
    }
}

/// The event that tells of a message.
pub open spec fn appended_event(message: AgentMessageAbs) -> AgentEventDataAbs {
    AgentEventDataAbs::MessageAppended {
        message_id: message.id,
        role: message.role,
        visibility: message.visibility,
    }
}

pub open spec fn status_event(
    from: AgentRunStatus,
    to: AgentRunStatus,
    failure_kind: Option<AgentRunFailureKind>,
) -> AgentEventDataAbs {
    AgentEventDataAbs::RunStatusChanged { from, to, failure_kind }
}

/// The run ends because it was cancelled or its deadline is over.
pub open spec fn stop_step(
    state: AgentFsmStateAbs,
    to: AgentRunStatus,
    failure_kind: Option<AgentRunFailureKind>,
) -> RunStep {
    if !(state.checkpoint is Ready) {
        Err(AgentFsmError::NotReady)
    } else {
        Ok(
            (
                AgentFsmStateAbs { status: to, ..state },
                AgentFsmOutputAbs {
                    operation: None,
                    message: None,
                    events: seq![status_event(state.status, to, failure_kind)],
                },
            ),
        )
    }
}

/// The run goes on: with a generation, where the limits allow one.
pub open spec fn drive_step(machine: AgentFsmAbs, state: AgentFsmStateAbs) -> RunStep {
    match state.checkpoint {
        AgentCheckpointAbs::Waiting { .. } => Err(AgentFsmError::NotReady),
        AgentCheckpointAbs::Ready { context, next_operation_ordinal } => if !model_budget_left(
            machine.limits,
            state.usage,
        ) {
            stop_step(state, AgentRunStatus::Failed, Some(AgentRunFailureKind::LimitsExceeded))
        } else {
            let left = (
                machine.limits.model_output_tokens - state.usage.model_output_tokens
            ) as u64;
            waiting_for(
                AgentRunStatus::Running,
                state.usage,
                new_operation(
                    machine,
                    next_operation_ordinal,
                    AgentOperationRequestAbs::ModelGeneration(
                        ModelGenerationRequestAbs {
                            context,
                            max_output_tokens: if left <= machine.generation_max_output_tokens {
                                left
                            } else {
                                machine.generation_max_output_tokens
                            },
                        },
                    ),
                    DeliveryClass::Retryable,
                ),
                context,
                Seq::empty(),
                None,
                if state.status is Running {
                    Seq::empty()
                } else {
                    seq![status_event(state.status, AgentRunStatus::Running, None)]
                },
            )
        },
    }
}

/// A compaction is created.
pub open spec fn queued(
    machine: AgentFsmAbs,
    status: AgentRunStatus,
    usage: AgentRunUsage,
    ordinal: u32,
    request: CompactionRequestAbs,
    events: Seq<AgentEventDataAbs>,
) -> RunStep {
    waiting_for(
        status,
        usage,
        new_operation(
            machine,
            ordinal,
            AgentOperationRequestAbs::Compaction(request),
            DeliveryClass::Retryable,
        ),
        request.context,
        Seq::empty(),
        None,
        events,
    )
}

/// The model is told that its output was invalid.
pub open spec fn correction_step(
    machine: AgentFsmAbs,
    state: AgentFsmStateAbs,
    context: Seq<Seq<char>>,
    ordinal: u32,
    key: AgentOperationKeyAbs,
    kind: AgentOperationFailureKindAbs,
    message_id: Option<Seq<char>>,
) -> RunStep {
    match message_id {
        None => Err(AgentFsmError::MissingMessageId),
        Some(id) => {
            let primary = match kind {
                AgentOperationFailureKindAbs::InvalidModelOutput { usage } => Some(usage),
                AgentOperationFailureKindAbs::CorrectionFailed { primary_usage, .. } => Some(
                    primary_usage,
                ),
                _ => None,
            };
            let called = with_model_call(state.usage, primary);
            let corrected = match (called, kind) {
                (
                    Some(usage),
                    AgentOperationFailureKindAbs::CorrectionFailed {
                        calls,
                        input_tokens,
                        output_tokens,
                        ..
                    },
                ) => with_corrections(usage, calls, input_tokens, output_tokens),
                _ => called,
            };
            match corrected {
                None => Err(AgentFsmError::LimitExceeded),
                Some(usage) => {
                    let message = operation_message(
                        machine,
                        id,
                        key,
                        MessageRole::Assistant,
                        MessageVisibility::Internal,
                        INVALID_MODEL_OUTPUT_CORRECTION@,
                    );
                    let over = usage.model_calls >= machine.limits.model_calls;
                    let told = seq![appended_event(message)];
                    Ok(
                        (
                            AgentFsmStateAbs {
                                status: if over {
                                    AgentRunStatus::Failed
                                } else {
                                    state.status
                                },
                                checkpoint: AgentCheckpointAbs::Ready {
                                    context: context.push(id),
                                    next_operation_ordinal: ordinal,
                                },
                                usage,
                            },
                            AgentFsmOutputAbs {
                                operation: None,
                                message: Some(message),
                                events: (if over {
                                    told.push(
                                        status_event(
                                            state.status,
                                            AgentRunStatus::Failed,
                                            Some(AgentRunFailureKind::LimitsExceeded),
                                        ),
                                    )
                                } else {
                                    told
                                }).push(AgentEventDataAbs::UsageUpdated { usage }),
                            },
                        ),
                    )
                },
            }
        },
    }
}

/// The failure that a run has from a failed operation.
pub open spec fn run_failure_of(failure: Option<AgentOperationFailureAbs>) -> AgentRunFailureKind {
    match failure {
        Some(failure) => match failure.kind {
            AgentOperationFailureKindAbs::Deadline => AgentRunFailureKind::Deadline,
            AgentOperationFailureKindAbs::ToolLoopDetected => AgentRunFailureKind::ToolLoopDetected,
            _ => AgentRunFailureKind::Operation,
        },
        None => AgentRunFailureKind::Operation,
    }
}

/// The run ends with its operation.
pub open spec fn end_step(
    state: AgentFsmStateAbs,
    usage: AgentRunUsage,
    operation: AgentOperationAbs,
    events: Seq<AgentEventDataAbs>,
) -> RunStep {
    if !operation.state.is_over() {
        Err(AgentFsmError::OperationNotSucceeded)
    } else {
        let to = if operation.state is Cancelled {
            AgentRunStatus::Cancelled
        } else {
            AgentRunStatus::Failed
        };
        Ok(
            (
                AgentFsmStateAbs { status: to, usage, ..state },
                AgentFsmOutputAbs {
                    operation: None,
                    message: None,
                    events: events.push(
                        status_event(
                            state.status,
                            to,
                            if to is Failed {
                                Some(run_failure_of(operation.failure))
                            } else {
                                None
                            },
                        ),
                    ),
                },
            ),
        )
    }
}

/// A failed compaction is tried once more, or ends the run. The model was
/// called if `tokens` says so.
pub open spec fn failed_compaction_step(
    machine: AgentFsmAbs,
    state: AgentFsmStateAbs,
    ordinal: u32,
    operation: AgentOperationAbs,
    request: CompactionRequestAbs,
    called: bool,
    tokens: Option<ModelUsage>,
    correctable: bool,
) -> RunStep {
    match (if called {
        with_model_call(state.usage, tokens)
    } else {
        Some(state.usage)
    }) {
        None => Err(AgentFsmError::LimitExceeded),
        Some(usage) => {
            let events = if called {
                seq![AgentEventDataAbs::UsageUpdated { usage }]
            } else {
                Seq::empty()
            };
            if request.correction_of is None && model_budget_left(machine.limits, usage)
                && correctable {
                queued(
                    machine,
                    state.status,
                    usage,
                    ordinal,
                    CompactionRequestAbs { correction_of: Some(operation.key), ..request },
                    events,
                )
            } else {
                end_step(state, usage, operation, events)
            }
        },
    }
}

/// What an operation that did not succeed means for its run.
pub open spec fn unsuccessful_step(
    machine: AgentFsmAbs,
    state: AgentFsmStateAbs,
    context: Seq<Seq<char>>,
    ordinal: u32,
    operation: AgentOperationAbs,
    message_id: Option<Seq<char>>,
) -> RunStep {
    match (operation.request, operation.failure) {
        (AgentOperationRequestAbs::ModelGeneration(_), Some(failure)) => match failure.kind {
            AgentOperationFailureKindAbs::CompactionRequired(before) => if !before.is_over()
                || message_id is Some {
                Err(AgentFsmError::InvalidModelResult)
            } else {
                queued(
                    machine,
                    state.status,
                    state.usage,
                    ordinal,
                    CompactionRequestAbs { context, before, correction_of: None },
                    Seq::empty(),
                )
            },
            AgentOperationFailureKindAbs::InvalidResult
            | AgentOperationFailureKindAbs::InvalidModelOutput { .. }
            | AgentOperationFailureKindAbs::CorrectionFailed { .. } => correction_step(
                machine,
                state,
                context,
                ordinal,
                operation.key,
                failure.kind,
                message_id,
            ),
            _ => end_step(state, state.usage, operation, Seq::empty()),
        },
        (AgentOperationRequestAbs::Compaction(request), Some(failure)) => match failure.kind {
            AgentOperationFailureKindAbs::ContextExhausted(exhaustion) => match exhaustion.compaction {
                Some(failed) => failed_compaction_step(
                    machine,
                    state,
                    ordinal,
                    operation,
                    request,
                    failed.model_called,
                    failed.usage,
                    failed.stage is SemanticOutput || failed.stage is RebuiltInput,
                ),
                None => end_step(state, state.usage, operation, Seq::empty()),
            },
            AgentOperationFailureKindAbs::InvalidCompactionOutput { usage } => failed_compaction_step(
                machine,
                state,
                ordinal,
                operation,
                request,
                true,
                Some(usage),
                true,
            ),
            _ => end_step(state, state.usage, operation, Seq::empty()),
        },
        _ => end_step(state, state.usage, operation, Seq::empty()),
    }
}

/// Whether the retained checkpoints of a compaction are few, in order, and
/// among its sources only.
pub open spec fn are_retained(metadata: CompactionMetadataAbs) -> bool {
    let retained = metadata.retained_checkpoints;
    &&& retained.len() <= 9
    &&& forall|i: int|
        0 <= i < retained.len() ==> metadata.source.contains(#[trigger] retained[i])
            && !metadata.tail.contains(retained[i])
    &&& forall|i: int|
        0 <= i < retained.len() - 1 ==> precedes(#[trigger] retained[i], retained[i + 1])
}

/// Whether the measurements of a compaction hold together with its request,
/// its run and the context that it compacts.
pub open spec fn is_consistent(
    machine: AgentFsmAbs,
    context: Seq<Seq<char>>,
    key: AgentOperationKeyAbs,
    request: CompactionRequestAbs,
    budgets: CompactionBudgets,
    result: CompactionResultAbs,
) -> bool {
    let metadata = result.metadata;
    let capacity = request.before.context_capacity_tokens;
    &&& metadata.source + metadata.tail == context
    &&& metadata.source.len() > 0
    &&& are_retained(metadata)
    &&& metadata.source.first() == metadata.source_start
    &&& metadata.source.last() == metadata.source_end
    &&& metadata.tail_first == (if metadata.tail.len() > 0 {
        Some(metadata.tail.first())
    } else {
        None
    })
    &&& metadata.summary_operation == key
    &&& metadata.correction_of == request.correction_of
    &&& metadata.before == request.before
    &&& metadata.after == measured(
        metadata.after.prompt_tokens,
        request.before.reserved_output_tokens,
        capacity,
    )
    &&& metadata.summary_request == measured(
        metadata.summary_request.prompt_tokens,
        budgets.summary_output_tokens,
        capacity,
    )
    &&& metadata.summary_request.is_fitting()
    &&& metadata.usage.output_tokens <= budgets.summary_output_tokens
    &&& result.content.exact.snapshot_run == machine.run_id
    &&& metadata.tail_tokens <= budgets.recent_tail_limit
    &&& metadata.after.is_fitting()
    &&& metadata.after.prompt_tokens <= budgets.rebuilt_input_target
    &&& claims_failure(summary_claims(result.content.semantic), metadata.source) is None
}

/// The summary takes the place of its sources.
pub open spec fn compacted_step(
    machine: AgentFsmAbs,
    state: AgentFsmStateAbs,
    context: Seq<Seq<char>>,
    ordinal: u32,
    operation: AgentOperationAbs,
    result: CompactionResultAbs,
    message_id: Option<Seq<char>>,
) -> RunStep {
    match operation.request {
        AgentOperationRequestAbs::Compaction(request) => match budgets_for(
            request.before.context_capacity_tokens,
            request.before.reserved_output_tokens,
            false,
        ) {
            None => Err(AgentFsmError::InvalidModelResult),
            Some(budgets) => if !is_consistent(
                machine,
                context,
                operation.key,
                request,
                budgets,
                result,
            ) {
                Err(AgentFsmError::InvalidModelResult)
            } else {
                match message_id {
                    None => Err(AgentFsmError::MissingMessageId),
                    Some(id) => match with_model_call(state.usage, Some(result.metadata.usage)) {
                        None => Err(AgentFsmError::LimitExceeded),
                        Some(usage) => if rendering_failure(result.content) is Some {
                            Err(AgentFsmError::InvalidModelResult)
                        } else {
                            let message = operation_message(
                                machine,
                                id,
                                operation.key,
                                MessageRole::Assistant,
                                MessageVisibility::Internal,
                                compaction_text(result.content),
                            );
                            Ok(
                                (
                                    AgentFsmStateAbs {
                                        checkpoint: AgentCheckpointAbs::Ready {
                                            context: result.metadata.retained_checkpoints.push(id)
                                                + result.metadata.tail,
                                            next_operation_ordinal: ordinal,
                                        },
                                        usage,
                                        ..state
                                    },
                                    AgentFsmOutputAbs {
                                        operation: None,
                                        message: Some(message),
                                        events: seq![appended_event(message)].push(
                                            AgentEventDataAbs::UsageUpdated { usage },
                                        ),
                                    },
                                ),
                            )
                        },
                    },
                }
            },
        },
        _ => Err(AgentFsmError::InvalidModelResult),
    }
}

/// Usage after a generation.
pub open spec fn generation_usage(usage: AgentRunUsage, result: ModelGenerationResultAbs) -> Option<
    AgentRunUsage,
> {
    match with_model_call(usage, Some(result.usage)) {
        None => None,
        Some(usage) => match result.correction {
            None => Some(usage),
            Some(correction) => with_corrections(
                usage,
                correction.attempts as u64,
                correction.usage.input_tokens,
                correction.usage.output_tokens,
            ),
        },
    }
}

/// The assistant has spoken.
pub open spec fn answer_step(
    machine: AgentFsmAbs,
    state: AgentFsmStateAbs,
    usage: AgentRunUsage,
    context: Seq<Seq<char>>,
    ordinal: u32,
    key: AgentOperationKeyAbs,
    finish_reason: ModelFinishReason,
    content: Seq<char>,
    message_id: Option<Seq<char>>,
) -> RunStep {
    if finish_reason is ToolCall {
        Err(AgentFsmError::InvalidModelResult)
    } else {
        match message_id {
            None => Err(AgentFsmError::MissingMessageId),
            Some(id) => {
                let message = operation_message(
                    machine,
                    id,
                    key,
                    MessageRole::Assistant,
                    assistant_visibility(machine),
                    content,
                );
                let over = over_model_limits(machine.limits, usage);
                let status = if over {
                    AgentRunStatus::Failed
                } else if finish_reason is Stop {
                    AgentRunStatus::Completed
                } else {
                    state.status
                };
                let told = seq![appended_event(message)];
                Ok(
                    (
                        AgentFsmStateAbs {
                            status,
                            checkpoint: AgentCheckpointAbs::Ready {
                                context: context.push(id),
                                next_operation_ordinal: ordinal,
                            },
                            usage,
                        },
                        AgentFsmOutputAbs {
                            operation: None,
                            message: Some(message),
                            events: (if over {
                                told.push(
                                    status_event(
                                        state.status,
                                        AgentRunStatus::Failed,
                                        Some(AgentRunFailureKind::LimitsExceeded),
                                    ),
                                )
                            } else if finish_reason is Stop {
                                told.push(
                                    status_event(state.status, AgentRunStatus::Completed, None),
                                )
                            } else {
                                told
                            }).push(AgentEventDataAbs::UsageUpdated { usage }),
                        },
                    ),
                )
            },
        }
    }
}

/// The calls that a model wants.
pub open spec fn wanted_calls(output: ModelGenerationOutputAbs) -> Seq<ToolCallAbs> {
    match output {
        ModelGenerationOutputAbs::Assistant(_) => Seq::empty(),
        ModelGenerationOutputAbs::ToolCall(call) => seq![call],
        ModelGenerationOutputAbs::ToolCalls(calls) => calls,
        ModelGenerationOutputAbs::AssistantToolCall(mixed) => seq![mixed.call],
        ModelGenerationOutputAbs::AssistantToolCalls { calls, .. } => calls,
    }
}

/// What the assistant says beside the calls.
pub open spec fn spoken(output: ModelGenerationOutputAbs) -> Option<Seq<char>> {
    match output {
        ModelGenerationOutputAbs::Assistant(content) => Some(content),
        ModelGenerationOutputAbs::AssistantToolCall(mixed) => Some(mixed.content),
        ModelGenerationOutputAbs::AssistantToolCalls { content, .. } => Some(content),
        _ => None,
    }
}

/// The first of some calls is made, and the others wait; a call of a tool that
/// the run does not have, or with an input that is no canonical JSON, is
/// refused.
pub open spec fn call_step(
    machine: AgentFsmAbs,
    status: AgentRunStatus,
    usage: AgentRunUsage,
    context: Seq<Seq<char>>,
    ordinal: u32,
    calls: Seq<ToolCallAbs>,
    message: Option<AgentMessageAbs>,
    events: Seq<AgentEventDataAbs>,
) -> RunStep {
    let call = calls[0];
    if canonical_failure(call.input) is Some || !machine.tools.contains_key(call.tool_id) {
        Err(AgentFsmError::InvalidModelResult)
    } else {
        match waiting_for(
            status,
            usage,
            new_operation(
                machine,
                ordinal,
                AgentOperationRequestAbs::Tool(
                    ToolRequestAbs { tool_id: call.tool_id, input: call.input },
                ),
                machine.tools[call.tool_id],
            ),
            context,
            calls.subrange(1, calls.len() as int),
            message,
            events,
        ) {
            Err(error) => Err(error),
            Ok((state, output)) => Ok(
                (
                    state,
                    AgentFsmOutputAbs {
                        events: output.events.push(AgentEventDataAbs::UsageUpdated { usage }),
                        ..output
                    },
                ),
            ),
        }
    }
}

/// The run fails because a limit is exceeded.
pub open spec fn limit_step(
    state: AgentFsmStateAbs,
    usage: AgentRunUsage,
    context: Seq<Seq<char>>,
    ordinal: u32,
    message: Option<AgentMessageAbs>,
    events: Seq<AgentEventDataAbs>,
) -> RunStep {
    Ok(
        (
            AgentFsmStateAbs {
                status: AgentRunStatus::Failed,
                checkpoint: AgentCheckpointAbs::Ready { context, next_operation_ordinal: ordinal },
                usage,
            },
            AgentFsmOutputAbs {
                operation: None,
                message,
                events: events.push(
                    status_event(
                        state.status,
                        AgentRunStatus::Failed,
                        Some(AgentRunFailureKind::LimitsExceeded),
                    ),
                ).push(AgentEventDataAbs::UsageUpdated { usage }),
            },
        ),
    )
}

/// The model wants calls.
pub open spec fn wanting_step(
    machine: AgentFsmAbs,
    state: AgentFsmStateAbs,
    usage: AgentRunUsage,
    context: Seq<Seq<char>>,
    ordinal: u32,
    key: AgentOperationKeyAbs,
    result: ModelGenerationResultAbs,
    message_id: Option<Seq<char>>,
) -> RunStep {
    let calls = wanted_calls(result.output);
    if !(result.finish_reason is ToolCall) || calls.len() == 0 {
        Err(AgentFsmError::InvalidModelResult)
    } else if spoken(result.output) is Some && message_id is None {
        Err(AgentFsmError::MissingMessageId)
    } else if spoken(result.output) is None && message_id is Some {
        Err(AgentFsmError::UnexpectedMessageId)
    } else {
        let message = match (spoken(result.output), message_id) {
            (Some(content), Some(id)) => Some(
                operation_message(
                    machine,
                    id,
                    key,
                    MessageRole::Assistant,
                    assistant_visibility(machine),
                    content,
                ),
            ),
            _ => None,
        };
        let events = match message {
            Some(message) => seq![appended_event(message)],
            None => Seq::empty(),
        };
        let context = match message_id {
            Some(id) => context.push(id),
            None => context,
        };
        if over_model_limits(machine.limits, usage) || state.usage.tool_calls
            >= machine.limits.tool_calls {
            limit_step(state, usage, context, ordinal, message, events)
        } else {
            call_step(machine, state.status, usage, context, ordinal, calls, message, events)
        }
    }
}

/// The model has generated something.
pub open spec fn generated_step(
    machine: AgentFsmAbs,
    state: AgentFsmStateAbs,
    context: Seq<Seq<char>>,
    ordinal: u32,
    key: AgentOperationKeyAbs,
    result: ModelGenerationResultAbs,
    message_id: Option<Seq<char>>,
) -> RunStep {
    match generation_usage(state.usage, result) {
        None => Err(AgentFsmError::LimitExceeded),
        Some(usage) => match result.output {
            ModelGenerationOutputAbs::Assistant(content) => answer_step(
                machine,
                state,
                usage,
                context,
                ordinal,
                key,
                result.finish_reason,
                content,
                message_id,
            ),
            _ => wanting_step(
                machine,
                state,
                usage,
                context,
                ordinal,
                key,
                result,
                message_id,
            ),
        },
    }
}

/// A tool has answered.
pub open spec fn tool_step(
    machine: AgentFsmAbs,
    state: AgentFsmStateAbs,
    context: Seq<Seq<char>>,
    ordinal: u32,
    pending: Seq<ToolCallAbs>,
    key: AgentOperationKeyAbs,
    result: ToolResultAbs,
    message_id: Option<Seq<char>>,
) -> RunStep {
    match message_id {
        None => Err(AgentFsmError::MissingMessageId),
        Some(id) => if state.usage.tool_calls == u64::MAX {
            Err(AgentFsmError::LimitExceeded)
        } else {
            let usage = AgentRunUsage {
                tool_calls: (state.usage.tool_calls + 1) as u64,
                ..state.usage
            };
            let message = operation_message(
                machine,
                id,
                key,
                MessageRole::Tool,
                MessageVisibility::Internal,
                result.content,
            );
            let events = seq![appended_event(message)];
            let context = context.push(id);
            if usage.tool_calls > machine.limits.tool_calls {
                limit_step(state, usage, context, ordinal, Some(message), events)
            } else if pending.len() > 0 {
                call_step(
                    machine,
                    state.status,
                    usage,
                    context,
                    ordinal,
                    pending,
                    Some(message),
                    events,
                )
            } else {
                Ok(
                    (
                        AgentFsmStateAbs {
                            checkpoint: AgentCheckpointAbs::Ready {
                                context,
                                next_operation_ordinal: ordinal,
                            },
                            usage,
                            ..state
                        },
                        AgentFsmOutputAbs {
                            operation: None,
                            message: Some(message),
                            events: events.push(AgentEventDataAbs::UsageUpdated { usage }),
                        },
                    ),
                )
            }
        },
    }
}

/// What an operation that is over means for its run.
pub open spec fn finished_step(
    machine: AgentFsmAbs,
    state: AgentFsmStateAbs,
    operation: AgentOperationAbs,
    message_id: Option<Seq<char>>,
) -> RunStep {
    match state.checkpoint {
        AgentCheckpointAbs::Ready { .. } => Err(AgentFsmError::NotReady),
        AgentCheckpointAbs::Waiting {
            operation: expected,
            context,
            next_operation_ordinal: ordinal,
            pending_tool_calls: pending,
        } => if operation.key != expected {
            Err(AgentFsmError::OperationMismatch)
        } else if !(operation.state is Succeeded) {
            unsuccessful_step(machine, state, context, ordinal, operation, message_id)
        } else {
            match operation.result {
                None => Err(AgentFsmError::OperationNotSucceeded),
                Some(AgentOperationResultAbs::Compaction(result)) => compacted_step(
                    machine,
                    state,
                    context,
                    ordinal,
                    operation,
                    result,
                    message_id,
                ),
                Some(AgentOperationResultAbs::ModelGeneration(result)) => generated_step(
                    machine,
                    state,
                    context,
                    ordinal,
                    operation.key,
                    result,
                    message_id,
                ),
                Some(AgentOperationResultAbs::Tool(result)) => tool_step(
                    machine,
                    state,
                    context,
                    ordinal,
                    pending,
                    operation.key,
                    result,
                    message_id,
                ),
            }
        },
    }
}

/// Where an input takes a run, and what follows from it.
pub open spec fn run_step(
    machine: AgentFsmAbs,
    state: AgentFsmStateAbs,
    input: AgentFsmInputAbs,
) -> RunStep {
    if state.status.is_over() {
        Err(AgentFsmError::Terminal)
    } else {
        match input {
            AgentFsmInputAbs::Cancel => stop_step(state, AgentRunStatus::Cancelled, None),
            AgentFsmInputAbs::DeadlineReached => stop_step(
                state,
                AgentRunStatus::Failed,
                Some(AgentRunFailureKind::Deadline),
            ),
            AgentFsmInputAbs::Drive => drive_step(machine, state),
            AgentFsmInputAbs::OperationFinished { operation, message_id } => finished_step(
                machine,
                state,
                operation,
                message_id,
            ),
        }
    }
}

/// The same message identities once more, with another one behind them.
fn extended(context: &Vec<MessageId>, id: &MessageId) -> (r: Vec<MessageId>)
    ensures
        contents(r@) == contents(context@).push(id@),
{
    broadcast use contents_push;

    let mut out: Vec<MessageId> = context.duplicate();
    out.push(id.duplicate());
    out
}

impl AgentFsm {
    pub closed spec fn view(&self) -> AgentFsmAbs {
        AgentFsmAbs {
            run_id: self.run_id@,
            conversation_id: self.conversation_id.abs(),
            limits: self.limits,
            generation_max_output_tokens: self.generation_max_output_tokens,
            tools: tool_classes(
                Seq::new(self.tools@.len(), |i: int| (self.tools@[i].0@, self.tools@[i].1)),
            ),
        }
    }

    pub fn new(
        run_id: AgentRunId,
        conversation_id: Option<ConversationId>,
        limits: AgentRunLimits,
        generation_max_output_tokens: u64,
        tools: &[AdmittedTool],
    ) -> (r: AgentFsm)
        ensures
            r@ == (AgentFsmAbs {
                run_id: run_id@,
                conversation_id: conversation_id.abs(),
                limits,
                generation_max_output_tokens,
                tools: tool_classes(admitted_classes(tools@)),
            }),
    {
        let mut classes: Vec<(ToolId, DeliveryClass)> = Vec::new();
        let mut i: usize = 0;
        while i < tools.len()
            invariant
                i <= tools@.len(),
                classes@.len() == i,
                forall|k: int|
                    0 <= k < i ==> (#[trigger] classes@[k]).0@ == tools@[k].definition.id@
                        && classes@[k].1 == tools@[k].definition.delivery,
            decreases tools@.len() - i,
        {
            classes.push((tools[i].definition.id.duplicate(), tools[i].definition.delivery));
            i += 1;
        }
        let r = AgentFsm {
            run_id,
            conversation_id,
            limits,
            generation_max_output_tokens,
            tools: classes,
        };
        assert(Seq::new(classes@.len(), |i: int| (classes@[i].0@, classes@[i].1))
            =~= admitted_classes(tools@));
        r
    }

    /// The delivery class of a tool.
    fn delivery_of(&self, tool_id: &ToolId) -> (r: Option<DeliveryClass>)
        ensures
            match r {
                Some(delivery) => self@.tools.contains_key(tool_id@) && self@.tools[tool_id@]
                    == delivery,
                None => !self@.tools.contains_key(tool_id@),
            },
    {
        let ghost all = Seq::new(
            self.tools@.len(),
            |i: int| (self.tools@[i].0@, self.tools@[i].1),
        );
        let mut found: Option<DeliveryClass> = None;
        let mut i: usize = 0;
        assert(all.take(0) =~= Seq::<(Seq<char>, DeliveryClass)>::empty());
        while i < self.tools.len()
            invariant
                i <= self.tools@.len(),
                all == Seq::new(
                    self.tools@.len(),
                    |i: int| (self.tools@[i].0@, self.tools@[i].1),
                ),
                match found {
                    Some(delivery) => tool_classes(all.take(i as int)).contains_key(tool_id@)
                        && tool_classes(all.take(i as int))[tool_id@] == delivery,
                    None => !tool_classes(all.take(i as int)).contains_key(tool_id@),
                },
            decreases self.tools@.len() - i,
        {
            assert(all.take(i + 1).drop_last() =~= all.take(i as int));
            assert(all.take(i + 1).last() == all[i as int]);
            if self.tools[i].0.same(tool_id) {
                found = Some(self.tools[i].1);
            }
            i += 1;
        }
        assert(all.take(i as int) =~= all);
        found
    }

    fn operation(
        &self,
        ordinal: NonZeroU32,
        request: AgentOperationRequest,
        delivery: DeliveryClass,
    ) -> (r: AgentOperation)
        ensures
            r.abs() == new_operation(self@, ordinal@, request.abs(), delivery),
            r.key.ordinal == ordinal,
    {
        AgentOperation {
            key: AgentOperationKey { run_id: self.run_id, ordinal },
            request,
            delivery,
            delivery_attempt: NonZeroU32::min(),
            state: AgentOperationDeliveryState::Pending,
            result: None,
            failure: None,
            revision: 0,
        }
    }

    /// Lets the run wait for a new operation.
    fn await_operation(
        status: AgentRunStatus,
        usage: AgentRunUsage,
        operation: AgentOperation,
        context: Vec<MessageId>,
        pending_tool_calls: Vec<ToolCall>,
        message: Option<AgentMessage>,
        events: Vec<AgentEventData>,
    ) -> (r: Result<Transition<AgentFsmState, AgentFsmOutput>, AgentFsmError>)
        ensures
            step_of(r) == waiting_for(
                status,
                usage,
                operation.abs(),
                contents(context@),
                contents(pending_tool_calls@),
                message.abs(),
                contents(events@),
            ),
    {
        broadcast use contents_push;

        let next_operation_ordinal: NonZeroU32 = match checked_next(operation.key.ordinal) {
            Some(ordinal) => ordinal,
            None => {
                return Err(AgentFsmError::OrdinalOverflow);
            },
        };
        let tool_id: Option<ToolId> = match &operation.request {
            AgentOperationRequest::Tool(request) => Some(request.tool_id.duplicate()),
            _ => None,
        };
        let mut events: Vec<AgentEventData> = events;
        let event: AgentEventData = AgentEventData::OperationCreated {
            key: operation.key,
            kind: operation.kind(),
            tool_id,
            delivery: operation.delivery,
        };
        assert(event.abs() == created_event(operation.abs()));
        events.push(event);
        Ok(
            Transition {
                state: AgentFsmState {
                    status,
                    checkpoint: AgentCheckpoint::Waiting {
                        operation: operation.key,
                        context,
                        next_operation_ordinal,
                        pending_tool_calls,
                    },
                    usage,
                },
                output: AgentFsmOutput { operation: Some(operation), message, events },
            },
        )
    }

    fn queue_compaction(
        &self,
        status: AgentRunStatus,
        usage: AgentRunUsage,
        ordinal: NonZeroU32,
        request: CompactionRequest,
        events: Vec<AgentEventData>,
    ) -> (r: Result<Transition<AgentFsmState, AgentFsmOutput>, AgentFsmError>)
        ensures
            step_of(r) == queued(
                self@,
                status,
                usage,
                ordinal@,
                request.abs(),
                contents(events@),
            ),
    {
        broadcast use contents_empty;

        let context: Vec<MessageId> = request.context.duplicate();
        let operation: AgentOperation = self.operation(
            ordinal,
            AgentOperationRequest::Compaction(request),
            DeliveryClass::Retryable,
        );
        AgentFsm::await_operation(status, usage, operation, context, Vec::new(), None, events)
    }

    fn account_model(usage: &AgentRunUsage, tokens: Option<ModelUsage>) -> (r: Option<
        AgentRunUsage,
    >)
        ensures
            r == with_model_call(*usage, tokens),
    {
        let (input, output): (u64, u64) = match tokens {
            Some(tokens) => (tokens.input_tokens, tokens.output_tokens),
            None => (0, 0),
        };
        match (
            usage.model_calls.checked_add(1),
            usage.model_input_tokens.checked_add(input),
            usage.model_output_tokens.checked_add(output),
        ) {
            (Some(model_calls), Some(model_input_tokens), Some(model_output_tokens)) => Some(
                AgentRunUsage {
                    model_input_tokens,
                    model_output_tokens,
                    model_calls,
                    correction_input_tokens: usage.correction_input_tokens,
                    correction_output_tokens: usage.correction_output_tokens,
                    correction_calls: usage.correction_calls,
                    tool_calls: usage.tool_calls,
                },
            ),
            _ => None,
        }
    }

    fn account_corrections(
        usage: &AgentRunUsage,
        calls: u64,
        input_tokens: u64,
        output_tokens: u64,
    ) -> (r: Option<AgentRunUsage>)
        ensures
            r == with_corrections(*usage, calls, input_tokens, output_tokens),
    {
        match (
            usage.correction_calls.checked_add(calls),
            usage.correction_input_tokens.checked_add(input_tokens),
            usage.correction_output_tokens.checked_add(output_tokens),
        ) {
            (Some(correction_calls), Some(correction_input_tokens), Some(
                correction_output_tokens,
            )) => Some(
                AgentRunUsage {
                    model_input_tokens: usage.model_input_tokens,
                    model_output_tokens: usage.model_output_tokens,
                    model_calls: usage.model_calls,
                    correction_input_tokens,
                    correction_output_tokens,
                    correction_calls,
                    tool_calls: usage.tool_calls,
                },
            ),
            _ => None,
        }
    }

    fn model_budget_available(&self, usage: &AgentRunUsage) -> (b: bool)
        ensures
            b == model_budget_left(self@.limits, *usage),
    {
        let input: bool = match self.limits.model_input_tokens {
            Some(limit) => usage.model_input_tokens < limit,
            None => true,
        };
        usage.model_calls < self.limits.model_calls && input && usage.model_output_tokens
            < self.limits.model_output_tokens
    }

    fn limits_exceeded(&self, usage: &AgentRunUsage) -> (b: bool)
        ensures
            b == over_model_limits(self@.limits, *usage),
    {
        let input: bool = match self.limits.model_input_tokens {
            Some(limit) => usage.model_input_tokens > limit,
            None => false,
        };
        usage.model_calls > self.limits.model_calls || input || usage.model_output_tokens
            > self.limits.model_output_tokens || usage.correction_calls
            > self.limits.correction_calls || usage.correction_input_tokens
            > self.limits.correction_input_tokens || usage.correction_output_tokens
            > self.limits.correction_output_tokens
    }

    fn visibility(&self) -> (r: MessageVisibility)
        ensures
            r == assistant_visibility(self@),
    {
        if self.conversation_id.is_some() {
            MessageVisibility::Conversation
        } else {
            MessageVisibility::Internal
        }
    }

    fn message(
        &self,
        id: &MessageId,
        key: AgentOperationKey,
        role: MessageRole,
        visibility: MessageVisibility,
        content: Content,
    ) -> (r: AgentMessage)
        ensures
            r.abs() == operation_message(self@, id@, key.abs(), role, visibility, content@),
    {
        AgentMessage {
            id: id.duplicate(),
            conversation_id: self.conversation_id,
            run_id: Some(self.run_id),
            source_operation: Some(key),
            role,
            visibility,
            content,
        }
    }

    /// The events that begin with a message.
    fn told(message: &AgentMessage) -> (r: Vec<AgentEventData>)
        ensures
            contents(r@) == seq![appended_event(message.abs())],
    {
        let event: AgentEventData = AgentEventData::MessageAppended {
            message_id: message.id.duplicate(),
            role: message.role,
            visibility: message.visibility,
        };
        assert(event.abs() == appended_event(message.abs()));
        let events: Vec<AgentEventData> = vec![event];
        assert(contents(events@) =~= seq![appended_event(message.abs())]);
        events
    }

    fn stop(
        state: &AgentFsmState,
        to: AgentRunStatus,
        failure_kind: Option<AgentRunFailureKind>,
    ) -> (r: Result<Transition<AgentFsmState, AgentFsmOutput>, AgentFsmError>)
        ensures
            step_of(r) == stop_step(state.abs(), to, failure_kind),
    {
        if let AgentCheckpoint::Waiting { .. } = &state.checkpoint {
            return Err(AgentFsmError::NotReady);
        }
        let events: Vec<AgentEventData> = vec![
            AgentEventData::RunStatusChanged { from: state.status, to, failure_kind },
        ];
        proof {
            assert(events@[0].abs() == status_event(state.status, to, failure_kind)) by {
                assert(failure_kind.abs() == failure_kind);
            }
            assert(contents(events@) =~= seq![status_event(state.status, to, failure_kind)]);
        }
        Ok(
            Transition {
                state: AgentFsmState {
                    status: to,
                    checkpoint: state.checkpoint.duplicate(),
                    usage: state.usage,
                },
                output: AgentFsmOutput { operation: None, message: None, events },
            },
        )
    }

    fn drive(&self, state: &AgentFsmState) -> (r: Result<
        Transition<AgentFsmState, AgentFsmOutput>,
        AgentFsmError,
    >)
        requires
            !state.status.is_over(),
        ensures
            step_of(r) == drive_step(self@, state.abs()),
    {
        broadcast use {contents_empty, contents_push};

        match &state.checkpoint {
            AgentCheckpoint::Waiting { .. } => Err(AgentFsmError::NotReady),
            AgentCheckpoint::Ready { context, next_operation_ordinal } => {
                if !self.model_budget_available(&state.usage) {
                    return AgentFsm::stop(
                        state,
                        AgentRunStatus::Failed,
                        Some(AgentRunFailureKind::LimitsExceeded),
                    );
                }
                let left: u64 = self.limits.model_output_tokens - state.usage.model_output_tokens;
                let operation: AgentOperation = self.operation(
                    *next_operation_ordinal,
                    AgentOperationRequest::ModelGeneration(
                        ModelGenerationRequest {
                            context: context.duplicate(),
                            max_output_tokens: if left <= self.generation_max_output_tokens {
                                left
                            } else {
                                self.generation_max_output_tokens
                            },
                        },
                    ),
                    DeliveryClass::Retryable,
                );
                let mut events: Vec<AgentEventData> = Vec::new();
                if state.status != AgentRunStatus::Running {
                    let event: AgentEventData = AgentEventData::RunStatusChanged {
                        from: state.status,
                        to: AgentRunStatus::Running,
                        failure_kind: None,
                    };
                    events.push(event);
                    assert(contents(events@) =~= seq![event.abs()]);
                }
                AgentFsm::await_operation(
                    AgentRunStatus::Running,
                    state.usage,
                    operation,
                    context.duplicate(),
                    Vec::new(),
                    None,
                    events,
                )
            },
        }
    }

    fn correct(
        &self,
        state: &AgentFsmState,
        context: &Vec<MessageId>,
        ordinal: NonZeroU32,
        key: AgentOperationKey,
        kind: &AgentOperationFailureKind,
        message_id: Option<MessageId>,
    ) -> (r: Result<Transition<AgentFsmState, AgentFsmOutput>, AgentFsmError>)
        ensures
            step_of(r) == correction_step(
                self@,
                state.abs(),
                contents(context@),
                ordinal@,
                key.abs(),
                kind.abs(),
                message_id.abs(),
            ),
    {
        broadcast use contents_push;

        let id: MessageId = match message_id {
            Some(id) => id,
            None => {
                return Err(AgentFsmError::MissingMessageId);
            },
        };
        let primary: Option<ModelUsage> = match kind {
            AgentOperationFailureKind::InvalidModelOutput { usage } => Some(*usage),
            AgentOperationFailureKind::CorrectionFailed { primary_usage, .. } => Some(
                *primary_usage,
            ),
            _ => None,
        };
        let called: AgentRunUsage = match AgentFsm::account_model(&state.usage, primary) {
            Some(usage) => usage,
            None => {
                return Err(AgentFsmError::LimitExceeded);
            },
        };
        let usage: AgentRunUsage = match kind {
            AgentOperationFailureKind::CorrectionFailed {
                calls,
                input_tokens,
                output_tokens,
                ..
            } => match AgentFsm::account_corrections(
                &called,
                *calls,
                *input_tokens,
                *output_tokens,
            ) {
                Some(usage) => usage,
                None => {
                    return Err(AgentFsmError::LimitExceeded);
                },
            },
            _ => called,
        };
        let content: Content = match Content::text(INVALID_MODEL_OUTPUT_CORRECTION) {
            Ok(content) => content,
            Err(_) => {
                proof {
                    lemma_correction_is_content();
                }
                return Err(AgentFsmError::InvalidModelResult);
            },
        };
        let message: AgentMessage = self.message(
            &id,
            key,
            MessageRole::Assistant,
            MessageVisibility::Internal,
            content,
        );
        let mut events: Vec<AgentEventData> = AgentFsm::told(&message);
        let over: bool = usage.model_calls >= self.limits.model_calls;
        if over {
            events.push(
                AgentEventData::RunStatusChanged {
                    from: state.status,
                    to: AgentRunStatus::Failed,
                    failure_kind: Some(AgentRunFailureKind::LimitsExceeded),
                },
            );
        }
        events.push(AgentEventData::UsageUpdated { usage });
        Ok(
            Transition {
                state: AgentFsmState {
                    status: if over {
                        AgentRunStatus::Failed
                    } else {
                        state.status
                    },
                    checkpoint: AgentCheckpoint::Ready {
                        context: extended(context, &id),
                        next_operation_ordinal: ordinal,
                    },
                    usage,
                },
                output: AgentFsmOutput { operation: None, message: Some(message), events },
            },
        )
    }

    fn end(
        state: &AgentFsmState,
        usage: AgentRunUsage,
        operation: &AgentOperation,
        events: Vec<AgentEventData>,
    ) -> (r: Result<Transition<AgentFsmState, AgentFsmOutput>, AgentFsmError>)
        ensures
            step_of(r) == end_step(state.abs(), usage, operation.abs(), contents(events@)),
    {
        broadcast use contents_push;

        if !operation.state.is_terminal() {
            return Err(AgentFsmError::OperationNotSucceeded);
        }
        let (to, failure_kind): (AgentRunStatus, Option<AgentRunFailureKind>) =
            if operation.state == AgentOperationDeliveryState::Cancelled {
            (AgentRunStatus::Cancelled, None)
        } else {
            let kind: AgentRunFailureKind = match &operation.failure {
                Some(failure) => match &failure.kind {
                    AgentOperationFailureKind::Deadline => AgentRunFailureKind::Deadline,
                    AgentOperationFailureKind::ToolLoopDetected =>
                        AgentRunFailureKind::ToolLoopDetected,
                    _ => AgentRunFailureKind::Operation,
                },
                None => AgentRunFailureKind::Operation,
            };
            (AgentRunStatus::Failed, Some(kind))
        };
        let mut events: Vec<AgentEventData> = events;
        events.push(AgentEventData::RunStatusChanged { from: state.status, to, failure_kind });
        Ok(
            Transition {
                state: AgentFsmState {
                    status: to,
                    checkpoint: state.checkpoint.duplicate(),
                    usage,
                },
                output: AgentFsmOutput { operation: None, message: None, events },
            },
        )
    }

    fn retry_compaction(
        &self,
        state: &AgentFsmState,
        ordinal: NonZeroU32,
        operation: &AgentOperation,
        request: &CompactionRequest,
        called: bool,
        tokens: Option<ModelUsage>,
        correctable: bool,
    ) -> (r: Result<Transition<AgentFsmState, AgentFsmOutput>, AgentFsmError>)
        ensures
            step_of(r) == failed_compaction_step(
                self@,
                state.abs(),
                ordinal@,
                operation.abs(),
                request.abs(),
                called,
                tokens,
                correctable,
            ),
    {
        broadcast use {contents_empty, contents_push};

        let mut events: Vec<AgentEventData> = Vec::new();
        let mut usage: AgentRunUsage = state.usage;
        if called {
            usage = match AgentFsm::account_model(&state.usage, tokens) {
                Some(usage) => usage,
                None => {
                    return Err(AgentFsmError::LimitExceeded);
                },
            };
            events.push(AgentEventData::UsageUpdated { usage });
            assert(contents(events@) =~= seq![AgentEventDataAbs::UsageUpdated { usage }]);
        }
        if request.correction_of.is_none() && self.model_budget_available(&usage) && correctable {
            let mut correction: CompactionRequest = request.duplicate();
            correction.correction_of = Some(operation.key);
            return self.queue_compaction(state.status, usage, ordinal, correction, events);
        }
        AgentFsm::end(state, usage, operation, events)
    }

    fn unsuccessful(
        &self,
        state: &AgentFsmState,
        context: &Vec<MessageId>,
        ordinal: NonZeroU32,
        operation: &AgentOperation,
        message_id: Option<MessageId>,
    ) -> (r: Result<Transition<AgentFsmState, AgentFsmOutput>, AgentFsmError>)
        ensures
            step_of(r) == unsuccessful_step(
                self@,
                state.abs(),
                contents(context@),
                ordinal@,
                operation.abs(),
                message_id.abs(),
            ),
    {
        broadcast use contents_empty;

        match (&operation.request, &operation.failure) {
            (AgentOperationRequest::ModelGeneration(_), Some(failure)) => match &failure.kind {
                AgentOperationFailureKind::CompactionRequired(before) => {
                    if !before.needs_compaction() || message_id.is_some() {
                        return Err(AgentFsmError::InvalidModelResult);
                    }
                    self.queue_compaction(
                        state.status,
                        state.usage,
                        ordinal,
                        CompactionRequest {
                            context: context.duplicate(),
                            before: *before,
                            correction_of: None,
                        },
                        Vec::new(),
                    )
                },
                AgentOperationFailureKind::InvalidResult
                | AgentOperationFailureKind::InvalidModelOutput { .. }
                | AgentOperationFailureKind::CorrectionFailed { .. } => self.correct(
                    state,
                    context,
                    ordinal,
                    operation.key,
                    &failure.kind,
                    message_id,
                ),
                _ => AgentFsm::end(state, state.usage, operation, Vec::new()),
            },
            (AgentOperationRequest::Compaction(request), Some(failure)) => match &failure.kind {
                AgentOperationFailureKind::ContextExhausted(exhaustion) => {
                    match &exhaustion.compaction {
                        Some(failed) => {
                            let correctable: bool = match failed.stage {
                                CompactionFailureStage::SemanticOutput => true,
                                CompactionFailureStage::RebuiltInput => true,
                                _ => false,
                            };
                            self.retry_compaction(
                                state,
                                ordinal,
                                operation,
                                request,
                                failed.model_called,
                                failed.usage,
                                correctable,
                            )
                        },
                        None => AgentFsm::end(state, state.usage, operation, Vec::new()),
                    }
                },
                AgentOperationFailureKind::InvalidCompactionOutput { usage } => {
                    self.retry_compaction(
                        state,
                        ordinal,
                        operation,
                        request,
                        true,
                        Some(*usage),
                        true,
                    )
                },
                _ => AgentFsm::end(state, state.usage, operation, Vec::new()),
            },
            _ => AgentFsm::end(state, state.usage, operation, Vec::new()),
        }
    }

    fn compacted(
        &self,
        state: &AgentFsmState,
        context: &Vec<MessageId>,
        ordinal: NonZeroU32,
        operation: &AgentOperation,
        result: &CompactionResult,
        message_id: Option<MessageId>,
    ) -> (r: Result<Transition<AgentFsmState, AgentFsmOutput>, AgentFsmError>)
        ensures
            step_of(r) == compacted_step(
                self@,
                state.abs(),
                contents(context@),
                ordinal@,
                operation.abs(),
                result.abs(),
                message_id.abs(),
            ),
    {
        broadcast use contents_push;

        let request: &CompactionRequest = match &operation.request {
            AgentOperationRequest::Compaction(request) => request,
            _ => {
                return Err(AgentFsmError::InvalidModelResult);
            },
        };
        let metadata: &CompactionMetadata = &result.metadata;
        let budgets: CompactionBudgets = match CompactionBudgets::new(
            request.before.context_capacity_tokens,
            request.before.reserved_output_tokens,
            false,
        ) {
            Some(budgets) => budgets,
            None => {
                return Err(AgentFsmError::InvalidModelResult);
            },
        };
        if !self.consistent(context, &operation.key, request, &budgets, result) {
            return Err(AgentFsmError::InvalidModelResult);
        }
        let id: MessageId = match message_id {
            Some(id) => id,
            None => {
                return Err(AgentFsmError::MissingMessageId);
            },
        };
        let usage: AgentRunUsage = match AgentFsm::account_model(
            &state.usage,
            Some(metadata.usage),
        ) {
            Some(usage) => usage,
            None => {
                return Err(AgentFsmError::LimitExceeded);
            },
        };
        let content: Content = match result.content.render() {
            Ok(content) => content,
            Err(_) => {
                return Err(AgentFsmError::InvalidModelResult);
            },
        };
        let message: AgentMessage = self.message(
            &id,
            operation.key,
            MessageRole::Assistant,
            MessageVisibility::Internal,
            content,
        );
        let mut events: Vec<AgentEventData> = AgentFsm::told(&message);
        events.push(AgentEventData::UsageUpdated { usage });
        let mut rebuilt: Vec<MessageId> = extended(&metadata.retained_checkpoints, &id);
        let mut tail: Vec<MessageId> = metadata.tail.duplicate();
        proof {
            contents_add(rebuilt@, tail@);
        }
        rebuilt.append(&mut tail);
        Ok(
            Transition {
                state: AgentFsmState {
                    status: state.status,
                    checkpoint: AgentCheckpoint::Ready {
                        context: rebuilt,
                        next_operation_ordinal: ordinal,
                    },
                    usage,
                },
                output: AgentFsmOutput { operation: None, message: Some(message), events },
            },
        )
    }

    fn retained(metadata: &CompactionMetadata) -> (b: bool)
        ensures
            b == are_retained(metadata.abs()),
    {
        let ghost abs = metadata.abs();
        let ghost kept = abs.retained_checkpoints;
        if metadata.retained_checkpoints.len() > 9 {
            return false;
        }
        let mut i: usize = 0;
        while i < metadata.retained_checkpoints.len()
            invariant
                i <= metadata.retained_checkpoints@.len() <= 9,
                abs == metadata.abs(),
                kept == abs.retained_checkpoints,
                forall|k: int|
                    0 <= k < i ==> abs.source.contains(#[trigger] kept[k]) && !abs.tail.contains(
                        kept[k],
                    ),
                forall|k: int| 0 <= k < i - 1 ==> precedes(#[trigger] kept[k], kept[k + 1]),
            decreases metadata.retained_checkpoints@.len() - i,
        {
            let id: &MessageId = &metadata.retained_checkpoints[i];
            assert(kept[i as int] == id@);
            if !contains_value(&metadata.source, id) || contains_value(&metadata.tail, id) {
                return false;
            }
            if i > 0 {
                assert(kept[i - 1] == metadata.retained_checkpoints@[i - 1]@);
                if !text_before(metadata.retained_checkpoints[i - 1].as_str(), id.as_str()) {
                    assert(!precedes(kept[i - 1], kept[i - 1 + 1]));
                    return false;
                }
            }
            i += 1;
        }
        true
    }

    fn consistent(
        &self,
        context: &Vec<MessageId>,
        key: &AgentOperationKey,
        request: &CompactionRequest,
        budgets: &CompactionBudgets,
        result: &CompactionResult,
    ) -> (b: bool)
        ensures
            b == is_consistent(
                self@,
                contents(context@),
                key.abs(),
                request.abs(),
                *budgets,
                result.abs(),
            ),
    {
        let metadata: &CompactionMetadata = &result.metadata;
        let ghost abs = metadata.abs();
        let mut reconstructed: Vec<MessageId> = metadata.source.duplicate();
        let mut tail: Vec<MessageId> = metadata.tail.duplicate();
        proof {
            contents_add(reconstructed@, tail@);
        }
        reconstructed.append(&mut tail);
        if !reconstructed.same(context) || metadata.source.len() == 0 || !AgentFsm::retained(
            metadata,
        ) {
            return false;
        }
        let count: usize = metadata.source.len();
        assert(abs.source.first() == metadata.source@[0]@);
        assert(abs.source.last() == metadata.source@[count - 1]@);
        if !metadata.source[0].same(&metadata.source_start) || !metadata.source[count - 1].same(
            &metadata.source_end,
        ) {
            return false;
        }
        let first: Option<MessageId> = if metadata.tail.len() > 0 {
            assert(abs.tail.first() == metadata.tail@[0]@);
            Some(metadata.tail[0].duplicate())
        } else {
            None
        };
        if !metadata.tail_first.same(&first) || !metadata.summary_operation.same(key)
            || !metadata.correction_of.same(&request.correction_of) {
            return false;
        }
        let capacity: u32 = request.before.context_capacity_tokens;
        metadata.before == request.before && metadata.after == ContextCapacity::new(
            metadata.after.prompt_tokens,
            request.before.reserved_output_tokens,
            capacity,
        ) && metadata.summary_request == ContextCapacity::new(
            metadata.summary_request.prompt_tokens,
            budgets.summary_output_tokens,
            capacity,
        ) && metadata.summary_request.fits() && metadata.usage.output_tokens
            <= budgets.summary_output_tokens && result.content.exact.snapshot_run.same(
            &self.run_id,
        ) && metadata.tail_tokens <= budgets.recent_tail_limit && metadata.after.fits()
            && metadata.after.prompt_tokens <= budgets.rebuilt_input_target
            && result.content.semantic.validate(&metadata.source).is_ok()
    }

    fn answer(
        &self,
        state: &AgentFsmState,
        usage: AgentRunUsage,
        context: &Vec<MessageId>,
        ordinal: NonZeroU32,
        key: AgentOperationKey,
        finish_reason: ModelFinishReason,
        content: &Content,
        message_id: Option<MessageId>,
    ) -> (r: Result<Transition<AgentFsmState, AgentFsmOutput>, AgentFsmError>)
        ensures
            step_of(r) == answer_step(
                self@,
                state.abs(),
                usage,
                contents(context@),
                ordinal@,
                key.abs(),
                finish_reason,
                content@,
                message_id.abs(),
            ),
    {
        broadcast use contents_push;

        if finish_reason == ModelFinishReason::ToolCall {
            return Err(AgentFsmError::InvalidModelResult);
        }
        let id: MessageId = match message_id {
            Some(id) => id,
            None => {
                return Err(AgentFsmError::MissingMessageId);
            },
        };
        let message: AgentMessage = self.message(
            &id,
            key,
            MessageRole::Assistant,
            self.visibility(),
            content.duplicate(),
        );
        let mut events: Vec<AgentEventData> = AgentFsm::told(&message);
        let mut status: AgentRunStatus = state.status;
        if self.limits_exceeded(&usage) {
            status = AgentRunStatus::Failed;
            events.push(
                AgentEventData::RunStatusChanged {
                    from: state.status,
                    to: AgentRunStatus::Failed,
                    failure_kind: Some(AgentRunFailureKind::LimitsExceeded),
                },
            );
        } else if finish_reason == ModelFinishReason::Stop {
            status = AgentRunStatus::Completed;
            events.push(
                AgentEventData::RunStatusChanged {
                    from: state.status,
                    to: AgentRunStatus::Completed,
                    failure_kind: None,
                },
            );
        }
        events.push(AgentEventData::UsageUpdated { usage });
        Ok(
            Transition {
                state: AgentFsmState {
                    status,
                    checkpoint: AgentCheckpoint::Ready {
                        context: extended(context, &id),
                        next_operation_ordinal: ordinal,
                    },
                    usage,
                },
                output: AgentFsmOutput { operation: None, message: Some(message), events },
            },
        )
    }

    fn call_tool(
        &self,
        status: AgentRunStatus,
        usage: AgentRunUsage,
        context: Vec<MessageId>,
        ordinal: NonZeroU32,
        calls: &Vec<ToolCall>,
        message: Option<AgentMessage>,
        events: Vec<AgentEventData>,
    ) -> (r: Result<Transition<AgentFsmState, AgentFsmOutput>, AgentFsmError>)
        requires
            calls@.len() > 0,
        ensures
            step_of(r) == call_step(
                self@,
                status,
                usage,
                contents(context@),
                ordinal@,
                contents(calls@),
                message.abs(),
                contents(events@),
            ),
    {
        broadcast use contents_push;

        let mut pending: Vec<ToolCall> = calls.duplicate();
        let rest: Vec<ToolCall> = pending.split_off(1);
        proof {
            let copy = contents(calls@);
            assert(contents(pending@) =~= copy.subrange(0, 1));
            assert(contents(rest@) =~= copy.subrange(1, copy.len() as int));
            assert(copy[0] == calls@[0].abs());
        }
        let input: Json = match CanonicalJson::new(calls[0].input.duplicate()) {
            Ok(input) => input.into_value(),
            Err(_) => {
                return Err(AgentFsmError::InvalidModelResult);
            },
        };
        let delivery: DeliveryClass = match self.delivery_of(&calls[0].tool_id) {
            Some(delivery) => delivery,
            None => {
                return Err(AgentFsmError::InvalidModelResult);
            },
        };
        let operation: AgentOperation = self.operation(
            ordinal,
            AgentOperationRequest::Tool(
                ToolRequest { tool_id: calls[0].tool_id.duplicate(), input },
            ),
            delivery,
        );
        match AgentFsm::await_operation(status, usage, operation, context, rest, message, events) {
            Ok(step) => {
                let mut output: AgentFsmOutput = step.output;
                output.events.push(AgentEventData::UsageUpdated { usage });
                Ok(Transition { state: step.state, output })
            },
            Err(error) => Err(error),
        }
    }

    fn exceed(
        state: &AgentFsmState,
        usage: AgentRunUsage,
        context: Vec<MessageId>,
        ordinal: NonZeroU32,
        message: Option<AgentMessage>,
        events: Vec<AgentEventData>,
    ) -> (r: Result<Transition<AgentFsmState, AgentFsmOutput>, AgentFsmError>)
        ensures
            step_of(r) == limit_step(
                state.abs(),
                usage,
                contents(context@),
                ordinal@,
                message.abs(),
                contents(events@),
            ),
    {
        broadcast use contents_push;

        let mut events: Vec<AgentEventData> = events;
        events.push(
            AgentEventData::RunStatusChanged {
                from: state.status,
                to: AgentRunStatus::Failed,
                failure_kind: Some(AgentRunFailureKind::LimitsExceeded),
            },
        );
        events.push(AgentEventData::UsageUpdated { usage });
        Ok(
            Transition {
                state: AgentFsmState {
                    status: AgentRunStatus::Failed,
                    checkpoint: AgentCheckpoint::Ready { context, next_operation_ordinal: ordinal },
                    usage,
                },
                output: AgentFsmOutput { operation: None, message, events },
            },
        )
    }

    fn wants(output: &ModelGenerationOutput) -> (r: (Vec<ToolCall>, Option<Content>))
        ensures
            contents(r.0@) == wanted_calls(output.abs()),
            r.1.abs() == spoken(output.abs()),
    {
        match output {
            ModelGenerationOutput::Assistant(content) => {
                let none: Vec<ToolCall> = Vec::new();
                assert(contents(none@) =~= Seq::<ToolCallAbs>::empty());
                (none, Some(content.duplicate()))
            },
            ModelGenerationOutput::ToolCall(call) => {
                let calls: Vec<ToolCall> = vec![call.duplicate()];
                assert(contents(calls@) =~= seq![call.abs()]);
                (calls, None)
            },
            ModelGenerationOutput::ToolCalls(calls) => (calls.duplicate(), None),
            ModelGenerationOutput::AssistantToolCall(mixed) => {
                let calls: Vec<ToolCall> = vec![mixed.call.duplicate()];
                assert(contents(calls@) =~= seq![mixed.call.abs()]);
                (calls, Some(mixed.content.duplicate()))
            },
            ModelGenerationOutput::AssistantToolCalls { content, calls } => (
                calls.duplicate(),
                Some(content.duplicate()),
            ),
        }
    }

    fn want_calls(
        &self,
        state: &AgentFsmState,
        usage: AgentRunUsage,
        context: &Vec<MessageId>,
        ordinal: NonZeroU32,
        key: AgentOperationKey,
        result: &ModelGenerationResult,
        message_id: Option<MessageId>,
    ) -> (r: Result<Transition<AgentFsmState, AgentFsmOutput>, AgentFsmError>)
        ensures
            step_of(r) == wanting_step(
                self@,
                state.abs(),
                usage,
                contents(context@),
                ordinal@,
                key.abs(),
                result.abs(),
                message_id.abs(),
            ),
    {
        broadcast use contents_empty;

        if result.finish_reason != ModelFinishReason::ToolCall {
            return Err(AgentFsmError::InvalidModelResult);
        }
        let (calls, assistant): (Vec<ToolCall>, Option<Content>) = AgentFsm::wants(&result.output);
        assert(contents(calls@).len() == calls@.len());
        if calls.len() == 0 {
            return Err(AgentFsmError::InvalidModelResult);
        }
        let (message, events, context): (
            Option<AgentMessage>,
            Vec<AgentEventData>,
            Vec<MessageId>,
        ) = match (assistant, message_id) {
            (Some(content), Some(id)) => {
                let message: AgentMessage = self.message(
                    &id,
                    key,
                    MessageRole::Assistant,
                    self.visibility(),
                    content,
                );
                let events: Vec<AgentEventData> = AgentFsm::told(&message);
                (Some(message), events, extended(context, &id))
            },
            (Some(_), None) => {
                return Err(AgentFsmError::MissingMessageId);
            },
            (None, Some(_)) => {
                return Err(AgentFsmError::UnexpectedMessageId);
            },
            (None, None) => (None, Vec::new(), context.duplicate()),
        };
        if self.limits_exceeded(&usage) || state.usage.tool_calls >= self.limits.tool_calls {
            return AgentFsm::exceed(state, usage, context, ordinal, message, events);
        }
        self.call_tool(state.status, usage, context, ordinal, &calls, message, events)
    }

    fn generated(
        &self,
        state: &AgentFsmState,
        context: &Vec<MessageId>,
        ordinal: NonZeroU32,
        key: AgentOperationKey,
        result: &ModelGenerationResult,
        message_id: Option<MessageId>,
    ) -> (r: Result<Transition<AgentFsmState, AgentFsmOutput>, AgentFsmError>)
        ensures
            step_of(r) == generated_step(
                self@,
                state.abs(),
                contents(context@),
                ordinal@,
                key.abs(),
                result.abs(),
                message_id.abs(),
            ),
    {
        let called: AgentRunUsage = match AgentFsm::account_model(
            &state.usage,
            Some(result.usage),
        ) {
            Some(usage) => usage,
            None => {
                return Err(AgentFsmError::LimitExceeded);
            },
        };
        let usage: AgentRunUsage = match &result.correction {
            Some(correction) => match AgentFsm::account_corrections(
                &called,
                correction.attempts as u64,
                correction.usage.input_tokens,
                correction.usage.output_tokens,
            ) {
                Some(usage) => usage,
                None => {
                    return Err(AgentFsmError::LimitExceeded);
                },
            },
            None => called,
        };
        match &result.output {
            ModelGenerationOutput::Assistant(content) => self.answer(
                state,
                usage,
                context,
                ordinal,
                key,
                result.finish_reason,
                content,
                message_id,
            ),
            _ => self.want_calls(state, usage, context, ordinal, key, result, message_id),
        }
    }

    fn tool_answered(
        &self,
        state: &AgentFsmState,
        context: &Vec<MessageId>,
        ordinal: NonZeroU32,
        pending: &Vec<ToolCall>,
        key: AgentOperationKey,
        result: &ToolResult,
        message_id: Option<MessageId>,
    ) -> (r: Result<Transition<AgentFsmState, AgentFsmOutput>, AgentFsmError>)
        ensures
            step_of(r) == tool_step(
                self@,
                state.abs(),
                contents(context@),
                ordinal@,
                contents(pending@),
                key.abs(),
                result.abs(),
                message_id.abs(),
            ),
    {
        broadcast use contents_push;

        let id: MessageId = match message_id {
            Some(id) => id,
            None => {
                return Err(AgentFsmError::MissingMessageId);
            },
        };
        let mut usage: AgentRunUsage = state.usage;
        usage.tool_calls = match state.usage.tool_calls.checked_add(1) {
            Some(tool_calls) => tool_calls,
            None => {
                return Err(AgentFsmError::LimitExceeded);
            },
        };
        let message: AgentMessage = self.message(
            &id,
            key,
            MessageRole::Tool,
            MessageVisibility::Internal,
            result.content.duplicate(),
        );
        let mut events: Vec<AgentEventData> = AgentFsm::told(&message);
        let context: Vec<MessageId> = extended(context, &id);
        assert(contents(pending@).len() == pending@.len());
        if usage.tool_calls > self.limits.tool_calls {
            return AgentFsm::exceed(state, usage, context, ordinal, Some(message), events);
        }
        if pending.len() > 0 {
            return self.call_tool(
                state.status,
                usage,
                context,
                ordinal,
                pending,
                Some(message),
                events,
            );
        }
        events.push(AgentEventData::UsageUpdated { usage });
        Ok(
            Transition {
                state: AgentFsmState {
                    status: state.status,
                    checkpoint: AgentCheckpoint::Ready { context, next_operation_ordinal: ordinal },
                    usage,
                },
                output: AgentFsmOutput { operation: None, message: Some(message), events },
            },
        )
    }

    fn finished(
        &self,
        state: &AgentFsmState,
        operation: &AgentOperation,
        message_id: Option<MessageId>,
    ) -> (r: Result<Transition<AgentFsmState, AgentFsmOutput>, AgentFsmError>)
        ensures
            step_of(r) == finished_step(
                self@,
                state.abs(),
                operation.abs(),
                message_id.abs(),
            ),
    {
        match &state.checkpoint {
            AgentCheckpoint::Ready { .. } => Err(AgentFsmError::NotReady),
            AgentCheckpoint::Waiting {
                operation: expected,
                context,
                next_operation_ordinal,
                pending_tool_calls,
            } => {
                if !operation.key.same(expected) {
                    return Err(AgentFsmError::OperationMismatch);
                }
                let ordinal: NonZeroU32 = *next_operation_ordinal;
                if operation.state != AgentOperationDeliveryState::Succeeded {
                    return self.unsuccessful(state, context, ordinal, operation, message_id);
                }
                match &operation.result {
                    None => Err(AgentFsmError::OperationNotSucceeded),
                    Some(AgentOperationResult::Compaction(result)) => self.compacted(
                        state,
                        context,
                        ordinal,
                        operation,
                        result,
                        message_id,
                    ),
                    Some(AgentOperationResult::ModelGeneration(result)) => self.generated(
                        state,
                        context,
                        ordinal,
                        operation.key,
                        result,
                        message_id,
                    ),
                    Some(AgentOperationResult::Tool(result)) => self.tool_answered(
                        state,
                        context,
                        ordinal,
                        pending_tool_calls,
                        operation.key,
                        result,
                        message_id,
                    ),
                }
            },
        }
    }
}

impl Fsm for AgentFsm {
    type State = AgentFsmState;

    type Input = AgentFsmInput;

    type Output = AgentFsmOutput;

    type Error = AgentFsmError;

    fn transition(&self, state: &AgentFsmState, input: AgentFsmInput) -> (r: Result<
        Transition<AgentFsmState, AgentFsmOutput>,
        AgentFsmError,
    >)
        ensures
            step_of(r) == run_step(self@, state.abs(), input.abs()),
    {
        if state.status.is_terminal() {
            return Err(AgentFsmError::Terminal);
        }
        match input {
            AgentFsmInput::Cancel => AgentFsm::stop(state, AgentRunStatus::Cancelled, None),
            AgentFsmInput::DeadlineReached => AgentFsm::stop(
                state,
                AgentRunStatus::Failed,
                Some(AgentRunFailureKind::Deadline),
            ),
            AgentFsmInput::Drive => self.drive(state),
            AgentFsmInput::OperationFinished { operation, message_id } => self.finished(
                state,
                &operation,
                message_id,
            ),
        }
    }
}

/// The correction is a valid message content.
proof fn lemma_correction_is_content()
    ensures
        content_failure(INVALID_MODEL_OUTPUT_CORRECTION@) is None,
{
    reveal_strlit(
        "{\"kind\":\"invalid_model_output\",\"instruction\":\"The model returned no valid public action. Produce one assistant answer, one admitted Tool call, or one admitted Tool call with adjacent assistant text.\"}",
    );
    byte_len_bound(INVALID_MODEL_OUTPUT_CORRECTION@);
}

} // verus!
