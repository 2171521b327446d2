//! What each thing that happens to a run leads to.

use vstd::prelude::*;

use super::compaction::{CompactionRequestAbs, CompactionResultAbs};
use super::context::ContextCapacity;
use super::event::AgentEventDataAbs;
use super::fsm::{
    run_step, tool_classes, AgentFsmAbs, AgentFsmError, AgentFsmInputAbs, AgentFsmOutputAbs,
    AgentFsmStateAbs, RunStep,
};
use super::message::{AgentMessageAbs, MessageRole, MessageVisibility};
use super::operation::{
    AgentOperationAbs, AgentOperationDeliveryState, AgentOperationFailureKindAbs,
    AgentOperationKeyAbs, AgentOperationKind, AgentOperationRequestAbs, AgentOperationResultAbs,
    DeliveryClass, ModelFinishReason, ModelGenerationOutputAbs, ModelGenerationResultAbs,
    ModelUsage, ToolCallAbs, ToolResultAbs, INVALID_MODEL_OUTPUT_CORRECTION,
};
use super::run::{
    AgentCheckpointAbs, AgentRunFailureKind, AgentRunLimits, AgentRunStatus, AgentRunUsage,
};
use crate::effect::canonical_failure;

verus! {

/// A run that goes on: it is pending or running.
pub open spec fn is_live(state: AgentFsmStateAbs) -> bool {
    state.status == AgentRunStatus::Pending || state.status == AgentRunStatus::Running
}

/// Whether a run waits for an operation.
pub open spec fn awaits(
    state: AgentFsmStateAbs,
    key: AgentOperationKeyAbs,
    context: Seq<Seq<char>>,
    ordinal: u32,
    pending: Seq<ToolCallAbs>,
) -> bool {
    is_live(state) && state.checkpoint == (AgentCheckpointAbs::Waiting {
        operation: key,
        context,
        next_operation_ordinal: ordinal,
        pending_tool_calls: pending,
    })
}

/// Whether a run is ready for the next operation.
pub open spec fn is_ready(
    state: AgentFsmStateAbs,
    context: Seq<Seq<char>>,
    ordinal: u32,
) -> bool {
    state.checkpoint == (AgentCheckpointAbs::Ready { context, next_operation_ordinal: ordinal })
}

/// What an operation that is over is to its run.
pub open spec fn finishing(
    operation: AgentOperationAbs,
    message_id: Option<Seq<char>>,
) -> AgentFsmInputAbs {
    AgentFsmInputAbs::OperationFinished { operation, message_id }
}

/// Whether an operation is new: it has its key, its request and its delivery,
/// it is its first attempt, and nothing has become of it yet.
pub open spec fn is_new(
    operation: AgentOperationAbs,
    machine: AgentFsmAbs,
    ordinal: u32,
    request: AgentOperationRequestAbs,
    delivery: DeliveryClass,
) -> bool {
    &&& operation.key.run_id == machine.run_id
    &&& operation.key.ordinal == ordinal
    &&& operation.request == request
    &&& operation.delivery == delivery
    &&& operation.delivery_attempt == 1
    &&& operation.state == AgentOperationDeliveryState::Pending
    &&& operation.result is None
    &&& operation.failure is None
    &&& operation.revision == 0
}

// ---------------------------------------------------------------------------
// Tools
// ---------------------------------------------------------------------------

/// A run has each tool that it was given, with the delivery of the last one of
/// its name.
pub proof fn tools_have_their_delivery(tools: Seq<(Seq<char>, DeliveryClass)>, i: int)
    requires
        0 <= i < tools.len(),
        forall|j: int| i < j < tools.len() ==> (#[trigger] tools[j]).0 != tools[i].0,
    ensures
        tool_classes(tools).contains_key(tools[i].0),
        tool_classes(tools)[tools[i].0] == tools[i].1,
    decreases tools.len(),
{
    let rest = tools.drop_last();
    if i < tools.len() - 1 {
        assert(tools[tools.len() - 1].0 != tools[i].0);
        assert(rest[i] == tools[i]);
        assert forall|j: int| i < j < rest.len() implies (#[trigger] rest[j]).0 != rest[i].0 by {
            assert(tools[j].0 != tools[i].0);
        }
        tools_have_their_delivery(rest, i);
    }
}

/// A run has no other tools.
pub proof fn other_tools_are_absent(tools: Seq<(Seq<char>, DeliveryClass)>, name: Seq<char>)
    requires
        forall|i: int| 0 <= i < tools.len() ==> (#[trigger] tools[i]).0 != name,
    ensures
        !tool_classes(tools).contains_key(name),
    decreases tools.len(),
{
    if tools.len() > 0 {
        let rest = tools.drop_last();
        assert(tools[tools.len() - 1].0 != name);
        assert forall|i: int| 0 <= i < rest.len() implies (#[trigger] rest[i]).0 != name by {
            assert(tools[i].0 != name);
        }
        other_tools_are_absent(rest, name);
    }
}

// ---------------------------------------------------------------------------
// Usage
// ---------------------------------------------------------------------------

/// Whether usage grew by a model call with its tokens, and by corrections.
pub open spec fn grew(
    before: AgentRunUsage,
    after: AgentRunUsage,
    calls: int,
    input: int,
    output: int,
    corrections: int,
    correction_input: int,
    correction_output: int,
    tools: int,
) -> bool {
    &&& after.model_calls == before.model_calls + calls
    &&& after.model_input_tokens == before.model_input_tokens + input
    &&& after.model_output_tokens == before.model_output_tokens + output
    &&& after.correction_calls == before.correction_calls + corrections
    &&& after.correction_input_tokens == before.correction_input_tokens + correction_input
    &&& after.correction_output_tokens == before.correction_output_tokens + correction_output
    &&& after.tool_calls == before.tool_calls + tools
}

/// The corrections of a generation.
pub open spec fn corrections_of(result: ModelGenerationResultAbs) -> (int, int, int) {
    match result.correction {
        Some(correction) => (
            correction.attempts as int,
            correction.usage.input_tokens as int,
            correction.usage.output_tokens as int,
        ),
        None => (0, 0, 0),
    }
}

/// Whether the usage after a generation can be counted.
pub open spec fn can_count(before: AgentRunUsage, result: ModelGenerationResultAbs) -> bool {
    let (calls, input, output) = corrections_of(result);
    &&& before.model_calls < u64::MAX
    &&& before.model_input_tokens + result.usage.input_tokens <= u64::MAX
    &&& before.model_output_tokens + result.usage.output_tokens <= u64::MAX
    &&& before.correction_calls + calls <= u64::MAX
    &&& before.correction_input_tokens + input <= u64::MAX
    &&& before.correction_output_tokens + output <= u64::MAX
}

/// Whether usage after a generation stays within the limits of its run.
pub open spec fn stays_within(
    limits: AgentRunLimits,
    before: AgentRunUsage,
    result: ModelGenerationResultAbs,
) -> bool {
    let (calls, input, output) = corrections_of(result);
    &&& before.model_calls + 1 <= limits.model_calls
    &&& limits.model_input_tokens is Some ==> before.model_input_tokens + result.usage.input_tokens
        <= limits.model_input_tokens->Some_0
    &&& before.model_output_tokens + result.usage.output_tokens <= limits.model_output_tokens
    &&& before.correction_calls + calls <= limits.correction_calls
    &&& before.correction_input_tokens + input <= limits.correction_input_tokens
    &&& before.correction_output_tokens + output <= limits.correction_output_tokens
}

/// Whether another model call is within the limits: there is a call left, and
/// there are tokens left to read and to write.
pub open spec fn may_call(limits: AgentRunLimits, usage: AgentRunUsage) -> bool {
    &&& usage.model_calls < limits.model_calls
    &&& limits.model_input_tokens is Some ==> usage.model_input_tokens
        < limits.model_input_tokens->Some_0
    &&& usage.model_output_tokens < limits.model_output_tokens
}

// ---------------------------------------------------------------------------
// Driving and stopping
// ---------------------------------------------------------------------------

/// A run that is driven asks the model to go on from its context, for as many
/// tokens as it may: those that are left, or the most of one generation. Where
/// the limits allow no further call it fails instead; a run that waits is not
/// driven.
pub proof fn driving_asks_the_model(
    machine: AgentFsmAbs,
    state: AgentFsmStateAbs,
    context: Seq<Seq<char>>,
    ordinal: u32,
)
    requires
        is_live(state),
    ensures
        state.checkpoint is Waiting ==> run_step(machine, state, AgentFsmInputAbs::Drive) == Err::<
            (AgentFsmStateAbs, AgentFsmOutputAbs),
            AgentFsmError,
        >(AgentFsmError::NotReady),
        is_ready(state, context, ordinal) && may_call(machine.limits, state.usage) && ordinal
            == u32::MAX ==> run_step(machine, state, AgentFsmInputAbs::Drive) == Err::<
            (AgentFsmStateAbs, AgentFsmOutputAbs),
            AgentFsmError,
        >(AgentFsmError::OrdinalOverflow),
        is_ready(state, context, ordinal) && may_call(machine.limits, state.usage) && ordinal
            < u32::MAX ==> ({
            &&& run_step(machine, state, AgentFsmInputAbs::Drive) matches Ok((next, output))
            &&& next.status == AgentRunStatus::Running
            &&& next.usage == state.usage
            &&& output.message is None
            &&& output.operation matches Some(operation)
            &&& awaits(next, operation.key, context, (ordinal + 1) as u32, Seq::empty())
            &&& operation.request matches AgentOperationRequestAbs::ModelGeneration(request)
            &&& is_new(operation, machine, ordinal, operation.request, DeliveryClass::Retryable)
            &&& request.context == context
            &&& request.max_output_tokens <= machine.generation_max_output_tokens
            &&& request.max_output_tokens + state.usage.model_output_tokens
                <= machine.limits.model_output_tokens
            &&& request.max_output_tokens == machine.generation_max_output_tokens
                || request.max_output_tokens + state.usage.model_output_tokens
                == machine.limits.model_output_tokens
        }),
        is_ready(state, context, ordinal) && !may_call(machine.limits, state.usage) ==> ({
            &&& run_step(machine, state, AgentFsmInputAbs::Drive) matches Ok((next, output))
            &&& next.status == AgentRunStatus::Failed
            &&& next.usage == state.usage
            &&& next.checkpoint == state.checkpoint
            &&& output.message is None
            &&& output.operation is None
            &&& output.events == seq![
                AgentEventDataAbs::RunStatusChanged {
                    from: state.status,
                    to: AgentRunStatus::Failed,
                    failure_kind: Some(AgentRunFailureKind::LimitsExceeded),
                },
            ]
        }),
{
}

/// A run that is ready ends where it is cancelled or its deadline is over; one
/// that waits is not stopped before its operation is over.
pub proof fn stopping_ends_a_ready_run(machine: AgentFsmAbs, state: AgentFsmStateAbs)
    requires
        is_live(state),
    ensures
        state.checkpoint is Waiting ==> run_step(machine, state, AgentFsmInputAbs::Cancel) == Err::<
            (AgentFsmStateAbs, AgentFsmOutputAbs),
            AgentFsmError,
        >(AgentFsmError::NotReady),
        state.checkpoint is Waiting ==> run_step(
            machine,
            state,
            AgentFsmInputAbs::DeadlineReached,
        ) == Err::<(AgentFsmStateAbs, AgentFsmOutputAbs), AgentFsmError>(AgentFsmError::NotReady),
        state.checkpoint is Ready ==> ({
            &&& run_step(machine, state, AgentFsmInputAbs::Cancel) matches Ok((next, output))
            &&& next.status == AgentRunStatus::Cancelled
            &&& next.usage == state.usage
            &&& next.checkpoint == state.checkpoint
            &&& output.message is None
            &&& output.operation is None
            &&& output.events == seq![
                AgentEventDataAbs::RunStatusChanged {
                    from: state.status,
                    to: AgentRunStatus::Cancelled,
                    failure_kind: None,
                },
            ]
        }),
        state.checkpoint is Ready ==> ({
            &&& run_step(machine, state, AgentFsmInputAbs::DeadlineReached) matches Ok((
                next,
                output,
            ))
            &&& next.status == AgentRunStatus::Failed
            &&& next.usage == state.usage
            &&& next.checkpoint == state.checkpoint
            &&& output.message is None
            &&& output.operation is None
            &&& output.events == seq![
                AgentEventDataAbs::RunStatusChanged {
                    from: state.status,
                    to: AgentRunStatus::Failed,
                    failure_kind: Some(AgentRunFailureKind::Deadline),
                },
            ]
        }),
{
}

/// Only the operation that a run waits for can be over for it.
pub proof fn other_operations_are_refused(
    machine: AgentFsmAbs,
    state: AgentFsmStateAbs,
    operation: AgentOperationAbs,
    message_id: Option<Seq<char>>,
)
    requires
        is_live(state),
    ensures
        state.checkpoint is Ready ==> run_step(machine, state, finishing(operation, message_id))
            == Err::<(AgentFsmStateAbs, AgentFsmOutputAbs), AgentFsmError>(AgentFsmError::NotReady),
        (state.checkpoint matches AgentCheckpointAbs::Waiting { operation: awaited, .. } && awaited
            != operation.key) ==> run_step(machine, state, finishing(operation, message_id))
            == Err::<(AgentFsmStateAbs, AgentFsmOutputAbs), AgentFsmError>(
            AgentFsmError::OperationMismatch,
        ),
{
}

// ---------------------------------------------------------------------------
// Generations
// ---------------------------------------------------------------------------

/// A message that an operation of a run brings.
pub open spec fn is_message(
    message: AgentMessageAbs,
    machine: AgentFsmAbs,
    operation: AgentOperationAbs,
    id: Seq<char>,
    role: MessageRole,
    visibility: MessageVisibility,
    content: Seq<char>,
) -> bool {
    &&& message.id == id
    &&& message.conversation_id == machine.conversation_id
    &&& message.run_id == Some(machine.run_id)
    &&& message.source_operation == Some(operation.key)
    &&& message.role == role
    &&& message.visibility == visibility
    &&& message.content == content
}

/// Who sees what the assistant says: the conversation that the run is in, and
/// nobody else where it is in none.
pub open spec fn is_seen_by(machine: AgentFsmAbs, visibility: MessageVisibility) -> bool {
    if machine.conversation_id is Some {
        visibility == MessageVisibility::Conversation
    } else {
        visibility == MessageVisibility::Internal
    }
}

/// An answer of the assistant becomes a message of the run, with what was said,
/// and joins its context. The run is completed where the model stopped, goes on
/// where it ran out of tokens, and fails where it went over its limits.
pub proof fn answers_become_messages(
    machine: AgentFsmAbs,
    state: AgentFsmStateAbs,
    operation: AgentOperationAbs,
    result: ModelGenerationResultAbs,
    said: Seq<char>,
    context: Seq<Seq<char>>,
    ordinal: u32,
    pending: Seq<ToolCallAbs>,
    id: Seq<char>,
)
    requires
        awaits(state, operation.key, context, ordinal, pending),
        operation.state == AgentOperationDeliveryState::Succeeded,
        operation.result == Some(AgentOperationResultAbs::ModelGeneration(result)),
        result.output == ModelGenerationOutputAbs::Assistant(said),
    ensures
        !can_count(state.usage, result) ==> run_step(
            machine,
            state,
            finishing(operation, Some(id)),
        ) == Err::<(AgentFsmStateAbs, AgentFsmOutputAbs), AgentFsmError>(
            AgentFsmError::LimitExceeded,
        ),
        can_count(state.usage, result) && result.finish_reason == ModelFinishReason::ToolCall
            ==> run_step(machine, state, finishing(operation, Some(id))) == Err::<
            (AgentFsmStateAbs, AgentFsmOutputAbs),
            AgentFsmError,
        >(AgentFsmError::InvalidModelResult),
        can_count(state.usage, result) && result.finish_reason != ModelFinishReason::ToolCall
            ==> run_step(machine, state, finishing(operation, None)) == Err::<
            (AgentFsmStateAbs, AgentFsmOutputAbs),
            AgentFsmError,
        >(AgentFsmError::MissingMessageId),
        can_count(state.usage, result) && result.finish_reason != ModelFinishReason::ToolCall ==> ({
            let (calls, input, output_tokens) = corrections_of(result);
            &&& run_step(machine, state, finishing(operation, Some(id))) matches Ok((next, output))
            &&& output.operation is None
            &&& output.message matches Some(message)
            &&& is_message(
                message,
                machine,
                operation,
                id,
                MessageRole::Assistant,
                message.visibility,
                said,
            )
            &&& is_seen_by(machine, message.visibility)
            &&& is_ready(next, context.push(id), ordinal)
            &&& grew(
                state.usage,
                next.usage,
                1,
                result.usage.input_tokens as int,
                result.usage.output_tokens as int,
                calls,
                input,
                output_tokens,
                0,
            )
            &&& next.status == if !stays_within(machine.limits, state.usage, result) {
                AgentRunStatus::Failed
            } else if result.finish_reason == ModelFinishReason::Stop {
                AgentRunStatus::Completed
            } else {
                state.status
            }
        }),
{
}

/// The calls that a generation asks for are made, all of them and in their
/// order: where an operation is created it calls the first tool with its input,
/// and the calls behind it are pending.
pub proof fn wanted_calls_are_made(
    machine: AgentFsmAbs,
    state: AgentFsmStateAbs,
    operation: AgentOperationAbs,
    result: ModelGenerationResultAbs,
    message_id: Option<Seq<char>>,
    context: Seq<Seq<char>>,
    ordinal: u32,
    pending: Seq<ToolCallAbs>,
)
    requires
        awaits(state, operation.key, context, ordinal, pending),
        operation.state == AgentOperationDeliveryState::Succeeded,
        operation.result == Some(AgentOperationResultAbs::ModelGeneration(result)),
    ensures
        run_step(machine, state, finishing(operation, message_id)) matches Ok((next, output)) ==> (
        output.operation matches Some(made) ==> {
            &&& made.request matches AgentOperationRequestAbs::Tool(request)
            &&& next.checkpoint matches AgentCheckpointAbs::Waiting { pending_tool_calls: rest, .. }
            &&& {
                let first = ToolCallAbs { tool_id: request.tool_id, input: request.input };
                match result.output {
                    ModelGenerationOutputAbs::Assistant(_) => false,
                    ModelGenerationOutputAbs::ToolCall(call) => first == call && rest.len() == 0,
                    ModelGenerationOutputAbs::ToolCalls(calls) => seq![first] + rest == calls,
                    ModelGenerationOutputAbs::AssistantToolCall(mixed) => first == mixed.call
                        && rest.len() == 0,
                    ModelGenerationOutputAbs::AssistantToolCalls { calls, .. } => seq![first] + rest
                        == calls,
                }
            }
        }),
{
    if let ModelGenerationOutputAbs::ToolCalls(calls) = result.output {
        if calls.len() > 0 {
            assert(seq![calls[0]] + calls.subrange(1, calls.len() as int) =~= calls);
        }
    }
    if let ModelGenerationOutputAbs::AssistantToolCalls { calls, .. } = result.output {
        if calls.len() > 0 {
            assert(seq![calls[0]] + calls.subrange(1, calls.len() as int) =~= calls);
        }
    }
}

/// Whether calls can be made: there is one, and the first is of a tool that the
/// run has, with an input that is canonical JSON.
pub open spec fn can_be_made(machine: AgentFsmAbs, calls: Seq<ToolCallAbs>) -> bool {
    &&& calls.len() > 0
    &&& machine.tools.contains_key(calls[0].tool_id)
    &&& canonical_failure(calls[0].input) is None
}

/// What a generation with calls leads to, where `calls` are its calls and
/// `said` is what the assistant says beside them.
pub open spec fn calls_lead_on(
    machine: AgentFsmAbs,
    state: AgentFsmStateAbs,
    operation: AgentOperationAbs,
    result: ModelGenerationResultAbs,
    message_id: Option<Seq<char>>,
    context: Seq<Seq<char>>,
    ordinal: u32,
    calls: Seq<ToolCallAbs>,
    said: Option<Seq<char>>,
) -> bool {
    let step = run_step(machine, state, finishing(operation, message_id));
    let within = stays_within(machine.limits, state.usage, result) && state.usage.tool_calls
        < machine.limits.tool_calls;
    if !can_count(state.usage, result) {
        step == Err::<(AgentFsmStateAbs, AgentFsmOutputAbs), AgentFsmError>(
            AgentFsmError::LimitExceeded,
        )
    } else if result.finish_reason != ModelFinishReason::ToolCall || calls.len() == 0 {
        step == Err::<(AgentFsmStateAbs, AgentFsmOutputAbs), AgentFsmError>(
            AgentFsmError::InvalidModelResult,
        )
    } else if said is Some && message_id is None {
        step == Err::<(AgentFsmStateAbs, AgentFsmOutputAbs), AgentFsmError>(
            AgentFsmError::MissingMessageId,
        )
    } else if said is None && message_id is Some {
        step == Err::<(AgentFsmStateAbs, AgentFsmOutputAbs), AgentFsmError>(
            AgentFsmError::UnexpectedMessageId,
        )
    } else if within && !can_be_made(machine, calls) {
        step == Err::<(AgentFsmStateAbs, AgentFsmOutputAbs), AgentFsmError>(
            AgentFsmError::InvalidModelResult,
        )
    } else if within && ordinal == u32::MAX {
        step == Err::<(AgentFsmStateAbs, AgentFsmOutputAbs), AgentFsmError>(
            AgentFsmError::OrdinalOverflow,
        )
    } else {
        let (corrections, input, output_tokens) = corrections_of(result);
        let longer = if said is Some {
            context.push(message_id->Some_0)
        } else {
            context
        };
        &&& step matches Ok((next, output))
        &&& grew(
            state.usage,
            next.usage,
            1,
            result.usage.input_tokens as int,
            result.usage.output_tokens as int,
            corrections,
            input,
            output_tokens,
            0,
        )
        &&& match said {
            Some(content) => output.message matches Some(message) && is_message(
                message,
                machine,
                operation,
                message_id->Some_0,
                MessageRole::Assistant,
                message.visibility,
                content,
            ) && is_seen_by(machine, message.visibility),
            None => output.message is None,
        }
        &&& if within {
            &&& next.status == state.status
            &&& output.operation matches Some(made)
            &&& made.request matches AgentOperationRequestAbs::Tool(request)
            &&& is_new(
                made,
                machine,
                ordinal,
                made.request,
                machine.tools[calls[0].tool_id],
            )
            &&& request.tool_id == calls[0].tool_id
            &&& request.input == calls[0].input
            &&& awaits(next, made.key, longer, (ordinal + 1) as u32, calls.drop_first())
        } else {
            &&& next.status == AgentRunStatus::Failed
            &&& output.operation is None
            &&& is_ready(next, longer, ordinal)
        }
    }
}

/// A generation that asks for tools leads to the call of the first one, with
/// the others pending, in each of its forms: one call or several, with or
/// without something said, which then becomes a message. Where the limits are
/// used up the run fails instead.
pub proof fn generations_lead_to_calls(
    machine: AgentFsmAbs,
    state: AgentFsmStateAbs,
    operation: AgentOperationAbs,
    result: ModelGenerationResultAbs,
    message_id: Option<Seq<char>>,
    context: Seq<Seq<char>>,
    ordinal: u32,
    pending: Seq<ToolCallAbs>,
)
    requires
        awaits(state, operation.key, context, ordinal, pending),
        operation.state == AgentOperationDeliveryState::Succeeded,
        operation.result == Some(AgentOperationResultAbs::ModelGeneration(result)),
    ensures
        match result.output {
            ModelGenerationOutputAbs::Assistant(_) => true,
            ModelGenerationOutputAbs::ToolCall(call) => calls_lead_on(
                machine,
                state,
                operation,
                result,
                message_id,
                context,
                ordinal,
                seq![call],
                None,
            ),
            ModelGenerationOutputAbs::ToolCalls(calls) => calls_lead_on(
                machine,
                state,
                operation,
                result,
                message_id,
                context,
                ordinal,
                calls,
                None,
            ),
            ModelGenerationOutputAbs::AssistantToolCall(mixed) => calls_lead_on(
                machine,
                state,
                operation,
                result,
                message_id,
                context,
                ordinal,
                seq![mixed.call],
                Some(mixed.content),
            ),
            ModelGenerationOutputAbs::AssistantToolCalls { content, calls } => calls_lead_on(
                machine,
                state,
                operation,
                result,
                message_id,
                context,
                ordinal,
                calls,
                Some(content),
            ),
        },
{
    match result.output {
        ModelGenerationOutputAbs::ToolCall(call) => {
            assert(seq![call].subrange(1, 1) =~= seq![call].drop_first());
        },
        ModelGenerationOutputAbs::ToolCalls(calls) => {
            if calls.len() > 0 {
                assert(calls.subrange(1, calls.len() as int) =~= calls.drop_first());
            }
        },
        ModelGenerationOutputAbs::AssistantToolCall(mixed) => {
            assert(seq![mixed.call].subrange(1, 1) =~= seq![mixed.call].drop_first());
        },
        ModelGenerationOutputAbs::AssistantToolCalls { content, calls } => {
            if calls.len() > 0 {
                assert(calls.subrange(1, calls.len() as int) =~= calls.drop_first());
            }
        },
        _ => {},
    }
}

// ---------------------------------------------------------------------------
// Tool results
// ---------------------------------------------------------------------------

/// What a tool answers becomes an internal message of the run, and joins its
/// context. The first of the pending calls is made next, and the others stay
/// pending; without any the run is ready. A run with more tool calls than its
/// limit fails.
pub proof fn answers_of_tools_lead_on(
    machine: AgentFsmAbs,
    state: AgentFsmStateAbs,
    operation: AgentOperationAbs,
    result: ToolResultAbs,
    context: Seq<Seq<char>>,
    ordinal: u32,
    pending: Seq<ToolCallAbs>,
    id: Seq<char>,
)
    requires
        awaits(state, operation.key, context, ordinal, pending),
        operation.state == AgentOperationDeliveryState::Succeeded,
        operation.result == Some(AgentOperationResultAbs::Tool(result)),
    ensures
        run_step(machine, state, finishing(operation, None)) == Err::<
            (AgentFsmStateAbs, AgentFsmOutputAbs),
            AgentFsmError,
        >(AgentFsmError::MissingMessageId),
        ({
            let step = run_step(machine, state, finishing(operation, Some(id)));
            let within = state.usage.tool_calls + 1 <= machine.limits.tool_calls;
            if state.usage.tool_calls == u64::MAX {
                step == Err::<(AgentFsmStateAbs, AgentFsmOutputAbs), AgentFsmError>(
                    AgentFsmError::LimitExceeded,
                )
            } else if within && pending.len() > 0 && !can_be_made(machine, pending) {
                step == Err::<(AgentFsmStateAbs, AgentFsmOutputAbs), AgentFsmError>(
                    AgentFsmError::InvalidModelResult,
                )
            } else if within && pending.len() > 0 && ordinal == u32::MAX {
                step == Err::<(AgentFsmStateAbs, AgentFsmOutputAbs), AgentFsmError>(
                    AgentFsmError::OrdinalOverflow,
                )
            } else {
                &&& step matches Ok((next, output))
                &&& grew(state.usage, next.usage, 0, 0, 0, 0, 0, 0, 1)
                &&& output.message matches Some(message)
                &&& is_message(
                    message,
                    machine,
                    operation,
                    id,
                    MessageRole::Tool,
                    MessageVisibility::Internal,
                    result.content,
                )
                &&& if !within {
                    &&& next.status == AgentRunStatus::Failed
                    &&& output.operation is None
                    &&& is_ready(next, context.push(id), ordinal)
                } else if pending.len() == 0 {
                    &&& next.status == state.status
                    &&& output.operation is None
                    &&& is_ready(next, context.push(id), ordinal)
                } else {
                    &&& next.status == state.status
                    &&& output.operation matches Some(made)
                    &&& made.request matches AgentOperationRequestAbs::Tool(request)
                    &&& is_new(
                        made,
                        machine,
                        ordinal,
                        made.request,
                        machine.tools[pending[0].tool_id],
                    )
                    &&& request.tool_id == pending[0].tool_id
                    &&& request.input == pending[0].input
                    &&& awaits(
                        next,
                        made.key,
                        context.push(id),
                        (ordinal + 1) as u32,
                        pending.drop_first(),
                    )
                }
            }
        }),
{
    if pending.len() > 0 {
        assert(pending.subrange(1, pending.len() as int) =~= pending.drop_first());
    }
}

/// An operation that succeeded has a result.
pub proof fn success_needs_a_result(
    machine: AgentFsmAbs,
    state: AgentFsmStateAbs,
    operation: AgentOperationAbs,
    message_id: Option<Seq<char>>,
    context: Seq<Seq<char>>,
    ordinal: u32,
    pending: Seq<ToolCallAbs>,
)
    requires
        awaits(state, operation.key, context, ordinal, pending),
        operation.state == AgentOperationDeliveryState::Succeeded,
        operation.result is None,
    ensures
        run_step(machine, state, finishing(operation, message_id)) == Err::<
            (AgentFsmStateAbs, AgentFsmOutputAbs),
            AgentFsmError,
        >(AgentFsmError::OperationNotSucceeded),
{
}

// ---------------------------------------------------------------------------
// Operations that did not succeed
// ---------------------------------------------------------------------------

/// The kind of failure that a run has from an operation: its deadline, its tool
/// loop, or the operation.
pub open spec fn ends_as(operation: AgentOperationAbs, kind: AgentRunFailureKind) -> bool {
    match operation.failure {
        Some(failure) => match failure.kind {
            AgentOperationFailureKindAbs::Deadline => kind == AgentRunFailureKind::Deadline,
            AgentOperationFailureKindAbs::ToolLoopDetected => kind
                == AgentRunFailureKind::ToolLoopDetected,
            _ => kind == AgentRunFailureKind::Operation,
        },
        None => kind == AgentRunFailureKind::Operation,
    }
}

/// Whether a step ends the run with its operation: cancelled where the
/// operation was, and failed otherwise, where it stood and with that usage.
pub open spec fn ends_with(
    state: AgentFsmStateAbs,
    operation: AgentOperationAbs,
    step: RunStep,
    usage: AgentRunUsage,
) -> bool {
    if operation.state == AgentOperationDeliveryState::Pending || operation.state
        == AgentOperationDeliveryState::Running || operation.state
        == AgentOperationDeliveryState::RetryScheduled {
        step == Err::<(AgentFsmStateAbs, AgentFsmOutputAbs), AgentFsmError>(
            AgentFsmError::OperationNotSucceeded,
        )
    } else {
        &&& step matches Ok((next, output))
        &&& next.checkpoint == state.checkpoint
        &&& next.usage == usage
        &&& output.operation is None
        &&& output.message is None
        &&& output.events.len() > 0
        &&& if operation.state == AgentOperationDeliveryState::Cancelled {
            &&& next.status == AgentRunStatus::Cancelled
            &&& output.events.last() == (AgentEventDataAbs::RunStatusChanged {
                from: state.status,
                to: AgentRunStatus::Cancelled,
                failure_kind: None,
            })
        } else {
            &&& next.status == AgentRunStatus::Failed
            &&& output.events.last() matches AgentEventDataAbs::RunStatusChanged {
                from,
                to,
                failure_kind: Some(kind),
            }
            &&& from == state.status
            &&& to == AgentRunStatus::Failed
            &&& ends_as(operation, kind)
        }
    }
}

/// Whether a step asks for a compaction, and nothing else happens.
pub open spec fn asks_for_compaction(
    machine: AgentFsmAbs,
    state: AgentFsmStateAbs,
    step: RunStep,
    ordinal: u32,
    wanted: CompactionRequestAbs,
    usage: AgentRunUsage,
) -> bool {
    if ordinal == u32::MAX {
        step == Err::<(AgentFsmStateAbs, AgentFsmOutputAbs), AgentFsmError>(
            AgentFsmError::OrdinalOverflow,
        )
    } else {
        &&& step matches Ok((next, output))
        &&& next.status == state.status
        &&& next.usage == usage
        &&& output.message is None
        &&& output.operation matches Some(made)
        &&& is_new(
            made,
            machine,
            ordinal,
            AgentOperationRequestAbs::Compaction(wanted),
            DeliveryClass::Retryable,
        )
        &&& awaits(next, made.key, wanted.context, (ordinal + 1) as u32, Seq::empty())
    }
}

/// A generation that needs a compaction leads to one of the whole context; it
/// brings no message, and what it measured must be over its threshold or its
/// capacity.
pub proof fn full_contexts_are_compacted(
    machine: AgentFsmAbs,
    state: AgentFsmStateAbs,
    operation: AgentOperationAbs,
    message_id: Option<Seq<char>>,
    context: Seq<Seq<char>>,
    ordinal: u32,
    pending: Seq<ToolCallAbs>,
    before: ContextCapacity,
)
    requires
        awaits(state, operation.key, context, ordinal, pending),
        operation.state != AgentOperationDeliveryState::Succeeded,
        operation.request is ModelGeneration,
        operation.failure matches Some(failure) && failure.kind
            == AgentOperationFailureKindAbs::CompactionRequired(before),
    ensures
        ({
            let step = run_step(machine, state, finishing(operation, message_id));
            if message_id is Some || (before.prompt_tokens < before.trigger_threshold_tokens
                && before.prompt_tokens + before.reserved_output_tokens
                <= before.context_capacity_tokens) {
                step == Err::<(AgentFsmStateAbs, AgentFsmOutputAbs), AgentFsmError>(
                    AgentFsmError::InvalidModelResult,
                )
            } else {
                asks_for_compaction(
                    machine,
                    state,
                    step,
                    ordinal,
                    CompactionRequestAbs { context, before, correction_of: None },
                    state.usage,
                )
            }
        }),
{
}

/// The tokens and the corrections that a refused generation used.
pub open spec fn refused_usage(kind: AgentOperationFailureKindAbs) -> Option<
    (int, int, int, int, int),
> {
    match kind {
        AgentOperationFailureKindAbs::InvalidResult => Some((0, 0, 0, 0, 0)),
        AgentOperationFailureKindAbs::InvalidModelOutput { usage } => Some(
            (usage.input_tokens as int, usage.output_tokens as int, 0, 0, 0),
        ),
        AgentOperationFailureKindAbs::CorrectionFailed {
            primary_usage,
            calls,
            input_tokens,
            output_tokens,
        } => Some(
            (
                primary_usage.input_tokens as int,
                primary_usage.output_tokens as int,
                calls as int,
                input_tokens as int,
                output_tokens as int,
            ),
        ),
        _ => None,
    }
}

/// A generation whose output is invalid counts as a model call. The model is
/// told in an internal message, and the run is ready to ask again, unless that
/// was its last call.
pub proof fn invalid_outputs_are_corrected(
    machine: AgentFsmAbs,
    state: AgentFsmStateAbs,
    operation: AgentOperationAbs,
    context: Seq<Seq<char>>,
    ordinal: u32,
    pending: Seq<ToolCallAbs>,
    id: Seq<char>,
    used: (int, int, int, int, int),
)
    requires
        awaits(state, operation.key, context, ordinal, pending),
        operation.state != AgentOperationDeliveryState::Succeeded,
        operation.request is ModelGeneration,
        operation.failure matches Some(failure) && refused_usage(failure.kind) == Some(used),
    ensures
        run_step(machine, state, finishing(operation, None)) == Err::<
            (AgentFsmStateAbs, AgentFsmOutputAbs),
            AgentFsmError,
        >(AgentFsmError::MissingMessageId),
        ({
            let step = run_step(machine, state, finishing(operation, Some(id)));
            if state.usage.model_calls == u64::MAX || state.usage.model_input_tokens + used.0
                > u64::MAX || state.usage.model_output_tokens + used.1 > u64::MAX
                || state.usage.correction_calls + used.2 > u64::MAX
                || state.usage.correction_input_tokens + used.3 > u64::MAX
                || state.usage.correction_output_tokens + used.4 > u64::MAX {
                step == Err::<(AgentFsmStateAbs, AgentFsmOutputAbs), AgentFsmError>(
                    AgentFsmError::LimitExceeded,
                )
            } else {
                &&& step matches Ok((next, output))
                &&& grew(state.usage, next.usage, 1, used.0, used.1, used.2, used.3, used.4, 0)
                &&& output.operation is None
                &&& output.message matches Some(message)
                &&& is_message(
                    message,
                    machine,
                    operation,
                    id,
                    MessageRole::Assistant,
                    MessageVisibility::Internal,
                    INVALID_MODEL_OUTPUT_CORRECTION@,
                )
                &&& is_ready(next, context.push(id), ordinal)
                &&& next.status == if state.usage.model_calls + 1 < machine.limits.model_calls {
                    state.status
                } else {
                    AgentRunStatus::Failed
                }
            }
        }),
{
}

/// Any other operation that did not succeed ends its run.
pub proof fn failed_operations_end_the_run(
    machine: AgentFsmAbs,
    state: AgentFsmStateAbs,
    operation: AgentOperationAbs,
    message_id: Option<Seq<char>>,
    context: Seq<Seq<char>>,
    ordinal: u32,
    pending: Seq<ToolCallAbs>,
)
    requires
        awaits(state, operation.key, context, ordinal, pending),
        operation.state != AgentOperationDeliveryState::Succeeded,
        operation.failure is None || operation.request is Tool || (operation.request
            is ModelGeneration && !(operation.failure->Some_0.kind is CompactionRequired)
            && refused_usage(operation.failure->Some_0.kind) is None) || (operation.request
            is Compaction && !(operation.failure->Some_0.kind is InvalidCompactionOutput) && (
        operation.failure->Some_0.kind matches AgentOperationFailureKindAbs::ContextExhausted(
            exhausted,
        ) ==> exhausted.compaction is None)),
    ensures
        ends_with(
            state,
            operation,
            run_step(machine, state, finishing(operation, message_id)),
            state.usage,
        ),
{
}

/// A compaction whose model output was invalid, or that failed at its output or
/// its rebuilt input, is tried once more where the limits allow a further call,
/// as a correction of the first; otherwise it ends the run. The call of the
/// model counts, where there was one.
pub proof fn failed_compactions_are_tried_once_more(
    machine: AgentFsmAbs,
    state: AgentFsmStateAbs,
    operation: AgentOperationAbs,
    message_id: Option<Seq<char>>,
    context: Seq<Seq<char>>,
    ordinal: u32,
    pending: Seq<ToolCallAbs>,
    request: CompactionRequestAbs,
    usage: AgentRunUsage,
    called: bool,
    tokens: (int, int),
    correctable: bool,
)
    requires
        awaits(state, operation.key, context, ordinal, pending),
        operation.state != AgentOperationDeliveryState::Succeeded,
        operation.request == AgentOperationRequestAbs::Compaction(request),
        operation.failure is Some,
        match operation.failure->Some_0.kind {
            AgentOperationFailureKindAbs::InvalidCompactionOutput { usage: used } => called
                && correctable && tokens == (used.input_tokens as int, used.output_tokens as int),
            AgentOperationFailureKindAbs::ContextExhausted(exhausted) => match exhausted.compaction {
                Some(failed) => {
                    &&& called == failed.model_called
                    &&& correctable == (failed.stage is SemanticOutput || failed.stage
                        is RebuiltInput)
                    &&& tokens == match failed.usage {
                        Some(used) => (used.input_tokens as int, used.output_tokens as int),
                        None => (0int, 0int),
                    }
                },
                None => false,
            },
            _ => false,
        },
        if called {
            grew(state.usage, usage, 1, tokens.0, tokens.1, 0, 0, 0, 0)
        } else {
            usage == state.usage
        },
    ensures
        ({
            let step = run_step(machine, state, finishing(operation, message_id));
            if request.correction_of is None && correctable && may_call(machine.limits, usage) {
                asks_for_compaction(
                    machine,
                    state,
                    step,
                    ordinal,
                    CompactionRequestAbs {
                        context: request.context,
                        before: request.before,
                        correction_of: Some(operation.key),
                    },
                    usage,
                )
            } else {
                ends_with(state, operation, step, usage)
            }
        }),
{
    if called {
        let next = super::fsm::with_model_call(
            state.usage,
            Some(ModelUsage { input_tokens: tokens.0 as u64, output_tokens: tokens.1 as u64 }),
        );
        assert(next == Some(usage));
    }
}

// ---------------------------------------------------------------------------
// Events
// ---------------------------------------------------------------------------

/// Whether an event tells of a message.
pub open spec fn tells_message(event: AgentEventDataAbs, message: AgentMessageAbs) -> bool {
    event == (AgentEventDataAbs::MessageAppended {
        message_id: message.id,
        role: message.role,
        visibility: message.visibility,
    })
}

/// Whether an event tells of a new operation.
pub open spec fn tells_operation(event: AgentEventDataAbs, operation: AgentOperationAbs) -> bool {
    event == (AgentEventDataAbs::OperationCreated {
        key: operation.key,
        kind: match operation.request {
            AgentOperationRequestAbs::ModelGeneration(_) => AgentOperationKind::ModelGeneration,
            AgentOperationRequestAbs::Compaction(_) => AgentOperationKind::Compaction,
            AgentOperationRequestAbs::Tool(_) => AgentOperationKind::Tool,
        },
        tool_id: match operation.request {
            AgentOperationRequestAbs::Tool(request) => Some(request.tool_id),
            _ => None,
        },
        delivery: operation.delivery,
    })
}

/// Whether the events of a step tell of its message and of its operation, of
/// each once, and of no other.
pub open spec fn tells_what_comes(output: AgentFsmOutputAbs) -> bool {
    &&& forall|i: int|
        0 <= i < output.events.len() ==> match #[trigger] output.events[i] {
            AgentEventDataAbs::MessageAppended { .. } => output.message is Some && tells_message(
                output.events[i],
                output.message->Some_0,
            ),
            AgentEventDataAbs::OperationCreated { .. } => output.operation is Some
                && tells_operation(output.events[i], output.operation->Some_0),
            AgentEventDataAbs::RunStatusChanged { .. } => true,
            AgentEventDataAbs::UsageUpdated { .. } => true,
            _ => false,
        }
    &&& output.message is Some ==> exists|i: int|
        0 <= i < output.events.len() && tells_message(
            #[trigger] output.events[i],
            output.message->Some_0,
        )
    &&& output.operation is Some ==> exists|i: int|
        0 <= i < output.events.len() && tells_operation(
            #[trigger] output.events[i],
            output.operation->Some_0,
        )
}

/// The events of a step tell of its message and of its operation, and of no
/// other.
#[verifier::rlimit(60)]
pub proof fn events_tell_what_comes(
    machine: AgentFsmAbs,
    state: AgentFsmStateAbs,
    input: AgentFsmInputAbs,
)
    requires
        run_step(machine, state, input) is Ok,
    ensures
        tells_what_comes(run_step(machine, state, input)->Ok_0.1),
{
    let output = run_step(machine, state, input)->Ok_0.1;
    let n = output.events.len() as int;
    if output.message is Some {
        assert(tells_message(output.events[0], output.message->Some_0));
    }
    if output.operation is Some {
        assert(tells_operation(output.events[n - 1], output.operation->Some_0) || (n >= 2
            && tells_operation(output.events[n - 2], output.operation->Some_0)));
    }
}

// ---------------------------------------------------------------------------
// Compactions
// ---------------------------------------------------------------------------

/// Whether counts are those of a prompt and a reserve against a capacity; the
/// threshold is seven tenths of the capacity, rounded up.
pub open spec fn are_counts(counts: ContextCapacity, reserved: int, capacity: u32) -> bool {
    &&& counts.reserved_output_tokens == reserved
    &&& counts.context_capacity_tokens == capacity
    &&& 10 * counts.trigger_threshold_tokens >= 7 * capacity
    &&& 10 * counts.trigger_threshold_tokens < 7 * capacity + 10
}

/// The most tokens of a summary: an eighth of the capacity, 16384 at most.
pub open spec fn summary_tokens(capacity: u32) -> int {
    if capacity / 8 < 16_384 {
        (capacity / 8) as int
    } else {
        16_384
    }
}

/// Whether a compaction fits the run, the request and the context that it was
/// asked for. Its source and its tail are the context, the source is not empty,
/// and its ends are told; the retained checkpoints are nine at most, in order,
/// and of the source alone; it names its operation and what it corrects; the
/// counts are those of the capacity, and everything stays within its share of
/// it; and every claim of the summary rests on the source.
pub open spec fn fits_request(
    machine: AgentFsmAbs,
    operation: AgentOperationAbs,
    request: CompactionRequestAbs,
    context: Seq<Seq<char>>,
    result: CompactionResultAbs,
) -> bool {
    let metadata = result.metadata;
    let capacity = request.before.context_capacity_tokens;
    let reserved = request.before.reserved_output_tokens;
    &&& reserved <= capacity
    &&& metadata.source + metadata.tail == context
    &&& metadata.source.len() > 0
    &&& metadata.source_start == metadata.source[0]
    &&& metadata.source_end == metadata.source[metadata.source.len() - 1]
    &&& metadata.tail.len() == 0 ==> metadata.tail_first is None
    &&& metadata.tail.len() > 0 ==> metadata.tail_first == Some(metadata.tail[0])
    &&& metadata.retained_checkpoints.len() <= 9
    &&& forall|i: int|
        0 <= i < metadata.retained_checkpoints.len() ==> metadata.source.contains(
            #[trigger] metadata.retained_checkpoints[i],
        ) && !metadata.tail.contains(metadata.retained_checkpoints[i])
    &&& forall|i: int|
        0 <= i < metadata.retained_checkpoints.len() - 1 ==> crate::text::precedes(
            #[trigger] metadata.retained_checkpoints[i],
            metadata.retained_checkpoints[i + 1],
        )
    &&& metadata.summary_operation == operation.key
    &&& metadata.correction_of == request.correction_of
    &&& metadata.before == request.before
    &&& are_counts(metadata.after, reserved as int, capacity)
    &&& are_counts(metadata.summary_request, summary_tokens(capacity), capacity)
    &&& metadata.summary_request.prompt_tokens + summary_tokens(capacity) <= capacity
    &&& metadata.usage.output_tokens <= summary_tokens(capacity)
    &&& result.content.exact.snapshot_run == machine.run_id
    &&& 10 * metadata.tail_tokens <= capacity
    &&& 10 * metadata.after.prompt_tokens <= capacity
    &&& metadata.after.prompt_tokens + reserved <= capacity
    &&& super::compaction::claims_failure(
        super::compaction::summary_claims(result.content.semantic),
        metadata.source,
    ) is None
}

/// A compaction is taken over exactly when it fits what it was asked for, has a
/// message to stand in and is not too long for one. Its message then takes the
/// place of the source, behind the retained checkpoints and before the tail;
/// the model call counts.
#[verifier::rlimit(60)]
pub proof fn fitting_compactions_are_taken_over(
    machine: AgentFsmAbs,
    state: AgentFsmStateAbs,
    operation: AgentOperationAbs,
    request: CompactionRequestAbs,
    result: CompactionResultAbs,
    context: Seq<Seq<char>>,
    ordinal: u32,
    pending: Seq<ToolCallAbs>,
    id: Seq<char>,
)
    requires
        awaits(state, operation.key, context, ordinal, pending),
        operation.state == AgentOperationDeliveryState::Succeeded,
        operation.request == AgentOperationRequestAbs::Compaction(request),
        operation.result == Some(AgentOperationResultAbs::Compaction(result)),
    ensures
        ({
            let step = run_step(machine, state, finishing(operation, Some(id)));
            let used = result.metadata.usage;
            if !fits_request(machine, operation, request, context, result) {
                step == Err::<(AgentFsmStateAbs, AgentFsmOutputAbs), AgentFsmError>(
                    AgentFsmError::InvalidModelResult,
                )
            } else if state.usage.model_calls == u64::MAX || state.usage.model_input_tokens
                + used.input_tokens > u64::MAX || state.usage.model_output_tokens
                + used.output_tokens > u64::MAX {
                step == Err::<(AgentFsmStateAbs, AgentFsmOutputAbs), AgentFsmError>(
                    AgentFsmError::LimitExceeded,
                )
            } else if super::compaction::rendering_failure(result.content) is Some {
                step == Err::<(AgentFsmStateAbs, AgentFsmOutputAbs), AgentFsmError>(
                    AgentFsmError::InvalidModelResult,
                )
            } else {
                &&& step matches Ok((next, output))
                &&& next.status == state.status
                &&& output.operation is None
                &&& output.message matches Some(message)
                &&& is_message(
                    message,
                    machine,
                    operation,
                    id,
                    MessageRole::Assistant,
                    MessageVisibility::Internal,
                    super::text_form::compaction_text(result.content),
                )
                &&& is_ready(
                    next,
                    result.metadata.retained_checkpoints + seq![id] + result.metadata.tail,
                    ordinal,
                )
                &&& grew(
                    state.usage,
                    next.usage,
                    1,
                    used.input_tokens as int,
                    used.output_tokens as int,
                    0,
                    0,
                    0,
                    0,
                )
            }
        }),
        fits_request(machine, operation, request, context, result) ==> run_step(
            machine,
            state,
            finishing(operation, None),
        ) == Err::<(AgentFsmStateAbs, AgentFsmOutputAbs), AgentFsmError>(
            AgentFsmError::MissingMessageId,
        ),
{
    let retained = result.metadata.retained_checkpoints;
    assert(retained.push(id) =~= retained + seq![id]);
    let metadata = result.metadata;
    let capacity = request.before.context_capacity_tokens;
    let reserved = request.before.reserved_output_tokens;
    if reserved <= capacity {
        let budgets = super::context::budgets_for(capacity, reserved, false)->Some_0;
        assert(budgets.summary_output_tokens == summary_tokens(capacity));
        assert(are_counts(metadata.after, reserved as int, capacity) <==> metadata.after
            == super::context::measured(metadata.after.prompt_tokens, reserved, capacity));
        assert(are_counts(metadata.summary_request, summary_tokens(capacity), capacity)
            <==> metadata.summary_request == super::context::measured(
            metadata.summary_request.prompt_tokens,
            budgets.summary_output_tokens,
            capacity,
        ));
        assert(super::fsm::is_consistent(machine, context, operation.key, request, budgets, result)
            <==> fits_request(machine, operation, request, context, result));
    }
}

} // verus!
