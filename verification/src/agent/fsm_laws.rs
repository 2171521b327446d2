//! What holds of a run whatever happens to it.

use vstd::prelude::*;
use vstd::string::*;

use super::compaction::{CompactionRequestAbs, CompactionResultAbs};
use super::event::AgentEventDataAbs;
use super::fsm::{
    answer_step, appended_event, assistant_visibility, call_step, compacted_step, correction_step,
    drive_step, end_step, failed_compaction_step, generated_step, generation_usage, limit_step,
    model_budget_left, operation_message, run_step, spoken, stop_step, tool_step,
    unsuccessful_step, wanted_calls, with_model_call, AgentFsmAbs, AgentFsmError,
    AgentFsmInputAbs, AgentFsmOutputAbs, AgentFsmStateAbs, RunStep,
};
use super::message::{AgentMessageAbs, MessageRole, MessageVisibility};
use super::operation::{
    AgentOperationAbs, AgentOperationFailureKindAbs, AgentOperationKeyAbs,
    AgentOperationRequestAbs, AgentOperationResultAbs, ModelGenerationOutputAbs,
    ModelGenerationResultAbs, ModelUsage, ToolCallAbs, ToolResultAbs,
};
use super::run::{AgentCheckpointAbs, AgentRunFailureKind, AgentRunStatus, AgentRunUsage};
use super::text_form::compaction_text;
use crate::content::content_failure;
use crate::effect::canonical_failure;

verus! {

/// A run that is over accepts no further input.
pub proof fn finished_runs_stay_finished(
    machine: AgentFsmAbs,
    state: AgentFsmStateAbs,
    input: AgentFsmInputAbs,
)
    requires
        state.status.is_over(),
    ensures
        run_step(machine, state, input) == Err::<
            (AgentFsmStateAbs, AgentFsmOutputAbs),
            AgentFsmError,
        >(AgentFsmError::Terminal),
{
}

/// Usage never goes down.
pub proof fn usage_never_shrinks(
    machine: AgentFsmAbs,
    state: AgentFsmStateAbs,
    input: AgentFsmInputAbs,
)
    requires
        run_step(machine, state, input) is Ok,
    ensures
        run_step(machine, state, input) matches Ok((next, _)) && {
            &&& next.usage.model_input_tokens >= state.usage.model_input_tokens
            &&& next.usage.model_output_tokens >= state.usage.model_output_tokens
            &&& next.usage.model_calls >= state.usage.model_calls
            &&& next.usage.correction_input_tokens >= state.usage.correction_input_tokens
            &&& next.usage.correction_output_tokens >= state.usage.correction_output_tokens
            &&& next.usage.correction_calls >= state.usage.correction_calls
            &&& next.usage.tool_calls >= state.usage.tool_calls
        },
{
}

/// The ordinal that the next operation will have.
pub open spec fn next_ordinal(state: AgentFsmStateAbs) -> u32 {
    match state.checkpoint {
        AgentCheckpointAbs::Ready { next_operation_ordinal, .. } => next_operation_ordinal,
        AgentCheckpointAbs::Waiting { next_operation_ordinal, .. } => next_operation_ordinal,
    }
}

/// A new operation has the next ordinal of the run, the run waits for it, and
/// the ordinal is not used again; without a new operation the run does not
/// begin to wait and uses up no ordinal.
#[verifier::rlimit(40)]
pub proof fn operations_are_numbered_in_order(
    machine: AgentFsmAbs,
    state: AgentFsmStateAbs,
    input: AgentFsmInputAbs,
)
    requires
        run_step(machine, state, input) is Ok,
    ensures
        run_step(machine, state, input) matches Ok((next, output)) && match output.operation {
            Some(operation) => {
                &&& operation.key.run_id == machine.run_id
                &&& operation.key.ordinal == next_ordinal(state)
                &&& operation.state is Pending
                &&& operation.revision == 0
                &&& next_ordinal(next) == next_ordinal(state) + 1
                &&& next.checkpoint matches AgentCheckpointAbs::Waiting { operation: awaited, .. }
                    && awaited == operation.key
                &&& !next.status.is_over()
            },
            None => next_ordinal(next) == next_ordinal(state) && (next.checkpoint is Ready
                || next.checkpoint == state.checkpoint),
        },
{
}

/// Every message of a run belongs to it and to the operation that brought it,
/// and is consistent wherever its content is.
pub proof fn messages_are_consistent(
    machine: AgentFsmAbs,
    state: AgentFsmStateAbs,
    input: AgentFsmInputAbs,
)
    requires
        run_step(machine, state, input) is Ok,
        input matches AgentFsmInputAbs::OperationFinished { operation, .. } ==> operation.key.run_id
            == machine.run_id,
    ensures
        run_step(machine, state, input) matches Ok((_, output)) && (
        output.message matches Some(message) ==> {
            &&& message.run_id == Some(machine.run_id)
            &&& message.conversation_id == machine.conversation_id
            &&& input matches AgentFsmInputAbs::OperationFinished { operation, message_id, .. }
                && message.source_operation == Some(operation.key) && message_id == Some(message.id)
            &&& content_failure(message.content) is None ==> super::message::message_failure(
                message,
            ) is None
        }),
{
}

/// A compaction that is taken over brings one internal message, whose text is
/// what the compaction keeps.
pub proof fn compactions_carry_their_content(
    machine: AgentFsmAbs,
    state: AgentFsmStateAbs,
    operation: AgentOperationAbs,
    message_id: Option<Seq<char>>,
    result: CompactionResultAbs,
)
    requires
        run_step(
            machine,
            state,
            AgentFsmInputAbs::OperationFinished { operation, message_id },
        ) is Ok,
        operation.state is Succeeded,
        operation.result == Some(AgentOperationResultAbs::Compaction(result)),
    ensures
        run_step(
            machine,
            state,
            AgentFsmInputAbs::OperationFinished { operation, message_id },
        ) matches Ok((next, output)) && {
            &&& output.message matches Some(message) && message.content == compaction_text(
                result.content,
            ) && message.visibility is Internal && message.role is Assistant
                && content_failure(message.content) is None
            &&& context_of(next) == result.metadata.retained_checkpoints.push(message_id->Some_0)
                + result.metadata.tail
        },
{
}

/// A new generation never asks for more output than the run has left.
pub proof fn generations_stay_within_the_output_limit(
    machine: AgentFsmAbs,
    state: AgentFsmStateAbs,
)
    requires
        run_step(machine, state, AgentFsmInputAbs::Drive) is Ok,
    ensures
        run_step(machine, state, AgentFsmInputAbs::Drive) matches Ok((_, output)) && (
        output.operation matches Some(operation) ==> operation.request
            matches AgentOperationRequestAbs::ModelGeneration(request)
            && state.usage.model_output_tokens + request.max_output_tokens
            <= machine.limits.model_output_tokens && request.max_output_tokens
            <= machine.generation_max_output_tokens),
{
}

/// The context of a run.
pub open spec fn context_of(state: AgentFsmStateAbs) -> Seq<Seq<char>> {
    match state.checkpoint {
        AgentCheckpointAbs::Ready { context, .. } => context,
        AgentCheckpointAbs::Waiting { context, .. } => context,
    }
}

/// A message that a run brings is part of its context from then on.
pub proof fn messages_join_the_context(
    machine: AgentFsmAbs,
    state: AgentFsmStateAbs,
    input: AgentFsmInputAbs,
)
    requires
        run_step(machine, state, input) is Ok,
    ensures
        run_step(machine, state, input) matches Ok((next, output)) && (
        output.message matches Some(message) ==> context_of(next).contains(message.id)),
{
    if let AgentFsmInputAbs::OperationFinished { operation, message_id, .. } = input {
        if let (AgentCheckpointAbs::Waiting { context, .. }, Some(id)) = (
            state.checkpoint,
            message_id,
        ) {
            assert(context.push(id).last() == id);
            assert(context.push(id).contains(id));
            if let Some(AgentOperationResultAbs::Compaction(result)) = operation.result {
                let retained = result.metadata.retained_checkpoints;
                let rebuilt = retained.push(id) + result.metadata.tail;
                assert(rebuilt[retained.len() as int] == id);
                assert(rebuilt.contains(id));
            }
        }
    }
}

/// A tool is called only if the run has it, with an input that is canonical
/// JSON, and is delivered in the way of the tool.
pub proof fn called_tools_are_admitted(
    machine: AgentFsmAbs,
    state: AgentFsmStateAbs,
    input: AgentFsmInputAbs,
)
    requires
        run_step(machine, state, input) is Ok,
    ensures
        run_step(machine, state, input) matches Ok((_, output)) && (
        output.operation matches Some(operation) ==> match operation.request {
            AgentOperationRequestAbs::Tool(request) => {
                &&& machine.tools.contains_key(request.tool_id)
                &&& operation.delivery == machine.tools[request.tool_id]
                &&& canonical_failure(request.input) is None
            },
            _ => operation.delivery is Retryable,
        }),
{
}

/// A run over its limits creates no operation: a generation needs a budget for
/// one more model call, and a tool call needs a count that is within the
/// limits.
pub proof fn operations_are_within_limits(
    machine: AgentFsmAbs,
    state: AgentFsmStateAbs,
    input: AgentFsmInputAbs,
)
    requires
        run_step(machine, state, input) is Ok,
    ensures
        run_step(machine, state, input) matches Ok((next, output)) && (
        output.operation matches Some(operation) ==> match operation.request {
            AgentOperationRequestAbs::ModelGeneration(_) => model_budget_left(
                machine.limits,
                next.usage,
            ),
            AgentOperationRequestAbs::Tool(_) => next.usage.tool_calls
                <= machine.limits.tool_calls,
            AgentOperationRequestAbs::Compaction(request) => request.correction_of is Some
                ==> model_budget_left(machine.limits, next.usage),
        }),
{
}

/// Whether an event tells of a change of the status.
pub open spec fn tells_status(
    event: AgentEventDataAbs,
    from: AgentRunStatus,
    to: AgentRunStatus,
) -> bool {
    event matches AgentEventDataAbs::RunStatusChanged { from: before, to: after, .. } && before
        == from && after == to
}

/// Whether a step tells of what it changes of the status and of the usage, and
/// of no other change.
pub open spec fn is_told(state: AgentFsmStateAbs, step: RunStep) -> bool {
    step matches Ok((next, output)) ==> {
        &&& next.status != state.status ==> exists|i: int|
            0 <= i < output.events.len() && tells_status(
                #[trigger] output.events[i],
                state.status,
                next.status,
            )
        &&& next.usage != state.usage ==> output.events.contains(
            AgentEventDataAbs::UsageUpdated { usage: next.usage },
        )
        &&& forall|i: int|
            0 <= i < output.events.len() ==> match #[trigger] output.events[i] {
                AgentEventDataAbs::RunStatusChanged { from, to, .. } => from == state.status && to
                    == next.status && from != to,
                AgentEventDataAbs::UsageUpdated { usage } => usage == next.usage,
                _ => true,
            }
    }
}

proof fn lemma_stop_told(
    state: AgentFsmStateAbs,
    to: AgentRunStatus,
    failure_kind: Option<AgentRunFailureKind>,
)
    requires
        !state.status.is_over(),
        to.is_over(),
    ensures
        is_told(state, stop_step(state, to, failure_kind)),
{
    if let Ok((next, output)) = stop_step(state, to, failure_kind) {
        assert(tells_status(output.events[0], state.status, next.status));
    }
}

proof fn lemma_drive_told(machine: AgentFsmAbs, state: AgentFsmStateAbs)
    requires
        !state.status.is_over(),
    ensures
        is_told(state, drive_step(machine, state)),
{
    lemma_stop_told(
        state,
        AgentRunStatus::Failed,
        Some(AgentRunFailureKind::LimitsExceeded),
    );
    if let Ok((next, output)) = drive_step(machine, state) {
        if state.checkpoint is Ready && model_budget_left(machine.limits, state.usage)
            && !(state.status is Running) {
            assert(tells_status(output.events[0], state.status, next.status));
        }
    }
}

proof fn lemma_end_told(
    state: AgentFsmStateAbs,
    usage: AgentRunUsage,
    operation: AgentOperationAbs,
    events: Seq<AgentEventDataAbs>,
)
    requires
        !state.status.is_over(),
        events == Seq::<AgentEventDataAbs>::empty() && usage == state.usage || events == seq![
            AgentEventDataAbs::UsageUpdated { usage },
        ],
    ensures
        is_told(state, end_step(state, usage, operation, events)),
{
    if let Ok((next, output)) = end_step(state, usage, operation, events) {
        let last = output.events.len() - 1;
        assert(tells_status(output.events[last], state.status, next.status));
        if usage != state.usage {
            assert(output.events[0] == (AgentEventDataAbs::UsageUpdated { usage }));
        }
    }
}

proof fn lemma_correction_told(
    machine: AgentFsmAbs,
    state: AgentFsmStateAbs,
    context: Seq<Seq<char>>,
    ordinal: u32,
    key: AgentOperationKeyAbs,
    kind: AgentOperationFailureKindAbs,
    message_id: Option<Seq<char>>,
)
    requires
        !state.status.is_over(),
    ensures
        is_told(state, correction_step(machine, state, context, ordinal, key, kind, message_id)),
{
    if let Ok((next, output)) = correction_step(
        machine,
        state,
        context,
        ordinal,
        key,
        kind,
        message_id,
    ) {
        let last = output.events.len() - 1;
        assert(output.events[last] == (AgentEventDataAbs::UsageUpdated { usage: next.usage }));
        if next.status != state.status {
            assert(tells_status(output.events[1], state.status, next.status));
        }
    }
}

proof fn lemma_failed_compaction_told(
    machine: AgentFsmAbs,
    state: AgentFsmStateAbs,
    ordinal: u32,
    operation: AgentOperationAbs,
    request: CompactionRequestAbs,
    called: bool,
    tokens: Option<ModelUsage>,
    correctable: bool,
)
    requires
        !state.status.is_over(),
    ensures
        is_told(
            state,
            failed_compaction_step(
                machine,
                state,
                ordinal,
                operation,
                request,
                called,
                tokens,
                correctable,
            ),
        ),
{
    let used = if called {
        with_model_call(state.usage, tokens)
    } else {
        Some(state.usage)
    };
    if let Some(usage) = used {
        let events = if called {
            seq![AgentEventDataAbs::UsageUpdated { usage }]
        } else {
            Seq::empty()
        };
        lemma_end_told(state, usage, operation, events);
        if let Ok((next, output)) = failed_compaction_step(
            machine,
            state,
            ordinal,
            operation,
            request,
            called,
            tokens,
            correctable,
        ) {
            if called {
                assert(output.events[0] == (AgentEventDataAbs::UsageUpdated { usage }));
            }
        }
    }
}

proof fn lemma_unsuccessful_told(
    machine: AgentFsmAbs,
    state: AgentFsmStateAbs,
    context: Seq<Seq<char>>,
    ordinal: u32,
    operation: AgentOperationAbs,
    message_id: Option<Seq<char>>,
)
    requires
        !state.status.is_over(),
    ensures
        is_told(
            state,
            unsuccessful_step(machine, state, context, ordinal, operation, message_id),
        ),
{
    lemma_end_told(state, state.usage, operation, Seq::empty());
    if let Some(failure) = operation.failure {
        lemma_correction_told(
            machine,
            state,
            context,
            ordinal,
            operation.key,
            failure.kind,
            message_id,
        );
        if let AgentOperationRequestAbs::Compaction(request) = operation.request {
            match failure.kind {
                AgentOperationFailureKindAbs::ContextExhausted(exhaustion) => {
                    if let Some(failed) = exhaustion.compaction {
                        lemma_failed_compaction_told(
                            machine,
                            state,
                            ordinal,
                            operation,
                            request,
                            failed.model_called,
                            failed.usage,
                            failed.stage is SemanticOutput || failed.stage is RebuiltInput,
                        );
                    }
                },
                AgentOperationFailureKindAbs::InvalidCompactionOutput { usage } => {
                    lemma_failed_compaction_told(
                        machine,
                        state,
                        ordinal,
                        operation,
                        request,
                        true,
                        Some(usage),
                        true,
                    );
                },
                _ => {},
            }
        }
    }
}

proof fn lemma_compacted_told(
    machine: AgentFsmAbs,
    state: AgentFsmStateAbs,
    context: Seq<Seq<char>>,
    ordinal: u32,
    operation: AgentOperationAbs,
    result: CompactionResultAbs,
    message_id: Option<Seq<char>>,
)
    ensures
        is_told(
            state,
            compacted_step(
                machine,
                state,
                context,
                ordinal,
                operation,
                result,
                message_id,
            ),
        ),
{
    if let Ok((next, output)) = compacted_step(
        machine,
        state,
        context,
        ordinal,
        operation,
        result,
        message_id,
    ) {
        assert(output.events[1] == (AgentEventDataAbs::UsageUpdated { usage: next.usage }));
    }
}

proof fn lemma_limit_told(
    state: AgentFsmStateAbs,
    usage: AgentRunUsage,
    context: Seq<Seq<char>>,
    ordinal: u32,
    message: Option<AgentMessageAbs>,
    events: Seq<AgentEventDataAbs>,
)
    requires
        !state.status.is_over(),
        forall|i: int| 0 <= i < events.len() ==> (#[trigger] events[i]) is MessageAppended,
    ensures
        is_told(state, limit_step(state, usage, context, ordinal, message, events)),
{
    let (next, output) = limit_step(state, usage, context, ordinal, message, events)->Ok_0;
    let n = events.len() as int;
    assert(output.events[n + 1] == (AgentEventDataAbs::UsageUpdated { usage }));
    assert(tells_status(output.events[n], state.status, next.status));
}

proof fn lemma_call_told(
    machine: AgentFsmAbs,
    state: AgentFsmStateAbs,
    usage: AgentRunUsage,
    context: Seq<Seq<char>>,
    ordinal: u32,
    calls: Seq<ToolCallAbs>,
    message: Option<AgentMessageAbs>,
    events: Seq<AgentEventDataAbs>,
)
    requires
        forall|i: int| 0 <= i < events.len() ==> (#[trigger] events[i]) is MessageAppended,
    ensures
        is_told(
            state,
            call_step(machine, state.status, usage, context, ordinal, calls, message, events),
        ),
{
    if let Ok((next, output)) = call_step(
        machine,
        state.status,
        usage,
        context,
        ordinal,
        calls,
        message,
        events,
    ) {
        let n = events.len() as int;
        assert(output.events[n + 1] == (AgentEventDataAbs::UsageUpdated { usage }));
    }
}

proof fn lemma_generated_told(
    machine: AgentFsmAbs,
    state: AgentFsmStateAbs,
    context: Seq<Seq<char>>,
    ordinal: u32,
    key: AgentOperationKeyAbs,
    result: ModelGenerationResultAbs,
    message_id: Option<Seq<char>>,
)
    requires
        !state.status.is_over(),
    ensures
        is_told(
            state,
            generated_step(machine, state, context, ordinal, key, result, message_id),
        ),
{
    if let Some(usage) = generation_usage(state.usage, result) {
        if let ModelGenerationOutputAbs::Assistant(content) = result.output {
            if let Ok((next, output)) = answer_step(
                machine,
                state,
                usage,
                context,
                ordinal,
                key,
                result.finish_reason,
                content,
                message_id,
            ) {
                let last = output.events.len() - 1;
                assert(output.events[last] == (AgentEventDataAbs::UsageUpdated { usage }));
                if next.status != state.status {
                    assert(tells_status(output.events[1], state.status, next.status));
                }
            }
        } else {
            let calls = wanted_calls(result.output);
            let message = match (spoken(result.output), message_id) {
                (Some(content), Some(id)) => Some(
                    operation_message(
                        machine,
                        id,
                        key,
                        MessageRole::Assistant,
                        assistant_visibility(machine),
                        content,
                    ),
                ),
                _ => None,
            };
            let events = match message {
                Some(message) => seq![appended_event(message)],
                None => Seq::empty(),
            };
            let context = match message_id {
                Some(id) => context.push(id),
                None => context,
            };
            lemma_limit_told(state, usage, context, ordinal, message, events);
            lemma_call_told(machine, state, usage, context, ordinal, calls, message, events);
        }
    }
}

proof fn lemma_tool_told(
    machine: AgentFsmAbs,
    state: AgentFsmStateAbs,
    context: Seq<Seq<char>>,
    ordinal: u32,
    pending: Seq<ToolCallAbs>,
    key: AgentOperationKeyAbs,
    result: ToolResultAbs,
    message_id: Option<Seq<char>>,
)
    requires
        !state.status.is_over(),
    ensures
        is_told(
            state,
            tool_step(machine, state, context, ordinal, pending, key, result, message_id),
        ),
{
    if let Some(id) = message_id {
        if state.usage.tool_calls < u64::MAX {
            let usage = AgentRunUsage {
                tool_calls: (state.usage.tool_calls + 1) as u64,
                ..state.usage
            };
            let message = operation_message(
                machine,
                id,
                key,
                MessageRole::Tool,
                MessageVisibility::Internal,
                result.content,
            );
            let events = seq![appended_event(message)];
            let context = context.push(id);
            lemma_limit_told(state, usage, context, ordinal, Some(message), events);
            lemma_call_told(
                machine,
                state,
                usage,
                context,
                ordinal,
                pending,
                Some(message),
                events,
            );
            let told = events.push(AgentEventDataAbs::UsageUpdated { usage });
            assert(told[1] == (AgentEventDataAbs::UsageUpdated { usage }));
        }
    }
}

/// What a step changes of the status and of the usage of a run, its events
/// tell; and they tell of no other change.
pub proof fn changes_are_told(
    machine: AgentFsmAbs,
    state: AgentFsmStateAbs,
    input: AgentFsmInputAbs,
)
    ensures
        is_told(state, run_step(machine, state, input)),
{
    if !state.status.is_over() {
        match input {
            AgentFsmInputAbs::Cancel => lemma_stop_told(state, AgentRunStatus::Cancelled, None),
            AgentFsmInputAbs::DeadlineReached => lemma_stop_told(
                state,
                AgentRunStatus::Failed,
                Some(AgentRunFailureKind::Deadline),
            ),
            AgentFsmInputAbs::Drive => lemma_drive_told(machine, state),
            AgentFsmInputAbs::OperationFinished { operation, message_id } => {
                if let AgentCheckpointAbs::Waiting {
                    context,
                    next_operation_ordinal: ordinal,
                    pending_tool_calls: pending,
                    ..
                } = state.checkpoint {
                    lemma_unsuccessful_told(
                        machine,
                        state,
                        context,
                        ordinal,
                        operation,
                        message_id,
                    );
                    match operation.result {
                        Some(AgentOperationResultAbs::Compaction(result)) => lemma_compacted_told(
                            machine,
                            state,
                            context,
                            ordinal,
                            operation,
                            result,
                            message_id,
                        ),
                        Some(AgentOperationResultAbs::ModelGeneration(result)) => {
                            lemma_generated_told(
                                machine,
                                state,
                                context,
                                ordinal,
                                operation.key,
                                result,
                                message_id,
                            )
                        },
                        Some(AgentOperationResultAbs::Tool(result)) => lemma_tool_told(
                            machine,
                            state,
                            context,
                            ordinal,
                            pending,
                            operation.key,
                            result,
                            message_id,
                        ),
                        None => {},
                    }
                }
            },
        }
    }
}

} // verus!
