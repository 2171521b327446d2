//! What each thing that happens to an operation makes of it.

use vstd::prelude::*;

use super::event::AgentEventDataAbs;
use super::operation::{
    applied, equal_requests, AgentOperationAbs, AgentOperationDeliveryState,
    AgentOperationFailureAbs, AgentOperationFailureKindAbs, AgentOperationKeyAbs,
    AgentOperationRequestAbs, AgentOperationResultAbs, AgentOperationTerminalStatus,
    DeliveryClass,
};
use super::operation_fsm::{
    machine_of, operation_step, AgentOperationFsmAbs, AgentOperationFsmError,
    AgentOperationFsmInputAbs, AgentOperationFsmOutputAbs,
};
use crate::json::equal_json;

verus! {

/// A step of an operation.
pub type OperationStep = Result<
    (AgentOperationDeliveryState, AgentOperationFsmOutputAbs),
    AgentOperationFsmError,
>;

/// What happens to an operation: its machine takes the step, and the step is
/// applied to it. Nothing becomes of an operation whose machine refuses.
pub open spec fn advanced(
    operation: AgentOperationAbs,
    input: AgentOperationFsmInputAbs,
) -> Option<AgentOperationAbs> {
    match operation_step(machine_of(operation), operation.state, input) {
        Ok((state, output)) => match applied(operation, state, output) {
            Ok(next) => Some(next),
            Err(_) => None,
        },
        Err(_) => None,
    }
}

/// Whether an operation went on, with another state and the next revision; its
/// key, its request and its delivery stay.
pub open spec fn went_on(
    before: AgentOperationAbs,
    after: AgentOperationAbs,
    state: AgentOperationDeliveryState,
    attempt: int,
    result: Option<AgentOperationResultAbs>,
    failure: Option<AgentOperationFailureAbs>,
) -> bool {
    &&& after.key == before.key
    &&& after.request == before.request
    &&& after.delivery == before.delivery
    &&& after.state == state
    &&& after.delivery_attempt == attempt
    &&& after.result == result
    &&& after.failure == failure
    &&& after.revision == before.revision + 1
}

/// An operation that is pending starts, as its current attempt, where it is
/// asked for by its key and its request.
pub proof fn pending_operations_start(
    operation: AgentOperationAbs,
    request: AgentOperationRequestAbs,
)
    requires
        operation.revision < u64::MAX,
        operation.state == AgentOperationDeliveryState::Pending,
    ensures
        equal_requests(request, operation.request) ==> ({
            let input = AgentOperationFsmInputAbs::Start {
                key: operation.key,
                delivery_attempt: operation.delivery_attempt,
                request,
            };
            &&& advanced(operation, input) matches Some(next)
            &&& went_on(
                operation,
                next,
                AgentOperationDeliveryState::Running,
                operation.delivery_attempt as int,
                None,
                None,
            )
            &&& operation_step(machine_of(operation), operation.state, input) matches Ok((_, output))
            &&& output.dispatch matches Some(dispatch)
            &&& dispatch.key == operation.key
            &&& dispatch.delivery_attempt == operation.delivery_attempt
            &&& dispatch.request == request
        }),
{
}

/// An operation whose retry is due starts again, as its next attempt.
pub proof fn due_operations_start_again(
    operation: AgentOperationAbs,
    request: AgentOperationRequestAbs,
)
    requires
        operation.revision < u64::MAX,
        operation.state == AgentOperationDeliveryState::RetryScheduled,
        equal_requests(request, operation.request),
    ensures
        ({
            let input = AgentOperationFsmInputAbs::RetryDue {
                key: operation.key,
                delivery_attempt: operation.delivery_attempt,
                request,
            };
            let step = operation_step(machine_of(operation), operation.state, input);
            &&& operation.delivery_attempt == u32::MAX ==> step == Err::<
                (AgentOperationDeliveryState, AgentOperationFsmOutputAbs),
                AgentOperationFsmError,
            >(AgentOperationFsmError::DeliveryAttemptOverflow)
            &&& operation.delivery_attempt < u32::MAX ==> {
                &&& advanced(operation, input) matches Some(next)
                &&& went_on(
                    operation,
                    next,
                    AgentOperationDeliveryState::Running,
                    operation.delivery_attempt + 1,
                    None,
                    None,
                )
                &&& step matches Ok((_, output))
                &&& output.dispatch matches Some(dispatch)
                &&& dispatch.key == operation.key
                &&& dispatch.delivery_attempt == operation.delivery_attempt + 1
                &&& dispatch.request == request
            }
        }),
{
}

/// A running operation succeeds with a result of its kind, and keeps it.
pub proof fn results_are_kept(operation: AgentOperationAbs, result: AgentOperationResultAbs)
    requires
        operation.revision < u64::MAX,
        operation.state == AgentOperationDeliveryState::Running,
    ensures
        ({
            let input = AgentOperationFsmInputAbs::Result {
                key: operation.key,
                delivery_attempt: operation.delivery_attempt,
                result,
            };
            let fits = match operation.request {
                AgentOperationRequestAbs::ModelGeneration(_) => result is ModelGeneration,
                AgentOperationRequestAbs::Compaction(_) => result is Compaction,
                AgentOperationRequestAbs::Tool(_) => result is Tool,
            };
            &&& !fits ==> operation_step(machine_of(operation), operation.state, input) == Err::<
                (AgentOperationDeliveryState, AgentOperationFsmOutputAbs),
                AgentOperationFsmError,
            >(AgentOperationFsmError::ResultKindMismatch)
            &&& fits ==> {
                &&& advanced(operation, input) matches Some(next)
                &&& went_on(
                    operation,
                    next,
                    AgentOperationDeliveryState::Succeeded,
                    operation.delivery_attempt as int,
                    Some(result),
                    None,
                )
            }
        }),
{
}

/// A running operation that failed is tried again later where it may be: it is
/// retryable and no tool call, and there is a time for it. Otherwise it has
/// failed, and keeps the failure; where its outcome is unknown, it stays so.
pub proof fn failures_are_kept_or_tried_again(
    operation: AgentOperationAbs,
    failure: AgentOperationFailureAbs,
    retry_at_ms: Option<i64>,
)
    requires
        operation.revision < u64::MAX,
        operation.state == AgentOperationDeliveryState::Running,
    ensures
        ({
            let input = AgentOperationFsmInputAbs::Failure {
                key: operation.key,
                delivery_attempt: operation.delivery_attempt,
                failure,
                retry_at_ms,
            };
            let step = operation_step(machine_of(operation), operation.state, input);
            let attempt = operation.delivery_attempt as int;
            if failure.kind is OutcomeUnknown {
                &&& advanced(operation, input) matches Some(next)
                &&& went_on(
                    operation,
                    next,
                    AgentOperationDeliveryState::OutcomeUnknown,
                    attempt,
                    None,
                    Some(failure),
                )
            } else if retry_at_ms is Some && retry_at_ms->Some_0 < 0 {
                step == Err::<
                    (AgentOperationDeliveryState, AgentOperationFsmOutputAbs),
                    AgentOperationFsmError,
                >(AgentOperationFsmError::InvalidRetryTime)
            } else if retry_at_ms is Some && operation.delivery == DeliveryClass::Retryable && !(
            operation.request is Tool) {
                &&& advanced(operation, input) matches Some(next)
                &&& went_on(
                    operation,
                    next,
                    AgentOperationDeliveryState::RetryScheduled,
                    attempt,
                    None,
                    None,
                )
                &&& step matches Ok((_, output))
                &&& output.events == seq![
                    AgentEventDataAbs::OperationRetryScheduled {
                        key: operation.key,
                        delivery_attempt: operation.delivery_attempt,
                        retry_at_ms: retry_at_ms->Some_0,
                    },
                ]
            } else {
                &&& advanced(operation, input) matches Some(next)
                &&& went_on(
                    operation,
                    next,
                    AgentOperationDeliveryState::Failed,
                    attempt,
                    None,
                    Some(failure),
                )
            }
        }),
{
}

/// An operation that is not over can be cancelled, and keeps nothing.
pub proof fn operations_can_be_cancelled(operation: AgentOperationAbs)
    requires
        operation.revision < u64::MAX,
    ensures
        ({
            let input = AgentOperationFsmInputAbs::Cancel {
                key: operation.key,
                delivery_attempt: operation.delivery_attempt,
            };
            let live = operation.state == AgentOperationDeliveryState::Pending || operation.state
                == AgentOperationDeliveryState::Running || operation.state
                == AgentOperationDeliveryState::RetryScheduled;
            &&& live ==> {
                &&& advanced(operation, input) matches Some(next)
                &&& went_on(
                    operation,
                    next,
                    AgentOperationDeliveryState::Cancelled,
                    operation.delivery_attempt as int,
                    None,
                    None,
                )
            }
            &&& !live ==> operation_step(machine_of(operation), operation.state, input) is Err
        }),
{
}

/// A running operation that is found after a restart is tried again at once
/// where it may be delivered more than once and is no tool call; otherwise
/// nobody knows what became of it.
pub proof fn recovered_operations_are_tried_again_or_unknown(operation: AgentOperationAbs)
    requires
        operation.revision < u64::MAX,
        operation.state == AgentOperationDeliveryState::Running,
    ensures
        ({
            let input = AgentOperationFsmInputAbs::Recover {
                key: operation.key,
                delivery_attempt: operation.delivery_attempt,
            };
            &&& advanced(operation, input) matches Some(next)
            &&& if operation.delivery == DeliveryClass::AtMostOnce || operation.request is Tool {
                went_on(
                    operation,
                    next,
                    AgentOperationDeliveryState::OutcomeUnknown,
                    operation.delivery_attempt as int,
                    None,
                    Some(
                        AgentOperationFailureAbs {
                            kind: AgentOperationFailureKindAbs::OutcomeUnknown,
                        },
                    ),
                )
            } else {
                went_on(
                    operation,
                    next,
                    AgentOperationDeliveryState::RetryScheduled,
                    operation.delivery_attempt as int,
                    None,
                    None,
                )
            }
        }),
{
}

/// The operation that an input is about.
pub open spec fn is_about(input: AgentOperationFsmInputAbs, wanted: AgentOperationKeyAbs) -> bool {
    match input {
        AgentOperationFsmInputAbs::Start { key, .. } => key == wanted,
        AgentOperationFsmInputAbs::Result { key, .. } => key == wanted,
        AgentOperationFsmInputAbs::Failure { key, .. } => key == wanted,
        AgentOperationFsmInputAbs::RetryDue { key, .. } => key == wanted,
        AgentOperationFsmInputAbs::Cancel { key, .. } => key == wanted,
        AgentOperationFsmInputAbs::Recover { key, .. } => key == wanted,
    }
}

/// Nothing about another operation, and no other request, is accepted.
pub proof fn strangers_are_refused(
    machine: AgentOperationFsmAbs,
    state: AgentOperationDeliveryState,
    input: AgentOperationFsmInputAbs,
)
    ensures
        !is_about(input, machine.key) ==> operation_step(machine, state, input) == Err::<
            (AgentOperationDeliveryState, AgentOperationFsmOutputAbs),
            AgentOperationFsmError,
        >(AgentOperationFsmError::IdentityMismatch),
        is_about(input, machine.key) && (match input {
            AgentOperationFsmInputAbs::Start { request, .. } => !equal_requests(
                request,
                machine.request,
            ),
            AgentOperationFsmInputAbs::RetryDue { request, .. } => !equal_requests(
                request,
                machine.request,
            ),
            _ => false,
        }) ==> operation_step(machine, state, input) == Err::<
            (AgentOperationDeliveryState, AgentOperationFsmOutputAbs),
            AgentOperationFsmError,
        >(AgentOperationFsmError::RequestMismatch),
{
}

/// Whether an input fits the state of an operation: a pending one can start, a
/// scheduled one can become due, a running one can give a result, fail or be
/// found after a restart, and any of these can be cancelled.
pub open spec fn fits_state(
    state: AgentOperationDeliveryState,
    input: AgentOperationFsmInputAbs,
) -> bool {
    match input {
        AgentOperationFsmInputAbs::Start { .. } => state == AgentOperationDeliveryState::Pending,
        AgentOperationFsmInputAbs::RetryDue { .. } => state
            == AgentOperationDeliveryState::RetryScheduled,
        AgentOperationFsmInputAbs::Result { .. } => state == AgentOperationDeliveryState::Running,
        AgentOperationFsmInputAbs::Failure { .. } => state == AgentOperationDeliveryState::Running,
        AgentOperationFsmInputAbs::Recover { .. } => state == AgentOperationDeliveryState::Running,
        AgentOperationFsmInputAbs::Cancel { .. } => state == AgentOperationDeliveryState::Pending
            || state == AgentOperationDeliveryState::Running || state
            == AgentOperationDeliveryState::RetryScheduled,
    }
}

/// An input that does not fit the state of an operation is refused.
pub proof fn inputs_fit_the_state(
    machine: AgentOperationFsmAbs,
    state: AgentOperationDeliveryState,
    input: AgentOperationFsmInputAbs,
)
    requires
        !fits_state(state, input),
    ensures
        operation_step(machine, state, input) is Err,
{
}

/// Requests are the same where they are equal but for the numbers in the input
/// of a tool, which are equal as numbers.
pub proof fn requests_are_equal_by_content(
    left: AgentOperationRequestAbs,
    right: AgentOperationRequestAbs,
)
    ensures
        equal_requests(left, right) <==> match left {
            AgentOperationRequestAbs::Tool(a) => right matches AgentOperationRequestAbs::Tool(b)
                && a.tool_id == b.tool_id && equal_json(a.input, b.input),
            _ => left == right,
        },
{
}

// ---------------------------------------------------------------------------
// Applying what a machine answered
// ---------------------------------------------------------------------------

/// A dispatch is applied exactly when it is that of the operation: its key, its
/// request and the attempt that is due, told by one event and nothing else.
pub proof fn dispatches_match_the_operation(
    operation: AgentOperationAbs,
    output: AgentOperationFsmOutputAbs,
)
    requires
        operation.revision < u64::MAX,
    ensures
        applied(operation, AgentOperationDeliveryState::Running, output) is Ok <==> {
            let due = if operation.state == AgentOperationDeliveryState::Pending {
                operation.delivery_attempt as int
            } else {
                operation.delivery_attempt + 1
            };
            &&& operation.state == AgentOperationDeliveryState::Pending || operation.state
                == AgentOperationDeliveryState::RetryScheduled
            &&& due <= u32::MAX
            &&& output.terminal is None
            &&& output.dispatch matches Some(dispatch)
            &&& dispatch.key == operation.key
            &&& equal_requests(dispatch.request, operation.request)
            &&& dispatch.delivery_attempt == due
            &&& output.events == seq![
                AgentEventDataAbs::OperationStarted {
                    key: operation.key,
                    delivery_attempt: due as u32,
                },
            ]
        },
        applied(operation, AgentOperationDeliveryState::Running, output) matches Ok(next)
            ==> went_on(
            operation,
            next,
            AgentOperationDeliveryState::Running,
            output.dispatch->Some_0.delivery_attempt as int,
            None,
            None,
        ),
{
}

/// An end is applied exactly when it is that of the operation, is told by one
/// event and carries what belongs to it: a success its result alone, a failure
/// its failure alone, a cancellation neither.
pub proof fn ends_match_the_operation(
    operation: AgentOperationAbs,
    state: AgentOperationDeliveryState,
    output: AgentOperationFsmOutputAbs,
)
    requires
        operation.revision < u64::MAX,
        state == AgentOperationDeliveryState::Succeeded || state
            == AgentOperationDeliveryState::Failed || state
            == AgentOperationDeliveryState::Cancelled,
    ensures
        applied(operation, state, output) is Ok <==> {
            let status = if state == AgentOperationDeliveryState::Succeeded {
                AgentOperationTerminalStatus::Succeeded
            } else if state == AgentOperationDeliveryState::Failed {
                AgentOperationTerminalStatus::Failed
            } else {
                AgentOperationTerminalStatus::Cancelled
            };
            &&& output.dispatch is None
            &&& output.terminal matches Some(terminal)
            &&& terminal.key == operation.key
            &&& terminal.status == status
            &&& (terminal.result is Some) == (state == AgentOperationDeliveryState::Succeeded)
            &&& (terminal.failure is Some) == (state == AgentOperationDeliveryState::Failed)
            &&& output.events == seq![
                AgentEventDataAbs::OperationCompleted {
                    key: operation.key,
                    delivery_attempt: operation.delivery_attempt,
                    status,
                },
            ]
        },
        applied(operation, state, output) matches Ok(next) ==> went_on(
            operation,
            next,
            state,
            operation.delivery_attempt as int,
            output.terminal->Some_0.result,
            output.terminal->Some_0.failure,
        ),
{
}

/// A retry, and an outcome that is not known, are applied exactly when one
/// event of the operation and its attempt tells of them, and nothing else;
/// nothing goes back to pending, and nothing is applied to the last revision.
pub proof fn other_steps_match_the_operation(
    operation: AgentOperationAbs,
    state: AgentOperationDeliveryState,
    output: AgentOperationFsmOutputAbs,
)
    ensures
        operation.revision == u64::MAX ==> applied(operation, state, output) is Err,
        applied(operation, AgentOperationDeliveryState::Pending, output) is Err,
        operation.revision < u64::MAX ==> (applied(
            operation,
            AgentOperationDeliveryState::OutcomeUnknown,
            output,
        ) is Ok <==> output.dispatch is None && output.terminal is None && output.events == seq![
            AgentEventDataAbs::OperationOutcomeUnknown {
                key: operation.key,
                delivery_attempt: operation.delivery_attempt,
            },
        ]),
        operation.revision < u64::MAX ==> (applied(
            operation,
            AgentOperationDeliveryState::RetryScheduled,
            output,
        ) is Ok <==> output.dispatch is None && output.terminal is None && output.events.len() == 1
            && (output.events[0] matches AgentEventDataAbs::OperationRetryScheduled {
            key,
            delivery_attempt,
            retry_at_ms,
        } && key == operation.key && delivery_attempt == operation.delivery_attempt && retry_at_ms
            >= 0)),
{
}

} // verus!
