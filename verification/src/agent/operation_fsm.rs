//! The state machine of one operation.

use vstd::prelude::*;
use vstd::string::*;

use super::event::{AgentEventData, AgentEventDataAbs};
pub use super::operation::AgentOperationDeliveryState;
use super::operation::{
    applied, equal_requests, kind_of_request, requests_equal, AgentOperation, AgentOperationAbs,
    AgentOperationDispatch,
    AgentOperationDispatchAbs, AgentOperationFailure, AgentOperationFailureAbs,
    AgentOperationFailureKind, AgentOperationKey, AgentOperationKeyAbs, AgentOperationKind,
    AgentOperationRequest, AgentOperationRequestAbs, AgentOperationResult,
    AgentOperationResultAbs, AgentOperationTerminal, AgentOperationTerminalAbs,
    AgentOperationTerminalStatus, DeliveryClass,
};
use crate::fsm::{Fsm, Transition};
use crate::num::NonZeroU32;
use crate::value::{contents, Abstract};

verus! {

pub type AgentOperationFsmState = AgentOperationDeliveryState;

/// What happens to an operation.
#[derive(Clone, Debug, Eq, PartialEq)]
pub enum AgentOperationFsmInput {
    Start { key: AgentOperationKey, delivery_attempt: NonZeroU32, request: AgentOperationRequest },
    Result { key: AgentOperationKey, delivery_attempt: NonZeroU32, result: AgentOperationResult },
    Failure {
        key: AgentOperationKey,
        delivery_attempt: NonZeroU32,
        failure: AgentOperationFailure,
        retry_at_ms: Option<i64>,
    },
    RetryDue {
        key: AgentOperationKey,
        delivery_attempt: NonZeroU32,
        request: AgentOperationRequest,
    },
    Cancel { key: AgentOperationKey, delivery_attempt: NonZeroU32 },
    Recover { key: AgentOperationKey, delivery_attempt: NonZeroU32 },
}

/// The content of `AgentOperationFsmInput`.
pub enum AgentOperationFsmInputAbs {
    Start { key: AgentOperationKeyAbs, delivery_attempt: u32, request: AgentOperationRequestAbs },
    Result { key: AgentOperationKeyAbs, delivery_attempt: u32, result: AgentOperationResultAbs },
    Failure {
        key: AgentOperationKeyAbs,
        delivery_attempt: u32,
        failure: AgentOperationFailureAbs,
        retry_at_ms: Option<i64>,
    },
    RetryDue {
        key: AgentOperationKeyAbs,
        delivery_attempt: u32,
        request: AgentOperationRequestAbs,
    },
    Cancel { key: AgentOperationKeyAbs, delivery_attempt: u32 },
    Recover { key: AgentOperationKeyAbs, delivery_attempt: u32 },
}

impl Abstract for AgentOperationFsmInput {
    type Abs = AgentOperationFsmInputAbs;

    open spec fn abs(&self) -> AgentOperationFsmInputAbs {
        match self {
            AgentOperationFsmInput::Start { key, delivery_attempt, request } => {
                AgentOperationFsmInputAbs::Start {
                    key: key.abs(),
                    delivery_attempt: delivery_attempt.abs(),
                    request: request.abs(),
                }
            },
            AgentOperationFsmInput::Result { key, delivery_attempt, result } => {
                AgentOperationFsmInputAbs::Result {
                    key: key.abs(),
                    delivery_attempt: delivery_attempt.abs(),
                    result: result.abs(),
                }
            },
            AgentOperationFsmInput::Failure { key, delivery_attempt, failure, retry_at_ms } => {
                AgentOperationFsmInputAbs::Failure {
                    key: key.abs(),
                    delivery_attempt: delivery_attempt.abs(),
                    failure: failure.abs(),
                    retry_at_ms: retry_at_ms.abs(),
                }
            },
            AgentOperationFsmInput::RetryDue { key, delivery_attempt, request } => {
                AgentOperationFsmInputAbs::RetryDue {
                    key: key.abs(),
                    delivery_attempt: delivery_attempt.abs(),
                    request: request.abs(),
                }
            },
            AgentOperationFsmInput::Cancel { key, delivery_attempt } => {
                AgentOperationFsmInputAbs::Cancel {
                    key: key.abs(),
                    delivery_attempt: delivery_attempt.abs(),
                }
            },
            AgentOperationFsmInput::Recover { key, delivery_attempt } => {
                AgentOperationFsmInputAbs::Recover {
                    key: key.abs(),
                    delivery_attempt: delivery_attempt.abs(),
                }
            },
        }
    }

    fn duplicate(&self) -> AgentOperationFsmInput {
        match self {
            AgentOperationFsmInput::Start { key, delivery_attempt, request } => {
                AgentOperationFsmInput::Start {
                    key: key.duplicate(),
                    delivery_attempt: delivery_attempt.duplicate(),
                    request: request.duplicate(),
                }
            },
            AgentOperationFsmInput::Result { key, delivery_attempt, result } => {
                AgentOperationFsmInput::Result {
                    key: key.duplicate(),
                    delivery_attempt: delivery_attempt.duplicate(),
                    result: result.duplicate(),
                }
            },
            AgentOperationFsmInput::Failure { key, delivery_attempt, failure, retry_at_ms } => {
                AgentOperationFsmInput::Failure {
                    key: key.duplicate(),
                    delivery_attempt: delivery_attempt.duplicate(),
                    failure: failure.duplicate(),
                    retry_at_ms: retry_at_ms.duplicate(),
                }
            },
            AgentOperationFsmInput::RetryDue { key, delivery_attempt, request } => {
                AgentOperationFsmInput::RetryDue {
                    key: key.duplicate(),
                    delivery_attempt: delivery_attempt.duplicate(),
                    request: request.duplicate(),
                }
            },
            AgentOperationFsmInput::Cancel { key, delivery_attempt } => {
                AgentOperationFsmInput::Cancel {
                    key: key.duplicate(),
                    delivery_attempt: delivery_attempt.duplicate(),
                }
            },
            AgentOperationFsmInput::Recover { key, delivery_attempt } => {
                AgentOperationFsmInput::Recover {
                    key: key.duplicate(),
                    delivery_attempt: delivery_attempt.duplicate(),
                }
            },
        }
    }

    fn same(&self, other: &AgentOperationFsmInput) -> bool {
        match (self, other) {
            (
                AgentOperationFsmInput::Start { key, delivery_attempt, request },
                AgentOperationFsmInput::Start {
                    key: key2,
                    delivery_attempt: delivery_attempt2,
                    request: request2,
                },
            ) => {
                key.same(key2) && delivery_attempt.same(delivery_attempt2) && request.same(request2)
            },
            (
                AgentOperationFsmInput::Result { key, delivery_attempt, result },
                AgentOperationFsmInput::Result {
                    key: key2,
                    delivery_attempt: delivery_attempt2,
                    result: result2,
                },
            ) => {
                key.same(key2) && delivery_attempt.same(delivery_attempt2) && result.same(result2)
            },
            (
                AgentOperationFsmInput::Failure { key, delivery_attempt, failure, retry_at_ms },
                AgentOperationFsmInput::Failure {
                    key: key2,
                    delivery_attempt: delivery_attempt2,
                    failure: failure2,
                    retry_at_ms: retry_at_ms2,
                },
            ) => {
                key.same(key2) && delivery_attempt.same(delivery_attempt2) && failure.same(failure2)
                    && retry_at_ms.same(retry_at_ms2)
            },
            (
                AgentOperationFsmInput::RetryDue { key, delivery_attempt, request },
                AgentOperationFsmInput::RetryDue {
                    key: key2,
                    delivery_attempt: delivery_attempt2,
                    request: request2,
                },
            ) => {
                key.same(key2) && delivery_attempt.same(delivery_attempt2) && request.same(request2)
            },
            (
                AgentOperationFsmInput::Cancel { key, delivery_attempt },
                AgentOperationFsmInput::Cancel { key: key2, delivery_attempt: delivery_attempt2 },
            ) => {
                key.same(key2) && delivery_attempt.same(delivery_attempt2)
            },
            (
                AgentOperationFsmInput::Recover { key, delivery_attempt },
                AgentOperationFsmInput::Recover { key: key2, delivery_attempt: delivery_attempt2 },
            ) => {
                key.same(key2) && delivery_attempt.same(delivery_attempt2)
            },
            _ => false,
        }
    }
}

/// What follows from what happened.
#[derive(Clone, Debug, Eq, PartialEq)]
pub struct AgentOperationFsmOutput {
    pub dispatch: Option<AgentOperationDispatch>,
    pub terminal: Option<AgentOperationTerminal>,
    pub events: Vec<AgentEventData>,
}

/// The content of `AgentOperationFsmOutput`.
pub struct AgentOperationFsmOutputAbs {
    pub dispatch: Option<AgentOperationDispatchAbs>,
    pub terminal: Option<AgentOperationTerminalAbs>,
    pub events: Seq<AgentEventDataAbs>,
}

impl Abstract for AgentOperationFsmOutput {
    type Abs = AgentOperationFsmOutputAbs;

    open spec fn abs(&self) -> AgentOperationFsmOutputAbs {
        AgentOperationFsmOutputAbs {
            dispatch: self.dispatch.abs(),
            terminal: self.terminal.abs(),
            events: self.events.abs(),
        }
    }

    fn duplicate(&self) -> AgentOperationFsmOutput {
        AgentOperationFsmOutput {
            dispatch: self.dispatch.duplicate(),
            terminal: self.terminal.duplicate(),
            events: self.events.duplicate(),
        }
    }

    fn same(&self, other: &AgentOperationFsmOutput) -> bool {
        self.dispatch.same(&other.dispatch) && self.terminal.same(&other.terminal)
            && self.events.same(&other.events)
    }
}

#[derive(Clone, Copy, Debug, Eq, PartialEq, Structural)]
pub enum AgentOperationFsmError {
    IllegalTransition,
    IdentityMismatch,
    RequestMismatch,
    RequestKindMismatch,
    ResultKindMismatch,
    DeliveryAttemptOverflow,
    InvalidRetryTime,
}

impl AgentOperationFsmError {
    /// The sentence that tells a reader of this error.
    pub open spec fn message(&self) -> Seq<char> {
        match self {
            AgentOperationFsmError::IllegalTransition => "illegal AgentOperation transition"@,
            AgentOperationFsmError::IdentityMismatch =>
                "operation identity differs from the FSM owner"@,
            AgentOperationFsmError::RequestMismatch =>
                "operation request differs from the FSM owner"@,
            AgentOperationFsmError::RequestKindMismatch =>
                "operation request kind differs from the FSM kind"@,
            AgentOperationFsmError::ResultKindMismatch =>
                "operation result kind differs from the FSM kind"@,
            AgentOperationFsmError::DeliveryAttemptOverflow => "delivery attempt overflow"@,
            AgentOperationFsmError::InvalidRetryTime =>
                "retry timestamp must be nonnegative UTC milliseconds"@,
        }
    }

    pub fn to_string(&self) -> (r: String)
        ensures
            r@ == self.message(),
    {
        match self {
            AgentOperationFsmError::IllegalTransition =>
                "illegal AgentOperation transition".to_owned(),
            AgentOperationFsmError::IdentityMismatch =>
                "operation identity differs from the FSM owner".to_owned(),
            AgentOperationFsmError::RequestMismatch =>
                "operation request differs from the FSM owner".to_owned(),
            AgentOperationFsmError::RequestKindMismatch =>
                "operation request kind differs from the FSM kind".to_owned(),
            AgentOperationFsmError::ResultKindMismatch =>
                "operation result kind differs from the FSM kind".to_owned(),
            AgentOperationFsmError::DeliveryAttemptOverflow =>
                "delivery attempt overflow".to_owned(),
            AgentOperationFsmError::InvalidRetryTime =>
                "retry timestamp must be nonnegative UTC milliseconds".to_owned(),
        }
    }
}

/// The machine of one operation.
#[derive(Clone, Debug)]
pub struct AgentOperationFsm {
    key: AgentOperationKey,
    request: AgentOperationRequest,
    kind: AgentOperationKind,
    delivery: DeliveryClass,
}

/// The content of `AgentOperationFsm`.
pub struct AgentOperationFsmAbs {
    pub key: AgentOperationKeyAbs,
    pub request: AgentOperationRequestAbs,
    pub kind: AgentOperationKind,
    pub delivery: DeliveryClass,
}

/// The machine of an operation.
pub open spec fn machine_of(operation: AgentOperationAbs) -> AgentOperationFsmAbs {
    AgentOperationFsmAbs {
        key: operation.key,
        request: operation.request,
        kind: kind_of_request(operation.request),
        delivery: operation.delivery,
    }
}

/// The kind of a result.
pub open spec fn kind_of_result(result: AgentOperationResultAbs) -> AgentOperationKind {
    match result {
        AgentOperationResultAbs::ModelGeneration(_) => AgentOperationKind::ModelGeneration,
        AgentOperationResultAbs::Compaction(_) => AgentOperationKind::Compaction,
        AgentOperationResultAbs::Tool(_) => AgentOperationKind::Tool,
    }
}

/// The operation that an input speaks of.
pub open spec fn input_key(input: AgentOperationFsmInputAbs) -> AgentOperationKeyAbs {
    match input {
        AgentOperationFsmInputAbs::Start { key, .. } => key,
        AgentOperationFsmInputAbs::Result { key, .. } => key,
        AgentOperationFsmInputAbs::Failure { key, .. } => key,
        AgentOperationFsmInputAbs::RetryDue { key, .. } => key,
        AgentOperationFsmInputAbs::Cancel { key, .. } => key,
        AgentOperationFsmInputAbs::Recover { key, .. } => key,
    }
}

/// The delivery attempt that an input speaks of.
pub open spec fn input_attempt(input: AgentOperationFsmInputAbs) -> u32 {
    match input {
        AgentOperationFsmInputAbs::Start { delivery_attempt, .. } => delivery_attempt,
        AgentOperationFsmInputAbs::Result { delivery_attempt, .. } => delivery_attempt,
        AgentOperationFsmInputAbs::Failure { delivery_attempt, .. } => delivery_attempt,
        AgentOperationFsmInputAbs::RetryDue { delivery_attempt, .. } => delivery_attempt,
        AgentOperationFsmInputAbs::Cancel { delivery_attempt, .. } => delivery_attempt,
        AgentOperationFsmInputAbs::Recover { delivery_attempt, .. } => delivery_attempt,
    }
}

/// The request that an input carries.
pub open spec fn input_request(input: AgentOperationFsmInputAbs) -> Option<
    AgentOperationRequestAbs,
> {
    match input {
        AgentOperationFsmInputAbs::Start { request, .. } => Some(request),
        AgentOperationFsmInputAbs::RetryDue { request, .. } => Some(request),
        _ => None,
    }
}

/// The input does not belong to the machine.
pub open spec fn foreign_input(
    machine: AgentOperationFsmAbs,
    input: AgentOperationFsmInputAbs,
) -> Option<AgentOperationFsmError> {
    if input_key(input) != machine.key {
        Some(AgentOperationFsmError::IdentityMismatch)
    } else if input_request(input) matches Some(request) && !equal_requests(
        request,
        machine.request,
    ) {
        Some(AgentOperationFsmError::RequestMismatch)
    } else {
        None
    }
}

/// A delivery of the operation.
pub open spec fn dispatched(
    key: AgentOperationKeyAbs,
    delivery_attempt: u32,
    request: AgentOperationRequestAbs,
) -> (AgentOperationDeliveryState, AgentOperationFsmOutputAbs) {
    (
        AgentOperationDeliveryState::Running,
        AgentOperationFsmOutputAbs {
            dispatch: Some(AgentOperationDispatchAbs { key, delivery_attempt, request }),
            terminal: None,
            events: seq![AgentEventDataAbs::OperationStarted { key, delivery_attempt }],
        },
    )
}

/// The end of the operation.
pub open spec fn ended(
    key: AgentOperationKeyAbs,
    delivery_attempt: u32,
    state: AgentOperationDeliveryState,
    status: AgentOperationTerminalStatus,
    result: Option<AgentOperationResultAbs>,
    failure: Option<AgentOperationFailureAbs>,
) -> (AgentOperationDeliveryState, AgentOperationFsmOutputAbs) {
    (
        state,
        AgentOperationFsmOutputAbs {
            dispatch: None,
            terminal: Some(AgentOperationTerminalAbs { key, status, result, failure }),
            events: seq![AgentEventDataAbs::OperationCompleted { key, delivery_attempt, status }],
        },
    )
}

/// An end of which the outcome is not known.
pub open spec fn lost(key: AgentOperationKeyAbs, delivery_attempt: u32) -> (
    AgentOperationDeliveryState,
    AgentOperationFsmOutputAbs,
) {
    (
        AgentOperationDeliveryState::OutcomeUnknown,
        AgentOperationFsmOutputAbs {
            dispatch: None,
            terminal: None,
            events: seq![AgentEventDataAbs::OperationOutcomeUnknown { key, delivery_attempt }],
        },
    )
}

/// A delivery that is to be tried again.
pub open spec fn postponed(
    key: AgentOperationKeyAbs,
    delivery_attempt: u32,
    retry_at_ms: i64,
) -> (AgentOperationDeliveryState, AgentOperationFsmOutputAbs) {
    (
        AgentOperationDeliveryState::RetryScheduled,
        AgentOperationFsmOutputAbs {
            dispatch: None,
            terminal: None,
            events: seq![
                AgentEventDataAbs::OperationRetryScheduled { key, delivery_attempt, retry_at_ms },
            ],
        },
    )
}

/// Where an input takes the operation, and what follows from it; an input that
/// does not fit the state is refused.
pub open spec fn operation_step(
    machine: AgentOperationFsmAbs,
    state: AgentOperationDeliveryState,
    input: AgentOperationFsmInputAbs,
) -> Result<
    (AgentOperationDeliveryState, AgentOperationFsmOutputAbs),
    AgentOperationFsmError,
> {
    if foreign_input(machine, input) is Some {
        Err(foreign_input(machine, input)->Some_0)
    } else {
        match (state, input) {
            (
                AgentOperationDeliveryState::Pending,
                AgentOperationFsmInputAbs::Start { key, delivery_attempt, request },
            ) => if kind_of_request(request) != machine.kind {
                Err(AgentOperationFsmError::RequestKindMismatch)
            } else {
                Ok(dispatched(key, delivery_attempt, request))
            },
            (
                AgentOperationDeliveryState::RetryScheduled,
                AgentOperationFsmInputAbs::RetryDue { key, delivery_attempt, request },
            ) => if kind_of_request(request) != machine.kind {
                Err(AgentOperationFsmError::RequestKindMismatch)
            } else if delivery_attempt == u32::MAX {
                Err(AgentOperationFsmError::DeliveryAttemptOverflow)
            } else {
                Ok(dispatched(key, (delivery_attempt + 1) as u32, request))
            },
            (
                AgentOperationDeliveryState::Running,
                AgentOperationFsmInputAbs::Result { key, delivery_attempt, result },
            ) => if kind_of_result(result) != machine.kind {
                Err(AgentOperationFsmError::ResultKindMismatch)
            } else {
                Ok(
                    ended(
                        key,
                        delivery_attempt,
                        AgentOperationDeliveryState::Succeeded,
                        AgentOperationTerminalStatus::Succeeded,
                        Some(result),
                        None,
                    ),
                )
            },
            (
                AgentOperationDeliveryState::Running,
                AgentOperationFsmInputAbs::Failure { key, delivery_attempt, failure, retry_at_ms },
            ) => if failure.kind is OutcomeUnknown {
                Ok(lost(key, delivery_attempt))
            } else if retry_at_ms matches Some(time) && time >= 0 && machine.delivery is Retryable
                && !(machine.kind is Tool) {
                Ok(postponed(key, delivery_attempt, retry_at_ms->Some_0))
            } else if retry_at_ms matches Some(time) && time < 0 {
                Err(AgentOperationFsmError::InvalidRetryTime)
            } else {
                Ok(
                    ended(
                        key,
                        delivery_attempt,
                        AgentOperationDeliveryState::Failed,
                        AgentOperationTerminalStatus::Failed,
                        None,
                        Some(failure),
                    ),
                )
            },
            (
                AgentOperationDeliveryState::Pending | AgentOperationDeliveryState::Running
                | AgentOperationDeliveryState::RetryScheduled,
                AgentOperationFsmInputAbs::Cancel { key, delivery_attempt },
            ) => Ok(
                ended(
                    key,
                    delivery_attempt,
                    AgentOperationDeliveryState::Cancelled,
                    AgentOperationTerminalStatus::Cancelled,
                    None,
                    None,
                ),
            ),
            (
                AgentOperationDeliveryState::Running,
                AgentOperationFsmInputAbs::Recover { key, delivery_attempt },
            ) => if machine.delivery is AtMostOnce || machine.kind is Tool {
                Ok(lost(key, delivery_attempt))
            } else {
                Ok(postponed(key, delivery_attempt, 0))
            },
            _ => Err(AgentOperationFsmError::IllegalTransition),
        }
    }
}

impl AgentOperationFsm {
    pub closed spec fn view(&self) -> AgentOperationFsmAbs {
        AgentOperationFsmAbs {
            key: self.key.abs(),
            request: self.request.abs(),
            kind: self.kind,
            delivery: self.delivery,
        }
    }

    pub fn for_operation(operation: &AgentOperation) -> (r: AgentOperationFsm)
        ensures
            r@ == machine_of(operation.abs()),
    {
        AgentOperationFsm {
            key: operation.key,
            request: operation.request.duplicate(),
            kind: operation.kind(),
            delivery: operation.delivery,
        }
    }

    fn request_kind(request: &AgentOperationRequest) -> (r: AgentOperationKind)
        ensures
            r == kind_of_request(request.abs()),
    {
        match request {
            AgentOperationRequest::ModelGeneration(_) => AgentOperationKind::ModelGeneration,
            AgentOperationRequest::Compaction(_) => AgentOperationKind::Compaction,
            AgentOperationRequest::Tool(_) => AgentOperationKind::Tool,
        }
    }

    fn result_kind(result: &AgentOperationResult) -> (r: AgentOperationKind)
        ensures
            r == kind_of_result(result.abs()),
    {
        match result {
            AgentOperationResult::ModelGeneration(_) => AgentOperationKind::ModelGeneration,
            AgentOperationResult::Compaction(_) => AgentOperationKind::Compaction,
            AgentOperationResult::Tool(_) => AgentOperationKind::Tool,
        }
    }

    fn validate_input(&self, input: &AgentOperationFsmInput) -> (r: Result<
        (),
        AgentOperationFsmError,
    >)
        ensures
            r == (match foreign_input(self@, input.abs()) {
                Some(error) => Err::<(), AgentOperationFsmError>(error),
                None => Ok(()),
            }),
    {
        let own: bool = match input {
            AgentOperationFsmInput::Start { key, .. } => key.same(&self.key),
            AgentOperationFsmInput::Result { key, .. } => key.same(&self.key),
            AgentOperationFsmInput::Failure { key, .. } => key.same(&self.key),
            AgentOperationFsmInput::RetryDue { key, .. } => key.same(&self.key),
            AgentOperationFsmInput::Cancel { key, .. } => key.same(&self.key),
            AgentOperationFsmInput::Recover { key, .. } => key.same(&self.key),
        };
        if !own {
            return Err(AgentOperationFsmError::IdentityMismatch);
        }
        let asked: bool = match input {
            AgentOperationFsmInput::Start { request, .. } => requests_equal(request, &self.request),
            AgentOperationFsmInput::RetryDue { request, .. } => requests_equal(
                request,
                &self.request,
            ),
            _ => true,
        };
        if !asked {
            return Err(AgentOperationFsmError::RequestMismatch);
        }
        Ok(())
    }

    fn dispatch(
        key: AgentOperationKey,
        delivery_attempt: NonZeroU32,
        request: AgentOperationRequest,
    ) -> (r: Transition<AgentOperationFsmState, AgentOperationFsmOutput>)
        ensures
            (r.state, r.output.abs()) == dispatched(key.abs(), delivery_attempt@, request.abs()),
    {
        let events: Vec<AgentEventData> = vec![
            AgentEventData::OperationStarted { key, delivery_attempt },
        ];
        assert(contents(events@) =~= seq![
            AgentEventDataAbs::OperationStarted {
                key: key.abs(),
                delivery_attempt: delivery_attempt@,
            },
        ]);
        Transition {
            state: AgentOperationDeliveryState::Running,
            output: AgentOperationFsmOutput {
                dispatch: Some(AgentOperationDispatch { key, delivery_attempt, request }),
                terminal: None,
                events,
            },
        }
    }

    fn end(
        key: AgentOperationKey,
        delivery_attempt: NonZeroU32,
        state: AgentOperationDeliveryState,
        status: AgentOperationTerminalStatus,
        result: Option<AgentOperationResult>,
        failure: Option<AgentOperationFailure>,
    ) -> (r: Transition<AgentOperationFsmState, AgentOperationFsmOutput>)
        ensures
            (r.state, r.output.abs()) == ended(
                key.abs(),
                delivery_attempt@,
                state,
                status,
                result.abs(),
                failure.abs(),
            ),
    {
        let events: Vec<AgentEventData> = vec![
            AgentEventData::OperationCompleted { key, delivery_attempt, status },
        ];
        assert(contents(events@) =~= seq![
            AgentEventDataAbs::OperationCompleted {
                key: key.abs(),
                delivery_attempt: delivery_attempt@,
                status,
            },
        ]);
        Transition {
            state,
            output: AgentOperationFsmOutput {
                dispatch: None,
                terminal: Some(AgentOperationTerminal { key, status, result, failure }),
                events,
            },
        }
    }

    fn lose(key: AgentOperationKey, delivery_attempt: NonZeroU32) -> (r: Transition<
        AgentOperationFsmState,
        AgentOperationFsmOutput,
    >)
        ensures
            (r.state, r.output.abs()) == lost(key.abs(), delivery_attempt@),
    {
        let events: Vec<AgentEventData> = vec![
            AgentEventData::OperationOutcomeUnknown { key, delivery_attempt },
        ];
        assert(contents(events@) =~= seq![
            AgentEventDataAbs::OperationOutcomeUnknown {
                key: key.abs(),
                delivery_attempt: delivery_attempt@,
            },
        ]);
        Transition {
            state: AgentOperationDeliveryState::OutcomeUnknown,
            output: AgentOperationFsmOutput { dispatch: None, terminal: None, events },
        }
    }

    fn postpone(
        key: AgentOperationKey,
        delivery_attempt: NonZeroU32,
        retry_at_ms: i64,
    ) -> (r: Transition<AgentOperationFsmState, AgentOperationFsmOutput>)
        ensures
            (r.state, r.output.abs()) == postponed(key.abs(), delivery_attempt@, retry_at_ms),
    {
        let events: Vec<AgentEventData> = vec![
            AgentEventData::OperationRetryScheduled { key, delivery_attempt, retry_at_ms },
        ];
        assert(contents(events@) =~= seq![
            AgentEventDataAbs::OperationRetryScheduled {
                key: key.abs(),
                delivery_attempt: delivery_attempt@,
                retry_at_ms,
            },
        ]);
        Transition {
            state: AgentOperationDeliveryState::RetryScheduled,
            output: AgentOperationFsmOutput { dispatch: None, terminal: None, events },
        }
    }
}

impl Fsm for AgentOperationFsm {
    type State = AgentOperationFsmState;

    type Input = AgentOperationFsmInput;

    type Output = AgentOperationFsmOutput;

    type Error = AgentOperationFsmError;

    fn transition(&self, state: &AgentOperationFsmState, input: AgentOperationFsmInput) -> (r:
        Result<
            Transition<AgentOperationFsmState, AgentOperationFsmOutput>,
            AgentOperationFsmError,
        >)
        ensures
            match r {
                Ok(step) => operation_step(self@, *state, input.abs()) == Ok::<
                    (AgentOperationDeliveryState, AgentOperationFsmOutputAbs),
                    AgentOperationFsmError,
                >((step.state, step.output.abs())),
                Err(error) => operation_step(self@, *state, input.abs()) == Err::<
                    (AgentOperationDeliveryState, AgentOperationFsmOutputAbs),
                    AgentOperationFsmError,
                >(error),
            },
    {
        if let Err(error) = self.validate_input(&input) {
            return Err(error);
        }
        match (*state, input) {
            (
                AgentOperationDeliveryState::Pending,
                AgentOperationFsmInput::Start { key, delivery_attempt, request },
            ) => {
                if AgentOperationFsm::request_kind(&request) != self.kind {
                    return Err(AgentOperationFsmError::RequestKindMismatch);
                }
                Ok(AgentOperationFsm::dispatch(key, delivery_attempt, request))
            },
            (
                AgentOperationDeliveryState::RetryScheduled,
                AgentOperationFsmInput::RetryDue { key, delivery_attempt, request },
            ) => {
                if AgentOperationFsm::request_kind(&request) != self.kind {
                    return Err(AgentOperationFsmError::RequestKindMismatch);
                }
                match delivery_attempt.checked_next() {
                    Some(next) => Ok(AgentOperationFsm::dispatch(key, next, request)),
                    None => Err(AgentOperationFsmError::DeliveryAttemptOverflow),
                }
            },
            (
                AgentOperationDeliveryState::Running,
                AgentOperationFsmInput::Result { key, delivery_attempt, result },
            ) => {
                if AgentOperationFsm::result_kind(&result) != self.kind {
                    return Err(AgentOperationFsmError::ResultKindMismatch);
                }
                Ok(
                    AgentOperationFsm::end(
                        key,
                        delivery_attempt,
                        AgentOperationDeliveryState::Succeeded,
                        AgentOperationTerminalStatus::Succeeded,
                        Some(result),
                        None,
                    ),
                )
            },
            (
                AgentOperationDeliveryState::Running,
                AgentOperationFsmInput::Failure { key, delivery_attempt, failure, retry_at_ms },
            ) => {
                if let AgentOperationFailureKind::OutcomeUnknown = failure.kind {
                    return Ok(AgentOperationFsm::lose(key, delivery_attempt));
                }
                if let Some(time) = retry_at_ms {
                    if self.delivery == DeliveryClass::Retryable && self.kind
                        != AgentOperationKind::Tool && time >= 0 {
                        return Ok(AgentOperationFsm::postpone(key, delivery_attempt, time));
                    }
                    if time < 0 {
                        return Err(AgentOperationFsmError::InvalidRetryTime);
                    }
                }
                Ok(
                    AgentOperationFsm::end(
                        key,
                        delivery_attempt,
                        AgentOperationDeliveryState::Failed,
                        AgentOperationTerminalStatus::Failed,
                        None,
                        Some(failure),
                    ),
                )
            },
            (
                AgentOperationDeliveryState::Pending | AgentOperationDeliveryState::Running
                | AgentOperationDeliveryState::RetryScheduled,
                AgentOperationFsmInput::Cancel { key, delivery_attempt },
            ) => Ok(
                AgentOperationFsm::end(
                    key,
                    delivery_attempt,
                    AgentOperationDeliveryState::Cancelled,
                    AgentOperationTerminalStatus::Cancelled,
                    None,
                    None,
                ),
            ),
            (
                AgentOperationDeliveryState::Running,
                AgentOperationFsmInput::Recover { key, delivery_attempt },
            ) => {
                if self.delivery == DeliveryClass::AtMostOnce || self.kind
                    == AgentOperationKind::Tool {
                    Ok(AgentOperationFsm::lose(key, delivery_attempt))
                } else {
                    Ok(AgentOperationFsm::postpone(key, delivery_attempt, 0))
                }
            },
            _ => Err(AgentOperationFsmError::IllegalTransition),
        }
    }
}

/// An operation that is over accepts no further input.
pub proof fn finished_operations_stay_finished(
    machine: AgentOperationFsmAbs,
    state: AgentOperationDeliveryState,
    input: AgentOperationFsmInputAbs,
)
    requires
        state.is_over(),
    ensures
        operation_step(machine, state, input) is Err,
{
}

/// What the machine of an operation answers in the state of the operation, to
/// an input about its current attempt, can be applied to the operation.
pub proof fn machine_steps_apply(operation: AgentOperationAbs, input: AgentOperationFsmInputAbs)
    requires
        operation.revision < u64::MAX,
        input_attempt(input) == operation.delivery_attempt,
        operation_step(machine_of(operation), operation.state, input) is Ok,
    ensures
        operation_step(machine_of(operation), operation.state, input) matches Ok((state, output))
            && applied(operation, state, output) matches Ok(next) && next.state == state,
{
}

/// A tool call and an operation that may be delivered once only are never
/// delivered again after a restart or a failure.
pub proof fn at_most_once_is_never_retried(
    machine: AgentOperationFsmAbs,
    state: AgentOperationDeliveryState,
    input: AgentOperationFsmInputAbs,
)
    requires
        machine.delivery is AtMostOnce || machine.kind is Tool,
        operation_step(machine, state, input) is Ok,
    ensures
        operation_step(machine, state, input) matches Ok((next, _)) && !(next is RetryScheduled),
{
}

} // verus!
