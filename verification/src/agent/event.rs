//! Events of a run, in the order in which they were committed.

use vstd::prelude::*;

use super::memory::MemoryClaimRejection;
use super::message::{MessageRole, MessageVisibility};
use super::operation::{
    AgentOperationKey, AgentOperationKeyAbs, AgentOperationKind, AgentOperationTerminalStatus,
    DeliveryClass, InferenceRealizationRef, InferenceRealizationRefAbs, ModelFinishReason,
    ModelUsage,
};
use super::run::{
    AgentRunFailureKind, AgentRunOrigin, AgentRunOriginAbs, AgentRunStatus, AgentRunUsage,
    PackageDigest,
};
use crate::correlation_id::{AgentRunId, MessageId};
use crate::ids::ToolId;
use crate::num::NonZeroU32;
use crate::value::Abstract;

verus! {

/// The position of an event.
#[derive(Clone, Copy, Debug, Eq, Hash, Ord, PartialEq, PartialOrd, Structural)]
pub struct AgentEventId(pub u64);

/// What is wrong with model output.
#[derive(Clone, Copy, Debug, Eq, PartialEq, Structural)]
pub enum ModelOutputFailureClass {
    MissingTerminator,
    Syntax,
    InvalidShape,
    InvalidToolId,
    InvalidContent,
    ReasoningProjection,
    StructuredToolCall,
}

impl Abstract for ModelOutputFailureClass {
    type Abs = ModelOutputFailureClass;

    open spec fn abs(&self) -> ModelOutputFailureClass {
        *self
    }

    fn duplicate(&self) -> ModelOutputFailureClass {
        *self
    }

    fn same(&self, other: &ModelOutputFailureClass) -> bool {
        *self == *other
    }
}

/// What is known of invalid model output.
#[derive(Clone, Debug, Eq, PartialEq)]
pub struct ModelOutputDiagnostic {
    pub class: ModelOutputFailureClass,
    pub field: Option<String>,
    pub finish_reason: Option<ModelFinishReason>,
    pub output_bytes: u64,
    pub output_digest: PackageDigest,
}

/// The content of `ModelOutputDiagnostic`.
pub struct ModelOutputDiagnosticAbs {
    pub class: ModelOutputFailureClass,
    pub field: Option<Seq<char>>,
    pub finish_reason: Option<ModelFinishReason>,
    pub output_bytes: u64,
    pub output_digest: Seq<u8>,
}

impl Abstract for ModelOutputDiagnostic {
    type Abs = ModelOutputDiagnosticAbs;

    open spec fn abs(&self) -> ModelOutputDiagnosticAbs {
        ModelOutputDiagnosticAbs {
            class: self.class.abs(),
            field: self.field.abs(),
            finish_reason: self.finish_reason.abs(),
            output_bytes: self.output_bytes.abs(),
            output_digest: self.output_digest.abs(),
        }
    }

    fn duplicate(&self) -> ModelOutputDiagnostic {
        ModelOutputDiagnostic {
            class: self.class.duplicate(),
            field: self.field.duplicate(),
            finish_reason: self.finish_reason.duplicate(),
            output_bytes: self.output_bytes.duplicate(),
            output_digest: self.output_digest.duplicate(),
        }
    }

    fn same(&self, other: &ModelOutputDiagnostic) -> bool {
        self.class.same(&other.class) && self.field.same(&other.field)
            && self.finish_reason.same(&other.finish_reason)
            && self.output_bytes.same(&other.output_bytes)
            && self.output_digest.same(&other.output_digest)
    }
}

/// What happened.
#[derive(Clone, Debug, Eq, PartialEq)]
pub enum AgentEventData {
    ModelOutputRejected {
        key: AgentOperationKey,
        delivery_attempt: NonZeroU32,
        correction_attempt: u32,
        diagnostic: ModelOutputDiagnostic,
        usage: ModelUsage,
        realization: Option<InferenceRealizationRef>,
    },
    /// A memory claim rejected during compaction extraction. The key identifies
    /// the extracting operation; `slug` and `text` may be absent when the claim
    /// data was malformed. Verbatim duplicates and I/O write failures emit no
    /// event.
    MemoryClaimRejected {
        key: AgentOperationKey,
        slug: Option<String>,
        reason: MemoryClaimRejection,
        text: Option<String>,
        sources: Vec<MessageId>,
    },
    RunAdmitted { origin: AgentRunOrigin },
    RunStatusChanged {
        from: AgentRunStatus,
        to: AgentRunStatus,
        failure_kind: Option<AgentRunFailureKind>,
    },
    OperationCreated {
        key: AgentOperationKey,
        kind: AgentOperationKind,
        tool_id: Option<ToolId>,
        delivery: DeliveryClass,
    },
    OperationStarted { key: AgentOperationKey, delivery_attempt: NonZeroU32 },
    OperationRetryScheduled {
        key: AgentOperationKey,
        delivery_attempt: NonZeroU32,
        retry_at_ms: i64,
    },
    OperationCompleted {
        key: AgentOperationKey,
        delivery_attempt: NonZeroU32,
        status: AgentOperationTerminalStatus,
    },
    OperationOutcomeUnknown { key: AgentOperationKey, delivery_attempt: NonZeroU32 },
    MessageAppended { message_id: MessageId, role: MessageRole, visibility: MessageVisibility },
    UsageUpdated { usage: AgentRunUsage },
}

/// The content of `AgentEventData`.
pub enum AgentEventDataAbs {
    ModelOutputRejected {
        key: AgentOperationKeyAbs,
        delivery_attempt: u32,
        correction_attempt: u32,
        diagnostic: ModelOutputDiagnosticAbs,
        usage: ModelUsage,
        realization: Option<InferenceRealizationRefAbs>,
    },
    MemoryClaimRejected {
        key: AgentOperationKeyAbs,
        slug: Option<Seq<char>>,
        reason: MemoryClaimRejection,
        text: Option<Seq<char>>,
        sources: Seq<Seq<char>>,
    },
    RunAdmitted { origin: AgentRunOriginAbs },
    RunStatusChanged {
        from: AgentRunStatus,
        to: AgentRunStatus,
        failure_kind: Option<AgentRunFailureKind>,
    },
    OperationCreated {
        key: AgentOperationKeyAbs,
        kind: AgentOperationKind,
        tool_id: Option<Seq<char>>,
        delivery: DeliveryClass,
    },
    OperationStarted { key: AgentOperationKeyAbs, delivery_attempt: u32 },
    OperationRetryScheduled { key: AgentOperationKeyAbs, delivery_attempt: u32, retry_at_ms: i64 },
    OperationCompleted {
        key: AgentOperationKeyAbs,
        delivery_attempt: u32,
        status: AgentOperationTerminalStatus,
    },
    OperationOutcomeUnknown { key: AgentOperationKeyAbs, delivery_attempt: u32 },
    MessageAppended { message_id: Seq<char>, role: MessageRole, visibility: MessageVisibility },
    UsageUpdated { usage: AgentRunUsage },
}

impl Abstract for AgentEventData {
    type Abs = AgentEventDataAbs;

    open spec fn abs(&self) -> AgentEventDataAbs {
        match self {
            AgentEventData::ModelOutputRejected {
                key,
                delivery_attempt,
                correction_attempt,
                diagnostic,
                usage,
                realization,
            } => {
                AgentEventDataAbs::ModelOutputRejected {
                    key: key.abs(),
                    delivery_attempt: delivery_attempt.abs(),
                    correction_attempt: correction_attempt.abs(),
                    diagnostic: diagnostic.abs(),
                    usage: usage.abs(),
                    realization: realization.abs(),
                }
            },
            AgentEventData::MemoryClaimRejected { key, slug, reason, text, sources } => {
                AgentEventDataAbs::MemoryClaimRejected {
                    key: key.abs(),
                    slug: slug.abs(),
                    reason: reason.abs(),
                    text: text.abs(),
                    sources: sources.abs(),
                }
            },
            AgentEventData::RunAdmitted { origin } => AgentEventDataAbs::RunAdmitted {
                origin: origin.abs(),
            },
            AgentEventData::RunStatusChanged { from, to, failure_kind } => {
                AgentEventDataAbs::RunStatusChanged {
                    from: from.abs(),
                    to: to.abs(),
                    failure_kind: failure_kind.abs(),
                }
            },
            AgentEventData::OperationCreated { key, kind, tool_id, delivery } => {
                AgentEventDataAbs::OperationCreated {
                    key: key.abs(),
                    kind: kind.abs(),
                    tool_id: tool_id.abs(),
                    delivery: delivery.abs(),
                }
            },
            AgentEventData::OperationStarted { key, delivery_attempt } => {
                AgentEventDataAbs::OperationStarted {
                    key: key.abs(),
                    delivery_attempt: delivery_attempt.abs(),
                }
            },
            AgentEventData::OperationRetryScheduled { key, delivery_attempt, retry_at_ms } => {
                AgentEventDataAbs::OperationRetryScheduled {
                    key: key.abs(),
                    delivery_attempt: delivery_attempt.abs(),
                    retry_at_ms: retry_at_ms.abs(),
                }
            },
            AgentEventData::OperationCompleted { key, delivery_attempt, status } => {
                AgentEventDataAbs::OperationCompleted {
                    key: key.abs(),
                    delivery_attempt: delivery_attempt.abs(),
                    status: status.abs(),
                }
            },
            AgentEventData::OperationOutcomeUnknown { key, delivery_attempt } => {
                AgentEventDataAbs::OperationOutcomeUnknown {
                    key: key.abs(),
                    delivery_attempt: delivery_attempt.abs(),
                }
            },
            AgentEventData::MessageAppended { message_id, role, visibility } => {
                AgentEventDataAbs::MessageAppended {
                    message_id: message_id.abs(),
                    role: role.abs(),
                    visibility: visibility.abs(),
                }
            },
            AgentEventData::UsageUpdated { usage } => AgentEventDataAbs::UsageUpdated {
                usage: usage.abs(),
            },
        }
    }

    fn duplicate(&self) -> AgentEventData {
        match self {
            AgentEventData::ModelOutputRejected {
                key,
                delivery_attempt,
                correction_attempt,
                diagnostic,
                usage,
                realization,
            } => {
                AgentEventData::ModelOutputRejected {
                    key: key.duplicate(),
                    delivery_attempt: delivery_attempt.duplicate(),
                    correction_attempt: correction_attempt.duplicate(),
                    diagnostic: diagnostic.duplicate(),
                    usage: usage.duplicate(),
                    realization: realization.duplicate(),
                }
            },
            AgentEventData::MemoryClaimRejected { key, slug, reason, text, sources } => {
                AgentEventData::MemoryClaimRejected {
                    key: key.duplicate(),
                    slug: slug.duplicate(),
                    reason: reason.duplicate(),
                    text: text.duplicate(),
                    sources: sources.duplicate(),
                }
            },
            AgentEventData::RunAdmitted { origin } => AgentEventData::RunAdmitted {
                origin: origin.duplicate(),
            },
            AgentEventData::RunStatusChanged { from, to, failure_kind } => {
                AgentEventData::RunStatusChanged {
                    from: from.duplicate(),
                    to: to.duplicate(),
                    failure_kind: failure_kind.duplicate(),
                }
            },
            AgentEventData::OperationCreated { key, kind, tool_id, delivery } => {
                AgentEventData::OperationCreated {
                    key: key.duplicate(),
                    kind: kind.duplicate(),
                    tool_id: tool_id.duplicate(),
                    delivery: delivery.duplicate(),
                }
            },
            AgentEventData::OperationStarted { key, delivery_attempt } => {
                AgentEventData::OperationStarted {
                    key: key.duplicate(),
                    delivery_attempt: delivery_attempt.duplicate(),
                }
            },
            AgentEventData::OperationRetryScheduled { key, delivery_attempt, retry_at_ms } => {
                AgentEventData::OperationRetryScheduled {
                    key: key.duplicate(),
                    delivery_attempt: delivery_attempt.duplicate(),
                    retry_at_ms: retry_at_ms.duplicate(),
                }
            },
            AgentEventData::OperationCompleted { key, delivery_attempt, status } => {
                AgentEventData::OperationCompleted {
                    key: key.duplicate(),
                    delivery_attempt: delivery_attempt.duplicate(),
                    status: status.duplicate(),
                }
            },
            AgentEventData::OperationOutcomeUnknown { key, delivery_attempt } => {
                AgentEventData::OperationOutcomeUnknown {
                    key: key.duplicate(),
                    delivery_attempt: delivery_attempt.duplicate(),
                }
            },
            AgentEventData::MessageAppended { message_id, role, visibility } => {
                AgentEventData::MessageAppended {
                    message_id: message_id.duplicate(),
                    role: role.duplicate(),
                    visibility: visibility.duplicate(),
                }
            },
            AgentEventData::UsageUpdated { usage } => AgentEventData::UsageUpdated {
                usage: usage.duplicate(),
            },
        }
    }

    fn same(&self, other: &AgentEventData) -> bool {
        match (self, other) {
            (
                AgentEventData::ModelOutputRejected {
                    key,
                    delivery_attempt,
                    correction_attempt,
                    diagnostic,
                    usage,
                    realization,
                },
                AgentEventData::ModelOutputRejected {
                    key: key2,
                    delivery_attempt: delivery_attempt2,
                    correction_attempt: correction_attempt2,
                    diagnostic: diagnostic2,
                    usage: usage2,
                    realization: realization2,
                },
            ) => {
                key.same(key2) && delivery_attempt.same(delivery_attempt2)
                    && correction_attempt.same(correction_attempt2) && diagnostic.same(diagnostic2)
                    && usage.same(usage2) && realization.same(realization2)
            },
            (
                AgentEventData::MemoryClaimRejected { key, slug, reason, text, sources },
                AgentEventData::MemoryClaimRejected {
                    key: key2,
                    slug: slug2,
                    reason: reason2,
                    text: text2,
                    sources: sources2,
                },
            ) => {
                key.same(key2) && slug.same(slug2) && reason.same(reason2) && text.same(text2)
                    && sources.same(sources2)
            },
            (
                AgentEventData::RunAdmitted { origin },
                AgentEventData::RunAdmitted { origin: origin2 },
            ) => origin.same(origin2),
            (
                AgentEventData::RunStatusChanged { from, to, failure_kind },
                AgentEventData::RunStatusChanged {
                    from: from2,
                    to: to2,
                    failure_kind: failure_kind2,
                },
            ) => {
                from.same(from2) && to.same(to2) && failure_kind.same(failure_kind2)
            },
            (
                AgentEventData::OperationCreated { key, kind, tool_id, delivery },
                AgentEventData::OperationCreated {
                    key: key2,
                    kind: kind2,
                    tool_id: tool_id2,
                    delivery: delivery2,
                },
            ) => {
                key.same(key2) && kind.same(kind2) && tool_id.same(tool_id2)
                    && delivery.same(delivery2)
            },
            (
                AgentEventData::OperationStarted { key, delivery_attempt },
                AgentEventData::OperationStarted { key: key2, delivery_attempt: delivery_attempt2 },
            ) => {
                key.same(key2) && delivery_attempt.same(delivery_attempt2)
            },
            (
                AgentEventData::OperationRetryScheduled { key, delivery_attempt, retry_at_ms },
                AgentEventData::OperationRetryScheduled {
                    key: key2,
                    delivery_attempt: delivery_attempt2,
                    retry_at_ms: retry_at_ms2,
                },
            ) => {
                key.same(key2) && delivery_attempt.same(delivery_attempt2)
                    && retry_at_ms.same(retry_at_ms2)
            },
            (
                AgentEventData::OperationCompleted { key, delivery_attempt, status },
                AgentEventData::OperationCompleted {
                    key: key2,
                    delivery_attempt: delivery_attempt2,
                    status: status2,
                },
            ) => {
                key.same(key2) && delivery_attempt.same(delivery_attempt2) && status.same(status2)
            },
            (
                AgentEventData::OperationOutcomeUnknown { key, delivery_attempt },
                AgentEventData::OperationOutcomeUnknown {
                    key: key2,
                    delivery_attempt: delivery_attempt2,
                },
            ) => {
                key.same(key2) && delivery_attempt.same(delivery_attempt2)
            },
            (
                AgentEventData::MessageAppended { message_id, role, visibility },
                AgentEventData::MessageAppended {
                    message_id: message_id2,
                    role: role2,
                    visibility: visibility2,
                },
            ) => {
                message_id.same(message_id2) && role.same(role2) && visibility.same(visibility2)
            },
            (
                AgentEventData::UsageUpdated { usage },
                AgentEventData::UsageUpdated { usage: usage2 },
            ) => usage.same(usage2),
            _ => false,
        }
    }
}

/// A committed event.
#[derive(Clone, Debug, Eq, PartialEq)]
pub struct AgentEvent {
    pub id: AgentEventId,
    pub agent_run_id: AgentRunId,
    pub operation: Option<AgentOperationKey>,
    pub run_revision: u64,
    pub operation_revision: Option<u64>,
    pub committed_at_ms: i64,
    pub data: AgentEventData,
}

/// Events in a row.
#[derive(Clone, Debug, Eq, PartialEq)]
pub struct AgentEventPage {
    pub events: Vec<AgentEvent>,
    pub next_cursor: Option<AgentEventId>,
}

} // verus!
