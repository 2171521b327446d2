//! Messages of a conversation and of a run.

use vstd::prelude::*;

use super::operation::{
    AgentOperationKey, AgentOperationKeyAbs, AgentOperationRequest,
};
use crate::content::{content_failure, Content};
use crate::correlation_id::{AgentRunId, ConversationId, MessageId};
use crate::value::Abstract;

verus! {

/// Who speaks.
#[derive(Clone, Copy, Debug, Eq, PartialEq, Structural)]
pub enum MessageRole {
    User,
    Assistant,
    Tool,
}

impl Abstract for MessageRole {
    type Abs = MessageRole;

    open spec fn abs(&self) -> MessageRole {
        *self
    }

    fn duplicate(&self) -> MessageRole {
        *self
    }

    fn same(&self, other: &MessageRole) -> bool {
        *self == *other
    }
}

/// Who can see a message.
#[derive(Clone, Copy, Debug, Eq, PartialEq, Structural)]
pub enum MessageVisibility {
    Conversation,
    Internal,
}

impl Abstract for MessageVisibility {
    type Abs = MessageVisibility;

    open spec fn abs(&self) -> MessageVisibility {
        *self
    }

    fn duplicate(&self) -> MessageVisibility {
        *self
    }

    fn same(&self, other: &MessageVisibility) -> bool {
        *self == *other
    }
}

/// A message.
#[derive(Clone, Debug, Eq, PartialEq)]
pub struct AgentMessage {
    pub id: MessageId,
    pub conversation_id: Option<ConversationId>,
    pub run_id: Option<AgentRunId>,
    pub source_operation: Option<AgentOperationKey>,
    pub role: MessageRole,
    pub visibility: MessageVisibility,
    pub content: Content,
}

/// The content of `AgentMessage`.
pub struct AgentMessageAbs {
    pub id: Seq<char>,
    pub conversation_id: Option<Seq<u8>>,
    pub run_id: Option<Seq<u8>>,
    pub source_operation: Option<AgentOperationKeyAbs>,
    pub role: MessageRole,
    pub visibility: MessageVisibility,
    pub content: Seq<char>,
}

impl Abstract for AgentMessage {
    type Abs = AgentMessageAbs;

    open spec fn abs(&self) -> AgentMessageAbs {
        AgentMessageAbs {
            id: self.id.abs(),
            conversation_id: self.conversation_id.abs(),
            run_id: self.run_id.abs(),
            source_operation: self.source_operation.abs(),
            role: self.role.abs(),
            visibility: self.visibility.abs(),
            content: self.content.abs(),
        }
    }

    fn duplicate(&self) -> AgentMessage {
        AgentMessage {
            id: self.id.duplicate(),
            conversation_id: self.conversation_id.duplicate(),
            run_id: self.run_id.duplicate(),
            source_operation: self.source_operation.duplicate(),
            role: self.role.duplicate(),
            visibility: self.visibility.duplicate(),
            content: self.content.duplicate(),
        }
    }

    fn same(&self, other: &AgentMessage) -> bool {
        self.id.same(&other.id) && self.conversation_id.same(&other.conversation_id)
            && self.run_id.same(&other.run_id)
            && self.source_operation.same(&other.source_operation) && self.role.same(&other.role)
            && self.visibility.same(&other.visibility) && self.content.same(&other.content)
    }
}

/// Messages in a row.
#[derive(Clone, Debug, Eq, PartialEq)]
pub struct AgentMessagePage {
    pub messages: Vec<AgentMessage>,
    pub next_cursor: Option<MessageId>,
}

/// A message in the context of a model, with the request that it comes from.
#[derive(Clone, Debug, Eq, PartialEq)]
pub struct AgentContextEntry {
    pub message: AgentMessage,
    pub source_request: Option<AgentOperationRequest>,
    pub private_reasoning: Option<Content>,
}

/// Why a message is not consistent, if it is not.
pub open spec fn message_failure(message: AgentMessageAbs) -> Option<&'static str> {
    if message.visibility is Conversation && message.conversation_id is None {
        Some("conversation-visible message requires a conversation")
    } else if message.source_operation matches Some(operation) && message.run_id != Some(
        operation.run_id,
    ) {
        Some("source operation must belong to the message run")
    } else if message.role is User && message.source_operation is Some {
        Some("user message cannot have a source operation")
    } else if !(message.role is User) && message.source_operation is None {
        Some("generated message requires a source operation")
    } else if content_failure(message.content) is Some {
        Some("invalid message content")
    } else {
        None
    }
}

impl AgentMessage {
    pub fn validate(&self) -> (r: Result<(), &'static str>)
        ensures
            r == (match message_failure(self.abs()) {
                Some(error) => Err::<(), &'static str>(error),
                None => Ok(()),
            }),
    {
        if self.visibility == MessageVisibility::Conversation && self.conversation_id.is_none() {
            return Err("conversation-visible message requires a conversation");
        }
        if let Some(operation) = &self.source_operation {
            let own: bool = match &self.run_id {
                Some(run_id) => run_id.same(&operation.run_id),
                None => false,
            };
            if !own {
                return Err("source operation must belong to the message run");
            }
        }
        match self.role {
            MessageRole::User => {
                if self.source_operation.is_some() {
                    return Err("user message cannot have a source operation");
                }
            },
            _ => {
                if self.source_operation.is_none() {
                    return Err("generated message requires a source operation");
                }
            },
        }
        match self.content.validate() {
            Ok(_) => Ok(()),
            Err(_) => Err("invalid message content"),
        }
    }
}

/// Why a context entry is not consistent, if it is not.
pub open spec fn entry_failure(entry: AgentContextEntry) -> Option<&'static str> {
    if message_failure(entry.message.abs()) is Some {
        message_failure(entry.message.abs())
    } else if entry.private_reasoning matches Some(reasoning) && content_failure(
        reasoning@,
    ) is Some {
        Some("invalid private reasoning content")
    } else if entry.private_reasoning is Some && entry.message.role is User {
        Some("user context message cannot have private reasoning")
    } else {
        match (entry.message.role, entry.source_request) {
            (MessageRole::User, None) => None,
            (MessageRole::User, Some(_)) => Some(
                "user context message cannot have a source request",
            ),
            (MessageRole::Assistant, Some(AgentOperationRequest::ModelGeneration(_))) => None,
            (MessageRole::Assistant, Some(AgentOperationRequest::Compaction(_))) => if !(
            entry.message.visibility is Internal) || entry.private_reasoning is Some {
                Some("compaction context must be internal without private reasoning")
            } else {
                None
            },
            (MessageRole::Tool, Some(AgentOperationRequest::Tool(_))) => None,
            (_, None) => Some("generated context message requires its source request"),
            (MessageRole::Assistant, Some(AgentOperationRequest::Tool(_))) => Some(
                "assistant context message requires a model source request",
            ),
            (MessageRole::Tool, Some(_)) => Some(
                "tool context message requires a Tool source request",
            ),
        }
    }
}

impl AgentContextEntry {
    pub fn validate(&self) -> (r: Result<(), &'static str>)
        ensures
            r == (match entry_failure(*self) {
                Some(error) => Err::<(), &'static str>(error),
                None => Ok(()),
            }),
    {
        if let Err(error) = self.message.validate() {
            return Err(error);
        }
        if let Some(reasoning) = &self.private_reasoning {
            if reasoning.validate().is_err() {
                return Err("invalid private reasoning content");
            }
            if self.message.role == MessageRole::User {
                return Err("user context message cannot have private reasoning");
            }
        }
        match (&self.message.role, &self.source_request) {
            (MessageRole::User, None) => Ok(()),
            (MessageRole::User, Some(_)) => Err(
                "user context message cannot have a source request",
            ),
            (MessageRole::Assistant, Some(AgentOperationRequest::ModelGeneration(_))) => Ok(()),
            (MessageRole::Assistant, Some(AgentOperationRequest::Compaction(_))) => {
                if self.message.visibility != MessageVisibility::Internal
                    || self.private_reasoning.is_some() {
                    return Err("compaction context must be internal without private reasoning");
                }
                Ok(())
            },
            (MessageRole::Tool, Some(AgentOperationRequest::Tool(_))) => Ok(()),
            (_, None) => Err("generated context message requires its source request"),
            (MessageRole::Assistant, Some(AgentOperationRequest::Tool(_))) => Err(
                "assistant context message requires a model source request",
            ),
            (MessageRole::Tool, Some(_)) => Err(
                "tool context message requires a Tool source request",
            ),
        }
    }
}

} // verus!
