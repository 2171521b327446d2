//! Core domain of the agent runtime: identities, bounded content, canonical
//! JSON, package trees, implementation plans, agent run state machines and
//! semantic memory, with the decisions of the built-in tools.

pub mod agent;
pub mod content;
pub mod correlation_id;
pub mod digest;
pub mod effect;
pub mod extension;
pub mod form_laws;
pub mod fsm;
pub mod hex;
pub mod ids;
pub mod implementation_plan;
pub mod json;
pub mod num;
pub mod order;
pub mod package;
pub mod package_laws;
pub mod text;
pub mod text_laws;
pub mod tool;
pub mod tools;
pub mod value;
pub mod written;

pub use content::{Content, ContentError, MAX_TEXT_BYTES};
pub use correlation_id::{
    AgentRunId, ConversationId, DaemonInstanceId, MessageId, ParseIdError, RequestId,
};
pub use effect::{AuthorityGrant, AuthorityGrantSet, CanonicalJson, EffectDefinition, JsonSchema};
pub use extension::ExtensionDefinition;
pub use fsm::{Fsm, Transition};
pub use ids::{EffectId, ExtensionId, IdentifierError, ToolId};
pub use tool::ToolDefinition;
