//! Conversations and what their runs are bound to.

use vstd::prelude::*;

use super::inference::ReasoningSelection;
use super::presentation::AgentPresentation;
use super::run::{AgentRunSnapshot, ExactPackageRef};
use crate::correlation_id::ConversationId;

verus! {

#[derive(Clone, Debug, PartialEq)]
pub struct ConversationView {
    pub id: ConversationId,
    pub display_name: Option<String>,
    pub function: ExactPackageRef,
    pub reasoning: ReasoningSelection,
    pub presentation: AgentPresentation,
    pub created_at_ms: i64,
    pub last_active_at_ms: i64,
}

#[derive(Clone, Debug, PartialEq)]
pub struct ConversationBinding {
    pub view: ConversationView,
    pub snapshot: AgentRunSnapshot,
}

} // verus!
