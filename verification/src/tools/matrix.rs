//! The outbox of Matrix notifications.

use vstd::prelude::*;
use vstd::string::*;

use super::descriptor::{
    lemma_declared, Effect, ExtensionAbs, ExtensionDescriptor, HookDeclaration, OperationKind,
    ToolAbs, ToolDeclaration, ToolErrorDeclaration,
};
use crate::text::same_text;

verus! {

pub const EXTENSION_ID: &'static str = "matrix.outbox";

pub const MATRIX_OUTBOX_STATUS_TOOL_ID: &'static str = "matrix.outbox:status";

pub const MATRIX_OUTBOX_ENQUEUE_TOOL_ID: &'static str = "matrix.outbox:enqueue";

/// The notifications that are told unless another number is asked for.
pub const DEFAULT_OUTBOX_LIMIT: usize = 10;

/// The most notifications that are told at once.
pub const MAX_OUTBOX_LIMIT: usize = 100;

/// The tools of the extension.
#[derive(Clone, Copy, Debug, Eq, PartialEq, Structural)]
pub enum MatrixTool {
    Status,
    Enqueue,
}

/// The tool with that ID.
pub open spec fn matrix_tool(name: Seq<char>) -> Option<MatrixTool> {
    if name == "matrix.outbox:status"@ {
        Some(MatrixTool::Status)
    } else if name == "matrix.outbox:enqueue"@ {
        Some(MatrixTool::Enqueue)
    } else {
        None
    }
}

/// The tool that a call is for.
pub fn dispatch(name: &str) -> (r: Result<MatrixTool, String>)
    ensures
        match r {
            Ok(tool) => matrix_tool(name@) == Some(tool),
            Err(error) => matrix_tool(name@) is None && error@ == "unknown matrix tool `"@ + name@
                + "`"@,
        },
{
    if same_text(name, "matrix.outbox:status") {
        Ok(MatrixTool::Status)
    } else if same_text(name, "matrix.outbox:enqueue") {
        Ok(MatrixTool::Enqueue)
    } else {
        Err("unknown matrix tool `".to_owned().concat(name).concat("`"))
    }
}

/// How many notifications are told: at least one, and no more than the limit.
pub open spec fn outbox_limit(requested: Option<usize>) -> int {
    match requested {
        None => DEFAULT_OUTBOX_LIMIT as int,
        Some(limit) => if limit < 1 {
            1
        } else if limit > MAX_OUTBOX_LIMIT {
            MAX_OUTBOX_LIMIT as int
        } else {
            limit as int
        },
    }
}

/// How many notifications are told. One more is asked for, so that it is seen
/// whether there are more.
pub fn status_limit(requested: Option<usize>) -> (r: usize)
    ensures
        r == outbox_limit(requested),
        1 <= r <= MAX_OUTBOX_LIMIT,
{
    match requested {
        None => DEFAULT_OUTBOX_LIMIT,
        Some(limit) => if limit < 1 {
            1
        } else if limit > MAX_OUTBOX_LIMIT {
            MAX_OUTBOX_LIMIT
        } else {
            limit
        },
    }
}

/// A queued notification.
#[derive(Clone, Debug, Eq, PartialEq)]
pub struct QueuedNotification {
    pub id: String,
    pub notify_ref: String,
    pub source_kind: String,
    pub source_id: String,
    pub state: String,
    pub delivered: bool,
}

/// The notifications that are told, and whether there are more.
#[derive(Clone, Debug, Eq, PartialEq)]
pub struct OutboxStatus {
    pub notifications: Vec<QueuedNotification>,
    pub truncated: bool,
}

/// What is told of a page of queued notifications.
pub fn status(queued: Vec<QueuedNotification>, limit: usize) -> (r: OutboxStatus)
    ensures
        r.truncated == (queued@.len() > limit),
        r.notifications@ == if queued@.len() > limit {
            queued@.take(limit as int)
        } else {
            queued@
        },
{
    let truncated: bool = queued.len() > limit;
    let mut notifications: Vec<QueuedNotification> = queued;
    if truncated {
        notifications.truncate(limit);
    }
    OutboxStatus { notifications, truncated }
}

/// What the extension declares.
pub open spec fn declared() -> ExtensionAbs {
    ExtensionAbs {
        id: "matrix.outbox",
        name: "Matrix Tools",
        version: None,
        tools: seq![
            ToolAbs {
                id: "matrix.outbox:status",
                description: "Inspect queued local Matrix notification outbox rows.",
                operation_kind: OperationKind::Read,
                errors: Seq::<ToolErrorDeclaration>::empty(),
                state_effects: Seq::<Effect>::empty(),
                conditional_state_effects: Seq::<Effect>::empty(),
            },
            ToolAbs {
                id: "matrix.outbox:enqueue",
                description: "Queue a Matrix notification in the local outbox without external delivery.",
                operation_kind: OperationKind::Write,
                errors: Seq::<ToolErrorDeclaration>::empty(),
                state_effects: seq![Effect::MatrixOutbox],
                conditional_state_effects: Seq::<Effect>::empty(),
            },
        ],
        effects: seq![Effect::MatrixOutbox],
        hooks: Seq::<HookDeclaration>::empty(),
    }
}

/// The declaration of the extension.
pub fn declaration() -> (r: ExtensionDescriptor)
    ensures
        r@ == declared(),
{
    let tools: Vec<ToolDeclaration> = vec![
            ToolDeclaration {
                id: "matrix.outbox:status",
                description: "Inspect queued local Matrix notification outbox rows.",
                operation_kind: OperationKind::Read,
                errors: Vec::new(),
                state_effects: Vec::new(),
                conditional_state_effects: Vec::new(),
            },
            ToolDeclaration {
                id: "matrix.outbox:enqueue",
                description: "Queue a Matrix notification in the local outbox without external delivery.",
                operation_kind: OperationKind::Write,
                errors: Vec::new(),
                state_effects: vec![Effect::MatrixOutbox],
                conditional_state_effects: Vec::new(),
            },
        ];
    let effects: Vec<Effect> = vec![Effect::MatrixOutbox];
    let hooks: Vec<HookDeclaration> = Vec::new();
    let descriptor: ExtensionDescriptor = ExtensionDescriptor {
        id: "matrix.outbox",
        name: "Matrix Tools",
        version: None,
        tools,
        effects,
        hooks,
    };
    proof {
        lemma_declared(descriptor, declared());
    }
    descriptor
}

} // verus!
