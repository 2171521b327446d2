//! Delivering queued Matrix notifications.

use vstd::prelude::*;

use super::descriptor::{
    lemma_declared, Effect, ExtensionAbs, ExtensionDescriptor, HookDeclaration, OperationKind,
    ToolAbs, ToolCatalog, ToolCatalogError, ToolDeclaration, ToolErrorDeclaration,
};

verus! {

pub const PROVIDER_ID: &'static str = "matrix.bridge";

pub const MATRIX_OUTBOX_DELIVER_TOOL_ID: &'static str = "matrix.bridge:outbox.deliver";

/// What a delivery is asked for: a limit from one to a hundred, and whether
/// nothing is to be sent.
#[derive(Clone, Debug)]
pub struct MatrixOutboxDeliverArgs {
    pub limit: Option<usize>,
    pub dry_run: bool,
}

/// What the extension declares.
pub open spec fn declared() -> ExtensionAbs {
    ExtensionAbs {
        id: "matrix.bridge",
        name: "Matrix Delivery Tools",
        version: None,
        tools: seq![
            ToolAbs {
                id: "matrix.bridge:outbox.deliver",
                description: "Deliver queued Matrix notification outbox rows through the bridge-owned Matrix client.",
                operation_kind: OperationKind::Execute,
                errors: Seq::<ToolErrorDeclaration>::empty(),
                state_effects: seq![Effect::MatrixOutbox],
                conditional_state_effects: Seq::<Effect>::empty(),
            },
        ],
        effects: seq![Effect::MatrixOutbox],
        hooks: Seq::<HookDeclaration>::empty(),
    }
}

/// The declaration of the extension.
pub fn declaration() -> (r: ExtensionDescriptor)
    ensures
        r@ == declared(),
{
    let tools: Vec<ToolDeclaration> = vec![
            ToolDeclaration {
                id: "matrix.bridge:outbox.deliver",
                description: "Deliver queued Matrix notification outbox rows through the bridge-owned Matrix client.",
                operation_kind: OperationKind::Execute,
                errors: Vec::new(),
                state_effects: vec![Effect::MatrixOutbox],
                conditional_state_effects: Vec::new(),
            },
        ];
    let effects: Vec<Effect> = vec![Effect::MatrixOutbox];
    let hooks: Vec<HookDeclaration> = Vec::new();
    let descriptor: ExtensionDescriptor = ExtensionDescriptor {
        id: "matrix.bridge",
        name: "Matrix Delivery Tools",
        version: None,
        tools,
        effects,
        hooks,
    };
    proof {
        lemma_declared(descriptor, declared());
    }
    descriptor
}

/// Takes the extension into a catalog.
pub fn register(catalog: &mut ToolCatalog) -> (r: Result<(), ToolCatalogError>)
    ensures
        match r {
            Ok(_) => !old(catalog).has("matrix.bridge"@) && final(catalog)@ == old(
                catalog,
            )@.push(declared()),
            Err(error) => old(catalog).has("matrix.bridge"@) && final(catalog)@ == old(catalog)@
                && error == (ToolCatalogError::DuplicateExtension { id: "matrix.bridge" }),
        },
{
    catalog.register(declaration())
}

} // verus!
