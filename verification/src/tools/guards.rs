//! The guards that run on model responses and artifact writes.

use vstd::prelude::*;
use vstd::string::*;

use super::descriptor::{
    Effect, ExtensionAbs, ExtensionDescriptor, HookDeclaration, HookEvent, ToolAbs, ToolCatalog,
    ToolCatalogError, ToolDeclaration,
};
use crate::text::same_text;

verus! {

pub const PROVIDER_ID: &'static str = "core";

pub const JSON_VALIDATE_HOOK_ID: &'static str = "core:json.validate";

pub const REPO_PATH_VALIDATE_HOOK_ID: &'static str = "core:repo_path.validate";

pub const TASK_SPEC_VALIDATE_HOOK_ID: &'static str = "core:task_spec.validate";

pub const SECRET_SCAN_VALIDATE_HOOK_ID: &'static str = "core:secret_scan.validate";

pub const DIFF_SCOPE_VALIDATE_HOOK_ID: &'static str = "core:diff_scope.validate";

pub const VERIFICATION_VALIDATE_HOOK_ID: &'static str = "core:verification.validate";

pub const COMMIT_MESSAGE_VALIDATE_HOOK_ID: &'static str = "core:commit_message.validate";

pub const SKILL_MANIFEST_VALIDATE_HOOK_ID: &'static str = "core:skill_manifest.validate";

pub const REVIEW_PACK_VALIDATE_HOOK_ID: &'static str = "core:review_pack.validate";

pub const RUNTIME_IDENTITY_VALIDATE_HOOK_ID: &'static str = "core:runtime.identity.validate";

pub const RUNTIME_IDENTITY_REQUIRE_HOOK_ID: &'static str = "core:runtime.identity.require";

/// A guard.
#[derive(Clone, Copy, Debug, Eq, PartialEq, Structural)]
pub enum GuardHook {
    Json,
    RepoPath,
    TaskSpec,
    SecretScan,
    DiffScope,
    Verification,
    CommitMessage,
    SkillManifest,
    ReviewPack,
    /// Whether the identity of the runtime must be told.
    RuntimeIdentity { required: bool },
}

/// The guard with that hook ID.
pub open spec fn guard_hook(id: Seq<char>) -> Option<GuardHook> {
    if id == "core:json.validate"@ {
        Some(GuardHook::Json)
    } else if id == "core:repo_path.validate"@ {
        Some(GuardHook::RepoPath)
    } else if id == "core:task_spec.validate"@ {
        Some(GuardHook::TaskSpec)
    } else if id == "core:secret_scan.validate"@ {
        Some(GuardHook::SecretScan)
    } else if id == "core:diff_scope.validate"@ {
        Some(GuardHook::DiffScope)
    } else if id == "core:verification.validate"@ {
        Some(GuardHook::Verification)
    } else if id == "core:commit_message.validate"@ {
        Some(GuardHook::CommitMessage)
    } else if id == "core:skill_manifest.validate"@ {
        Some(GuardHook::SkillManifest)
    } else if id == "core:review_pack.validate"@ {
        Some(GuardHook::ReviewPack)
    } else if id == "core:runtime.identity.validate"@ {
        Some(GuardHook::RuntimeIdentity { required: false })
    } else if id == "core:runtime.identity.require"@ {
        Some(GuardHook::RuntimeIdentity { required: true })
    } else {
        None
    }
}

/// Why a hook did not run.
#[derive(Clone, Debug, Eq, PartialEq)]
pub struct HookFailure {
    pub hook_id: String,
    pub code: &'static str,
    pub message: &'static str,
}

/// What the extension declares.
pub open spec fn declared() -> ExtensionAbs {
    ExtensionAbs {
        id: "core",
        name: "Core Guards",
        version: None,
        tools: Seq::<ToolAbs>::empty(),
        effects: Seq::<Effect>::empty(),
        hooks: seq![
            HookDeclaration { id: "core:json.validate", event: HookEvent::ModelResponse },
            HookDeclaration { id: "core:repo_path.validate", event: HookEvent::ArtifactWrite },
            HookDeclaration { id: "core:task_spec.validate", event: HookEvent::ArtifactWrite },
            HookDeclaration { id: "core:secret_scan.validate", event: HookEvent::ArtifactWrite },
            HookDeclaration { id: "core:diff_scope.validate", event: HookEvent::ArtifactWrite },
            HookDeclaration { id: "core:verification.validate", event: HookEvent::ArtifactWrite },
            HookDeclaration { id: "core:commit_message.validate", event: HookEvent::ArtifactWrite },
            HookDeclaration { id: "core:skill_manifest.validate", event: HookEvent::ArtifactWrite },
            HookDeclaration { id: "core:review_pack.validate", event: HookEvent::ArtifactWrite },
            HookDeclaration {
                id: "core:runtime.identity.validate",
                event: HookEvent::ArtifactWrite,
            },
            HookDeclaration {
                id: "core:runtime.identity.require",
                event: HookEvent::ArtifactWrite,
            },
        ],
    }
}

/// The declaration of the extension.
pub fn declaration() -> (r: ExtensionDescriptor)
    ensures
        r@ == declared(),
{
    let tools: Vec<ToolDeclaration> = Vec::new();
    let effects: Vec<Effect> = Vec::new();
    let hooks: Vec<HookDeclaration> = vec![
        HookDeclaration { id: "core:json.validate", event: HookEvent::ModelResponse },
        HookDeclaration { id: "core:repo_path.validate", event: HookEvent::ArtifactWrite },
        HookDeclaration { id: "core:task_spec.validate", event: HookEvent::ArtifactWrite },
        HookDeclaration { id: "core:secret_scan.validate", event: HookEvent::ArtifactWrite },
        HookDeclaration { id: "core:diff_scope.validate", event: HookEvent::ArtifactWrite },
        HookDeclaration { id: "core:verification.validate", event: HookEvent::ArtifactWrite },
        HookDeclaration { id: "core:commit_message.validate", event: HookEvent::ArtifactWrite },
        HookDeclaration { id: "core:skill_manifest.validate", event: HookEvent::ArtifactWrite },
        HookDeclaration { id: "core:review_pack.validate", event: HookEvent::ArtifactWrite },
        HookDeclaration { id: "core:runtime.identity.validate", event: HookEvent::ArtifactWrite },
        HookDeclaration { id: "core:runtime.identity.require", event: HookEvent::ArtifactWrite },
    ];
    let descriptor: ExtensionDescriptor = ExtensionDescriptor {
        id: "core",
        name: "Core Guards",
        version: None,
        tools,
        effects,
        hooks,
    };
    proof {
        assert(descriptor@.tools =~= declared().tools);
        assert(descriptor@.effects =~= declared().effects);
        assert(descriptor@.hooks =~= declared().hooks);
    }
    descriptor
}

/// Takes the guards into a catalog.
pub fn register(catalog: &mut ToolCatalog) -> (r: Result<(), ToolCatalogError>)
    ensures
        match r {
            Ok(_) => !old(catalog).has("core"@) && final(catalog)@ == old(catalog)@.push(
                declared(),
            ),
            Err(error) => old(catalog).has("core"@) && final(catalog)@ == old(catalog)@ && error
                == (ToolCatalogError::DuplicateExtension { id: "core" }),
        },
{
    catalog.register(declaration())
}

/// The guards with their declaration.
#[derive(Clone, Debug)]
pub struct CoreGuards {
    declaration: ExtensionDescriptor,
}

impl Default for CoreGuards {
    fn default() -> (r: CoreGuards)
        ensures
            r@ == declared(),
    {
        CoreGuards { declaration: declaration() }
    }
}

impl CoreGuards {
    pub closed spec fn view(&self) -> ExtensionAbs {
        self.declaration@
    }

    pub fn new() -> (r: CoreGuards)
        ensures
            r@ == declared(),
    {
        CoreGuards { declaration: declaration() }
    }

    pub fn declaration(&self) -> (r: &ExtensionDescriptor)
        ensures
            r@ == self@,
    {
        &self.declaration
    }

    /// The guard that a hook runs.
    pub fn run_hook(&self, hook_id: &str) -> (r: Result<GuardHook, HookFailure>)
        ensures
            match r {
                Ok(hook) => guard_hook(hook_id@) == Some(hook),
                Err(failure) => guard_hook(hook_id@) is None && failure.hook_id@ == hook_id@
                    && failure.code == "unknown_hook" && failure.message
                    == "unknown core guard hook",
            },
    {
        if same_text(hook_id, "core:json.validate") {
            Ok(GuardHook::Json)
        } else if same_text(hook_id, "core:repo_path.validate") {
            Ok(GuardHook::RepoPath)
        } else if same_text(hook_id, "core:task_spec.validate") {
            Ok(GuardHook::TaskSpec)
        } else if same_text(hook_id, "core:secret_scan.validate") {
            Ok(GuardHook::SecretScan)
        } else if same_text(hook_id, "core:diff_scope.validate") {
            Ok(GuardHook::DiffScope)
        } else if same_text(hook_id, "core:verification.validate") {
            Ok(GuardHook::Verification)
        } else if same_text(hook_id, "core:commit_message.validate") {
            Ok(GuardHook::CommitMessage)
        } else if same_text(hook_id, "core:skill_manifest.validate") {
            Ok(GuardHook::SkillManifest)
        } else if same_text(hook_id, "core:review_pack.validate") {
            Ok(GuardHook::ReviewPack)
        } else if same_text(hook_id, "core:runtime.identity.validate") {
            Ok(GuardHook::RuntimeIdentity { required: false })
        } else if same_text(hook_id, "core:runtime.identity.require") {
            Ok(GuardHook::RuntimeIdentity { required: true })
        } else {
            Err(
                HookFailure {
                    hook_id: hook_id.to_owned(),
                    code: "unknown_hook",
                    message: "unknown core guard hook",
                },
            )
        }
    }
}

} // verus!
