//! What the extensions declare is what they carry out and change.

use vstd::prelude::*;
use vstd::string::*;

use super::descriptor::{Effect, ExtensionAbs};
use super::fs;
use super::guards;
use super::matrix;
use super::matrix_delivery;
use super::permissions;
use super::process;
use super::repo;
use super::store;

verus! {

/// Whether a tool of an extension has that name.
pub open spec fn has_tool(extension: ExtensionAbs, name: Seq<char>) -> bool {
    exists|i: int| 0 <= i < extension.tools.len() && (#[trigger] extension.tools[i]).id@ == name
}

/// Whether a hook of an extension has that name.
pub open spec fn has_hook(extension: ExtensionAbs, name: Seq<char>) -> bool {
    exists|i: int| 0 <= i < extension.hooks.len() && (#[trigger] extension.hooks[i]).id@ == name
}

/// Whether a tool of an extension changes a state, always or on some calls.
pub open spec fn has_effect(extension: ExtensionAbs, effect: Effect) -> bool {
    exists|i: int|
        0 <= i < extension.tools.len() && ((#[trigger] extension.tools[i]).state_effects.contains(
            effect,
        ) || extension.tools[i].conditional_state_effects.contains(effect))
}

/// Whether an extension declares the effects of its tools and no others, and
/// none is certain of a tool that only reads.
pub open spec fn declares_its_effects(extension: ExtensionAbs) -> bool {
    &&& forall|effect: Effect| #[trigger]
        extension.effects.contains(effect) <==> has_effect(extension, effect)
    &&& forall|i: int|
        0 <= i < extension.tools.len() && (#[trigger] extension.tools[i]).operation_kind is Read
            ==> extension.tools[i].state_effects.len() == 0
}

/// A tool is carried out exactly when it is declared.
pub proof fn declared_tools_are_carried_out(name: Seq<char>)
    ensures
        fs::fs_tool(name) is Some <==> has_tool(fs::declared(), name),
        process::process_tool(name) is Some <==> has_tool(process::declared(), name),
        repo::repo_tool(name) is Some <==> has_tool(repo::declared(), name),
        store::store_tool(name) is Some <==> has_tool(store::declared(), name),
        permissions::permission_tool(name) is Some <==> has_tool(permissions::declared(), name),
        matrix::matrix_tool(name) is Some <==> has_tool(matrix::declared(), name),
{
    let tools = fs::declared().tools;
    assert(tools[0].id@ == "core.workspace:fs.read"@);
    assert(tools[1].id@ == "core.workspace:fs.list"@);
    assert(tools[2].id@ == "core.workspace:fs.search"@);
    assert(tools[3].id@ == "core.workspace:fs.apply_patch"@);
    let tools = process::declared().tools;
    assert(tools[0].id@ == "core.process:process.pwd"@);
    assert(tools[1].id@ == "core.process:process.cd"@);
    assert(tools[2].id@ == "core.process:process.exec"@);
    assert(tools[3].id@ == "core.process:process.start"@);
    assert(tools[4].id@ == "core.process:process.status"@);
    assert(tools[5].id@ == "core.process:process.read"@);
    assert(tools[6].id@ == "core.process:process.write"@);
    assert(tools[7].id@ == "core.process:process.resize"@);
    assert(tools[8].id@ == "core.process:process.kill"@);
    assert(tools[9].id@ == "core.process:shell.exec"@);
    let tools = repo::declared().tools;
    assert(tools[0].id@ == "core.repo:artifact.commit"@);
    assert(tools[1].id@ == "core.repo:tasks.verify"@);
    let tools = store::declared().tools;
    assert(tools[0].id@ == "core.store:status"@);
    assert(tools[1].id@ == "core.store:export"@);
    assert(tools[2].id@ == "core.store:migrate"@);
    let tools = permissions::declared().tools;
    assert(tools[0].id@ == "core.permission:status"@);
    assert(tools[1].id@ == "core.permission:request"@);
    assert(tools[2].id@ == "core.permission:grant"@);
    assert(tools[3].id@ == "core.permission:revoke"@);
    let tools = matrix::declared().tools;
    assert(tools[0].id@ == "matrix.outbox:status"@);
    assert(tools[1].id@ == "matrix.outbox:enqueue"@);
}

/// A guard runs exactly when it is declared.
pub proof fn declared_guards_are_run(name: Seq<char>)
    ensures
        guards::guard_hook(name) is Some <==> has_hook(guards::declared(), name),
{
    let hooks = guards::declared().hooks;
    assert(hooks[0].id@ == "core:json.validate"@);
    assert(hooks[1].id@ == "core:repo_path.validate"@);
    assert(hooks[2].id@ == "core:task_spec.validate"@);
    assert(hooks[3].id@ == "core:secret_scan.validate"@);
    assert(hooks[4].id@ == "core:diff_scope.validate"@);
    assert(hooks[5].id@ == "core:verification.validate"@);
    assert(hooks[6].id@ == "core:commit_message.validate"@);
    assert(hooks[7].id@ == "core:skill_manifest.validate"@);
    assert(hooks[8].id@ == "core:review_pack.validate"@);
    assert(hooks[9].id@ == "core:runtime.identity.validate"@);
    assert(hooks[10].id@ == "core:runtime.identity.require"@);
}

/// The tools for files have the effects that are declared for them.
pub proof fn files_have_declared_effects()
    ensures
        declares_its_effects(fs::declared()),
{
    let all = fs::declared();
    assert(all.effects[0] == Effect::RepoFiles);
    assert(all.tools[3].state_effects[0] == Effect::RepoFiles);
    assert forall|effect: Effect| #[trigger] all.effects.contains(effect) implies has_effect(
        all,
        effect,
    ) by {
        if effect == Effect::RepoFiles {
            assert(all.tools[3].state_effects.contains(effect));
        }
    }
    assert forall|effect: Effect| has_effect(all, effect) implies #[trigger] all.effects.contains(
        effect,
    ) by {
        if effect == Effect::RepoFiles {
            assert(all.effects.contains(effect));
        }
    }
}

/// The tools for processes have the effects that are declared for them.
pub proof fn processes_have_declared_effects()
    ensures
        declares_its_effects(process::declared()),
{
    let all = process::declared();
    assert(all.effects[0] == Effect::SessionWorkingDirectory);
    assert(all.effects[1] == Effect::SpawnProcess);
    assert(all.effects[2] == Effect::ControlProcess);
    assert(all.effects[3] == Effect::HostProcessExecution);
    assert(all.effects[4] == Effect::ShellLoginStartup);
    assert(all.effects[5] == Effect::RepoWorkspace);
    assert(all.tools[1].state_effects[0] == Effect::SessionWorkingDirectory);
    assert(all.tools[1].conditional_state_effects[0] == Effect::HostProcessExecution);
    assert(all.tools[2].state_effects[0] == Effect::SpawnProcess);
    assert(all.tools[2].conditional_state_effects[0] == Effect::HostProcessExecution);
    assert(all.tools[3].state_effects[0] == Effect::SpawnProcess);
    assert(all.tools[3].conditional_state_effects[0] == Effect::HostProcessExecution);
    assert(all.tools[6].state_effects[0] == Effect::ControlProcess);
    assert(all.tools[7].state_effects[0] == Effect::ControlProcess);
    assert(all.tools[8].state_effects[0] == Effect::ControlProcess);
    assert(all.tools[9].state_effects[0] == Effect::SpawnProcess);
    assert(all.tools[9].conditional_state_effects[0] == Effect::HostProcessExecution);
    assert(all.tools[9].conditional_state_effects[1] == Effect::ShellLoginStartup);
    assert(all.tools[9].conditional_state_effects[2] == Effect::RepoWorkspace);
    assert forall|effect: Effect| #[trigger] all.effects.contains(effect) implies has_effect(
        all,
        effect,
    ) by {
        if effect == Effect::SessionWorkingDirectory {
            assert(all.tools[1].state_effects.contains(effect));
        }
        if effect == Effect::SpawnProcess {
            assert(all.tools[2].state_effects.contains(effect));
        }
        if effect == Effect::ControlProcess {
            assert(all.tools[6].state_effects.contains(effect));
        }
        if effect == Effect::HostProcessExecution {
            assert(all.tools[1].conditional_state_effects.contains(effect));
        }
        if effect == Effect::ShellLoginStartup {
            assert(all.tools[9].conditional_state_effects.contains(effect));
        }
        if effect == Effect::RepoWorkspace {
            assert(all.tools[9].conditional_state_effects.contains(effect));
        }
    }
    assert forall|effect: Effect| has_effect(all, effect) implies #[trigger] all.effects.contains(
        effect,
    ) by {
        if effect == Effect::SessionWorkingDirectory {
            assert(all.effects.contains(effect));
        }
        if effect == Effect::SpawnProcess {
            assert(all.effects.contains(effect));
        }
        if effect == Effect::ControlProcess {
            assert(all.effects.contains(effect));
        }
        if effect == Effect::HostProcessExecution {
            assert(all.effects.contains(effect));
        }
        if effect == Effect::ShellLoginStartup {
            assert(all.effects.contains(effect));
        }
        if effect == Effect::RepoWorkspace {
            assert(all.effects.contains(effect));
        }
    }
}

/// The tools for repositories have the effects that are declared for them.
pub proof fn repositories_have_declared_effects()
    ensures
        declares_its_effects(repo::declared()),
{
    let all = repo::declared();
    assert(all.effects[0] == Effect::ArtifactRepository);
    assert(all.effects[1] == Effect::RepoGitlink);
    assert(all.effects[2] == Effect::RepoFiles);
    assert(all.tools[0].state_effects[0] == Effect::ArtifactRepository);
    assert(all.tools[0].state_effects[1] == Effect::RepoGitlink);
    assert(all.tools[1].conditional_state_effects[0] == Effect::RepoFiles);
    assert forall|effect: Effect| #[trigger] all.effects.contains(effect) implies has_effect(
        all,
        effect,
    ) by {
        if effect == Effect::ArtifactRepository {
            assert(all.tools[0].state_effects.contains(effect));
        }
        if effect == Effect::RepoGitlink {
            assert(all.tools[0].state_effects.contains(effect));
        }
        if effect == Effect::RepoFiles {
            assert(all.tools[1].conditional_state_effects.contains(effect));
        }
    }
    assert forall|effect: Effect| has_effect(all, effect) implies #[trigger] all.effects.contains(
        effect,
    ) by {
        if effect == Effect::ArtifactRepository {
            assert(all.effects.contains(effect));
        }
        if effect == Effect::RepoGitlink {
            assert(all.effects.contains(effect));
        }
        if effect == Effect::RepoFiles {
            assert(all.effects.contains(effect));
        }
    }
}

/// The tools for stores have the effects that are declared for them.
pub proof fn stores_have_declared_effects()
    ensures
        declares_its_effects(store::declared()),
{
    let all = store::declared();
    assert(all.effects[0] == Effect::StoreSchema);
    assert(all.tools[2].state_effects[0] == Effect::StoreSchema);
    assert forall|effect: Effect| #[trigger] all.effects.contains(effect) implies has_effect(
        all,
        effect,
    ) by {
        if effect == Effect::StoreSchema {
            assert(all.tools[2].state_effects.contains(effect));
        }
    }
    assert forall|effect: Effect| has_effect(all, effect) implies #[trigger] all.effects.contains(
        effect,
    ) by {
        if effect == Effect::StoreSchema {
            assert(all.effects.contains(effect));
        }
    }
}

/// The tools for permissions have the effects that are declared for them.
pub proof fn permissions_have_declared_effects()
    ensures
        declares_its_effects(permissions::declared()),
{
    let all = permissions::declared();
    assert(all.effects[0] == Effect::StorePermissionRequests);
    assert(all.effects[1] == Effect::StorePermissionGrants);
    assert(all.tools[1].state_effects[0] == Effect::StorePermissionRequests);
    assert(all.tools[2].state_effects[0] == Effect::StorePermissionGrants);
    assert(all.tools[2].state_effects[1] == Effect::StorePermissionRequests);
    assert(all.tools[3].state_effects[0] == Effect::StorePermissionGrants);
    assert forall|effect: Effect| #[trigger] all.effects.contains(effect) implies has_effect(
        all,
        effect,
    ) by {
        if effect == Effect::StorePermissionRequests {
            assert(all.tools[1].state_effects.contains(effect));
        }
        if effect == Effect::StorePermissionGrants {
            assert(all.tools[2].state_effects.contains(effect));
        }
    }
    assert forall|effect: Effect| has_effect(all, effect) implies #[trigger] all.effects.contains(
        effect,
    ) by {
        if effect == Effect::StorePermissionRequests {
            assert(all.effects.contains(effect));
        }
        if effect == Effect::StorePermissionGrants {
            assert(all.effects.contains(effect));
        }
    }
}

/// The tools for notifications have the effects that are declared for them.
pub proof fn notifications_have_declared_effects()
    ensures
        declares_its_effects(matrix::declared()),
{
    let all = matrix::declared();
    assert(all.effects[0] == Effect::MatrixOutbox);
    assert(all.tools[1].state_effects[0] == Effect::MatrixOutbox);
    assert forall|effect: Effect| #[trigger] all.effects.contains(effect) implies has_effect(
        all,
        effect,
    ) by {
        if effect == Effect::MatrixOutbox {
            assert(all.tools[1].state_effects.contains(effect));
        }
    }
    assert forall|effect: Effect| has_effect(all, effect) implies #[trigger] all.effects.contains(
        effect,
    ) by {
        if effect == Effect::MatrixOutbox {
            assert(all.effects.contains(effect));
        }
    }
}

/// The tools for deliveries have the effects that are declared for them.
pub proof fn deliveries_have_declared_effects()
    ensures
        declares_its_effects(matrix_delivery::declared()),
{
    let all = matrix_delivery::declared();
    assert(all.effects[0] == Effect::MatrixOutbox);
    assert(all.tools[0].state_effects[0] == Effect::MatrixOutbox);
    assert forall|effect: Effect| #[trigger] all.effects.contains(effect) implies has_effect(
        all,
        effect,
    ) by {
        if effect == Effect::MatrixOutbox {
            assert(all.tools[0].state_effects.contains(effect));
        }
    }
    assert forall|effect: Effect| has_effect(all, effect) implies #[trigger] all.effects.contains(
        effect,
    ) by {
        if effect == Effect::MatrixOutbox {
            assert(all.effects.contains(effect));
        }
    }
}

} // verus!
