//! When shells and terminals start, and what a store and a permission are told
//! with.

use vstd::prelude::*;
use vstd::string::*;

use super::descriptor::Effect;
use super::environment::{admitted, process_environment, EnvironmentOverride};
use super::permissions::{are_effects, names_of, scope_of, text_or};
use super::process::{
    argument_bytes, ExecutionProfile, OwnerProbe, ProcessToolRuntimeConfig, WorkspaceAccess,
};
use super::process_laws::{has_name, is_declared, search_paths_are_complete};
use super::repo_path::RepoPath;
use super::shell::{envelope_failure, without_slashes, ShellArgs};
use super::shell_launch::{
    agent_failure, below, copy_failure, host_failure, is_set, kind_failure, kind_of_shell,
    owner_failure, startup_args, terminal_environment_failure, CopyProbe, ShellContext,
    ShellSnapshot,
};
use super::store::{
    told_of_store, with_deleted, StoreSchemaSnapshot, StoreStatusReport, StoreStatusSnapshot,
};
use super::terminal::{
    holds_colon, is_admitted, is_executable, lookup_of, program_failure, provides_ls,
    roots_failure, search_path, PathCandidate, ProgramLookup, ProgramProbe, RootProbe,
};
use crate::ids::EffectId;
use crate::json::{Json, JsonAbs};
use crate::text::{is_whitespace, precedes, precedes_transitive};
use crate::tool::ToolDefinition;
use crate::value::contents;

verus! {

// ---------------------------------------------------------------------------
// Shells
// ---------------------------------------------------------------------------

/// A shell starts on the host exactly when that is authorized by a known grant,
/// a login is authorized and configured where one is asked for, the executable
/// is the admitted one, its directory is declared and there, and its environment
/// and time are in order.
pub proof fn shells_start_on_the_host(
    args: ShellArgs,
    effects: Seq<Effect>,
    has_provenance: bool,
    directory: Result<String, String>,
    context: ShellContext,
    config: ProcessToolRuntimeConfig,
)
    ensures
        host_failure(args, effects, has_provenance, directory, context, config) is None <==> {
            &&& effects.contains(Effect::HostProcessExecution)
            &&& has_provenance
            &&& args.login == Some(true) ==> effects.contains(Effect::ShellLoginStartup)
                && context.shell.login_command_args is Some
            &&& context.shell.executable_fault is None
            &&& is_declared(
                match args.cwd {
                    Some(cwd) => cwd@,
                    None => "."@,
                },
                4_096,
            )
            &&& directory is Ok
            &&& process_environment(
                context.base_environment@,
                contents(context.shell.environment_names@),
                (match args.env {
                    Some(env) => env@,
                    None => Seq::empty(),
                }),
                config.maximum_environment_bytes,
            ) is Ok
            &&& context.environment_fault is None
            &&& config.timeout(args.timeout_ms, true, context.remaining) is Ok
        },
        args.login != Some(true) ==> startup_args(context.shell, false) == contents(
            context.shell.command_args@,
        ),
        context.shell.login_command_args is Some ==> startup_args(context.shell, true) == contents(
            context.shell.login_command_args->Some_0@,
        ),
{
    reveal_strlit(".");
}

/// A terminal runs Bash or Zsh, by the name of the executable, where the service
/// accepts it.
pub proof fn terminals_run_two_shells(shell: ShellSnapshot)
    ensures
        kind_failure(shell) is None <==> {
            &&& shell.file_name is Some
            &&& shell.file_name->Some_0@ == "bash"@ || shell.file_name->Some_0@ == "zsh"@
            &&& shell.profile_fault is None
        },
        shell.file_name is Some && shell.file_name->Some_0@ == "bash"@ ==> kind_of_shell(shell)
            is Bash,
        shell.file_name is Some && shell.file_name->Some_0@ == "zsh"@ ==> kind_of_shell(shell)
            is Zsh,
{
    reveal_strlit("bash");
    reveal_strlit("zsh");
    assert("bash"@ != "zsh"@) by {
        assert("bash"@.len() != "zsh"@.len());
    }
}

/// A shell starts in a copy of the workspace exactly when the copy was made, the
/// working directory lies in the workspace and in the copy, the shell is one of
/// the two, and its environment and time are in order. No variable is set for
/// it.
pub proof fn shells_start_in_a_copy(
    args: ShellArgs,
    copy: CopyProbe,
    context: ShellContext,
    config: ProcessToolRuntimeConfig,
)
    ensures
        copy_failure(args, copy, context, config) is None <==> {
            &&& context.shell.executable_fault is None
            &&& copy.copy_fault is None
            &&& copy.working_directory@.len() >= copy.workspace_root@.len()
            &&& forall|i: int|
                0 <= i < copy.workspace_root@.len() ==> #[trigger] copy.workspace_root@[i]
                    == copy.working_directory@[i]
            &&& copy.directory is Some
            &&& kind_failure(context.shell) is None
            &&& process_environment(
                context.base_environment@,
                contents(context.shell.environment_names@),
                Seq::empty(),
                config.maximum_environment_bytes,
            ) is Ok
            &&& context.environment_fault is None
            &&& config.timeout(args.timeout_ms, true, context.remaining) is Ok
        },
{
    let path = copy.working_directory@;
    let root = copy.workspace_root@;
    if path.len() >= root.len() && (forall|i: int|
        0 <= i < root.len() ==> #[trigger] root[i] == path[i]) {
        assert(path.take(root.len() as int) =~= root);
        assert(path.subrange(0, root.len() as int) =~= root);
    }
    if below(path, root) is Some {
        assert forall|i: int| 0 <= i < root.len() implies #[trigger] root[i] == path[i] by {
            assert(path.take(root.len() as int)[i] == path[i]);
            assert(path.subrange(0, root.len() as int)[i] == path[i]);
        }
    }
}

/// The part of a path below a root is what stands behind the root.
pub proof fn paths_below_are_behind(root: Seq<Seq<char>>, rest: Seq<Seq<char>>)
    ensures
        below(root + rest, root) == Some(rest),
{
    let path = root + rest;
    assert(path.take(root.len() as int) =~= root);
    assert(path.subrange(0, root.len() as int) =~= root);
    assert(path.skip(root.len() as int) =~= rest);
}

/// A terminal belongs to a run, and to its session or to the run alone; a
/// service has none.
pub proof fn terminals_have_an_owner(owner: OwnerProbe)
    ensures
        owner_failure(owner) is None <==> {
            &&& owner.scope_is_run
            &&& !(owner.kind is Service)
            &&& owner.kind is Persistent ==> owner.owner_is_session && owner.session_is_durable
            &&& owner.kind is Ephemeral ==> owner.owner_is_run
        },
{
}

/// Whether a candidate brings `ls` to the search path: it has it, is a directory
/// below the roots, and no candidate before it is the same directory.
pub open spec fn brings_ls(roots: Seq<RepoPath>, candidates: Seq<PathCandidate>, k: int) -> bool {
    &&& candidates[k].has_ls
    &&& candidates[k].is_directory
    &&& is_admitted(roots, candidates[k].path@)
    &&& forall|j: int|
        0 <= j < k && (#[trigger] candidates[j]).is_directory ==> candidates[j].path@
            != candidates[k].path@
}

/// `ls` is there exactly when one of the candidates brings it.
pub proof fn candidates_provide_ls(roots: Seq<RepoPath>, candidates: Seq<PathCandidate>, n: int)
    requires
        0 <= n <= candidates.len(),
    ensures
        provides_ls(roots, candidates, n) <==> exists|k: int|
            0 <= k < n && #[trigger] brings_ls(roots, candidates, k),
    decreases n,
{
    if n > 0 {
        candidates_provide_ls(roots, candidates, n - 1);
        search_paths_are_complete(roots, candidates, n - 1);
        let before = search_path(roots, candidates, n - 1);
        let candidate = candidates[n - 1];
        if candidate.is_directory && is_admitted(roots, candidate.path@) {
            if before.contains(candidate.path@) {
                let j = choose|j: int|
                    0 <= j < n - 1 && (#[trigger] candidates[j]).is_directory && candidates[j].path@
                        == candidate.path@;
                assert(!brings_ls(roots, candidates, n - 1));
            } else {
                assert forall|j: int|
                    0 <= j < n - 1 && (#[trigger] candidates[j]).is_directory implies
                    candidates[j].path@ != candidate.path@ by {
                    if candidates[j].path@ == candidate.path@ {
                        assert(before.contains(candidates[j].path@));
                    }
                }
                assert(candidate.has_ls ==> brings_ls(roots, candidates, n - 1));
            }
        }
        if provides_ls(roots, candidates, n) {
            if provides_ls(roots, candidates, n - 1) {
                let k = choose|k: int| 0 <= k < n - 1 && #[trigger] brings_ls(roots, candidates, k);
                assert(brings_ls(roots, candidates, k));
            } else {
                assert(brings_ls(roots, candidates, n - 1));
            }
        }
        if exists|k: int| 0 <= k < n && #[trigger] brings_ls(roots, candidates, k) {
            let k = choose|k: int| 0 <= k < n && #[trigger] brings_ls(roots, candidates, k);
            if k < n - 1 {
                assert(provides_ls(roots, candidates, n - 1));
            }
        }
    }
}

/// The environment of a terminal is made exactly when a `PATH` is admitted, the
/// shell lies below the roots, some directory has `ls`, and no directory of the
/// search path has a colon in its name.
pub proof fn terminals_have_a_search_path(
    shell: ShellSnapshot,
    base: EnvironmentOverride,
    roots: Result<Vec<RepoPath>, String>,
    shell_program: RepoPath,
    candidates: Seq<PathCandidate>,
)
    ensures
        terminal_environment_failure(shell, base, roots, shell_program, candidates) is None <==> {
            &&& has_name(
                admitted(base@, contents(shell.environment_names@), base@.len() as int),
                "PATH"@,
            )
            &&& roots is Ok
            &&& is_admitted(roots->Ok_0@, shell_program@)
            &&& exists|k: int|
                0 <= k < candidates.len() && #[trigger] brings_ls(roots->Ok_0@, candidates, k)
            &&& forall|i: int|
                0 <= i < search_path(roots->Ok_0@, candidates, candidates.len() as int).len()
                    ==> !super::repo_path::slashed(
                    #[trigger] search_path(
                        roots->Ok_0@,
                        candidates,
                        candidates.len() as int,
                    )[i],
                ).contains(':')
        },
{
    let inherited = admitted(base@, contents(shell.environment_names@), base@.len() as int);
    assert(is_set(inherited, "PATH"@) == has_name(inherited, "PATH"@));
    if roots is Ok {
        candidates_provide_ls(roots->Ok_0@, candidates, candidates.len() as int);
        let all = search_path(roots->Ok_0@, candidates, candidates.len() as int);
        if !holds_colon(all) {
            assert forall|i: int| 0 <= i < all.len() implies !super::repo_path::slashed(
                #[trigger] all[i],
            ).contains(':') by {
            }
        }
    }
}

/// A terminal starts exactly when the shell is the admitted one of the two, it
/// has an owner and an environment, and the time is in order.
pub proof fn terminals_start(
    args: ShellArgs,
    owner: OwnerProbe,
    roots: Result<Vec<RepoPath>, String>,
    shell_program: RepoPath,
    candidates: Seq<PathCandidate>,
    context: ShellContext,
    config: ProcessToolRuntimeConfig,
)
    ensures
        agent_failure(
            args,
            owner,
            roots,
            shell_program,
            candidates,
            context,
            config,
        ) is None <==> {
            &&& context.shell.executable_fault is None
            &&& owner_failure(owner) is None
            &&& kind_failure(context.shell) is None
            &&& terminal_environment_failure(
                context.shell,
                context.base_environment,
                roots,
                shell_program,
                candidates,
            ) is None
            &&& config.timeout(args.timeout_ms, true, context.remaining) is Ok
        },
{
}

/// A shell declares what it changes: in the workspace nothing outside it, paths
/// exactly where it may write; on the host its effect there, and no paths.
pub proof fn declared_effects_fit_the_profile(
    profile: ExecutionProfile,
    access: WorkspaceAccess,
    paths: Seq<Seq<char>>,
    external: Seq<Seq<char>>,
)
    ensures
        envelope_failure(profile, access, paths, external) is None <==> {
            &&& profile is Workspace ==> external.len() == 0 && (paths.len() > 0 <==> access
                is Write)
            &&& profile is Host ==> access is ReadOnly && paths.len() == 0 && external.contains(
                "host_process"@,
            )
        },
{
}

/// Slashes at the end of a path are taken away, all of them and nothing else.
pub proof fn slashes_at_the_end_are_taken(s: Seq<char>)
    ensures
        without_slashes(s).len() <= s.len(),
        without_slashes(s) == s.subrange(0, without_slashes(s).len() as int),
        without_slashes(s).len() > 0 ==> without_slashes(s)[without_slashes(s).len() - 1] != '/',
        forall|i: int| without_slashes(s).len() <= i < s.len() ==> #[trigger] s[i] == '/',
    decreases s.len(),
{
    if s.len() > 0 && s.last() == '/' {
        let rest = s.drop_last();
        slashes_at_the_end_are_taken(rest);
        assert(without_slashes(s) =~= s.subrange(0, without_slashes(s).len() as int));
        assert forall|i: int| without_slashes(s).len() <= i < s.len() implies #[trigger] s[i]
            == '/' by {
            if i < s.len() - 1 {
                assert(rest[i] == s[i]);
            }
        }
    } else {
        assert(s.subrange(0, s.len() as int) =~= s);
    }
}

// ---------------------------------------------------------------------------
// Programs and roots
// ---------------------------------------------------------------------------

/// A program runs exactly when it is found, along a `PATH` where it is searched
/// for, and is a regular file that may be executed.
pub proof fn programs_are_executable_files(program: Seq<char>, probe: ProgramProbe)
    ensures
        program_failure(program, probe) is None <==> {
            &&& lookup_of(program) == ProgramLookup::Search ==> probe.has_path && probe.found
            &&& probe.canonical is Some
            &&& probe.metadata is Some
            &&& probe.metadata->Some_0.0
            &&& is_executable(probe.metadata->Some_0.1)
        },
{
}

/// The roots of a terminal are accepted exactly when each is an existing
/// directory under its own name.
pub proof fn roots_are_canonical(configured: Seq<RootProbe>, n: int)
    requires
        0 <= n <= configured.len(),
    ensures
        roots_failure(configured, n) is None <==> forall|i: int|
            0 <= i < n ==> (#[trigger] configured[i]).canonical is Some
                && configured[i].canonical->Some_0@ == configured[i].path@
                && configured[i].is_directory,
    decreases n,
{
    if n > 0 {
        roots_are_canonical(configured, n - 1);
        let last = configured[n - 1];
        if roots_failure(configured, n) is None {
            assert(last.canonical is Some && last.is_directory);
        }
    }
}

/// The bytes of arguments are counted one argument after the other.
pub proof fn bytes_of_arguments_add_up(values: Seq<Seq<char>>, more: Seq<char>)
    ensures
        argument_bytes(Seq::empty(), 0) == 0,
        argument_bytes(values.push(more), values.len() as int + 1) == argument_bytes(
            values,
            values.len() as int,
        ) + vstd::utf8::encode_utf8(more).len(),
{
    lemma_arguments(values, values.push(more), values.len() as int);
    assert(values.push(more)[values.len() as int] == more);
}

proof fn lemma_arguments(values: Seq<Seq<char>>, longer: Seq<Seq<char>>, n: int)
    requires
        0 <= n <= values.len() <= longer.len(),
        forall|i: int| 0 <= i < values.len() ==> #[trigger] longer[i] == values[i],
    ensures
        argument_bytes(longer, n) == argument_bytes(values, n),
    decreases n,
{
    if n > 0 {
        lemma_arguments(values, longer, n - 1);
        assert(longer[n - 1] == values[n - 1]);
    }
}

// ---------------------------------------------------------------------------
// Stores, permissions and definitions
// ---------------------------------------------------------------------------

/// The schema of a store is told, and its health unless a migration is required;
/// what the administration refuses is refused.
pub proof fn stores_tell_schema_and_health(
    schema: Result<StoreSchemaSnapshot, String>,
    health: Result<StoreStatusSnapshot, String>,
)
    ensures
        told_of_store(schema, health) is Ok <==> schema is Ok && (
        schema->Ok_0.migration_required || health is Ok),
        told_of_store(schema, health) matches Ok(report) ==> {
            &&& report.schema == schema->Ok_0
            &&& report.schema.migration_required ==> report.health is None
            &&& !report.schema.migration_required ==> report.health == Some(health->Ok_0)
        },
        schema is Err ==> told_of_store(schema, health) == Err::<StoreStatusReport, String>(
            schema->Err_0,
        ),
        with_deleted(None) == false,
        with_deleted(Some(true)) == true,
        with_deleted(Some(false)) == false,
{
}

/// A scope that is not given is empty, and a text that is not given is the usual
/// one. Effects are those that are named, each once and in order.
pub proof fn permissions_hold_what_is_named(
    scope: Option<Json>,
    text: Option<String>,
    usual: Seq<char>,
    names: Option<Vec<String>>,
    effects: Seq<EffectId>,
)
    ensures
        scope is None ==> scope_of(scope) == JsonAbs::Object(Seq::empty()),
        text is None ==> text_or(text, usual) == usual,
        text is Some ==> text_or(text, usual) == text->Some_0@,
        names is None ==> names_of(names).len() == 0,
        names is Some ==> names_of(names) == contents(names->Some_0@),
        are_effects(names, effects) ==> {
            &&& forall|i: int, j: int|
                0 <= i < j < effects.len() ==> (#[trigger] effects[i])@ != (#[trigger] effects[j])@
            &&& forall|i: int|
                0 <= i < effects.len() ==> names_of(names).contains((#[trigger] effects[i])@)
            &&& forall|k: int|
                0 <= k < names_of(names).len() ==> contents(effects).contains(
                    #[trigger] names_of(names)[k],
                )
        },
{
    if are_effects(names, effects) {
        let texts = contents(effects);
        crate::order::ascending_texts_are_distinct(texts);
        assert forall|i: int, j: int| 0 <= i < j < effects.len() implies (#[trigger] effects[i])@
            != (#[trigger] effects[j])@ by {
            assert(texts[i] == effects[i]@ && texts[j] == effects[j]@);
        }
        assert forall|i: int| 0 <= i < effects.len() implies names_of(names).contains(
            (#[trigger] effects[i])@,
        ) by {
            assert(texts[i] == effects[i]@);
            assert(texts.contains(effects[i]@));
        }
        assert forall|k: int| 0 <= k < names_of(names).len() implies texts.contains(
            #[trigger] names_of(names)[k],
        ) by {
            assert(names_of(names).contains(names_of(names)[k]));
        }
    }
}

/// The definition of a tool is valid exactly when its description says something
/// and of any two effects that it requires the one in front is the lesser.
pub proof fn definitions_describe_and_sort(tool: ToolDefinition)
    ensures
        tool.failure() is None <==> {
            &&& exists|i: int|
                0 <= i < tool.description@.len() && !is_whitespace(#[trigger] tool.description@[i])
            &&& forall|i: int, j: int|
                0 <= i < j < tool.required_effects@.len() ==> precedes(
                    (#[trigger] tool.required_effects@[i])@,
                    (#[trigger] tool.required_effects@[j])@,
                )
        },
{
    let effects = tool.required_effects@;
    if crate::tool::effects_in_order(effects) {
        assert forall|i: int, j: int| 0 <= i < j < effects.len() implies precedes(
            (#[trigger] effects[i])@,
            (#[trigger] effects[j])@,
        ) by {
            lemma_later_effect(effects, i, j);
        }
    } else {
        let i = choose|i: int|
            0 <= i < effects.len() - 1 && !precedes((#[trigger] effects[i])@, effects[i + 1]@);
        let next = effects[i + 1];
        assert(!precedes(effects[i]@, next@));
    }
}

proof fn lemma_later_effect(effects: Seq<EffectId>, i: int, j: int)
    requires
        crate::tool::effects_in_order(effects),
        0 <= i < j < effects.len(),
    ensures
        precedes(effects[i]@, effects[j]@),
    decreases j - i,
{
    assert(precedes(effects[j - 1]@, effects[j - 1 + 1]@));
    if i < j - 1 {
        lemma_later_effect(effects, i, j - 1);
        precedes_transitive(effects[i]@, effects[j - 1]@, effects[j]@);
    }
}

} // verus!
