//! Launching the shell: on the host, over a copy of the workspace, or in the
//! persistent terminal of its caller.

use vstd::prelude::*;
use vstd::string::*;

use super::descriptor::Effect;
use super::environment::{
    admitted, environment, frozen_base_environment, process_environment, with_entry, Entries,
    EnvironmentOverride,
};
use super::launch::directory_of;
use super::process::{
    admitted_agent_shell, authorization_failure, execution_authorization, terminal_owner,
    text_failure, validate_text, AdmittedShellKind, CallerOwnerKind, ExecutionAuthorization,
    ExecutionIo, ExecutionKind, ExecutionLimits, ExecutionProfile, GrantProvenance, OwnerProbe,
    ProcessBytes, ProcessToolRuntimeConfig, Span, TerminalSize, WorkspaceAccess,
    MAX_PROCESS_PATH_BYTES,
};
use super::repo_path::{lies_below, RepoPath};
use super::shell::ShellArgs;
use super::terminal::{
    build_managed_terminal_path, holds_colon, is_admitted, join_paths, joined, provides_ls,
    search_path, PathCandidate,
};
use crate::value::{contents, contents_push, Abstract};

verus! {

/// The shell that a caller was given.
#[derive(Clone, Debug)]
pub struct ShellSnapshot {
    pub program: String,
    /// The name of the executable, where it is UTF-8.
    pub file_name: Option<String>,
    pub command_args: Vec<String>,
    pub login_command_args: Option<Vec<String>>,
    pub environment_names: Vec<String>,
    pub executable_digest: String,
    /// Why the executable is not the one that was admitted.
    pub executable_fault: Option<String>,
    /// What the terminal service finds wrong with the shell.
    pub profile_fault: Option<String>,
}

/// What is known of the caller and of the machine when a shell is asked for.
#[derive(Clone, Debug)]
pub struct ShellContext {
    pub shell: ShellSnapshot,
    pub workspace_root: String,
    pub base_environment: EnvironmentOverride,
    /// What the execution service finds wrong with the environment.
    pub environment_fault: Option<String>,
    /// The time that the run has left.
    pub remaining: Option<Span>,
}

/// A shell that can be launched.
#[derive(Clone, Debug)]
pub struct ShellRequest {
    pub kind: ExecutionKind,
    pub program: String,
    pub argv0: String,
    pub program_digest: String,
    pub args: Vec<String>,
    pub workspace_root: String,
    pub cwd: String,
    pub read_only_roots: Vec<String>,
    pub environment: EnvironmentOverride,
    pub stdin: Option<ProcessBytes>,
    pub close_stdin_after_initial: bool,
    pub io: ExecutionIo,
    pub terminal_size: TerminalSize,
    pub profile: ExecutionProfile,
    pub authorization: ExecutionAuthorization,
    pub grant: Option<GrantProvenance>,
    pub limits: ExecutionLimits,
}

/// Whether a request runs the shell in a terminal, with nothing on its standard
/// input, in a workspace and with the directories that it may read.
pub open spec fn is_shell_request(
    request: ShellRequest,
    shell: ShellSnapshot,
    workspace_root: Seq<char>,
    config: ProcessToolRuntimeConfig,
) -> bool {
    &&& request.kind == ExecutionKind::Shell
    &&& request.program@ == shell.program@
    &&& request.argv0@ == shell.program@
    &&& request.program_digest@ == shell.executable_digest@
    &&& request.workspace_root@ == workspace_root
    &&& contents(request.read_only_roots@) == contents(config.runtime_read_only_roots@)
    &&& request.stdin is None
    &&& !request.close_stdin_after_initial
    &&& request.io == ExecutionIo::Pty
}

/// The environment that a shell gets, or why it gets none.
pub open spec fn shell_environment(
    overrides: Option<EnvironmentOverride>,
    context: ShellContext,
    maximum_bytes: usize,
) -> Result<Entries, Seq<char>> {
    match process_environment(
        context.base_environment@,
        contents(context.shell.environment_names@),
        (match overrides {
            Some(overrides) => overrides@,
            None => Entries::empty(),
        }),
        maximum_bytes,
    ) {
        Err(error) => Err(error),
        Ok(entries) => match context.environment_fault {
            Some(fault) => Err(fault@),
            None => Ok(entries),
        },
    }
}

fn make_environment(
    overrides: &Option<EnvironmentOverride>,
    context: &ShellContext,
    maximum_bytes: usize,
) -> (r: Result<EnvironmentOverride, String>)
    ensures
        match r {
            Ok(made) => shell_environment(*overrides, *context, maximum_bytes) == Ok::<
                Entries,
                Seq<char>,
            >(made@),
            Err(error) => shell_environment(*overrides, *context, maximum_bytes) == Err::<
                Entries,
                Seq<char>,
            >(error@),
        },
{
    let given: EnvironmentOverride = match overrides {
        Some(overrides) => overrides.clone(),
        None => EnvironmentOverride::new(),
    };
    let made: EnvironmentOverride = match environment(
        &context.shell.environment_names,
        &context.base_environment,
        &given,
        maximum_bytes,
    ) {
        Ok(made) => made,
        Err(error) => {
            return Err(error);
        },
    };
    match &context.environment_fault {
        Some(fault) => Err(fault.duplicate()),
        None => Ok(made),
    }
}

/// The arguments with the command behind them.
fn with_command(args: &Vec<String>, command: &str) -> (r: Vec<String>)
    ensures
        contents(r@) == contents(args@).push(command@),
{
    broadcast use contents_push;

    let mut out: Vec<String> = args.duplicate();
    out.push(command.to_owned());
    out
}

/// A fault, if there is one.
pub open spec fn fault_of(fault: Option<String>) -> Option<Seq<char>> {
    match fault {
        Some(fault) => Some(fault@),
        None => None,
    }
}

/// The first of two faults.
pub open spec fn either(first: Option<Seq<char>>, second: Option<Seq<char>>) -> Option<Seq<char>> {
    match first {
        Some(error) => Some(error),
        None => second,
    }
}

/// What is wrong with the environment of a shell.
pub open spec fn environment_failure(
    overrides: Option<EnvironmentOverride>,
    context: ShellContext,
    maximum_bytes: usize,
) -> Option<Seq<char>> {
    match shell_environment(overrides, context, maximum_bytes) {
        Err(error) => Some(error),
        Ok(_) => None,
    }
}

/// What is wrong with the time that a shell asks for.
pub open spec fn timeout_failure(
    requested: Option<u64>,
    remaining: Option<Span>,
    config: ProcessToolRuntimeConfig,
) -> Option<Seq<char>> {
    match config.timeout(requested, true, remaining) {
        Err(error) => Some(error@),
        Ok(_) => None,
    }
}

/// Whether that is the time that a shell gets.
pub open spec fn is_timeout(
    told: Option<u64>,
    requested: Option<u64>,
    remaining: Option<Span>,
    config: ProcessToolRuntimeConfig,
) -> bool {
    config.timeout(requested, true, remaining) == Ok::<Option<int>, &'static str>(
        match told {
            Some(value) => Some(value as int),
            None => None,
        },
    )
}

// ---------------------------------------------------------------------------
// On the host
// ---------------------------------------------------------------------------

/// Why no shell is launched on the host, in the order in which things are
/// looked at. `directory` is where the working directory really is, or why it
/// may not be used.
pub open spec fn host_failure(
    args: ShellArgs,
    effects: Seq<Effect>,
    has_provenance: bool,
    directory: Result<String, String>,
    context: ShellContext,
    config: ProcessToolRuntimeConfig,
) -> Option<Seq<char>> {
    let login = args.login == Some(true);
    match authorization_failure(
        effects.contains(Effect::HostProcessExecution),
        effects.contains(Effect::ShellLoginStartup),
        ExecutionProfile::Host,
        login,
        has_provenance,
    ) {
        Some(error) => Some(error@),
        None => either(
            fault_of(context.shell.executable_fault),
            either(
                text_failure(
                    directory_of(args.cwd),
                    "process cwd"@,
                    false,
                    MAX_PROCESS_PATH_BYTES,
                ),
                match directory {
                    Err(error) => Some(error@),
                    Ok(_) => if login && context.shell.login_command_args is None {
                        Some("core.process:shell.exec login startup is not configured"@)
                    } else {
                        either(
                            environment_failure(
                                args.env,
                                context,
                                config.maximum_environment_bytes,
                            ),
                            timeout_failure(args.timeout_ms, context.remaining, config),
                        )
                    },
                },
            ),
        ),
    }
}

/// The arguments that a shell is started with, before the command.
pub open spec fn startup_args(shell: ShellSnapshot, login: bool) -> Seq<Seq<char>> {
    if login {
        contents(shell.login_command_args->Some_0@)
    } else {
        contents(shell.command_args@)
    }
}

/// The shell that is launched on the host for one command.
pub fn host_shell_request(
    args: &ShellArgs,
    effects: &Vec<Effect>,
    provenance: Option<GrantProvenance>,
    directory: Result<String, String>,
    context: &ShellContext,
    config: &ProcessToolRuntimeConfig,
) -> (r: Result<ShellRequest, String>)
    ensures
        match host_failure(
            *args,
            effects@,
            provenance is Some,
            directory,
            *context,
            *config,
        ) {
            Some(error) => r is Err && r->Err_0@ == error,
            None => r matches Ok(request) && {
                &&& is_shell_request(
                    request,
                    context.shell,
                    context.workspace_root@,
                    *config,
                )
                &&& contents(request.args@) == startup_args(
                    context.shell,
                    args.login == Some(true),
                ).push(args.command@)
                &&& directory == Ok::<String, String>(request.cwd)
                &&& shell_environment(args.env, *context, config.maximum_environment_bytes) == Ok::<
                    Entries,
                    Seq<char>,
                >(request.environment@)
                &&& request.terminal_size == match args.terminal_size {
                    Some(size) => size,
                    None => config.default_terminal_size,
                }
                &&& request.profile == ExecutionProfile::Host
                &&& request.authorization == (ExecutionAuthorization {
                    host_process_execution: true,
                    shell_login_startup: effects@.contains(Effect::ShellLoginStartup),
                    workspace_write: args.workspace_access == WorkspaceAccess::Write,
                })
                &&& request.grant == provenance
                &&& is_timeout(
                    request.limits.timeout_ms,
                    args.timeout_ms,
                    context.remaining,
                    *config,
                )
                &&& request.limits.max_input_bytes == config.max_input_bytes
                &&& request.limits.max_output_bytes == config.max_spool_bytes
            },
        },
{
    let login: bool = match args.login {
        Some(login) => login,
        None => false,
    };
    let (authorization, grant): (ExecutionAuthorization, Option<GrantProvenance>) =
        match execution_authorization(
        effects,
        ExecutionProfile::Host,
        login,
        args.workspace_access == WorkspaceAccess::Write,
        provenance,
    ) {
        Ok(granted) => granted,
        Err(error) => {
            return Err(error.to_owned());
        },
    };
    if let Some(fault) = &context.shell.executable_fault {
        return Err(fault.duplicate());
    }
    let requested: String = match &args.cwd {
        Some(cwd) => cwd.clone(),
        None => ".".to_owned(),
    };
    if let Some(error) = validate_text(
        requested.as_str(),
        "process cwd",
        false,
        MAX_PROCESS_PATH_BYTES,
    ) {
        return Err(error);
    }
    let cwd: String = match directory {
        Ok(cwd) => cwd,
        Err(error) => {
            return Err(error);
        },
    };
    let shell_args: Vec<String> = if login {
        match &context.shell.login_command_args {
            Some(given) => with_command(given, args.command.as_str()),
            None => {
                return Err("core.process:shell.exec login startup is not configured".to_owned());
            },
        }
    } else {
        with_command(&context.shell.command_args, args.command.as_str())
    };
    let values: EnvironmentOverride = match make_environment(
        &args.env,
        context,
        config.maximum_environment_bytes,
    ) {
        Ok(values) => values,
        Err(error) => {
            return Err(error);
        },
    };
    let timeout: Option<u64> = match config.timeout_ms(args.timeout_ms, true, context.remaining) {
        Ok(timeout) => timeout,
        Err(error) => {
            return Err(error.to_owned());
        },
    };
    let terminal_size: TerminalSize = match args.terminal_size {
        Some(size) => size,
        None => config.default_terminal_size,
    };
    Ok(
        ShellRequest {
            kind: ExecutionKind::Shell,
            program: context.shell.program.duplicate(),
            argv0: context.shell.program.duplicate(),
            program_digest: context.shell.executable_digest.duplicate(),
            workspace_root: context.workspace_root.duplicate(),
            read_only_roots: config.runtime_read_only_roots.duplicate(),
            stdin: None,
            close_stdin_after_initial: false,
            io: ExecutionIo::Pty,
            args: shell_args,
            cwd,
            environment: values,
            terminal_size,
            profile: ExecutionProfile::Host,
            authorization,
            grant,
            limits: config.execution_limits(timeout),
        },
    )
}

// ---------------------------------------------------------------------------
// Over a copy of the workspace
// ---------------------------------------------------------------------------

/// The copy of a workspace, and where the caller stands in it.
#[derive(Clone, Debug)]
pub struct CopyProbe {
    /// The root of the copy.
    pub view_root: String,
    /// Why the workspace could not be copied.
    pub copy_fault: Option<String>,
    /// The root of the workspace, by its segments from the root of the file
    /// system.
    pub workspace_root: RepoPath,
    pub working_directory: RepoPath,
    /// Where the working directory is in the copy, if it is there.
    pub directory: Option<String>,
}

/// The part of a path below a root.
pub open spec fn below(path: Seq<Seq<char>>, root: Seq<Seq<char>>) -> Option<Seq<Seq<char>>> {
    if lies_below(path, root) {
        Some(path.skip(root.len() as int))
    } else {
        None
    }
}

/// Where a directory of the workspace lies in a copy of it.
pub fn workspace_relative(working_directory: &RepoPath, workspace_root: &RepoPath) -> (r: Result<
    RepoPath,
    &'static str,
>)
    ensures
        match below(working_directory@, workspace_root@) {
            Some(rest) => r is Ok && r->Ok_0@ == rest,
            None => r is Err && r->Err_0 == "workspace cwd is outside the workspace root",
        },
{
    if !working_directory.is_below(workspace_root) {
        return Err("workspace cwd is outside the workspace root");
    }
    let ghost all = working_directory@;
    let start: usize = workspace_root.segments.len();
    let mut segments: Vec<String> = Vec::new();
    let mut i: usize = start;
    assert(contents(segments@) =~= all.subrange(start as int, start as int));
    while i < working_directory.segments.len()
        invariant
            start <= i <= working_directory.segments@.len(),
            all == contents(working_directory.segments@),
            contents(segments@) == all.subrange(start as int, i as int),
        decreases working_directory.segments@.len() - i,
    {
        broadcast use contents_push;

        let next: String = working_directory.segments[i].duplicate();
        segments.push(next);
        assert(all[i as int] == working_directory.segments@[i as int]@);
        assert(all.subrange(start as int, i + 1) =~= all.subrange(start as int, i as int).push(
            all[i as int],
        ));
        i += 1;
    }
    assert(all.subrange(start as int, i as int) =~= all.skip(start as int));
    Ok(RepoPath { segments })
}

/// Why the shell of a caller cannot run in a terminal.
pub open spec fn kind_failure(shell: ShellSnapshot) -> Option<Seq<char>> {
    match shell.file_name {
        None => Some("persistent agent terminal shell has no UTF-8 executable basename"@),
        Some(name) => if name@ == "bash"@ || name@ == "zsh"@ {
            fault_of(shell.profile_fault)
        } else {
            Some("persistent agent terminal supports only admitted Bash or Zsh on Linux"@)
        },
    }
}

/// The kind of a shell that can run in a terminal.
pub open spec fn kind_of_shell(shell: ShellSnapshot) -> AdmittedShellKind {
    if shell.file_name matches Some(name) && name@ == "bash"@ {
        AdmittedShellKind::Bash
    } else {
        AdmittedShellKind::Zsh
    }
}

fn check_kind(shell: &ShellSnapshot) -> (r: Result<AdmittedShellKind, String>)
    ensures
        match kind_failure(*shell) {
            Some(error) => r is Err && r->Err_0@ == error,
            None => r == Ok::<AdmittedShellKind, String>(kind_of_shell(*shell)),
        },
{
    let name: Option<&str> = match &shell.file_name {
        Some(name) => Some(name.as_str()),
        None => None,
    };
    match admitted_agent_shell(name) {
        Err(error) => Err(error.to_owned()),
        Ok(kind) => {
            proof {
                reveal_strlit("bash");
                reveal_strlit("zsh");
                assert("bash"@.len() == 4 && "zsh"@.len() == 3);
            }
            match &shell.profile_fault {
                Some(fault) => Err(fault.duplicate()),
                None => Ok(kind),
            }
        },
    }
}

/// Why no shell is launched over a copy of the workspace.
pub open spec fn copy_failure(
    args: ShellArgs,
    copy: CopyProbe,
    context: ShellContext,
    config: ProcessToolRuntimeConfig,
) -> Option<Seq<char>> {
    either(
        fault_of(context.shell.executable_fault),
        either(
            fault_of(copy.copy_fault),
            if below(copy.working_directory@, copy.workspace_root@) is None {
                Some("workspace cwd is outside the workspace root"@)
            } else if copy.directory is None {
                Some("failed to resolve copy-on-write workspace cwd"@)
            } else {
                either(
                    kind_failure(context.shell),
                    either(
                        environment_failure(None, context, config.maximum_environment_bytes),
                        timeout_failure(args.timeout_ms, context.remaining, config),
                    ),
                )
            },
        ),
    )
}

/// The shell that is launched over a copy of the workspace. It may write
/// there, and has no other authority.
pub fn copy_shell_request(
    args: &ShellArgs,
    copy: &CopyProbe,
    context: &ShellContext,
    config: &ProcessToolRuntimeConfig,
) -> (r: Result<ShellRequest, String>)
    ensures
        match copy_failure(*args, *copy, *context, *config) {
            Some(error) => r is Err && r->Err_0@ == error,
            None => r matches Ok(request) && {
                &&& is_shell_request(request, context.shell, copy.view_root@, *config)
                &&& contents(request.args@) == contents(context.shell.command_args@).push(
                    args.command@,
                )
                &&& copy.directory.abs() == Some(request.cwd@)
                &&& shell_environment(None, *context, config.maximum_environment_bytes) == Ok::<
                    Entries,
                    Seq<char>,
                >(request.environment@)
                &&& request.terminal_size == config.default_terminal_size
                &&& request.profile == ExecutionProfile::Workspace
                &&& request.authorization == (ExecutionAuthorization {
                    host_process_execution: false,
                    shell_login_startup: false,
                    workspace_write: true,
                })
                &&& request.grant is None
                &&& is_timeout(
                    request.limits.timeout_ms,
                    args.timeout_ms,
                    context.remaining,
                    *config,
                )
                &&& request.limits.max_input_bytes == config.max_input_bytes
                &&& request.limits.max_output_bytes == config.max_spool_bytes
            },
        },
{
    if let Some(fault) = &context.shell.executable_fault {
        return Err(fault.duplicate());
    }
    if let Some(fault) = &copy.copy_fault {
        return Err(fault.duplicate());
    }
    match workspace_relative(&copy.working_directory, &copy.workspace_root) {
        Ok(_) => {},
        Err(error) => {
            return Err(error.to_owned());
        },
    }
    let cwd: String = match &copy.directory {
        Some(directory) => directory.duplicate(),
        None => {
            return Err("failed to resolve copy-on-write workspace cwd".to_owned());
        },
    };
    match check_kind(&context.shell) {
        Ok(_) => {},
        Err(error) => {
            return Err(error);
        },
    }
    let values: EnvironmentOverride = match make_environment(
        &None,
        context,
        config.maximum_environment_bytes,
    ) {
        Ok(values) => values,
        Err(error) => {
            return Err(error);
        },
    };
    let timeout: Option<u64> = match config.timeout_ms(args.timeout_ms, true, context.remaining) {
        Ok(timeout) => timeout,
        Err(error) => {
            return Err(error.to_owned());
        },
    };
    Ok(
        ShellRequest {
            kind: ExecutionKind::Shell,
            program: context.shell.program.duplicate(),
            argv0: context.shell.program.duplicate(),
            program_digest: context.shell.executable_digest.duplicate(),
            workspace_root: copy.view_root.duplicate(),
            read_only_roots: config.runtime_read_only_roots.duplicate(),
            stdin: None,
            close_stdin_after_initial: false,
            io: ExecutionIo::Pty,
            args: with_command(&context.shell.command_args, args.command.as_str()),
            cwd,
            environment: values,
            terminal_size: config.default_terminal_size,
            profile: ExecutionProfile::Workspace,
            authorization: ExecutionAuthorization {
                host_process_execution: false,
                shell_login_startup: false,
                workspace_write: true,
            },
            grant: None,
            limits: config.execution_limits(timeout),
        },
    )
}

// ---------------------------------------------------------------------------
// In a persistent terminal
// ---------------------------------------------------------------------------

/// The environment of a terminal, and the directories that it may read.
#[derive(Clone, Debug)]
pub struct TerminalEnvironment {
    pub admitted_base: EnvironmentOverride,
    pub admitted_path_roots: Vec<RepoPath>,
}

/// Whether a name has a value.
pub open spec fn is_set(entries: Entries, name: Seq<char>) -> bool {
    exists|i: int| 0 <= i < entries.len() && (#[trigger] entries[i]).0 == name
}

/// Why a terminal gets no environment. `roots` are the directories that it may
/// read, or why there are none.
pub open spec fn terminal_environment_failure(
    shell: ShellSnapshot,
    base: EnvironmentOverride,
    roots: Result<Vec<RepoPath>, String>,
    shell_program: RepoPath,
    candidates: Seq<PathCandidate>,
) -> Option<Seq<char>> {
    let inherited = admitted(base@, contents(shell.environment_names@), base@.len() as int);
    let n = candidates.len() as int;
    if !is_set(inherited, "PATH"@) {
        Some("persistent agent terminal requires an admitted PATH"@)
    } else {
        match roots {
            Err(error) => Some(error@),
            Ok(roots) => if !is_admitted(roots@, shell_program@) {
                Some("configured shell is outside admitted terminal runtime roots"@)
            } else if !provides_ls(roots@, candidates, n) {
                Some("admitted terminal PATH does not provide the required `ls` utility"@)
            } else if holds_colon(search_path(roots@, candidates, n)) {
                Some("failed to join admitted terminal PATH"@)
            } else {
                None
            },
        }
    }
}

/// The environment of a persistent terminal: what its shell admits of the
/// base, with a search path of admitted directories only.
pub fn agent_terminal_environment(
    shell: &ShellSnapshot,
    base: &EnvironmentOverride,
    roots: Result<Vec<RepoPath>, String>,
    shell_program: &RepoPath,
    candidates: &Vec<PathCandidate>,
) -> (r: Result<TerminalEnvironment, String>)
    ensures
        match terminal_environment_failure(*shell, *base, roots, *shell_program, candidates@) {
            Some(error) => r is Err && r->Err_0@ == error,
            None => r matches Ok(made) && {
                &&& roots == Ok::<Vec<RepoPath>, String>(made.admitted_path_roots)
                &&& made.admitted_base@ == with_entry(
                    admitted(base@, contents(shell.environment_names@), base@.len() as int),
                    "PATH"@,
                    joined(
                        search_path(
                            made.admitted_path_roots@,
                            candidates@,
                            candidates@.len() as int,
                        ),
                    ),
                )
            },
        },
{
    let mut admitted_base: EnvironmentOverride = frozen_base_environment(
        &shell.environment_names,
        base,
    );
    match admitted_base.get("PATH") {
        Some(value) => {
            proof {
                let inherited = admitted_base@;
                let i = choose|i: int|
                    0 <= i < inherited.len() && inherited[i] == ("PATH"@, value@);
                assert(inherited[i].0 == "PATH"@);
            }
        },
        None => {
            return Err("persistent agent terminal requires an admitted PATH".to_owned());
        },
    }
    let roots: Vec<RepoPath> = match roots {
        Ok(roots) => roots,
        Err(error) => {
            return Err(error);
        },
    };
    let paths: Vec<RepoPath> = match build_managed_terminal_path(
        shell_program,
        &roots,
        candidates,
    ) {
        Ok(paths) => paths,
        Err(error) => {
            return Err(error.to_owned());
        },
    };
    let path: String = match join_paths(&paths) {
        Ok(path) => path,
        Err(error) => {
            return Err(error.to_owned());
        },
    };
    admitted_base.insert("PATH", path.as_str());
    Ok(TerminalEnvironment { admitted_base, admitted_path_roots: roots })
}

/// A command for the persistent terminal of its caller.
#[derive(Clone, Debug)]
pub struct AgentTerminalRequest {
    pub shell: AdmittedShellKind,
    pub read_only_roots: Vec<String>,
    pub profile: ExecutionProfile,
    pub authorization: ExecutionAuthorization,
    pub environment: TerminalEnvironment,
    pub terminal_size: TerminalSize,
    pub limits: ExecutionLimits,
    pub command: String,
    pub timeout_ms: Option<u64>,
}

/// Why a terminal does not belong to its caller.
pub open spec fn owner_failure(owner: OwnerProbe) -> Option<Seq<char>> {
    if !owner.scope_is_run {
        Some("execution authority scope is not an agent run ID"@)
    } else {
        match owner.kind {
            CallerOwnerKind::Persistent => if !owner.owner_is_session {
                Some("persistent execution owner is not an agent session ID"@)
            } else if !owner.session_is_durable {
                Some("session process owner differs from its durable terminal session"@)
            } else {
                None
            },
            CallerOwnerKind::Ephemeral => if !owner.owner_is_run {
                Some("ephemeral execution owner is not an agent run ID"@)
            } else {
                None
            },
            CallerOwnerKind::Service => Some(
                "service execution owners do not own agent terminals"@,
            ),
        }
    }
}

/// Why no command is given to a terminal.
pub open spec fn agent_failure(
    args: ShellArgs,
    owner: OwnerProbe,
    roots: Result<Vec<RepoPath>, String>,
    shell_program: RepoPath,
    candidates: Seq<PathCandidate>,
    context: ShellContext,
    config: ProcessToolRuntimeConfig,
) -> Option<Seq<char>> {
    either(
        fault_of(context.shell.executable_fault),
        either(
            owner_failure(owner),
            either(
                kind_failure(context.shell),
                either(
                    terminal_environment_failure(
                        context.shell,
                        context.base_environment,
                        roots,
                        shell_program,
                        candidates,
                    ),
                    timeout_failure(args.timeout_ms, context.remaining, config),
                ),
            ),
        ),
    )
}

/// The command that a persistent terminal is given.
pub fn agent_terminal_request(
    args: &ShellArgs,
    owner: OwnerProbe,
    roots: Result<Vec<RepoPath>, String>,
    shell_program: &RepoPath,
    candidates: &Vec<PathCandidate>,
    context: &ShellContext,
    config: &ProcessToolRuntimeConfig,
) -> (r: Result<AgentTerminalRequest, String>)
    ensures
        match agent_failure(
            *args,
            owner,
            roots,
            *shell_program,
            candidates@,
            *context,
            *config,
        ) {
            Some(error) => r is Err && r->Err_0@ == error,
            None => r matches Ok(request) && {
                &&& request.shell == kind_of_shell(context.shell)
                &&& contents(request.read_only_roots@) == contents(config.runtime_read_only_roots@)
                &&& request.profile == ExecutionProfile::Workspace
                &&& request.authorization == (ExecutionAuthorization {
                    host_process_execution: false,
                    shell_login_startup: false,
                    workspace_write: false,
                })
                &&& roots == Ok::<Vec<RepoPath>, String>(request.environment.admitted_path_roots)
                &&& request.environment.admitted_base@ == with_entry(
                    admitted(
                        context.base_environment@,
                        contents(context.shell.environment_names@),
                        context.base_environment@.len() as int,
                    ),
                    "PATH"@,
                    joined(
                        search_path(
                            request.environment.admitted_path_roots@,
                            candidates@,
                            candidates@.len() as int,
                        ),
                    ),
                )
                &&& request.terminal_size == config.default_terminal_size
                &&& request.limits == (ExecutionLimits {
                    timeout_ms: None,
                    max_input_bytes: config.max_input_bytes as u64,
                    max_output_bytes: config.max_spool_bytes,
                })
                &&& request.command@ == args.command@
                &&& is_timeout(request.timeout_ms, args.timeout_ms, context.remaining, *config)
            },
        },
{
    if let Some(fault) = &context.shell.executable_fault {
        return Err(fault.duplicate());
    }
    match terminal_owner(owner) {
        Ok(()) => {},
        Err(error) => {
            return Err(error.to_owned());
        },
    }
    let shell: AdmittedShellKind = match check_kind(&context.shell) {
        Ok(kind) => kind,
        Err(error) => {
            return Err(error);
        },
    };
    let made: TerminalEnvironment = match agent_terminal_environment(
        &context.shell,
        &context.base_environment,
        roots,
        shell_program,
        candidates,
    ) {
        Ok(made) => made,
        Err(error) => {
            return Err(error);
        },
    };
    let timeout_ms: Option<u64> = match config.timeout_ms(
        args.timeout_ms,
        true,
        context.remaining,
    ) {
        Ok(timeout) => timeout,
        Err(error) => {
            return Err(error.to_owned());
        },
    };
    Ok(
        AgentTerminalRequest {
            shell,
            read_only_roots: config.runtime_read_only_roots.duplicate(),
            profile: ExecutionProfile::Workspace,
            authorization: ExecutionAuthorization {
                host_process_execution: false,
                shell_login_startup: false,
                workspace_write: false,
            },
            environment: made,
            terminal_size: config.default_terminal_size,
            limits: config.execution_limits(None),
            command: args.command.duplicate(),
            timeout_ms,
        },
    )
}

} // verus!
