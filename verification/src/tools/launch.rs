//! Launching an exact argv.

use vstd::prelude::*;
use vstd::string::*;

use super::descriptor::Effect;
use super::environment::{environment, process_environment, Entries, EnvironmentOverride};
use super::process::{
    argv_failure, authorization_failure, execution_authorization, profile_of, requested_profile,
    slice_texts, text_failure, validate_argv, validate_text, ExecutionAuthorization, ExecutionIo,
    ExecutionKind, ExecutionLimits, ExecutionProfile, GrantProvenance, ProcessBytes,
    ProcessToolRuntimeConfig, Span, MAX_PROCESS_PATH_BYTES,
};
use super::terminal::{
    lookup_of, missing_program, program_candidate_exists, program_failure, resolve_program,
    ProgramLookup, ProgramProbe, ResolvedProgram,
};
use crate::ids::quoted;
use crate::value::{contents, Abstract};

verus! {

/// What a process is asked for with.
#[derive(Clone, Debug)]
pub struct ArgvArgs {
    pub program: String,
    pub args: Vec<String>,
    pub cwd: Option<String>,
    pub env: EnvironmentOverride,
    pub stdin: Option<ProcessBytes>,
    pub timeout_ms: Option<u64>,
    pub profile: Option<ExecutionProfile>,
}

/// What is known of the caller and of the machine when a process is asked for.
#[derive(Debug)]
pub struct LaunchContext {
    /// The effects that were authorized.
    pub effects: Vec<Effect>,
    pub provenance: Option<GrantProvenance>,
    pub workspace_root: String,
    /// The names that the shell of the caller admits.
    pub environment_names: Vec<String>,
    pub base_environment: EnvironmentOverride,
    /// Where the working directory really is, or why it may not be used.
    pub directory: Result<String, String>,
    /// What the execution service finds wrong with the environment.
    pub environment_fault: Option<String>,
    pub program: ProgramProbe,
    /// What is wrong with the bytes of the standard input.
    pub stdin_fault: Option<String>,
    /// The time that the run has left.
    pub remaining: Option<Span>,
}

/// Why a process is not launched.
#[derive(Clone, Debug, Eq, PartialEq)]
pub enum LaunchError {
    /// There is no such program.
    NotFound(String),
    Failed(String),
}

pub enum LaunchErrorAbs {
    NotFound(Seq<char>),
    Failed(Seq<char>),
}

impl LaunchError {
    pub open spec fn view(&self) -> LaunchErrorAbs {
        match self {
            LaunchError::NotFound(message) => LaunchErrorAbs::NotFound(message@),
            LaunchError::Failed(message) => LaunchErrorAbs::Failed(message@),
        }
    }
}

/// A process that can be launched.
#[derive(Clone, Debug)]
pub struct ArgvRequest {
    pub kind: ExecutionKind,
    pub program: ResolvedProgram,
    pub args: Vec<String>,
    pub workspace_root: String,
    pub cwd: String,
    pub read_only_roots: Vec<String>,
    pub environment: EnvironmentOverride,
    pub stdin: Option<ProcessBytes>,
    pub close_stdin_after_initial: bool,
    pub io: ExecutionIo,
    pub profile: ExecutionProfile,
    pub authorization: ExecutionAuthorization,
    pub grant: Option<GrantProvenance>,
    pub limits: ExecutionLimits,
}

/// The directory that is asked for; without one it is the current one.
pub open spec fn directory_of(cwd: Option<String>) -> Seq<char> {
    match cwd {
        Some(cwd) => cwd@,
        None => "."@,
    }
}

/// What of a launch is refused before the machine is looked at.
pub open spec fn argument_failure(args: ArgvArgs, context: LaunchContext) -> Option<Seq<char>> {
    let profile = profile_of(args.profile);
    match text_failure(args.program@, "process program"@, false, MAX_PROCESS_PATH_BYTES) {
        Some(error) => Some(error),
        None => match argv_failure(slice_texts(args.args@)) {
            Some(error) => Some(error@),
            None => match authorization_failure(
                context.effects@.contains(Effect::HostProcessExecution),
                context.effects@.contains(Effect::ShellLoginStartup),
                profile,
                false,
                context.provenance is Some,
            ) {
                Some(error) => Some(error@),
                None => match text_failure(
                    directory_of(args.cwd),
                    "process cwd"@,
                    false,
                    MAX_PROCESS_PATH_BYTES,
                ) {
                    Some(error) => Some(error),
                    None => match context.directory {
                        Err(error) => Some(error@),
                        Ok(_) => None,
                    },
                },
            },
        },
    }
}

/// The environment that a process gets, or why it gets none.
pub open spec fn launch_environment(
    args: ArgvArgs,
    context: LaunchContext,
    maximum_bytes: usize,
) -> Result<Entries, Seq<char>> {
    match process_environment(
        context.base_environment@,
        contents(context.environment_names@),
        args.env@,
        maximum_bytes,
    ) {
        Err(error) => Err(error),
        Ok(entries) => match context.environment_fault {
            Some(fault) => Err(fault@),
            None => Ok(entries),
        },
    }
}

/// Why a process is not launched, in the order in which things are looked at.
pub open spec fn launch_failure(
    args: ArgvArgs,
    context: LaunchContext,
    config: ProcessToolRuntimeConfig,
    foreground: bool,
) -> Option<LaunchErrorAbs> {
    match argument_failure(args, context) {
        Some(error) => Some(LaunchErrorAbs::Failed(error)),
        None => match launch_environment(args, context, config.maximum_environment_bytes) {
            Err(error) => Some(LaunchErrorAbs::Failed(error)),
            Ok(_) => if !context.program.found && !(lookup_of(args.program@)
                == ProgramLookup::Search && !context.program.has_path) {
                Some(
                    LaunchErrorAbs::NotFound(
                        "process program was not found: "@ + quoted(args.program@),
                    ),
                )
            } else {
                match program_failure(args.program@, context.program) {
                    Some(error) => Some(LaunchErrorAbs::Failed(error)),
                    None => match context.stdin_fault {
                        Some(fault) => Some(LaunchErrorAbs::Failed(fault@)),
                        None => match config.timeout(
                            args.timeout_ms,
                            foreground,
                            context.remaining,
                        ) {
                            Err(error) => Some(LaunchErrorAbs::Failed(error@)),
                            Ok(_) => None,
                        },
                    },
                }
            },
        },
    }
}

/// The process that is launched for an exact argv.
pub fn argv_request(
    args: ArgvArgs,
    context: LaunchContext,
    config: &ProcessToolRuntimeConfig,
    io: ExecutionIo,
    foreground: bool,
) -> (r: Result<ArgvRequest, LaunchError>)
    ensures
        match launch_failure(args, context, *config, foreground) {
            Some(error) => r is Err && r->Err_0@ == error,
            None => r matches Ok(request) && {
                let profile = profile_of(args.profile);
                &&& request.kind == ExecutionKind::Argv
                &&& request.program.argv0@ == args.program@
                &&& Some(request.program.executable@) == context.program.canonical.abs()
                &&& request.args == args.args
                &&& request.workspace_root == context.workspace_root
                &&& contents(request.read_only_roots@) == contents(config.runtime_read_only_roots@)
                &&& request.stdin == args.stdin
                &&& context.directory == Ok::<String, String>(request.cwd)
                &&& launch_environment(args, context, config.maximum_environment_bytes) == Ok::<
                    Entries,
                    Seq<char>,
                >(request.environment@)
                &&& request.close_stdin_after_initial == foreground
                &&& request.io == io
                &&& request.profile == profile
                &&& request.authorization == (ExecutionAuthorization {
                    host_process_execution: context.effects@.contains(
                        Effect::HostProcessExecution,
                    ),
                    shell_login_startup: context.effects@.contains(Effect::ShellLoginStartup),
                    workspace_write: profile == ExecutionProfile::Workspace,
                })
                &&& request.grant == if profile == ExecutionProfile::Host {
                    context.provenance
                } else {
                    None
                }
                &&& config.timeout(args.timeout_ms, foreground, context.remaining) == Ok::<
                    Option<int>,
                    &'static str,
                >(
                    match request.limits.timeout_ms {
                        Some(value) => Some(value as int),
                        None => None,
                    },
                )
                &&& request.limits.max_input_bytes == config.max_input_bytes
                &&& request.limits.max_output_bytes == config.max_spool_bytes
            },
        },
{
    if let Some(error) = validate_text(
        args.program.as_str(),
        "process program",
        false,
        MAX_PROCESS_PATH_BYTES,
    ) {
        return Err(LaunchError::Failed(error));
    }
    match validate_argv(args.args.as_slice()) {
        Ok(()) => {},
        Err(error) => {
            return Err(LaunchError::Failed(error.to_owned()));
        },
    }
    let profile: ExecutionProfile = requested_profile(args.profile);
    let (authorization, grant): (ExecutionAuthorization, Option<GrantProvenance>) =
        match execution_authorization(
        &context.effects,
        profile,
        false,
        profile == ExecutionProfile::Workspace,
        context.provenance,
    ) {
        Ok(granted) => granted,
        Err(error) => {
            return Err(LaunchError::Failed(error.to_owned()));
        },
    };
    let requested: String = match &args.cwd {
        Some(cwd) => cwd.clone(),
        None => ".".to_owned(),
    };
    if let Some(error) = validate_text(
        requested.as_str(),
        "process cwd",
        false,
        MAX_PROCESS_PATH_BYTES,
    ) {
        return Err(LaunchError::Failed(error));
    }
    let cwd: String = match context.directory {
        Ok(cwd) => cwd,
        Err(error) => {
            return Err(LaunchError::Failed(error));
        },
    };
    let values: EnvironmentOverride = match environment(
        &context.environment_names,
        &context.base_environment,
        &args.env,
        config.maximum_environment_bytes,
    ) {
        Ok(values) => values,
        Err(error) => {
            return Err(LaunchError::Failed(error));
        },
    };
    if let Some(fault) = context.environment_fault {
        return Err(LaunchError::Failed(fault));
    }
    match program_candidate_exists(args.program.as_str(), &context.program) {
        Some(found) => {
            if !found {
                return Err(LaunchError::NotFound(missing_program(args.program.as_str())));
            }
        },
        None => {},
    }
    let program: ResolvedProgram = match resolve_program(args.program.as_str(), &context.program) {
        Ok(program) => program,
        Err(error) => {
            return Err(LaunchError::Failed(error));
        },
    };
    if let Some(fault) = context.stdin_fault {
        return Err(LaunchError::Failed(fault));
    }
    let timeout: Option<u64> = match config.timeout_ms(
        args.timeout_ms,
        foreground,
        context.remaining,
    ) {
        Ok(timeout) => timeout,
        Err(error) => {
            return Err(LaunchError::Failed(error.to_owned()));
        },
    };
    Ok(
        ArgvRequest {
            kind: ExecutionKind::Argv,
            program,
            args: args.args,
            workspace_root: context.workspace_root,
            cwd,
            read_only_roots: config.runtime_read_only_roots.duplicate(),
            environment: values,
            stdin: args.stdin,
            close_stdin_after_initial: foreground,
            io,
            profile,
            authorization,
            grant,
            limits: config.execution_limits(timeout),
        },
    )
}

} // verus!
