//! Processes, shells, terminals and copy-on-write workspaces.

use std::collections::BTreeSet;

use agl_core::json::{object, Json};
use agl_core::tools::cow::{
    capture_action, decide, expected_workspace_path_matches, workspace_diff, CaptureAction,
    CaptureKind, CowError, CowOperation, CowWorkspaceDiff, WorkspaceFile, WorkspaceLink,
    WorkspaceTree,
    MAX_COW_CHANGES,
};
use agl_core::tools::descriptor::{Effect, OperationKind};
use agl_core::tools::environment::{environment, frozen_base_environment, EnvironmentOverride};
use agl_core::tools::foreground::{
    shell_report, Foreground, ForegroundEvent, ForegroundFailure, ForegroundStep,
};
use agl_core::tools::launch::{argv_request, ArgvArgs, LaunchContext, LaunchError};
use agl_core::tools::patch::content_digest;
use agl_core::tools::process::{
    admitted_agent_shell, change_directory, declaration, directory_request, dispatch, execution_authorization,
    observed_process_effects, process_tool_ids, requested_conditional_effects, terminal_owner,
    terminal_size, validate_argv, validate_text, AdmittedShellKind, BytesEncoding, CallerOwnerKind,
    ConditionalRequest, ExecutionIo, ExecutionKind, ExecutionProfile, GrantProvenance, OwnerProbe,
    ProcessBytes,
    ProcessToolRuntimeConfig, Span, TerminalSize, tool_answer, WorkspaceAccess, EXTENSION_ID,
    MAX_PROCESS_ARGUMENTS, MAX_PROCESS_TEXT_BYTES, PROCESS_CD_TOOL_ID, PROCESS_EXEC_TOOL_ID,
    SHELL_EXEC_TOOL_ID,
};
use agl_core::tools::repo_path::{normalize_repo_path, RepoPath};
use agl_core::tools::shell::{
    agent_output, foreground_truncated, route_shell, validate_shell_contract, ShellArgs,
    ShellExpectedEffects, ShellRefusal, ShellRoute,
};
use agl_core::tools::shell_launch::{
    agent_terminal_request, copy_shell_request, host_shell_request, workspace_relative, CopyProbe,
    ShellContext, ShellSnapshot,
};
use agl_core::tools::terminal::{
    build_managed_terminal_path, canonical_terminal_runtime_roots, join_paths, missing_program,
    path_candidates, program_lookup, resolve_program, PathCandidate, ProgramLookup, ProgramProbe,
    RootCandidate, RootProbe,
};

// ---------------------------------------------------------------------------
// Declarations and arguments
// ---------------------------------------------------------------------------

#[test]
fn declaration_has_exact_extension_actions_and_effect_classes() {
    let declaration = declaration();
    assert_eq!(declaration.id, EXTENSION_ID);
    assert_eq!(
        declaration
            .tools
            .iter()
            .map(|action| action.id)
            .collect::<BTreeSet<_>>(),
        process_tool_ids().into_iter().collect()
    );
    let shell = declaration
        .tools
        .iter()
        .find(|action| action.id == SHELL_EXEC_TOOL_ID)
        .unwrap();
    assert_eq!(shell.operation_kind, OperationKind::Execute);
    assert_eq!(shell.state_effects, [Effect::SpawnProcess]);
    assert_eq!(shell.conditional_state_effects.len(), 3);
    for effect in [
        Effect::HostProcessExecution,
        Effect::ShellLoginStartup,
        Effect::RepoWorkspace,
    ] {
        assert!(shell.conditional_state_effects.contains(&effect));
    }
}

#[test]
fn conditional_preflight_is_exact_and_login_implies_host() {
    let effects = requested_conditional_effects(
        SHELL_EXEC_TOOL_ID,
        ConditionalRequest {
            profile: Some(ExecutionProfile::Host),
            login: Some(true),
            workspace_access: WorkspaceAccess::ReadOnly,
        },
    );
    assert_eq!(effects.len(), 2);
    assert!(effects.contains(&Effect::HostProcessExecution));
    assert!(effects.contains(&Effect::ShellLoginStartup));
    let login = requested_conditional_effects(
        SHELL_EXEC_TOOL_ID,
        ConditionalRequest {
            profile: None,
            login: Some(true),
            workspace_access: WorkspaceAccess::ReadOnly,
        },
    );
    assert!(login.contains(&Effect::HostProcessExecution));
}

#[test]
fn exact_argv_resolution_does_not_interpret_shell_metacharacters() {
    let values = vec![
        "two words".to_owned(),
        ";".to_owned(),
        "$(touch nope)".to_owned(),
        "*.rs".to_owned(),
        "a|b".to_owned(),
    ];
    validate_argv(&values).unwrap();
    assert_eq!(values[2], "$(touch nope)");
    assert!(validate_argv(&vec![String::new(); MAX_PROCESS_ARGUMENTS + 1]).is_err());
    assert!(validate_argv(&["x".repeat(MAX_PROCESS_TEXT_BYTES + 1)]).is_err());
}

#[test]
fn texts_are_bounded_and_hold_no_nul() {
    assert!(validate_text("x", "program", false, 1).is_none());
    assert!(validate_text("", "program", true, 1).is_none());
    assert_eq!(
        validate_text("", "program", false, 1).unwrap(),
        "program cannot be empty"
    );
    assert!(validate_text("xy", "program", false, 1).is_some());
    assert!(validate_text("\0", "program", false, 1).is_some());
}

#[test]
fn every_process_tool_is_dispatched() {
    for id in process_tool_ids() {
        assert!(dispatch(id).is_ok());
    }
    assert_eq!(
        dispatch("core.process:nope").unwrap_err(),
        "unknown process tool `core.process:nope`"
    );
}

// ---------------------------------------------------------------------------
// Programs and terminals
// ---------------------------------------------------------------------------

fn probe(canonical: &str) -> ProgramProbe {
    ProgramProbe {
        has_path: true,
        found: true,
        canonical: Some(canonical.to_owned()),
        metadata: Some((true, 0o700)),
    }
}

#[test]
fn exact_argv_resolution_preserves_symlink_name_as_argv0() {
    let resolved = resolve_program("/tmp/root/applet", &probe("/tmp/root/multicall")).unwrap();
    assert_eq!(resolved.executable, "/tmp/root/multicall");
    assert_eq!(resolved.argv0, "/tmp/root/applet");
}

#[test]
fn programs_are_regular_and_executable() {
    assert_eq!(program_lookup("/bin/true"), ProgramLookup::Absolute);
    assert_eq!(program_lookup("bin/true"), ProgramLookup::Relative);
    assert_eq!(program_lookup("true"), ProgramLookup::Search);
    let mut directory = probe("/tmp");
    directory.metadata = Some((false, 0o700));
    assert!(resolve_program("/tmp", &directory).is_err());
    let mut plain = probe("/tmp/plain");
    plain.metadata = Some((true, 0o644));
    assert!(resolve_program("/tmp/plain", &plain).is_err());
    let mut absent = probe("/tmp/absent");
    absent.canonical = None;
    assert!(resolve_program("/tmp/absent", &absent).is_err());
    assert_eq!(
        missing_program("a\"b"),
        "process program was not found: \"a\\\"b\""
    );
}

#[test]
fn terminals_run_bash_or_zsh() {
    assert_eq!(admitted_agent_shell(Some("bash")), Ok(AdmittedShellKind::Bash));
    assert_eq!(admitted_agent_shell(Some("zsh")), Ok(AdmittedShellKind::Zsh));
    assert!(admitted_agent_shell(Some("fish")).is_err());
    assert!(admitted_agent_shell(None).is_err());
}

#[test]
fn terminal_sizes_belong_to_terminals() {
    let size = TerminalSize { columns: 80, rows: 24 };
    let default = TerminalSize { columns: 100, rows: 30 };
    assert_eq!(
        terminal_size(Some(size), ExecutionIo::Pty, default, None),
        Ok(Some(size))
    );
    assert_eq!(
        terminal_size(None, ExecutionIo::Pty, default, None),
        Ok(Some(default))
    );
    assert_eq!(terminal_size(None, ExecutionIo::Pipes, default, None), Ok(None));
    assert!(terminal_size(Some(size), ExecutionIo::Pipes, default, None).is_err());
}

#[test]
fn runtime_roots_are_canonical_and_in_order() {
    let at = |path: &str| normalize_repo_path(path, false).unwrap();
    let root = |path: &str, canonical: Option<&str>| RootProbe {
        path: at(path),
        canonical: canonical.map(at),
        is_directory: true,
    };
    let roots = canonical_terminal_runtime_roots(
        &vec![at("usr"), at("bin")],
        &vec![root("opt", Some("opt")), root("bin", Some("bin"))],
    )
    .unwrap();
    let names: Vec<String> = roots.iter().map(|root| root.display()).collect();
    assert_eq!(names, ["bin", "opt", "usr"]);
    assert_eq!(
        canonical_terminal_runtime_roots(&vec![], &vec![root("opt", None)]).unwrap_err(),
        "failed to canonicalize terminal runtime root /opt"
    );
    assert!(
        canonical_terminal_runtime_roots(&vec![], &vec![root("lib", Some("usr/lib"))]).is_err(),
    );
    assert!(canonical_terminal_runtime_roots(&vec![], &vec![]).is_err());
}

#[test]
fn search_paths_lie_in_the_runtime_roots() {
    let at = |path: &str| normalize_repo_path(path, false).unwrap();
    let candidate = |path: &str, has_ls: bool| PathCandidate {
        path: at(path),
        is_directory: true,
        has_ls,
    };
    let candidates = vec![candidate("usr/bin", true), candidate("home/bin", true)];
    let path = build_managed_terminal_path(&at("usr/bin/bash"), &vec![at("usr")], &candidates)
        .unwrap();
    let names: Vec<String> = path.iter().map(|entry| entry.display()).collect();
    assert_eq!(names, ["usr/bin"]);
    assert_eq!(
        build_managed_terminal_path(&at("home/bash"), &vec![at("usr")], &candidates).unwrap_err(),
        "configured shell is outside admitted terminal runtime roots"
    );
    assert_eq!(
        build_managed_terminal_path(
            &at("usr/bin/bash"),
            &vec![at("usr")],
            &vec![candidate("usr/bin", false)]
        )
        .unwrap_err(),
        "admitted terminal PATH does not provide the required `ls` utility"
    );
}

// ---------------------------------------------------------------------------
// Environments
// ---------------------------------------------------------------------------

fn entries(pairs: &[(&str, &str)]) -> EnvironmentOverride {
    let mut out = EnvironmentOverride::new();
    for (name, value) in pairs {
        out.insert(name, value);
    }
    out
}

fn listed(environment: &EnvironmentOverride) -> Vec<(String, String)> {
    (0..environment.len())
        .map(|i| (environment.name(i).to_owned(), environment.value(i).to_owned()))
        .collect()
}

#[test]
fn resumed_context_keeps_its_frozen_environment_allowlist() {
    let names = vec!["PATH".to_owned(), "LANG".to_owned()];
    let base = entries(&[
        ("PATH", "/bin"),
        ("LANG", "C.UTF-8"),
        ("NEW_AFTER_RESUME", "private"),
    ]);
    assert_eq!(
        listed(&frozen_base_environment(&names, &base)),
        [
            ("LANG".to_owned(), "C.UTF-8".to_owned()),
            ("PATH".to_owned(), "/bin".to_owned()),
        ]
    );
}

#[test]
fn overrides_replace_what_is_inherited_within_the_limit() {
    let names = vec!["PATH".to_owned()];
    let base = entries(&[("PATH", "/bin"), ("HOME", "/root")]);
    let given = entries(&[("PATH", "/usr/bin"), ("A", "1")]);
    let made = environment(&names, &base, &given, 4096).unwrap();
    assert_eq!(
        listed(&made),
        [
            ("A".to_owned(), "1".to_owned()),
            ("PATH".to_owned(), "/usr/bin".to_owned()),
        ]
    );
    assert!(environment(&names, &base, &given, 3).is_err());
    assert!(environment(&names, &base, &entries(&[("A=B", "1")]), 4096).is_err());
    assert!(environment(&names, &base, &entries(&[("A", "1\0")]), 4096).is_err());
}

// ---------------------------------------------------------------------------
// Authority
// ---------------------------------------------------------------------------

fn provenance() -> GrantProvenance {
    GrantProvenance {
        grant_id: "grant".to_owned(),
        duration: "one_turn".to_owned(),
        scope_digest: "sha256:00".to_owned(),
    }
}

#[test]
fn host_execution_needs_an_admitted_effect_and_a_grant() {
    let none = execution_authorization(
        &vec![Effect::SpawnProcess],
        ExecutionProfile::Host,
        false,
        false,
        Some(provenance()),
    );
    assert_eq!(none.unwrap_err(), "host process execution was not admitted");
    let unproven = execution_authorization(
        &vec![Effect::HostProcessExecution],
        ExecutionProfile::Host,
        false,
        false,
        None,
    );
    assert_eq!(
        unproven.unwrap_err(),
        "host process execution lacks immutable grant provenance"
    );
    let (authorization, grant) = execution_authorization(
        &vec![Effect::HostProcessExecution],
        ExecutionProfile::Host,
        false,
        false,
        Some(provenance()),
    )
    .unwrap();
    assert!(authorization.host_process_execution);
    assert_eq!(grant, Some(provenance()));
    let login = execution_authorization(
        &vec![Effect::HostProcessExecution],
        ExecutionProfile::Host,
        true,
        false,
        Some(provenance()),
    );
    assert_eq!(login.unwrap_err(), "shell login startup was not admitted");
}

#[test]
fn terminals_belong_to_their_caller() {
    let owner = |kind, scope, session, run, durable| OwnerProbe {
        kind,
        scope_is_run: scope,
        owner_is_session: session,
        owner_is_run: run,
        session_is_durable: durable,
    };
    assert!(terminal_owner(owner(CallerOwnerKind::Persistent, true, true, false, true)).is_ok());
    assert!(terminal_owner(owner(CallerOwnerKind::Ephemeral, true, false, true, false)).is_ok());
    assert!(terminal_owner(owner(CallerOwnerKind::Persistent, true, true, false, false)).is_err());
    assert!(terminal_owner(owner(CallerOwnerKind::Service, true, true, true, true)).is_err());
    assert_eq!(
        terminal_owner(owner(CallerOwnerKind::Persistent, false, true, true, true)),
        Err("execution authority scope is not an agent run ID")
    );
}

#[test]
fn a_change_of_directory_is_one_revision() {
    let changed = change_directory("/w/child".to_owned(), 1, ExecutionProfile::Workspace).unwrap();
    assert_eq!(changed.working_directory, "/w/child");
    assert_eq!(changed.revision, 2);
    assert_eq!(changed.profile_metadata, "workspace");
    assert_eq!(directory_request("src", None), Ok(ExecutionProfile::Workspace));
    assert_eq!(
        directory_request("", Some(ExecutionProfile::Host)).unwrap_err(),
        "core.process:process.cd path cannot be empty"
    );
    assert_eq!(
        directory_request(&"d".repeat(4_097), None).unwrap_err(),
        "core.process:process.cd path exceeds the 4096-byte limit"
    );
    assert_eq!(
        change_directory("/w".to_owned(), u64::MAX, ExecutionProfile::Host).unwrap_err(),
        "execution context revision overflow"
    );
}

fn text(value: &str) -> Json {
    Json::Text(value.to_owned())
}

#[test]
fn observed_effects_name_their_execution() {
    let observed = observed_process_effects(
        PROCESS_EXEC_TOOL_ID,
        &vec![Effect::HostProcessExecution],
        &object(vec![("execution_id", text("exec_1"))]),
    );
    assert_eq!(observed[0].effect, Effect::SpawnProcess);
    assert!(observed[0].scope.contains(&("execution_id", "exec_1".to_owned())));
    assert!(observed
        .iter()
        .any(|seen| seen.effect == Effect::HostProcessExecution));
    let moved = observed_process_effects(
        PROCESS_CD_TOOL_ID,
        &vec![],
        &object(vec![("working_directory", text("/w"))]),
    );
    assert_eq!(moved.len(), 1);
    assert_eq!(moved[0].effect, Effect::SessionWorkingDirectory);
}

#[test]
fn an_answer_tells_what_it_holds() {
    let answer = tool_answer(&object(vec![
        ("execution_id", text("exec_1")),
        ("working_directory", Json::Bool(true)),
        (
            "observed_effects",
            object(vec![(
                "workspace_paths",
                Json::Array(vec![text("a"), Json::Null, text("b")]),
            )]),
        ),
    ]));
    assert_eq!(answer.execution_id.as_deref(), Some("exec_1"));
    assert_eq!(answer.working_directory, None);
    assert_eq!(answer.workspace_paths, ["a", "b"]);
    let silent = tool_answer(&Json::Null);
    assert_eq!(silent.execution_id, None);
    assert!(silent.workspace_paths.is_empty());
}

// ---------------------------------------------------------------------------
// Launching
// ---------------------------------------------------------------------------

fn config() -> ProcessToolRuntimeConfig {
    ProcessToolRuntimeConfig {
        maximum_environment_bytes: 4096,
        runtime_read_only_roots: Vec::new(),
        default_foreground_timeout: Span { seconds: 1, nanoseconds: 0 },
        maximum_foreground_timeout: Span { seconds: 10, nanoseconds: 0 },
        max_input_bytes: 1024,
        max_result_bytes: 1024,
        max_spool_bytes: 4096,
        default_terminal_size: TerminalSize { columns: 80, rows: 24 },
    }
}

#[test]
fn limits_are_nonzero_and_ordered() {
    assert!(config().validate(None, None).is_ok());
    let mut reversed = config();
    reversed.default_foreground_timeout = Span { seconds: 11, nanoseconds: 0 };
    assert!(reversed.validate(None, None).is_err());
    let mut empty = config();
    empty.max_spool_bytes = 0;
    assert!(empty.validate(None, None).is_err());
    assert_eq!(
        config().validate(Some("bad".to_owned()), None).unwrap_err(),
        "bad"
    );
}

#[test]
fn timeouts_are_bounded_by_the_maximum_and_the_run() {
    let config = config();
    assert_eq!(config.timeout_ms(None, true, None), Ok(Some(1_000)));
    assert_eq!(config.timeout_ms(None, false, None), Ok(None));
    assert_eq!(config.timeout_ms(Some(60_000), true, None), Ok(Some(10_000)));
    assert_eq!(
        config.timeout_ms(Some(5_000), true, Some(Span { seconds: 2, nanoseconds: 500_000_000 })),
        Ok(Some(2_500))
    );
    assert_eq!(
        config.timeout_ms(Some(0), true, None),
        Err("process timeout_ms must be nonzero")
    );
    assert_eq!(
        config.timeout_ms(None, true, Some(Span { seconds: 0, nanoseconds: 999_999 })),
        Err("durable run deadline elapsed before process spawn")
    );
}

fn argv(program: &str) -> ArgvArgs {
    ArgvArgs {
        program: program.to_owned(),
        args: vec!["a b".to_owned()],
        cwd: None,
        env: entries(&[("A", "1")]),
        timeout_ms: None,
        profile: None,
        stdin: Some(ProcessBytes {
            encoding: BytesEncoding::Utf8,
            data: "in".to_owned(),
        }),
    }
}

fn context() -> LaunchContext {
    LaunchContext {
        effects: vec![Effect::SpawnProcess],
        provenance: None,
        environment_names: vec!["PATH".to_owned()],
        base_environment: entries(&[("PATH", "/bin")]),
        directory: Ok("/w".to_owned()),
        environment_fault: None,
        program: probe("/bin/true"),
        stdin_fault: None,
        remaining: None,
        workspace_root: "/w".to_owned(),
    }
}

#[test]
fn a_request_is_launched_as_it_was_asked_for() {
    let request = argv_request(
        argv("/bin/true"),
        context(),
        &config(),
        ExecutionIo::Pipes,
        true,
    )
    .unwrap();
    assert_eq!(request.kind, ExecutionKind::Argv);
    assert_eq!(request.program.executable, "/bin/true");
    assert_eq!(request.args, ["a b"]);
    assert_eq!(request.workspace_root, "/w");
    assert!(request.read_only_roots.is_empty());
    assert_eq!(request.stdin.map(|stdin| stdin.data).as_deref(), Some("in"));
    assert_eq!(request.cwd, "/w");
    assert_eq!(request.environment.get("PATH"), Some("/bin"));
    assert_eq!(request.environment.get("A"), Some("1"));
    assert!(request.close_stdin_after_initial);
    assert_eq!(request.limits.timeout_ms, Some(1_000));
    assert!(request.authorization.workspace_write);
    assert_eq!(request.grant, None);
}

#[test]
fn a_missing_program_is_told_apart() {
    let mut missing = context();
    missing.program.found = false;
    match argv_request(argv("/nope"), missing, &config(), ExecutionIo::Pipes, true) {
        Err(LaunchError::NotFound(message)) => {
            assert_eq!(message, "process program was not found: \"/nope\"")
        }
        _ => panic!("the program is missing"),
    }
    let mut outside = argv("/bin/true");
    outside.profile = Some(ExecutionProfile::Host);
    match argv_request(outside, context(), &config(), ExecutionIo::Pipes, true) {
        Err(LaunchError::Failed(message)) => {
            assert_eq!(message, "host process execution was not admitted")
        }
        _ => panic!("the host is not admitted"),
    }
}

// ---------------------------------------------------------------------------
// Shells
// ---------------------------------------------------------------------------

fn shell() -> ShellArgs {
    ShellArgs {
        command: "true".to_owned(),
        semantic_intent: "check a repository property".to_owned(),
        workspace_access: WorkspaceAccess::ReadOnly,
        expected_effects: ShellExpectedEffects {
            process: true,
            workspace_paths: vec![],
            external: vec![],
        },
        fallback_reason: "no structured Tool represents the property".to_owned(),
        cwd: None,
        env: None,
        timeout_ms: None,
        background: None,
        terminal_size: None,
        profile: None,
        login: None,
    }
}

#[test]
fn shell_calls_go_where_their_declaration_says() {
    assert!(matches!(route_shell(&shell()), Ok(ShellRoute::Agent)));
    let mut writing = shell();
    writing.workspace_access = WorkspaceAccess::Write;
    writing.expected_effects.workspace_paths = vec!["src".to_owned()];
    assert!(matches!(route_shell(&writing), Ok(ShellRoute::CopyOnWrite)));
    let mut host = shell();
    host.profile = Some(ExecutionProfile::Host);
    host.expected_effects.external = vec!["host_process".to_owned()];
    assert!(matches!(route_shell(&host), Ok(ShellRoute::Host)));
}

#[test]
fn shell_declarations_are_complete() {
    assert!(validate_shell_contract(&shell()).is_none());
    let mut silent = shell();
    silent.expected_effects.process = false;
    assert_eq!(
        validate_shell_contract(&silent).unwrap(),
        "shell expected_effects.process must be true"
    );
    let mut background = shell();
    background.background = Some(true);
    assert_eq!(
        validate_shell_contract(&background).unwrap(),
        "shell fallback is foreground-only"
    );
    let mut writing = shell();
    writing.workspace_access = WorkspaceAccess::Write;
    assert_eq!(
        validate_shell_contract(&writing).unwrap(),
        "writable shell fallback requires expected workspace paths"
    );
    let mut reading = shell();
    reading.expected_effects.workspace_paths = vec!["src".to_owned()];
    assert_eq!(
        validate_shell_contract(&reading).unwrap(),
        "read-only shell fallback cannot expect workspace mutations"
    );
    let mut reasonless = shell();
    reasonless.fallback_reason = String::new();
    assert!(validate_shell_contract(&reasonless).is_some());
    let mut login = shell();
    login.login = Some(true);
    assert!(matches!(route_shell(&login), Err(ShellRefusal::Invalid(_))));
    assert!(matches!(route_shell(&background), Err(ShellRefusal::Envelope(_))));
}

fn caller() -> ShellContext {
    ShellContext {
        shell: ShellSnapshot {
            program: "/usr/bin/bash".to_owned(),
            file_name: Some("bash".to_owned()),
            command_args: vec!["-c".to_owned()],
            login_command_args: Some(vec!["-l".to_owned(), "-c".to_owned()]),
            environment_names: vec!["PATH".to_owned()],
            executable_digest: "sha256:shell".to_owned(),
            executable_fault: None,
            profile_fault: None,
        },
        base_environment: entries(&[("PATH", "/usr/bin:/opt"), ("HOME", "/root")]),
        environment_fault: None,
        remaining: None,
        workspace_root: "/w".to_owned(),
    }
}

#[test]
fn a_host_shell_runs_one_command_under_its_grant() {
    let mut args = shell();
    args.profile = Some(ExecutionProfile::Host);
    args.login = Some(true);
    let effects = vec![Effect::HostProcessExecution, Effect::ShellLoginStartup];
    let ask = |context: &ShellContext, effects: &Vec<Effect>| {
        host_shell_request(
            &args,
            effects,
            Some(provenance()),
            Ok("/w".to_owned()),
            context,
            &config(),
        )
    };
    let request = ask(&caller(), &effects).unwrap();
    assert_eq!(request.program, "/usr/bin/bash");
    assert_eq!(request.kind, ExecutionKind::Shell);
    assert_eq!(request.io, ExecutionIo::Pty);
    assert_eq!(request.argv0, "/usr/bin/bash");
    assert_eq!(request.workspace_root, "/w");
    assert!(!request.close_stdin_after_initial);
    assert_eq!(request.args, ["-l", "-c", "true"]);
    assert_eq!(request.cwd, "/w");
    assert_eq!(request.environment.get("PATH"), Some("/usr/bin:/opt"));
    assert_eq!(request.environment.get("HOME"), None);
    assert_eq!(request.profile, ExecutionProfile::Host);
    assert!(!request.authorization.workspace_write);
    assert_eq!(request.grant, Some(provenance()));
    assert_eq!(request.limits.timeout_ms, Some(1_000));
    assert_eq!(
        ask(&caller(), &vec![Effect::HostProcessExecution]).unwrap_err(),
        "shell login startup was not admitted"
    );
    let mut plain = caller();
    plain.shell.login_command_args = None;
    assert_eq!(
        ask(&plain, &effects).unwrap_err(),
        "core.process:shell.exec login startup is not configured"
    );
    let mut changed = caller();
    changed.shell.executable_fault = Some("digest differs".to_owned());
    assert_eq!(ask(&changed, &effects).unwrap_err(), "digest differs");
}

#[test]
fn a_shell_over_a_copy_may_only_write_there() {
    let at = |path: &str| normalize_repo_path(path, true).unwrap();
    let copy = CopyProbe {
        copy_fault: None,
        view_root: "/tmp/copy/workspace".to_owned(),
        workspace_root: at("w"),
        working_directory: at("w/src"),
        directory: Some("/tmp/copy/workspace/src".to_owned()),
    };
    let request = copy_shell_request(&shell(), &copy, &caller(), &config()).unwrap();
    assert_eq!(request.args, ["-c", "true"]);
    assert_eq!(request.workspace_root, "/tmp/copy/workspace");
    assert_eq!(request.cwd, "/tmp/copy/workspace/src");
    assert!(request.authorization.workspace_write);
    assert!(!request.authorization.host_process_execution);
    assert_eq!(request.grant, None);
    assert_eq!(
        workspace_relative(&copy.working_directory, &copy.workspace_root)
            .unwrap()
            .display(),
        "src"
    );
    let mut outside = copy.clone();
    outside.working_directory = at("other");
    assert_eq!(
        copy_shell_request(&shell(), &outside, &caller(), &config()).unwrap_err(),
        "workspace cwd is outside the workspace root"
    );
    let mut missing = copy.clone();
    missing.directory = None;
    assert_eq!(
        copy_shell_request(&shell(), &missing, &caller(), &config()).unwrap_err(),
        "failed to resolve copy-on-write workspace cwd"
    );
    let mut fish = caller();
    fish.shell.file_name = Some("fish".to_owned());
    assert_eq!(
        copy_shell_request(&shell(), &copy, &fish, &config()).unwrap_err(),
        "persistent agent terminal supports only admitted Bash or Zsh on Linux"
    );
}

#[test]
fn a_terminal_has_a_search_path_of_admitted_directories() {
    let at = |path: &str| normalize_repo_path(path, false).unwrap();
    let candidates = path_candidates(
        &vec![PathCandidate {
            path: at("usr/bin"),
            is_directory: true,
            has_ls: true,
        }],
        &Some(PathCandidate {
            path: at("usr/local/bin"),
            is_directory: true,
            has_ls: false,
        }),
        &vec![RootCandidate {
            root: PathCandidate {
                path: at("bin"),
                is_directory: true,
                has_ls: true,
            },
            bin: None,
        }],
    );
    let owner = OwnerProbe {
        kind: CallerOwnerKind::Ephemeral,
        scope_is_run: true,
        owner_is_session: false,
        owner_is_run: true,
        session_is_durable: false,
    };
    let mut rooted = config();
    rooted.runtime_read_only_roots = vec!["/usr".to_owned()];
    let ask = |context: &ShellContext, roots: Result<Vec<RepoPath>, String>| {
        agent_terminal_request(
            &shell(),
            owner,
            roots,
            &at("usr/bin/bash"),
            &candidates,
            context,
            &rooted,
        )
    };
    let request = ask(&caller(), Ok(vec![at("usr")])).unwrap();
    assert_eq!(request.shell, AdmittedShellKind::Bash);
    assert_eq!(request.profile, ExecutionProfile::Workspace);
    assert!(!request.authorization.host_process_execution);
    assert_eq!(request.read_only_roots, ["/usr"]);
    assert_eq!(
        request.environment.admitted_base.get("PATH"),
        Some("/usr/bin:/usr/local/bin")
    );
    assert_eq!(request.command, "true");
    assert_eq!(request.limits.timeout_ms, None);
    assert_eq!(request.timeout_ms, Some(1_000));
    let mut pathless = caller();
    pathless.base_environment = entries(&[]);
    assert_eq!(
        ask(&pathless, Ok(vec![at("usr")])).unwrap_err(),
        "persistent agent terminal requires an admitted PATH"
    );
    assert_eq!(ask(&caller(), Err("no roots".to_owned())).unwrap_err(), "no roots");
    assert_eq!(
        join_paths(&vec![at("a:b")]).unwrap_err(),
        "failed to join admitted terminal PATH"
    );
}

// ---------------------------------------------------------------------------
// Foreground executions
// ---------------------------------------------------------------------------

fn seen(ended: bool, exit_code: Option<i32>) -> ForegroundEvent {
    ForegroundEvent::Seen {
        ended,
        exit_code,
        cancelled: false,
        expired: false,
    }
}

fn one_change() -> CowWorkspaceDiff {
    workspace_diff(
        &tree(&[]),
        &tree(&[("a", "a\n")]),
        &vec!["a".to_owned()],
    )
    .unwrap()
}

#[test]
fn changes_are_applied_after_success_only() {
    let mut execution = Foreground::new(true);
    assert_eq!(execution.step(), ForegroundStep::Start);
    execution.advance(seen(false, None));
    assert_eq!(execution.step(), ForegroundStep::Poll);
    let mut failed = execution.clone();
    execution.advance(seen(true, Some(0)));
    assert_eq!(execution.step(), ForegroundStep::Compare);
    execution.advance(ForegroundEvent::Compared(one_change()));
    assert_eq!(execution.step(), ForegroundStep::Apply);
    execution.advance(ForegroundEvent::Applied);
    assert_eq!(execution.step(), ForegroundStep::Read);
    execution.advance(ForegroundEvent::OutputRead);
    assert_eq!(execution.step(), ForegroundStep::Finished);
    assert!(execution.failure().is_none());
    let report = shell_report(
        &shell(),
        ShellRoute::CopyOnWrite,
        execution.exit_code(),
        execution.diff().unwrap(),
    );
    assert_eq!(report.guarantee_class, "degraded_shell_fallback");
    assert_eq!(report.observed_paths, ["a"]);
    assert_eq!(report.transaction, Some("committed"));

    failed.advance(seen(true, Some(1)));
    failed.advance(ForegroundEvent::Compared(one_change()));
    assert_eq!(failed.step(), ForegroundStep::Read);
    let report = shell_report(
        &shell(),
        ShellRoute::CopyOnWrite,
        failed.exit_code(),
        failed.diff().unwrap(),
    );
    assert_eq!(report.transaction, Some("discarded"));
    let report = shell_report(&shell(), ShellRoute::Host, Some(0), &one_change());
    assert_eq!(report.observed_external, ["host_process"]);
    assert!(report.observed_paths.is_empty());
    assert_eq!(report.transaction, None);
}

#[test]
fn stopped_and_refused_executions_fail() {
    let mut stopped = Foreground::new(false);
    stopped.advance(ForegroundEvent::Seen {
        ended: false,
        exit_code: None,
        cancelled: false,
        expired: true,
    });
    assert_eq!(stopped.step(), ForegroundStep::Terminate);
    stopped.advance(ForegroundEvent::Terminated { cancelled: false });
    assert_eq!(
        stopped.failure(),
        Some(&ForegroundFailure::Execution(
            "tool execution deadline elapsed".to_owned()
        ))
    );
    let mut refused = Foreground::new(true);
    refused.advance(seen(true, Some(0)));
    refused.advance(ForegroundEvent::Refused(CowError::Envelope("outside".to_owned())));
    assert_eq!(refused.step(), ForegroundStep::Finished);
    assert_eq!(
        refused.failure(),
        Some(&ForegroundFailure::Changes(CowError::Envelope(
            "outside".to_owned()
        )))
    );
    refused.advance(ForegroundEvent::Applied);
    assert_eq!(refused.step(), ForegroundStep::Finished);
    let mut plain = Foreground::new(false);
    plain.advance(seen(true, Some(0)));
    assert_eq!(plain.step(), ForegroundStep::Read);
    plain.advance(ForegroundEvent::Failed("gone".to_owned()));
    assert_eq!(
        plain.failure(),
        Some(&ForegroundFailure::Execution("gone".to_owned()))
    );
}

#[test]
fn the_output_of_a_command_ends_with_its_last_chunk() {
    let output = agent_output(&vec![3, 4, 7], 2, 5, false);
    assert_eq!(output.kept, [0, 1]);
    assert_eq!(output.next_sequence, 4);
    assert!(output.output_truncated);
    let nothing = agent_output(&vec![], 2, 2, false);
    assert_eq!(nothing.next_sequence, 2);
    assert!(!nothing.output_truncated);
    assert!(foreground_truncated(1, 2, false));
    assert!(!foreground_truncated(2, 2, false));
}

// ---------------------------------------------------------------------------
// Copy-on-write workspaces
// ---------------------------------------------------------------------------

fn tree(files: &[(&str, &str)]) -> WorkspaceTree {
    let mut tree = WorkspaceTree::new();
    for (path, content) in files {
        tree.record_file(WorkspaceFile {
            path: normalize_repo_path(path, false).unwrap(),
            bytes: content.as_bytes().to_vec(),
            mode: 0o644,
        })
        .unwrap();
    }
    tree
}

#[test]
fn cow_workspace_diff_is_scoped_and_source_changes_only_at_commit() {
    let before = tree(&[("existing.txt", "before\n")]);
    let after = tree(&[("existing.txt", "after\n"), ("created.txt", "new\n")]);
    let diff = workspace_diff(
        &before,
        &after,
        &vec!["existing.txt".to_owned(), "created.txt".to_owned()],
    )
    .unwrap();
    assert_eq!(
        diff.changed_paths,
        vec!["created.txt".to_owned(), "existing.txt".to_owned()]
    );
    assert_eq!(
        diff.operations,
        vec![
            CowOperation::Create {
                path: "created.txt".to_owned(),
                content: "new\n".to_owned(),
            },
            CowOperation::Update {
                path: "existing.txt".to_owned(),
                expected_digest: content_digest(b"before\n"),
                old_text: "before\n".to_owned(),
                new_text: "after\n".to_owned(),
            },
        ]
    );
    let committed = decide(Some(0), &diff);
    assert_eq!(committed.state, "committed");
    assert!(committed.apply);
    let discarded = decide(Some(1), &diff);
    assert_eq!(discarded.state, "discarded");
    assert!(!discarded.apply);
    assert!(!decide(None, &diff).apply);
}

#[test]
fn cow_workspace_discards_out_of_envelope_changes() {
    let before = tree(&[("allowed.txt", "before\n"), ("outside.txt", "before\n")]);
    let after = tree(&[("allowed.txt", "before\n"), ("outside.txt", "after\n")]);
    match workspace_diff(&before, &after, &vec!["allowed.txt".to_owned()]) {
        Err(CowError::Envelope(message)) => {
            assert!(message.contains("outside its expected-effect envelope"))
        }
        _ => panic!("a change outside the envelope is refused"),
    }
}

#[test]
fn deleted_files_and_changed_links_are_differences() {
    let before = tree(&[("a", "a\n"), ("b", "b\n")]);
    let after = tree(&[("b", "b\n")]);
    let diff = workspace_diff(&before, &after, &vec!["a".to_owned()]).unwrap();
    assert_eq!(
        diff.operations,
        vec![CowOperation::Delete {
            path: "a".to_owned(),
            expected_digest: content_digest(b"a\n"),
        }]
    );
    let mut linked = tree(&[("b", "b\n")]);
    linked.record_link(WorkspaceLink {
        path: normalize_repo_path("l", false).unwrap(),
        target: "b".to_owned(),
    });
    assert!(workspace_diff(&after, &linked, &vec!["l".to_owned()]).is_err());
    let leading_to = |target: &str| {
        let mut tree = tree(&[("b", "b\n")]);
        tree.record_link(WorkspaceLink {
            path: normalize_repo_path("l", false).unwrap(),
            target: target.to_owned(),
        });
        tree
    };
    assert!(workspace_diff(&linked, &leading_to("b/"), &vec![]).is_ok());
    assert!(workspace_diff(&linked, &leading_to("\u{ff}"), &vec![]).is_err());
    let same = workspace_diff(&after, &tree(&[("b", "b\n")]), &vec![]).unwrap();
    assert!(same.changed_paths.is_empty());
    assert!(!decide(Some(0), &same).apply);
}

#[test]
fn a_difference_is_limited_in_number() {
    let names: Vec<String> = (0..=MAX_COW_CHANGES).map(|i| format!("f{i}")).collect();
    let files: Vec<(&str, &str)> = names.iter().map(|name| (name.as_str(), "x")).collect();
    assert!(workspace_diff(&tree(&[]), &tree(&files), &names).is_err());
    assert!(workspace_diff(&tree(&[]), &tree(&files[1..]), &names).is_ok());
}

#[test]
fn expected_paths_cover_what_lies_below_them() {
    assert!(expected_workspace_path_matches("src/", "src/lib.rs"));
    assert!(expected_workspace_path_matches("src/", "src"));
    assert!(expected_workspace_path_matches("src/lib.rs", "src/lib.rs"));
    assert!(!expected_workspace_path_matches("src/", "srcs/lib.rs"));
    assert!(!expected_workspace_path_matches("src", "src/lib.rs"));
    assert!(!expected_workspace_path_matches("src/lib.rs", "src"));
}

#[test]
fn a_capture_leaves_out_git_and_build_outputs() {
    assert_eq!(
        capture_action(true, ".git", CaptureKind::Directory),
        CaptureAction::Skip
    );
    assert_eq!(
        capture_action(true, "target", CaptureKind::Directory),
        CaptureAction::Skip
    );
    assert_eq!(
        capture_action(false, "target", CaptureKind::Directory),
        CaptureAction::Descend
    );
    assert_eq!(capture_action(true, "a", CaptureKind::File), CaptureAction::Copy);
    assert_eq!(capture_action(true, "a", CaptureKind::Symlink), CaptureAction::Link);
    assert_eq!(capture_action(true, "a", CaptureKind::Other), CaptureAction::Refuse);
}
