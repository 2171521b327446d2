//! The shell: what a call must declare, and where it runs.

use vstd::prelude::*;
use vstd::string::*;

use super::environment::EnvironmentOverride;
use super::process::{
    profile_of, requested_profile, text_failure, validate_text, ExecutionProfile, TerminalSize,
    WorkspaceAccess, MAX_PROCESS_TEXT_BYTES,
};
use crate::text::{
    begins, contains_char, pieces, same_text, split, starts_with,
};
use crate::value::{contents, Abstract};

verus! {

/// The longest declaration of a call, in bytes.
pub const MAX_DECLARATION_BYTES: usize = 4_096;

/// What a shell call says it will do.
#[derive(Clone, Debug)]
pub struct ShellExpectedEffects {
    pub process: bool,
    pub workspace_paths: Vec<String>,
    pub external: Vec<String>,
}

/// A shell call.
#[derive(Clone, Debug)]
pub struct ShellArgs {
    pub command: String,
    pub semantic_intent: String,
    pub workspace_access: WorkspaceAccess,
    pub expected_effects: ShellExpectedEffects,
    pub fallback_reason: String,
    pub cwd: Option<String>,
    pub env: Option<EnvironmentOverride>,
    pub timeout_ms: Option<u64>,
    pub background: Option<bool>,
    pub terminal_size: Option<TerminalSize>,
    pub profile: Option<ExecutionProfile>,
    pub login: Option<bool>,
}

// ---------------------------------------------------------------------------
// Expected paths
// ---------------------------------------------------------------------------

/// A path without the slashes at its end.
pub open spec fn without_slashes(s: Seq<char>) -> Seq<char>
    decreases s.len(),
{
    if s.len() > 0 && s.last() == '/' {
        without_slashes(s.drop_last())
    } else {
        s
    }
}

/// Why an expected path is refused.
pub open spec fn expected_path_failure(path: Seq<char>) -> Option<Seq<char>> {
    let bare = without_slashes(path);
    let parts = pieces(bare, '/');
    match text_failure(path, "shell expected workspace path"@, false, MAX_DECLARATION_BYTES) {
        Some(error) => Some(error),
        None => if path.contains('\\') || path.contains('\0') {
            Some("shell expected workspace paths must use forward slashes without NUL"@)
        } else if bare.len() == 0 || begins(bare, seq!['/']) {
            Some("shell expected workspace paths must be nonempty repository-relative paths"@)
        } else if parts.contains(".."@) {
            Some("shell expected workspace paths cannot contain traversal"@)
        } else if parts[0] == ".git"@ {
            Some("shell expected workspace paths cannot enter .git"@)
        } else {
            None
        },
    }
}

fn trim_slashes(text: &str) -> (r: String)
    ensures
        r@ == without_slashes(text@),
{
    let chars: Vec<char> = crate::text::chars_of(text);
    let mut to: usize = chars.len();
    assert(chars@.take(to as int) =~= text@);
    while to > 0 && chars[to - 1] == '/'
        invariant
            to <= chars@.len(),
            chars@ == text@,
            without_slashes(text@) == without_slashes(chars@.take(to as int)),
        decreases to,
    {
        assert(chars@.take(to as int).drop_last() =~= chars@.take(to - 1));
        to -= 1;
    }
    assert(chars@.subrange(0, to as int) =~= chars@.take(to as int));
    crate::text::text_of(&chars, 0, to)
}

fn has_part(parts: &Vec<String>, part: &str) -> (b: bool)
    ensures
        b == contents(parts@).contains(part@),
{
    let ghost all = contents(parts@);
    let mut i: usize = 0;
    while i < parts.len()
        invariant
            i <= parts@.len(),
            all == contents(parts@),
            forall|k: int| 0 <= k < i ==> #[trigger] all[k] != part@,
        decreases parts@.len() - i,
    {
        assert(all[i as int] == parts@[i as int]@);
        if same_text(parts[i].as_str(), part) {
            assert(all[i as int] == part@);
            return true;
        }
        i += 1;
    }
    false
}

fn check_expected_path(path: &str) -> (r: Option<String>)
    ensures
        r.abs() == expected_path_failure(path@),
{
    if let Some(error) = validate_text(
        path,
        "shell expected workspace path",
        false,
        MAX_DECLARATION_BYTES,
    ) {
        return Some(error);
    }
    if contains_char(path, '\\') || contains_char(path, '\0') {
        return Some(
            "shell expected workspace paths must use forward slashes without NUL".to_owned(),
        );
    }
    proof {
        reveal_strlit("/");
        assert("/"@ =~= seq!['/']);
    }
    let bare: String = trim_slashes(path);
    if bare.as_str().is_empty() || starts_with(bare.as_str(), "/") {
        return Some(
            "shell expected workspace paths must be nonempty repository-relative paths".to_owned(),
        );
    }
    let parts: Vec<String> = split(bare.as_str(), '/');
    assert(pieces(bare@, '/')[0] == parts@[0]@);
    if has_part(&parts, "..") {
        return Some("shell expected workspace paths cannot contain traversal".to_owned());
    }
    if same_text(parts[0].as_str(), ".git") {
        return Some("shell expected workspace paths cannot enter .git".to_owned());
    }
    None
}

/// Why the first of the first `n` expected paths that is refused is.
pub open spec fn expected_paths_failure(paths: Seq<Seq<char>>, n: int) -> Option<Seq<char>>
    decreases n,
{
    if n <= 0 {
        None
    } else {
        match expected_paths_failure(paths, n - 1) {
            Some(error) => Some(error),
            None => expected_path_failure(paths[n - 1]),
        }
    }
}

/// Why the first of the first `n` expected external effects that is refused
/// is.
pub open spec fn external_failure(effects: Seq<Seq<char>>, n: int) -> Option<Seq<char>>
    decreases n,
{
    if n <= 0 {
        None
    } else {
        match external_failure(effects, n - 1) {
            Some(error) => Some(error),
            None => text_failure(
                effects[n - 1],
                "shell expected external effect"@,
                false,
                256,
            ),
        }
    }
}

proof fn lemma_paths_fail(paths: Seq<Seq<char>>, n: int, m: int)
    requires
        0 <= n <= m,
        expected_paths_failure(paths, n) is Some,
    ensures
        expected_paths_failure(paths, m) == expected_paths_failure(paths, n),
    decreases m,
{
    if n < m {
        lemma_paths_fail(paths, n, m - 1);
    }
}

proof fn lemma_external_fails(effects: Seq<Seq<char>>, n: int, m: int)
    requires
        0 <= n <= m,
        external_failure(effects, n) is Some,
    ensures
        external_failure(effects, m) == external_failure(effects, n),
    decreases m,
{
    if n < m {
        lemma_external_fails(effects, n, m - 1);
    }
}

fn check_expected_paths(paths: &Vec<String>) -> (r: Option<String>)
    ensures
        r.abs() == expected_paths_failure(contents(paths@), paths@.len() as int),
{
    let ghost all = contents(paths@);
    let mut i: usize = 0;
    while i < paths.len()
        invariant
            i <= paths@.len(),
            all == contents(paths@),
            expected_paths_failure(all, i as int) is None,
        decreases paths@.len() - i,
    {
        assert(all[i as int] == paths@[i as int]@);
        if let Some(error) = check_expected_path(paths[i].as_str()) {
            proof {
                lemma_paths_fail(all, i + 1, all.len() as int);
            }
            return Some(error);
        }
        i += 1;
    }
    None
}

fn check_external(effects: &Vec<String>) -> (r: Option<String>)
    ensures
        r.abs() == external_failure(contents(effects@), effects@.len() as int),
{
    let ghost all = contents(effects@);
    let mut i: usize = 0;
    while i < effects.len()
        invariant
            i <= effects@.len(),
            all == contents(effects@),
            external_failure(all, i as int) is None,
        decreases effects@.len() - i,
    {
        assert(all[i as int] == effects@[i as int]@);
        if let Some(error) = validate_text(
            effects[i].as_str(),
            "shell expected external effect",
            false,
            256,
        ) {
            proof {
                lemma_external_fails(all, i + 1, all.len() as int);
            }
            return Some(error);
        }
        i += 1;
    }
    None
}

// ---------------------------------------------------------------------------
// The contract of a call
// ---------------------------------------------------------------------------

/// What a call may expect, by where it runs and what it may touch.
pub open spec fn envelope_failure(
    profile: ExecutionProfile,
    access: WorkspaceAccess,
    paths: Seq<Seq<char>>,
    external: Seq<Seq<char>>,
) -> Option<Seq<char>> {
    match (profile, access) {
        (ExecutionProfile::Workspace, WorkspaceAccess::ReadOnly) => if paths.len() > 0 {
            Some("read-only shell fallback cannot expect workspace mutations"@)
        } else if external.len() > 0 {
            Some("workspace shell fallback cannot expect external effects"@)
        } else {
            None
        },
        (ExecutionProfile::Workspace, WorkspaceAccess::Write) => if paths.len() == 0 {
            Some("writable shell fallback requires expected workspace paths"@)
        } else if external.len() > 0 {
            Some("workspace shell fallback cannot expect external effects"@)
        } else {
            None
        },
        (ExecutionProfile::Host, WorkspaceAccess::ReadOnly) => if paths.len() > 0 {
            Some("host shell fallback cannot expect workspace mutations"@)
        } else if !external.contains("host_process"@) {
            Some("host shell fallback must expect the `host_process` effect"@)
        } else {
            None
        },
        (ExecutionProfile::Host, WorkspaceAccess::Write) => Some(
            "host shell fallback cannot request workspace writes"@,
        ),
    }
}

/// Whether a call is to run in the background.
pub open spec fn in_background(args: ShellArgs) -> bool {
    args.background == Some(true)
}

/// Why what a call declares is refused.
pub open spec fn contract_failure(args: ShellArgs) -> Option<Seq<char>> {
    let paths = contents(args.expected_effects.workspace_paths@);
    let external = contents(args.expected_effects.external@);
    match text_failure(
        args.semantic_intent@,
        "shell semantic_intent"@,
        false,
        MAX_DECLARATION_BYTES,
    ) {
        Some(error) => Some(error),
        None => match text_failure(
            args.fallback_reason@,
            "shell fallback_reason"@,
            false,
            MAX_DECLARATION_BYTES,
        ) {
            Some(error) => Some(error),
            None => if !args.expected_effects.process {
                Some("shell expected_effects.process must be true"@)
            } else if in_background(args) {
                Some("shell fallback is foreground-only"@)
            } else {
                match external_failure(external, external.len() as int) {
                    Some(error) => Some(error),
                    None => match expected_paths_failure(paths, paths.len() as int) {
                        Some(error) => Some(error),
                        None => envelope_failure(
                            profile_of(args.profile),
                            args.workspace_access,
                            paths,
                            external,
                        ),
                    },
                }
            },
        },
    }
}

fn check_envelope(
    profile: ExecutionProfile,
    access: WorkspaceAccess,
    paths: &Vec<String>,
    external: &Vec<String>,
) -> (r: Option<String>)
    ensures
        r.abs() == envelope_failure(profile, access, contents(paths@), contents(external@)),
{
    match (profile, access) {
        (ExecutionProfile::Workspace, WorkspaceAccess::ReadOnly) => if paths.len() > 0 {
            Some("read-only shell fallback cannot expect workspace mutations".to_owned())
        } else if external.len() > 0 {
            Some("workspace shell fallback cannot expect external effects".to_owned())
        } else {
            None
        },
        (ExecutionProfile::Workspace, WorkspaceAccess::Write) => if paths.len() == 0 {
            Some("writable shell fallback requires expected workspace paths".to_owned())
        } else if external.len() > 0 {
            Some("workspace shell fallback cannot expect external effects".to_owned())
        } else {
            None
        },
        (ExecutionProfile::Host, WorkspaceAccess::ReadOnly) => if paths.len() > 0 {
            Some("host shell fallback cannot expect workspace mutations".to_owned())
        } else if !has_part(external, "host_process") {
            Some("host shell fallback must expect the `host_process` effect".to_owned())
        } else {
            None
        },
        (ExecutionProfile::Host, WorkspaceAccess::Write) => Some(
            "host shell fallback cannot request workspace writes".to_owned(),
        ),
    }
}

/// Whether what a call declares can be admitted.
pub fn validate_shell_contract(args: &ShellArgs) -> (r: Option<String>)
    ensures
        r.abs() == contract_failure(*args),
{
    if let Some(error) = validate_text(
        args.semantic_intent.as_str(),
        "shell semantic_intent",
        false,
        MAX_DECLARATION_BYTES,
    ) {
        return Some(error);
    }
    if let Some(error) = validate_text(
        args.fallback_reason.as_str(),
        "shell fallback_reason",
        false,
        MAX_DECLARATION_BYTES,
    ) {
        return Some(error);
    }
    if !args.expected_effects.process {
        return Some("shell expected_effects.process must be true".to_owned());
    }
    let background: bool = match args.background {
        Some(background) => background,
        None => false,
    };
    if background {
        return Some("shell fallback is foreground-only".to_owned());
    }
    if let Some(error) = check_external(&args.expected_effects.external) {
        return Some(error);
    }
    if let Some(error) = check_expected_paths(&args.expected_effects.workspace_paths) {
        return Some(error);
    }
    check_envelope(
        requested_profile(args.profile),
        args.workspace_access,
        &args.expected_effects.workspace_paths,
        &args.expected_effects.external,
    )
}

// ---------------------------------------------------------------------------
// Routes
// ---------------------------------------------------------------------------

/// Where a shell call runs.
#[derive(Clone, Copy, Debug, Eq, PartialEq, Structural)]
pub enum ShellRoute {
    /// In the persistent terminal of its owner.
    Agent,
    /// In a copy of the workspace, whose changes are committed or discarded.
    CopyOnWrite,
    /// Once, on the host.
    Host,
}

/// Why a shell call does not run.
#[derive(Clone, Debug, Eq, PartialEq)]
pub enum ShellRefusal {
    /// What it declares cannot be admitted.
    Envelope(String),
    Invalid(String),
}

pub enum ShellRefusalAbs {
    Envelope(Seq<char>),
    Invalid(Seq<char>),
}

impl ShellRefusal {
    pub open spec fn view(&self) -> ShellRefusalAbs {
        match self {
            ShellRefusal::Envelope(error) => ShellRefusalAbs::Envelope(error@),
            ShellRefusal::Invalid(error) => ShellRefusalAbs::Invalid(error@),
        }
    }
}

/// Whether a call brings a directory, an environment or a terminal of its own.
pub open spec fn brings_context(args: ShellArgs) -> bool {
    args.cwd is Some || args.env is Some || args.terminal_size is Some
}

/// Where a shell call runs, or why it does not.
pub open spec fn routed(args: ShellArgs) -> Result<ShellRoute, ShellRefusalAbs> {
    match contract_failure(args) {
        Some(error) => Err(ShellRefusalAbs::Envelope(error)),
        None => match text_failure(
            args.command@,
            "core.process:shell.exec command"@,
            true,
            MAX_PROCESS_TEXT_BYTES,
        ) {
            Some(error) => Err(ShellRefusalAbs::Invalid(error)),
            None => match profile_of(args.profile) {
                ExecutionProfile::Host => Ok(ShellRoute::Host),
                ExecutionProfile::Workspace => match args.workspace_access {
                    WorkspaceAccess::Write => if brings_context(args) {
                        Err(
                            ShellRefusalAbs::Invalid(
                                "workspace shell fallback uses the caller's durable cwd, environment, and terminal size"@,
                            ),
                        )
                    } else if args.login == Some(true) {
                        Err(ShellRefusalAbs::Invalid("workspace shell fallback is non-login"@))
                    } else {
                        Ok(ShellRoute::CopyOnWrite)
                    },
                    WorkspaceAccess::ReadOnly => if brings_context(args) {
                        Err(
                            ShellRefusalAbs::Invalid(
                                "persistent workspace core.process:shell.exec uses the owner's durable cwd, environment, and terminal size"@,
                            ),
                        )
                    } else if args.login == Some(true) {
                        Err(
                            ShellRefusalAbs::Invalid(
                                "persistent workspace core.process:shell.exec is interactive and non-login"@,
                            ),
                        )
                    } else {
                        Ok(ShellRoute::Agent)
                    },
                },
            },
        },
    }
}

/// Where a shell call runs. A call whose contract is admitted runs in the
/// foreground, and on the host never with access to the workspace.
pub fn route_shell(args: &ShellArgs) -> (r: Result<ShellRoute, ShellRefusal>)
    ensures
        match r {
            Ok(route) => routed(*args) == Ok::<ShellRoute, ShellRefusalAbs>(route),
            Err(refusal) => routed(*args) == Err::<ShellRoute, ShellRefusalAbs>(refusal@),
        },
{
    if let Some(error) = validate_shell_contract(args) {
        return Err(ShellRefusal::Envelope(error));
    }
    if let Some(error) = validate_text(
        args.command.as_str(),
        "core.process:shell.exec command",
        true,
        MAX_PROCESS_TEXT_BYTES,
    ) {
        return Err(ShellRefusal::Invalid(error));
    }
    let context: bool = args.cwd.is_some() || args.env.is_some() || args.terminal_size.is_some();
    let login: bool = match args.login {
        Some(login) => login,
        None => false,
    };
    match requested_profile(args.profile) {
        ExecutionProfile::Host => Ok(ShellRoute::Host),
        ExecutionProfile::Workspace => match args.workspace_access {
            WorkspaceAccess::Write => if context {
                Err(
                    ShellRefusal::Invalid(
                        "workspace shell fallback uses the caller's durable cwd, environment, and terminal size".to_owned(),
                    ),
                )
            } else if login {
                Err(ShellRefusal::Invalid("workspace shell fallback is non-login".to_owned()))
            } else {
                Ok(ShellRoute::CopyOnWrite)
            },
            WorkspaceAccess::ReadOnly => if context {
                Err(
                    ShellRefusal::Invalid(
                        "persistent workspace core.process:shell.exec uses the owner's durable cwd, environment, and terminal size".to_owned(),
                    ),
                )
            } else if login {
                Err(
                    ShellRefusal::Invalid(
                        "persistent workspace core.process:shell.exec is interactive and non-login".to_owned(),
                    ),
                )
            } else {
                Ok(ShellRoute::Agent)
            },
        },
    }
}

/// A call that may write to the workspace runs in a copy of it and declares
/// what it writes; a call on the host declares that, and writes nothing; and
/// none runs in the background.
pub proof fn routes_fit_declarations(args: ShellArgs)
    requires
        routed(args) is Ok,
    ensures
        ({
            let route = routed(args)->Ok_0;
            let paths = contents(args.expected_effects.workspace_paths@);
            let external = contents(args.expected_effects.external@);
            &&& !in_background(args)
            &&& route == ShellRoute::CopyOnWrite <==> args.workspace_access
                == WorkspaceAccess::Write
            &&& route == ShellRoute::CopyOnWrite <==> paths.len() > 0
            &&& route == ShellRoute::Host <==> profile_of(args.profile) == ExecutionProfile::Host
            &&& route == ShellRoute::Host <==> external.contains("host_process"@)
        }),
{
    let external = contents(args.expected_effects.external@);
    if external.len() == 0 {
        assert(!external.contains("host_process"@));
    }
}

// ---------------------------------------------------------------------------
// Output
// ---------------------------------------------------------------------------

/// The output of a command in a persistent terminal.
#[derive(Clone, Debug, Eq, PartialEq)]
pub struct AgentOutput {
    /// The places of the chunks that belong to the command.
    pub kept: Vec<usize>,
    pub next_sequence: u64,
    pub output_truncated: bool,
}

/// The places of the chunks, of the first `n`, up to the last of the command.
pub open spec fn kept_chunks(sequences: Seq<u64>, through: u64, n: int) -> Seq<usize>
    decreases n,
{
    if n <= 0 {
        Seq::empty()
    } else if sequences[n - 1] <= through {
        kept_chunks(sequences, through, n - 1).push((n - 1) as usize)
    } else {
        kept_chunks(sequences, through, n - 1)
    }
}

/// What belongs to a command of the output that was read after it: the chunks
/// up to its last one.
pub fn agent_output(sequences: &Vec<u64>, after: u64, through: u64, truncated: bool) -> (r:
    AgentOutput)
    ensures
        r.kept@ == kept_chunks(sequences@, through, sequences@.len() as int),
        r.next_sequence == if r.kept@.len() == 0 {
            after
        } else {
            sequences@[r.kept@.last() as int]
        },
        r.output_truncated == (truncated || r.next_sequence < through),
{
    let mut kept: Vec<usize> = Vec::new();
    let mut next: u64 = after;
    let mut i: usize = 0;
    while i < sequences.len()
        invariant
            i <= sequences@.len(),
            kept@ == kept_chunks(sequences@, through, i as int),
            next == if kept@.len() == 0 {
                after
            } else {
                sequences@[kept@.last() as int]
            },
        decreases sequences@.len() - i,
    {
        if sequences[i] <= through {
            kept.push(i);
            next = sequences[i];
        }
        i += 1;
    }
    AgentOutput { kept, next_sequence: next, output_truncated: truncated || next < through }
}

/// Whether the output of a finished process is told in part only.
pub fn foreground_truncated(next_sequence: u64, last_sequence: u64, output_truncated: bool) -> (b:
    bool)
    ensures
        b == (output_truncated || next_sequence < last_sequence),
{
    output_truncated || next_sequence < last_sequence
}

} // verus!
