//! Processes: what they may be started with, and what is told of them.

use vstd::prelude::*;
use vstd::string::*;

use super::descriptor::{
    all_mappings, lemma_declared, mappings_abs, observation_workflow, outcome_rows, recoverable,
    terminal, Effect, ExtensionAbs, ExtensionDescriptor, HookDeclaration, OperationKind, ToolAbs,
    ToolDeclaration, ToolWorkflowMapping,
};
use crate::text::{
    byte_len, bytes_in, contains_char, decimal, decimal_text, same_text,
};
use crate::json::{child_of, find_child, json_abs, json_abs_cases, Json, JsonAbs};
use crate::value::{contents, contents_push, Abstract};

verus! {

pub const EXTENSION_ID: &'static str = "core.process";

pub const PROCESS_PWD_TOOL_ID: &'static str = "core.process:process.pwd";

pub const PROCESS_CD_TOOL_ID: &'static str = "core.process:process.cd";

pub const PROCESS_EXEC_TOOL_ID: &'static str = "core.process:process.exec";

pub const PROCESS_START_TOOL_ID: &'static str = "core.process:process.start";

pub const PROCESS_STATUS_TOOL_ID: &'static str = "core.process:process.status";

pub const PROCESS_READ_TOOL_ID: &'static str = "core.process:process.read";

pub const PROCESS_WRITE_TOOL_ID: &'static str = "core.process:process.write";

pub const PROCESS_RESIZE_TOOL_ID: &'static str = "core.process:process.resize";

pub const PROCESS_KILL_TOOL_ID: &'static str = "core.process:process.kill";

pub const SHELL_EXEC_TOOL_ID: &'static str = "core.process:shell.exec";

/// The longest path of a process, in bytes.
pub const MAX_PROCESS_PATH_BYTES: usize = 4_096;

/// The longest text of a process, in bytes.
pub const MAX_PROCESS_TEXT_BYTES: usize = 65_536;

/// The most arguments of a process.
pub const MAX_PROCESS_ARGUMENTS: usize = 1_024;

// ---------------------------------------------------------------------------
// Dispatch
// ---------------------------------------------------------------------------

/// The tools of the extension.
#[derive(Clone, Copy, Debug, Eq, PartialEq, Structural)]
pub enum ProcessTool {
    Pwd,
    Cd,
    Exec,
    Start,
    Status,
    Read,
    Write,
    Resize,
    Kill,
    Shell,
}

/// The tool with that ID.
pub open spec fn process_tool(name: Seq<char>) -> Option<ProcessTool> {
    if name == "core.process:process.pwd"@ {
        Some(ProcessTool::Pwd)
    } else if name == "core.process:process.cd"@ {
        Some(ProcessTool::Cd)
    } else if name == "core.process:process.exec"@ {
        Some(ProcessTool::Exec)
    } else if name == "core.process:process.start"@ {
        Some(ProcessTool::Start)
    } else if name == "core.process:process.status"@ {
        Some(ProcessTool::Status)
    } else if name == "core.process:process.read"@ {
        Some(ProcessTool::Read)
    } else if name == "core.process:process.write"@ {
        Some(ProcessTool::Write)
    } else if name == "core.process:process.resize"@ {
        Some(ProcessTool::Resize)
    } else if name == "core.process:process.kill"@ {
        Some(ProcessTool::Kill)
    } else if name == "core.process:shell.exec"@ {
        Some(ProcessTool::Shell)
    } else {
        None
    }
}

/// The tool that a call is for.
pub fn dispatch(name: &str) -> (r: Result<ProcessTool, String>)
    ensures
        match r {
            Ok(tool) => process_tool(name@) == Some(tool),
            Err(error) => process_tool(name@) is None && error@ == "unknown process tool `"@
                + name@ + "`"@,
        },
{
    if same_text(name, "core.process:process.pwd") {
        Ok(ProcessTool::Pwd)
    } else if same_text(name, "core.process:process.cd") {
        Ok(ProcessTool::Cd)
    } else if same_text(name, "core.process:process.exec") {
        Ok(ProcessTool::Exec)
    } else if same_text(name, "core.process:process.start") {
        Ok(ProcessTool::Start)
    } else if same_text(name, "core.process:process.status") {
        Ok(ProcessTool::Status)
    } else if same_text(name, "core.process:process.read") {
        Ok(ProcessTool::Read)
    } else if same_text(name, "core.process:process.write") {
        Ok(ProcessTool::Write)
    } else if same_text(name, "core.process:process.resize") {
        Ok(ProcessTool::Resize)
    } else if same_text(name, "core.process:process.kill") {
        Ok(ProcessTool::Kill)
    } else if same_text(name, "core.process:shell.exec") {
        Ok(ProcessTool::Shell)
    } else {
        Err("unknown process tool `".to_owned().concat(name).concat("`"))
    }
}

/// The IDs of the tools.
pub fn process_tool_ids() -> (r: Vec<&'static str>)
    ensures
        r@ == seq![
            "core.process:process.pwd",
            "core.process:process.cd",
            "core.process:process.exec",
            "core.process:process.start",
            "core.process:process.status",
            "core.process:process.read",
            "core.process:process.write",
            "core.process:process.resize",
            "core.process:process.kill",
            "core.process:shell.exec",
        ],
{
    let ids: Vec<&'static str> = vec![
        PROCESS_PWD_TOOL_ID,
        PROCESS_CD_TOOL_ID,
        PROCESS_EXEC_TOOL_ID,
        PROCESS_START_TOOL_ID,
        PROCESS_STATUS_TOOL_ID,
        PROCESS_READ_TOOL_ID,
        PROCESS_WRITE_TOOL_ID,
        PROCESS_RESIZE_TOOL_ID,
        PROCESS_KILL_TOOL_ID,
        SHELL_EXEC_TOOL_ID,
    ];
    assert(ids@ =~= seq![
        "core.process:process.pwd",
        "core.process:process.cd",
        "core.process:process.exec",
        "core.process:process.start",
        "core.process:process.status",
        "core.process:process.read",
        "core.process:process.write",
        "core.process:process.resize",
        "core.process:process.kill",
        "core.process:shell.exec",
    ]);
    ids
}

// ---------------------------------------------------------------------------
// Texts and arguments
// ---------------------------------------------------------------------------

/// Why a text is refused.
pub open spec fn text_failure(
    value: Seq<char>,
    label: Seq<char>,
    allow_empty: bool,
    maximum_bytes: usize,
) -> Option<Seq<char>> {
    if !allow_empty && value.len() == 0 {
        Some(label + " cannot be empty"@)
    } else if value.contains('\0') {
        Some(label + " contains NUL"@)
    } else if byte_len(value) > maximum_bytes {
        Some(label + " exceeds the "@ + decimal(maximum_bytes as nat) + "-byte limit"@)
    } else {
        None
    }
}

/// Whether a text is bounded and holds no NUL.
pub fn validate_text(value: &str, label: &str, allow_empty: bool, maximum_bytes: usize) -> (r:
    Option<String>)
    ensures
        r.abs() == text_failure(value@, label@, allow_empty, maximum_bytes),
{
    if !allow_empty && value.is_empty() {
        return Some(label.to_owned().concat(" cannot be empty"));
    }
    if contains_char(value, '\0') {
        return Some(label.to_owned().concat(" contains NUL"));
    }
    if bytes_in(value) > maximum_bytes {
        return Some(
            label.to_owned().concat(" exceeds the ").concat(
                decimal_text(maximum_bytes).as_str(),
            ).concat("-byte limit"),
        );
    }
    None
}

/// The bytes of the first `n` arguments.
pub open spec fn argument_bytes(values: Seq<Seq<char>>, n: int) -> int
    decreases n,
{
    if n <= 0 {
        0
    } else {
        argument_bytes(values, n - 1) + byte_len(values[n - 1])
    }
}

/// Why arguments are refused.
pub open spec fn argv_failure(values: Seq<Seq<char>>) -> Option<&'static str> {
    if values.len() > MAX_PROCESS_ARGUMENTS {
        Some("process argv exceeds the 1024-argument limit")
    } else if exists|i: int| 0 <= i < values.len() && (#[trigger] values[i]).contains('\0') {
        Some("process arguments contain NUL")
    } else if argument_bytes(values, values.len() as int) > usize::MAX {
        Some("process argv byte count overflow")
    } else if argument_bytes(values, values.len() as int) > MAX_PROCESS_TEXT_BYTES {
        Some("process argv exceeds the 65536-byte limit")
    } else {
        None
    }
}

proof fn lemma_arguments_grow(values: Seq<Seq<char>>, n: int, m: int)
    requires
        n <= m,
    ensures
        argument_bytes(values, n) <= argument_bytes(values, m),
    decreases m - n,
{
    if n < m {
        lemma_arguments_grow(values, n, m - 1);
    }
}

/// The texts of a slice.
pub open spec fn slice_texts(values: Seq<String>) -> Seq<Seq<char>> {
    Seq::new(values.len(), |i: int| values[i]@)
}

/// Whether arguments are bounded and hold no NUL. They are handed on as they
/// are.
pub fn validate_argv(values: &[String]) -> (r: Result<(), &'static str>)
    ensures
        match r {
            Ok(_) => argv_failure(slice_texts(values@)) is None,
            Err(error) => argv_failure(slice_texts(values@)) == Some(error),
        },
{
    let ghost all = slice_texts(values@);
    if values.len() > MAX_PROCESS_ARGUMENTS {
        return Err("process argv exceeds the 1024-argument limit");
    }
    let mut i: usize = 0;
    while i < values.len()
        invariant
            i <= values@.len() <= MAX_PROCESS_ARGUMENTS,
            all == slice_texts(values@),
            forall|k: int| 0 <= k < i ==> !(#[trigger] all[k]).contains('\0'),
        decreases values@.len() - i,
    {
        assert(all[i as int] == values@[i as int]@);
        if contains_char(values[i].as_str(), '\0') {
            assert(all[i as int].contains('\0'));
            return Err("process arguments contain NUL");
        }
        i += 1;
    }
    let mut total: usize = 0;
    let mut k: usize = 0;
    while k < values.len()
        invariant
            k <= values@.len() <= MAX_PROCESS_ARGUMENTS,
            all == slice_texts(values@),
            forall|j: int| 0 <= j < all.len() ==> !(#[trigger] all[j]).contains('\0'),
            total == argument_bytes(all, k as int),
        decreases values@.len() - k,
    {
        assert(all[k as int] == values@[k as int]@);
        proof {
            lemma_arguments_grow(all, k + 1, all.len() as int);
        }
        total = match total.checked_add(bytes_in(values[k].as_str())) {
            Some(sum) => sum,
            None => {
                return Err("process argv byte count overflow");
            },
        };
        k += 1;
    }
    if total > MAX_PROCESS_TEXT_BYTES {
        return Err("process argv exceeds the 65536-byte limit");
    }
    Ok(())
}

// ---------------------------------------------------------------------------
// Time and size
// ---------------------------------------------------------------------------

/// A span of time.
#[derive(Clone, Copy, Debug, Eq, PartialEq, Structural)]
pub struct Span {
    pub seconds: u64,
    pub nanoseconds: u32,
}

impl Span {
    /// The span in nanoseconds.
    pub open spec fn nanos(self) -> int {
        self.seconds * 1_000_000_000 + self.nanoseconds
    }

    /// The whole milliseconds of the span, as many as a machine number holds.
    pub open spec fn millis(self) -> int {
        let millis = self.nanos() / 1_000_000;
        if millis > u64::MAX {
            u64::MAX as int
        } else {
            millis
        }
    }

    fn is_zero(&self) -> (b: bool)
        ensures
            b == (self.nanos() == 0),
    {
        self.seconds == 0 && self.nanoseconds == 0
    }

    fn total(&self) -> (r: u128)
        ensures
            r == self.nanos(),
    {
        self.seconds as u128 * 1_000_000_000 + self.nanoseconds as u128
    }
}

/// The whole milliseconds of a span.
pub fn duration_millis(duration: Span) -> (r: u64)
    ensures
        r == duration.millis(),
{
    let millis: u128 = duration.total() / 1_000_000;
    if millis > u64::MAX as u128 {
        u64::MAX
    } else {
        millis as u64
    }
}

/// The size of a terminal.
#[derive(Clone, Copy, Debug, Eq, PartialEq, Structural)]
pub struct TerminalSize {
    pub columns: u16,
    pub rows: u16,
}

/// The limits that processes are started with.
#[derive(Clone, Debug)]
pub struct ProcessToolRuntimeConfig {
    pub maximum_environment_bytes: usize,
    pub runtime_read_only_roots: Vec<String>,
    pub default_foreground_timeout: Span,
    pub maximum_foreground_timeout: Span,
    pub max_input_bytes: usize,
    pub max_result_bytes: usize,
    pub max_spool_bytes: u64,
    pub default_terminal_size: TerminalSize,
}

impl ProcessToolRuntimeConfig {
    /// Whether the limits are nonzero and ordered.
    pub open spec fn has_limits(&self) -> bool {
        &&& self.maximum_environment_bytes > 0
        &&& self.default_foreground_timeout.nanos() > 0
        &&& self.maximum_foreground_timeout.nanos() >= self.default_foreground_timeout.nanos()
        &&& self.max_input_bytes > 0
        &&& self.max_result_bytes > 0
        &&& self.max_spool_bytes > 0
    }

    /// Whether processes can be started with the limits. The faults of the
    /// base environment and of the terminal size are those that the execution
    /// service tells.
    pub fn validate(&self, environment_fault: Option<String>, size_fault: Option<String>) -> (r:
        Result<(), String>)
        ensures
            match environment_fault {
                Some(fault) => r is Err && r->Err_0@ == fault@,
                None => if !self.has_limits() {
                    r is Err && r->Err_0@
                        == "process tool runtime limits must be nonzero and internally ordered"@
                } else {
                    match size_fault {
                        Some(fault) => r is Err && r->Err_0@ == fault@,
                        None => r is Ok,
                    }
                },
            },
    {
        if let Some(fault) = environment_fault {
            return Err(fault);
        }
        let ordered: bool = self.maximum_foreground_timeout.total()
            >= self.default_foreground_timeout.total();
        if !(self.maximum_environment_bytes > 0 && !self.default_foreground_timeout.is_zero()
            && ordered && self.max_input_bytes > 0 && self.max_result_bytes > 0
            && self.max_spool_bytes > 0) {
            return Err(
                "process tool runtime limits must be nonzero and internally ordered".to_owned(),
            );
        }
        match size_fault {
            Some(fault) => Err(fault),
            None => Ok(()),
        }
    }

    /// The time that a process gets, in milliseconds: what is asked for, but no
    /// more than the maximum; in the foreground the default where nothing is
    /// asked for; and never more than what is left of its run.
    pub open spec fn timeout(
        &self,
        requested: Option<u64>,
        foreground: bool,
        remaining: Option<Span>,
    ) -> Result<Option<int>, &'static str> {
        let wanted = match requested {
            Some(value) => Some(
                if value < self.maximum_foreground_timeout.millis() {
                    value as int
                } else {
                    self.maximum_foreground_timeout.millis()
                },
            ),
            None => if foreground {
                Some(self.default_foreground_timeout.millis())
            } else {
                None
            },
        };
        if requested == Some(0u64) {
            Err("process timeout_ms must be nonzero")
        } else {
            match remaining {
                None => Ok(wanted),
                Some(left) => if left.millis() == 0 {
                    Err("durable run deadline elapsed before process spawn")
                } else {
                    Ok(
                        Some(
                            match wanted {
                                Some(value) => if value < left.millis() {
                                    value
                                } else {
                                    left.millis()
                                },
                                None => left.millis(),
                            },
                        ),
                    )
                },
            }
        }
    }

    pub fn timeout_ms(
        &self,
        requested: Option<u64>,
        foreground: bool,
        remaining: Option<Span>,
    ) -> (r: Result<Option<u64>, &'static str>)
        ensures
            match r {
                Ok(told) => self.timeout(requested, foreground, remaining) == Ok::<
                    Option<int>,
                    &'static str,
                >(
                    match told {
                        Some(value) => Some(value as int),
                        None => None,
                    },
                ),
                Err(error) => self.timeout(requested, foreground, remaining) == Err::<
                    Option<int>,
                    &'static str,
                >(error),
            },
    {
        let maximum: u64 = duration_millis(self.maximum_foreground_timeout);
        let default: u64 = duration_millis(self.default_foreground_timeout);
        let wanted: Option<u64> = match requested {
            Some(value) => {
                if value == 0 {
                    return Err("process timeout_ms must be nonzero");
                }
                if value < maximum {
                    Some(value)
                } else {
                    Some(maximum)
                }
            },
            None => if foreground {
                Some(default)
            } else {
                None
            },
        };
        match remaining {
            None => Ok(wanted),
            Some(left) => {
                let left: u64 = duration_millis(left);
                if left == 0 {
                    return Err("durable run deadline elapsed before process spawn");
                }
                match wanted {
                    Some(value) => if value < left {
                        Ok(Some(value))
                    } else {
                        Ok(Some(left))
                    },
                    None => Ok(Some(left)),
                }
            },
        }
    }

    /// The limits of an execution.
    pub fn execution_limits(&self, timeout_ms: Option<u64>) -> (r: ExecutionLimits)
        ensures
            r == (ExecutionLimits {
                timeout_ms,
                max_input_bytes: self.max_input_bytes as u64,
                max_output_bytes: self.max_spool_bytes,
            }),
    {
        ExecutionLimits {
            timeout_ms,
            max_input_bytes: self.max_input_bytes as u64,
            max_output_bytes: self.max_spool_bytes,
        }
    }
}

/// A process never gets more time than its run has left, nor more than the
/// maximum where it asked for time.
pub proof fn timeouts_are_bounded(
    config: ProcessToolRuntimeConfig,
    requested: Option<u64>,
    foreground: bool,
    remaining: Option<Span>,
)
    requires
        config.timeout(requested, foreground, remaining) matches Ok(Some(_)),
    ensures
        ({
            let told = config.timeout(requested, foreground, remaining)->Ok_0->Some_0;
            &&& remaining matches Some(left) ==> told <= left.millis()
            &&& requested is Some ==> told <= config.maximum_foreground_timeout.millis()
            &&& requested matches Some(value) ==> told <= value
        }),
{
}

/// The limits of an execution.
#[derive(Clone, Copy, Debug, Eq, PartialEq)]
pub struct ExecutionLimits {
    pub timeout_ms: Option<u64>,
    pub max_input_bytes: u64,
    pub max_output_bytes: u64,
}

/// What an execution runs.
#[derive(Clone, Copy, Debug, Eq, PartialEq, Structural)]
pub enum ExecutionKind {
    Argv,
    Shell,
}

/// How the bytes for a process are given.
#[derive(Clone, Copy, Debug, Eq, PartialEq, Structural)]
pub enum BytesEncoding {
    Utf8,
    Base64,
}

/// Bytes for a process.
#[derive(Clone, Debug, Eq, PartialEq)]
pub struct ProcessBytes {
    pub encoding: BytesEncoding,
    pub data: String,
}

/// How a process reads and writes.
#[derive(Clone, Copy, Debug, Eq, PartialEq, Structural)]
pub enum ExecutionIo {
    Pipes,
    Pty,
}

/// The size of the terminal of a process. `fault` is what the execution
/// service says of the requested size.
pub fn terminal_size(
    requested: Option<TerminalSize>,
    io: ExecutionIo,
    default: TerminalSize,
    fault: Option<String>,
) -> (r: Result<Option<TerminalSize>, String>)
    ensures
        match (io, requested) {
            (ExecutionIo::Pipes, Some(_)) => r is Err && r->Err_0@
                == "terminal_size is valid only when io=pty"@,
            (ExecutionIo::Pipes, None) => r == Ok::<Option<TerminalSize>, String>(None),
            (ExecutionIo::Pty, Some(size)) => match fault {
                Some(fault) => r is Err && r->Err_0@ == fault@,
                None => r == Ok::<Option<TerminalSize>, String>(Some(size)),
            },
            (ExecutionIo::Pty, None) => r == Ok::<Option<TerminalSize>, String>(Some(default)),
        },
{
    match (io, requested) {
        (ExecutionIo::Pipes, Some(_)) => Err("terminal_size is valid only when io=pty".to_owned()),
        (ExecutionIo::Pipes, None) => Ok(None),
        (ExecutionIo::Pty, Some(size)) => match fault {
            Some(fault) => Err(fault),
            None => Ok(Some(size)),
        },
        (ExecutionIo::Pty, None) => Ok(Some(default)),
    }
}

/// A number of bytes as the terminal service takes it.
pub fn checked_maximum_bytes(value: usize) -> (r: Result<u32, &'static str>)
    ensures
        match r {
            Ok(bytes) => bytes == value,
            Err(error) => value > u32::MAX && error == "terminal read byte limit exceeds u32",
        },
{
    if value > u32::MAX as usize {
        return Err("terminal read byte limit exceeds u32");
    }
    Ok(value as u32)
}

/// Whether that many bytes may be read at once.
pub fn check_read_bytes(max_bytes: usize, max_result_bytes: usize) -> (r: Result<(), String>)
    ensures
        if 0 < max_bytes && max_bytes <= max_result_bytes {
            r is Ok
        } else {
            r is Err && r->Err_0@ == "core.process:process.read max_bytes must be between 1 and "@
                + decimal(max_result_bytes as nat)
        },
{
    if max_bytes > 0 && max_bytes <= max_result_bytes {
        return Ok(());
    }
    Err(
        "core.process:process.read max_bytes must be between 1 and ".to_owned().concat(
            decimal_text(max_result_bytes).as_str(),
        ),
    )
}

// ---------------------------------------------------------------------------
// Authority
// ---------------------------------------------------------------------------

/// Where a process runs.
#[derive(Clone, Copy, Debug, Eq, PartialEq, Structural)]
pub enum ExecutionProfile {
    Workspace,
    Host,
}

impl ExecutionProfile {
    pub open spec fn name(self) -> &'static str {
        match self {
            ExecutionProfile::Workspace => "workspace",
            ExecutionProfile::Host => "host",
        }
    }

    pub fn as_str(self) -> (r: &'static str)
        ensures
            r == self.name(),
    {
        match self {
            ExecutionProfile::Workspace => "workspace",
            ExecutionProfile::Host => "host",
        }
    }
}

/// The profile that is asked for; without one it is the workspace.
pub open spec fn profile_of(profile: Option<ExecutionProfile>) -> ExecutionProfile {
    match profile {
        Some(profile) => profile,
        None => ExecutionProfile::Workspace,
    }
}

pub fn requested_profile(profile: Option<ExecutionProfile>) -> (r: ExecutionProfile)
    ensures
        r == profile_of(profile),
{
    match profile {
        Some(profile) => profile,
        None => ExecutionProfile::Workspace,
    }
}

/// What a process may touch of the workspace.
#[derive(Clone, Copy, Debug, Eq, PartialEq, Structural)]
pub enum WorkspaceAccess {
    ReadOnly,
    Write,
}

/// What a call asks for beyond its tool's own effects.
#[derive(Clone, Copy, Debug, Eq, PartialEq, Structural)]
pub struct ConditionalRequest {
    pub profile: Option<ExecutionProfile>,
    pub login: Option<bool>,
    pub workspace_access: WorkspaceAccess,
}

/// Whether a call asks for an effect beyond its tool's own.
pub open spec fn asks_for(
    tool: Option<ProcessTool>,
    request: ConditionalRequest,
    effect: Effect,
) -> bool {
    let host = profile_of(request.profile) == ExecutionProfile::Host;
    let login = request.login == Some(true);
    match tool {
        Some(ProcessTool::Cd) => host && effect == Effect::HostProcessExecution,
        Some(ProcessTool::Exec) => host && effect == Effect::HostProcessExecution,
        Some(ProcessTool::Start) => host && effect == Effect::HostProcessExecution,
        Some(ProcessTool::Shell) => {
            ||| (host || login) && effect == Effect::HostProcessExecution
            ||| login && effect == Effect::ShellLoginStartup
            ||| request.workspace_access == WorkspaceAccess::Write && effect
                == Effect::RepoWorkspace
        },
        _ => false,
    }
}

/// The effects beyond its tool's own that a call asks for, each once. A login
/// shell implies execution on the host.
pub fn requested_conditional_effects(tool_id: &str, request: ConditionalRequest) -> (r: Vec<Effect>)
    ensures
        r@.no_duplicates(),
        forall|effect: Effect| #[trigger]
            r@.contains(effect) <==> asks_for(process_tool(tool_id@), request, effect),
{
    let mut out: Vec<Effect> = Vec::new();
    let host: bool = requested_profile(request.profile) == ExecutionProfile::Host;
    let login: bool = match request.login {
        Some(login) => login,
        None => false,
    };
    let tool: Option<ProcessTool> = match dispatch(tool_id) {
        Ok(tool) => Some(tool),
        Err(_) => None,
    };
    let launches: bool = tool == Some(ProcessTool::Cd) || tool == Some(ProcessTool::Exec) || tool
        == Some(ProcessTool::Start);
    let shell: bool = tool == Some(ProcessTool::Shell);
    let ghost none = out@;
    if (launches && host) || (shell && (host || login)) {
        out.push(Effect::HostProcessExecution);
        assert(out@[0] == Effect::HostProcessExecution);
    }
    let ghost first = out@;
    if shell && login {
        out.push(Effect::ShellLoginStartup);
        assert(out@[first.len() as int] == Effect::ShellLoginStartup);
        assert(out@[0] == first[0]);
    }
    let ghost second = out@;
    if shell && request.workspace_access == WorkspaceAccess::Write {
        out.push(Effect::RepoWorkspace);
        assert(out@[second.len() as int] == Effect::RepoWorkspace);
        assert(forall|k: int| 0 <= k < second.len() ==> out@[k] == second[k]);
    }
    proof {
        assert forall|effect: Effect| #[trigger] out@.contains(effect) implies asks_for(
            process_tool(tool_id@),
            request,
            effect,
        ) by {
            let i = choose|i: int| 0 <= i < out@.len() && out@[i] == effect;
        }
        assert forall|effect: Effect| asks_for(
            process_tool(tool_id@),
            request,
            effect,
        ) implies #[trigger] out@.contains(effect) by {}
    }
    out
}

/// What a process was granted.
#[derive(Clone, Debug, Eq, PartialEq)]
pub struct GrantProvenance {
    pub grant_id: String,
    pub duration: String,
    pub scope_digest: String,
}

/// What a process may do.
#[derive(Clone, Copy, Debug, Eq, PartialEq, Structural)]
pub struct ExecutionAuthorization {
    pub host_process_execution: bool,
    pub shell_login_startup: bool,
    pub workspace_write: bool,
}

/// Why a process may not be started.
pub open spec fn authorization_failure(
    host: bool,
    login_authorized: bool,
    profile: ExecutionProfile,
    login: bool,
    has_provenance: bool,
) -> Option<&'static str> {
    if profile == ExecutionProfile::Host && !host {
        Some("host process execution was not admitted")
    } else if login && !login_authorized {
        Some("shell login startup was not admitted")
    } else if profile == ExecutionProfile::Host && !has_provenance {
        Some("host process execution lacks immutable grant provenance")
    } else {
        None
    }
}

/// What a process may do, and the grant that it does it under. Only a process
/// on the host runs under a grant.
pub fn execution_authorization(
    effects: &Vec<Effect>,
    profile: ExecutionProfile,
    login: bool,
    workspace_write: bool,
    provenance: Option<GrantProvenance>,
) -> (r: Result<(ExecutionAuthorization, Option<GrantProvenance>), &'static str>)
    ensures
        ({
            let host = effects@.contains(Effect::HostProcessExecution);
            let login_authorized = effects@.contains(Effect::ShellLoginStartup);
            match authorization_failure(
                host,
                login_authorized,
                profile,
                login,
                provenance is Some,
            ) {
                Some(error) => r == Err::<
                    (ExecutionAuthorization, Option<GrantProvenance>),
                    &'static str,
                >(error),
                None => r == Ok::<
                    (ExecutionAuthorization, Option<GrantProvenance>),
                    &'static str,
                >(
                    (
                        ExecutionAuthorization {
                            host_process_execution: host,
                            shell_login_startup: login_authorized,
                            workspace_write,
                        },
                        if profile == ExecutionProfile::Host {
                            provenance
                        } else {
                            None
                        },
                    ),
                ),
            }
        }),
{
    let host: bool = has_effect(effects, Effect::HostProcessExecution);
    let login_authorized: bool = has_effect(effects, Effect::ShellLoginStartup);
    if profile == ExecutionProfile::Host && !host {
        return Err("host process execution was not admitted");
    }
    if login && !login_authorized {
        return Err("shell login startup was not admitted");
    }
    let lease: Option<GrantProvenance> = if profile == ExecutionProfile::Host {
        if provenance.is_none() {
            return Err("host process execution lacks immutable grant provenance");
        }
        provenance
    } else {
        None
    };
    Ok(
        (
            ExecutionAuthorization {
                host_process_execution: host,
                shell_login_startup: login_authorized,
                workspace_write,
            },
            lease,
        ),
    )
}

fn has_effect(effects: &Vec<Effect>, effect: Effect) -> (b: bool)
    ensures
        b == effects@.contains(effect),
{
    let mut i: usize = 0;
    while i < effects.len()
        invariant
            i <= effects@.len(),
            forall|k: int| 0 <= k < i ==> effects@[k] != effect,
        decreases effects@.len() - i,
    {
        if effects[i] == effect {
            return true;
        }
        i += 1;
    }
    false
}

/// No process runs on the host, and no login shell starts, without the effect
/// that admits it.
pub proof fn host_execution_needs_authority(
    host: bool,
    login_authorized: bool,
    profile: ExecutionProfile,
    login: bool,
    has_provenance: bool,
)
    requires
        authorization_failure(host, login_authorized, profile, login, has_provenance) is None,
    ensures
        profile == ExecutionProfile::Host ==> host && has_provenance,
        login ==> login_authorized,
{
}

/// The context that a directory change makes.
#[derive(Clone, Debug, Eq, PartialEq)]
pub struct DirectoryChange {
    pub working_directory: String,
    pub revision: u64,
    pub profile_metadata: &'static str,
}

/// Whether a directory may be asked for, and the profile that it is looked up
/// under: the workspace, unless another is asked for.
pub fn directory_request(path: &str, profile: Option<ExecutionProfile>) -> (r: Result<
    ExecutionProfile,
    String,
>)
    ensures
        match text_failure(
            path@,
            "core.process:process.cd path"@,
            false,
            MAX_PROCESS_PATH_BYTES,
        ) {
            Some(error) => r is Err && r->Err_0@ == error,
            None => r == Ok::<ExecutionProfile, String>(
                match profile {
                    Some(profile) => profile,
                    None => ExecutionProfile::Workspace,
                },
            ),
        },
{
    match validate_text(path, "core.process:process.cd path", false, MAX_PROCESS_PATH_BYTES) {
        Some(error) => Err(error),
        None => match profile {
            Some(profile) => Ok(profile),
            None => Ok(ExecutionProfile::Workspace),
        },
    }
}

/// The next context after a change to that directory.
pub fn change_directory(resolved: String, revision: u64, profile: ExecutionProfile) -> (r: Result<
    DirectoryChange,
    &'static str,
>)
    ensures
        if revision == u64::MAX {
            r == Err::<DirectoryChange, &'static str>("execution context revision overflow")
        } else {
            r matches Ok(change) && change.working_directory == resolved && change.revision
                == revision + 1 && change.profile_metadata == profile.name()
        },
{
    match revision.checked_add(1) {
        None => Err("execution context revision overflow"),
        Some(revision) => Ok(
            DirectoryChange {
                working_directory: resolved,
                revision,
                profile_metadata: profile.as_str(),
            },
        ),
    }
}

/// Who owns an execution.
#[derive(Clone, Copy, Debug, Eq, PartialEq, Structural)]
pub enum CallerOwnerKind {
    Persistent,
    Ephemeral,
    Service,
}

/// What is known of the owner of an execution: whether its texts are IDs of
/// the kinds that they should be, and whether its session is the durable one.
#[derive(Clone, Copy, Debug, Eq, PartialEq, Structural)]
pub struct OwnerProbe {
    pub kind: CallerOwnerKind,
    pub scope_is_run: bool,
    pub owner_is_session: bool,
    pub owner_is_run: bool,
    pub session_is_durable: bool,
}

/// Whether an execution may own a terminal.
pub fn terminal_owner(owner: OwnerProbe) -> (r: Result<(), &'static str>)
    ensures
        r == if !owner.scope_is_run {
            Err::<(), &'static str>("execution authority scope is not an agent run ID")
        } else {
            match owner.kind {
                CallerOwnerKind::Persistent => if !owner.owner_is_session {
                    Err("persistent execution owner is not an agent session ID")
                } else if !owner.session_is_durable {
                    Err("session process owner differs from its durable terminal session")
                } else {
                    Ok(())
                },
                CallerOwnerKind::Ephemeral => if !owner.owner_is_run {
                    Err("ephemeral execution owner is not an agent run ID")
                } else {
                    Ok(())
                },
                CallerOwnerKind::Service => Err(
                    "service execution owners do not own agent terminals",
                ),
            }
        },
{
    if !owner.scope_is_run {
        return Err("execution authority scope is not an agent run ID");
    }
    match owner.kind {
        CallerOwnerKind::Persistent => if !owner.owner_is_session {
            Err("persistent execution owner is not an agent session ID")
        } else if !owner.session_is_durable {
            Err("session process owner differs from its durable terminal session")
        } else {
            Ok(())
        },
        CallerOwnerKind::Ephemeral => if !owner.owner_is_run {
            Err("ephemeral execution owner is not an agent run ID")
        } else {
            Ok(())
        },
        CallerOwnerKind::Service => Err("service execution owners do not own agent terminals"),
    }
}

/// Shells that a persistent terminal can run.
#[derive(Clone, Copy, Debug, Eq, PartialEq, Structural)]
pub enum AdmittedShellKind {
    Bash,
    Zsh,
}

/// The shell with that executable.
pub fn admitted_agent_shell(executable: Option<&str>) -> (r: Result<
    AdmittedShellKind,
    &'static str,
>)
    ensures
        r == match executable {
            None => Err::<AdmittedShellKind, &'static str>(
                "persistent agent terminal shell has no UTF-8 executable basename",
            ),
            Some(name) => if name@ == "bash"@ {
                Ok(AdmittedShellKind::Bash)
            } else if name@ == "zsh"@ {
                Ok(AdmittedShellKind::Zsh)
            } else {
                Err("persistent agent terminal supports only admitted Bash or Zsh on Linux")
            },
        },
{
    match executable {
        None => Err("persistent agent terminal shell has no UTF-8 executable basename"),
        Some(name) => if same_text(name, "bash") {
            Ok(AdmittedShellKind::Bash)
        } else if same_text(name, "zsh") {
            Ok(AdmittedShellKind::Zsh)
        } else {
            Err("persistent agent terminal supports only admitted Bash or Zsh on Linux")
        },
    }
}

// ---------------------------------------------------------------------------
// Observed effects
// ---------------------------------------------------------------------------

/// An effect that was observed, with what tells it apart.
#[derive(Clone, Debug, Eq, PartialEq)]
pub struct ObservedEffect {
    pub effect: Effect,
    pub scope: Vec<(&'static str, String)>,
}

/// The content of an observed effect.
pub struct ObservedAbs {
    pub effect: Effect,
    pub scope: Seq<(Seq<char>, Seq<char>)>,
}

impl ObservedEffect {
    pub open spec fn view(&self) -> ObservedAbs {
        ObservedAbs {
            effect: self.effect,
            scope: Seq::new(self.scope@.len(), |i: int| (self.scope@[i].0@, self.scope@[i].1@)),
        }
    }
}

pub open spec fn observed_abs(observed: Seq<ObservedEffect>) -> Seq<ObservedAbs> {
    Seq::new(observed.len(), |i: int| observed[i]@)
}

/// What a tool answered.
#[derive(Clone, Debug)]
pub struct ToolAnswer {
    pub execution_id: Option<String>,
    pub working_directory: Option<String>,
    pub workspace_paths: Vec<String>,
}

/// The content of an answer.
pub struct AnswerAbs {
    pub execution_id: Option<Seq<char>>,
    pub working_directory: Option<Seq<char>>,
    pub workspace_paths: Seq<Seq<char>>,
}

impl ToolAnswer {
    pub open spec fn view(&self) -> AnswerAbs {
        AnswerAbs {
            execution_id: self.execution_id.abs(),
            working_directory: self.working_directory.abs(),
            workspace_paths: contents(self.workspace_paths@),
        }
    }
}

/// The text under a key, if there is one.
pub open spec fn text_under(json: JsonAbs, key: Seq<char>) -> Option<Seq<char>> {
    match child_of(json, key) {
        Some(JsonAbs::Text(text)) => Some(text),
        _ => None,
    }
}

/// The texts among the first `n` items.
pub open spec fn texts_among(items: Seq<JsonAbs>, n: int) -> Seq<Seq<char>>
    decreases n,
{
    if n <= 0 {
        Seq::empty()
    } else {
        match items[n - 1] {
            JsonAbs::Text(text) => texts_among(items, n - 1).push(text),
            _ => texts_among(items, n - 1),
        }
    }
}

/// The paths that an answer says have changed.
pub open spec fn paths_told(json: JsonAbs) -> Seq<Seq<char>> {
    match child_of(json, "observed_effects"@) {
        Some(effects) => match child_of(effects, "workspace_paths"@) {
            Some(JsonAbs::Array(items)) => texts_among(items, items.len() as int),
            _ => Seq::empty(),
        },
        None => Seq::empty(),
    }
}

/// What an answer in JSON tells. What is missing, or is of another kind, is
/// not told.
pub open spec fn answer_in(json: JsonAbs) -> AnswerAbs {
    AnswerAbs {
        execution_id: text_under(json, "execution_id"@),
        working_directory: text_under(json, "working_directory"@),
        workspace_paths: paths_told(json),
    }
}

fn find_text(data: &Json, key: &str) -> (r: Option<String>)
    ensures
        r.abs() == text_under(json_abs(*data), key@),
{
    broadcast use json_abs_cases;

    match find_child(data, key) {
        Some(value) => match value {
            Json::Text(text) => Some(text.clone()),
            _ => None,
        },
        None => None,
    }
}

fn find_paths(data: &Json) -> (r: Vec<String>)
    ensures
        contents(r@) == paths_told(json_abs(*data)),
{
    broadcast use {contents_push, json_abs_cases};

    let mut out: Vec<String> = Vec::new();
    assert(contents(out@) =~= Seq::<Seq<char>>::empty());
    let effects: &Json = match find_child(data, "observed_effects") {
        Some(effects) => effects,
        None => {
            return out;
        },
    };
    let paths: &Json = match find_child(effects, "workspace_paths") {
        Some(paths) => paths,
        None => {
            return out;
        },
    };
    match paths {
        Json::Array(items) => {
            let ghost all = Seq::new(items@.len(), |i: int| json_abs(items@[i]));
            let mut i: usize = 0;
            while i < items.len()
                invariant
                    i <= items@.len(),
                    all == Seq::new(items@.len(), |i: int| json_abs(items@[i])),
                    contents(out@) == texts_among(all, i as int),
                decreases items@.len() - i,
            {
                broadcast use {contents_push, json_abs_cases};

                assert(all[i as int] == json_abs(items@[i as int]));
                if let Json::Text(text) = &items[i] {
                    let path: String = text.clone();
                    out.push(path);
                }
                i += 1;
            }
            out
        },
        _ => out,
    }
}

/// What an answer in JSON tells.
pub fn tool_answer(data: &Json) -> (r: ToolAnswer)
    ensures
        r@ == answer_in(json_abs(*data)),
{
    ToolAnswer {
        execution_id: find_text(data, "execution_id"),
        working_directory: find_text(data, "working_directory"),
        workspace_paths: find_paths(data),
    }
}

pub open spec fn returned(text: Option<Seq<char>>) -> Seq<char> {
    match text {
        Some(text) => text,
        None => "not_returned"@,
    }
}

/// An effect of a tool on an execution.
pub open spec fn tool_effect(effect: Effect, tool: Seq<char>, answer: AnswerAbs) -> ObservedAbs {
    ObservedAbs {
        effect,
        scope: seq![("tool"@, tool), ("execution_id"@, returned(answer.execution_id))],
    }
}

/// What is observed of a tool's own effect.
pub open spec fn own_effects(tool: Seq<char>, answer: AnswerAbs) -> Seq<ObservedAbs> {
    match process_tool(tool) {
        Some(ProcessTool::Cd) => seq![
            ObservedAbs {
                effect: Effect::SessionWorkingDirectory,
                scope: seq![("working_directory"@, returned(answer.working_directory))],
            },
        ],
        Some(ProcessTool::Exec) => seq![tool_effect(Effect::SpawnProcess, tool, answer)],
        Some(ProcessTool::Start) => seq![tool_effect(Effect::SpawnProcess, tool, answer)],
        Some(ProcessTool::Shell) => seq![tool_effect(Effect::SpawnProcess, tool, answer)],
        Some(ProcessTool::Write) => seq![tool_effect(Effect::ControlProcess, tool, answer)],
        Some(ProcessTool::Resize) => seq![tool_effect(Effect::ControlProcess, tool, answer)],
        Some(ProcessTool::Kill) => seq![tool_effect(Effect::ControlProcess, tool, answer)],
        _ => Seq::empty(),
    }
}

/// What is observed of the workspace: the paths that changed, or that none did.
pub open spec fn workspace_effects(tool: Seq<char>, paths: Seq<Seq<char>>) -> Seq<ObservedAbs> {
    if paths.len() == 0 {
        seq![
            ObservedAbs {
                effect: Effect::RepoWorkspace,
                scope: seq![("tool"@, tool), ("workspace_change"@, "none"@)],
            },
        ]
    } else {
        Seq::new(
            paths.len(),
            |i: int|
                ObservedAbs {
                    effect: Effect::RepoWorkspace,
                    scope: seq![("tool"@, tool), ("path"@, paths[i])],
                },
        )
    }
}

/// What is observed of the first `n` effects beyond the tool's own.
pub open spec fn conditional_effects(
    tool: Seq<char>,
    effects: Seq<Effect>,
    answer: AnswerAbs,
    n: int,
) -> Seq<ObservedAbs>
    decreases n,
{
    if n <= 0 {
        Seq::empty()
    } else {
        conditional_effects(tool, effects, answer, n - 1) + if effects[n - 1]
            == Effect::RepoWorkspace {
            workspace_effects(tool, answer.workspace_paths)
        } else {
            seq![tool_effect(effects[n - 1], tool, answer)]
        }
    }
}

fn text_or_not_returned(text: &Option<String>) -> (r: String)
    ensures
        r@ == returned(text.abs()),
{
    match text {
        Some(text) => text.clone(),
        None => "not_returned".to_owned(),
    }
}

fn scoped(effect: Effect, tool: &str, key: &'static str, value: String) -> (r: ObservedEffect)
    ensures
        r@ == (ObservedAbs { effect, scope: seq![("tool"@, tool@), (key@, value@)] }),
{
    let scope: Vec<(&'static str, String)> = vec![("tool", tool.to_owned()), (key, value)];
    let observed: ObservedEffect = ObservedEffect { effect, scope };
    assert(observed@.scope =~= seq![("tool"@, tool@), (key@, value@)]);
    observed
}

fn push_observed(out: &mut Vec<ObservedEffect>, observed: ObservedEffect)
    ensures
        observed_abs(final(out)@) == observed_abs(old(out)@).push(observed@),
{
    let ghost before = observed_abs(out@);
    out.push(observed);
    assert(observed_abs(out@) =~= before.push(observed@));
}

fn push_workspace_effects(out: &mut Vec<ObservedEffect>, tool: &str, paths: &Vec<String>)
    ensures
        observed_abs(final(out)@) == observed_abs(old(out)@) + workspace_effects(
            tool@,
            contents(paths@),
        ),
{
    let ghost start = observed_abs(out@);
    let ghost all = contents(paths@);
    let ghost told = workspace_effects(tool@, all);
    if paths.len() == 0 {
        push_observed(
            out,
            scoped(Effect::RepoWorkspace, tool, "workspace_change", "none".to_owned()),
        );
        assert(observed_abs(out@) =~= start + told);
        return ;
    }
    let mut i: usize = 0;
    assert(observed_abs(out@) =~= start + told.take(0));
    while i < paths.len()
        invariant
            i <= paths@.len(),
            paths@.len() > 0,
            all == contents(paths@),
            told == workspace_effects(tool@, all),
            observed_abs(out@) == start + told.take(i as int),
        decreases paths@.len() - i,
    {
        assert(all[i as int] == paths@[i as int]@);
        push_observed(out, scoped(Effect::RepoWorkspace, tool, "path", paths[i].clone()));
        i += 1;
        assert(observed_abs(out@) =~= start + told.take(i as int));
    }
    assert(told.take(i as int) =~= told);
}

fn effects_of_answer(tool_id: &str, authorized: &Vec<Effect>, answer: &ToolAnswer) -> (r:
    Vec<ObservedEffect>)
    ensures
        observed_abs(r@) == own_effects(tool_id@, answer@) + conditional_effects(
            tool_id@,
            authorized@,
            answer@,
            authorized@.len() as int,
        ),
{
    let mut out: Vec<ObservedEffect> = Vec::new();
    let execution_id: String = text_or_not_returned(&answer.execution_id);
    let own: Option<Effect> = match dispatch(tool_id) {
        Ok(ProcessTool::Cd) => Some(Effect::SessionWorkingDirectory),
        Ok(ProcessTool::Exec) => Some(Effect::SpawnProcess),
        Ok(ProcessTool::Start) => Some(Effect::SpawnProcess),
        Ok(ProcessTool::Shell) => Some(Effect::SpawnProcess),
        Ok(ProcessTool::Write) => Some(Effect::ControlProcess),
        Ok(ProcessTool::Resize) => Some(Effect::ControlProcess),
        Ok(ProcessTool::Kill) => Some(Effect::ControlProcess),
        _ => None,
    };
    match own {
        Some(Effect::SessionWorkingDirectory) => {
            let scope: Vec<(&'static str, String)> = vec![
                ("working_directory", text_or_not_returned(&answer.working_directory)),
            ];
            let observed: ObservedEffect = ObservedEffect {
                effect: Effect::SessionWorkingDirectory,
                scope,
            };
            assert(observed@.scope =~= seq![
                ("working_directory"@, returned(answer@.working_directory)),
            ]);
            push_observed(&mut out, observed);
        },
        Some(effect) => {
            push_observed(&mut out, scoped(effect, tool_id, "execution_id", execution_id.clone()));
        },
        None => {},
    }
    let ghost head = own_effects(tool_id@, answer@);
    assert(observed_abs(out@) =~= head);
    let mut i: usize = 0;
    assert(head + conditional_effects(tool_id@, authorized@, answer@, 0) =~= head);
    while i < authorized.len()
        invariant
            i <= authorized@.len(),
            execution_id@ == returned(answer@.execution_id),
            observed_abs(out@) == head + conditional_effects(
                tool_id@,
                authorized@,
                answer@,
                i as int,
            ),
        decreases authorized@.len() - i,
    {
        let effect: Effect = authorized[i];
        let ghost before = observed_abs(out@);
        if effect == Effect::RepoWorkspace {
            push_workspace_effects(&mut out, tool_id, &answer.workspace_paths);
        } else {
            push_observed(&mut out, scoped(effect, tool_id, "execution_id", execution_id.clone()));
        }
        i += 1;
        assert(observed_abs(out@) =~= head + conditional_effects(
            tool_id@,
            authorized@,
            answer@,
            i as int,
        ));
    }
    out
}

/// What is observed of a call: the effect of its tool, and those beyond it
/// that were authorized. `data` is what the tool answered.
pub fn observed_process_effects(tool_id: &str, authorized: &Vec<Effect>, data: &Json) -> (r: Vec<
    ObservedEffect,
>)
    ensures
        ({
            let answer = answer_in(json_abs(*data));
            observed_abs(r@) == own_effects(tool_id@, answer) + conditional_effects(
                tool_id@,
                authorized@,
                answer,
                authorized@.len() as int,
            )
        }),
{
    effects_of_answer(tool_id, authorized, &tool_answer(data))
}

/// What the extension declares.
pub open spec fn declared() -> ExtensionAbs {
    ExtensionAbs {
        id: "core.process",
        name: "Core Process",
        version: Some("1.2.0"),
        tools: seq![
            ToolAbs {
                id: "core.process:process.pwd",
                description: "Return the caller's durable logical working directory.",
                operation_kind: OperationKind::Read,
                errors: seq![terminal("execution_failed")],
                state_effects: Seq::<Effect>::empty(),
                conditional_state_effects: Seq::<Effect>::empty(),
            },
            ToolAbs {
                id: "core.process:process.cd",
                description: "Change the caller's durable logical working directory.",
                operation_kind: OperationKind::Write,
                errors: seq![terminal("execution_failed")],
                state_effects: seq![Effect::SessionWorkingDirectory],
                conditional_state_effects: seq![Effect::HostProcessExecution],
            },
            ToolAbs {
                id: "core.process:process.exec",
                description: "Run an exact argv with pipes and wait for its bounded result.",
                operation_kind: OperationKind::Execute,
                errors: seq![recoverable("not_found"), terminal("execution_failed")],
                state_effects: seq![Effect::SpawnProcess],
                conditional_state_effects: seq![Effect::HostProcessExecution],
            },
            ToolAbs {
                id: "core.process:process.start",
                description: "Start an exact argv with pipes or a PTY and return its execution handle.",
                operation_kind: OperationKind::Execute,
                errors: seq![recoverable("not_found"), terminal("execution_failed")],
                state_effects: seq![Effect::SpawnProcess],
                conditional_state_effects: seq![Effect::HostProcessExecution],
            },
            ToolAbs {
                id: "core.process:process.status",
                description: "Return safe lifecycle and retention status for an owned execution.",
                operation_kind: OperationKind::Read,
                errors: seq![terminal("execution_failed")],
                state_effects: Seq::<Effect>::empty(),
                conditional_state_effects: Seq::<Effect>::empty(),
            },
            ToolAbs {
                id: "core.process:process.read",
                description: "Read bounded ordered output chunks from an owned execution.",
                operation_kind: OperationKind::Read,
                errors: seq![terminal("execution_failed")],
                state_effects: Seq::<Effect>::empty(),
                conditional_state_effects: Seq::<Effect>::empty(),
            },
            ToolAbs {
                id: "core.process:process.write",
                description: "Write bounded bytes or EOF to an owned live execution.",
                operation_kind: OperationKind::Execute,
                errors: seq![terminal("execution_failed")],
                state_effects: seq![Effect::ControlProcess],
                conditional_state_effects: Seq::<Effect>::empty(),
            },
            ToolAbs {
                id: "core.process:process.resize",
                description: "Resize an owned live PTY.",
                operation_kind: OperationKind::Execute,
                errors: seq![terminal("execution_failed")],
                state_effects: seq![Effect::ControlProcess],
                conditional_state_effects: Seq::<Effect>::empty(),
            },
            ToolAbs {
                id: "core.process:process.kill",
                description: "Request graceful or immediate termination of an owned process tree.",
                operation_kind: OperationKind::Execute,
                errors: seq![terminal("execution_failed")],
                state_effects: seq![Effect::ControlProcess],
                conditional_state_effects: Seq::<Effect>::empty(),
            },
            ToolAbs {
                id: "core.process:shell.exec",
                description: "Run one explicitly degraded shell fallback inside the admitted effect envelope.",
                operation_kind: OperationKind::Execute,
                errors: seq![
                    recoverable("invalid_effect_envelope"),
                    recoverable("invalid_patch"),
                    recoverable("not_found"),
                    recoverable("conflict"),
                    terminal("execution_failed"),
                    terminal("outcome_unknown"),
                ],
                state_effects: seq![Effect::SpawnProcess],
                conditional_state_effects: seq![
                    Effect::HostProcessExecution,
                    Effect::ShellLoginStartup,
                    Effect::RepoWorkspace,
                ],
            },
        ],
        effects: seq![
            Effect::SessionWorkingDirectory,
            Effect::SpawnProcess,
            Effect::ControlProcess,
            Effect::HostProcessExecution,
            Effect::ShellLoginStartup,
            Effect::RepoWorkspace,
        ],
        hooks: Seq::<HookDeclaration>::empty(),
    }
}

/// The declaration of the extension.
pub fn declaration() -> (r: ExtensionDescriptor)
    ensures
        r@ == declared(),
{
    let tools: Vec<ToolDeclaration> = vec![
            ToolDeclaration {
                id: "core.process:process.pwd",
                description: "Return the caller's durable logical working directory.",
                operation_kind: OperationKind::Read,
                errors: vec![terminal("execution_failed")],
                state_effects: Vec::new(),
                conditional_state_effects: Vec::new(),
            },
            ToolDeclaration {
                id: "core.process:process.cd",
                description: "Change the caller's durable logical working directory.",
                operation_kind: OperationKind::Write,
                errors: vec![terminal("execution_failed")],
                state_effects: vec![Effect::SessionWorkingDirectory],
                conditional_state_effects: vec![Effect::HostProcessExecution],
            },
            ToolDeclaration {
                id: "core.process:process.exec",
                description: "Run an exact argv with pipes and wait for its bounded result.",
                operation_kind: OperationKind::Execute,
                errors: vec![recoverable("not_found"), terminal("execution_failed")],
                state_effects: vec![Effect::SpawnProcess],
                conditional_state_effects: vec![Effect::HostProcessExecution],
            },
            ToolDeclaration {
                id: "core.process:process.start",
                description: "Start an exact argv with pipes or a PTY and return its execution handle.",
                operation_kind: OperationKind::Execute,
                errors: vec![recoverable("not_found"), terminal("execution_failed")],
                state_effects: vec![Effect::SpawnProcess],
                conditional_state_effects: vec![Effect::HostProcessExecution],
            },
            ToolDeclaration {
                id: "core.process:process.status",
                description: "Return safe lifecycle and retention status for an owned execution.",
                operation_kind: OperationKind::Read,
                errors: vec![terminal("execution_failed")],
                state_effects: Vec::new(),
                conditional_state_effects: Vec::new(),
            },
            ToolDeclaration {
                id: "core.process:process.read",
                description: "Read bounded ordered output chunks from an owned execution.",
                operation_kind: OperationKind::Read,
                errors: vec![terminal("execution_failed")],
                state_effects: Vec::new(),
                conditional_state_effects: Vec::new(),
            },
            ToolDeclaration {
                id: "core.process:process.write",
                description: "Write bounded bytes or EOF to an owned live execution.",
                operation_kind: OperationKind::Execute,
                errors: vec![terminal("execution_failed")],
                state_effects: vec![Effect::ControlProcess],
                conditional_state_effects: Vec::new(),
            },
            ToolDeclaration {
                id: "core.process:process.resize",
                description: "Resize an owned live PTY.",
                operation_kind: OperationKind::Execute,
                errors: vec![terminal("execution_failed")],
                state_effects: vec![Effect::ControlProcess],
                conditional_state_effects: Vec::new(),
            },
            ToolDeclaration {
                id: "core.process:process.kill",
                description: "Request graceful or immediate termination of an owned process tree.",
                operation_kind: OperationKind::Execute,
                errors: vec![terminal("execution_failed")],
                state_effects: vec![Effect::ControlProcess],
                conditional_state_effects: Vec::new(),
            },
            ToolDeclaration {
                id: "core.process:shell.exec",
                description: "Run one explicitly degraded shell fallback inside the admitted effect envelope.",
                operation_kind: OperationKind::Execute,
                errors: vec![
                    recoverable("invalid_effect_envelope"),
                    recoverable("invalid_patch"),
                    recoverable("not_found"),
                    recoverable("conflict"),
                    terminal("execution_failed"),
                    terminal("outcome_unknown"),
                ],
                state_effects: vec![Effect::SpawnProcess],
                conditional_state_effects: vec![
                    Effect::HostProcessExecution,
                    Effect::ShellLoginStartup,
                    Effect::RepoWorkspace,
                ],
            },
        ];
    let effects: Vec<Effect> = vec![
        Effect::SessionWorkingDirectory,
        Effect::SpawnProcess,
        Effect::ControlProcess,
        Effect::HostProcessExecution,
        Effect::ShellLoginStartup,
        Effect::RepoWorkspace,
    ];
    let hooks: Vec<HookDeclaration> = Vec::new();
    let descriptor: ExtensionDescriptor = ExtensionDescriptor {
        id: "core.process",
        name: "Core Process",
        version: Some("1.2.0"),
        tools,
        effects,
        hooks,
    };
    proof {
        lemma_declared(descriptor, declared());
    }
    descriptor
}

/// What a run observes of the tools: their outcomes, whose codes `outcomes`
/// holds for each of them, and the errors after which a caller can go on.
pub fn workflow(outcomes: &Vec<Vec<String>>) -> (r: Vec<ToolWorkflowMapping>)
    ensures
        mappings_abs(r@) == all_mappings(
            declared().tools,
            outcome_rows(outcomes@),
            declared().tools.len() as int,
        ),
{
    observation_workflow(&declaration(), outcomes)
}

} // verus!
