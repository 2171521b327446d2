//! What processes and shells get, and which of them run.

use vstd::prelude::*;
use vstd::string::*;

use super::environment::{
    admitted, entries_before, entry_bytes, in_name_order, lemma_admitted_order,
    lemma_entries_before, lemma_entry_keeps_order, overridden, pair_failure, process_environment,
    with_entry, Entries,
};
use super::descriptor::Effect;
use super::launch::{launch_failure, ArgvArgs, LaunchContext};
use super::process::{
    argument_bytes, asks_for, conditional_effects, own_effects, process_tool, slice_texts,
    texts_among, tool_effect, workspace_effects, AnswerAbs, ConditionalRequest, ExecutionProfile,
    ObservedAbs, ProcessTool, ProcessToolRuntimeConfig, Span, WorkspaceAccess,
};
use super::repo_path::RepoPath;
use super::shell::{
    expected_path_failure, expected_paths_failure, external_failure, kept_chunks, routed, ShellArgs,
    ShellRoute,
};
use super::terminal::{
    is_admitted, is_executable, lookup_of, search_path, PathCandidate, ProgramLookup,
};
use crate::json::JsonAbs;
use crate::text::{byte_len, precedes, precedes_irreflexive};
use crate::value::contents;

verus! {

// ---------------------------------------------------------------------------
// Environments
// ---------------------------------------------------------------------------

/// Whether some entries have one of that name.
pub open spec fn has_name(entries: Entries, name: Seq<char>) -> bool {
    exists|i: int| 0 <= i < entries.len() && (#[trigger] entries[i]).0 == name
}

proof fn lemma_with_entry(
    entries: Entries,
    name: Seq<char>,
    value: Seq<char>,
    other: Seq<char>,
    held: Seq<char>,
)
    requires
        in_name_order(entries),
    ensures
        with_entry(entries, name, value).contains((other, held)) <==> if other == name {
            held == value
        } else {
            entries.contains((other, held))
        },
{
    let n = entries_before(entries, name) as int;
    lemma_entries_before(entries, name);
    let more = with_entry(entries, name, value);
    let found = n < entries.len() && entries[n].0 == name;
    assert(more[n] == (name, value));
    if more.contains((other, held)) {
        let i = choose|i: int| 0 <= i < more.len() && more[i] == (other, held);
        if i != n {
            let j = if found || i < n {
                i
            } else {
                i - 1
            };
            assert(entries[j] == (other, held));
            if other == name {
                precedes_irreflexive(name);
                if j < n {
                    assert(precedes(entries[j].0, name));
                } else if n < j {
                    assert(precedes(entries[n].0, entries[j].0));
                    crate::text::precedes_total(entries[n].0, name);
                }
            }
        }
    }
    if other != name && entries.contains((other, held)) {
        let j = choose|j: int| 0 <= j < entries.len() && entries[j] == (other, held);
        if found || j < n {
            assert(more[j] == entries[j]);
        } else {
            assert(more[j + 1] == entries[j]);
        }
    }
}

proof fn lemma_admitted(
    entries: Entries,
    names: Seq<Seq<char>>,
    n: int,
    name: Seq<char>,
    value: Seq<char>,
)
    requires
        0 <= n <= entries.len(),
    ensures
        admitted(entries, names, n).contains((name, value)) <==> entries.take(n).contains(
            (name, value),
        ) && names.contains(name),
    decreases n,
{
    if n > 0 {
        lemma_admitted(entries, names, n - 1, name, value);
        let before = admitted(entries, names, n - 1);
        let now = admitted(entries, names, n);
        let last = entries[n - 1];
        assert(entries.take(n) =~= entries.take(n - 1).push(last));
        let shorter = entries.take(n - 1);
        if shorter.contains((name, value)) {
            let i = choose|i: int| 0 <= i < shorter.len() && shorter[i] == (name, value);
            assert(entries.take(n)[i] == (name, value));
        }
        if last == (name, value) {
            assert(entries.take(n)[n - 1] == (name, value));
        }
        if entries.take(n).contains((name, value)) && last != (name, value) {
            let i = choose|i: int| 0 <= i < n && entries.take(n)[i] == (name, value);
            assert(shorter[i] == (name, value));
        }
        if before.contains((name, value)) {
            let i = choose|i: int| 0 <= i < before.len() && before[i] == (name, value);
            assert(now[i] == (name, value));
        }
        if names.contains(last.0) && last == (name, value) {
            assert(now[now.len() - 1] == (name, value));
        }
        if now.contains((name, value)) {
            let i = choose|i: int| 0 <= i < now.len() && now[i] == (name, value);
            if i < before.len() {
                assert(before[i] == (name, value));
            }
        }
    }
}

/// Whether an override can be set: its name is not empty and holds no equals
/// sign, neither it nor its value holds a NUL, and both are short enough.
pub open spec fn can_be_set(name: Seq<char>, value: Seq<char>) -> bool {
    &&& 1 <= name.len()
    &&& byte_len(name) <= 256
    &&& byte_len(value) <= 65_536
    &&& !name.contains('=')
    &&& !name.contains('\0')
    &&& !value.contains('\0')
}

proof fn lemma_overridden(
    entries: Entries,
    overrides: Entries,
    n: int,
    name: Seq<char>,
    value: Seq<char>,
)
    requires
        in_name_order(entries),
        in_name_order(overrides),
        0 <= n <= overrides.len(),
    ensures
        overridden(entries, overrides, n) is Ok <==> forall|i: int|
            0 <= i < n ==> can_be_set((#[trigger] overrides[i]).0, overrides[i].1),
        overridden(entries, overrides, n) matches Ok(all) ==> in_name_order(all) && (all.contains(
            (name, value),
        ) <==> if has_name(overrides.take(n), name) {
            overrides.take(n).contains((name, value))
        } else {
            entries.contains((name, value))
        }),
    decreases n,
{
    if n > 0 {
        lemma_overridden(entries, overrides, n - 1, name, value);
        let last = overrides[n - 1];
        assert(pair_failure(last.0, last.1) is None <==> can_be_set(last.0, last.1));
        if overridden(entries, overrides, n) is Ok {
            let before = overridden(entries, overrides, n - 1)->Ok_0;
            lemma_with_entry(before, last.0, last.1, name, value);
            lemma_entry_keeps_order(before, last.0, last.1);
            let shorter = overrides.take(n - 1);
            let longer = overrides.take(n);
            assert(longer =~= shorter.push(last));
            if has_name(shorter, name) {
                let i = choose|i: int| 0 <= i < shorter.len() && (#[trigger] shorter[i]).0 == name;
                assert(longer[i].0 == name);
                precedes_irreflexive(name);
                assert(precedes(overrides[i].0, overrides[n - 1].0));
            }
            if last.0 == name {
                assert(longer[n - 1].0 == name);
                if longer.contains((name, value)) {
                    let i = choose|i: int| 0 <= i < longer.len() && longer[i] == (name, value);
                    if i < n - 1 {
                        precedes_irreflexive(name);
                        assert(precedes(overrides[i].0, overrides[n - 1].0));
                    }
                }
                if value == last.1 {
                    assert(longer[n - 1] == (name, value));
                }
            } else {
                if has_name(longer, name) {
                    let i = choose|i: int| 0 <= i < longer.len() && (#[trigger] longer[i]).0
                        == name;
                    assert(shorter[i].0 == name);
                }
                if longer.contains((name, value)) {
                    let i = choose|i: int| 0 <= i < longer.len() && longer[i] == (name, value);
                    assert(shorter[i] == (name, value));
                }
                if shorter.contains((name, value)) {
                    let i = choose|i: int| 0 <= i < shorter.len() && shorter[i] == (name, value);
                    assert(longer[i] == (name, value));
                }
            }
        }
    }
}

/// A process has of the base environment what its shell admits, and what is
/// set for it in place of that; nothing else. It gets an environment exactly
/// when no more than 256 values are set for it, all of which can be set, and
/// the whole is not too large.
pub proof fn environments_are_admitted_or_set(
    base: Entries,
    names: Seq<Seq<char>>,
    overrides: Entries,
    maximum_bytes: usize,
    name: Seq<char>,
    value: Seq<char>,
)
    requires
        in_name_order(base),
        in_name_order(overrides),
    ensures
        process_environment(base, names, overrides, maximum_bytes) matches Ok(entries) ==> {
            &&& in_name_order(entries)
            &&& entry_bytes(entries, entries.len() as int) <= maximum_bytes
            &&& entries.contains((name, value)) <==> if has_name(overrides, name) {
                overrides.contains((name, value))
            } else {
                base.contains((name, value)) && names.contains(name)
            }
        },
        process_environment(base, names, overrides, maximum_bytes) is Ok ==> overrides.len() <= 256
            && forall|i: int|
            0 <= i < overrides.len() ==> can_be_set((#[trigger] overrides[i]).0, overrides[i].1),
        overrides.len() <= 256 && (forall|i: int|
            0 <= i < overrides.len() ==> can_be_set((#[trigger] overrides[i]).0, overrides[i].1))
            ==> (process_environment(base, names, overrides, maximum_bytes) is Ok <==> {
            let all = overridden(
                admitted(base, names, base.len() as int),
                overrides,
                overrides.len() as int,
            )->Ok_0;
            entry_bytes(all, all.len() as int) <= maximum_bytes
        }),
{
    let kept = admitted(base, names, base.len() as int);
    lemma_admitted_order(base, names, base.len() as int);
    lemma_admitted(base, names, base.len() as int, name, value);
    lemma_overridden(kept, overrides, overrides.len() as int, name, value);
    assert(base.take(base.len() as int) =~= base);
    assert(overrides.take(overrides.len() as int) =~= overrides);
}

// ---------------------------------------------------------------------------
// Times
// ---------------------------------------------------------------------------

/// A process gets the least of the times that apply to it: what it asked for
/// and the maximum for that, or the default in the foreground, and what its run
/// has left; where none applies it has no limit.
pub proof fn the_least_time_applies(
    config: ProcessToolRuntimeConfig,
    requested: Option<u64>,
    foreground: bool,
    remaining: Option<Span>,
)
    ensures
        requested == Some(0u64) ==> config.timeout(requested, foreground, remaining) is Err,
        requested != Some(0u64) && remaining is Some && remaining->Some_0.millis() == 0
            ==> config.timeout(requested, foreground, remaining) is Err,
        requested != Some(0u64) && (remaining is None || remaining->Some_0.millis() > 0) ==> ({
            &&& config.timeout(requested, foreground, remaining) matches Ok(told)
            &&& told is None <==> requested is None && !foreground && remaining is None
            &&& told matches Some(time) ==> {
                let asked = requested is Some && time == requested->Some_0;
                let most = requested is Some && time == config.maximum_foreground_timeout.millis();
                let usual = requested is None && foreground && time
                    == config.default_foreground_timeout.millis();
                let left = remaining is Some && time == remaining->Some_0.millis();
                &&& asked || most || usual || left
                &&& requested is Some ==> time <= requested->Some_0 && time
                    <= config.maximum_foreground_timeout.millis()
                &&& requested is None && foreground ==> time
                    <= config.default_foreground_timeout.millis()
                &&& remaining is Some ==> time <= remaining->Some_0.millis()
            }
        }),
{
}

// ---------------------------------------------------------------------------
// Shells
// ---------------------------------------------------------------------------

/// Whether a text says something, holds no NUL and is short enough.
pub open spec fn is_declared(text: Seq<char>, most: int) -> bool {
    text.len() > 0 && !text.contains('\0') && byte_len(text) <= most
}

proof fn lemma_paths(paths: Seq<Seq<char>>, n: int)
    requires
        0 <= n <= paths.len(),
    ensures
        expected_paths_failure(paths, n) is None <==> forall|i: int|
            0 <= i < n ==> expected_path_failure(#[trigger] paths[i]) is None,
    decreases n,
{
    if n > 0 {
        lemma_paths(paths, n - 1);
    }
}

proof fn lemma_external(effects: Seq<Seq<char>>, n: int)
    requires
        0 <= n <= effects.len(),
    ensures
        external_failure(effects, n) is None <==> forall|i: int|
            0 <= i < n ==> is_declared(#[trigger] effects[i], 256),
    decreases n,
{
    if n > 0 {
        lemma_external(effects, n - 1);
    }
}

/// A shell call runs exactly when it declares what it is for and why, expects a
/// process in the foreground, and its effects fit where it runs: in the
/// workspace it expects paths where it writes and none where it reads, and
/// nothing outside; on the host it expects the host process and no paths, and
/// does not write. In the workspace it brings no context of its own and no
/// login.
pub proof fn shell_calls_declare_themselves(args: ShellArgs)
    ensures
        ({
            let paths = contents(args.expected_effects.workspace_paths@);
            let external = contents(args.expected_effects.external@);
            let host = args.profile == Some(ExecutionProfile::Host);
            let writes = args.workspace_access == WorkspaceAccess::Write;
            &&& routed(args) is Ok <==> {
                &&& is_declared(args.semantic_intent@, 4_096)
                &&& is_declared(args.fallback_reason@, 4_096)
                &&& args.expected_effects.process
                &&& args.background != Some(true)
                &&& forall|i: int|
                    0 <= i < external.len() ==> is_declared(#[trigger] external[i], 256)
                &&& forall|i: int|
                    0 <= i < paths.len() ==> expected_path_failure(#[trigger] paths[i]) is None
                &&& host ==> !writes && paths.len() == 0 && external.contains("host_process"@)
                &&& !host ==> external.len() == 0 && (paths.len() > 0) == writes
                &&& !args.command@.contains('\0')
                &&& byte_len(args.command@) <= 65_536
                &&& !host ==> args.cwd is None && args.env is None && args.terminal_size is None
                    && args.login != Some(true)
            }
            &&& routed(args) matches Ok(route) ==> route == if host {
                ShellRoute::Host
            } else if writes {
                ShellRoute::CopyOnWrite
            } else {
                ShellRoute::Agent
            }
        }),
{
    let paths = contents(args.expected_effects.workspace_paths@);
    let external = contents(args.expected_effects.external@);
    lemma_paths(paths, paths.len() as int);
    lemma_external(external, external.len() as int);
}

/// The chunks of a command are those up to its last one, all of them and in
/// their order.
pub proof fn chunks_up_to_the_last_are_kept(sequences: Seq<u64>, through: u64, n: int)
    requires
        0 <= n <= sequences.len() <= usize::MAX,
    ensures
        ({
            let kept = kept_chunks(sequences, through, n);
            &&& forall|k: int|
                0 <= k < kept.len() ==> 0 <= (#[trigger] kept[k]) < n && sequences[kept[k] as int]
                    <= through
            &&& forall|k: int, l: int|
                0 <= k < l < kept.len() ==> #[trigger] kept[k] < #[trigger] kept[l]
            &&& forall|i: int|
                0 <= i < n && (#[trigger] sequences[i]) <= through ==> kept.contains(i as usize)
        }),
    decreases n,
{
    if n > 0 {
        chunks_up_to_the_last_are_kept(sequences, through, n - 1);
        let before = kept_chunks(sequences, through, n - 1);
        let kept = kept_chunks(sequences, through, n);
        assert forall|i: int| 0 <= i < n && (#[trigger] sequences[i]) <= through implies kept.contains(
            i as usize,
        ) by {
            if i < n - 1 {
                let k = choose|k: int| 0 <= k < before.len() && before[k] == i as usize;
                assert(kept[k] == i as usize);
            } else {
                assert(kept[kept.len() - 1] == i as usize);
            }
        }
    }
}

// ---------------------------------------------------------------------------
// Launching
// ---------------------------------------------------------------------------

/// A program is launched exactly when it is named, its arguments are few and
/// short and hold no NUL, it may run where it is asked to, its directory is
/// named and found, it gets an environment, it is found, a file and executable,
/// and its input and its time are in order.
pub proof fn launches_are_admitted(
    args: ArgvArgs,
    context: LaunchContext,
    config: ProcessToolRuntimeConfig,
    foreground: bool,
)
    ensures
        ({
            let values = slice_texts(args.args@);
            let host = args.profile == Some(ExecutionProfile::Host);
            let cwd = match args.cwd {
                Some(cwd) => cwd@,
                None => "."@,
            };
            launch_failure(args, context, config, foreground) is None <==> {
                &&& is_declared(args.program@, 4_096)
                &&& values.len() <= 1_024
                &&& forall|i: int| 0 <= i < values.len() ==> !(#[trigger] values[i]).contains('\0')
                &&& argument_bytes(values, values.len() as int) <= 65_536
                &&& host ==> context.effects@.contains(Effect::HostProcessExecution)
                    && context.provenance is Some
                &&& is_declared(cwd, 4_096)
                &&& context.directory is Ok
                &&& process_environment(
                    context.base_environment@,
                    contents(context.environment_names@),
                    args.env@,
                    config.maximum_environment_bytes,
                ) is Ok
                &&& context.environment_fault is None
                &&& context.program.found
                &&& lookup_of(args.program@) == ProgramLookup::Search ==> context.program.has_path
                &&& context.program.canonical is Some
                &&& context.program.metadata matches Some((is_file, mode))
                &&& is_file
                &&& is_executable(mode)
                &&& context.stdin_fault is None
                &&& config.timeout(args.timeout_ms, foreground, context.remaining) is Ok
            }
        }),
{
    reveal_strlit(".");
    let values = slice_texts(args.args@);
    if forall|i: int| 0 <= i < values.len() ==> !(#[trigger] values[i]).contains('\0') {
        assert(!(exists|i: int|
            0 <= i < values.len() && (#[trigger] values[i]).contains('\0')));
    }
}

/// A file is executable where its mode lets anyone execute it.
pub proof fn executable_files_have_an_execute_bit(mode: u32)
    ensures
        is_executable(mode) <==> mode & 0o111 != 0,
{
    assert((mode / 64 % 2 == 1 || mode / 8 % 2 == 1 || mode % 2 == 1) <==> mode & 0o111 != 0)
        by (bit_vector);
}

/// A program that is named from the root is looked for there.
pub proof fn absolute_programs_are_not_searched(program: Seq<char>)
    ensures
        (program.len() > 0 && program[0] == '/') <==> lookup_of(program)
            == ProgramLookup::Absolute,
{
    if program.len() > 0 {
        assert(program.subrange(0, 1)[0] == program[0]);
        if program[0] == '/' {
            assert(program.subrange(0, 1) =~= seq!['/']);
        }
    }
}

/// The search path of a terminal is the directories below its roots, each once
/// and in the order of the candidates, and all of them.
pub proof fn search_paths_are_complete(
    roots: Seq<RepoPath>,
    candidates: Seq<PathCandidate>,
    n: int,
)
    requires
        0 <= n <= candidates.len(),
    ensures
        search_path(roots, candidates, n).no_duplicates(),
        forall|i: int|
            0 <= i < n && (#[trigger] candidates[i]).is_directory && is_admitted(
                roots,
                candidates[i].path@,
            ) ==> search_path(roots, candidates, n).contains(candidates[i].path@),
        forall|path: Seq<Seq<char>>| #[trigger]
            search_path(roots, candidates, n).contains(path) ==> is_admitted(roots, path)
                && exists|i: int|
                0 <= i < n && (#[trigger] candidates[i]).is_directory && candidates[i].path@ == path,
    decreases n,
{
    if n > 0 {
        search_paths_are_complete(roots, candidates, n - 1);
        let before = search_path(roots, candidates, n - 1);
        let now = search_path(roots, candidates, n);
        let candidate = candidates[n - 1];
        let path = candidate.path@;
        if candidate.is_directory && is_admitted(roots, path) && !before.contains(path) {
            assert(now == before.push(path));
            assert(now[now.len() - 1] == path);
            assert forall|a: int, b: int|
                0 <= a < now.len() && 0 <= b < now.len() && a != b implies now[a] != now[b] by {
                if a < before.len() && b < before.len() {
                    assert(before[a] != before[b]);
                } else if a < before.len() {
                    assert(before.contains(before[a]));
                } else {
                    assert(before.contains(before[b]));
                }
            }
        }
        assert forall|i: int|
            0 <= i < n && (#[trigger] candidates[i]).is_directory && is_admitted(
                roots,
                candidates[i].path@,
            ) implies now.contains(candidates[i].path@) by {
            if before.contains(candidates[i].path@) {
                let k = choose|k: int| 0 <= k < before.len() && before[k] == candidates[i].path@;
                assert(now[k] == candidates[i].path@);
            }
        }
        assert forall|other: Seq<Seq<char>>| #[trigger] now.contains(other) implies is_admitted(
            roots,
            other,
        ) && exists|i: int|
            0 <= i < n && (#[trigger] candidates[i]).is_directory && candidates[i].path@ == other by {
            let k = choose|k: int| 0 <= k < now.len() && now[k] == other;
            if k < before.len() {
                assert(before[k] == other);
                assert(before.contains(other));
                let i = choose|i: int|
                    0 <= i < n - 1 && (#[trigger] candidates[i]).is_directory && candidates[i].path@
                        == other;
                assert(candidates[i].path@ == other);
            } else {
                assert(candidates[n - 1].path@ == other);
            }
        }
    }
}

// ---------------------------------------------------------------------------
// Effects
// ---------------------------------------------------------------------------

/// Whether a tool runs or starts a process.
pub open spec fn starts(tool: Option<ProcessTool>) -> bool {
    tool == Some(ProcessTool::Exec) || tool == Some(ProcessTool::Start) || tool == Some(
        ProcessTool::Shell,
    )
}

/// Whether a tool controls a process that runs.
pub open spec fn controls(tool: Option<ProcessTool>) -> bool {
    tool == Some(ProcessTool::Write) || tool == Some(ProcessTool::Resize) || tool == Some(
        ProcessTool::Kill,
    )
}

/// What a call asks for beyond its tool: the host, where it is to run there or
/// a shell is to log in; the login of a shell; the workspace, where a shell is
/// to write to it. Nothing else is asked for, and no other tool asks.
pub proof fn calls_ask_for_what_they_need(
    tool: Option<ProcessTool>,
    request: ConditionalRequest,
)
    ensures
        ({
            let host = request.profile == Some(ExecutionProfile::Host);
            let login = request.login == Some(true);
            let shell = tool == Some(ProcessTool::Shell);
            &&& asks_for(tool, request, Effect::HostProcessExecution) <==> (host && (starts(tool)
                || tool == Some(ProcessTool::Cd))) || (shell && login)
            &&& asks_for(tool, request, Effect::ShellLoginStartup) <==> shell && login
            &&& asks_for(tool, request, Effect::RepoWorkspace) <==> shell
                && request.workspace_access == WorkspaceAccess::Write
            &&& !asks_for(tool, request, Effect::SpawnProcess)
            &&& !asks_for(tool, request, Effect::ControlProcess)
            &&& !asks_for(tool, request, Effect::SessionWorkingDirectory)
            &&& !asks_for(tool, request, Effect::RepoFiles)
        }),
{
}

/// What is observed of a tool itself: a process that it started or controls,
/// with the tool and the execution, or the directory that it went to.
pub proof fn tools_are_observed(tool: Seq<char>, answer: AnswerAbs)
    ensures
        ({
            let seen = own_effects(tool, answer);
            let id = match answer.execution_id {
                Some(id) => id,
                None => "not_returned"@,
            };
            &&& starts(process_tool(tool)) ==> seen.len() == 1 && seen[0].effect
                == Effect::SpawnProcess && seen[0].scope == seq![
                ("tool"@, tool),
                ("execution_id"@, id),
            ]
            &&& controls(process_tool(tool)) ==> seen.len() == 1 && seen[0].effect
                == Effect::ControlProcess && seen[0].scope == seq![
                ("tool"@, tool),
                ("execution_id"@, id),
            ]
            &&& process_tool(tool) == Some(ProcessTool::Cd) ==> seen.len() == 1 && seen[0].effect
                == Effect::SessionWorkingDirectory && seen[0].scope == seq![
                (
                    "working_directory"@,
                    match answer.working_directory {
                        Some(directory) => directory,
                        None => "not_returned"@,
                    },
                ),
            ]
            &&& !starts(process_tool(tool)) && !controls(process_tool(tool)) && process_tool(tool)
                != Some(ProcessTool::Cd) ==> seen.len() == 0
        }),
{
}

/// Every effect that was authorized is observed, the workspace once for each
/// path that changed, or once where none did.
pub proof fn authorized_effects_are_observed(
    tool: Seq<char>,
    effects: Seq<Effect>,
    answer: AnswerAbs,
    n: int,
    i: int,
)
    requires
        0 <= i < n <= effects.len(),
    ensures
        ({
            let seen = conditional_effects(tool, effects, answer, n);
            &&& exists|k: int| 0 <= k < seen.len() && (#[trigger] seen[k]).effect == effects[i]
            &&& effects[i] == Effect::RepoWorkspace ==> forall|m: int|
                0 <= m < answer.workspace_paths.len() ==> seen.contains(
                    ObservedAbs {
                        effect: Effect::RepoWorkspace,
                        scope: seq![("tool"@, tool), ("path"@, #[trigger] answer.workspace_paths[m])],
                    },
                )
        }),
    decreases n,
{
    let before = conditional_effects(tool, effects, answer, n - 1);
    let seen = conditional_effects(tool, effects, answer, n);
    let more = if effects[n - 1] == Effect::RepoWorkspace {
        workspace_effects(tool, answer.workspace_paths)
    } else {
        seq![tool_effect(effects[n - 1], tool, answer)]
    };
    assert(seen == before + more);
    if i < n - 1 {
        authorized_effects_are_observed(tool, effects, answer, n - 1, i);
        let k = choose|k: int| 0 <= k < before.len() && (#[trigger] before[k]).effect == effects[i];
        assert(seen[k].effect == effects[i]);
        if effects[i] == Effect::RepoWorkspace {
            assert forall|m: int| 0 <= m < answer.workspace_paths.len() implies seen.contains(
                ObservedAbs {
                    effect: Effect::RepoWorkspace,
                    scope: seq![("tool"@, tool), ("path"@, #[trigger] answer.workspace_paths[m])],
                },
            ) by {
                let wanted = ObservedAbs {
                    effect: Effect::RepoWorkspace,
                    scope: seq![("tool"@, tool), ("path"@, answer.workspace_paths[m])],
                };
                assert(before.contains(wanted));
                let j = choose|j: int| 0 <= j < before.len() && before[j] == wanted;
                assert(seen[j] == wanted);
            }
        }
    } else {
        assert(seen[before.len() as int] == more[0]);
        assert(seen[before.len() as int].effect == effects[i]);
        if effects[i] == Effect::RepoWorkspace {
            assert forall|m: int| 0 <= m < answer.workspace_paths.len() implies seen.contains(
                ObservedAbs {
                    effect: Effect::RepoWorkspace,
                    scope: seq![("tool"@, tool), ("path"@, #[trigger] answer.workspace_paths[m])],
                },
            ) by {
                assert(seen[before.len() + m] == more[m]);
            }
        }
    }
}

/// The texts of a list are told in their order, and nothing else of it.
pub proof fn texts_of_a_list_are_told(items: Seq<JsonAbs>, text: Seq<char>, other: JsonAbs)
    ensures
        texts_among(Seq::empty(), 0).len() == 0,
        texts_among(items.push(JsonAbs::Text(text)), items.len() as int + 1) == texts_among(
            items,
            items.len() as int,
        ).push(text),
        !(other is Text) ==> texts_among(items.push(other), items.len() as int + 1) == texts_among(
            items,
            items.len() as int,
        ),
{
    lemma_texts(items, items.push(JsonAbs::Text(text)), items.len() as int);
    lemma_texts(items, items.push(other), items.len() as int);
}

proof fn lemma_texts(items: Seq<JsonAbs>, more: Seq<JsonAbs>, n: int)
    requires
        0 <= n <= items.len() <= more.len(),
        forall|i: int| 0 <= i < items.len() ==> #[trigger] more[i] == items[i],
    ensures
        texts_among(more, n) == texts_among(items, n),
    decreases n,
{
    if n > 0 {
        lemma_texts(items, more, n - 1);
        assert(more[n - 1] == items[n - 1]);
    }
}

} // verus!
