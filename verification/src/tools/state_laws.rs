//! What is asked for, kept apart and told by the tools over state.

use vstd::prelude::*;
use vstd::string::*;

use super::artifacts::{
    cut_at_space, protecting, registration, route_to, ArtifactAccess, ArtifactRoute, ArtifactRoutes,
};
use super::descriptor::OperationKind;
use super::foreground::{
    continued, DiffAbs, EventAbs, FailureAbs, ForegroundAbs, ForegroundStep,
};
use super::permissions::{
    duration_of, first_bad_effect, first_bad_input, kind_of, namespace, requested_tools,
    PermissionDuration,
};
use super::repo_path::{lies_below, RepoPath};
use super::store::{line_bytes, lines_within, records_in};
use crate::ids::is_qualified;
use crate::json::json_in;
use crate::text::{after, begins, find, find_from_meaning, is_whitespace, occurs_at, trimmed};

verus! {

// ---------------------------------------------------------------------------
// Permissions
// ---------------------------------------------------------------------------

/// Whether a tool belongs to the permissions themselves.
pub open spec fn is_permission_tool(tool: Seq<char>) -> bool {
    begins(tool, "core.permission:"@)
}

proof fn lemma_namespace(tool: Seq<char>)
    ensures
        namespace(tool) == Some("core.permission"@) <==> is_permission_tool(tool),
{
    reveal_strlit(":");
    reveal_strlit("core.permission");
    reveal_strlit("core.permission:");
    let colon = ":"@;
    let owner = "core.permission"@;
    assert("core.permission:"@ =~= owner + colon);
    find_from_meaning(tool, colon, 0);
    if is_permission_tool(tool) {
        let n = owner.len() as int;
        assert forall|k: int| 0 <= k < n + 1 implies #[trigger] tool[k] == "core.permission:"@[k] by {
            assert(tool.subrange(0, n + 1)[k] == tool[k]);
        }
        assert(tool.subrange(n, n + 1) =~= colon);
        assert forall|k: int| 0 <= k < n implies !#[trigger] occurs_at(tool, colon, k) by {
            assert(tool[k] == "core.permission:"@[k]);
            if occurs_at(tool, colon, k) {
                assert(tool.subrange(k, k + 1)[0] == tool[k]);
            }
        }
        crate::text::find_is(tool, colon, n);
        assert(tool.subrange(0, n) =~= owner);
    }
    if namespace(tool) == Some(owner) {
        let i = find(tool, colon)->Some_0;
        assert(tool.subrange(0, i) == owner);
        assert(i == owner.len());
        assert(tool.subrange(i, i + 1) == colon);
        assert(tool.subrange(0, i + 1) =~= tool.subrange(0, i) + tool.subrange(i, i + 1));
    }
}

/// Tools can be requested exactly when each has a qualified name and none
/// belongs to the permissions themselves; every requested tool is then asked
/// for once, and no other.
pub proof fn requested_tools_are_asked_for_once(tools: Seq<Seq<char>>, n: int)
    requires
        0 <= n <= tools.len(),
    ensures
        requested_tools(tools, n) is Ok <==> forall|i: int|
            0 <= i < n ==> is_qualified(#[trigger] tools[i]) && !is_permission_tool(tools[i]),
        requested_tools(tools, n) matches Ok(asked) ==> {
            &&& asked.no_duplicates()
            &&& forall|i: int| 0 <= i < n ==> asked.contains(#[trigger] tools[i])
            &&& forall|k: int| 0 <= k < asked.len() ==> tools.contains(#[trigger] asked[k])
            &&& asked.len() > 0 ==> asked[0] == tools[0]
            &&& n > 0 ==> asked.len() > 0
        },
    decreases n,
{
    if n > 0 {
        requested_tools_are_asked_for_once(tools, n - 1);
        let tool = tools[n - 1];
        lemma_namespace(tool);
        if requested_tools(tools, n) is Ok {
            let before = requested_tools(tools, n - 1)->Ok_0;
            let asked = requested_tools(tools, n)->Ok_0;
            assert(tools.contains(tool));
            if !before.contains(tool) {
                assert(asked[asked.len() - 1] == tool);
                assert(asked.no_duplicates()) by {
                    assert forall|a: int, b: int|
                        0 <= a < asked.len() && 0 <= b < asked.len() && a != b implies asked[a]
                        != asked[b] by {
                        if a < before.len() && b < before.len() {
                            assert(before[a] != before[b]);
                        } else if a < before.len() {
                            assert(before.contains(before[a]));
                        } else {
                            assert(before.contains(before[b]));
                        }
                    }
                }
            }
            assert forall|i: int| 0 <= i < n implies asked.contains(#[trigger] tools[i]) by {
                if i < n - 1 {
                    assert(before.contains(tools[i]));
                    let k = choose|k: int| 0 <= k < before.len() && before[k] == tools[i];
                    assert(asked[k] == tools[i]);
                } else if before.contains(tool) {
                    let k = choose|k: int| 0 <= k < before.len() && before[k] == tool;
                    assert(asked[k] == tool);
                }
            }
            assert forall|k: int| 0 <= k < asked.len() implies tools.contains(
                #[trigger] asked[k],
            ) by {
                if k < before.len() {
                    assert(before[k] == asked[k]);
                }
            }
        }
    }
}

/// Effects are refused exactly where one of them has no qualified name, and the
/// first such one is told; of inputs only the screen capture is sensitive.
pub proof fn bad_names_are_told(names: Seq<Seq<char>>, n: int)
    requires
        0 <= n <= names.len(),
    ensures
        first_bad_effect(names, n) is None <==> forall|i: int|
            0 <= i < n ==> is_qualified(#[trigger] names[i]),
        first_bad_effect(names, n) matches Some(name) ==> !is_qualified(name) && names.contains(
            name,
        ),
        first_bad_input(names, n) is None <==> forall|i: int|
            0 <= i < n ==> #[trigger] names[i] == "screen_capture"@,
        first_bad_input(names, n) matches Some(name) ==> name != "screen_capture"@
            && names.contains(name),
    decreases n,
{
    if n > 0 {
        bad_names_are_told(names, n - 1);
        assert(names.contains(names[n - 1]));
    }
}

/// A permission is for writing at most and for one turn, unless something else
/// is asked for.
pub proof fn permissions_are_small_unless_asked(kind: OperationKind, duration: PermissionDuration)
    ensures
        kind_of(None) == OperationKind::Write,
        kind_of(Some(kind)) == kind,
        duration_of(None) == PermissionDuration::OneTurn,
        duration_of(Some(duration)) == duration,
{
}

// ---------------------------------------------------------------------------
// Artifacts
// ---------------------------------------------------------------------------

/// The artifact that a path belongs to is the longest registered path that it
/// lies at or below; a path below none belongs to none.
pub proof fn paths_belong_to_the_nearest_artifact(
    registered: Seq<RepoPath>,
    path: Seq<Seq<char>>,
    n: int,
)
    requires
        0 <= n <= registered.len(),
    ensures
        match protecting(registered, path, n) {
            Some(prefix) => {
                &&& exists|i: int| 0 <= i < n && (#[trigger] registered[i])@ == prefix
                &&& prefix.len() <= path.len() && path.take(prefix.len() as int) == prefix
                &&& forall|i: int|
                    0 <= i < n && lies_below(path, (#[trigger] registered[i])@)
                        ==> registered[i]@.len() <= prefix.len()
            },
            None => forall|i: int| 0 <= i < n ==> !lies_below(path, (#[trigger] registered[i])@),
        },
    decreases n,
{
    if n > 0 {
        paths_belong_to_the_nearest_artifact(registered, path, n - 1);
        assert(registered[n - 1]@ == registered[n - 1]@);
        if let Some(prefix) = protecting(registered, path, n - 1) {
            let i = choose|i: int| 0 <= i < n - 1 && (#[trigger] registered[i])@ == prefix;
            assert(registered[i]@ == prefix);
        }
    }
}

/// A path lies below another where it begins with its segments.
pub proof fn lying_below_is_beginning_with(
    prefix: Seq<Seq<char>>,
    rest: Seq<Seq<char>>,
    path: Seq<Seq<char>>,
)
    ensures
        lies_below(prefix + rest, prefix),
        lies_below(path, prefix) ==> exists|more: Seq<Seq<char>>| path == #[trigger] (prefix + more),
{
    assert((prefix + rest).take(prefix.len() as int) =~= prefix);
    if lies_below(path, prefix) {
        let more = path.skip(prefix.len() as int);
        assert(path =~= prefix + more);
    }
}

proof fn lemma_route(routes: Seq<ArtifactRoute>, path: Seq<Seq<char>>, n: int)
    requires
        0 <= n <= routes.len(),
    ensures
        match route_to(routes, path, n) {
            Some(route) => exists|i: int|
                0 <= i < n && (#[trigger] routes[i]) == route && route.path@ == path && forall|k: int|
                    0 <= k < i ==> (#[trigger] routes[k]).path@ != path,
            None => forall|i: int| 0 <= i < n ==> (#[trigger] routes[i]).path@ != path,
        },
    decreases n,
{
    if n > 0 {
        lemma_route(routes, path, n - 1);
        if route_to(routes, path, n - 1) is None && routes[n - 1].path@ == path {
            assert(routes[n - 1] == route_to(routes, path, n)->Some_0);
        }
    }
}

/// A path may be used exactly when it belongs to no artifact, or to one that is
/// bound and does not deny that use.
pub proof fn artifacts_decide_over_their_paths(
    routes: ArtifactRoutes,
    path: Seq<Seq<char>>,
    access: ArtifactAccess,
)
    ensures
        routes.owner(path) is None ==> routes.access_failure(path, access) is None,
        routes.owner(path) matches Some(prefix) ==> {
            &&& (forall|i: int|
                0 <= i < routes.routes@.len() ==> (#[trigger] routes.routes@[i]).path@ != prefix)
                ==> routes.access_failure(path, access) is Some
            &&& forall|i: int|
                0 <= i < routes.routes@.len() && (#[trigger] routes.routes@[i]).path@ == prefix && (
                forall|k: int| 0 <= k < i ==> (#[trigger] routes.routes@[k]).path@ != prefix) ==> (
                routes.access_failure(path, access) is None <==> match access {
                    ArtifactAccess::ReadTree => routes.routes@[i].read_denial is None,
                    ArtifactAccess::MutateTree => routes.routes@[i].mutate_denial is None,
                })
        },
{
    if let Some(prefix) = routes.owner(path) {
        lemma_route(routes.routes@, prefix, routes.routes@.len() as int);
        if let Some(route) = route_to(routes.routes@, prefix, routes.routes@.len() as int) {
            let j = choose|j: int|
                0 <= j < routes.routes@.len() && (#[trigger] routes.routes@[j]) == route
                    && route.path@ == prefix && forall|k: int|
                    0 <= k < j ==> (#[trigger] routes.routes@[k]).path@ != prefix;
            assert forall|i: int|
                0 <= i < routes.routes@.len() && (#[trigger] routes.routes@[i]).path@ == prefix && (
                forall|k: int|
                    0 <= k < i ==> (#[trigger] routes.routes@[k]).path@ != prefix) implies i == j by {
                if i < j {
                    assert(routes.routes@[i].path@ != prefix);
                } else if j < i {
                    assert(routes.routes@[j].path@ != prefix);
                }
            }
        }
    }
}

proof fn lemma_space(s: Seq<char>, from: int, at: int)
    requires
        0 <= from <= at < s.len(),
        is_whitespace(s[at]),
        forall|i: int| from <= i < at ==> !is_whitespace(#[trigger] s[i]),
    ensures
        cut_at_space(s, from) == Some((s.subrange(0, at), after(s, at + 1))),
    decreases at - from,
{
    if from < at {
        assert(!is_whitespace(s[from]));
        lemma_space(s, from + 1, at);
    }
}

/// A line `submodule.<name>.path <path>` registers that name for that path.
pub proof fn registrations_are_read(name: Seq<char>, path: Seq<char>)
    requires
        forall|i: int| 0 <= i < name.len() ==> !is_whitespace(#[trigger] name[i]),
    ensures
        registration("submodule."@ + name + ".path"@ + seq![' '] + path) == Ok::<
            (Seq<char>, Seq<char>),
            &'static str,
        >((name, trimmed(path))),
{
    reveal_strlit("submodule.");
    reveal_strlit(".path");
    let key = "submodule."@ + name + ".path"@;
    let line = key + seq![' '] + path;
    let n = key.len() as int;
    assert forall|i: int| 0 <= i < n implies !is_whitespace(#[trigger] line[i]) by {
        let a = "submodule."@.len() as int;
        assert(line[i] == key[i]);
        if i < a {
            assert(key[i] == "submodule."@[i]);
        } else if i < a + name.len() {
            assert(key[i] == name[i - a]);
        } else {
            assert(key[i] == ".path"@[i - a - name.len()]);
        }
    }
    assert(line[n] == ' ');
    lemma_space(line, 0, n);
    assert(line.subrange(0, n) =~= key);
    assert(after(line, n + 1) =~= path);
    let a = "submodule."@.len() as int;
    assert(key.subrange(0, a) =~= "submodule."@);
    let rest = after(key, a);
    assert(rest =~= name + ".path"@);
    assert(rest.subrange(rest.len() - 5, rest.len() as int) =~= ".path"@);
    assert(rest.subrange(0, rest.len() - 5) =~= name);
}

// ---------------------------------------------------------------------------
// Executions in the foreground
// ---------------------------------------------------------------------------

/// An execution that has not ended is looked at again, or stopped where the
/// call was cancelled or is over its time; one that has ended is compared with
/// what it began with, over a copy, and otherwise read.
pub proof fn executions_are_watched(
    state: ForegroundAbs,
    ended: bool,
    exit_code: Option<i32>,
    cancelled: bool,
    expired: bool,
)
    requires
        state.step == ForegroundStep::Start || state.step == ForegroundStep::Poll,
    ensures
        ({
            let next = continued(
                state,
                EventAbs::Seen { ended, exit_code, cancelled, expired },
            );
            &&& next.failure == state.failure
            &&& next.diff == state.diff
            &&& next.over_copy == state.over_copy
            &&& ended ==> next.exit_code == exit_code && next.step == if state.over_copy {
                ForegroundStep::Compare
            } else {
                ForegroundStep::Read
            }
            &&& !ended && (cancelled || expired) ==> next.step == ForegroundStep::Terminate
            &&& !ended && !cancelled && !expired ==> next.step == ForegroundStep::Poll
        }),
{
}

/// What a shell changed in its copy is applied where the shell succeeded and
/// changed something; then, and otherwise at once, its output is read, and the
/// call is over. What is refused, rejected or fails ends the call with that.
pub proof fn copies_are_applied_after_success(state: ForegroundAbs, diff: DiffAbs, error: Seq<char>)
    ensures
        state.step == ForegroundStep::Compare ==> ({
            let next = continued(state, EventAbs::Compared(diff));
            &&& next.diff == Some(diff)
            &&& next.exit_code == state.exit_code
            &&& next.failure == state.failure
            &&& next.step == if state.exit_code == Some(0i32) && diff.operations.len() > 0 {
                ForegroundStep::Apply
            } else {
                ForegroundStep::Read
            }
        }),
        state.step == ForegroundStep::Apply ==> continued(state, EventAbs::Applied)
            == (ForegroundAbs { step: ForegroundStep::Read, ..state }),
        state.step == ForegroundStep::Read ==> continued(state, EventAbs::OutputRead)
            == (ForegroundAbs { step: ForegroundStep::Finished, ..state }),
        (state.step == ForegroundStep::Read || state.step == ForegroundStep::Poll || state.step
            == ForegroundStep::Start || state.step == ForegroundStep::Compare || state.step
            == ForegroundStep::Terminate) ==> ({
            let next = continued(state, EventAbs::Failed(error));
            &&& next.step == ForegroundStep::Finished
            &&& next.failure == Some(FailureAbs::Execution(error))
        }),
        state.step == ForegroundStep::Terminate ==> ({
            &&& continued(state, EventAbs::Terminated { cancelled: true }).failure == Some(
                FailureAbs::Execution("tool execution was cancelled"@),
            )
            &&& continued(state, EventAbs::Terminated { cancelled: false }).failure == Some(
                FailureAbs::Execution("tool execution deadline elapsed"@),
            )
            &&& continued(state, EventAbs::Terminated { cancelled: true }).step
                == ForegroundStep::Finished
        }),
{
}

// ---------------------------------------------------------------------------
// Exports
// ---------------------------------------------------------------------------

/// As many lines are exported as fit, and the next one does not fit.
pub proof fn exports_are_as_long_as_they_may(lines: Seq<Seq<char>>, limit: int, from: int)
    requires
        0 <= from <= lines.len(),
        from == 0 || line_bytes(lines, from) <= limit,
    ensures
        ({
            let count = lines_within(lines, limit, from);
            &&& from <= count <= lines.len()
            &&& count > 0 ==> line_bytes(lines, count) <= limit
            &&& count < lines.len() ==> line_bytes(lines, count + 1) > limit
        }),
    decreases lines.len() - from,
{
    if from < lines.len() && line_bytes(lines, from + 1) <= limit {
        exports_are_as_long_as_they_may(lines, limit, from + 1);
    }
}

/// A line takes its bytes and its line feed.
pub proof fn lines_take_their_bytes(lines: Seq<Seq<char>>, n: int)
    requires
        0 <= n < lines.len(),
    ensures
        line_bytes(lines, 0) == 0,
        line_bytes(lines, n + 1) == line_bytes(lines, n) + vstd::utf8::encode_utf8(lines[n]).len()
            + 1,
{
}

/// The records of an export are those of its lines, in their order; one line
/// that is no JSON spoils them all.
pub proof fn records_are_those_of_the_lines(lines: Seq<Seq<char>>, n: int)
    requires
        0 <= n <= lines.len(),
    ensures
        records_in(lines, n) is Some <==> forall|i: int|
            0 <= i < n ==> json_in(#[trigger] lines[i]) is Some,
        records_in(lines, n) matches Some(records) ==> records.len() == n && forall|i: int|
            0 <= i < n ==> Some(#[trigger] records[i]) == json_in(lines[i]),
    decreases n,
{
    if n > 0 {
        records_are_those_of_the_lines(lines, n - 1);
    }
}

} // verus!
