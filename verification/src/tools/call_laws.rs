//! What calls of tools are told, refused and limited by, and the order of
//! paths.

use vstd::prelude::*;
use vstd::string::*;
use vstd::utf8::*;

use super::descriptor::{all_mappings, recoverable_mappings, tool_mappings, MappingAbs, ToolAbs};
use super::matrix::{self, outbox_limit, OutboxStatus, QueuedNotification};
use super::path_order::path_precedes;
use super::process::{
    answer_in, authorization_failure, profile_of, terminal_size, text_failure, ExecutionIo,
    ExecutionProfile, TerminalSize,
};
use super::repo::{commit_effects, commit_failure, commit_identity, CommitProbe};
use super::terminal::{candidate_abs, root_candidates, RootCandidate};
use crate::json::{child_of, JsonAbs};
use crate::text::precedes;

verus! {

// ---------------------------------------------------------------------------
// Paths
// ---------------------------------------------------------------------------

/// Paths are ordered by the first segment in which they differ; a path stands
/// before what lies below it.
pub proof fn the_first_segment_that_differs_decides(
    a: Seq<Seq<char>>,
    b: Seq<Seq<char>>,
    k: int,
)
    requires
        0 <= k <= a.len(),
        k <= b.len(),
        forall|i: int| 0 <= i < k ==> #[trigger] a[i] == b[i],
    ensures
        k < a.len() && k < b.len() && a[k] != b[k] ==> path_precedes(a, b) == precedes(a[k], b[k]),
        k == a.len() < b.len() ==> path_precedes(a, b),
        k == b.len() ==> !path_precedes(a, b),
    decreases k,
{
    if k > 0 {
        let c = a.drop_first();
        let d = b.drop_first();
        assert(a[0] == b[0]);
        assert forall|i: int| 0 <= i < k - 1 implies #[trigger] c[i] == d[i] by {
            assert(a[i + 1] == b[i + 1]);
        }
        the_first_segment_that_differs_decides(c, d, k - 1);
    }
}

/// The directories of a root are looked into behind those of the roots before
/// it: the root itself where it is named `bin`, then the `bin` in it.
pub proof fn roots_are_looked_into_in_order(roots: Seq<RootCandidate>, root: RootCandidate)
    ensures
        root_candidates(Seq::empty(), 0).len() == 0,
        ({
            let before = root_candidates(roots, roots.len() as int);
            let all = root_candidates(roots.push(root), roots.len() as int + 1);
            let named = root.root.path@.len() > 0 && root.root.path@[root.root.path@.len() - 1]
                == "bin"@;
            &&& named && root.bin is Some ==> all == before.push(candidate_abs(root.root)).push(
                candidate_abs(root.bin->Some_0),
            )
            &&& named && root.bin is None ==> all == before.push(candidate_abs(root.root))
            &&& !named && root.bin is Some ==> all == before.push(
                candidate_abs(root.bin->Some_0),
            )
            &&& !named && root.bin is None ==> all == before
        }),
{
    let more = roots.push(root);
    lemma_roots(roots, more, roots.len() as int);
    let before = root_candidates(roots, roots.len() as int);
    let all = root_candidates(more, roots.len() as int + 1);
    let named = root.root.path@.len() > 0 && root.root.path@[root.root.path@.len() - 1] == "bin"@;
    assert(more[roots.len() as int] == root);
    if named && root.bin is Some {
        assert(all =~= before.push(candidate_abs(root.root)).push(
            candidate_abs(root.bin->Some_0),
        ));
    } else if named {
        assert(all =~= before.push(candidate_abs(root.root)));
    } else if root.bin is Some {
        assert(all =~= before.push(candidate_abs(root.bin->Some_0)));
    } else {
        assert(all =~= before);
    }
}

proof fn lemma_roots(roots: Seq<RootCandidate>, more: Seq<RootCandidate>, n: int)
    requires
        0 <= n <= roots.len() <= more.len(),
        forall|i: int| 0 <= i < roots.len() ==> #[trigger] more[i] == roots[i],
    ensures
        root_candidates(more, n) == root_candidates(roots, n),
    decreases n,
{
    if n > 0 {
        lemma_roots(roots, more, n - 1);
        assert(more[n - 1] == roots[n - 1]);
    }
}

// ---------------------------------------------------------------------------
// Declarations
// ---------------------------------------------------------------------------

/// Of a tool its outcomes are observed and the errors after which a caller can
/// go on, and nothing else.
pub proof fn outcomes_and_recoverable_errors_are_observed(
    tool: ToolAbs,
    outcomes: Seq<Seq<char>>,
)
    ensures
        forall|i: int|
            0 <= i < outcomes.len() ==> tool_mappings(tool, outcomes)[i] == (MappingAbs {
                tool_id: tool.id,
                code: #[trigger] outcomes[i],
            }),
        forall|k: int|
            0 <= k < tool.errors.len() && (#[trigger] tool.errors[k]).class is Recoverable
                ==> tool_mappings(tool, outcomes).contains(
                MappingAbs { tool_id: tool.id, code: tool.errors[k].code@ },
            ),
        forall|m: int|
            outcomes.len() <= m < tool_mappings(tool, outcomes).len() ==> is_recoverable_error(
                tool,
                #[trigger] tool_mappings(tool, outcomes)[m],
            ),
{
    let rest = recoverable_mappings(tool.id, tool.errors, tool.errors.len() as int);
    let all = tool_mappings(tool, outcomes);
    lemma_recoverable(tool, tool.errors.len() as int);
    assert forall|k: int|
        0 <= k < tool.errors.len() && (#[trigger] tool.errors[k]).class
            is Recoverable implies all.contains(
        MappingAbs { tool_id: tool.id, code: tool.errors[k].code@ },
    ) by {
        let wanted = MappingAbs { tool_id: tool.id, code: tool.errors[k].code@ };
        assert(rest.contains(wanted));
        let m = choose|m: int| 0 <= m < rest.len() && rest[m] == wanted;
        assert(all[outcomes.len() + m] == wanted);
    }
    assert forall|m: int| outcomes.len() <= m < all.len() implies is_recoverable_error(
        tool,
        #[trigger] all[m],
    ) by {
        assert(all[m] == rest[m - outcomes.len()]);
    }
}

/// Whether a mapping is of an error of the tool after which a caller can go on.
pub open spec fn is_recoverable_error(tool: ToolAbs, mapping: MappingAbs) -> bool {
    mapping.tool_id == tool.id && exists|k: int|
        0 <= k < tool.errors.len() && (#[trigger] tool.errors[k]).class is Recoverable
            && tool.errors[k].code@ == mapping.code
}

proof fn lemma_recoverable(tool: ToolAbs, n: int)
    requires
        0 <= n <= tool.errors.len(),
    ensures
        forall|k: int|
            0 <= k < n && (#[trigger] tool.errors[k]).class is Recoverable
                ==> recoverable_mappings(tool.id, tool.errors, n).contains(
                MappingAbs { tool_id: tool.id, code: tool.errors[k].code@ },
            ),
        forall|m: int|
            0 <= m < recoverable_mappings(tool.id, tool.errors, n).len() ==> is_recoverable_error(
                tool,
                #[trigger] recoverable_mappings(tool.id, tool.errors, n)[m],
            ),
    decreases n,
{
    if n > 0 {
        lemma_recoverable(tool, n - 1);
        let before = recoverable_mappings(tool.id, tool.errors, n - 1);
        let now = recoverable_mappings(tool.id, tool.errors, n);
        assert forall|k: int|
            0 <= k < n && (#[trigger] tool.errors[k]).class is Recoverable implies now.contains(
            MappingAbs { tool_id: tool.id, code: tool.errors[k].code@ },
        ) by {
            let wanted = MappingAbs { tool_id: tool.id, code: tool.errors[k].code@ };
            if k < n - 1 {
                assert(before.contains(wanted));
                let m = choose|m: int| 0 <= m < before.len() && before[m] == wanted;
                assert(now[m] == wanted);
            } else {
                assert(now[now.len() - 1] == wanted);
            }
        }
        assert forall|m: int| 0 <= m < now.len() implies is_recoverable_error(
            tool,
            #[trigger] now[m],
        ) by {
            if m < before.len() {
                assert(now[m] == before[m]);
            } else {
                assert(tool.errors[n - 1].class is Recoverable);
            }
        }
    }
}

/// What is observed of an extension is what is observed of its tools, one behind
/// the other.
pub proof fn tools_are_observed_in_order(
    tools: Seq<ToolAbs>,
    tool: ToolAbs,
    outcomes: spec_fn(int) -> Seq<Seq<char>>,
)
    ensures
        all_mappings(Seq::empty(), outcomes, 0).len() == 0,
        all_mappings(tools.push(tool), outcomes, tools.len() as int + 1) == all_mappings(
            tools,
            outcomes,
            tools.len() as int,
        ) + tool_mappings(tool, outcomes(tools.len() as int)),
{
    lemma_mappings(tools, tools.push(tool), outcomes, tools.len() as int);
    assert(tools.push(tool)[tools.len() as int] == tool);
}

proof fn lemma_mappings(
    tools: Seq<ToolAbs>,
    more: Seq<ToolAbs>,
    outcomes: spec_fn(int) -> Seq<Seq<char>>,
    n: int,
)
    requires
        0 <= n <= tools.len() <= more.len(),
        forall|i: int| 0 <= i < tools.len() ==> #[trigger] more[i] == tools[i],
    ensures
        all_mappings(more, outcomes, n) == all_mappings(tools, outcomes, n),
    decreases n,
{
    if n > 0 {
        lemma_mappings(tools, more, outcomes, n - 1);
        assert(more[n - 1] == tools[n - 1]);
    }
}

// ---------------------------------------------------------------------------
// Calls
// ---------------------------------------------------------------------------

/// A text is accepted exactly when it is not empty, unless it may be, holds no
/// NUL, and is not too long.
pub proof fn texts_are_accepted(
    value: Seq<char>,
    label: Seq<char>,
    allow_empty: bool,
    maximum_bytes: usize,
)
    ensures
        text_failure(value, label, allow_empty, maximum_bytes) is None <==> {
            &&& allow_empty || value.len() > 0
            &&& forall|i: int| 0 <= i < value.len() ==> #[trigger] value[i] != '\0'
            &&& encode_utf8(value).len() <= maximum_bytes
        },
{
    if value.contains('\0') {
        let i = choose|i: int| 0 <= i < value.len() && value[i] == '\0';
        assert(value[i] == '\0');
    }
}

/// A process runs in the workspace unless the host is asked for. It may start on
/// the host only where that is admitted and its grant is known, and as a login
/// only where that is admitted.
pub proof fn processes_run_where_they_may(
    host: bool,
    login_authorized: bool,
    profile: Option<ExecutionProfile>,
    login: bool,
    has_provenance: bool,
)
    ensures
        authorization_failure(
            host,
            login_authorized,
            profile_of(profile),
            login,
            has_provenance,
        ) is None <==> {
            &&& profile == Some(ExecutionProfile::Host) ==> host && has_provenance
            &&& login ==> login_authorized
        },
        profile matches Some(asked) ==> profile_of(profile) == asked,
        profile is None ==> profile_of(profile) is Workspace,
{
}

/// Between one and a hundred notifications are told: as many as are asked for,
/// or ten.
pub proof fn notifications_are_limited(requested: Option<usize>)
    ensures
        1 <= outbox_limit(requested) <= 100,
        requested is None ==> outbox_limit(requested) == 10,
        requested matches Some(n) ==> {
            &&& 1 <= n <= 100 ==> outbox_limit(requested) == n
            &&& n == 0 ==> outbox_limit(requested) == 1
            &&& n > 100 ==> outbox_limit(requested) == 100
        },
{
}

/// An answer tells the texts under two of its keys, and the paths under the
/// observed effects. What is missing is not told.
pub proof fn answers_tell_their_texts(json: JsonAbs, text: Seq<char>)
    ensures
        answer_in(json).execution_id == Some(text) <==> child_of(json, "execution_id"@) == Some(
            JsonAbs::Text(text),
        ),
        answer_in(json).working_directory == Some(text) <==> child_of(json, "working_directory"@)
            == Some(JsonAbs::Text(text)),
        child_of(json, "observed_effects"@) is None ==> answer_in(json).workspace_paths.len() == 0,
        child_of(json, "observed_effects"@) matches Some(effects) && child_of(
            effects,
            "workspace_paths"@,
        ) == Some(JsonAbs::Array(seq![JsonAbs::Text(text)])) ==> answer_in(json).workspace_paths
            == seq![text],
{
    let one = seq![JsonAbs::Text(text)];
    assert(super::process::texts_among(one, 0).len() == 0);
    assert(super::process::texts_among(one, 1) =~= seq![text]);
}

// ---------------------------------------------------------------------------
// Commits of artifacts
// ---------------------------------------------------------------------------

/// A commit is made exactly when it has an identity and a correlation, nothing
/// is wrong with the request, the artifact is admitted and may be changed, and
/// there is a store. The identity is that of the step of the run, if there is
/// one.
pub proof fn commits_need_an_identity_and_an_artifact(
    artifacts: Seq<Seq<char>>,
    artifact_id: Seq<char>,
    probe: CommitProbe,
)
    ensures
        commit_failure(artifacts, artifact_id, probe) is None <==> {
            &&& probe.run_step_key is Some || probe.request_id is Some
            &&& probe.has_correlation
            &&& probe.id_fault is None
            &&& exists|i: int| 0 <= i < artifacts.len() && #[trigger] artifacts[i] == artifact_id
            &&& probe.denial is None
            &&& probe.request_fault is None
            &&& probe.has_store
        },
        probe.run_step_key matches Some(key) ==> commit_identity(probe) == Some(key@),
        probe.run_step_key is None && probe.request_id is Some ==> commit_identity(probe) == Some(
            probe.request_id->Some_0@,
        ),
{
}

/// A commit changes the repository of the artifact, at the new commit in it, and
/// the link to it, at the commit of the parent.
pub proof fn commits_change_a_repository_and_its_link(
    artifact_id: Seq<char>,
    child_commit: Seq<char>,
    parent_commit: Seq<char>,
)
    ensures
        ({
            let effects = commit_effects(artifact_id, child_commit, parent_commit);
            &&& effects.len() == 2
            &&& effects[0].effect is ArtifactRepository
            &&& effects[0].scope.contains(("artifact_id"@, artifact_id))
            &&& effects[0].scope.contains(("child_commit"@, child_commit))
            &&& effects[0].scope.len() == 2
            &&& effects[1].effect is RepoGitlink
            &&& effects[1].scope.contains(("artifact_id"@, artifact_id))
            &&& effects[1].scope.contains(("parent_commit"@, parent_commit))
            &&& effects[1].scope.len() == 2
        }),
{
    let effects = commit_effects(artifact_id, child_commit, parent_commit);
    assert(effects[0].scope[0] == ("artifact_id"@, artifact_id));
    assert(effects[0].scope[1] == ("child_commit"@, child_commit));
    assert(effects[1].scope[0] == ("artifact_id"@, artifact_id));
    assert(effects[1].scope[1] == ("parent_commit"@, parent_commit));
}

// ---------------------------------------------------------------------------
// Pages and terminals
// ---------------------------------------------------------------------------

/// The notifications that are told are the first ones, in their order; it is
/// told that there are more exactly when some are missing.
pub proof fn first_notifications_are_told(
    queued: Vec<QueuedNotification>,
    limit: usize,
    told: OutboxStatus,
)
    requires
        call_ensures(matrix::status, (queued, limit), told),
    ensures
        told.notifications@.len() <= limit,
        told.notifications@.len() <= queued@.len(),
        forall|i: int|
            0 <= i < told.notifications@.len() ==> #[trigger] told.notifications@[i] == queued@[i],
        told.truncated <==> told.notifications@.len() < queued@.len(),
        told.truncated ==> told.notifications@.len() == limit,
{
}

/// A terminal has a size and pipes have none: the one that is asked for, or the
/// usual one. A size for pipes is refused, and one that has a fault.
pub proof fn terminals_have_a_size(
    requested: Option<TerminalSize>,
    io: ExecutionIo,
    default: TerminalSize,
    fault: Option<String>,
    told: Result<Option<TerminalSize>, String>,
)
    requires
        call_ensures(terminal_size, (requested, io, default, fault), told),
    ensures
        told is Ok <==> (io is Pty && (requested is None || fault is None)) || (io is Pipes
            && requested is None),
        told is Ok ==> (told->Ok_0 is Some <==> io is Pty),
        told is Ok && requested is Some ==> told->Ok_0 == requested,
        told is Ok && io is Pty && requested is None ==> told->Ok_0 == Some(default),
{
}

} // verus!
