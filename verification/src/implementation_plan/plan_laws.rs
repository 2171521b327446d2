//! What a valid plan is, said of its parts.

use vstd::prelude::*;
use vstd::string::*;
use vstd::utf8::*;

use super::graph::{depends, is_cyclic, is_path};
use super::ids::{workspace_path_failure, PlanItemId, WorkspacePath};
use super::model::{
    Check, Decision, Evidence, ImplementationPlan, ImplementationSlice, ImplementationStep,
    Invariant, OpenDecision, ReadRequirement, SourceKind, SourceRef, Verification,
};
use super::plan::{
    accepted, affected_checks, canonical, implementation_failure, open_decision_checks,
    open_decision_failure, plan_failure, structure_failure, surface_failure, PlanErrorAbs,
};
use super::slices::{
    cover_checks, covered, covers_all, dependency_checks, file_checks, files_failure,
    is_metadata_only, references, satisfied, slice_checks, slice_failure, slice_graph, start_checks,
    start_failure, step_checks, step_dependency_checks, step_failure, step_file_checks, step_graph,
    steps_failure, verification_checks,
};
use super::validation::{
    check_checks, checks_before, conditional_checks, conditional_read_ids, conditions_before,
    decision_checks, dirty_checks, dirty_failure, done_checks, done_failure, evidence_checks,
    first_of, invariant_checks, keys, plan_ids_failure, read_ids, reads_before, reads_failure,
    required_checks, slice_bounds_checks, slice_done_checks, slice_read_checks, source_checks,
    sources_failure, unique_checks, unique_failure, Failure, Keyed,
};
use super::wire::Encoded;
use crate::effect::nests_within;
use crate::json::json_text;
use crate::text::{begins, lowered, trimmed};

verus! {

// ---------------------------------------------------------------------------
// Faults
// ---------------------------------------------------------------------------

/// Nothing is at fault exactly where no item is.
proof fn lemma_all(n: int, check: spec_fn(int) -> Failure)
    ensures
        first_of(n, check) is None <==> forall|i: int| 0 <= i < n ==> (#[trigger] check(i)) is None,
    decreases n,
{
    if n > 0 {
        lemma_all(n - 1, check);
        if forall|i: int| 0 <= i < n ==> (#[trigger] check(i)) is None {
            assert(check(n - 1) is None);
        }
    }
}

/// The IDs of some texts are distinct exactly where none is among those before
/// it.
proof fn lemma_unique(namespace: Seq<char>, ids: Seq<Seq<char>>)
    ensures
        unique_failure(namespace, ids) is None <==> forall|i: int, j: int|
            0 <= i < j < ids.len() ==> #[trigger] ids[i] != #[trigger] ids[j],
{
    let check = unique_checks(namespace, ids);
    lemma_all(ids.len() as int, check);
    if unique_failure(namespace, ids) is None {
        super::validation::unique_ids_are_distinct(namespace, ids);
    }
    if forall|i: int, j: int| 0 <= i < j < ids.len() ==> #[trigger] ids[i] != #[trigger] ids[j] {
        assert forall|i: int| 0 <= i < ids.len() implies (#[trigger] check(i)) is None by {
            if ids.take(i).contains(ids[i]) {
                let k = choose|k: int| 0 <= k < ids.take(i).len() && ids.take(i)[k] == ids[i];
                assert(ids[k] == ids[i]);
            }
        }
    }
}

// ---------------------------------------------------------------------------
// Sources
// ---------------------------------------------------------------------------

/// Whether a source is sound: a file, a test or a configuration is named by a
/// path within the workspace that is not its root, and lines are counted from
/// one, the first not behind the last.
pub open spec fn is_sound_source(source: SourceRef) -> bool {
    &&& (source.kind == SourceKind::File || source.kind == SourceKind::Test || source.kind
        == SourceKind::Config) ==> workspace_path_failure(source.locator@) is None
        && source.locator@ != "."@
    &&& source.line_start != Some(0u32)
    &&& source.line_end != Some(0u32)
    &&& (source.line_start is Some && source.line_end is Some) ==> source.line_start->Some_0
        <= source.line_end->Some_0
}

/// Whether there are between one and 256 sources, all of them sound.
pub open spec fn are_sound_sources(sources: Seq<SourceRef>) -> bool {
    &&& 1 <= sources.len() <= 256
    &&& forall|i: int| 0 <= i < sources.len() ==> is_sound_source(#[trigger] sources[i])
}

proof fn lemma_sources(field: Seq<char>, sources: Seq<SourceRef>)
    ensures
        sources_failure(field, sources) is None <==> are_sound_sources(sources),
{
    let check = source_checks(field, sources);
    lemma_all(sources.len() as int, check);
    if sources_failure(field, sources) is None {
        assert forall|i: int| 0 <= i < sources.len() implies is_sound_source(
            #[trigger] sources[i],
        ) by {
            assert(check(i) is None);
        }
    }
    if are_sound_sources(sources) {
        assert forall|i: int| 0 <= i < sources.len() implies (#[trigger] check(i)) is None by {
            assert(is_sound_source(sources[i]));
        }
    }
}

/// Whether the sources of every check are sound.
pub open spec fn are_sourced_checks(checks: Seq<Check>) -> bool {
    forall|i: int| 0 <= i < checks.len() ==> are_sound_sources((#[trigger] checks[i]).sources@)
}

proof fn lemma_checks(checks: Seq<Check>, field: Seq<char>)
    ensures
        first_of(checks.len() as int, check_checks(checks, field)) is None <==> are_sourced_checks(
            checks,
        ),
{
    let check = check_checks(checks, field);
    lemma_all(checks.len() as int, check);
    assert forall|i: int| 0 <= i < checks.len() implies ((#[trigger] check(i)) is None
        <==> are_sound_sources(checks[i].sources@)) by {
        lemma_sources(field + ".sources"@, checks[i].sources@);
    }
    if are_sourced_checks(checks) {
        assert forall|i: int| 0 <= i < checks.len() implies (#[trigger] check(i)) is None by {
            assert(are_sound_sources(checks[i].sources@));
        }
    }
    if first_of(checks.len() as int, check) is None {
        assert forall|i: int| 0 <= i < checks.len() implies are_sound_sources(
            (#[trigger] checks[i]).sources@,
        ) by {
            assert(check(i) is None);
        }
    }
}

// ---------------------------------------------------------------------------
// The plan without its slices
// ---------------------------------------------------------------------------

/// Whether the parts of a plan beside its slices are sound: every collection
/// holds 256 items at most, there are evidence, slices and acceptance checks,
/// IDs are not used twice in their collection, no dirty path is named twice or
/// is the root, and every statement has sound sources.
pub open spec fn is_sound_frame(plan: ImplementationPlan) -> bool {
    &&& 1 <= plan.evidence@.len() <= 256
    &&& plan.decisions@.len() <= 256
    &&& plan.invariants@.len() <= 256
    &&& 1 <= plan.slices@.len() <= 256
    &&& plan.open_decisions@.len() <= 256
    &&& plan.workspace.dirty_paths@.len() <= 256
    &&& 1 <= plan.objective.acceptance@.len() <= 256
    &&& forall|i: int|
        0 <= i < plan.workspace.dirty_paths@.len() ==> (
        #[trigger] plan.workspace.dirty_paths@[i])@ != "."@
    &&& forall|i: int, j: int|
        0 <= i < j < plan.workspace.dirty_paths@.len() ==> (
        #[trigger] plan.workspace.dirty_paths@[i])@ != (#[trigger] plan.workspace.dirty_paths@[j])@
    &&& forall|i: int, j: int|
        0 <= i < j < plan.evidence@.len() ==> (#[trigger] plan.evidence@[i]).id@ != (
        #[trigger] plan.evidence@[j]).id@
    &&& forall|i: int, j: int|
        0 <= i < j < plan.decisions@.len() ==> (#[trigger] plan.decisions@[i]).id@ != (
        #[trigger] plan.decisions@[j]).id@
    &&& forall|i: int, j: int|
        0 <= i < j < plan.invariants@.len() ==> (#[trigger] plan.invariants@[i]).id@ != (
        #[trigger] plan.invariants@[j]).id@
    &&& forall|i: int, j: int|
        0 <= i < j < plan.slices@.len() ==> (#[trigger] plan.slices@[i]).id@ != (
        #[trigger] plan.slices@[j]).id@
    &&& forall|i: int, j: int|
        0 <= i < j < plan.open_decisions@.len() ==> (#[trigger] plan.open_decisions@[i]).id@ != (
        #[trigger] plan.open_decisions@[j]).id@
    &&& forall|i: int, j: int|
        0 <= i < j < plan.objective.acceptance@.len() ==> (
        #[trigger] plan.objective.acceptance@[i]).id@ != (
        #[trigger] plan.objective.acceptance@[j]).id@
    &&& are_sound_sources(plan.objective.sources@)
    &&& are_sourced_checks(plan.objective.acceptance@)
    &&& forall|i: int|
        0 <= i < plan.evidence@.len() ==> are_sound_sources((#[trigger] plan.evidence@[i]).sources@)
    &&& forall|i: int|
        0 <= i < plan.decisions@.len() ==> are_sound_sources(
            (#[trigger] plan.decisions@[i]).sources@,
        )
    &&& forall|i: int|
        0 <= i < plan.invariants@.len() ==> are_sound_sources(
            (#[trigger] plan.invariants@[i]).sources@,
        )
    &&& forall|i: int| 0 <= i < plan.slices@.len() ==> is_bounded_slice(#[trigger] plan.slices@[i])
}

/// Whether the collections of a slice hold 256 items at most.
pub open spec fn is_bounded_slice(slice: ImplementationSlice) -> bool {
    &&& slice.depends_on@.len() <= 256
    &&& slice.files@.len() <= 256
    &&& slice.required_reads@.len() <= 256
    &&& slice.conditional_reads@.len() <= 256
    &&& slice.start_condition@.len() <= 256
    &&& slice.steps@.len() <= 256
    &&& slice.verification@.len() <= 256
    &&& slice.done_when@.len() <= 256
}

proof fn lemma_keys_apart<T: Keyed>(items: Seq<T>)
    ensures
        (forall|i: int, j: int|
            0 <= i < j < keys(items).len() ==> #[trigger] keys(items)[i] != #[trigger] keys(
                items,
            )[j]) <==> forall|i: int, j: int|
            0 <= i < j < items.len() ==> (#[trigger] items[i]).key() != (#[trigger] items[j]).key(),
{
    let ids = keys(items);
    if forall|i: int, j: int| 0 <= i < j < ids.len() ==> #[trigger] ids[i] != #[trigger] ids[j] {
        assert forall|i: int, j: int| 0 <= i < j < items.len() implies (
        #[trigger] items[i]).key() != (#[trigger] items[j]).key() by {
            assert(ids[i] != ids[j]);
        }
    }
    if forall|i: int, j: int|
        0 <= i < j < items.len() ==> (#[trigger] items[i]).key() != (#[trigger] items[j]).key() {
        assert forall|i: int, j: int| 0 <= i < j < ids.len() implies #[trigger] ids[i]
            != #[trigger] ids[j] by {
            assert(items[i].key() != items[j].key());
        }
    }
}

proof fn lemma_dirty(paths: Seq<WorkspacePath>)
    ensures
        dirty_failure(paths) is None <==> {
            &&& forall|i: int| 0 <= i < paths.len() ==> (#[trigger] paths[i])@ != "."@
            &&& forall|i: int, j: int|
                0 <= i < j < paths.len() ==> (#[trigger] paths[i])@ != (#[trigger] paths[j])@
        },
{
    let ids = keys(paths);
    let check = dirty_checks(ids);
    lemma_all(paths.len() as int, check);
    if dirty_failure(paths) is None {
        assert forall|i: int| 0 <= i < paths.len() implies (#[trigger] paths[i])@ != "."@ by {
            assert(check(i) is None);
            assert(ids[i] == paths[i]@);
        }
        assert forall|i: int, j: int| 0 <= i < j < paths.len() implies (#[trigger] paths[i])@ != (
        #[trigger] paths[j])@ by {
            assert(check(j) is None);
            assert(ids.take(j)[i] == paths[i]@);
            assert(ids[j] == paths[j]@);
        }
    }
    if (forall|i: int| 0 <= i < paths.len() ==> (#[trigger] paths[i])@ != "."@) && forall|
        i: int,
        j: int,
    |
        0 <= i < j < paths.len() ==> (#[trigger] paths[i])@ != (#[trigger] paths[j])@ {
        assert forall|i: int| 0 <= i < paths.len() implies (#[trigger] check(i)) is None by {
            assert(ids[i] == paths[i]@);
            if ids.take(i).contains(ids[i]) {
                let k = choose|k: int| 0 <= k < ids.take(i).len() && ids.take(i)[k] == ids[i];
                assert(paths[k]@ == paths[i]@);
            }
        }
    }
}

proof fn lemma_evidence(items: Seq<Evidence>)
    ensures
        first_of(items.len() as int, evidence_checks(items)) is None <==> forall|i: int|
            0 <= i < items.len() ==> are_sound_sources((#[trigger] items[i]).sources@),
{
    let check = evidence_checks(items);
    lemma_all(items.len() as int, check);
    assert forall|i: int| 0 <= i < items.len() implies ((#[trigger] check(i)) is None
        <==> are_sound_sources(items[i].sources@)) by {
        lemma_sources("evidence.sources"@, items[i].sources@);
    }
    if first_of(items.len() as int, check) is None {
        assert forall|i: int| 0 <= i < items.len() implies are_sound_sources(
            (#[trigger] items[i]).sources@,
        ) by {
            assert(check(i) is None);
        }
    }
}

proof fn lemma_decisions(items: Seq<Decision>)
    ensures
        first_of(items.len() as int, decision_checks(items)) is None <==> forall|i: int|
            0 <= i < items.len() ==> are_sound_sources((#[trigger] items[i]).sources@),
{
    let check = decision_checks(items);
    lemma_all(items.len() as int, check);
    assert forall|i: int| 0 <= i < items.len() implies ((#[trigger] check(i)) is None
        <==> are_sound_sources(items[i].sources@)) by {
        lemma_sources("decision.sources"@, items[i].sources@);
    }
    if first_of(items.len() as int, check) is None {
        assert forall|i: int| 0 <= i < items.len() implies are_sound_sources(
            (#[trigger] items[i]).sources@,
        ) by {
            assert(check(i) is None);
        }
    }
}

proof fn lemma_invariants(items: Seq<Invariant>)
    ensures
        first_of(items.len() as int, invariant_checks(items)) is None <==> forall|i: int|
            0 <= i < items.len() ==> are_sound_sources((#[trigger] items[i]).sources@),
{
    let check = invariant_checks(items);
    lemma_all(items.len() as int, check);
    assert forall|i: int| 0 <= i < items.len() implies ((#[trigger] check(i)) is None
        <==> are_sound_sources(items[i].sources@)) by {
        lemma_sources("invariant.sources"@, items[i].sources@);
    }
    if first_of(items.len() as int, check) is None {
        assert forall|i: int| 0 <= i < items.len() implies are_sound_sources(
            (#[trigger] items[i]).sources@,
        ) by {
            assert(check(i) is None);
        }
    }
}

proof fn lemma_bounded_slices(items: Seq<ImplementationSlice>)
    ensures
        first_of(items.len() as int, slice_bounds_checks(items)) is None <==> forall|i: int|
            0 <= i < items.len() ==> is_bounded_slice(#[trigger] items[i]),
{
    let check = slice_bounds_checks(items);
    lemma_all(items.len() as int, check);
    assert forall|i: int| 0 <= i < items.len() implies ((#[trigger] check(i)) is None
        <==> is_bounded_slice(items[i])) by {}
    if first_of(items.len() as int, check) is None {
        assert forall|i: int| 0 <= i < items.len() implies is_bounded_slice(
            #[trigger] items[i],
        ) by {
            assert(check(i) is None);
        }
    }
}

proof fn lemma_ids(plan: ImplementationPlan)
    ensures
        plan_ids_failure(plan) is None <==> {
            &&& forall|i: int, j: int|
                0 <= i < j < plan.evidence@.len() ==> (#[trigger] plan.evidence@[i]).id@ != (
                #[trigger] plan.evidence@[j]).id@
            &&& forall|i: int, j: int|
                0 <= i < j < plan.decisions@.len() ==> (#[trigger] plan.decisions@[i]).id@ != (
                #[trigger] plan.decisions@[j]).id@
            &&& forall|i: int, j: int|
                0 <= i < j < plan.invariants@.len() ==> (#[trigger] plan.invariants@[i]).id@ != (
                #[trigger] plan.invariants@[j]).id@
            &&& forall|i: int, j: int|
                0 <= i < j < plan.slices@.len() ==> (#[trigger] plan.slices@[i]).id@ != (
                #[trigger] plan.slices@[j]).id@
            &&& forall|i: int, j: int|
                0 <= i < j < plan.open_decisions@.len() ==> (#[trigger] plan.open_decisions@[i]).id@
                    != (#[trigger] plan.open_decisions@[j]).id@
            &&& forall|i: int, j: int|
                0 <= i < j < plan.objective.acceptance@.len() ==> (
                #[trigger] plan.objective.acceptance@[i]).id@ != (
                #[trigger] plan.objective.acceptance@[j]).id@
        },
{
    lemma_unique("evidence"@, keys(plan.evidence@));
    lemma_unique("decisions"@, keys(plan.decisions@));
    lemma_unique("invariants"@, keys(plan.invariants@));
    lemma_unique("slices"@, keys(plan.slices@));
    lemma_unique("open_decisions"@, keys(plan.open_decisions@));
    lemma_unique("acceptance checks"@, keys(plan.objective.acceptance@));
    lemma_keys_apart(plan.evidence@);
    lemma_keys_apart(plan.decisions@);
    lemma_keys_apart(plan.invariants@);
    lemma_keys_apart(plan.slices@);
    lemma_keys_apart(plan.open_decisions@);
    lemma_keys_apart(plan.objective.acceptance@);
}

proof fn lemma_frame(plan: ImplementationPlan)
    ensures
        surface_failure(plan) is None <==> is_sound_frame(plan),
{
    lemma_dirty(plan.workspace.dirty_paths@);
    lemma_bounded_slices(plan.slices@);
    lemma_sources("objective.sources"@, plan.objective.sources@);
    lemma_checks(plan.objective.acceptance@, "objective.acceptance"@);
    lemma_ids(plan);
    lemma_evidence(plan.evidence@);
    lemma_decisions(plan.decisions@);
    lemma_invariants(plan.invariants@);
}

// ---------------------------------------------------------------------------
// Names
// ---------------------------------------------------------------------------

/// Whether a name is that of some evidence.
pub open spec fn names_evidence(plan: ImplementationPlan, name: Seq<char>) -> bool {
    exists|i: int| 0 <= i < plan.evidence@.len() && (#[trigger] plan.evidence@[i]).id@ == name
}

/// Whether a name is that of an invariant.
pub open spec fn names_invariant(plan: ImplementationPlan, name: Seq<char>) -> bool {
    exists|i: int| 0 <= i < plan.invariants@.len() && (#[trigger] plan.invariants@[i]).id@ == name
}

/// Whether a name is that of an acceptance check.
pub open spec fn names_acceptance(plan: ImplementationPlan, name: Seq<char>) -> bool {
    exists|i: int|
        0 <= i < plan.objective.acceptance@.len() && (
        #[trigger] plan.objective.acceptance@[i]).id@ == name
}

/// Whether a name is that of a check that a slice is done by.
pub open spec fn names_done(slice: ImplementationSlice, name: Seq<char>) -> bool {
    exists|i: int| 0 <= i < slice.done_when@.len() && (#[trigger] slice.done_when@[i]).id@ == name
}

/// Whether a name is that of a check: one of the acceptance or one that some
/// slice is done by.
pub open spec fn names_check(plan: ImplementationPlan, name: Seq<char>) -> bool {
    names_acceptance(plan, name) || exists|s: int|
        0 <= s < plan.slices@.len() && names_done(#[trigger] plan.slices@[s], name)
}

/// Whether a name is that of a slice.
pub open spec fn names_slice(plan: ImplementationPlan, name: Seq<char>) -> bool {
    exists|s: int| 0 <= s < plan.slices@.len() && (#[trigger] plan.slices@[s]).id@ == name
}

/// Whether a name is that of a step of a slice.
pub open spec fn names_step(slice: ImplementationSlice, name: Seq<char>) -> bool {
    exists|t: int| 0 <= t < slice.steps@.len() && (#[trigger] slice.steps@[t]).id@ == name
}

/// Whether a slice declares a file.
pub open spec fn declares_file(slice: ImplementationSlice, path: Seq<char>) -> bool {
    exists|f: int| 0 <= f < slice.files@.len() && (#[trigger] slice.files@[f]).path@ == path
}

/// The reads of a slice, the required ones and then the conditional ones.
pub open spec fn read_at(slice: ImplementationSlice, k: int) -> ReadRequirement {
    if k < slice.required_reads@.len() {
        slice.required_reads@[k]
    } else {
        slice.conditional_reads@[k - slice.required_reads@.len()].read
    }
}

pub open spec fn read_count(slice: ImplementationSlice) -> nat {
    slice.required_reads@.len() + slice.conditional_reads@.len()
}

/// Whether a name is that of a read of a slice.
pub open spec fn names_read(slice: ImplementationSlice, name: Seq<char>) -> bool {
    exists|k: int| 0 <= k < read_count(slice) && (#[trigger] read_at(slice, k)).id@ == name
}

proof fn lemma_named<T: Keyed>(items: Seq<T>, name: Seq<char>)
    ensures
        keys(items).contains(name) <==> exists|i: int|
            0 <= i < items.len() && (#[trigger] items[i]).key() == name,
{
    if keys(items).contains(name) {
        let i = choose|i: int| 0 <= i < keys(items).len() && keys(items)[i] == name;
        assert(items[i].key() == name);
    }
    if exists|i: int| 0 <= i < items.len() && (#[trigger] items[i]).key() == name {
        let i = choose|i: int| 0 <= i < items.len() && (#[trigger] items[i]).key() == name;
        assert(keys(items)[i] == name);
    }
}

proof fn lemma_joined(a: Seq<Seq<char>>, b: Seq<Seq<char>>, name: Seq<char>)
    ensures
        (a + b).contains(name) <==> a.contains(name) || b.contains(name),
{
    let s = a + b;
    if s.contains(name) {
        let i = choose|i: int| 0 <= i < s.len() && s[i] == name;
        if i < a.len() {
            assert(a[i] == name);
        } else {
            assert(b[i - a.len()] == name);
        }
    }
    if a.contains(name) {
        let i = choose|i: int| 0 <= i < a.len() && a[i] == name;
        assert(s[i] == name);
    }
    if b.contains(name) {
        let i = choose|i: int| 0 <= i < b.len() && b[i] == name;
        assert(s[a.len() + i] == name);
    }
}

proof fn lemma_checks_before(plan: ImplementationPlan, n: int, name: Seq<char>)
    requires
        0 <= n <= plan.slices@.len(),
    ensures
        checks_before(plan, n).contains(name) <==> names_acceptance(plan, name) || exists|s: int|
            0 <= s < n && names_done(#[trigger] plan.slices@[s], name),
    decreases n,
{
    lemma_named(plan.objective.acceptance@, name);
    if n > 0 {
        lemma_checks_before(plan, n - 1, name);
        let slice = plan.slices@[n - 1];
        lemma_named(slice.done_when@, name);
        lemma_joined(checks_before(plan, n - 1), keys(slice.done_when@), name);
        assert(names_done(slice, name) == keys(slice.done_when@).contains(name));
    }
}

proof fn lemma_read_ids(slice: ImplementationSlice)
    ensures
        read_ids(slice).len() == read_count(slice),
        forall|k: int|
            0 <= k < read_count(slice) ==> #[trigger] read_ids(slice)[k] == read_at(slice, k).id@,
{
}

proof fn lemma_reads_named(slice: ImplementationSlice, name: Seq<char>)
    ensures
        read_ids(slice).contains(name) <==> names_read(slice, name),
{
    lemma_read_ids(slice);
    if read_ids(slice).contains(name) {
        let k = choose|k: int| 0 <= k < read_ids(slice).len() && read_ids(slice)[k] == name;
        assert(read_at(slice, k).id@ == name);
    }
    if names_read(slice, name) {
        let k = choose|k: int|
            0 <= k < read_count(slice) && (#[trigger] read_at(slice, k)).id@ == name;
        assert(read_ids(slice)[k] == name);
    }
}

// ---------------------------------------------------------------------------
// Checks and reads across slices
// ---------------------------------------------------------------------------

/// Whether no check of a slice has the name of another check of the plan.
pub open spec fn has_own_checks(plan: ImplementationPlan, s: int) -> bool {
    let slice = plan.slices@[s];
    &&& forall|i: int, j: int|
        0 <= i < j < slice.done_when@.len() ==> (#[trigger] slice.done_when@[i]).id@ != (
        #[trigger] slice.done_when@[j]).id@
    &&& forall|i: int|
        0 <= i < slice.done_when@.len() ==> !names_acceptance(
            plan,
            (#[trigger] slice.done_when@[i]).id@,
        )
    &&& forall|i: int, t: int|
        0 <= i < slice.done_when@.len() && 0 <= t < s ==> !names_done(
            #[trigger] plan.slices@[t],
            (#[trigger] slice.done_when@[i]).id@,
        )
}

proof fn lemma_own_checks(plan: ImplementationPlan, s: int)
    requires
        0 <= s < plan.slices@.len(),
    ensures
        done_failure(checks_before(plan, s), keys(plan.slices@[s].done_when@)) is None
            <==> has_own_checks(plan, s),
{
    let slice = plan.slices@[s];
    let before = checks_before(plan, s);
    let ids = keys(slice.done_when@);
    let check = done_checks(before, ids);
    lemma_unique("done_when checks"@, ids);
    lemma_keys_apart(slice.done_when@);
    lemma_all(ids.len() as int, check);
    if done_failure(before, ids) is None {
        assert forall|i: int| 0 <= i < ids.len() implies !before.contains(#[trigger] ids[i]) by {
            assert(check(i) is None);
            lemma_joined(before, ids.take(i), ids[i]);
        }
        assert forall|i: int| 0 <= i < slice.done_when@.len() implies !names_acceptance(
            plan,
            (#[trigger] slice.done_when@[i]).id@,
        ) by {
            assert(!before.contains(ids[i]));
            lemma_checks_before(plan, s, ids[i]);
        }
        assert forall|i: int, t: int|
            0 <= i < slice.done_when@.len() && 0 <= t < s implies !names_done(
            #[trigger] plan.slices@[t],
            (#[trigger] slice.done_when@[i]).id@,
        ) by {
            assert(!before.contains(ids[i]));
            lemma_checks_before(plan, s, ids[i]);
        }
    }
    if has_own_checks(plan, s) {
        assert forall|i: int| 0 <= i < ids.len() implies (#[trigger] check(i)) is None by {
            lemma_joined(before, ids.take(i), ids[i]);
            lemma_checks_before(plan, s, ids[i]);
            assert(slice.done_when@[i].id@ == ids[i]);
            if ids.take(i).contains(ids[i]) {
                let k = choose|k: int| 0 <= k < ids.take(i).len() && ids.take(i)[k] == ids[i];
                assert(ids[k] == ids[i]);
                assert(slice.done_when@[k].id@ == slice.done_when@[i].id@);
            }
        }
    }
}

proof fn lemma_reads_before(plan: ImplementationPlan, n: int, name: Seq<char>)
    requires
        0 <= n <= plan.slices@.len(),
    ensures
        reads_before(plan, n).contains(name) <==> exists|s: int|
            0 <= s < n && names_read(#[trigger] plan.slices@[s], name),
    decreases n,
{
    if n > 0 {
        lemma_reads_before(plan, n - 1, name);
        let slice = plan.slices@[n - 1];
        lemma_reads_named(slice, name);
        lemma_joined(reads_before(plan, n - 1), read_ids(slice), name);
    }
}

/// Whether a name is that of a condition under which a slice reads.
pub open spec fn names_condition(slice: ImplementationSlice, name: Seq<char>) -> bool {
    exists|i: int|
        0 <= i < slice.conditional_reads@.len() && (#[trigger] slice.conditional_reads@[i]).id@
            == name
}

proof fn lemma_conditions_before(plan: ImplementationPlan, n: int, name: Seq<char>)
    requires
        0 <= n <= plan.slices@.len(),
    ensures
        conditions_before(plan, n).contains(name) <==> exists|s: int|
            0 <= s < n && names_condition(#[trigger] plan.slices@[s], name),
    decreases n,
{
    if n > 0 {
        lemma_conditions_before(plan, n - 1, name);
        let slice = plan.slices@[n - 1];
        lemma_named(slice.conditional_reads@, name);
        lemma_joined(conditions_before(plan, n - 1), keys(slice.conditional_reads@), name);
        assert(names_condition(slice, name) == keys(slice.conditional_reads@).contains(name));
    }
}

/// Whether a read names 256 places at most, in a file that is not the root.
pub open spec fn is_sound_read(read: ReadRequirement) -> bool {
    read.symbols_or_ranges@.len() <= 256 && read.path@ != "."@
}

/// Whether the reads of a slice are sound, and none of them, and no condition,
/// has the name of another one of the plan.
pub open spec fn has_own_reads(plan: ImplementationPlan, s: int) -> bool {
    let slice = plan.slices@[s];
    &&& forall|k: int| 0 <= k < read_count(slice) ==> is_sound_read(#[trigger] read_at(slice, k))
    &&& forall|k: int, l: int|
        0 <= k < l < read_count(slice) ==> (#[trigger] read_at(slice, k)).id@ != (
        #[trigger] read_at(slice, l)).id@
    &&& forall|k: int, t: int|
        0 <= k < read_count(slice) && 0 <= t < s ==> !names_read(
            #[trigger] plan.slices@[t],
            (#[trigger] read_at(slice, k)).id@,
        )
    &&& forall|i: int, j: int|
        0 <= i < j < slice.conditional_reads@.len() ==> (#[trigger] slice.conditional_reads@[i]).id@
            != (#[trigger] slice.conditional_reads@[j]).id@
    &&& forall|i: int, t: int|
        0 <= i < slice.conditional_reads@.len() && 0 <= t < s ==> !names_condition(
            #[trigger] plan.slices@[t],
            (#[trigger] slice.conditional_reads@[i]).id@,
        )
}

proof fn lemma_own_reads(plan: ImplementationPlan, s: int)
    requires
        0 <= s < plan.slices@.len(),
    ensures
        reads_failure(reads_before(plan, s), conditions_before(plan, s), plan.slices@[s]) is None
            <==> has_own_reads(plan, s),
{
    let slice = plan.slices@[s];
    let before = reads_before(plan, s);
    let conditions = conditions_before(plan, s);
    let required = slice.required_reads@;
    let conditional = slice.conditional_reads@;
    let r = required.len() as int;
    let first = required_checks(before, required);
    let later = before + keys(required);
    let second = conditional_checks(later, conditions, conditional);
    let inner = conditional_read_ids(conditional);
    lemma_all(r, first);
    lemma_all(conditional.len() as int, second);
    if reads_failure(before, conditions, slice) is None {
        assert forall|k: int| 0 <= k < read_count(slice) implies is_sound_read(
            #[trigger] read_at(slice, k),
        ) by {
            if k < r {
                assert(first(k) is None);
            } else {
                assert(second(k - r) is None);
            }
        }
        assert forall|k: int| 0 <= k < read_count(slice) implies !before.contains(
            (#[trigger] read_at(slice, k)).id@,
        ) by {
            if k < r {
                assert(first(k) is None);
                lemma_joined(before, keys(required).take(k), required[k].id@);
            } else {
                assert(second(k - r) is None);
                lemma_joined(later, inner.take(k - r), conditional[k - r].read.id@);
                lemma_joined(before, keys(required), conditional[k - r].read.id@);
            }
        }
        assert forall|k: int, l: int| 0 <= k < l < read_count(slice) implies (
        #[trigger] read_at(slice, k)).id@ != (#[trigger] read_at(slice, l)).id@ by {
            if l < r {
                assert(first(l) is None);
                lemma_joined(before, keys(required).take(l), required[l].id@);
                assert(keys(required).take(l)[k] == required[k].id@);
            } else {
                assert(second(l - r) is None);
                lemma_joined(later, inner.take(l - r), conditional[l - r].read.id@);
                lemma_joined(before, keys(required), conditional[l - r].read.id@);
                if k < r {
                    assert(keys(required)[k] == required[k].id@);
                } else {
                    assert(inner.take(l - r)[k - r] == conditional[k - r].read.id@);
                }
            }
        }
        assert forall|k: int, t: int| 0 <= k < read_count(slice) && 0 <= t < s implies !names_read(
            #[trigger] plan.slices@[t],
            (#[trigger] read_at(slice, k)).id@,
        ) by {
            lemma_reads_before(plan, s, read_at(slice, k).id@);
        }
        assert forall|i: int, j: int| 0 <= i < j < conditional.len() implies (
        #[trigger] conditional[i]).id@ != (#[trigger] conditional[j]).id@ by {
            assert(second(j) is None);
            lemma_joined(conditions, keys(conditional).take(j), conditional[j].id@);
            assert(keys(conditional).take(j)[i] == conditional[i].id@);
        }
        assert forall|i: int, t: int|
            0 <= i < conditional.len() && 0 <= t < s implies !names_condition(
            #[trigger] plan.slices@[t],
            (#[trigger] conditional[i]).id@,
        ) by {
            assert(second(i) is None);
            lemma_joined(conditions, keys(conditional).take(i), conditional[i].id@);
            lemma_conditions_before(plan, s, conditional[i].id@);
        }
    }
    if has_own_reads(plan, s) {
        assert forall|i: int| 0 <= i < r implies (#[trigger] first(i)) is None by {
            assert(read_at(slice, i) == required[i]);
            assert(is_sound_read(read_at(slice, i)));
            lemma_joined(before, keys(required).take(i), required[i].id@);
            lemma_reads_before(plan, s, required[i].id@);
            if keys(required).take(i).contains(required[i].id@) {
                let k = choose|k: int|
                    0 <= k < keys(required).take(i).len() && keys(required).take(i)[k]
                        == required[i].id@;
                assert(read_at(slice, k).id@ == required[k].id@);
            }
        }
        assert forall|i: int| 0 <= i < conditional.len() implies (#[trigger] second(i)) is None by {
            assert(read_at(slice, r + i) == conditional[i].read);
            assert(is_sound_read(read_at(slice, r + i)));
            lemma_joined(conditions, keys(conditional).take(i), conditional[i].id@);
            lemma_conditions_before(plan, s, conditional[i].id@);
            if keys(conditional).take(i).contains(conditional[i].id@) {
                let k = choose|k: int|
                    0 <= k < keys(conditional).take(i).len() && keys(conditional).take(i)[k]
                        == conditional[i].id@;
                assert(conditional[k].id@ == conditional[i].id@);
            }
            let id = conditional[i].read.id@;
            lemma_joined(later, inner.take(i), id);
            lemma_joined(before, keys(required), id);
            lemma_reads_before(plan, s, id);
            if keys(required).contains(id) {
                let k = choose|k: int| 0 <= k < keys(required).len() && keys(required)[k] == id;
                assert(read_at(slice, k).id@ == id);
            }
            if inner.take(i).contains(id) {
                let k = choose|k: int| 0 <= k < inner.take(i).len() && inner.take(i)[k] == id;
                assert(read_at(slice, r + k).id@ == id);
            }
        }
    }
}

// ---------------------------------------------------------------------------
// A slice
// ---------------------------------------------------------------------------

/// Whether a reference names an invariant or a check, and not both.
pub open spec fn is_clear(plan: ImplementationPlan, name: Seq<char>) -> bool {
    names_invariant(plan, name) != names_check(plan, name)
}

/// Whether all of some references are clear.
pub open spec fn are_clear(plan: ImplementationPlan, items: Seq<PlanItemId>) -> bool {
    forall|i: int| 0 <= i < items.len() ==> is_clear(plan, (#[trigger] items[i])@)
}

proof fn lemma_clear(plan: ImplementationPlan, items: Seq<PlanItemId>, field: Seq<char>)
    ensures
        first_of(items.len() as int, cover_checks(plan, items, field)) is None <==> are_clear(
            plan,
            items,
        ),
{
    let check = cover_checks(plan, items, field);
    lemma_all(items.len() as int, check);
    assert forall|i: int| 0 <= i < items.len() implies ((#[trigger] check(i)) is None <==> is_clear(
        plan,
        items[i]@,
    )) by {
        lemma_named(plan.invariants@, items[i]@);
        lemma_checks_before(plan, plan.slices@.len() as int, items[i]@);
    }
    if first_of(items.len() as int, check) is None {
        assert forall|i: int| 0 <= i < items.len() implies is_clear(plan, (#[trigger] items[i])@) by {
            assert(check(i) is None);
        }
    }
}

/// Whether a step is sound in its slice: it names between one and 256 files,
/// all of them declared and none of them the root, depends on steps of the
/// slice, and what it satisfies is clear.
pub open spec fn is_sound_step(
    plan: ImplementationPlan,
    slice: ImplementationSlice,
    step: ImplementationStep,
) -> bool {
    &&& 1 <= step.files@.len() <= 256
    &&& step.symbols@.len() <= 256
    &&& step.depends_on@.len() <= 256
    &&& step.satisfies@.len() <= 256
    &&& forall|i: int|
        0 <= i < step.files@.len() ==> (#[trigger] step.files@[i])@ != "."@ && declares_file(
            slice,
            step.files@[i]@,
        )
    &&& forall|i: int|
        0 <= i < step.depends_on@.len() ==> names_step(slice, (#[trigger] step.depends_on@[i])@)
    &&& are_clear(plan, step.satisfies@)
}

proof fn lemma_step(plan: ImplementationPlan, slice: ImplementationSlice, step: ImplementationStep)
    ensures
        step_failure(plan, slice, step) is None <==> is_sound_step(plan, slice, step),
{
    let files = step_file_checks(slice, step);
    let dependencies = step_dependency_checks(slice, step);
    lemma_all(step.files@.len() as int, files);
    lemma_all(step.depends_on@.len() as int, dependencies);
    lemma_clear(plan, step.satisfies@, "step"@);
    assert forall|i: int| 0 <= i < step.files@.len() implies ((#[trigger] files(i)) is None
        <==> step.files@[i]@ != "."@ && declares_file(slice, step.files@[i]@)) by {
        lemma_named(slice.files@, step.files@[i]@);
    }
    assert forall|i: int| 0 <= i < step.depends_on@.len() implies ((#[trigger] dependencies(i))
        is None <==> names_step(slice, step.depends_on@[i]@)) by {
        lemma_named(slice.steps@, step.depends_on@[i]@);
    }
    if step_failure(plan, slice, step) is None {
        assert forall|i: int| 0 <= i < step.files@.len() implies (#[trigger] step.files@[i])@
            != "."@ && declares_file(slice, step.files@[i]@) by {
            assert(files(i) is None);
        }
        assert forall|i: int| 0 <= i < step.depends_on@.len() implies names_step(
            slice,
            (#[trigger] step.depends_on@[i])@,
        ) by {
            assert(dependencies(i) is None);
        }
    }
}

/// Whether a verification is sound: its lists hold 256 items at most, and what
/// it covers is clear.
pub open spec fn is_sound_verification(
    plan: ImplementationPlan,
    verification: Verification,
) -> bool {
    &&& verification.covers@.len() <= 256
    &&& verification.expected.stdout_contains@.len() <= 256
    &&& verification.expected.stderr_contains@.len() <= 256
    &&& are_clear(plan, verification.covers@)
}

/// Whether one step depends on another.
pub open spec fn step_depends(
    slice: ImplementationSlice,
    from: Seq<char>,
    to: Seq<char>,
) -> bool {
    exists|t: int, d: int|
        0 <= t < slice.steps@.len() && 0 <= d < slice.steps@[t].depends_on@.len()
            && slice.steps@[t].id@ == from && (#[trigger] slice.steps@[t].depends_on@[d])@ == to
}

/// Whether one slice depends on another.
pub open spec fn slice_depends(plan: ImplementationPlan, from: Seq<char>, to: Seq<char>) -> bool {
    exists|s: int, d: int|
        0 <= s < plan.slices@.len() && 0 <= d < plan.slices@[s].depends_on@.len()
            && plan.slices@[s].id@ == from && (#[trigger] plan.slices@[s].depends_on@[d])@ == to
}

/// Whether a chain of steps, each depending on the next, ends where it began.
pub open spec fn is_step_circle(slice: ImplementationSlice, chain: Seq<Seq<char>>) -> bool {
    &&& chain.len() >= 2
    &&& chain[0] == chain[chain.len() - 1]
    &&& forall|i: int|
        0 <= i < chain.len() - 1 ==> step_depends(slice, #[trigger] chain[i], chain[i + 1])
}

/// Whether a chain of slices, each depending on the next, ends where it began.
pub open spec fn is_slice_circle(plan: ImplementationPlan, chain: Seq<Seq<char>>) -> bool {
    &&& chain.len() >= 2
    &&& chain[0] == chain[chain.len() - 1]
    &&& forall|i: int|
        0 <= i < chain.len() - 1 ==> slice_depends(plan, #[trigger] chain[i], chain[i + 1])
}

proof fn lemma_step_depends(slice: ImplementationSlice, from: Seq<char>, to: Seq<char>)
    ensures
        depends(step_graph(slice), from, to) <==> step_depends(slice, from, to),
{
    let graph = step_graph(slice);
    if depends(graph, from, to) {
        let t = choose|t: int|
            0 <= t < graph.len() && (#[trigger] graph[t]).0 == from && graph[t].1.contains(to);
        let list = graph[t].1;
        let d = choose|d: int| 0 <= d < list.len() && list[d] == to;
        assert(slice.steps@[t].depends_on@[d]@ == to);
    }
    if step_depends(slice, from, to) {
        let (t, d) = choose|t: int, d: int|
            0 <= t < slice.steps@.len() && 0 <= d < slice.steps@[t].depends_on@.len()
                && slice.steps@[t].id@ == from && (#[trigger] slice.steps@[t].depends_on@[d])@
                == to;
        assert(graph[t].1[d] == to);
        assert(graph[t].1.contains(to));
    }
}

proof fn lemma_slice_depends(plan: ImplementationPlan, from: Seq<char>, to: Seq<char>)
    ensures
        depends(slice_graph(plan), from, to) <==> slice_depends(plan, from, to),
{
    let graph = slice_graph(plan);
    if depends(graph, from, to) {
        let t = choose|t: int|
            0 <= t < graph.len() && (#[trigger] graph[t]).0 == from && graph[t].1.contains(to);
        let list = graph[t].1;
        let d = choose|d: int| 0 <= d < list.len() && list[d] == to;
        assert(plan.slices@[t].depends_on@[d]@ == to);
    }
    if slice_depends(plan, from, to) {
        let (t, d) = choose|t: int, d: int|
            0 <= t < plan.slices@.len() && 0 <= d < plan.slices@[t].depends_on@.len()
                && plan.slices@[t].id@ == from && (#[trigger] plan.slices@[t].depends_on@[d])@
                == to;
        assert(graph[t].1[d] == to);
        assert(graph[t].1.contains(to));
    }
}

proof fn lemma_step_circle(slice: ImplementationSlice)
    ensures
        is_cyclic(step_graph(slice)) <==> exists|chain: Seq<Seq<char>>| is_step_circle(slice, chain),
{
    let graph = step_graph(slice);
    if is_cyclic(graph) {
        let chain = choose|path: Seq<Seq<char>>| #[trigger]
            is_path(graph, path) && path.len() >= 2 && path[0] == path.last();
        assert forall|i: int| 0 <= i < chain.len() - 1 implies step_depends(
            slice,
            #[trigger] chain[i],
            chain[i + 1],
        ) by {
            lemma_step_depends(slice, chain[i], chain[i + 1]);
        }
        assert(is_step_circle(slice, chain));
    }
    if exists|chain: Seq<Seq<char>>| is_step_circle(slice, chain) {
        let chain = choose|chain: Seq<Seq<char>>| is_step_circle(slice, chain);
        assert forall|i: int| 0 <= i < chain.len() - 1 implies depends(
            graph,
            #[trigger] chain[i],
            chain[i + 1],
        ) by {
            lemma_step_depends(slice, chain[i], chain[i + 1]);
        }
        assert(is_path(graph, chain));
    }
}

proof fn lemma_slice_circle(plan: ImplementationPlan)
    ensures
        is_cyclic(slice_graph(plan)) <==> exists|chain: Seq<Seq<char>>| is_slice_circle(plan, chain),
{
    let graph = slice_graph(plan);
    if is_cyclic(graph) {
        let chain = choose|path: Seq<Seq<char>>| #[trigger]
            is_path(graph, path) && path.len() >= 2 && path[0] == path.last();
        assert forall|i: int| 0 <= i < chain.len() - 1 implies slice_depends(
            plan,
            #[trigger] chain[i],
            chain[i + 1],
        ) by {
            lemma_slice_depends(plan, chain[i], chain[i + 1]);
        }
        assert(is_slice_circle(plan, chain));
    }
    if exists|chain: Seq<Seq<char>>| is_slice_circle(plan, chain) {
        let chain = choose|chain: Seq<Seq<char>>| is_slice_circle(plan, chain);
        assert forall|i: int| 0 <= i < chain.len() - 1 implies depends(
            graph,
            #[trigger] chain[i],
            chain[i + 1],
        ) by {
            lemma_slice_depends(plan, chain[i], chain[i + 1]);
        }
        assert(is_path(graph, chain));
    }
}

/// Whether a slice is sound in its plan: it depends on slices of the plan,
/// declares files once each, starts on evidence or on reads of its own, has
/// sound steps with names of their own that depend on each other without a
/// circle, and has sound verifications, one of which shows behaviour, and
/// checks that it is done by.
pub open spec fn is_sound_slice(plan: ImplementationPlan, slice: ImplementationSlice) -> bool {
    &&& forall|i: int|
        0 <= i < slice.depends_on@.len() ==> names_slice(plan, (#[trigger] slice.depends_on@[i])@)
    &&& forall|i: int, j: int|
        0 <= i < j < slice.files@.len() ==> (#[trigger] slice.files@[i]).path@ != (
        #[trigger] slice.files@[j]).path@
    &&& forall|i: int|
        0 <= i < slice.files@.len() ==> (#[trigger] slice.files@[i]).path@ != "."@
            && slice.files@[i].symbols@.len() <= 256
    &&& slice.start_condition@.len() > 0
    &&& forall|i: int|
        0 <= i < slice.start_condition@.len() ==> names_evidence(
            plan,
            (#[trigger] slice.start_condition@[i])@,
        ) != names_read(slice, slice.start_condition@[i]@)
    &&& forall|i: int, j: int|
        0 <= i < j < slice.steps@.len() ==> (#[trigger] slice.steps@[i]).id@ != (
        #[trigger] slice.steps@[j]).id@
    &&& forall|i: int|
        0 <= i < slice.steps@.len() ==> is_sound_step(plan, slice, #[trigger] slice.steps@[i])
    &&& slice.steps@.len() > 0
    &&& slice.done_when@.len() > 0
    &&& exists|i: int|
        0 <= i < slice.verification@.len() && !is_metadata_only(
            (#[trigger] slice.verification@[i]).command@,
        )
    &&& are_sourced_checks(slice.done_when@)
    &&& forall|i: int|
        0 <= i < slice.verification@.len() ==> is_sound_verification(
            plan,
            #[trigger] slice.verification@[i],
        )
    &&& forall|chain: Seq<Seq<char>>| !is_step_circle(slice, chain)
}

proof fn lemma_files(slice: ImplementationSlice)
    ensures
        files_failure(slice) is None <==> {
            &&& forall|i: int, j: int|
                0 <= i < j < slice.files@.len() ==> (#[trigger] slice.files@[i]).path@ != (
                #[trigger] slice.files@[j]).path@
            &&& forall|i: int|
                0 <= i < slice.files@.len() ==> (#[trigger] slice.files@[i]).path@ != "."@
                    && slice.files@[i].symbols@.len() <= 256
        },
{
    let check = file_checks(slice.files@);
    lemma_all(slice.files@.len() as int, check);
    lemma_keys_apart(slice.files@);
    assert forall|i: int| 0 <= i < slice.files@.len() implies ((#[trigger] check(i)) is None
        <==> slice.files@[i].path@ != "."@ && slice.files@[i].symbols@.len() <= 256) by {}
    if files_failure(slice) is None {
        assert forall|i: int| 0 <= i < slice.files@.len() implies (
        #[trigger] slice.files@[i]).path@ != "."@ && slice.files@[i].symbols@.len() <= 256 by {
            assert(check(i) is None);
        }
    }
}

proof fn lemma_start(plan: ImplementationPlan, slice: ImplementationSlice)
    ensures
        start_failure(plan, slice) is None <==> {
            &&& slice.start_condition@.len() > 0
            &&& forall|i: int|
                0 <= i < slice.start_condition@.len() ==> names_evidence(
                    plan,
                    (#[trigger] slice.start_condition@[i])@,
                ) != names_read(slice, slice.start_condition@[i]@)
        },
{
    let check = start_checks(plan, slice);
    lemma_all(slice.start_condition@.len() as int, check);
    assert forall|i: int| 0 <= i < slice.start_condition@.len() implies ((#[trigger] check(i))
        is None <==> names_evidence(plan, slice.start_condition@[i]@) != names_read(
        slice,
        slice.start_condition@[i]@,
    )) by {
        lemma_named(plan.evidence@, slice.start_condition@[i]@);
        lemma_reads_named(slice, slice.start_condition@[i]@);
    }
    if start_failure(plan, slice) is None {
        assert forall|i: int| 0 <= i < slice.start_condition@.len() implies names_evidence(
            plan,
            (#[trigger] slice.start_condition@[i])@,
        ) != names_read(slice, slice.start_condition@[i]@) by {
            assert(check(i) is None);
        }
    }
}

proof fn lemma_steps(plan: ImplementationPlan, slice: ImplementationSlice)
    ensures
        steps_failure(plan, slice) is None <==> {
            &&& forall|i: int, j: int|
                0 <= i < j < slice.steps@.len() ==> (#[trigger] slice.steps@[i]).id@ != (
                #[trigger] slice.steps@[j]).id@
            &&& forall|i: int|
                0 <= i < slice.steps@.len() ==> is_sound_step(
                    plan,
                    slice,
                    #[trigger] slice.steps@[i],
                )
        },
{
    let check = step_checks(plan, slice);
    lemma_all(slice.steps@.len() as int, check);
    lemma_keys_apart(slice.steps@);
    assert forall|i: int| 0 <= i < slice.steps@.len() implies ((#[trigger] check(i)) is None
        <==> is_sound_step(plan, slice, slice.steps@[i])) by {
        lemma_step(plan, slice, slice.steps@[i]);
    }
    if steps_failure(plan, slice) is None {
        assert forall|i: int| 0 <= i < slice.steps@.len() implies is_sound_step(
            plan,
            slice,
            #[trigger] slice.steps@[i],
        ) by {
            assert(check(i) is None);
        }
    }
}

proof fn lemma_verifications(plan: ImplementationPlan, slice: ImplementationSlice)
    ensures
        first_of(slice.verification@.len() as int, verification_checks(plan, slice)) is None
            <==> forall|i: int|
            0 <= i < slice.verification@.len() ==> is_sound_verification(
                plan,
                #[trigger] slice.verification@[i],
            ),
{
    let check = verification_checks(plan, slice);
    lemma_all(slice.verification@.len() as int, check);
    assert forall|i: int| 0 <= i < slice.verification@.len() implies ((#[trigger] check(i)) is None
        <==> is_sound_verification(plan, slice.verification@[i])) by {
        lemma_clear(plan, slice.verification@[i].covers@, "verification"@);
    }
    if first_of(slice.verification@.len() as int, check) is None {
        assert forall|i: int| 0 <= i < slice.verification@.len() implies is_sound_verification(
            plan,
            #[trigger] slice.verification@[i],
        ) by {
            assert(check(i) is None);
        }
    }
}

proof fn lemma_slice(plan: ImplementationPlan, slice: ImplementationSlice)
    ensures
        slice_failure(plan, slice) is None <==> is_sound_slice(plan, slice),
{
    let check = dependency_checks(plan, slice);
    lemma_all(slice.depends_on@.len() as int, check);
    assert forall|i: int| 0 <= i < slice.depends_on@.len() implies ((#[trigger] check(i)) is None
        <==> names_slice(plan, slice.depends_on@[i]@)) by {
        lemma_named(plan.slices@, slice.depends_on@[i]@);
    }
    if first_of(slice.depends_on@.len() as int, check) is None {
        assert forall|i: int| 0 <= i < slice.depends_on@.len() implies names_slice(
            plan,
            (#[trigger] slice.depends_on@[i])@,
        ) by {
            assert(check(i) is None);
        }
    }
    lemma_files(slice);
    lemma_start(plan, slice);
    lemma_steps(plan, slice);
    lemma_checks(slice.done_when@, "slice.done_when"@);
    lemma_verifications(plan, slice);
    lemma_step_circle(slice);
}

// ---------------------------------------------------------------------------
// Coverage
// ---------------------------------------------------------------------------

/// Whether a step satisfies something of that name.
pub open spec fn step_satisfies(step: ImplementationStep, name: Seq<char>) -> bool {
    exists|i: int| 0 <= i < step.satisfies@.len() && (#[trigger] step.satisfies@[i])@ == name
}

/// Whether a verification covers something of that name.
pub open spec fn verification_covers(verification: Verification, name: Seq<char>) -> bool {
    exists|i: int| 0 <= i < verification.covers@.len() && (#[trigger] verification.covers@[i])@ == name
}

/// Whether a step of a slice satisfies, or a verification of it covers,
/// something of that name.
pub open spec fn slice_covers(slice: ImplementationSlice, name: Seq<char>) -> bool {
    ||| exists|t: int| 0 <= t < slice.steps@.len() && step_satisfies(#[trigger] slice.steps@[t], name)
    ||| exists|v: int|
        0 <= v < slice.verification@.len() && verification_covers(
            #[trigger] slice.verification@[v],
            name,
        )
}

/// Whether some slice covers something of that name.
pub open spec fn plan_covers(plan: ImplementationPlan, name: Seq<char>) -> bool {
    exists|s: int| 0 <= s < plan.slices@.len() && slice_covers(#[trigger] plan.slices@[s], name)
}

proof fn lemma_satisfied(steps: Seq<ImplementationStep>, n: int, name: Seq<char>)
    requires
        0 <= n <= steps.len(),
    ensures
        satisfied(steps, n).contains(name) <==> exists|t: int|
            0 <= t < n && step_satisfies(#[trigger] steps[t], name),
    decreases n,
{
    if n > 0 {
        lemma_satisfied(steps, n - 1, name);
        let items = steps[n - 1].satisfies@;
        lemma_named(items, name);
        lemma_joined(satisfied(steps, n - 1), keys(items), name);
        assert(step_satisfies(steps[n - 1], name) == keys(items).contains(name)) by {
            if step_satisfies(steps[n - 1], name) {
                let i = choose|i: int| 0 <= i < items.len() && (#[trigger] items[i])@ == name;
                assert(items[i].key() == name);
            }
        }
    }
}

proof fn lemma_covered(verification: Seq<Verification>, n: int, name: Seq<char>)
    requires
        0 <= n <= verification.len(),
    ensures
        covered(verification, n).contains(name) <==> exists|v: int|
            0 <= v < n && verification_covers(#[trigger] verification[v], name),
    decreases n,
{
    if n > 0 {
        lemma_covered(verification, n - 1, name);
        let items = verification[n - 1].covers@;
        lemma_named(items, name);
        lemma_joined(covered(verification, n - 1), keys(items), name);
        assert(verification_covers(verification[n - 1], name) == keys(items).contains(name)) by {
            if verification_covers(verification[n - 1], name) {
                let i = choose|i: int| 0 <= i < items.len() && (#[trigger] items[i])@ == name;
                assert(items[i].key() == name);
            }
        }
    }
}

proof fn lemma_references(plan: ImplementationPlan, n: int, name: Seq<char>)
    requires
        0 <= n <= plan.slices@.len(),
    ensures
        references(plan, n).contains(name) <==> exists|s: int|
            0 <= s < n && slice_covers(#[trigger] plan.slices@[s], name),
    decreases n,
{
    if n > 0 {
        lemma_references(plan, n - 1, name);
        let slice = plan.slices@[n - 1];
        let steps = slice.steps@;
        let verification = slice.verification@;
        lemma_satisfied(steps, steps.len() as int, name);
        lemma_covered(verification, verification.len() as int, name);
        let head = references(plan, n - 1);
        let middle = satisfied(steps, steps.len() as int);
        lemma_joined(head, middle, name);
        lemma_joined(head + middle, covered(verification, verification.len() as int), name);
        assert(slice_covers(slice, name) == (middle.contains(name) || covered(
            verification,
            verification.len() as int,
        ).contains(name)));
    }
}

/// Names are covered exactly when for each there is a slice with a step that
/// satisfies it or a verification that covers it.
pub proof fn coverage_is_by_steps_or_verifications(
    plan: ImplementationPlan,
    names: Seq<Seq<char>>,
)
    ensures
        covers_all(plan, names) <==> forall|i: int|
            0 <= i < names.len() ==> plan_covers(plan, #[trigger] names[i]),
{
    let n = plan.slices@.len() as int;
    assert forall|i: int| 0 <= i < names.len() implies (references(plan, n).contains(
        #[trigger] names[i],
    ) <==> plan_covers(plan, names[i])) by {
        lemma_references(plan, n, names[i]);
    }
}

// ---------------------------------------------------------------------------
// Plans
// ---------------------------------------------------------------------------

/// Whether an open decision has sound sources and affects between one and 256
/// slices, all of them of the plan.
pub open spec fn is_sound_question(plan: ImplementationPlan, open: OpenDecision) -> bool {
    &&& 1 <= open.affected_slices@.len() <= 256
    &&& are_sound_sources(open.sources@)
    &&& forall|i: int|
        0 <= i < open.affected_slices@.len() ==> names_slice(
            plan,
            (#[trigger] open.affected_slices@[i])@,
        )
}

proof fn lemma_question(plan: ImplementationPlan, open: OpenDecision)
    ensures
        open_decision_failure(plan, open) is None <==> is_sound_question(plan, open),
{
    let check = affected_checks(plan, open);
    lemma_all(open.affected_slices@.len() as int, check);
    lemma_sources("open_decision.sources"@, open.sources@);
    assert forall|i: int| 0 <= i < open.affected_slices@.len() implies ((#[trigger] check(i))
        is None <==> names_slice(plan, open.affected_slices@[i]@)) by {
        lemma_named(plan.slices@, open.affected_slices@[i]@);
    }
    if open_decision_failure(plan, open) is None {
        assert forall|i: int| 0 <= i < open.affected_slices@.len() implies names_slice(
            plan,
            (#[trigger] open.affected_slices@[i])@,
        ) by {
            assert(check(i) is None);
        }
    }
}

/// Whether a plan is sound: its frame is, every slice is, with checks and reads
/// of its own, the slices depend on each other without a circle, every
/// invariant and every acceptance check is covered, and every open decision is
/// sound.
pub open spec fn is_sound_plan(plan: ImplementationPlan) -> bool {
    &&& is_sound_frame(plan)
    &&& forall|s: int|
        #![trigger plan.slices@[s]]
        0 <= s < plan.slices@.len() ==> has_own_checks(plan, s) && has_own_reads(plan, s)
            && is_sound_slice(plan, plan.slices@[s])
    &&& forall|chain: Seq<Seq<char>>| !is_slice_circle(plan, chain)
    &&& forall|i: int|
        0 <= i < plan.invariants@.len() ==> plan_covers(plan, (#[trigger] plan.invariants@[i]).id@)
    &&& forall|i: int|
        0 <= i < plan.objective.acceptance@.len() ==> plan_covers(
            plan,
            (#[trigger] plan.objective.acceptance@[i]).id@,
        )
    &&& forall|i: int|
        0 <= i < plan.open_decisions@.len() ==> is_sound_question(
            plan,
            #[trigger] plan.open_decisions@[i],
        )
}

proof fn lemma_coverage<T: Keyed>(plan: ImplementationPlan, items: Seq<T>)
    ensures
        covers_all(plan, keys(items)) <==> forall|i: int|
            0 <= i < items.len() ==> plan_covers(plan, (#[trigger] items[i]).key()),
{
    coverage_is_by_steps_or_verifications(plan, keys(items));
    if covers_all(plan, keys(items)) {
        assert forall|i: int| 0 <= i < items.len() implies plan_covers(
            plan,
            (#[trigger] items[i]).key(),
        ) by {
            assert(plan_covers(plan, keys(items)[i]));
        }
    }
}

proof fn lemma_structure(plan: ImplementationPlan)
    ensures
        structure_failure(plan) is None <==> {
            &&& forall|s: int|
                #![trigger plan.slices@[s]]
                0 <= s < plan.slices@.len() ==> has_own_checks(plan, s) && has_own_reads(plan, s)
                    && is_sound_slice(plan, plan.slices@[s])
            &&& forall|chain: Seq<Seq<char>>| !is_slice_circle(plan, chain)
            &&& forall|i: int|
                0 <= i < plan.invariants@.len() ==> plan_covers(
                    plan,
                    (#[trigger] plan.invariants@[i]).id@,
                )
            &&& forall|i: int|
                0 <= i < plan.objective.acceptance@.len() ==> plan_covers(
                    plan,
                    (#[trigger] plan.objective.acceptance@[i]).id@,
                )
            &&& forall|i: int|
                0 <= i < plan.open_decisions@.len() ==> is_sound_question(
                    plan,
                    #[trigger] plan.open_decisions@[i],
                )
        },
{
    let n = plan.slices@.len() as int;
    let done = slice_done_checks(plan);
    let reads = slice_read_checks(plan);
    let slices = slice_checks(plan);
    let questions = open_decision_checks(plan);
    lemma_all(n, done);
    lemma_all(n, reads);
    lemma_all(n, slices);
    lemma_all(plan.open_decisions@.len() as int, questions);
    assert forall|s: int| 0 <= s < n implies ((#[trigger] done(s)) is None <==> has_own_checks(
        plan,
        s,
    )) by {
        lemma_own_checks(plan, s);
    }
    assert forall|s: int| 0 <= s < n implies ((#[trigger] reads(s)) is None <==> has_own_reads(
        plan,
        s,
    )) by {
        lemma_own_reads(plan, s);
    }
    assert forall|s: int| 0 <= s < n implies ((#[trigger] slices(s)) is None <==> is_sound_slice(
        plan,
        plan.slices@[s],
    )) by {
        lemma_slice(plan, plan.slices@[s]);
    }
    assert forall|i: int| 0 <= i < plan.open_decisions@.len() implies ((#[trigger] questions(i))
        is None <==> is_sound_question(plan, plan.open_decisions@[i])) by {
        lemma_question(plan, plan.open_decisions@[i]);
    }
    lemma_slice_circle(plan);
    lemma_coverage(plan, plan.invariants@);
    lemma_coverage(plan, plan.objective.acceptance@);
    if structure_failure(plan) is None {
        assert forall|s: int|
            #![trigger plan.slices@[s]]
            0 <= s < plan.slices@.len() implies has_own_checks(plan, s) && has_own_reads(plan, s)
            && is_sound_slice(plan, plan.slices@[s]) by {
            assert(done(s) is None && reads(s) is None && slices(s) is None);
        }
        assert forall|i: int| 0 <= i < plan.open_decisions@.len() implies is_sound_question(
            plan,
            #[trigger] plan.open_decisions@[i],
        ) by {
            assert(questions(i) is None);
        }
        assert forall|i: int| 0 <= i < plan.invariants@.len() implies plan_covers(
            plan,
            (#[trigger] plan.invariants@[i]).id@,
        ) by {
            assert(plan_covers(plan, plan.invariants@[i].key()));
        }
        assert forall|i: int| 0 <= i < plan.objective.acceptance@.len() implies plan_covers(
            plan,
            (#[trigger] plan.objective.acceptance@[i]).id@,
        ) by {
            assert(plan_covers(plan, plan.objective.acceptance@[i].key()));
        }
    }
    if (forall|s: int|
        #![trigger plan.slices@[s]]
        0 <= s < plan.slices@.len() ==> has_own_checks(plan, s) && has_own_reads(plan, s)
            && is_sound_slice(plan, plan.slices@[s])) {
        assert forall|s: int| 0 <= s < n implies (#[trigger] done(s)) is None by {
            assert(is_sound_slice(plan, plan.slices@[s]));
        }
        assert forall|s: int| 0 <= s < n implies (#[trigger] reads(s)) is None by {
            assert(is_sound_slice(plan, plan.slices@[s]));
        }
        assert forall|s: int| 0 <= s < n implies (#[trigger] slices(s)) is None by {
            assert(is_sound_slice(plan, plan.slices@[s]));
        }
    }
}

/// A plan is valid exactly when it is sound.
pub proof fn valid_plans_are_sound(plan: ImplementationPlan)
    ensures
        plan_failure(plan) is None <==> is_sound_plan(plan),
{
    lemma_frame(plan);
    lemma_structure(plan);
}

/// The fault that is told where a plan is sound but for its dependencies, its
/// coverage or its open decisions: a circle first, then an invariant that is
/// not covered, then an acceptance check.
pub proof fn faults_across_slices_are_told(plan: ImplementationPlan)
    requires
        is_sound_frame(plan),
        forall|s: int|
            #![trigger plan.slices@[s]]
            0 <= s < plan.slices@.len() ==> has_own_checks(plan, s) && has_own_reads(plan, s)
                && is_sound_slice(plan, plan.slices@[s]),
    ensures
        ({
            let circle = exists|chain: Seq<Seq<char>>| is_slice_circle(plan, chain);
            let invariants = forall|i: int|
                0 <= i < plan.invariants@.len() ==> plan_covers(
                    plan,
                    (#[trigger] plan.invariants@[i]).id@,
                );
            let acceptance = forall|i: int|
                0 <= i < plan.objective.acceptance@.len() ==> plan_covers(
                    plan,
                    (#[trigger] plan.objective.acceptance@[i]).id@,
                );
            &&& circle ==> plan_failure(plan) == Some("slice dependency graph contains a cycle"@)
            &&& !circle && !invariants ==> plan_failure(plan) == Some(
                "every invariant must be covered by a step or verification"@,
            )
            &&& !circle && invariants && !acceptance ==> plan_failure(plan) == Some(
                "every acceptance check must be covered by a step or verification"@,
            )
        }),
{
    lemma_frame(plan);
    let n = plan.slices@.len() as int;
    let done = slice_done_checks(plan);
    let reads = slice_read_checks(plan);
    let slices = slice_checks(plan);
    lemma_all(n, done);
    lemma_all(n, reads);
    lemma_all(n, slices);
    assert forall|s: int| 0 <= s < n implies (#[trigger] done(s)) is None by {
        assert(is_sound_slice(plan, plan.slices@[s]));
        lemma_own_checks(plan, s);
    }
    assert forall|s: int| 0 <= s < n implies (#[trigger] reads(s)) is None by {
        assert(is_sound_slice(plan, plan.slices@[s]));
        lemma_own_reads(plan, s);
    }
    assert forall|s: int| 0 <= s < n implies (#[trigger] slices(s)) is None by {
        assert(is_sound_slice(plan, plan.slices@[s]));
        lemma_slice(plan, plan.slices@[s]);
    }
    lemma_slice_circle(plan);
    lemma_coverage(plan, plan.invariants@);
    lemma_coverage(plan, plan.objective.acceptance@);
    if covers_all(plan, keys(plan.invariants@)) {
        assert forall|i: int| 0 <= i < plan.invariants@.len() implies plan_covers(
            plan,
            (#[trigger] plan.invariants@[i]).id@,
        ) by {
            assert(plan_covers(plan, plan.invariants@[i].key()));
        }
    }
    if covers_all(plan, keys(plan.objective.acceptance@)) {
        assert forall|i: int| 0 <= i < plan.objective.acceptance@.len() implies plan_covers(
            plan,
            (#[trigger] plan.objective.acceptance@[i]).id@,
        ) by {
            assert(plan_covers(plan, plan.objective.acceptance@[i].key()));
        }
    }
}

/// A plan can be implemented exactly when it is sound and nothing is open.
pub proof fn implementable_plans_are_closed(plan: ImplementationPlan)
    ensures
        implementation_failure(plan) is None <==> is_sound_plan(plan) && plan.open_decisions@.len()
            == 0,
{
    valid_plans_are_sound(plan);
}

/// A plan has canonical bytes exactly when it is sound, nests no deeper than 64
/// levels and takes no more than 4 MiB; they are its JSON in UTF-8, and no
/// other bytes are accepted for it.
pub proof fn sound_plans_have_canonical_bytes(plan: ImplementationPlan, bytes: Seq<u8>)
    ensures
        canonical(plan) == Ok::<Seq<u8>, PlanErrorAbs>(bytes) <==> {
            &&& is_sound_plan(plan)
            &&& nests_within(plan.json(), 64)
            &&& bytes == encode_utf8(json_text(plan.json()))
            &&& bytes.len() <= 4_194_304
        },
        accepted(bytes, Ok(plan)) == Ok::<ImplementationPlan, PlanErrorAbs>(plan) <==> canonical(
            plan,
        ) == Ok::<Seq<u8>, PlanErrorAbs>(bytes),
        accepted(bytes, Ok(plan)) is Ok ==> accepted(bytes, Ok(plan))->Ok_0 == plan,
{
    valid_plans_are_sound(plan);
}

/// A command shows no behaviour where it only asks for the state of the
/// repository, written in small letters and without white space around it.
pub proof fn state_commands_show_no_behavior(command: Seq<char>)
    requires
        trimmed(command) == command,
        lowered(command) == command,
        !begins(command, "command "@),
    ensures
        is_metadata_only(command) <==> seq![
            "git status"@,
            "git status --short"@,
            "git status --porcelain"@,
            "git diff"@,
            "git diff --check"@,
            "git diff --name-only"@,
            "git diff --name-status"@,
            "git diff --stat"@,
        ].contains(command),
{
    let all = seq![
        "git status"@,
        "git status --short"@,
        "git status --porcelain"@,
        "git diff"@,
        "git diff --check"@,
        "git diff --name-only"@,
        "git diff --name-status"@,
        "git diff --stat"@,
    ];
    assert(all[0] == "git status"@ && all[1] == "git status --short"@ && all[2]
        == "git status --porcelain"@ && all[3] == "git diff"@ && all[4] == "git diff --check"@
        && all[5] == "git diff --name-only"@ && all[6] == "git diff --name-status"@ && all[7]
        == "git diff --stat"@);
    if is_metadata_only(command) {
        assert(command == all[0] || command == all[1] || command == all[2] || command == all[3]
            || command == all[4] || command == all[5] || command == all[6] || command == all[7]);
    }
}

} // verus!
