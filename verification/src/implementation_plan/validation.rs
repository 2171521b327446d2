//! What makes an implementation plan valid, and which fault is reported first.

use vstd::prelude::*;
use vstd::string::*;

use super::ids::{workspace_path_failure, PlanItemId, WorkspacePath};
use super::model::{
    Check, ConditionalRead, Decision, Evidence, FileChange, ImplementationPlan,
    ImplementationSlice, ImplementationStep, Invariant, OpenDecision, ReadRequirement, SourceKind,
    SourceRef,
};
use super::MAX_COLLECTION_ITEMS;
use crate::order::{are_distinct, is_among, texts_of};
use crate::text::same_text;
use crate::value::Abstract;

verus! {

/// Why something is refused, if it is.
pub type Failure = Option<Seq<char>>;

/// The first fault, or else the second.
pub open spec fn or_else(first: Failure, second: Failure) -> Failure {
    match first {
        Some(fault) => Some(fault),
        None => second,
    }
}

/// The fault, where the condition holds.
pub open spec fn fault_if(condition: bool, fault: Seq<char>) -> Failure {
    if condition {
        Some(fault)
    } else {
        None
    }
}

/// The fault of the first of the first `n` items that has one.
pub open spec fn first_of(n: int, check: spec_fn(int) -> Failure) -> Failure
    decreases n,
{
    if n <= 0 {
        None
    } else {
        or_else(first_of(n - 1, check), check(n - 1))
    }
}

/// A fault among the first items is the fault of all of them.
pub proof fn lemma_first_fault(n: int, m: int, check: spec_fn(int) -> Failure)
    requires
        0 <= n <= m,
        first_of(n, check) is Some,
    ensures
        first_of(m, check) == first_of(n, check),
    decreases m,
{
    if n < m {
        lemma_first_fault(n, m - 1, check);
    }
}

/// Where nothing is at fault, no item is.
pub proof fn lemma_no_fault(n: int, check: spec_fn(int) -> Failure, i: int)
    requires
        first_of(n, check) is None,
        0 <= i < n,
    ensures
        check(i) is None,
    decreases n,
{
    if i < n - 1 {
        lemma_no_fault(n - 1, check, i);
    }
}

// ---------------------------------------------------------------------------
// Names
// ---------------------------------------------------------------------------

/// Something that is told apart by a text: its ID, or its path.
pub trait Keyed {
    spec fn key(&self) -> Seq<char>;

    fn key_text(&self) -> (r: &str)
        ensures
            r@ == self.key(),
    ;
}

/// The keys of the items.
pub open spec fn keys<T: Keyed>(items: Seq<T>) -> Seq<Seq<char>> {
    Seq::new(items.len(), |i: int| items[i].key())
}

impl Keyed for Evidence {
    open spec fn key(&self) -> Seq<char> {
        self.id@
    }

    fn key_text(&self) -> &str {
        self.id.as_str()
    }
}

impl Keyed for Decision {
    open spec fn key(&self) -> Seq<char> {
        self.id@
    }

    fn key_text(&self) -> &str {
        self.id.as_str()
    }
}

impl Keyed for Invariant {
    open spec fn key(&self) -> Seq<char> {
        self.id@
    }

    fn key_text(&self) -> &str {
        self.id.as_str()
    }
}

impl Keyed for ImplementationSlice {
    open spec fn key(&self) -> Seq<char> {
        self.id@
    }

    fn key_text(&self) -> &str {
        self.id.as_str()
    }
}

impl Keyed for OpenDecision {
    open spec fn key(&self) -> Seq<char> {
        self.id@
    }

    fn key_text(&self) -> &str {
        self.id.as_str()
    }
}

impl Keyed for Check {
    open spec fn key(&self) -> Seq<char> {
        self.id@
    }

    fn key_text(&self) -> &str {
        self.id.as_str()
    }
}

impl Keyed for ReadRequirement {
    open spec fn key(&self) -> Seq<char> {
        self.id@
    }

    fn key_text(&self) -> &str {
        self.id.as_str()
    }
}

impl Keyed for ConditionalRead {
    open spec fn key(&self) -> Seq<char> {
        self.id@
    }

    fn key_text(&self) -> &str {
        self.id.as_str()
    }
}

impl Keyed for ImplementationStep {
    open spec fn key(&self) -> Seq<char> {
        self.id@
    }

    fn key_text(&self) -> &str {
        self.id.as_str()
    }
}

impl Keyed for FileChange {
    open spec fn key(&self) -> Seq<char> {
        self.path@
    }

    fn key_text(&self) -> &str {
        self.path.as_str()
    }
}

impl Keyed for PlanItemId {
    open spec fn key(&self) -> Seq<char> {
        self@
    }

    fn key_text(&self) -> &str {
        self.as_str()
    }
}

impl Keyed for WorkspacePath {
    open spec fn key(&self) -> Seq<char> {
        self@
    }

    fn key_text(&self) -> &str {
        self.as_str()
    }
}

pub(crate) fn keys_of<T: Keyed>(items: &Vec<T>) -> (r: Vec<&str>)
    ensures
        texts_of(r@) == keys(items@),
{
    let mut out: Vec<&str> = Vec::new();
    let mut i: usize = 0;
    while i < items.len()
        invariant
            i <= items@.len(),
            out@.len() == i,
            forall|k: int| 0 <= k < i ==> (#[trigger] out@[k])@ == items@[k].key(),
        decreases items@.len() - i,
    {
        out.push(items[i].key_text());
        i += 1;
    }
    assert(texts_of(out@) =~= keys(items@));
    out
}

/// Appends the keys of the items.
pub(crate) fn push_keys<'a, T: Keyed>(out: &mut Vec<&'a str>, items: &'a Vec<T>)
    ensures
        texts_of(final(out)@) == texts_of(old(out)@) + keys(items@),
{
    let ghost before = texts_of(out@);
    let mut i: usize = 0;
    assert(texts_of(out@) =~= before + keys(items@).take(0));
    while i < items.len()
        invariant
            i <= items@.len(),
            texts_of(out@) == before + keys(items@).take(i as int),
        decreases items@.len() - i,
    {
        let ghost earlier = out@;
        out.push(items[i].key_text());
        assert(texts_of(out@) =~= texts_of(earlier).push(keys(items@)[i as int]));
        assert(keys(items@).take(i + 1) =~= keys(items@).take(i as int).push(
            keys(items@)[i as int],
        ));
        assert(texts_of(out@) =~= before + keys(items@).take(i + 1));
        i += 1;
    }
    assert(keys(items@).take(i as int) =~= keys(items@));
}

// ---------------------------------------------------------------------------
// Bounds, paths and sources
// ---------------------------------------------------------------------------

/// Collections are bounded.
pub open spec fn bound_failure(name: Seq<char>, length: nat) -> Failure {
    fault_if(length > MAX_COLLECTION_ITEMS, name + " exceeds 256 items"@)
}

pub(crate) fn bounded_collection(name: &str, length: usize) -> (r: Option<String>)
    ensures
        r.abs() == bound_failure(name@, length as nat),
{
    if length > MAX_COLLECTION_ITEMS {
        return Some(name.to_owned().concat(" exceeds 256 items"));
    }
    None
}

/// A file is not the workspace root.
pub open spec fn root_failure(field: Seq<char>, path: Seq<char>) -> Failure {
    fault_if(path == "."@, field + " must identify a file, not the workspace root"@)
}

pub(crate) fn validate_file_path(field: &str, path: &WorkspacePath) -> (r: Option<String>)
    ensures
        r.abs() == root_failure(field@, path@),
{
    if same_text(path.as_str(), ".") {
        return Some(field.to_owned().concat(" must identify a file, not the workspace root"));
    }
    None
}

/// Whether lines are numbered from one, and the last is not before the first.
pub open spec fn is_line_range(start: Option<u32>, end: Option<u32>) -> bool {
    &&& start != Some(0u32)
    &&& end != Some(0u32)
    &&& (start is Some && end is Some) ==> start->Some_0 <= end->Some_0
}

/// Sources that are files of the workspace.
pub open spec fn is_file_like(kind: SourceKind) -> bool {
    kind == SourceKind::File || kind == SourceKind::Test || kind == SourceKind::Config
}

pub open spec fn source_failure(field: Seq<char>, source: SourceRef) -> Failure {
    or_else(
        if is_file_like(source.kind) {
            match workspace_path_failure(source.locator@) {
                Some(reason) => Some(field + " has invalid workspace path: "@ + reason@),
                None => root_failure(field, source.locator@),
            }
        } else {
            None
        },
        fault_if(
            !is_line_range(source.line_start, source.line_end),
            field + " has invalid line range"@,
        ),
    )
}

pub open spec fn source_checks(field: Seq<char>, sources: Seq<SourceRef>) -> spec_fn(
    int,
) -> Failure {
    |i: int| source_failure(field, sources[i])
}

pub open spec fn sources_failure(field: Seq<char>, sources: Seq<SourceRef>) -> Failure {
    or_else(
        fault_if(sources.len() == 0, field + " must be non-empty"@),
        or_else(
            bound_failure(field, sources.len()),
            first_of(sources.len() as int, source_checks(field, sources)),
        ),
    )
}

fn validate_source(field: &str, source: &SourceRef) -> (r: Option<String>)
    ensures
        r.abs() == source_failure(field@, *source),
{
    let file_like: bool = match source.kind {
        SourceKind::File => true,
        SourceKind::Test => true,
        SourceKind::Config => true,
        SourceKind::Message => false,
        SourceKind::Decision => false,
    };
    if file_like {
        match WorkspacePath::new(source.locator.as_str()) {
            Err(reason) => {
                return Some(
                    field.to_owned().concat(" has invalid workspace path: ").concat(reason),
                );
            },
            Ok(path) => {
                if let Some(fault) = validate_file_path(field, &path) {
                    return Some(fault);
                }
            },
        }
    }
    let valid: bool = match (source.line_start, source.line_end) {
        (Some(start), Some(end)) => start != 0 && end != 0 && start <= end,
        (Some(start), None) => start != 0,
        (None, Some(end)) => end != 0,
        (None, None) => true,
    };
    if !valid {
        return Some(field.to_owned().concat(" has invalid line range"));
    }
    None
}

pub(crate) fn validate_sources(field: &str, sources: &Vec<SourceRef>) -> (r: Option<String>)
    ensures
        r.abs() == sources_failure(field@, sources@),
{
    if sources.len() == 0 {
        return Some(field.to_owned().concat(" must be non-empty"));
    }
    if let Some(fault) = bounded_collection(field, sources.len()) {
        return Some(fault);
    }
    let ghost check = source_checks(field@, sources@);
    let mut i: usize = 0;
    while i < sources.len()
        invariant
            i <= sources@.len(),
            0 < sources@.len() <= MAX_COLLECTION_ITEMS,
            check == source_checks(field@, sources@),
            first_of(i as int, check) is None,
        decreases sources@.len() - i,
    {
        if let Some(fault) = validate_source(field, &sources[i]) {
            proof {
                lemma_first_fault(i + 1, sources@.len() as int, check);
            }
            return Some(fault);
        }
        i += 1;
    }
    None
}

pub open spec fn check_failure(check: Check, field: Seq<char>) -> Failure {
    sources_failure(field + ".sources"@, check.sources@)
}

fn validate_check(check: &Check, field: &str) -> (r: Option<String>)
    ensures
        r.abs() == check_failure(*check, field@),
{
    let name: String = field.to_owned().concat(".sources");
    validate_sources(name.as_str(), &check.sources)
}

pub open spec fn check_checks(checks: Seq<Check>, field: Seq<char>) -> spec_fn(int) -> Failure {
    |i: int| check_failure(checks[i], field)
}

pub(crate) fn validate_checks(checks: &Vec<Check>, field: &str) -> (r: Option<String>)
    ensures
        r.abs() == first_of(checks@.len() as int, check_checks(checks@, field@)),
{
    let ghost check = check_checks(checks@, field@);
    let mut i: usize = 0;
    while i < checks.len()
        invariant
            i <= checks@.len(),
            check == check_checks(checks@, field@),
            first_of(i as int, check) is None,
        decreases checks@.len() - i,
    {
        if let Some(fault) = validate_check(&checks[i], field) {
            proof {
                lemma_first_fault(i + 1, checks@.len() as int, check);
            }
            return Some(fault);
        }
        i += 1;
    }
    None
}

// ---------------------------------------------------------------------------
// Unique IDs
// ---------------------------------------------------------------------------

pub open spec fn unique_checks(namespace: Seq<char>, ids: Seq<Seq<char>>) -> spec_fn(
    int,
) -> Failure {
    |i: int|
        fault_if(
            ids.take(i).contains(ids[i]),
            "duplicate ID "@ + ids[i] + " in "@ + namespace,
        )
}

/// No ID occurs twice in its namespace.
pub open spec fn unique_failure(namespace: Seq<char>, ids: Seq<Seq<char>>) -> Failure {
    first_of(ids.len() as int, unique_checks(namespace, ids))
}

/// Whether the text stands among the first `n`.
fn is_among_first(text: &str, texts: &Vec<&str>, n: usize) -> (b: bool)
    requires
        n <= texts@.len(),
    ensures
        b == texts_of(texts@).take(n as int).contains(text@),
{
    let ghost all = texts_of(texts@);
    let mut i: usize = 0;
    while i < n
        invariant
            i <= n <= texts@.len(),
            all == texts_of(texts@),
            forall|k: int| 0 <= k < i ==> #[trigger] all[k] != text@,
        decreases n - i,
    {
        assert(all[i as int] == texts@[i as int]@);
        if same_text(text, texts[i]) {
            assert(all.take(n as int)[i as int] == text@);
            return true;
        }
        i += 1;
    }
    assert forall|k: int| 0 <= k < all.take(n as int).len() implies all.take(n as int)[k]
        != text@ by {
        assert(all[k] != text@);
    }
    false
}

fn unique_ids(namespace: &str, ids: &Vec<&str>) -> (r: Option<String>)
    ensures
        r.abs() == unique_failure(namespace@, texts_of(ids@)),
{
    let ghost all = texts_of(ids@);
    let ghost check = unique_checks(namespace@, all);
    let mut i: usize = 0;
    while i < ids.len()
        invariant
            i <= ids@.len(),
            all == texts_of(ids@),
            check == unique_checks(namespace@, all),
            first_of(i as int, check) is None,
        decreases ids@.len() - i,
    {
        assert(all[i as int] == ids@[i as int]@);
        if is_among_first(ids[i], ids, i) {
            proof {
                lemma_first_fault(i + 1, all.len() as int, check);
            }
            return Some(
                "duplicate ID ".to_owned().concat(ids[i]).concat(" in ").concat(namespace),
            );
        }
        i += 1;
    }
    None
}

/// Where no ID is reported as a duplicate, the IDs are distinct.
pub proof fn unique_ids_are_distinct(namespace: Seq<char>, ids: Seq<Seq<char>>)
    requires
        unique_failure(namespace, ids) is None,
    ensures
        are_distinct(ids),
{
    assert forall|i: int, j: int| 0 <= i < j < ids.len() implies #[trigger] ids[i]
        != #[trigger] ids[j] by {
        lemma_no_fault(ids.len() as int, unique_checks(namespace, ids), j);
        assert(ids.take(j)[i] == ids[i]);
    }
}

// ---------------------------------------------------------------------------
// The plan as a whole
// ---------------------------------------------------------------------------

/// The collections of a plan are bounded.
pub open spec fn plan_bounds_failure(plan: ImplementationPlan) -> Failure {
    or_else(
        bound_failure("evidence"@, plan.evidence@.len()),
        or_else(
            bound_failure("decisions"@, plan.decisions@.len()),
            or_else(
                bound_failure("invariants"@, plan.invariants@.len()),
                or_else(
                    bound_failure("slices"@, plan.slices@.len()),
                    or_else(
                        bound_failure("open_decisions"@, plan.open_decisions@.len()),
                        bound_failure(
                            "workspace.dirty_paths"@,
                            plan.workspace.dirty_paths@.len(),
                        ),
                    ),
                ),
            ),
        ),
    )
}

pub(crate) fn bounded_plan(plan: &ImplementationPlan) -> (r: Option<String>)
    ensures
        r.abs() == plan_bounds_failure(*plan),
{
    if let Some(fault) = bounded_collection("evidence", plan.evidence.len()) {
        return Some(fault);
    }
    if let Some(fault) = bounded_collection("decisions", plan.decisions.len()) {
        return Some(fault);
    }
    if let Some(fault) = bounded_collection("invariants", plan.invariants.len()) {
        return Some(fault);
    }
    if let Some(fault) = bounded_collection("slices", plan.slices.len()) {
        return Some(fault);
    }
    if let Some(fault) = bounded_collection("open_decisions", plan.open_decisions.len()) {
        return Some(fault);
    }
    bounded_collection("workspace.dirty_paths", plan.workspace.dirty_paths.len())
}

pub open spec fn dirty_checks(paths: Seq<Seq<char>>) -> spec_fn(int) -> Failure {
    |i: int|
        or_else(
            root_failure("workspace.dirty_paths"@, paths[i]),
            fault_if(
                paths.take(i).contains(paths[i]),
                "workspace.dirty_paths contains duplicate "@ + paths[i],
            ),
        )
}

/// Every dirty path is a file, and none occurs twice.
pub open spec fn dirty_failure(paths: Seq<WorkspacePath>) -> Failure {
    first_of(paths.len() as int, dirty_checks(keys(paths)))
}

pub(crate) fn validate_dirty_paths(paths: &Vec<WorkspacePath>) -> (r: Option<String>)
    ensures
        r.abs() == dirty_failure(paths@),
{
    let names: Vec<&str> = keys_of(paths);
    let ghost all = keys(paths@);
    assert(texts_of(names@).len() == names@.len());
    let ghost check = dirty_checks(all);
    let mut i: usize = 0;
    while i < paths.len()
        invariant
            i <= paths@.len(),
            all == keys(paths@),
            texts_of(names@) == all,
            names@.len() == paths@.len(),
            check == dirty_checks(all),
            first_of(i as int, check) is None,
        decreases paths@.len() - i,
    {
        assert(all[i as int] == names@[i as int]@);
        if let Some(fault) = validate_file_path("workspace.dirty_paths", &paths[i]) {
            proof {
                lemma_first_fault(i + 1, all.len() as int, check);
            }
            return Some(fault);
        }
        if is_among_first(names[i], &names, i) {
            proof {
                lemma_first_fault(i + 1, all.len() as int, check);
            }
            return Some("workspace.dirty_paths contains duplicate ".to_owned().concat(names[i]));
        }
        i += 1;
    }
    None
}

/// The collections of a slice are bounded.
pub open spec fn slice_bounds_failure(slice: ImplementationSlice) -> Failure {
    or_else(
        bound_failure("depends_on"@, slice.depends_on@.len()),
        or_else(
            bound_failure("files"@, slice.files@.len()),
            or_else(
                bound_failure("required_reads"@, slice.required_reads@.len()),
                or_else(
                    bound_failure("conditional_reads"@, slice.conditional_reads@.len()),
                    or_else(
                        bound_failure("start_condition"@, slice.start_condition@.len()),
                        or_else(
                            bound_failure("steps"@, slice.steps@.len()),
                            or_else(
                                bound_failure("verification"@, slice.verification@.len()),
                                bound_failure("done_when"@, slice.done_when@.len()),
                            ),
                        ),
                    ),
                ),
            ),
        ),
    )
}

fn bounded_slice(slice: &ImplementationSlice) -> (r: Option<String>)
    ensures
        r.abs() == slice_bounds_failure(*slice),
{
    if let Some(fault) = bounded_collection("depends_on", slice.depends_on.len()) {
        return Some(fault);
    }
    if let Some(fault) = bounded_collection("files", slice.files.len()) {
        return Some(fault);
    }
    if let Some(fault) = bounded_collection("required_reads", slice.required_reads.len()) {
        return Some(fault);
    }
    if let Some(fault) = bounded_collection("conditional_reads", slice.conditional_reads.len()) {
        return Some(fault);
    }
    if let Some(fault) = bounded_collection("start_condition", slice.start_condition.len()) {
        return Some(fault);
    }
    if let Some(fault) = bounded_collection("steps", slice.steps.len()) {
        return Some(fault);
    }
    if let Some(fault) = bounded_collection("verification", slice.verification.len()) {
        return Some(fault);
    }
    bounded_collection("done_when", slice.done_when.len())
}

pub open spec fn slice_bounds_checks(items: Seq<ImplementationSlice>) -> spec_fn(int) -> Failure {
    |i: int| slice_bounds_failure(items[i])
}

pub(crate) fn bounded_slices(items: &Vec<ImplementationSlice>) -> (r: Option<String>)
    ensures
        r.abs() == first_of(items@.len() as int, slice_bounds_checks(items@)),
{
    let ghost check = slice_bounds_checks(items@);
    let mut i: usize = 0;
    while i < items.len()
        invariant
            i <= items@.len(),
            check == slice_bounds_checks(items@),
            first_of(i as int, check) is None,
        decreases items@.len() - i,
    {
        if let Some(fault) = bounded_slice(&items[i]) {
            proof {
                lemma_first_fault(i + 1, items@.len() as int, check);
            }
            return Some(fault);
        }
        i += 1;
    }
    None
}

/// The objective has bounded, sourced acceptance checks.
pub open spec fn objective_failure(plan: ImplementationPlan) -> Failure {
    let acceptance = plan.objective.acceptance@;
    or_else(
        fault_if(acceptance.len() == 0, "objective.acceptance must be non-empty"@),
        or_else(
            bound_failure("objective.acceptance"@, acceptance.len()),
            or_else(
                sources_failure("objective.sources"@, plan.objective.sources@),
                first_of(
                    acceptance.len() as int,
                    check_checks(acceptance, "objective.acceptance"@),
                ),
            ),
        ),
    )
}

pub(crate) fn validate_objective(plan: &ImplementationPlan) -> (r: Option<String>)
    ensures
        r.abs() == objective_failure(*plan),
{
    if plan.objective.acceptance.len() == 0 {
        return Some("objective.acceptance must be non-empty".to_owned());
    }
    if let Some(fault) = bounded_collection(
        "objective.acceptance",
        plan.objective.acceptance.len(),
    ) {
        return Some(fault);
    }
    if let Some(fault) = validate_sources("objective.sources", &plan.objective.sources) {
        return Some(fault);
    }
    validate_checks(&plan.objective.acceptance, "objective.acceptance")
}

/// The IDs of a plan are unique in their namespaces.
pub open spec fn plan_ids_failure(plan: ImplementationPlan) -> Failure {
    or_else(
        unique_failure("evidence"@, keys(plan.evidence@)),
        or_else(
            unique_failure("decisions"@, keys(plan.decisions@)),
            or_else(
                unique_failure("invariants"@, keys(plan.invariants@)),
                or_else(
                    unique_failure("slices"@, keys(plan.slices@)),
                    or_else(
                        unique_failure("open_decisions"@, keys(plan.open_decisions@)),
                        unique_failure("acceptance checks"@, keys(plan.objective.acceptance@)),
                    ),
                ),
            ),
        ),
    )
}

pub(crate) fn validate_plan_ids(plan: &ImplementationPlan) -> (r: Option<String>)
    ensures
        r.abs() == plan_ids_failure(*plan),
{
    if let Some(fault) = unique_ids("evidence", &keys_of(&plan.evidence)) {
        return Some(fault);
    }
    if let Some(fault) = unique_ids("decisions", &keys_of(&plan.decisions)) {
        return Some(fault);
    }
    if let Some(fault) = unique_ids("invariants", &keys_of(&plan.invariants)) {
        return Some(fault);
    }
    if let Some(fault) = unique_ids("slices", &keys_of(&plan.slices)) {
        return Some(fault);
    }
    if let Some(fault) = unique_ids("open_decisions", &keys_of(&plan.open_decisions)) {
        return Some(fault);
    }
    unique_ids("acceptance checks", &keys_of(&plan.objective.acceptance))
}

pub open spec fn evidence_failure(evidence: Evidence) -> Failure {
    sources_failure("evidence.sources"@, evidence.sources@)
}

fn validate_evidence(evidence: &Evidence) -> (r: Option<String>)
    ensures
        r.abs() == evidence_failure(*evidence),
{
    validate_sources("evidence.sources", &evidence.sources)
}

pub open spec fn evidence_checks(items: Seq<Evidence>) -> spec_fn(int) -> Failure {
    |i: int| evidence_failure(items[i])
}

pub(crate) fn validate_all_evidence(items: &Vec<Evidence>) -> (r: Option<String>)
    ensures
        r.abs() == first_of(items@.len() as int, evidence_checks(items@)),
{
    let ghost check = evidence_checks(items@);
    let mut i: usize = 0;
    while i < items.len()
        invariant
            i <= items@.len(),
            check == evidence_checks(items@),
            first_of(i as int, check) is None,
        decreases items@.len() - i,
    {
        if let Some(fault) = validate_evidence(&items[i]) {
            proof {
                lemma_first_fault(i + 1, items@.len() as int, check);
            }
            return Some(fault);
        }
        i += 1;
    }
    None
}

pub open spec fn decision_failure(decision: Decision) -> Failure {
    sources_failure("decision.sources"@, decision.sources@)
}

fn validate_decision(decision: &Decision) -> (r: Option<String>)
    ensures
        r.abs() == decision_failure(*decision),
{
    validate_sources("decision.sources", &decision.sources)
}

pub open spec fn decision_checks(items: Seq<Decision>) -> spec_fn(int) -> Failure {
    |i: int| decision_failure(items[i])
}

pub(crate) fn validate_all_decisions(items: &Vec<Decision>) -> (r: Option<String>)
    ensures
        r.abs() == first_of(items@.len() as int, decision_checks(items@)),
{
    let ghost check = decision_checks(items@);
    let mut i: usize = 0;
    while i < items.len()
        invariant
            i <= items@.len(),
            check == decision_checks(items@),
            first_of(i as int, check) is None,
        decreases items@.len() - i,
    {
        if let Some(fault) = validate_decision(&items[i]) {
            proof {
                lemma_first_fault(i + 1, items@.len() as int, check);
            }
            return Some(fault);
        }
        i += 1;
    }
    None
}

pub open spec fn invariant_failure(item: Invariant) -> Failure {
    sources_failure("invariant.sources"@, item.sources@)
}

fn validate_invariant(item: &Invariant) -> (r: Option<String>)
    ensures
        r.abs() == invariant_failure(*item),
{
    validate_sources("invariant.sources", &item.sources)
}

pub open spec fn invariant_checks(items: Seq<Invariant>) -> spec_fn(int) -> Failure {
    |i: int| invariant_failure(items[i])
}

pub(crate) fn validate_all_invariants(items: &Vec<Invariant>) -> (r: Option<String>)
    ensures
        r.abs() == first_of(items@.len() as int, invariant_checks(items@)),
{
    let ghost check = invariant_checks(items@);
    let mut i: usize = 0;
    while i < items.len()
        invariant
            i <= items@.len(),
            check == invariant_checks(items@),
            first_of(i as int, check) is None,
        decreases items@.len() - i,
    {
        if let Some(fault) = validate_invariant(&items[i]) {
            proof {
                lemma_first_fault(i + 1, items@.len() as int, check);
            }
            return Some(fault);
        }
        i += 1;
    }
    None
}

// ---------------------------------------------------------------------------
// Checks and reads over all slices
// ---------------------------------------------------------------------------

/// The IDs of the acceptance checks and of the checks of the first `n` slices.
pub open spec fn checks_before(plan: ImplementationPlan, n: int) -> Seq<Seq<char>>
    decreases n,
{
    if n <= 0 {
        keys(plan.objective.acceptance@)
    } else {
        checks_before(plan, n - 1) + keys(plan.slices@[n - 1].done_when@)
    }
}

/// The IDs of all checks.
pub open spec fn all_checks(plan: ImplementationPlan) -> Seq<Seq<char>> {
    checks_before(plan, plan.slices@.len() as int)
}

pub open spec fn done_checks(before: Seq<Seq<char>>, ids: Seq<Seq<char>>) -> spec_fn(
    int,
) -> Failure {
    |i: int|
        fault_if((before + ids.take(i)).contains(ids[i]), "duplicate check ID "@ + ids[i])
}

/// The checks of a slice have IDs of their own, among themselves and among
/// those of the acceptance and of earlier slices.
pub open spec fn done_failure(before: Seq<Seq<char>>, ids: Seq<Seq<char>>) -> Failure {
    or_else(
        unique_failure("done_when checks"@, ids),
        first_of(ids.len() as int, done_checks(before, ids)),
    )
}

pub open spec fn slice_done_checks(plan: ImplementationPlan) -> spec_fn(int) -> Failure {
    |i: int| done_failure(checks_before(plan, i), keys(plan.slices@[i].done_when@))
}

fn validate_done(before: &Vec<&str>, ids: &Vec<&str>) -> (r: Option<String>)
    ensures
        r.abs() == done_failure(texts_of(before@), texts_of(ids@)),
{
    if let Some(fault) = unique_ids("done_when checks", ids) {
        return Some(fault);
    }
    let ghost all = texts_of(ids@);
    let ghost check = done_checks(texts_of(before@), all);
    let mut i: usize = 0;
    while i < ids.len()
        invariant
            i <= ids@.len(),
            all == texts_of(ids@),
            unique_failure("done_when checks"@, all) is None,
            check == done_checks(texts_of(before@), all),
            first_of(i as int, check) is None,
        decreases ids@.len() - i,
    {
        assert(all[i as int] == ids@[i as int]@);
        proof {
            lemma_contains_either(texts_of(before@), all.take(i as int), all[i as int]);
        }
        if is_among(ids[i], before) || is_among_first(ids[i], ids, i) {
            proof {
                lemma_first_fault(i + 1, all.len() as int, check);
            }
            return Some("duplicate check ID ".to_owned().concat(ids[i]));
        }
        i += 1;
    }
    None
}

proof fn lemma_contains_either(a: Seq<Seq<char>>, b: Seq<Seq<char>>, text: Seq<char>)
    ensures
        (a + b).contains(text) == (a.contains(text) || b.contains(text)),
{
    let all = a + b;
    if a.contains(text) {
        let i = choose|i: int| 0 <= i < a.len() && a[i] == text;
        assert(all[i] == text);
    }
    if b.contains(text) {
        let i = choose|i: int| 0 <= i < b.len() && b[i] == text;
        assert(all[a.len() + i] == text);
    }
    if all.contains(text) {
        let i = choose|i: int| 0 <= i < all.len() && all[i] == text;
        if i < a.len() {
            assert(a[i] == text);
        } else {
            assert(b[i - a.len()] == text);
        }
    }
}

/// The IDs of all checks, where none of a slice occurs twice.
pub(crate) fn validate_all_done<'a>(plan: &'a ImplementationPlan) -> (r: Result<Vec<&'a str>, String>)
    ensures
        match r {
            Ok(ids) => first_of(plan.slices@.len() as int, slice_done_checks(*plan)) is None
                && texts_of(ids@) == all_checks(*plan),
            Err(fault) => first_of(plan.slices@.len() as int, slice_done_checks(*plan)) == Some(
                fault@,
            ),
        },
{
    let ghost check = slice_done_checks(*plan);
    let mut all: Vec<&'a str> = keys_of(&plan.objective.acceptance);
    let mut i: usize = 0;
    while i < plan.slices.len()
        invariant
            i <= plan.slices@.len(),
            check == slice_done_checks(*plan),
            texts_of(all@) == checks_before(*plan, i as int),
            first_of(i as int, check) is None,
        decreases plan.slices@.len() - i,
    {
        let ids: Vec<&str> = keys_of(&plan.slices[i].done_when);
        if let Some(fault) = validate_done(&all, &ids) {
            proof {
                lemma_first_fault(i + 1, plan.slices@.len() as int, check);
            }
            return Err(fault);
        }
        push_keys(&mut all, &plan.slices[i].done_when);
        i += 1;
    }
    Ok(all)
}

/// The IDs of the reads of conditions.
pub open spec fn conditional_read_ids(reads: Seq<ConditionalRead>) -> Seq<Seq<char>> {
    Seq::new(reads.len(), |i: int| reads[i].read.id@)
}

/// The IDs of the reads of a slice, conditional or not.
pub open spec fn read_ids(slice: ImplementationSlice) -> Seq<Seq<char>> {
    keys(slice.required_reads@) + conditional_read_ids(slice.conditional_reads@)
}

/// The IDs of the reads of the first `n` slices.
pub open spec fn reads_before(plan: ImplementationPlan, n: int) -> Seq<Seq<char>>
    decreases n,
{
    if n <= 0 {
        Seq::empty()
    } else {
        reads_before(plan, n - 1) + read_ids(plan.slices@[n - 1])
    }
}

/// The IDs of the conditions of the first `n` slices.
pub open spec fn conditions_before(plan: ImplementationPlan, n: int) -> Seq<Seq<char>>
    decreases n,
{
    if n <= 0 {
        Seq::empty()
    } else {
        conditions_before(plan, n - 1) + keys(plan.slices@[n - 1].conditional_reads@)
    }
}

pub open spec fn read_failure(read: ReadRequirement) -> Failure {
    or_else(
        bound_failure("read.symbols_or_ranges"@, read.symbols_or_ranges@.len()),
        root_failure("read.path"@, read.path@),
    )
}

fn validate_read(read: &ReadRequirement) -> (r: Option<String>)
    ensures
        r.abs() == read_failure(*read),
{
    if let Some(fault) = bounded_collection(
        "read.symbols_or_ranges",
        read.symbols_or_ranges.len(),
    ) {
        return Some(fault);
    }
    validate_file_path("read.path", &read.path)
}

pub open spec fn required_checks(
    before: Seq<Seq<char>>,
    reads: Seq<ReadRequirement>,
) -> spec_fn(int) -> Failure {
    |i: int|
        or_else(
            read_failure(reads[i]),
            fault_if(
                (before + keys(reads).take(i)).contains(reads[i].id@),
                "duplicate ReadRequirement ID "@ + reads[i].id@,
            ),
        )
}

pub open spec fn conditional_checks(
    before: Seq<Seq<char>>,
    conditions: Seq<Seq<char>>,
    reads: Seq<ConditionalRead>,
) -> spec_fn(int) -> Failure {
    |i: int|
        or_else(
            fault_if(
                (conditions + keys(reads).take(i)).contains(reads[i].id@),
                "duplicate ConditionalRead ID "@ + reads[i].id@,
            ),
            or_else(
                read_failure(reads[i].read),
                fault_if(
                    (before + conditional_read_ids(reads).take(i)).contains(reads[i].read.id@),
                    "duplicate ReadRequirement ID "@ + reads[i].read.id@,
                ),
            ),
        )
}

/// The reads of a slice have IDs of their own, among themselves and among
/// those of earlier slices.
pub open spec fn reads_failure(
    before: Seq<Seq<char>>,
    conditions: Seq<Seq<char>>,
    slice: ImplementationSlice,
) -> Failure {
    or_else(
        first_of(
            slice.required_reads@.len() as int,
            required_checks(before, slice.required_reads@),
        ),
        first_of(
            slice.conditional_reads@.len() as int,
            conditional_checks(
                before + keys(slice.required_reads@),
                conditions,
                slice.conditional_reads@,
            ),
        ),
    )
}

pub open spec fn slice_read_checks(plan: ImplementationPlan) -> spec_fn(int) -> Failure {
    |i: int|
        reads_failure(reads_before(plan, i), conditions_before(plan, i), plan.slices@[i])
}

/// Checks the required reads of a slice; `before` gains their IDs.
fn validate_required<'a>(
    before: &mut Vec<&'a str>,
    reads: &'a Vec<ReadRequirement>,
) -> (r: Option<String>)
    ensures
        r.abs() == first_of(
            reads@.len() as int,
            required_checks(texts_of(old(before)@), reads@),
        ),
        r is None ==> texts_of(final(before)@) == texts_of(old(before)@) + keys(reads@),
{
    let ghost start = texts_of(before@);
    let ghost ids = keys(reads@);
    let ghost check = required_checks(start, reads@);
    let mut i: usize = 0;
    assert(start + ids.take(0) =~= start);
    while i < reads.len()
        invariant
            i <= reads@.len(),
            ids == keys(reads@),
            start == texts_of(old(before)@),
            check == required_checks(start, reads@),
            texts_of(before@) == start + ids.take(i as int),
            first_of(i as int, check) is None,
        decreases reads@.len() - i,
    {
        let read: &'a ReadRequirement = &reads[i];
        if let Some(fault) = validate_read(read) {
            proof {
                lemma_first_fault(i + 1, reads@.len() as int, check);
            }
            return Some(fault);
        }
        if is_among(read.id.as_str(), before) {
            proof {
                lemma_first_fault(i + 1, reads@.len() as int, check);
            }
            return Some("duplicate ReadRequirement ID ".to_owned().concat(read.id.as_str()));
        }
        let ghost earlier = texts_of(before@);
        before.push(read.id.as_str());
        assert(texts_of(before@) =~= earlier.push(ids[i as int]));
        assert(earlier.push(ids[i as int]) =~= start + ids.take(i + 1));
        i += 1;
    }
    assert(ids.take(i as int) =~= ids);
    None
}

/// Checks the conditional reads of a slice; `before` gains the IDs of the
/// reads and `conditions` those of the conditions.
fn validate_conditional<'a>(
    before: &mut Vec<&'a str>,
    conditions: &mut Vec<&'a str>,
    reads: &'a Vec<ConditionalRead>,
) -> (r: Option<String>)
    ensures
        r.abs() == first_of(
            reads@.len() as int,
            conditional_checks(texts_of(old(before)@), texts_of(old(conditions)@), reads@),
        ),
        r is None ==> texts_of(final(before)@) == texts_of(old(before)@) + conditional_read_ids(
            reads@,
        ),
        r is None ==> texts_of(final(conditions)@) == texts_of(old(conditions)@) + keys(reads@),
{
    let ghost start = texts_of(before@);
    let ghost first = texts_of(conditions@);
    let ghost ids = conditional_read_ids(reads@);
    let ghost marks = keys(reads@);
    let ghost check = conditional_checks(start, first, reads@);
    let mut i: usize = 0;
    assert(start + ids.take(0) =~= start);
    assert(first + marks.take(0) =~= first);
    while i < reads.len()
        invariant
            i <= reads@.len(),
            ids == conditional_read_ids(reads@),
            marks == keys(reads@),
            start == texts_of(old(before)@),
            first == texts_of(old(conditions)@),
            check == conditional_checks(start, first, reads@),
            texts_of(before@) == start + ids.take(i as int),
            texts_of(conditions@) == first + marks.take(i as int),
            first_of(i as int, check) is None,
        decreases reads@.len() - i,
    {
        let conditional: &'a ConditionalRead = &reads[i];
        if is_among(conditional.id.as_str(), conditions) {
            proof {
                lemma_first_fault(i + 1, reads@.len() as int, check);
            }
            return Some(
                "duplicate ConditionalRead ID ".to_owned().concat(conditional.id.as_str()),
            );
        }
        if let Some(fault) = validate_read(&conditional.read) {
            proof {
                lemma_first_fault(i + 1, reads@.len() as int, check);
            }
            return Some(fault);
        }
        if is_among(conditional.read.id.as_str(), before) {
            proof {
                lemma_first_fault(i + 1, reads@.len() as int, check);
            }
            return Some(
                "duplicate ReadRequirement ID ".to_owned().concat(conditional.read.id.as_str()),
            );
        }
        let ghost earlier = texts_of(before@);
        let ghost marked = texts_of(conditions@);
        before.push(conditional.read.id.as_str());
        conditions.push(conditional.id.as_str());
        assert(texts_of(before@) =~= earlier.push(ids[i as int]));
        assert(earlier.push(ids[i as int]) =~= start + ids.take(i + 1));
        assert(texts_of(conditions@) =~= marked.push(marks[i as int]));
        assert(marked.push(marks[i as int]) =~= first + marks.take(i + 1));
        i += 1;
    }
    assert(ids.take(i as int) =~= ids);
    assert(marks.take(i as int) =~= marks);
    None
}

pub(crate) fn validate_all_reads(plan: &ImplementationPlan) -> (r: Option<String>)
    ensures
        r.abs() == first_of(plan.slices@.len() as int, slice_read_checks(*plan)),
{
    let ghost check = slice_read_checks(*plan);
    let mut before: Vec<&str> = Vec::new();
    let mut conditions: Vec<&str> = Vec::new();
    let mut i: usize = 0;
    assert(texts_of(before@) =~= Seq::<Seq<char>>::empty());
    assert(texts_of(conditions@) =~= Seq::<Seq<char>>::empty());
    while i < plan.slices.len()
        invariant
            i <= plan.slices@.len(),
            check == slice_read_checks(*plan),
            texts_of(before@) == reads_before(*plan, i as int),
            texts_of(conditions@) == conditions_before(*plan, i as int),
            first_of(i as int, check) is None,
        decreases plan.slices@.len() - i,
    {
        let slice: &ImplementationSlice = &plan.slices[i];
        if let Some(fault) = validate_required(&mut before, &slice.required_reads) {
            proof {
                lemma_first_fault(i + 1, plan.slices@.len() as int, check);
            }
            return Some(fault);
        }
        if let Some(fault) = validate_conditional(
            &mut before,
            &mut conditions,
            &slice.conditional_reads,
        ) {
            proof {
                lemma_first_fault(i + 1, plan.slices@.len() as int, check);
            }
            return Some(fault);
        }
        assert(texts_of(before@) =~= reads_before(*plan, i + 1));
        i += 1;
    }
    None
}

} // verus!
