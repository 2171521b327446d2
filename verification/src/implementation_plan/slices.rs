//! What makes the slices of an implementation plan valid.

use vstd::prelude::*;
use vstd::string::*;

use super::graph::{graph_of, is_acyclic, is_cyclic, node_names, Graph, Node};
use super::ids::PlanItemId;
use super::model::{
    FileChange, ImplementationPlan, ImplementationSlice, ImplementationStep, Verification,
};
use super::validation::{
    all_checks, bound_failure, bounded_collection, check_checks, conditional_read_ids, fault_if,
    first_of, keys, keys_of, lemma_first_fault, or_else, push_keys, read_ids, root_failure,
    validate_checks, validate_file_path, Failure, Keyed,
};
use crate::order::{are_distinct, distinct, is_among, texts_of};
use crate::text::{
    ascii_lowered, lowered, same_text, strip_prefix, trim, trimmed, without_prefix,
};
use crate::value::{contents, Abstract};

verus! {

// ---------------------------------------------------------------------------
// Names that are referred to
// ---------------------------------------------------------------------------

/// The names that the slices of a plan may refer to.
pub struct NameTables<'a> {
    pub slices: Vec<&'a str>,
    pub evidence: Vec<&'a str>,
    pub invariants: Vec<&'a str>,
    pub checks: Vec<&'a str>,
}

impl<'a> NameTables<'a> {
    pub open spec fn are_of(&self, plan: ImplementationPlan) -> bool {
        &&& texts_of(self.slices@) == keys(plan.slices@)
        &&& texts_of(self.evidence@) == keys(plan.evidence@)
        &&& texts_of(self.invariants@) == keys(plan.invariants@)
        &&& texts_of(self.checks@) == all_checks(plan)
    }
}

/// A reference names either an invariant or a check, and not both.
pub open spec fn cover_failure(
    plan: ImplementationPlan,
    reference: Seq<char>,
    field: Seq<char>,
) -> Failure {
    fault_if(
        keys(plan.invariants@).contains(reference) == all_checks(plan).contains(reference),
        field + " has missing or ambiguous coverage reference "@ + reference,
    )
}

pub open spec fn cover_checks(
    plan: ImplementationPlan,
    references: Seq<PlanItemId>,
    field: Seq<char>,
) -> spec_fn(int) -> Failure {
    |i: int| cover_failure(plan, references[i]@, field)
}

fn validate_covers(
    plan: Ghost<ImplementationPlan>,
    tables: &NameTables,
    references: &Vec<PlanItemId>,
    field: &str,
) -> (r: Option<String>)
    requires
        tables.are_of(plan@),
    ensures
        r.abs() == first_of(
            references@.len() as int,
            cover_checks(plan@, references@, field@),
        ),
{
    let ghost check = cover_checks(plan@, references@, field@);
    let mut i: usize = 0;
    while i < references.len()
        invariant
            i <= references@.len(),
            tables.are_of(plan@),
            check == cover_checks(plan@, references@, field@),
            first_of(i as int, check) is None,
        decreases references@.len() - i,
    {
        let reference: &str = references[i].as_str();
        if is_among(reference, &tables.invariants) == is_among(reference, &tables.checks) {
            proof {
                lemma_first_fault(i + 1, references@.len() as int, check);
            }
            return Some(
                field.to_owned().concat(" has missing or ambiguous coverage reference ").concat(
                    reference,
                ),
            );
        }
        i += 1;
    }
    None
}

// ---------------------------------------------------------------------------
// Slice dependencies, files and start conditions
// ---------------------------------------------------------------------------

/// A fault of a slice.
pub open spec fn slice_fault(slice: ImplementationSlice, fault: Seq<char>) -> Seq<char> {
    "slice "@ + slice.id@ + fault
}

fn slice_fault_text(slice: &ImplementationSlice, fault: &str) -> (r: String)
    ensures
        r@ == slice_fault(*slice, fault@),
{
    "slice ".to_owned().concat(slice.id.as_str()).concat(fault)
}

pub open spec fn dependency_checks(
    plan: ImplementationPlan,
    slice: ImplementationSlice,
) -> spec_fn(int) -> Failure {
    |i: int|
        fault_if(
            !keys(plan.slices@).contains(slice.depends_on@[i]@),
            "slice "@ + slice.id@ + " has dangling dependency "@ + slice.depends_on@[i]@,
        )
}

fn validate_dependencies(
    plan: Ghost<ImplementationPlan>,
    tables: &NameTables,
    slice: &ImplementationSlice,
) -> (r: Option<String>)
    requires
        tables.are_of(plan@),
    ensures
        r.abs() == first_of(slice.depends_on@.len() as int, dependency_checks(plan@, *slice)),
{
    let ghost check = dependency_checks(plan@, *slice);
    let mut i: usize = 0;
    while i < slice.depends_on.len()
        invariant
            i <= slice.depends_on@.len(),
            tables.are_of(plan@),
            check == dependency_checks(plan@, *slice),
            first_of(i as int, check) is None,
        decreases slice.depends_on@.len() - i,
    {
        let dependency: &str = slice.depends_on[i].as_str();
        if !is_among(dependency, &tables.slices) {
            proof {
                lemma_first_fault(i + 1, slice.depends_on@.len() as int, check);
            }
            return Some(
                "slice ".to_owned().concat(slice.id.as_str()).concat(
                    " has dangling dependency ",
                ).concat(dependency),
            );
        }
        i += 1;
    }
    None
}

pub open spec fn file_failure(file: FileChange) -> Failure {
    or_else(
        root_failure("slice.files.path"@, file.path@),
        bound_failure("slice.files.symbols"@, file.symbols@.len()),
    )
}

pub open spec fn file_checks(files: Seq<FileChange>) -> spec_fn(int) -> Failure {
    |i: int| file_failure(files[i])
}

/// The files of a slice are declared once each, and each is a file.
pub open spec fn files_failure(slice: ImplementationSlice) -> Failure {
    or_else(
        fault_if(
            !are_distinct(keys(slice.files@)),
            slice_fault(slice, " declares duplicate files"@),
        ),
        first_of(slice.files@.len() as int, file_checks(slice.files@)),
    )
}

fn validate_files(slice: &ImplementationSlice) -> (r: Option<String>)
    ensures
        r.abs() == files_failure(*slice),
{
    if !distinct(&keys_of(&slice.files)) {
        return Some(slice_fault_text(slice, " declares duplicate files"));
    }
    let ghost check = file_checks(slice.files@);
    let mut i: usize = 0;
    while i < slice.files.len()
        invariant
            i <= slice.files@.len(),
            are_distinct(keys(slice.files@)),
            check == file_checks(slice.files@),
            first_of(i as int, check) is None,
        decreases slice.files@.len() - i,
    {
        if let Some(fault) = validate_file_path("slice.files.path", &slice.files[i].path) {
            proof {
                lemma_first_fault(i + 1, slice.files@.len() as int, check);
            }
            return Some(fault);
        }
        if let Some(fault) = bounded_collection(
            "slice.files.symbols",
            slice.files[i].symbols.len(),
        ) {
            proof {
                lemma_first_fault(i + 1, slice.files@.len() as int, check);
            }
            return Some(fault);
        }
        i += 1;
    }
    None
}

pub open spec fn start_checks(
    plan: ImplementationPlan,
    slice: ImplementationSlice,
) -> spec_fn(int) -> Failure {
    |i: int|
        {
            let reference = slice.start_condition@[i]@;
            fault_if(
                keys(plan.evidence@).contains(reference) == read_ids(slice).contains(reference),
                "start condition reference "@ + reference + " is missing or ambiguous"@,
            )
        }
}

/// A slice starts on evidence or on reads of its own, and each reference names
/// exactly one of them.
pub open spec fn start_failure(plan: ImplementationPlan, slice: ImplementationSlice) -> Failure {
    or_else(
        fault_if(
            slice.start_condition@.len() == 0,
            slice_fault(slice, " requires a non-empty start_condition"@),
        ),
        first_of(slice.start_condition@.len() as int, start_checks(plan, slice)),
    )
}

/// The IDs of the reads of a slice.
fn local_reads<'a>(slice: &'a ImplementationSlice) -> (r: Vec<&'a str>)
    ensures
        texts_of(r@) == read_ids(*slice),
{
    let mut out: Vec<&'a str> = keys_of(&slice.required_reads);
    let ghost first = keys(slice.required_reads@);
    let ghost ids = conditional_read_ids(slice.conditional_reads@);
    let mut i: usize = 0;
    assert(first + ids.take(0) =~= first);
    while i < slice.conditional_reads.len()
        invariant
            i <= slice.conditional_reads@.len(),
            ids == conditional_read_ids(slice.conditional_reads@),
            texts_of(out@) == first + ids.take(i as int),
        decreases slice.conditional_reads@.len() - i,
    {
        let ghost earlier = texts_of(out@);
        out.push(slice.conditional_reads[i].read.id.as_str());
        assert(texts_of(out@) =~= earlier.push(ids[i as int]));
        assert(earlier.push(ids[i as int]) =~= first + ids.take(i + 1));
        i += 1;
    }
    assert(ids.take(i as int) =~= ids);
    out
}

fn validate_start(
    plan: Ghost<ImplementationPlan>,
    tables: &NameTables,
    slice: &ImplementationSlice,
) -> (r: Option<String>)
    requires
        tables.are_of(plan@),
    ensures
        r.abs() == start_failure(plan@, *slice),
{
    if slice.start_condition.len() == 0 {
        return Some(slice_fault_text(slice, " requires a non-empty start_condition"));
    }
    let reads: Vec<&str> = local_reads(slice);
    let ghost check = start_checks(plan@, *slice);
    let mut i: usize = 0;
    while i < slice.start_condition.len()
        invariant
            i <= slice.start_condition@.len(),
            slice.start_condition@.len() > 0,
            tables.are_of(plan@),
            texts_of(reads@) == read_ids(*slice),
            check == start_checks(plan@, *slice),
            first_of(i as int, check) is None,
        decreases slice.start_condition@.len() - i,
    {
        let reference: &str = slice.start_condition[i].as_str();
        if is_among(reference, &tables.evidence) == is_among(reference, &reads) {
            proof {
                lemma_first_fault(i + 1, slice.start_condition@.len() as int, check);
            }
            return Some(
                "start condition reference ".to_owned().concat(reference).concat(
                    " is missing or ambiguous",
                ),
            );
        }
        i += 1;
    }
    None
}

// ---------------------------------------------------------------------------
// Steps
// ---------------------------------------------------------------------------

pub open spec fn step_file_checks(
    slice: ImplementationSlice,
    step: ImplementationStep,
) -> spec_fn(int) -> Failure {
    |i: int|
        or_else(
            root_failure("step.files"@, step.files@[i]@),
            fault_if(
                !keys(slice.files@).contains(step.files@[i]@),
                "step "@ + step.id@ + " writes undeclared file "@ + step.files@[i]@,
            ),
        )
}

pub open spec fn step_dependency_checks(
    slice: ImplementationSlice,
    step: ImplementationStep,
) -> spec_fn(int) -> Failure {
    |i: int|
        fault_if(
            !keys(slice.steps@).contains(step.depends_on@[i]@),
            "step "@ + step.id@ + " has dangling dependency "@ + step.depends_on@[i]@,
        )
}

/// The collections of a step are bounded.
pub open spec fn step_bounds_failure(step: ImplementationStep) -> Failure {
    or_else(
        bound_failure("step.files"@, step.files@.len()),
        or_else(
            bound_failure("step.symbols"@, step.symbols@.len()),
            or_else(
                bound_failure("step.depends_on"@, step.depends_on@.len()),
                bound_failure("step.satisfies"@, step.satisfies@.len()),
            ),
        ),
    )
}

/// A step names declared files, depends on steps of its slice, and satisfies
/// invariants or checks.
pub open spec fn step_failure(
    plan: ImplementationPlan,
    slice: ImplementationSlice,
    step: ImplementationStep,
) -> Failure {
    or_else(
        step_bounds_failure(step),
        or_else(
            fault_if(
                step.files@.len() == 0,
                "step "@ + step.id@ + " must name affected files"@,
            ),
            or_else(
                first_of(step.files@.len() as int, step_file_checks(slice, step)),
                or_else(
                    first_of(
                        step.depends_on@.len() as int,
                        step_dependency_checks(slice, step),
                    ),
                    first_of(
                        step.satisfies@.len() as int,
                        cover_checks(plan, step.satisfies@, "step"@),
                    ),
                ),
            ),
        ),
    )
}

pub open spec fn step_checks(
    plan: ImplementationPlan,
    slice: ImplementationSlice,
) -> spec_fn(int) -> Failure {
    |i: int| step_failure(plan, slice, slice.steps@[i])
}

fn bounded_step(step: &ImplementationStep) -> (r: Option<String>)
    ensures
        r.abs() == step_bounds_failure(*step),
{
    if let Some(fault) = bounded_collection("step.files", step.files.len()) {
        return Some(fault);
    }
    if let Some(fault) = bounded_collection("step.symbols", step.symbols.len()) {
        return Some(fault);
    }
    if let Some(fault) = bounded_collection("step.depends_on", step.depends_on.len()) {
        return Some(fault);
    }
    bounded_collection("step.satisfies", step.satisfies.len())
}

fn validate_step_files(
    slice: &ImplementationSlice,
    files: &Vec<&str>,
    step: &ImplementationStep,
) -> (r: Option<String>)
    requires
        texts_of(files@) == keys(slice.files@),
    ensures
        r.abs() == first_of(step.files@.len() as int, step_file_checks(*slice, *step)),
{
    let ghost check = step_file_checks(*slice, *step);
    let mut i: usize = 0;
    while i < step.files.len()
        invariant
            i <= step.files@.len(),
            texts_of(files@) == keys(slice.files@),
            check == step_file_checks(*slice, *step),
            first_of(i as int, check) is None,
        decreases step.files@.len() - i,
    {
        if let Some(fault) = validate_file_path("step.files", &step.files[i]) {
            proof {
                lemma_first_fault(i + 1, step.files@.len() as int, check);
            }
            return Some(fault);
        }
        if !is_among(step.files[i].as_str(), files) {
            proof {
                lemma_first_fault(i + 1, step.files@.len() as int, check);
            }
            return Some(
                "step ".to_owned().concat(step.id.as_str()).concat(
                    " writes undeclared file ",
                ).concat(step.files[i].as_str()),
            );
        }
        i += 1;
    }
    None
}

fn validate_step_dependencies(
    slice: &ImplementationSlice,
    steps: &Vec<&str>,
    step: &ImplementationStep,
) -> (r: Option<String>)
    requires
        texts_of(steps@) == keys(slice.steps@),
    ensures
        r.abs() == first_of(step.depends_on@.len() as int, step_dependency_checks(*slice, *step)),
{
    let ghost check = step_dependency_checks(*slice, *step);
    let mut i: usize = 0;
    while i < step.depends_on.len()
        invariant
            i <= step.depends_on@.len(),
            texts_of(steps@) == keys(slice.steps@),
            check == step_dependency_checks(*slice, *step),
            first_of(i as int, check) is None,
        decreases step.depends_on@.len() - i,
    {
        if !is_among(step.depends_on[i].as_str(), steps) {
            proof {
                lemma_first_fault(i + 1, step.depends_on@.len() as int, check);
            }
            return Some(
                "step ".to_owned().concat(step.id.as_str()).concat(
                    " has dangling dependency ",
                ).concat(step.depends_on[i].as_str()),
            );
        }
        i += 1;
    }
    None
}

fn validate_step(
    plan: Ghost<ImplementationPlan>,
    tables: &NameTables,
    slice: &ImplementationSlice,
    files: &Vec<&str>,
    steps: &Vec<&str>,
    step: &ImplementationStep,
) -> (r: Option<String>)
    requires
        tables.are_of(plan@),
        texts_of(files@) == keys(slice.files@),
        texts_of(steps@) == keys(slice.steps@),
    ensures
        r.abs() == step_failure(plan@, *slice, *step),
{
    if let Some(fault) = bounded_step(step) {
        return Some(fault);
    }
    if step.files.len() == 0 {
        return Some(
            "step ".to_owned().concat(step.id.as_str()).concat(" must name affected files"),
        );
    }
    if let Some(fault) = validate_step_files(slice, files, step) {
        return Some(fault);
    }
    if let Some(fault) = validate_step_dependencies(slice, steps, step) {
        return Some(fault);
    }
    validate_covers(plan, tables, &step.satisfies, "step")
}

/// The steps of a slice have IDs of their own, and each is valid.
pub open spec fn steps_failure(plan: ImplementationPlan, slice: ImplementationSlice) -> Failure {
    or_else(
        fault_if(
            !are_distinct(keys(slice.steps@)),
            slice_fault(slice, " has duplicate steps"@),
        ),
        first_of(slice.steps@.len() as int, step_checks(plan, slice)),
    )
}

fn validate_steps(
    plan: Ghost<ImplementationPlan>,
    tables: &NameTables,
    slice: &ImplementationSlice,
) -> (r: Option<String>)
    requires
        tables.are_of(plan@),
    ensures
        r.abs() == steps_failure(plan@, *slice),
{
    let files: Vec<&str> = keys_of(&slice.files);
    let steps: Vec<&str> = keys_of(&slice.steps);
    if !distinct(&steps) {
        return Some(slice_fault_text(slice, " has duplicate steps"));
    }
    let ghost check = step_checks(plan@, *slice);
    let mut i: usize = 0;
    while i < slice.steps.len()
        invariant
            i <= slice.steps@.len(),
            tables.are_of(plan@),
            texts_of(files@) == keys(slice.files@),
            texts_of(steps@) == keys(slice.steps@),
            are_distinct(keys(slice.steps@)),
            check == step_checks(plan@, *slice),
            first_of(i as int, check) is None,
        decreases slice.steps@.len() - i,
    {
        if let Some(fault) = validate_step(plan, tables, slice, &files, &steps, &slice.steps[i]) {
            proof {
                lemma_first_fault(i + 1, slice.steps@.len() as int, check);
            }
            return Some(fault);
        }
        i += 1;
    }
    None
}

// ---------------------------------------------------------------------------
// Verification
// ---------------------------------------------------------------------------

/// A command as it is compared: without white space around it, without a
/// leading `command`, and in lowercase.
pub open spec fn bare_command(command: Seq<char>) -> Seq<char> {
    let normalized = lowered(trimmed(command));
    trimmed(
        match without_prefix(normalized, "command "@) {
            Some(rest) => rest,
            None => normalized,
        },
    )
}

/// Whether a command only looks at the state of the repository.
pub open spec fn is_metadata_only(command: Seq<char>) -> bool {
    let bare = bare_command(command);
    ||| bare == "git status"@
    ||| bare == "git status --short"@
    ||| bare == "git diff"@
    ||| bare == "git diff --check"@
    ||| bare == "git diff --name-only"@
    ||| bare == "git diff --stat"@
    ||| bare == "git diff --name-status"@
    ||| bare == "git status --porcelain"@
}

fn metadata_only_verification(command: &str) -> (b: bool)
    ensures
        b == is_metadata_only(command@),
{
    let normalized: String = ascii_lowered(trim(command).as_str());
    let stripped: String = match strip_prefix(normalized.as_str(), "command ") {
        Some(rest) => rest,
        None => normalized,
    };
    let bare: String = trim(stripped.as_str());
    let text: &str = bare.as_str();
    same_text(text, "git status") || same_text(text, "git status --short") || same_text(
        text,
        "git diff",
    ) || same_text(text, "git diff --check") || same_text(text, "git diff --name-only")
        || same_text(text, "git diff --stat") || same_text(text, "git diff --name-status")
        || same_text(text, "git status --porcelain")
}

/// Whether no verification of the slice shows behaviour.
pub open spec fn shows_no_behavior(verification: Seq<Verification>) -> bool {
    forall|i: int|
        0 <= i < verification.len() ==> is_metadata_only((#[trigger] verification[i]).command@)
}

fn only_metadata(verification: &Vec<Verification>) -> (b: bool)
    ensures
        b == shows_no_behavior(verification@),
{
    let mut i: usize = 0;
    while i < verification.len()
        invariant
            i <= verification@.len(),
            forall|k: int|
                0 <= k < i ==> is_metadata_only((#[trigger] verification@[k]).command@),
        decreases verification@.len() - i,
    {
        if !metadata_only_verification(verification[i].command.as_str()) {
            return false;
        }
        i += 1;
    }
    true
}

pub open spec fn verification_failure(
    plan: ImplementationPlan,
    verification: Verification,
) -> Failure {
    or_else(
        bound_failure("verification.covers"@, verification.covers@.len()),
        or_else(
            bound_failure(
                "verification.expected.stdout_contains"@,
                verification.expected.stdout_contains@.len(),
            ),
            or_else(
                bound_failure(
                    "verification.expected.stderr_contains"@,
                    verification.expected.stderr_contains@.len(),
                ),
                first_of(
                    verification.covers@.len() as int,
                    cover_checks(plan, verification.covers@, "verification"@),
                ),
            ),
        ),
    )
}

pub open spec fn verification_checks(
    plan: ImplementationPlan,
    slice: ImplementationSlice,
) -> spec_fn(int) -> Failure {
    |i: int| verification_failure(plan, slice.verification@[i])
}

fn validate_verification(
    plan: Ghost<ImplementationPlan>,
    tables: &NameTables,
    verification: &Verification,
) -> (r: Option<String>)
    requires
        tables.are_of(plan@),
    ensures
        r.abs() == verification_failure(plan@, *verification),
{
    if let Some(fault) = bounded_collection("verification.covers", verification.covers.len()) {
        return Some(fault);
    }
    if let Some(fault) = bounded_collection(
        "verification.expected.stdout_contains",
        verification.expected.stdout_contains.len(),
    ) {
        return Some(fault);
    }
    if let Some(fault) = bounded_collection(
        "verification.expected.stderr_contains",
        verification.expected.stderr_contains.len(),
    ) {
        return Some(fault);
    }
    validate_covers(plan, tables, &verification.covers, "verification")
}

fn validate_verifications(
    plan: Ghost<ImplementationPlan>,
    tables: &NameTables,
    slice: &ImplementationSlice,
) -> (r: Option<String>)
    requires
        tables.are_of(plan@),
    ensures
        r.abs() == first_of(slice.verification@.len() as int, verification_checks(plan@, *slice)),
{
    let ghost check = verification_checks(plan@, *slice);
    let mut i: usize = 0;
    while i < slice.verification.len()
        invariant
            i <= slice.verification@.len(),
            tables.are_of(plan@),
            check == verification_checks(plan@, *slice),
            first_of(i as int, check) is None,
        decreases slice.verification@.len() - i,
    {
        if let Some(fault) = validate_verification(plan, tables, &slice.verification[i]) {
            proof {
                lemma_first_fault(i + 1, slice.verification@.len() as int, check);
            }
            return Some(fault);
        }
        i += 1;
    }
    None
}

// ---------------------------------------------------------------------------
// A slice as a whole
// ---------------------------------------------------------------------------

/// The steps of a slice and what they depend on.
pub open spec fn step_graph(slice: ImplementationSlice) -> Graph {
    Seq::new(
        slice.steps@.len(),
        |i: int| (slice.steps@[i].id@, contents(slice.steps@[i].depends_on@)),
    )
}

/// The slices of a plan and what they depend on.
pub open spec fn slice_graph(plan: ImplementationPlan) -> Graph {
    Seq::new(
        plan.slices@.len(),
        |i: int| (plan.slices@[i].id@, contents(plan.slices@[i].depends_on@)),
    )
}

fn steps_are_acyclic(slice: &ImplementationSlice) -> (b: bool)
    requires
        are_distinct(keys(slice.steps@)),
    ensures
        b == !is_cyclic(step_graph(*slice)),
{
    let mut nodes: Vec<Node> = Vec::new();
    let mut i: usize = 0;
    while i < slice.steps.len()
        invariant
            i <= slice.steps@.len(),
            nodes@.len() == i,
            forall|k: int|
                0 <= k < i ==> (#[trigger] nodes@[k]).name@ == slice.steps@[k].id@
                    && nodes@[k].depends_on == &slice.steps@[k].depends_on,
        decreases slice.steps@.len() - i,
    {
        let step: &ImplementationStep = &slice.steps[i];
        nodes.push(Node { name: step.id.as_str(), depends_on: &step.depends_on });
        i += 1;
    }
    assert(graph_of(nodes@) =~= step_graph(*slice));
    assert(node_names(step_graph(*slice)) =~= keys(slice.steps@));
    is_acyclic(&nodes)
}

pub(crate) fn slices_are_acyclic(plan: &ImplementationPlan) -> (b: bool)
    requires
        are_distinct(keys(plan.slices@)),
    ensures
        b == !is_cyclic(slice_graph(*plan)),
{
    let mut nodes: Vec<Node> = Vec::new();
    let mut i: usize = 0;
    while i < plan.slices.len()
        invariant
            i <= plan.slices@.len(),
            nodes@.len() == i,
            forall|k: int|
                0 <= k < i ==> (#[trigger] nodes@[k]).name@ == plan.slices@[k].id@
                    && nodes@[k].depends_on == &plan.slices@[k].depends_on,
        decreases plan.slices@.len() - i,
    {
        let slice: &ImplementationSlice = &plan.slices[i];
        nodes.push(Node { name: slice.id.as_str(), depends_on: &slice.depends_on });
        i += 1;
    }
    assert(graph_of(nodes@) =~= slice_graph(*plan));
    assert(node_names(slice_graph(*plan)) =~= keys(plan.slices@));
    is_acyclic(&nodes)
}

/// What follows the steps of a slice: it has steps, verification and checks,
/// one of its verifications shows behaviour, and its steps have no cycle.
pub open spec fn completion_failure(
    plan: ImplementationPlan,
    slice: ImplementationSlice,
) -> Failure {
    or_else(
        fault_if(
            slice.steps@.len() == 0 || slice.verification@.len() == 0 || slice.done_when@.len()
                == 0,
            slice_fault(slice, " requires steps, verification, and done_when"@),
        ),
        or_else(
            fault_if(
                shows_no_behavior(slice.verification@),
                slice_fault(
                    slice,
                    " requires an executable behavior verification; repository-state checks are not sufficient"@,
                ),
            ),
            or_else(
                first_of(
                    slice.done_when@.len() as int,
                    check_checks(slice.done_when@, "slice.done_when"@),
                ),
                or_else(
                    first_of(
                        slice.verification@.len() as int,
                        verification_checks(plan, slice),
                    ),
                    fault_if(
                        is_cyclic(step_graph(slice)),
                        slice_fault(slice, " step dependency graph contains a cycle"@),
                    ),
                ),
            ),
        ),
    )
}

/// Why a slice is not valid in its plan.
pub open spec fn slice_failure(plan: ImplementationPlan, slice: ImplementationSlice) -> Failure {
    or_else(
        first_of(slice.depends_on@.len() as int, dependency_checks(plan, slice)),
        or_else(
            files_failure(slice),
            or_else(
                start_failure(plan, slice),
                or_else(steps_failure(plan, slice), completion_failure(plan, slice)),
            ),
        ),
    )
}

fn validate_completion(
    plan: Ghost<ImplementationPlan>,
    tables: &NameTables,
    slice: &ImplementationSlice,
) -> (r: Option<String>)
    requires
        tables.are_of(plan@),
        are_distinct(keys(slice.steps@)),
    ensures
        r.abs() == completion_failure(plan@, *slice),
{
    if slice.steps.len() == 0 || slice.verification.len() == 0 || slice.done_when.len() == 0 {
        return Some(slice_fault_text(slice, " requires steps, verification, and done_when"));
    }
    if only_metadata(&slice.verification) {
        return Some(
            slice_fault_text(
                slice,
                " requires an executable behavior verification; repository-state checks are not sufficient",
            ),
        );
    }
    if let Some(fault) = validate_checks(&slice.done_when, "slice.done_when") {
        return Some(fault);
    }
    if let Some(fault) = validate_verifications(plan, tables, slice) {
        return Some(fault);
    }
    if !steps_are_acyclic(slice) {
        return Some(slice_fault_text(slice, " step dependency graph contains a cycle"));
    }
    None
}

fn validate_slice(
    plan: Ghost<ImplementationPlan>,
    tables: &NameTables,
    slice: &ImplementationSlice,
) -> (r: Option<String>)
    requires
        tables.are_of(plan@),
    ensures
        r.abs() == slice_failure(plan@, *slice),
{
    if let Some(fault) = validate_dependencies(plan, tables, slice) {
        return Some(fault);
    }
    if let Some(fault) = validate_files(slice) {
        return Some(fault);
    }
    if let Some(fault) = validate_start(plan, tables, slice) {
        return Some(fault);
    }
    if let Some(fault) = validate_steps(plan, tables, slice) {
        return Some(fault);
    }
    validate_completion(plan, tables, slice)
}

pub open spec fn slice_checks(plan: ImplementationPlan) -> spec_fn(int) -> Failure {
    |i: int| slice_failure(plan, plan.slices@[i])
}

pub(crate) fn validate_slices(plan: &ImplementationPlan, tables: &NameTables) -> (r: Option<
    String,
>)
    requires
        tables.are_of(*plan),
    ensures
        r.abs() == first_of(plan.slices@.len() as int, slice_checks(*plan)),
{
    let ghost check = slice_checks(*plan);
    let mut i: usize = 0;
    while i < plan.slices.len()
        invariant
            i <= plan.slices@.len(),
            tables.are_of(*plan),
            check == slice_checks(*plan),
            first_of(i as int, check) is None,
        decreases plan.slices@.len() - i,
    {
        if let Some(fault) = validate_slice(Ghost(*plan), tables, &plan.slices[i]) {
            proof {
                lemma_first_fault(i + 1, plan.slices@.len() as int, check);
            }
            return Some(fault);
        }
        i += 1;
    }
    None
}

// ---------------------------------------------------------------------------
// Coverage
// ---------------------------------------------------------------------------

/// What the first `n` steps satisfy.
pub open spec fn satisfied(steps: Seq<ImplementationStep>, n: int) -> Seq<Seq<char>>
    decreases n,
{
    if n <= 0 {
        Seq::empty()
    } else {
        satisfied(steps, n - 1) + keys(steps[n - 1].satisfies@)
    }
}

/// What the first `n` verifications cover.
pub open spec fn covered(verification: Seq<Verification>, n: int) -> Seq<Seq<char>>
    decreases n,
{
    if n <= 0 {
        Seq::empty()
    } else {
        covered(verification, n - 1) + keys(verification[n - 1].covers@)
    }
}

/// What the first `n` slices refer to, by their steps and verifications.
pub open spec fn references(plan: ImplementationPlan, n: int) -> Seq<Seq<char>>
    decreases n,
{
    if n <= 0 {
        Seq::empty()
    } else {
        let slice = plan.slices@[n - 1];
        references(plan, n - 1) + satisfied(slice.steps@, slice.steps@.len() as int) + covered(
            slice.verification@,
            slice.verification@.len() as int,
        )
    }
}

/// Whether every one of the names is referred to by a step or a verification.
pub open spec fn covers_all(plan: ImplementationPlan, names: Seq<Seq<char>>) -> bool {
    forall|i: int|
        0 <= i < names.len() ==> references(plan, plan.slices@.len() as int).contains(
            #[trigger] names[i],
        )
}

pub(crate) fn all_references<'a>(plan: &'a ImplementationPlan) -> (r: Vec<&'a str>)
    ensures
        texts_of(r@) == references(*plan, plan.slices@.len() as int),
{
    let mut out: Vec<&'a str> = Vec::new();
    let mut i: usize = 0;
    assert(texts_of(out@) =~= Seq::<Seq<char>>::empty());
    while i < plan.slices.len()
        invariant
            i <= plan.slices@.len(),
            texts_of(out@) == references(*plan, i as int),
        decreases plan.slices@.len() - i,
    {
        let slice: &'a ImplementationSlice = &plan.slices[i];
        let ghost start = texts_of(out@);
        let mut j: usize = 0;
        assert(start + satisfied(slice.steps@, 0) =~= start);
        while j < slice.steps.len()
            invariant
                j <= slice.steps@.len(),
                texts_of(out@) == start + satisfied(slice.steps@, j as int),
            decreases slice.steps@.len() - j,
        {
            push_keys(&mut out, &slice.steps[j].satisfies);
            j += 1;
            assert(texts_of(out@) =~= start + satisfied(slice.steps@, j as int));
        }
        let ghost middle = texts_of(out@);
        let mut k: usize = 0;
        assert(middle + covered(slice.verification@, 0) =~= middle);
        while k < slice.verification.len()
            invariant
                k <= slice.verification@.len(),
                texts_of(out@) == middle + covered(slice.verification@, k as int),
            decreases slice.verification@.len() - k,
        {
            push_keys(&mut out, &slice.verification[k].covers);
            k += 1;
            assert(texts_of(out@) =~= middle + covered(slice.verification@, k as int));
        }
        i += 1;
    }
    out
}

/// Whether all the names are among the references.
pub(crate) fn are_covered(names: &Vec<&str>, found: &Vec<&str>) -> (b: bool)
    ensures
        b == (forall|i: int|
            0 <= i < names@.len() ==> texts_of(found@).contains(
                #[trigger] texts_of(names@)[i],
            )),
{
    let ghost all = texts_of(names@);
    let mut i: usize = 0;
    while i < names.len()
        invariant
            i <= names@.len(),
            all == texts_of(names@),
            forall|k: int| 0 <= k < i ==> texts_of(found@).contains(#[trigger] all[k]),
        decreases names@.len() - i,
    {
        assert(all[i as int] == names@[i as int]@);
        if !is_among(names[i], found) {
            return false;
        }
        i += 1;
    }
    true
}

} // verus!
