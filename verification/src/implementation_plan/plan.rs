//! Plans as a whole: validation, canonical bytes and digests.

use vstd::prelude::*;
use vstd::string::*;
use vstd::utf8::*;

use super::graph::is_cyclic;
use super::ids::PlanDigest;
use super::model::{ImplementationPlan, OpenDecision};
use super::slices::{
    all_references, are_covered, covers_all, slice_checks, slice_graph, slices_are_acyclic,
    validate_slices, NameTables,
};
use super::validation::{
    bound_failure, bounded_collection, bounded_plan, bounded_slices, decision_checks,
    dirty_failure, evidence_checks, fault_if, first_of, invariant_checks, keys, keys_of,
    lemma_first_fault, objective_failure, or_else, plan_bounds_failure, plan_ids_failure,
    slice_bounds_checks, slice_done_checks, slice_read_checks, sources_failure,
    unique_ids_are_distinct, validate_all_decisions, validate_all_done, validate_all_evidence,
    validate_all_invariants, validate_all_reads, validate_dirty_paths, validate_objective,
    validate_plan_ids, validate_sources, Failure, Keyed,
};
use super::wire::Encoded;
use super::MAX_PLAN_BYTES;
use crate::digest::{same_digest, sha256, sha256_of};
use crate::effect::{nests_within, within_depth};
use crate::json::{json_text, to_value, write_json, Json};
use crate::order::{is_among, texts_of};
use crate::package::copy_bytes;
use crate::value::Abstract;

verus! {

/// Why a plan is not valid.
#[derive(Clone, Debug, Eq, PartialEq)]
pub struct PlanValidationError(pub String);

impl PlanValidationError {
    pub open spec fn message(&self) -> Seq<char> {
        "invalid implementation plan: "@ + self.0@
    }

    pub fn to_string(&self) -> (r: String)
        ensures
            r@ == self.message(),
    {
        "invalid implementation plan: ".to_owned().concat(self.0.as_str())
    }
}

/// Why a plan has no canonical bytes, or bytes hold no plan.
#[derive(Debug)]
pub enum PlanError {
    Validation(PlanValidationError),
    /// The JSON could not be read, for the reason given.
    Json(String),
    TooLarge,
    TooDeep,
}

/// The content of a plan error.
pub enum PlanErrorAbs {
    Validation(Seq<char>),
    Json(Seq<char>),
    TooLarge,
    TooDeep,
}

impl PlanError {
    pub open spec fn view(&self) -> PlanErrorAbs {
        match self {
            PlanError::Validation(error) => PlanErrorAbs::Validation(error.0@),
            PlanError::Json(reason) => PlanErrorAbs::Json(reason@),
            PlanError::TooLarge => PlanErrorAbs::TooLarge,
            PlanError::TooDeep => PlanErrorAbs::TooDeep,
        }
    }

    pub open spec fn message(&self) -> Seq<char> {
        match self {
            PlanError::Validation(error) => error.message(),
            PlanError::Json(reason) => "implementation plan JSON is not encodable: "@ + reason@,
            PlanError::TooLarge => "implementation plan JSON exceeds 4194304 bytes"@,
            PlanError::TooDeep => "implementation plan JSON has unsupported nesting"@,
        }
    }

    pub fn to_string(&self) -> (r: String)
        ensures
            r@ == self.message(),
    {
        match self {
            PlanError::Validation(error) => error.to_string(),
            PlanError::Json(reason) => "implementation plan JSON is not encodable: ".to_owned().concat(
                reason.as_str(),
            ),
            PlanError::TooLarge => "implementation plan JSON exceeds 4194304 bytes".to_owned(),
            PlanError::TooDeep => "implementation plan JSON has unsupported nesting".to_owned(),
        }
    }
}

// ---------------------------------------------------------------------------
// Validation
// ---------------------------------------------------------------------------

pub open spec fn affected_checks(plan: ImplementationPlan, open: OpenDecision) -> spec_fn(
    int,
) -> Failure {
    |i: int|
        fault_if(
            !keys(plan.slices@).contains(open.affected_slices@[i]@),
            "open decision "@ + open.id@ + " references missing slice "@
                + open.affected_slices@[i]@,
        )
}

/// An open decision is sourced and affects slices of the plan.
pub open spec fn open_decision_failure(plan: ImplementationPlan, open: OpenDecision) -> Failure {
    or_else(
        bound_failure("open_decision.affected_slices"@, open.affected_slices@.len()),
        or_else(
            sources_failure("open_decision.sources"@, open.sources@),
            or_else(
                fault_if(
                    open.affected_slices@.len() == 0,
                    "open decision "@ + open.id@ + " must affect a slice"@,
                ),
                first_of(open.affected_slices@.len() as int, affected_checks(plan, open)),
            ),
        ),
    )
}

pub open spec fn open_decision_checks(plan: ImplementationPlan) -> spec_fn(int) -> Failure {
    |i: int| open_decision_failure(plan, plan.open_decisions@[i])
}

/// The faults of a plan that need no look across its slices.
pub open spec fn surface_failure(plan: ImplementationPlan) -> Failure {
    or_else(
        plan_bounds_failure(plan),
        or_else(
            dirty_failure(plan.workspace.dirty_paths@),
            or_else(
                fault_if(
                    plan.evidence@.len() == 0 || plan.slices@.len() == 0,
                    "evidence and slices must be non-empty"@,
                ),
                or_else(
                    first_of(plan.slices@.len() as int, slice_bounds_checks(plan.slices@)),
                    or_else(
                        objective_failure(plan),
                        or_else(
                            plan_ids_failure(plan),
                            or_else(
                                first_of(
                                    plan.evidence@.len() as int,
                                    evidence_checks(plan.evidence@),
                                ),
                                or_else(
                                    first_of(
                                        plan.decisions@.len() as int,
                                        decision_checks(plan.decisions@),
                                    ),
                                    first_of(
                                        plan.invariants@.len() as int,
                                        invariant_checks(plan.invariants@),
                                    ),
                                ),
                            ),
                        ),
                    ),
                ),
            ),
        ),
    )
}

/// The faults of a plan across its slices.
pub open spec fn structure_failure(plan: ImplementationPlan) -> Failure {
    or_else(
        first_of(plan.slices@.len() as int, slice_done_checks(plan)),
        or_else(
            first_of(plan.slices@.len() as int, slice_read_checks(plan)),
            or_else(
                first_of(plan.slices@.len() as int, slice_checks(plan)),
                or_else(
                    fault_if(
                        is_cyclic(slice_graph(plan)),
                        "slice dependency graph contains a cycle"@,
                    ),
                    or_else(
                        fault_if(
                            !covers_all(plan, keys(plan.invariants@)),
                            "every invariant must be covered by a step or verification"@,
                        ),
                        or_else(
                            fault_if(
                                !covers_all(plan, keys(plan.objective.acceptance@)),
                                "every acceptance check must be covered by a step or verification"@,
                            ),
                            first_of(
                                plan.open_decisions@.len() as int,
                                open_decision_checks(plan),
                            ),
                        ),
                    ),
                ),
            ),
        ),
    )
}

/// The first fault of a plan, if it has any.
pub open spec fn plan_failure(plan: ImplementationPlan) -> Failure {
    or_else(surface_failure(plan), structure_failure(plan))
}

/// The first fault of a plan that is to be implemented, if it has any.
pub open spec fn implementation_failure(plan: ImplementationPlan) -> Failure {
    or_else(
        plan_failure(plan),
        fault_if(
            plan.open_decisions@.len() > 0,
            "implementation-ready plan cannot contain open_decisions"@,
        ),
    )
}

/// A result that reports a fault.
pub open spec fn reports(r: Result<(), PlanValidationError>, failure: Failure) -> bool {
    match failure {
        Some(fault) => r is Err && r->Err_0.0@ == fault,
        None => r is Ok,
    }
}

fn validate_open_decision(
    plan: &ImplementationPlan,
    slices: &Vec<&str>,
    open: &OpenDecision,
) -> (r: Option<String>)
    requires
        texts_of(slices@) == keys(plan.slices@),
    ensures
        r.abs() == open_decision_failure(*plan, *open),
{
    if let Some(fault) = bounded_collection(
        "open_decision.affected_slices",
        open.affected_slices.len(),
    ) {
        return Some(fault);
    }
    if let Some(fault) = validate_sources("open_decision.sources", &open.sources) {
        return Some(fault);
    }
    if open.affected_slices.len() == 0 {
        return Some(
            "open decision ".to_owned().concat(open.id.as_str()).concat(" must affect a slice"),
        );
    }
    let ghost check = affected_checks(*plan, *open);
    let mut i: usize = 0;
    while i < open.affected_slices.len()
        invariant
            i <= open.affected_slices@.len(),
            texts_of(slices@) == keys(plan.slices@),
            check == affected_checks(*plan, *open),
            bound_failure("open_decision.affected_slices"@, open.affected_slices@.len()) is None,
            sources_failure("open_decision.sources"@, open.sources@) is None,
            open.affected_slices@.len() > 0,
            first_of(i as int, check) is None,
        decreases open.affected_slices@.len() - i,
    {
        if !is_among(open.affected_slices[i].as_str(), slices) {
            proof {
                lemma_first_fault(i + 1, open.affected_slices@.len() as int, check);
            }
            return Some(
                "open decision ".to_owned().concat(open.id.as_str()).concat(
                    " references missing slice ",
                ).concat(open.affected_slices[i].as_str()),
            );
        }
        i += 1;
    }
    None
}

fn validate_open_decisions(plan: &ImplementationPlan, slices: &Vec<&str>) -> (r: Option<String>)
    requires
        texts_of(slices@) == keys(plan.slices@),
    ensures
        r.abs() == first_of(plan.open_decisions@.len() as int, open_decision_checks(*plan)),
{
    let ghost check = open_decision_checks(*plan);
    let mut i: usize = 0;
    while i < plan.open_decisions.len()
        invariant
            i <= plan.open_decisions@.len(),
            texts_of(slices@) == keys(plan.slices@),
            check == open_decision_checks(*plan),
            first_of(i as int, check) is None,
        decreases plan.open_decisions@.len() - i,
    {
        if let Some(fault) = validate_open_decision(plan, slices, &plan.open_decisions[i]) {
            proof {
                lemma_first_fault(i + 1, plan.open_decisions@.len() as int, check);
            }
            return Some(fault);
        }
        i += 1;
    }
    None
}

fn check_surface(plan: &ImplementationPlan) -> (r: Option<String>)
    ensures
        r.abs() == surface_failure(*plan),
{
    if let Some(fault) = bounded_plan(plan) {
        return Some(fault);
    }
    if let Some(fault) = validate_dirty_paths(&plan.workspace.dirty_paths) {
        return Some(fault);
    }
    if plan.evidence.len() == 0 || plan.slices.len() == 0 {
        return Some("evidence and slices must be non-empty".to_owned());
    }
    if let Some(fault) = bounded_slices(&plan.slices) {
        return Some(fault);
    }
    if let Some(fault) = validate_objective(plan) {
        return Some(fault);
    }
    if let Some(fault) = validate_plan_ids(plan) {
        return Some(fault);
    }
    if let Some(fault) = validate_all_evidence(&plan.evidence) {
        return Some(fault);
    }
    if let Some(fault) = validate_all_decisions(&plan.decisions) {
        return Some(fault);
    }
    validate_all_invariants(&plan.invariants)
}

fn check_structure(plan: &ImplementationPlan) -> (r: Option<String>)
    requires
        surface_failure(*plan) is None,
    ensures
        r.abs() == structure_failure(*plan),
{
    let checks: Vec<&str> = match validate_all_done(plan) {
        Ok(ids) => ids,
        Err(fault) => {
            return Some(fault);
        },
    };
    if let Some(fault) = validate_all_reads(plan) {
        return Some(fault);
    }
    let tables: NameTables = NameTables {
        slices: keys_of(&plan.slices),
        evidence: keys_of(&plan.evidence),
        invariants: keys_of(&plan.invariants),
        checks,
    };
    if let Some(fault) = validate_slices(plan, &tables) {
        return Some(fault);
    }
    proof {
        unique_ids_are_distinct("slices"@, keys(plan.slices@));
    }
    if !slices_are_acyclic(plan) {
        return Some("slice dependency graph contains a cycle".to_owned());
    }
    let found: Vec<&str> = all_references(plan);
    let wanted: Vec<&str> = keys_of(&plan.objective.acceptance);
    proof {
        assert(tables.invariants@.len() == texts_of(tables.invariants@).len());
        assert(wanted@.len() == texts_of(wanted@).len());
    }
    if !are_covered(&tables.invariants, &found) {
        return Some("every invariant must be covered by a step or verification".to_owned());
    }
    if !are_covered(&wanted, &found) {
        return Some("every acceptance check must be covered by a step or verification".to_owned());
    }
    validate_open_decisions(plan, &tables.slices)
}

// ---------------------------------------------------------------------------
// Canonical bytes
// ---------------------------------------------------------------------------

/// Plans nest no deeper than this.
pub const MAX_PLAN_DEPTH: usize = 64;

/// The canonical bytes of a plan, or why it has none: compact JSON, with the
/// members of every object in the order of their keys.
pub open spec fn canonical(plan: ImplementationPlan) -> Result<Seq<u8>, PlanErrorAbs> {
    match plan_failure(plan) {
        Some(fault) => Err(PlanErrorAbs::Validation(fault)),
        None => if !nests_within(plan.json(), MAX_PLAN_DEPTH as int) {
            Err(PlanErrorAbs::TooDeep)
        } else {
            let bytes = encode_utf8(json_text(plan.json()));
            if bytes.len() > MAX_PLAN_BYTES {
                Err(PlanErrorAbs::TooLarge)
            } else {
                Ok(bytes)
            }
        },
    }
}

/// What bytes and the plan that was decoded from them give.
pub open spec fn accepted(
    bytes: Seq<u8>,
    decoded: Result<ImplementationPlan, Seq<char>>,
) -> Result<ImplementationPlan, PlanErrorAbs> {
    if bytes.len() > MAX_PLAN_BYTES {
        Err(PlanErrorAbs::TooLarge)
    } else {
        match decoded {
            Err(reason) => Err(PlanErrorAbs::Json(reason)),
            Ok(plan) => match canonical(plan) {
                Err(error) => Err(error),
                Ok(encoded) => if encoded != bytes {
                    Err(PlanErrorAbs::Validation("plan bytes are not canonical JSON"@))
                } else {
                    Ok(plan)
                },
            },
        }
    }
}

fn same_slice(left: &[u8], right: &[u8]) -> (b: bool)
    ensures
        b == (left@ == right@),
{
    if left.len() != right.len() {
        return false;
    }
    let mut i: usize = 0;
    while i < left.len()
        invariant
            i <= left@.len(),
            left@.len() == right@.len(),
            forall|k: int| 0 <= k < i ==> left@[k] == right@[k],
        decreases left@.len() - i,
    {
        if left[i] != right[i] {
            return false;
        }
        i += 1;
    }
    assert(left@ =~= right@);
    true
}

impl ImplementationPlan {
    pub fn validate(&self) -> (r: Result<(), PlanValidationError>)
        ensures
            reports(r, plan_failure(*self)),
    {
        if let Some(fault) = check_surface(self) {
            return Err(PlanValidationError(fault));
        }
        if let Some(fault) = check_structure(self) {
            return Err(PlanValidationError(fault));
        }
        Ok(())
    }

    pub fn validate_for_implementation(&self) -> (r: Result<(), PlanValidationError>)
        ensures
            reports(r, implementation_failure(*self)),
    {
        match self.validate() {
            Ok(()) => {},
            Err(error) => {
                return Err(error);
            },
        }
        if self.open_decisions.len() > 0 {
            return Err(
                PlanValidationError(
                    "implementation-ready plan cannot contain open_decisions".to_owned(),
                ),
            );
        }
        Ok(())
    }

    pub fn canonical_bytes(&self) -> (r: Result<Vec<u8>, PlanError>)
        ensures
            match r {
                Ok(bytes) => canonical(*self) == Ok::<Seq<u8>, PlanErrorAbs>(bytes@),
                Err(error) => canonical(*self) == Err::<Seq<u8>, PlanErrorAbs>(error@),
            },
    {
        match self.validate() {
            Ok(()) => {},
            Err(error) => {
                return Err(PlanError::Validation(error));
            },
        }
        let json: Json = self.to_json();
        if !within_depth(&json, MAX_PLAN_DEPTH, 0) {
            return Err(PlanError::TooDeep);
        }
        let text: String = write_json(&to_value(&json));
        let bytes: Vec<u8> = copy_bytes(text.as_str().as_bytes());
        if bytes.len() > MAX_PLAN_BYTES {
            return Err(PlanError::TooLarge);
        }
        Ok(bytes)
    }

    pub fn digest(&self) -> (r: Result<PlanDigest, PlanError>)
        ensures
            match r {
                Ok(digest) => canonical(*self) is Ok && digest@ == sha256(canonical(*self)->Ok_0),
                Err(error) => canonical(*self) == Err::<Seq<u8>, PlanErrorAbs>(error@),
            },
    {
        match self.canonical_bytes() {
            Ok(bytes) => Ok(PlanDigest::from_bytes(sha256_of(bytes.as_slice()))),
            Err(error) => Err(error),
        }
    }

    /// The plan that canonical bytes hold. `decoded` is what the bytes decode
    /// to as JSON in the form of a plan, or why they do not.
    pub fn from_canonical_bytes(
        bytes: &[u8],
        decoded: Result<ImplementationPlan, String>,
    ) -> (r: Result<ImplementationPlan, PlanError>)
        ensures
            ({
                let given = match decoded {
                    Ok(plan) => Ok::<ImplementationPlan, Seq<char>>(plan),
                    Err(reason) => Err(reason@),
                };
                match r {
                    Ok(plan) => accepted(bytes@, given) == Ok::<ImplementationPlan, PlanErrorAbs>(
                        plan,
                    ),
                    Err(error) => accepted(bytes@, given) == Err::<
                        ImplementationPlan,
                        PlanErrorAbs,
                    >(error@),
                }
            }),
    {
        if bytes.len() > MAX_PLAN_BYTES {
            return Err(PlanError::TooLarge);
        }
        let plan: ImplementationPlan = match decoded {
            Ok(plan) => plan,
            Err(reason) => {
                return Err(PlanError::Json(reason));
            },
        };
        let encoded: Vec<u8> = match plan.canonical_bytes() {
            Ok(encoded) => encoded,
            Err(error) => {
                return Err(error);
            },
        };
        if !same_slice(encoded.as_slice(), bytes) {
            return Err(
                PlanError::Validation(
                    PlanValidationError("plan bytes are not canonical JSON".to_owned()),
                ),
            );
        }
        Ok(plan)
    }

    /// Whether the plan was made for the workspace whose canonical root path
    /// has these bytes.
    pub fn workspace_matches(&self, canonical_root: &[u8]) -> (r: bool)
        ensures
            r == (self.workspace.canonical_root_sha256@ == sha256(canonical_root@)),
    {
        let digest: [u8; 32] = workspace_root_digest(canonical_root);
        same_digest(self.workspace.canonical_root_sha256.as_bytes(), &digest)
    }
}

/// The identity of a workspace: the SHA-256 of the bytes of its canonical root
/// path.
pub fn workspace_root_digest(canonical_root: &[u8]) -> (r: [u8; 32])
    ensures
        r@ == sha256(canonical_root@),
{
    sha256_of(canonical_root)
}

// ---------------------------------------------------------------------------
// Laws
// ---------------------------------------------------------------------------

/// A plan that is ready for implementation is valid and has nothing open.
pub proof fn implementable_plans_are_valid(plan: ImplementationPlan)
    requires
        implementation_failure(plan) is None,
    ensures
        plan_failure(plan) is None,
        plan.open_decisions@.len() == 0,
{
}

/// The canonical bytes of a plan are accepted for that plan, and no other
/// bytes are.
pub proof fn canonical_bytes_are_accepted(plan: ImplementationPlan, bytes: Seq<u8>)
    ensures
        accepted(bytes, Ok(plan)) is Ok <==> canonical(plan) == Ok::<Seq<u8>, PlanErrorAbs>(bytes),
        accepted(bytes, Ok(plan)) is Ok ==> accepted(bytes, Ok(plan))->Ok_0 == plan,
{
}

/// The slices of a valid plan, and the steps of each, can be carried out: none
/// of them depends on itself, directly or not.
pub proof fn valid_plans_have_no_cycles(plan: ImplementationPlan, i: int)
    requires
        plan_failure(plan) is None,
        0 <= i < plan.slices@.len(),
    ensures
        !is_cyclic(slice_graph(plan)),
        !is_cyclic(super::slices::step_graph(plan.slices@[i])),
{
    super::validation::lemma_no_fault(plan.slices@.len() as int, slice_checks(plan), i);
}

/// In a valid plan every invariant and every acceptance check is referred to
/// by a step or a verification.
pub proof fn valid_plans_cover_everything(plan: ImplementationPlan)
    requires
        plan_failure(plan) is None,
    ensures
        covers_all(plan, keys(plan.invariants@)),
        covers_all(plan, keys(plan.objective.acceptance@)),
{
}

} // verus!
