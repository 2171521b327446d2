//! What the JSON form of a plan holds.

use vstd::prelude::*;
use vstd::string::*;

use super::model::{
    Check, ConditionalRead, Decision, DecisionAuthority, Evidence, FileChange, FileDisposition,
    ImplementationPlan, ImplementationSlice, ImplementationStep, Invariant, Objective,
    OpenDecision, PlanSchema, ReadRequirement, SourceKind, SourceRef, Verification,
    VerificationExpected, WorkspaceEvidence,
};
use super::wire::Encoded;
use crate::json::{objects_hold_their_members, JsonAbs};
use crate::text::decimal;

verus! {

/// Whether a value is an object that holds a member, and how many it holds.
pub open spec fn holds(json: JsonAbs, key: Seq<char>, value: JsonAbs) -> bool {
    json matches JsonAbs::Object(members) && members.contains((key, value))
}

/// Whether a value is an object of so many members.
pub open spec fn has_members(json: JsonAbs, n: nat) -> bool {
    json matches JsonAbs::Object(members) && members.len() == n
}

/// A list is an array of the forms of its items, in their order; a value that
/// is not there is null.
pub proof fn lists_are_arrays<T: Encoded>(items: Vec<T>, i: int)
    ensures
        items.json() matches JsonAbs::Array(forms) && forms.len() == items@.len() && (0 <= i
            < items@.len() ==> forms[i] == items@[i].json()),
        None::<T>.json() == JsonAbs::Null,
        0 <= i < items@.len() ==> Some(items@[i]).json() == items@[i].json(),
{
}

/// Numbers are written in decimal, with a minus sign where they are negative.
pub proof fn numbers_are_decimal(line: u32, code: i32)
    ensures
        line.json() == JsonAbs::Number(decimal(line as nat)),
        code >= 0 ==> code.json() == JsonAbs::Number(decimal(code as nat)),
        code < 0 ==> code.json() == JsonAbs::Number("-"@ + decimal((-code) as nat)),
{
}

/// The names of kinds, authorities, dispositions and of the format.
pub proof fn names_in_plans()
    ensures
        PlanSchema::V1.json() == JsonAbs::Text("agentlibre.implementation-plan/v1"@),
        SourceKind::File.json() == JsonAbs::Text("file"@),
        SourceKind::Message.json() == JsonAbs::Text("message"@),
        SourceKind::Decision.json() == JsonAbs::Text("decision"@),
        SourceKind::Test.json() == JsonAbs::Text("test"@),
        SourceKind::Config.json() == JsonAbs::Text("config"@),
        DecisionAuthority::Repository.json() == JsonAbs::Text("repository"@),
        DecisionAuthority::Human.json() == JsonAbs::Text("human"@),
        FileDisposition::Create.json() == JsonAbs::Text("create"@),
        FileDisposition::Modify.json() == JsonAbs::Text("modify"@),
        FileDisposition::Delete.json() == JsonAbs::Text("delete"@),
        FileDisposition::Move.json() == JsonAbs::Text("move"@),
{
}

/// The members of `SourceRef` in JSON: each field under its name, and no other.
pub proof fn source_ref_members(value: SourceRef)
    ensures
        has_members(value.json(), 5),
        holds(value.json(), "kind"@, value.kind.json()),
        holds(value.json(), "locator"@, JsonAbs::Text(value.locator@)),
        holds(value.json(), "digest"@, value.digest.json()),
        holds(value.json(), "line_start"@, value.line_start.json()),
        holds(value.json(), "line_end"@, value.line_end.json()),
{
    reveal_strlit("kind");
    reveal_strlit("locator");
    reveal_strlit("digest");
    reveal_strlit("line_start");
    reveal_strlit("line_end");
    let members = seq![
        ("kind"@, value.kind.json()),
        ("locator"@, value.locator.json()),
        ("digest"@, value.digest.json()),
        ("line_start"@, value.line_start.json()),
        ("line_end"@, value.line_end.json()),
    ];
    assert(members[0].0 == "kind"@);
    assert(members[1].0 == "locator"@);
    assert(members[2].0 == "digest"@);
    assert(members[3].0 == "line_start"@);
    assert(members[4].0 == "line_end"@);
    objects_hold_their_members(members);
}

/// The members of `Check` in JSON: each field under its name, and no other.
pub proof fn check_members(value: Check)
    ensures
        has_members(value.json(), 3),
        holds(value.json(), "id"@, JsonAbs::Text(value.id@)),
        holds(value.json(), "statement"@, JsonAbs::Text(value.statement@)),
        holds(value.json(), "sources"@, value.sources.json()),
{
    reveal_strlit("id");
    reveal_strlit("statement");
    reveal_strlit("sources");
    let members = seq![
        ("id"@, value.id.json()),
        ("statement"@, value.statement.json()),
        ("sources"@, value.sources.json()),
    ];
    assert(members[0].0 == "id"@);
    assert(members[1].0 == "statement"@);
    assert(members[2].0 == "sources"@);
    objects_hold_their_members(members);
}

/// The members of `Objective` in JSON: each field under its name, and no other.
pub proof fn objective_members(value: Objective)
    ensures
        has_members(value.json(), 3),
        holds(value.json(), "outcome"@, JsonAbs::Text(value.outcome@)),
        holds(value.json(), "acceptance"@, value.acceptance.json()),
        holds(value.json(), "sources"@, value.sources.json()),
{
    reveal_strlit("outcome");
    reveal_strlit("acceptance");
    reveal_strlit("sources");
    let members = seq![
        ("outcome"@, value.outcome.json()),
        ("acceptance"@, value.acceptance.json()),
        ("sources"@, value.sources.json()),
    ];
    assert("outcome"@ != "sources"@) by {
        assert("outcome"@[0] != "sources"@[0]);
    }
    assert(members[0].0 == "outcome"@);
    assert(members[1].0 == "acceptance"@);
    assert(members[2].0 == "sources"@);
    objects_hold_their_members(members);
}

/// The members of `WorkspaceEvidence` in JSON: each field under its name, and no other.
pub proof fn workspace_evidence_members(value: WorkspaceEvidence)
    ensures
        has_members(value.json(), 3),
        holds(value.json(), "canonical_root_sha256"@, JsonAbs::Text(crate::digest::digest_text(value.canonical_root_sha256@))),
        holds(value.json(), "git_commit"@, value.git_commit.json()),
        holds(value.json(), "dirty_paths"@, value.dirty_paths.json()),
{
    reveal_strlit("canonical_root_sha256");
    reveal_strlit("git_commit");
    reveal_strlit("dirty_paths");
    let members = seq![
        ("canonical_root_sha256"@, value.canonical_root_sha256.json()),
        ("git_commit"@, value.git_commit.json()),
        ("dirty_paths"@, value.dirty_paths.json()),
    ];
    assert(members[0].0 == "canonical_root_sha256"@);
    assert(members[1].0 == "git_commit"@);
    assert(members[2].0 == "dirty_paths"@);
    objects_hold_their_members(members);
}

/// The members of `Evidence` in JSON: each field under its name, and no other.
pub proof fn evidence_members(value: Evidence)
    ensures
        has_members(value.json(), 3),
        holds(value.json(), "id"@, JsonAbs::Text(value.id@)),
        holds(value.json(), "statement"@, JsonAbs::Text(value.statement@)),
        holds(value.json(), "sources"@, value.sources.json()),
{
    reveal_strlit("id");
    reveal_strlit("statement");
    reveal_strlit("sources");
    let members = seq![
        ("id"@, value.id.json()),
        ("statement"@, value.statement.json()),
        ("sources"@, value.sources.json()),
    ];
    assert(members[0].0 == "id"@);
    assert(members[1].0 == "statement"@);
    assert(members[2].0 == "sources"@);
    objects_hold_their_members(members);
}

/// The members of `Decision` in JSON: each field under its name, and no other.
pub proof fn decision_members(value: Decision)
    ensures
        has_members(value.json(), 4),
        holds(value.json(), "id"@, JsonAbs::Text(value.id@)),
        holds(value.json(), "statement"@, JsonAbs::Text(value.statement@)),
        holds(value.json(), "authority"@, value.authority.json()),
        holds(value.json(), "sources"@, value.sources.json()),
{
    reveal_strlit("id");
    reveal_strlit("statement");
    reveal_strlit("authority");
    reveal_strlit("sources");
    let members = seq![
        ("id"@, value.id.json()),
        ("statement"@, value.statement.json()),
        ("authority"@, value.authority.json()),
        ("sources"@, value.sources.json()),
    ];
    assert("statement"@ != "authority"@) by {
        assert("statement"@[0] != "authority"@[0]);
    }
    assert(members[0].0 == "id"@);
    assert(members[1].0 == "statement"@);
    assert(members[2].0 == "authority"@);
    assert(members[3].0 == "sources"@);
    objects_hold_their_members(members);
}

/// The members of `Invariant` in JSON: each field under its name, and no other.
pub proof fn invariant_members(value: Invariant)
    ensures
        has_members(value.json(), 3),
        holds(value.json(), "id"@, JsonAbs::Text(value.id@)),
        holds(value.json(), "statement"@, JsonAbs::Text(value.statement@)),
        holds(value.json(), "sources"@, value.sources.json()),
{
    reveal_strlit("id");
    reveal_strlit("statement");
    reveal_strlit("sources");
    let members = seq![
        ("id"@, value.id.json()),
        ("statement"@, value.statement.json()),
        ("sources"@, value.sources.json()),
    ];
    assert(members[0].0 == "id"@);
    assert(members[1].0 == "statement"@);
    assert(members[2].0 == "sources"@);
    objects_hold_their_members(members);
}

/// The members of `FileChange` in JSON: each field under its name, and no other.
pub proof fn file_change_members(value: FileChange)
    ensures
        has_members(value.json(), 4),
        holds(value.json(), "path"@, JsonAbs::Text(value.path@)),
        holds(value.json(), "disposition"@, value.disposition.json()),
        holds(value.json(), "purpose"@, JsonAbs::Text(value.purpose@)),
        holds(value.json(), "symbols"@, value.symbols.json()),
{
    reveal_strlit("path");
    reveal_strlit("disposition");
    reveal_strlit("purpose");
    reveal_strlit("symbols");
    let members = seq![
        ("path"@, value.path.json()),
        ("disposition"@, value.disposition.json()),
        ("purpose"@, value.purpose.json()),
        ("symbols"@, value.symbols.json()),
    ];
    assert("purpose"@ != "symbols"@) by {
        assert("purpose"@[0] != "symbols"@[0]);
    }
    assert(members[0].0 == "path"@);
    assert(members[1].0 == "disposition"@);
    assert(members[2].0 == "purpose"@);
    assert(members[3].0 == "symbols"@);
    objects_hold_their_members(members);
}

/// The members of `ReadRequirement` in JSON: each field under its name, and no other.
pub proof fn read_requirement_members(value: ReadRequirement)
    ensures
        has_members(value.json(), 4),
        holds(value.json(), "id"@, JsonAbs::Text(value.id@)),
        holds(value.json(), "path"@, JsonAbs::Text(value.path@)),
        holds(value.json(), "symbols_or_ranges"@, value.symbols_or_ranges.json()),
        holds(value.json(), "obtain"@, JsonAbs::Text(value.obtain@)),
{
    reveal_strlit("id");
    reveal_strlit("path");
    reveal_strlit("symbols_or_ranges");
    reveal_strlit("obtain");
    let members = seq![
        ("id"@, value.id.json()),
        ("path"@, value.path.json()),
        ("symbols_or_ranges"@, value.symbols_or_ranges.json()),
        ("obtain"@, value.obtain.json()),
    ];
    assert(members[0].0 == "id"@);
    assert(members[1].0 == "path"@);
    assert(members[2].0 == "symbols_or_ranges"@);
    assert(members[3].0 == "obtain"@);
    objects_hold_their_members(members);
}

/// The members of `ConditionalRead` in JSON: each field under its name, and no other.
pub proof fn conditional_read_members(value: ConditionalRead)
    ensures
        has_members(value.json(), 3),
        holds(value.json(), "id"@, JsonAbs::Text(value.id@)),
        holds(value.json(), "condition"@, JsonAbs::Text(value.condition@)),
        holds(value.json(), "read"@, value.read.json()),
{
    reveal_strlit("id");
    reveal_strlit("condition");
    reveal_strlit("read");
    let members = seq![
        ("id"@, value.id.json()),
        ("condition"@, value.condition.json()),
        ("read"@, value.read.json()),
    ];
    assert(members[0].0 == "id"@);
    assert(members[1].0 == "condition"@);
    assert(members[2].0 == "read"@);
    objects_hold_their_members(members);
}

/// The members of `ImplementationStep` in JSON: each field under its name, and no other.
pub proof fn implementation_step_members(value: ImplementationStep)
    ensures
        has_members(value.json(), 6),
        holds(value.json(), "id"@, JsonAbs::Text(value.id@)),
        holds(value.json(), "action"@, JsonAbs::Text(value.action@)),
        holds(value.json(), "files"@, value.files.json()),
        holds(value.json(), "symbols"@, value.symbols.json()),
        holds(value.json(), "depends_on"@, value.depends_on.json()),
        holds(value.json(), "satisfies"@, value.satisfies.json()),
{
    reveal_strlit("id");
    reveal_strlit("action");
    reveal_strlit("files");
    reveal_strlit("symbols");
    reveal_strlit("depends_on");
    reveal_strlit("satisfies");
    let members = seq![
        ("id"@, value.id.json()),
        ("action"@, value.action.json()),
        ("files"@, value.files.json()),
        ("symbols"@, value.symbols.json()),
        ("depends_on"@, value.depends_on.json()),
        ("satisfies"@, value.satisfies.json()),
    ];
    assert(members[0].0 == "id"@);
    assert(members[1].0 == "action"@);
    assert(members[2].0 == "files"@);
    assert(members[3].0 == "symbols"@);
    assert(members[4].0 == "depends_on"@);
    assert(members[5].0 == "satisfies"@);
    objects_hold_their_members(members);
}

/// The members of `VerificationExpected` in JSON: each field under its name, and no other.
pub proof fn verification_expected_members(value: VerificationExpected)
    ensures
        has_members(value.json(), 3),
        holds(value.json(), "exit_code"@, value.exit_code.json()),
        holds(value.json(), "stdout_contains"@, value.stdout_contains.json()),
        holds(value.json(), "stderr_contains"@, value.stderr_contains.json()),
{
    reveal_strlit("exit_code");
    reveal_strlit("stdout_contains");
    reveal_strlit("stderr_contains");
    let members = seq![
        ("exit_code"@, value.exit_code.json()),
        ("stdout_contains"@, value.stdout_contains.json()),
        ("stderr_contains"@, value.stderr_contains.json()),
    ];
    assert("stdout_contains"@ != "stderr_contains"@) by {
        assert("stdout_contains"@[3] != "stderr_contains"@[3]);
    }
    assert(members[0].0 == "exit_code"@);
    assert(members[1].0 == "stdout_contains"@);
    assert(members[2].0 == "stderr_contains"@);
    objects_hold_their_members(members);
}

/// The members of `Verification` in JSON: each field under its name, and no other.
pub proof fn verification_members(value: Verification)
    ensures
        has_members(value.json(), 4),
        holds(value.json(), "command"@, JsonAbs::Text(value.command@)),
        holds(value.json(), "working_directory"@, JsonAbs::Text(value.working_directory@)),
        holds(value.json(), "expected"@, value.expected.json()),
        holds(value.json(), "covers"@, value.covers.json()),
{
    reveal_strlit("command");
    reveal_strlit("working_directory");
    reveal_strlit("expected");
    reveal_strlit("covers");
    let members = seq![
        ("command"@, value.command.json()),
        ("working_directory"@, value.working_directory.json()),
        ("expected"@, value.expected.json()),
        ("covers"@, value.covers.json()),
    ];
    assert(members[0].0 == "command"@);
    assert(members[1].0 == "working_directory"@);
    assert(members[2].0 == "expected"@);
    assert(members[3].0 == "covers"@);
    objects_hold_their_members(members);
}

/// The members of `ImplementationSlice` in JSON: each field under its name, and no other.
pub proof fn implementation_slice_members(value: ImplementationSlice)
    ensures
        has_members(value.json(), 10),
        holds(value.json(), "id"@, JsonAbs::Text(value.id@)),
        holds(value.json(), "outcome"@, JsonAbs::Text(value.outcome@)),
        holds(value.json(), "depends_on"@, value.depends_on.json()),
        holds(value.json(), "files"@, value.files.json()),
        holds(value.json(), "required_reads"@, value.required_reads.json()),
        holds(value.json(), "conditional_reads"@, value.conditional_reads.json()),
        holds(value.json(), "start_condition"@, value.start_condition.json()),
        holds(value.json(), "steps"@, value.steps.json()),
        holds(value.json(), "verification"@, value.verification.json()),
        holds(value.json(), "done_when"@, value.done_when.json()),
{
    reveal_strlit("id");
    reveal_strlit("outcome");
    reveal_strlit("depends_on");
    reveal_strlit("files");
    reveal_strlit("required_reads");
    reveal_strlit("conditional_reads");
    reveal_strlit("start_condition");
    reveal_strlit("steps");
    reveal_strlit("verification");
    reveal_strlit("done_when");
    let members = seq![
        ("id"@, value.id.json()),
        ("outcome"@, value.outcome.json()),
        ("depends_on"@, value.depends_on.json()),
        ("files"@, value.files.json()),
        ("required_reads"@, value.required_reads.json()),
        ("conditional_reads"@, value.conditional_reads.json()),
        ("start_condition"@, value.start_condition.json()),
        ("steps"@, value.steps.json()),
        ("verification"@, value.verification.json()),
        ("done_when"@, value.done_when.json()),
    ];
    assert("files"@ != "steps"@) by {
        assert("files"@[0] != "steps"@[0]);
    }
    assert(members[0].0 == "id"@);
    assert(members[1].0 == "outcome"@);
    assert(members[2].0 == "depends_on"@);
    assert(members[3].0 == "files"@);
    assert(members[4].0 == "required_reads"@);
    assert(members[5].0 == "conditional_reads"@);
    assert(members[6].0 == "start_condition"@);
    assert(members[7].0 == "steps"@);
    assert(members[8].0 == "verification"@);
    assert(members[9].0 == "done_when"@);
    objects_hold_their_members(members);
}

/// The members of `OpenDecision` in JSON: each field under its name, and no other.
pub proof fn open_decision_members(value: OpenDecision)
    ensures
        has_members(value.json(), 5),
        holds(value.json(), "id"@, JsonAbs::Text(value.id@)),
        holds(value.json(), "question"@, JsonAbs::Text(value.question@)),
        holds(value.json(), "consequences"@, JsonAbs::Text(value.consequences@)),
        holds(value.json(), "affected_slices"@, value.affected_slices.json()),
        holds(value.json(), "sources"@, value.sources.json()),
{
    reveal_strlit("id");
    reveal_strlit("question");
    reveal_strlit("consequences");
    reveal_strlit("affected_slices");
    reveal_strlit("sources");
    let members = seq![
        ("id"@, value.id.json()),
        ("question"@, value.question.json()),
        ("consequences"@, value.consequences.json()),
        ("affected_slices"@, value.affected_slices.json()),
        ("sources"@, value.sources.json()),
    ];
    assert(members[0].0 == "id"@);
    assert(members[1].0 == "question"@);
    assert(members[2].0 == "consequences"@);
    assert(members[3].0 == "affected_slices"@);
    assert(members[4].0 == "sources"@);
    objects_hold_their_members(members);
}

/// The members of `ImplementationPlan` in JSON: each field under its name, and no other.
pub proof fn implementation_plan_members(value: ImplementationPlan)
    ensures
        has_members(value.json(), 9),
        holds(value.json(), "schema"@, value.schema.json()),
        holds(value.json(), "id"@, JsonAbs::Text(crate::correlation_id::hyphenated(value.id@))),
        holds(value.json(), "workspace"@, value.workspace.json()),
        holds(value.json(), "objective"@, value.objective.json()),
        holds(value.json(), "evidence"@, value.evidence.json()),
        holds(value.json(), "decisions"@, value.decisions.json()),
        holds(value.json(), "invariants"@, value.invariants.json()),
        holds(value.json(), "slices"@, value.slices.json()),
        holds(value.json(), "open_decisions"@, value.open_decisions.json()),
{
    reveal_strlit("schema");
    reveal_strlit("id");
    reveal_strlit("workspace");
    reveal_strlit("objective");
    reveal_strlit("evidence");
    reveal_strlit("decisions");
    reveal_strlit("invariants");
    reveal_strlit("slices");
    reveal_strlit("open_decisions");
    let members = seq![
        ("schema"@, value.schema.json()),
        ("id"@, value.id.json()),
        ("workspace"@, value.workspace.json()),
        ("objective"@, value.objective.json()),
        ("evidence"@, value.evidence.json()),
        ("decisions"@, value.decisions.json()),
        ("invariants"@, value.invariants.json()),
        ("slices"@, value.slices.json()),
        ("open_decisions"@, value.open_decisions.json()),
    ];
    assert("schema"@ != "slices"@) by {
        assert("schema"@[1] != "slices"@[1]);
    }
    assert("workspace"@ != "objective"@) by {
        assert("workspace"@[0] != "objective"@[0]);
    }
    assert("workspace"@ != "decisions"@) by {
        assert("workspace"@[0] != "decisions"@[0]);
    }
    assert("objective"@ != "decisions"@) by {
        assert("objective"@[0] != "decisions"@[0]);
    }
    assert(members[0].0 == "schema"@);
    assert(members[1].0 == "id"@);
    assert(members[2].0 == "workspace"@);
    assert(members[3].0 == "objective"@);
    assert(members[4].0 == "evidence"@);
    assert(members[5].0 == "decisions"@);
    assert(members[6].0 == "invariants"@);
    assert(members[7].0 == "slices"@);
    assert(members[8].0 == "open_decisions"@);
    objects_hold_their_members(members);
}

} // verus!
