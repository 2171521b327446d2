//! The JSON form of an implementation plan.

use vstd::prelude::*;
use vstd::string::*;

use super::ids::{GitCommit, PlanDigest, PlanId, PlanItemId, PlanText, WorkspacePath};
use super::model::{
    Check, ConditionalRead, Decision, DecisionAuthority, Evidence, FileChange, FileDisposition,
    ImplementationPlan, ImplementationSlice, ImplementationStep, Invariant, Objective,
    OpenDecision, PlanSchema, ReadRequirement, SourceKind, SourceRef, Verification, VerificationExpected,
    WorkspaceEvidence,
};
use crate::correlation_id::hyphenated;
use crate::digest::digest_text;
use crate::json::{
    integer_text, json_abs, json_abs_cases, members_abs, object, object_of, Json, JsonAbs,
    JsonNumber,
};
use crate::value::Abstract;

verus! {

/// A value with a JSON form.
pub trait Encoded {
    spec fn json(&self) -> JsonAbs;

    fn to_json(&self) -> (r: Json)
        ensures
            json_abs(r) == self.json(),
    ;
}

fn text_json(text: String) -> (r: Json)
    ensures
        json_abs(r) == JsonAbs::Text(text@),
{
    broadcast use json_abs_cases;

    Json::Text(text)
}

impl<T: Encoded> Encoded for Option<T> {
    open spec fn json(&self) -> JsonAbs {
        match self {
            Some(value) => value.json(),
            None => JsonAbs::Null,
        }
    }

    fn to_json(&self) -> Json {
        broadcast use json_abs_cases;

        match self {
            Some(value) => value.to_json(),
            None => Json::Null,
        }
    }
}

impl<T: Encoded> Encoded for Vec<T> {
    open spec fn json(&self) -> JsonAbs {
        JsonAbs::Array(Seq::new(self@.len(), |i: int| self@[i].json()))
    }

    fn to_json(&self) -> Json {
        broadcast use json_abs_cases;

        let mut out: Vec<Json> = Vec::new();
        let mut i: usize = 0;
        while i < self.len()
            invariant
                i <= self@.len(),
                out@.len() == i,
                forall|k: int| 0 <= k < i ==> json_abs(#[trigger] out@[k]) == self@[k].json(),
            decreases self@.len() - i,
        {
            out.push(self[i].to_json());
            i += 1;
        }
        assert(Seq::new(out@.len(), |i: int| json_abs(out@[i])) =~= Seq::new(
            self@.len(),
            |i: int| self@[i].json(),
        ));
        Json::Array(out)
    }
}

impl Encoded for u32 {
    open spec fn json(&self) -> JsonAbs {
        JsonAbs::Number(integer_text(*self as int))
    }

    fn to_json(&self) -> Json {
        broadcast use json_abs_cases;

        Json::Number(JsonNumber::unsigned(*self))
    }
}

impl Encoded for i32 {
    open spec fn json(&self) -> JsonAbs {
        JsonAbs::Number(integer_text(*self as int))
    }

    fn to_json(&self) -> Json {
        broadcast use json_abs_cases;

        Json::Number(JsonNumber::signed(*self))
    }
}

impl Encoded for PlanText {
    open spec fn json(&self) -> JsonAbs {
        JsonAbs::Text(self@)
    }

    fn to_json(&self) -> Json {
        text_json(self.to_string())
    }
}

impl Encoded for PlanItemId {
    open spec fn json(&self) -> JsonAbs {
        JsonAbs::Text(self@)
    }

    fn to_json(&self) -> Json {
        text_json(self.to_string())
    }
}

impl Encoded for WorkspacePath {
    open spec fn json(&self) -> JsonAbs {
        JsonAbs::Text(self@)
    }

    fn to_json(&self) -> Json {
        text_json(self.to_string())
    }
}

impl Encoded for GitCommit {
    open spec fn json(&self) -> JsonAbs {
        JsonAbs::Text(self@)
    }

    fn to_json(&self) -> Json {
        text_json(self.to_string())
    }
}

impl Encoded for PlanDigest {
    open spec fn json(&self) -> JsonAbs {
        JsonAbs::Text(digest_text(self@))
    }

    fn to_json(&self) -> Json {
        text_json(self.to_string())
    }
}

impl Encoded for PlanId {
    open spec fn json(&self) -> JsonAbs {
        JsonAbs::Text(hyphenated(self@))
    }

    fn to_json(&self) -> Json {
        text_json(self.to_string())
    }
}

impl Encoded for PlanSchema {
    open spec fn json(&self) -> JsonAbs {
        JsonAbs::Text("agentlibre.implementation-plan/v1"@)
    }

    fn to_json(&self) -> Json {
        text_json("agentlibre.implementation-plan/v1".to_owned())
    }
}

impl Encoded for SourceKind {
    open spec fn json(&self) -> JsonAbs {
        JsonAbs::Text(
            match self {
                SourceKind::File => "file"@,
                SourceKind::Message => "message"@,
                SourceKind::Decision => "decision"@,
                SourceKind::Test => "test"@,
                SourceKind::Config => "config"@,
            },
        )
    }

    fn to_json(&self) -> Json {
        let name: &'static str = match self {
            SourceKind::File => "file",
            SourceKind::Message => "message",
            SourceKind::Decision => "decision",
            SourceKind::Test => "test",
            SourceKind::Config => "config",
        };
        text_json(name.to_owned())
    }
}

impl Encoded for DecisionAuthority {
    open spec fn json(&self) -> JsonAbs {
        JsonAbs::Text(
            match self {
                DecisionAuthority::Repository => "repository"@,
                DecisionAuthority::Human => "human"@,
            },
        )
    }

    fn to_json(&self) -> Json {
        let name: &'static str = match self {
            DecisionAuthority::Repository => "repository",
            DecisionAuthority::Human => "human",
        };
        text_json(name.to_owned())
    }
}

impl Encoded for FileDisposition {
    open spec fn json(&self) -> JsonAbs {
        JsonAbs::Text(
            match self {
                FileDisposition::Create => "create"@,
                FileDisposition::Modify => "modify"@,
                FileDisposition::Delete => "delete"@,
                FileDisposition::Move => "move"@,
            },
        )
    }

    fn to_json(&self) -> Json {
        let name: &'static str = match self {
            FileDisposition::Create => "create",
            FileDisposition::Modify => "modify",
            FileDisposition::Delete => "delete",
            FileDisposition::Move => "move",
        };
        text_json(name.to_owned())
    }
}

impl Encoded for SourceRef {
    open spec fn json(&self) -> JsonAbs {
        JsonAbs::Object(
            object_of(
                seq![
                    ("kind"@, self.kind.json()),
                    ("locator"@, self.locator.json()),
                    ("digest"@, self.digest.json()),
                    ("line_start"@, self.line_start.json()),
                    ("line_end"@, self.line_end.json()),
                ],
            ),
        )
    }

    fn to_json(&self) -> Json {
        let members: Vec<(&'static str, Json)> = vec![
            ("kind", self.kind.to_json()),
            ("locator", self.locator.to_json()),
            ("digest", self.digest.to_json()),
            ("line_start", self.line_start.to_json()),
            ("line_end", self.line_end.to_json()),
        ];
        assert(JsonAbs::Object(object_of(members_abs(members@))) == self.json()) by {
            assert(members_abs(members@) =~= seq![
                    ("kind"@, self.kind.json()),
                    ("locator"@, self.locator.json()),
                    ("digest"@, self.digest.json()),
                    ("line_start"@, self.line_start.json()),
                    ("line_end"@, self.line_end.json()),
            ]);
        }
        object(members)
    }
}

impl Encoded for Check {
    open spec fn json(&self) -> JsonAbs {
        JsonAbs::Object(
            object_of(
                seq![
                    ("id"@, self.id.json()),
                    ("statement"@, self.statement.json()),
                    ("sources"@, self.sources.json()),
                ],
            ),
        )
    }

    fn to_json(&self) -> Json {
        let members: Vec<(&'static str, Json)> = vec![
            ("id", self.id.to_json()),
            ("statement", self.statement.to_json()),
            ("sources", self.sources.to_json()),
        ];
        assert(JsonAbs::Object(object_of(members_abs(members@))) == self.json()) by {
            assert(members_abs(members@) =~= seq![
                    ("id"@, self.id.json()),
                    ("statement"@, self.statement.json()),
                    ("sources"@, self.sources.json()),
            ]);
        }
        object(members)
    }
}

impl Encoded for Objective {
    open spec fn json(&self) -> JsonAbs {
        JsonAbs::Object(
            object_of(
                seq![
                    ("outcome"@, self.outcome.json()),
                    ("acceptance"@, self.acceptance.json()),
                    ("sources"@, self.sources.json()),
                ],
            ),
        )
    }

    fn to_json(&self) -> Json {
        let members: Vec<(&'static str, Json)> = vec![
            ("outcome", self.outcome.to_json()),
            ("acceptance", self.acceptance.to_json()),
            ("sources", self.sources.to_json()),
        ];
        assert(JsonAbs::Object(object_of(members_abs(members@))) == self.json()) by {
            assert(members_abs(members@) =~= seq![
                    ("outcome"@, self.outcome.json()),
                    ("acceptance"@, self.acceptance.json()),
                    ("sources"@, self.sources.json()),
            ]);
        }
        object(members)
    }
}

impl Encoded for WorkspaceEvidence {
    open spec fn json(&self) -> JsonAbs {
        JsonAbs::Object(
            object_of(
                seq![
                    ("canonical_root_sha256"@, self.canonical_root_sha256.json()),
                    ("git_commit"@, self.git_commit.json()),
                    ("dirty_paths"@, self.dirty_paths.json()),
                ],
            ),
        )
    }

    fn to_json(&self) -> Json {
        let members: Vec<(&'static str, Json)> = vec![
            ("canonical_root_sha256", self.canonical_root_sha256.to_json()),
            ("git_commit", self.git_commit.to_json()),
            ("dirty_paths", self.dirty_paths.to_json()),
        ];
        assert(JsonAbs::Object(object_of(members_abs(members@))) == self.json()) by {
            assert(members_abs(members@) =~= seq![
                    ("canonical_root_sha256"@, self.canonical_root_sha256.json()),
                    ("git_commit"@, self.git_commit.json()),
                    ("dirty_paths"@, self.dirty_paths.json()),
            ]);
        }
        object(members)
    }
}

impl Encoded for Evidence {
    open spec fn json(&self) -> JsonAbs {
        JsonAbs::Object(
            object_of(
                seq![
                    ("id"@, self.id.json()),
                    ("statement"@, self.statement.json()),
                    ("sources"@, self.sources.json()),
                ],
            ),
        )
    }

    fn to_json(&self) -> Json {
        let members: Vec<(&'static str, Json)> = vec![
            ("id", self.id.to_json()),
            ("statement", self.statement.to_json()),
            ("sources", self.sources.to_json()),
        ];
        assert(JsonAbs::Object(object_of(members_abs(members@))) == self.json()) by {
            assert(members_abs(members@) =~= seq![
                    ("id"@, self.id.json()),
                    ("statement"@, self.statement.json()),
                    ("sources"@, self.sources.json()),
            ]);
        }
        object(members)
    }
}

impl Encoded for Decision {
    open spec fn json(&self) -> JsonAbs {
        JsonAbs::Object(
            object_of(
                seq![
                    ("id"@, self.id.json()),
                    ("statement"@, self.statement.json()),
                    ("authority"@, self.authority.json()),
                    ("sources"@, self.sources.json()),
                ],
            ),
        )
    }

    fn to_json(&self) -> Json {
        let members: Vec<(&'static str, Json)> = vec![
            ("id", self.id.to_json()),
            ("statement", self.statement.to_json()),
            ("authority", self.authority.to_json()),
            ("sources", self.sources.to_json()),
        ];
        assert(JsonAbs::Object(object_of(members_abs(members@))) == self.json()) by {
            assert(members_abs(members@) =~= seq![
                    ("id"@, self.id.json()),
                    ("statement"@, self.statement.json()),
                    ("authority"@, self.authority.json()),
                    ("sources"@, self.sources.json()),
            ]);
        }
        object(members)
    }
}

impl Encoded for Invariant {
    open spec fn json(&self) -> JsonAbs {
        JsonAbs::Object(
            object_of(
                seq![
                    ("id"@, self.id.json()),
                    ("statement"@, self.statement.json()),
                    ("sources"@, self.sources.json()),
                ],
            ),
        )
    }

    fn to_json(&self) -> Json {
        let members: Vec<(&'static str, Json)> = vec![
            ("id", self.id.to_json()),
            ("statement", self.statement.to_json()),
            ("sources", self.sources.to_json()),
        ];
        assert(JsonAbs::Object(object_of(members_abs(members@))) == self.json()) by {
            assert(members_abs(members@) =~= seq![
                    ("id"@, self.id.json()),
                    ("statement"@, self.statement.json()),
                    ("sources"@, self.sources.json()),
            ]);
        }
        object(members)
    }
}

impl Encoded for FileChange {
    open spec fn json(&self) -> JsonAbs {
        JsonAbs::Object(
            object_of(
                seq![
                    ("path"@, self.path.json()),
                    ("disposition"@, self.disposition.json()),
                    ("purpose"@, self.purpose.json()),
                    ("symbols"@, self.symbols.json()),
                ],
            ),
        )
    }

    fn to_json(&self) -> Json {
        let members: Vec<(&'static str, Json)> = vec![
            ("path", self.path.to_json()),
            ("disposition", self.disposition.to_json()),
            ("purpose", self.purpose.to_json()),
            ("symbols", self.symbols.to_json()),
        ];
        assert(JsonAbs::Object(object_of(members_abs(members@))) == self.json()) by {
            assert(members_abs(members@) =~= seq![
                    ("path"@, self.path.json()),
                    ("disposition"@, self.disposition.json()),
                    ("purpose"@, self.purpose.json()),
                    ("symbols"@, self.symbols.json()),
            ]);
        }
        object(members)
    }
}

impl Encoded for ReadRequirement {
    open spec fn json(&self) -> JsonAbs {
        JsonAbs::Object(
            object_of(
                seq![
                    ("id"@, self.id.json()),
                    ("path"@, self.path.json()),
                    ("symbols_or_ranges"@, self.symbols_or_ranges.json()),
                    ("obtain"@, self.obtain.json()),
                ],
            ),
        )
    }

    fn to_json(&self) -> Json {
        let members: Vec<(&'static str, Json)> = vec![
            ("id", self.id.to_json()),
            ("path", self.path.to_json()),
            ("symbols_or_ranges", self.symbols_or_ranges.to_json()),
            ("obtain", self.obtain.to_json()),
        ];
        assert(JsonAbs::Object(object_of(members_abs(members@))) == self.json()) by {
            assert(members_abs(members@) =~= seq![
                    ("id"@, self.id.json()),
                    ("path"@, self.path.json()),
                    ("symbols_or_ranges"@, self.symbols_or_ranges.json()),
                    ("obtain"@, self.obtain.json()),
            ]);
        }
        object(members)
    }
}

impl Encoded for ConditionalRead {
    open spec fn json(&self) -> JsonAbs {
        JsonAbs::Object(
            object_of(
                seq![
                    ("id"@, self.id.json()),
                    ("condition"@, self.condition.json()),
                    ("read"@, self.read.json()),
                ],
            ),
        )
    }

    fn to_json(&self) -> Json {
        let members: Vec<(&'static str, Json)> = vec![
            ("id", self.id.to_json()),
            ("condition", self.condition.to_json()),
            ("read", self.read.to_json()),
        ];
        assert(JsonAbs::Object(object_of(members_abs(members@))) == self.json()) by {
            assert(members_abs(members@) =~= seq![
                    ("id"@, self.id.json()),
                    ("condition"@, self.condition.json()),
                    ("read"@, self.read.json()),
            ]);
        }
        object(members)
    }
}

impl Encoded for ImplementationStep {
    open spec fn json(&self) -> JsonAbs {
        JsonAbs::Object(
            object_of(
                seq![
                    ("id"@, self.id.json()),
                    ("action"@, self.action.json()),
                    ("files"@, self.files.json()),
                    ("symbols"@, self.symbols.json()),
                    ("depends_on"@, self.depends_on.json()),
                    ("satisfies"@, self.satisfies.json()),
                ],
            ),
        )
    }

    fn to_json(&self) -> Json {
        let members: Vec<(&'static str, Json)> = vec![
            ("id", self.id.to_json()),
            ("action", self.action.to_json()),
            ("files", self.files.to_json()),
            ("symbols", self.symbols.to_json()),
            ("depends_on", self.depends_on.to_json()),
            ("satisfies", self.satisfies.to_json()),
        ];
        assert(JsonAbs::Object(object_of(members_abs(members@))) == self.json()) by {
            assert(members_abs(members@) =~= seq![
                    ("id"@, self.id.json()),
                    ("action"@, self.action.json()),
                    ("files"@, self.files.json()),
                    ("symbols"@, self.symbols.json()),
                    ("depends_on"@, self.depends_on.json()),
                    ("satisfies"@, self.satisfies.json()),
            ]);
        }
        object(members)
    }
}

impl Encoded for VerificationExpected {
    open spec fn json(&self) -> JsonAbs {
        JsonAbs::Object(
            object_of(
                seq![
                    ("exit_code"@, self.exit_code.json()),
                    ("stdout_contains"@, self.stdout_contains.json()),
                    ("stderr_contains"@, self.stderr_contains.json()),
                ],
            ),
        )
    }

    fn to_json(&self) -> Json {
        let members: Vec<(&'static str, Json)> = vec![
            ("exit_code", self.exit_code.to_json()),
            ("stdout_contains", self.stdout_contains.to_json()),
            ("stderr_contains", self.stderr_contains.to_json()),
        ];
        assert(JsonAbs::Object(object_of(members_abs(members@))) == self.json()) by {
            assert(members_abs(members@) =~= seq![
                    ("exit_code"@, self.exit_code.json()),
                    ("stdout_contains"@, self.stdout_contains.json()),
                    ("stderr_contains"@, self.stderr_contains.json()),
            ]);
        }
        object(members)
    }
}

impl Encoded for Verification {
    open spec fn json(&self) -> JsonAbs {
        JsonAbs::Object(
            object_of(
                seq![
                    ("command"@, self.command.json()),
                    ("working_directory"@, self.working_directory.json()),
                    ("expected"@, self.expected.json()),
                    ("covers"@, self.covers.json()),
                ],
            ),
        )
    }

    fn to_json(&self) -> Json {
        let members: Vec<(&'static str, Json)> = vec![
            ("command", self.command.to_json()),
            ("working_directory", self.working_directory.to_json()),
            ("expected", self.expected.to_json()),
            ("covers", self.covers.to_json()),
        ];
        assert(JsonAbs::Object(object_of(members_abs(members@))) == self.json()) by {
            assert(members_abs(members@) =~= seq![
                    ("command"@, self.command.json()),
                    ("working_directory"@, self.working_directory.json()),
                    ("expected"@, self.expected.json()),
                    ("covers"@, self.covers.json()),
            ]);
        }
        object(members)
    }
}

impl Encoded for ImplementationSlice {
    open spec fn json(&self) -> JsonAbs {
        JsonAbs::Object(
            object_of(
                seq![
                    ("id"@, self.id.json()),
                    ("outcome"@, self.outcome.json()),
                    ("depends_on"@, self.depends_on.json()),
                    ("files"@, self.files.json()),
                    ("required_reads"@, self.required_reads.json()),
                    ("conditional_reads"@, self.conditional_reads.json()),
                    ("start_condition"@, self.start_condition.json()),
                    ("steps"@, self.steps.json()),
                    ("verification"@, self.verification.json()),
                    ("done_when"@, self.done_when.json()),
                ],
            ),
        )
    }

    fn to_json(&self) -> Json {
        let members: Vec<(&'static str, Json)> = vec![
            ("id", self.id.to_json()),
            ("outcome", self.outcome.to_json()),
            ("depends_on", self.depends_on.to_json()),
            ("files", self.files.to_json()),
            ("required_reads", self.required_reads.to_json()),
            ("conditional_reads", self.conditional_reads.to_json()),
            ("start_condition", self.start_condition.to_json()),
            ("steps", self.steps.to_json()),
            ("verification", self.verification.to_json()),
            ("done_when", self.done_when.to_json()),
        ];
        assert(JsonAbs::Object(object_of(members_abs(members@))) == self.json()) by {
            assert(members_abs(members@) =~= seq![
                    ("id"@, self.id.json()),
                    ("outcome"@, self.outcome.json()),
                    ("depends_on"@, self.depends_on.json()),
                    ("files"@, self.files.json()),
                    ("required_reads"@, self.required_reads.json()),
                    ("conditional_reads"@, self.conditional_reads.json()),
                    ("start_condition"@, self.start_condition.json()),
                    ("steps"@, self.steps.json()),
                    ("verification"@, self.verification.json()),
                    ("done_when"@, self.done_when.json()),
            ]);
        }
        object(members)
    }
}

impl Encoded for OpenDecision {
    open spec fn json(&self) -> JsonAbs {
        JsonAbs::Object(
            object_of(
                seq![
                    ("id"@, self.id.json()),
                    ("question"@, self.question.json()),
                    ("consequences"@, self.consequences.json()),
                    ("affected_slices"@, self.affected_slices.json()),
                    ("sources"@, self.sources.json()),
                ],
            ),
        )
    }

    fn to_json(&self) -> Json {
        let members: Vec<(&'static str, Json)> = vec![
            ("id", self.id.to_json()),
            ("question", self.question.to_json()),
            ("consequences", self.consequences.to_json()),
            ("affected_slices", self.affected_slices.to_json()),
            ("sources", self.sources.to_json()),
        ];
        assert(JsonAbs::Object(object_of(members_abs(members@))) == self.json()) by {
            assert(members_abs(members@) =~= seq![
                    ("id"@, self.id.json()),
                    ("question"@, self.question.json()),
                    ("consequences"@, self.consequences.json()),
                    ("affected_slices"@, self.affected_slices.json()),
                    ("sources"@, self.sources.json()),
            ]);
        }
        object(members)
    }
}

impl Encoded for ImplementationPlan {
    open spec fn json(&self) -> JsonAbs {
        JsonAbs::Object(
            object_of(
                seq![
                    ("schema"@, self.schema.json()),
                    ("id"@, self.id.json()),
                    ("workspace"@, self.workspace.json()),
                    ("objective"@, self.objective.json()),
                    ("evidence"@, self.evidence.json()),
                    ("decisions"@, self.decisions.json()),
                    ("invariants"@, self.invariants.json()),
                    ("slices"@, self.slices.json()),
                    ("open_decisions"@, self.open_decisions.json()),
                ],
            ),
        )
    }

    fn to_json(&self) -> Json {
        let members: Vec<(&'static str, Json)> = vec![
            ("schema", self.schema.to_json()),
            ("id", self.id.to_json()),
            ("workspace", self.workspace.to_json()),
            ("objective", self.objective.to_json()),
            ("evidence", self.evidence.to_json()),
            ("decisions", self.decisions.to_json()),
            ("invariants", self.invariants.to_json()),
            ("slices", self.slices.to_json()),
            ("open_decisions", self.open_decisions.to_json()),
        ];
        assert(JsonAbs::Object(object_of(members_abs(members@))) == self.json()) by {
            assert(members_abs(members@) =~= seq![
                    ("schema"@, self.schema.json()),
                    ("id"@, self.id.json()),
                    ("workspace"@, self.workspace.json()),
                    ("objective"@, self.objective.json()),
                    ("evidence"@, self.evidence.json()),
                    ("decisions"@, self.decisions.json()),
                    ("invariants"@, self.invariants.json()),
                    ("slices"@, self.slices.json()),
                    ("open_decisions"@, self.open_decisions.json()),
            ]);
        }
        object(members)
    }
}

} // verus!
