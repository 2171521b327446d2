//! Implementation plans: their validation and their canonical bytes.

use agl_core::implementation_plan::{
    workspace_root_digest, Check, ConditionalRead, Evidence, FileChange, FileDisposition,
    ImplementationPlan, ImplementationSlice, ImplementationStep, Invariant, Objective,
    OpenDecision, PlanDigest, PlanError, PlanId, PlanItemId, PlanSchema, PlanState, PlanText,
    ReadRequirement, SourceKind, SourceRef, Verification, VerificationExpected,
    WorkspaceEvidence, WorkspacePath, GitCommit, MAX_COLLECTION_ITEMS, MAX_PLAN_BYTES,
};

fn text(value: &str) -> PlanText {
    PlanText::new(value).unwrap()
}

#[test]
fn plan_text_accepts_multiline_content_but_rejects_other_controls() {
    assert_eq!(
        PlanText::new("first\n\tsecond").unwrap().as_str(),
        "first\n\tsecond"
    );
    assert!(PlanText::new("first\rsecond").is_err());
    assert!(PlanText::new("first\0second").is_err());
}
fn id(value: &str) -> PlanItemId {
    PlanItemId::new(value).unwrap()
}
fn source() -> SourceRef {
    SourceRef {
        kind: SourceKind::File,
        locator: text("reports/notes.md"),
        digest: None,
        line_start: None,
        line_end: None,
    }
}
fn check(name: &str) -> Check {
    Check {
        id: id(name),
        statement: text("check"),
        sources: vec![source()],
    }
}
fn plan() -> ImplementationPlan {
    let file = WorkspacePath::new("src/lib.rs").unwrap();
    ImplementationPlan {
        schema: PlanSchema::V1,
        id: PlanId::generate(),
        workspace: WorkspaceEvidence {
            canonical_root_sha256: PlanDigest::from_bytes([0; 32]),
            git_commit: None,
            dirty_paths: vec![],
        },
        objective: Objective {
            outcome: text("outcome"),
            acceptance: vec![check("accept")],
            sources: vec![source()],
        },
        evidence: vec![Evidence {
            id: id("evidence"),
            statement: text("fact"),
            sources: vec![source()],
        }],
        decisions: vec![],
        invariants: vec![Invariant {
            id: id("invariant"),
            statement: text("safe"),
            sources: vec![source()],
        }],
        slices: vec![ImplementationSlice {
            id: id("slice"),
            outcome: text("done"),
            depends_on: vec![],
            files: vec![FileChange {
                path: file.clone(),
                disposition: FileDisposition::Modify,
                purpose: text("change"),
                symbols: vec![],
            }],
            required_reads: vec![ReadRequirement {
                id: id("read"),
                path: file.clone(),
                symbols_or_ranges: vec![],
                obtain: text("understand"),
            }],
            conditional_reads: vec![],
            start_condition: vec![id("evidence")],
            steps: vec![ImplementationStep {
                id: id("step"),
                action: text("change"),
                files: vec![file],
                symbols: vec![],
                depends_on: vec![],
                satisfies: vec![id("invariant"), id("accept")],
            }],
            verification: vec![Verification {
                command: text("cargo test"),
                working_directory: WorkspacePath::new(".").unwrap(),
                expected: VerificationExpected {
                    exit_code: 0,
                    stdout_contains: vec![],
                    stderr_contains: vec![],
                },
                covers: vec![],
            }],
            done_when: vec![check("done")],
        }],
        open_decisions: vec![],
    }
}

fn add_second_slice(value: &mut ImplementationPlan) {
    let mut slice = value.slices[0].clone();
    slice.id = id("slice-two");
    slice.required_reads[0].id = id("read-two");
    slice.steps[0].id = id("step-two");
    slice.done_when[0].id = id("done-two");
    value.slices.push(slice);
}

fn assert_nested_bound(mutator: impl FnOnce(&mut ImplementationPlan)) {
    let mut value = plan();
    mutator(&mut value);
    let error = value.validate().unwrap_err();
    assert!(error.0.contains("exceeds 256 items"), "{}", error.0);
}

#[test]
fn canonical_bytes_are_sorted_and_digest_is_stable() {
    let value = plan();
    let first = value.canonical_bytes().unwrap();
    let second = ImplementationPlan::from_canonical_bytes(&first, Ok(value.clone())).unwrap();
    assert_eq!(first, second.canonical_bytes().unwrap());
    assert_eq!(value.digest().unwrap(), second.digest().unwrap());
    assert!(
        String::from_utf8(first)
            .unwrap()
            .starts_with("{\"decisions\"")
    );
}

#[test]
fn strict_shape_rejects_unknown_fields_and_noncanonical_bytes() {
    let value = plan();
    let canonical = String::from_utf8(value.canonical_bytes().unwrap()).unwrap();
    let extra = canonical.replace("{\"decisions\"", "{\"extra\":true,\"decisions\"");
    assert!(ImplementationPlan::from_canonical_bytes(
        extra.as_bytes(),
        Err("unknown field `extra`".to_owned())
    )
    .is_err());
    let spaced = canonical.replace("{\"decisions\":[]", "{\"decisions\": []");
    assert_ne!(spaced, canonical);
    assert!(ImplementationPlan::from_canonical_bytes(spaced.as_bytes(), Ok(value)).is_err());
}

#[test]
fn validation_rejects_traversal_dangling_and_cycles() {
    assert!(WorkspacePath::new("../secret").is_err());
    assert!(WorkspacePath::new("/etc/passwd").is_err());
    let mut value = plan();
    value.slices[0].steps[0].files = vec![WorkspacePath::new("src/other.rs").unwrap()];
    assert!(value.validate().is_err());
    let mut value = plan();
    value.slices[0].steps[0].depends_on = vec![id("missing")];
    assert!(value.validate().is_err());
    let mut value = plan();
    value.slices[0].steps[0].depends_on = vec![id("step")];
    assert!(value.validate().is_err());
}

#[test]
fn validation_rejects_repository_state_as_only_verification() {
    let mut value = plan();
    value.slices[0].verification[0].command = text("git diff --name-only");
    let error = value.validate().unwrap_err();
    assert!(
        error.0.contains("executable behavior verification"),
        "{}",
        error.0
    );

    value.slices[0].verification[0].command = text("pytest -q");
    assert!(value.validate().is_ok());
}

#[test]
fn implementation_gate_rejects_open_decisions() {
    let mut value = plan();
    value.open_decisions.push(OpenDecision {
        id: id("choice"),
        question: text("which"),
        consequences: text("changes"),
        affected_slices: vec![id("slice")],
        sources: vec![source()],
    });
    assert!(value.validate().is_ok());
    assert!(value.validate_for_implementation().is_err());
}

#[test]
fn every_nested_collection_is_bounded() {
    let count = MAX_COLLECTION_ITEMS + 1;
    assert_nested_bound(|value| {
        value.workspace.dirty_paths = vec![WorkspacePath::new("src/lib.rs").unwrap(); count]
    });
    assert_nested_bound(|value| value.objective.acceptance = vec![check("accept"); count]);
    assert_nested_bound(|value| value.objective.sources = vec![source(); count]);
    assert_nested_bound(|value| value.evidence[0].sources = vec![source(); count]);
    assert_nested_bound(|value| value.slices[0].depends_on = vec![id("slice"); count]);
    assert_nested_bound(|value| {
        value.slices[0].files = vec![value.slices[0].files[0].clone(); count]
    });
    assert_nested_bound(|value| value.slices[0].files[0].symbols = vec![text("symbol"); count]);
    assert_nested_bound(|value| {
        value.slices[0].required_reads = vec![value.slices[0].required_reads[0].clone(); count]
    });
    assert_nested_bound(|value| {
        value.slices[0].conditional_reads = vec![
            ConditionalRead {
                id: id("conditional"),
                condition: text("condition"),
                read: value.slices[0].required_reads[0].clone()
            };
            count
        ]
    });
    assert_nested_bound(|value| value.slices[0].start_condition = vec![id("evidence"); count]);
    assert_nested_bound(|value| {
        value.slices[0].steps = vec![value.slices[0].steps[0].clone(); count]
    });
    assert_nested_bound(|value| {
        value.slices[0].steps[0].files = vec![WorkspacePath::new("src/lib.rs").unwrap(); count]
    });
    assert_nested_bound(|value| value.slices[0].steps[0].symbols = vec![text("symbol"); count]);
    assert_nested_bound(|value| value.slices[0].steps[0].depends_on = vec![id("step"); count]);
    assert_nested_bound(|value| value.slices[0].steps[0].satisfies = vec![id("accept"); count]);
    assert_nested_bound(|value| {
        value.slices[0].verification = vec![value.slices[0].verification[0].clone(); count]
    });
    assert_nested_bound(|value| {
        value.slices[0].verification[0].covers = vec![id("accept"); count]
    });
    assert_nested_bound(|value| value.slices[0].done_when = vec![check("done"); count]);
    assert_nested_bound(|value| {
        value.slices[0].required_reads[0].symbols_or_ranges = vec![text("symbol"); count]
    });
    assert_nested_bound(|value| {
        value.open_decisions = vec![OpenDecision {
            id: id("choice"),
            question: text("which"),
            consequences: text("changes"),
            affected_slices: vec![id("slice"); count],
            sources: vec![source()],
        }]
    });
}

#[test]
fn start_conditions_resolve_only_local_read_requirements() {
    let mut value = plan();
    add_second_slice(&mut value);
    value.slices[0].start_condition = vec![id("read-two")];
    assert!(value.validate().is_err());

    let mut value = plan();
    add_second_slice(&mut value);
    value.slices[1].start_condition = vec![id("read")];
    assert!(value.validate().is_err());

    let mut value = plan();
    value.slices[0].conditional_reads.push(ConditionalRead {
        id: id("conditional"),
        condition: text("when needed"),
        read: ReadRequirement {
            id: id("conditional-read"),
            path: WorkspacePath::new("src/other.rs").unwrap(),
            symbols_or_ranges: vec![],
            obtain: text("more evidence"),
        },
    });
    value.slices[0].start_condition = vec![id("conditional")];
    assert!(value.validate().is_err());
    value.slices[0].start_condition = vec![id("conditional-read")];
    assert!(value.validate().is_ok());
}

#[test]
fn file_like_sources_and_file_contexts_reject_root_or_traversal() {
    for kind in [SourceKind::File, SourceKind::Test, SourceKind::Config] {
        let mut value = plan();
        value.evidence[0].sources[0].kind = kind;
        value.evidence[0].sources[0].locator = text("../outside");
        assert!(value.validate().is_err());
    }
    let mut value = plan();
    value.slices[0].files[0].path = WorkspacePath::new(".").unwrap();
    assert!(value.validate().is_err());
    let mut value = plan();
    value.slices[0].required_reads[0].path = WorkspacePath::new(".").unwrap();
    assert!(value.validate().is_err());
    let mut value = plan();
    value.slices[0].steps[0].files = vec![WorkspacePath::new(".").unwrap()];
    assert!(value.validate().is_err());
    let mut value = plan();
    value.workspace.dirty_paths = vec![WorkspacePath::new(".").unwrap()];
    assert!(value.validate().is_err());
    assert!(plan().validate().is_ok());
}

#[test]
fn plan_ids_are_canonical_uuid_v7_without_a_prefix() {
    let value = PlanId::generate();
    let encoded = value.to_string();
    assert_eq!(PlanId::parse(&encoded).unwrap(), value);
    assert!(!encoded.contains('_'));
    assert!(PlanId::parse(&encoded.to_uppercase()).is_err());
    assert!(PlanId::parse(&encoded.replace('-', "")).is_err());
    assert!(
        PlanId::parse("550e8400-e29b-41d4-a716-446655440000")
            .is_err()
    );
    assert!(PlanId::new([0; 16]).is_err());
}


#[test]
fn workspace_identity_hashes_non_utf8_os_bytes() {
    let root: &[u8] = b"/tmp/agl-plan-path/workspace-\xff";
    let raw = workspace_root_digest(root);
    let lossy = workspace_root_digest(String::from_utf8_lossy(root).as_bytes());
    assert_ne!(raw, lossy);
    let mut value = plan();
    value.workspace.canonical_root_sha256 = PlanDigest::from_bytes(raw);
    assert!(value.workspace_matches(root));
    assert!(!value.workspace_matches(b"/tmp/agl-plan-path"));
}

#[test]
fn workspace_root_digest_is_the_sha_256_of_the_path() {
    assert_eq!(
        PlanDigest::from_bytes(workspace_root_digest(b"abc")).hex(),
        "ba7816bf8f01cfea414140de5dae2223b00361a396177a9cb410ff61f20015ad"
    );
}

#[test]
fn canonical_bytes_of_a_small_plan_are_exact() {
    let mut value = plan();
    value.id = PlanId::parse("01a090d5-03b2-7a01-ac4c-8c7b192c76e9").unwrap();
    let bytes = String::from_utf8(value.canonical_bytes().unwrap()).unwrap();
    let expected = "{\"decisions\":[],\"evidence\":[{\"id\":\"evidence\",\"sources\":[\
        {\"digest\":null,\"kind\":\"file\",\"line_end\":null,\"line_start\":null,\
        \"locator\":\"reports/notes.md\"}],\"statement\":\"fact\"}],\
        \"id\":\"01a090d5-03b2-7a01-ac4c-8c7b192c76e9\",\"invariants\":[";
    assert!(bytes.starts_with(expected), "{}", bytes);
    assert!(bytes.contains("\"schema\":\"agentlibre.implementation-plan/v1\""));
}

#[test]
fn a_plan_over_the_size_limit_has_no_canonical_bytes() {
    let long = "x".repeat(16 * 1024);
    let mut value = plan();
    value.slices[0].files[0].symbols = vec![text(&long); 256];
    assert!(256 * long.len() >= MAX_PLAN_BYTES);
    assert!(matches!(value.canonical_bytes(), Err(PlanError::TooLarge)));
    assert!(matches!(value.digest(), Err(PlanError::TooLarge)));
    assert!(matches!(
        ImplementationPlan::from_canonical_bytes(&vec![b' '; MAX_PLAN_BYTES + 1], Ok(value)),
        Err(PlanError::TooLarge)
    ));
}

#[test]
fn an_invalid_plan_has_no_canonical_bytes() {
    let mut value = plan();
    value.slices[0].steps[0].depends_on = vec![id("step")];
    assert!(matches!(value.canonical_bytes(), Err(PlanError::Validation(_))));
}

#[test]
fn a_draft_with_open_decisions_awaits_them() {
    let mut value = plan();
    assert_eq!(PlanState::for_draft(&value), PlanState::ReadyForApproval);
    value.open_decisions.push(OpenDecision {
        id: id("choice"),
        question: text("which"),
        consequences: text("changes"),
        affected_slices: vec![id("slice")],
        sources: vec![source()],
    });
    assert_eq!(PlanState::for_draft(&value), PlanState::AwaitingDecisions);
}

#[test]
fn longer_cycles_are_found() {
    let mut value = plan();
    add_second_slice(&mut value);
    value.slices[0].depends_on = vec![id("slice-two")];
    assert!(value.validate().is_ok());
    value.slices[1].depends_on = vec![id("slice")];
    assert!(value.validate().is_err());
}

#[test]
fn identifiers_commits_and_digests_are_strict() {
    assert!(PlanItemId::new("a-b.c_1").is_ok());
    assert!(PlanItemId::new("").is_err());
    assert!(GitCommit::new(&"a".repeat(40)).is_ok());
    assert!(GitCommit::new(&"A".repeat(40)).is_err());
    assert!(GitCommit::new("abc").is_err());
    let digest = PlanDigest::from_bytes([0x0f; 32]);
    assert_eq!(PlanDigest::parse(&digest.to_string()).unwrap(), digest);
    assert!(PlanDigest::parse(&"0f".repeat(31)).is_err());
}
