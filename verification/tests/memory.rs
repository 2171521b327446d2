//! Memory topics and the claims in them.

use agl_core::agent::{
    is_valid_slug, MemoryClaim, MemoryClaimOutcome, MemoryClaimRejection, MemoryTopic,
};
use agl_core::MessageId;


fn msg(value: &str) -> MessageId {
    MessageId::parse(value).unwrap()
}

fn claim(text: &str, sources: Vec<MessageId>, files: Vec<String>) -> MemoryClaim {
    MemoryClaim {
        text: text.to_owned(),
        sources,
        files,
        supersedes: None,
    }
}

fn source() -> Vec<MessageId> {
    vec![
        msg("msg_01a090d5-03b2-7a01-ac4c-8c7b192c76e9"),
        msg("msg_01a090d5-4b9b-71b0-aae8-d5421f5c3513"),
    ]
}

fn rejected(outcomes: &[MemoryClaimOutcome], index: usize, reason: MemoryClaimRejection) {
    assert_eq!(
        outcomes.len(),
        1,
        "expected exactly one outcome, got {outcomes:?}"
    );
    assert_eq!(
        outcomes[0],
        MemoryClaimOutcome::Rejected { index, reason },
        "unexpected outcome: {:?}",
        outcomes[0]
    );
}

#[test]
fn valid_slug_forms() {
    let source = source();
    for slug in [
        "repl".to_owned(),
        "compaction".to_owned(),
        "build-release".to_owned(),
        "m1a".to_owned(),
        "a".repeat(64),
    ] {
        assert!(is_valid_slug(&slug), "slug {slug:?} must be valid");
        let topic = MemoryTopic {
            slug: slug.clone(),
            claims: vec![claim("A durable fact.", vec![source[0].clone()], vec![])],
        };
        assert_eq!(
            topic.validate(&source),
            vec![MemoryClaimOutcome::Accepted {
                index: 0,
                claim: topic.claims[0].clone(),
            }]
        );
    }
}

#[test]
fn invalid_slug_rejects_every_claim() {
    let source = source();
    for slug in [
        "",
        "Repl",
        "build release",
        "-repl",
        "repl-",
        "re--pl",
        "repl_x",
    ] {
        assert!(!is_valid_slug(slug), "slug {slug:?} must be invalid");
        let topic = MemoryTopic {
            slug: slug.to_owned(),
            claims: vec![
                claim("First fact.", vec![source[0].clone()], vec![]),
                claim("Second fact.", vec![source[1].clone()], vec![]),
            ],
        };
        assert_eq!(
            topic.validate(&source),
            vec![
                MemoryClaimOutcome::Rejected {
                    index: 0,
                    reason: MemoryClaimRejection::InvalidSlug,
                },
                MemoryClaimOutcome::Rejected {
                    index: 1,
                    reason: MemoryClaimRejection::InvalidSlug,
                },
            ]
        );
    }
}

#[test]
fn empty_or_multiline_text_is_invalid_shape() {
    let source = source();
    for text in ["", "   ", "a\nb", "a\rb"] {
        let topic = MemoryTopic {
            slug: "repl".to_owned(),
            claims: vec![claim(text, vec![source[0].clone()], vec![])],
        };
        rejected(
            &topic.validate(&source),
            0,
            MemoryClaimRejection::InvalidShape,
        );
    }
}

#[test]
fn source_membership() {
    let source = source();
    let topic = MemoryTopic {
        slug: "repl".to_owned(),
        claims: vec![claim(
            "Fact.",
            vec![msg("msg_01a090d5-9999-7a01-ac4c-8c7b192c76e9")],
            vec![],
        )],
    };
    rejected(
        &topic.validate(&source),
        0,
        MemoryClaimRejection::InvalidSources,
    );
}

#[test]
fn claim_without_any_source_is_missing_sources() {
    let source = source();
    let topic = MemoryTopic {
        slug: "repl".to_owned(),
        claims: vec![claim("Fact.", vec![], vec![])],
    };
    rejected(
        &topic.validate(&source),
        0,
        MemoryClaimRejection::MissingSources,
    );
}

#[test]
fn optional_file_paths() {
    let source = source();
    let topic = MemoryTopic {
        slug: "repl".to_owned(),
        claims: vec![
            claim(
                "Fact with a relative path.",
                vec![source[0].clone()],
                vec!["crates/agl-core/src/lib.rs".to_owned()],
            ),
            claim(
                "Absolute path.",
                vec![source[0].clone()],
                vec!["/etc/passwd".to_owned()],
            ),
            claim("Empty path.", vec![source[0].clone()], vec!["".to_owned()]),
        ],
    };
    let outcomes = topic.validate(&source);
    assert!(matches!(
        outcomes[0],
        MemoryClaimOutcome::Accepted { index: 0, .. }
    ));
    assert_eq!(
        outcomes[1],
        MemoryClaimOutcome::Rejected {
            index: 1,
            reason: MemoryClaimRejection::InvalidShape,
        }
    );
    assert_eq!(
        outcomes[2],
        MemoryClaimOutcome::Rejected {
            index: 2,
            reason: MemoryClaimRejection::InvalidShape,
        }
    );

    // A claim citing only a file path has a source.
    let file_only = MemoryTopic {
        slug: "repl".to_owned(),
        claims: vec![claim(
            "File-only fact.",
            vec![],
            vec!["memory/INDEX.md".to_owned()],
        )],
    };
    assert!(matches!(
        file_only.validate(&source)[0],
        MemoryClaimOutcome::Accepted { index: 0, .. }
    ));
}

#[test]
fn supersedes_reference_form() {
    let source = source();
    let mut claim = claim("New fact.", vec![source[0].clone()], vec![]);
    claim.supersedes = Some(vec!["repl#claim-2".to_owned()]);
    let topic = MemoryTopic {
        slug: "repl".to_owned(),
        claims: vec![claim],
    };
    assert!(matches!(
        topic.validate(&source)[0],
        MemoryClaimOutcome::Accepted { index: 0, .. }
    ));

    for reference in [
        "repl#claim-0",
        "repl#claim-01",
        "repl#3",
        "#claim-1",
        "Repl#claim-1",
        "repl#claim-",
        "repl#claim-a",
        "replclaim-1",
    ] {
        let topic = MemoryTopic {
            slug: "repl".to_owned(),
            claims: vec![MemoryClaim {
                text: "New fact.".to_owned(),
                sources: vec![source[0].clone()],
                files: vec![],
                supersedes: Some(vec![reference.to_owned()]),
            }],
        };
        rejected(
            &topic.validate(&source),
            0,
            MemoryClaimRejection::InvalidSupersession,
        );
    }
}

#[test]
fn claim_wording_language_is_not_checked() {
    let source = source();
    let topic = MemoryTopic {
        slug: "repl".to_owned(),
        claims: vec![claim(
            "Використовується reedline для вводу.",
            vec![source[0].clone()],
            vec![],
        )],
    };
    assert!(matches!(
        topic.validate(&source)[0],
        MemoryClaimOutcome::Accepted { index: 0, .. }
    ));
}

#[test]
fn topic_without_claims_has_no_outcomes() {
    let topic = MemoryTopic {
        slug: "repl".to_owned(),
        claims: vec![],
    };
    assert!(topic.validate(&source()).is_empty());
}
