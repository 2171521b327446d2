//! Memory entries, the corpus and its index.

use std::collections::BTreeMap;

use agl_core::agent::{
    parse_entry, parse_index, render_entry, render_index_line, title_from_slug, ClaimApplyOutcome,
    ClaimStatus, CorpusParseError, EntryParseError, FileSource, IndexLine, IndexParseError,
    MemoryClaim, MemoryClaimRejection, MemoryCorpus, MemoryEntry, MemoryTopic, StoredClaim,
    INDEX_HEADER, INDEX_MAX_LINES,
};
use agl_core::{AgentRunId, MessageId};


const RUN_A: &str = "run_01a090d4-5628-77d3-8f53-1abe34dbda5d";
const RUN_B: &str = "run_01a09292-e4ab-7e11-a6ee-1221312293c1";
const RUN_C: &str = "run_01a09500-abcd-7000-8000-000000000000";
const MSG_A: &str = "msg_01a090d5-03b2-7a01-ac4c-8c7b192c76e9";
const MSG_B: &str = "msg_01a090d5-4b9b-71b0-aae8-d5421f5c3513";

/// Verbatim fixture: the seeded `memory/entries/repl.md` corpus entry.
const SEEDED_REPL: &str = r"# REPL architecture

- slug: repl
- created: run_01a090d4-5628-77d3-8f53-1abe34dbda5d
- updated: run_01a09292-e4ab-7e11-a6ee-1221312293c1
- artifact: reports/repl-architecture.md

## Claims

- The REPL is the default (no-subcommand) mode of the `agl` CLI. [src: msg_01a090d5-03b2-7a01-ac4c-8c7b192c76e9, msg_01a090d5-4b9b-71b0-aae8-d5421f5c3513] [file: products/agl-cli/src/lib.rs@778b0789cbd7]
- Input uses reedline (Emacs keybindings) with SlashCompleter, ListMenu (Tab or /), DockHinter. [src: msg_01a090d5-e0fe-76e2-ab23-107cd6e69dd0] [file: products/agl-cli/src/lib.rs@778b0789cbd7]
- Daemon protocol: Unix socket, JSONL, schema `agentlibre.agent.v1alpha`, 8 MiB max frame. [src: msg_01a090d8-9e45-7923-8e85-0a14c31a29ec, msg_01a090d8-b3e5-75a1-89d9-26cc3ac272d4] [file: crates/agl-daemon-api/src/agent.rs@b9e79fa893fe, crates/agl-daemon-api/src/lib.rs@8ea676989617]
- Model generation is measured before the call; prompt ≥ 70% of capacity (ceil(7/10·cap)) fails with CompactionRequired. [file: crates/agl-core/src/agent/context.rs@3a4aa91013fd, products/services/agl-daemon/src/agent/operation_driver.rs@87d4b4ce57ad]
- Session lifecycle: the CLI connects to the daemon, opens (or resumes) a conversation; each submitted prompt starts a run via `AgentClient::start_run`; the REPL renders the run's `AgentEvent` stream live and prints a `RUN` summary with elapsed time on terminal status. [file: reports/repl-architecture.md@332f51b1a48c, crates/agl-daemon-api/src/client.rs@ef5d43ad6051]
- `AgentProgress` (`ModelOutputDelta`, `OperationStatus`) is process-local and never persisted; durable consumers resync via `AgentRunView` and `AgentEventPage`. [file: reports/repl-daemon-protocol.md@5d13c5f1ba2d, crates/agl-daemon-api/src/progress.rs@d2013283ecc0]
- Operation requests are typed JSON objects on the wire; `AgentOperationKind` has exactly three variants: `ModelGeneration`, `Compaction`, `Tool`. [file: reports/repl-daemon-protocol.md@5d13c5f1ba2d, crates/agl-core/src/agent/operation.rs@38b1858893c7]
- `AgentClient` (crate `agl-daemon-api`) exposes `open_conversation`, `start_run`, `subscribe`, `rename_conversation`. [file: reports/repl-daemon-protocol.md@5d13c5f1ba2d, crates/agl-daemon-api/src/client.rs@ef5d43ad6051]
- Prompt history is persisted as JSON lines to `<state>/repl/history.reedline` (XDG state root `agentLIBRE`), capped at 1000 entries with the oldest dropped. [file: reports/repl-terminal-ui.md@0dfba85063f6, products/agl-cli/src/lib.rs@778b0789cbd7]
- `TtyRenderer` owns the terminal display state for the session (theme, activity string, streaming buffer, transcript newline state); model markdown is rendered with ANSI colors. [file: reports/repl-terminal-ui.md@0dfba85063f6, products/agl-cli/src/lib.rs@778b0789cbd7]
";

fn listing(files: &BTreeMap<String, String>) -> Vec<(String, String)> {
    files.iter().map(|(path, text)| (path.clone(), text.clone())).collect()
}

fn run(value: &str) -> AgentRunId {
    AgentRunId::parse(value).unwrap()
}

fn msg(value: &str) -> MessageId {
    MessageId::parse(value).unwrap()
}

fn new_claim(text: &str, sources: Vec<MessageId>, files: Vec<String>) -> MemoryClaim {
    MemoryClaim {
        text: text.to_owned(),
        sources,
        files,
        supersedes: None,
    }
}

fn superseding_claim(text: &str, sources: Vec<MessageId>, refs: Vec<&str>) -> MemoryClaim {
    MemoryClaim {
        text: text.to_owned(),
        sources,
        files: vec![],
        supersedes: Some(refs.into_iter().map(str::to_owned).collect()),
    }
}

fn topic(slug: &str, claims: Vec<MemoryClaim>) -> MemoryTopic {
    MemoryTopic {
        slug: slug.to_owned(),
        claims,
    }
}

fn two_claim_entry() -> MemoryEntry {
    MemoryEntry {
        title: "REPL architecture".to_owned(),
        slug: "repl".to_owned(),
        created: run(RUN_A),
        updated: run(RUN_B),
        artifact: Some("reports/repl-architecture.md".to_owned()),
        claims: vec![
            StoredClaim {
                text: "Old first fact.".to_owned(),
                sources: vec![msg(MSG_A)],
                files: vec![],
                status: None,
                superseded_by: None,
            },
            StoredClaim {
                text: "Old second fact.".to_owned(),
                sources: vec![],
                files: vec![FileSource {
                    path: "crates/agl-core/src/lib.rs".to_owned(),
                    digest: Some("3a4aa91013fd".to_owned()),
                }],
                status: None,
                superseded_by: None,
            },
        ],
    }
}

fn single_claim_entry(slug: &str, title: &str, text: &str) -> MemoryEntry {
    MemoryEntry {
        title: title.to_owned(),
        slug: slug.to_owned(),
        created: run(RUN_A),
        updated: run(RUN_A),
        artifact: None,
        claims: vec![StoredClaim {
            text: text.to_owned(),
            sources: vec![msg(MSG_A)],
            files: vec![],
            status: None,
            superseded_by: None,
        }],
    }
}

#[test]
fn claim_text_with_bracket_groups_is_preserved_verbatim() {
    let text = format!(
        "# Demo\n\n- slug: demo\n- created: {RUN_A}\n- updated: {RUN_B}\n\n## Claims\n\n\
         - The list uses [brackets] and [a: b] groups. [src: {MSG_A}]\n\
         - The wording keeps [ref: old] [src: {MSG_B}] [file: notes/demo.md@3a4aa91013fd]\n"
    );
    let entry = parse_entry(&text).unwrap();
    assert_eq!(
        entry.claims[0].text,
        "The list uses [brackets] and [a: b] groups."
    );
    assert_eq!(entry.claims[0].sources, vec![msg(MSG_A)]);
    assert!(entry.claims[0].files.is_empty());
    assert_eq!(entry.claims[1].text, "The wording keeps [ref: old]");
    assert_eq!(entry.claims[1].sources, vec![msg(MSG_B)]);
    assert_eq!(
        entry.claims[1].files,
        vec![FileSource {
            path: "notes/demo.md".to_owned(),
            digest: Some("3a4aa91013fd".to_owned()),
        }]
    );
    assert_eq!(render_entry(&entry), text);
}

#[test]
fn index_round_trips_through_parse_and_render() {
    let mut corpus = MemoryCorpus::default();
    corpus.insert(parse_entry(SEEDED_REPL).unwrap());
    corpus.insert(single_claim_entry(
        "build-release",
        "Build release",
        "The release train ships on Fridays.",
    ));
    let rendered = corpus.render_index();
    let lines = parse_index(&rendered).unwrap();
    assert_eq!(
        lines,
        vec![
            IndexLine {
                slug: "build-release".to_owned(),
                title: "Build release".to_owned(),
                claims: 1,
                path: "entries/build-release.md".to_owned(),
            },
            IndexLine {
                slug: "repl".to_owned(),
                title: "REPL architecture".to_owned(),
                claims: 10,
                path: "entries/repl.md".to_owned(),
            },
        ]
    );
    let reconstructed =
        INDEX_HEADER.to_owned() + &lines.iter().map(render_index_line).collect::<String>();
    assert_eq!(reconstructed, rendered);

    // An empty corpus renders just the header and parses to zero lines.
    let empty = MemoryCorpus::default();
    assert_eq!(
        parse_index(&empty.render_index()).unwrap(),
        Vec::<IndexLine>::new()
    );
}

#[test]
fn index_parse_rejects_malformed_lines() {
    assert!(matches!(
        parse_index(""),
        Err(IndexParseError::MissingHeader)
    ));
    assert!(matches!(
        parse_index("# Memory Index\n"),
        Err(IndexParseError::MissingHeader)
    ));

    let good =
        format!("{INDEX_HEADER}- repl — REPL architecture (10 claims) — entries/repl.md\n");
    assert_eq!(parse_index(&good).unwrap().len(), 1);

    let not_bullet = format!("{INDEX_HEADER}plain note\n");
    assert!(matches!(
        parse_index(&not_bullet),
        Err(IndexParseError::MalformedLine { line: 3, .. })
    ));

    let bad_count =
        format!("{INDEX_HEADER}- repl — REPL architecture (ten claims) — entries/repl.md\n");
    assert!(matches!(
        parse_index(&bad_count),
        Err(IndexParseError::InvalidClaimCount { line: 3, .. })
    ));

    let path_mismatch =
        format!("{INDEX_HEADER}- repl — REPL architecture (10 claims) — entries/other.md\n");
    assert!(matches!(
        parse_index(&path_mismatch),
        Err(IndexParseError::PathMismatch { line: 3, .. })
    ));

    let bad_slug =
        format!("{INDEX_HEADER}- Repl — REPL architecture (10 claims) — entries/Repl.md\n");
    assert!(matches!(
        parse_index(&bad_slug),
        Err(IndexParseError::InvalidSlug { line: 3, .. })
    ));
}

#[test]
fn cross_topic_supersession_tags_the_other_entry() {
    let mut corpus = MemoryCorpus::default();
    corpus.insert(two_claim_entry());
    corpus.insert(single_claim_entry(
        "daemon",
        "Daemon notes",
        "The daemon binds one socket.",
    ));

    let outcomes = corpus.apply_topic(
        &topic(
            "repl",
            vec![superseding_claim(
                "The REPL runs in-process now.",
                vec![msg(MSG_B)],
                vec!["daemon#claim-1"],
            )],
        ),
        &run(RUN_C),
    );

    assert_eq!(outcomes, vec![ClaimApplyOutcome::Appended { ordinal: 3 }]);
    let daemon = corpus.entry("daemon").unwrap();
    assert_eq!(
        daemon.claims[0].superseded_by.as_deref(),
        Some("repl#claim-3")
    );
    // The target's wording is preserved; only the tag is added.
    assert_eq!(daemon.claims[0].text, "The daemon binds one socket.");
    // Tagging the target counts as an edit: its `updated` run moves to
    // the current run even though no claim was appended to it.
    assert_eq!(
        daemon.updated,
        run(RUN_C),
        "cross-topic tagging must bump the target's updated run"
    );
    let rendered = render_entry(daemon);
    assert!(rendered.contains(&format!(
        "- The daemon binds one socket. [src: {MSG_A}] [superseded-by: repl#claim-3]\n"
    )));
    assert_eq!(parse_entry(&rendered).unwrap(), daemon.clone());

    let repl = corpus.entry("repl").unwrap();
    assert_eq!(repl.claims[2].text, "The REPL runs in-process now.");
    assert_eq!(repl.claims[0].superseded_by, None);
}

#[test]
fn cross_topic_invalid_supersession_rejects_and_leaves_target_untouched() {
    for reference in ["ghost#claim-1", "daemon#claim-2", "daemon#claim-0"] {
        let mut corpus = MemoryCorpus::default();
        corpus.insert(single_claim_entry(
            "daemon",
            "Daemon notes",
            "The daemon binds one socket.",
        ));
        let before = render_entry(corpus.entry("daemon").unwrap());

        let outcomes = corpus.apply_topic(
            &topic(
                "repl",
                vec![superseding_claim(
                    "The REPL runs in-process now.",
                    vec![msg(MSG_B)],
                    vec![reference],
                )],
            ),
            &run(RUN_C),
        );

        assert_eq!(
            outcomes,
            vec![ClaimApplyOutcome::Rejected {
                reason: MemoryClaimRejection::InvalidSupersession
            }],
            "reference {reference:?}"
        );
        assert_eq!(render_entry(corpus.entry("daemon").unwrap()), before);
        assert!(
            corpus.entry("repl").is_none(),
            "a rejected cross-topic claim must not create the topic"
        );
    }
}

#[test]
fn seeded_entry_round_trips_verbatim() {
    let entry = parse_entry(SEEDED_REPL).unwrap();
    assert_eq!(entry.title, "REPL architecture");
    assert_eq!(entry.slug, "repl");
    assert_eq!(entry.created, run(RUN_A));
    assert_eq!(entry.updated, run(RUN_B));
    assert_eq!(
        entry.artifact.as_deref(),
        Some("reports/repl-architecture.md")
    );
    assert_eq!(entry.claims.len(), 10);

    let first = &entry.claims[0];
    assert_eq!(
        first.text,
        "The REPL is the default (no-subcommand) mode of the `agl` CLI."
    );
    assert_eq!(first.sources, vec![msg(MSG_A), msg(MSG_B)]);
    assert_eq!(
        first.files,
        vec![FileSource {
            path: "products/agl-cli/src/lib.rs".to_owned(),
            digest: Some("778b0789cbd7".to_owned()),
        }]
    );

    // Claim 3 (ordinal 3) carries two `file:` sources in one tag.
    assert_eq!(entry.claims[2].files.len(), 2);
    // Claim 4 is file-only: no `src:` tag.
    assert!(entry.claims[3].sources.is_empty());
    assert_eq!(entry.claims[3].files.len(), 2);

    for claim in &entry.claims {
        assert!(claim.status.is_none());
        assert!(claim.superseded_by.is_none());
    }

    assert_eq!(render_entry(&entry), SEEDED_REPL);
}

#[test]
fn index_is_regenerated_from_entries_with_counts() {
    let mut files = BTreeMap::new();
    files.insert("entries/repl.md".to_owned(), SEEDED_REPL.to_owned());
    let corpus = MemoryCorpus::parse(&listing(&files)).unwrap();
    // The regenerated line uses the entry title and claim count.
    assert_eq!(
        corpus.render_index(),
        "# Memory Index\n\
         <!-- hard budget: ≤ 40 lines total. One line per entry. Regenerate, never hand-edit semantics. -->\n\
         - repl — REPL architecture (10 claims) — entries/repl.md\n"
    );
    assert_eq!(corpus.index_lines(), 3);
    assert_eq!(corpus.render_index().lines().count(), 3);
}

#[test]
fn corpus_parse_rejects_a_file_slug_mismatch() {
    let mut files = BTreeMap::new();
    files.insert("entries/other.md".to_owned(), SEEDED_REPL.to_owned());
    assert!(matches!(
        MemoryCorpus::parse(&listing(&files)),
        Err(CorpusParseError { .. })
    ));
}

#[test]
fn append_updates_updated_run_and_preserves_old_lines() {
    let mut corpus = MemoryCorpus::default();
    corpus.insert(two_claim_entry());
    let before = render_entry(corpus.entry("repl").unwrap());

    let outcomes = corpus.apply_topic(
        &topic(
            "repl",
            vec![new_claim(
                "New third fact.",
                vec![msg(MSG_B)],
                vec!["crates/agl-core/src/agent/memory_entry.rs".to_owned()],
            )],
        ),
        &run(RUN_C),
    );

    assert_eq!(outcomes, vec![ClaimApplyOutcome::Appended { ordinal: 3 }]);
    let entry = corpus.entry("repl").unwrap();
    assert_eq!(entry.created, run(RUN_A));
    assert_eq!(entry.updated, run(RUN_C));
    assert_eq!(entry.claims.len(), 3);
    // Newly applied claims carry paths without digests.
    assert!(entry.claims[2].files[0].digest.is_none());

    let after = render_entry(entry);
    // The `updated` run legitimately moves from RUN_B to RUN_C in the
    // header, so compare from the `## Claims` section down: the existing
    // claim lines stay byte-for-byte intact and the new claim is appended.
    let before_claims = before[before.find("## Claims").unwrap()..].to_owned();
    let after_claims = &after[after.find("## Claims").unwrap()..];
    assert!(
        after_claims.starts_with(&before_claims),
        "existing claim lines must stay untouched"
    );
    assert!(after.contains(&format!(
        "- New third fact. [src: {MSG_B}] [file: crates/agl-core/src/agent/memory_entry.rs]\n"
    )));
    assert_eq!(parse_entry(&after).unwrap(), entry.clone());
}

#[test]
fn exact_text_duplicate_is_not_rewritten() {
    let mut corpus = MemoryCorpus::default();
    corpus.insert(two_claim_entry());
    let before = render_entry(corpus.entry("repl").unwrap());

    let outcomes = corpus.apply_topic(
        &topic(
            "repl",
            vec![new_claim("Old first fact.", vec![msg(MSG_B)], vec![])],
        ),
        &run(RUN_C),
    );

    assert_eq!(outcomes, vec![ClaimApplyOutcome::Duplicate { ordinal: 1 }]);
    let entry = corpus.entry("repl").unwrap();
    assert_eq!(render_entry(entry), before);
    assert_eq!(
        entry.updated,
        run(RUN_B),
        "a duplicate-only apply must not bump updated"
    );
}

#[test]
fn supersession_tags_old_claim_without_rewriting_it() {
    let mut corpus = MemoryCorpus::default();
    corpus.insert(two_claim_entry());

    let outcomes = corpus.apply_topic(
        &topic(
            "repl",
            vec![superseding_claim(
                "New first fact.",
                vec![msg(MSG_B)],
                vec!["repl#claim-1"],
            )],
        ),
        &run(RUN_C),
    );

    assert_eq!(outcomes, vec![ClaimApplyOutcome::Appended { ordinal: 3 }]);
    let entry = corpus.entry("repl").unwrap();
    assert_eq!(entry.claims[0].text, "Old first fact.");
    assert_eq!(
        entry.claims[0].superseded_by.as_deref(),
        Some("repl#claim-3")
    );
    assert_eq!(entry.claims[1].superseded_by, None);
    assert_eq!(entry.claims[2].text, "New first fact.");
    assert_eq!(entry.claims[2].superseded_by, None);

    let rendered = render_entry(entry);
    assert!(rendered.contains(&format!(
        "- Old first fact. [src: {MSG_A}] [superseded-by: repl#claim-3]\n"
    )));
    assert!(
        rendered
            .contains("- Old second fact. [file: crates/agl-core/src/lib.rs@3a4aa91013fd]\n")
    );
    assert!(rendered.contains(&format!("- New first fact. [src: {MSG_B}]\n")));
    assert_eq!(parse_entry(&rendered).unwrap(), entry.clone());
}

#[test]
fn invalid_supersession_reference_rejects_the_new_claim() {
    for reference in [
        "repl#claim-3",
        "other#claim-1",
        "repl#claim-0",
        "repl#claim-",
    ] {
        let mut corpus = MemoryCorpus::default();
        corpus.insert(two_claim_entry());
        let before = render_entry(corpus.entry("repl").unwrap());

        let outcomes = corpus.apply_topic(
            &topic(
                "repl",
                vec![superseding_claim(
                    "New first fact.",
                    vec![msg(MSG_B)],
                    vec![reference],
                )],
            ),
            &run(RUN_C),
        );

        assert_eq!(
            outcomes,
            vec![ClaimApplyOutcome::Rejected {
                reason: MemoryClaimRejection::InvalidSupersession
            }],
            "reference {reference:?}"
        );
        assert_eq!(render_entry(corpus.entry("repl").unwrap()), before);
    }

    // A brand-new topic cannot supersede a claim that does not exist yet.
    let mut corpus = MemoryCorpus::default();
    let outcomes = corpus.apply_topic(
        &topic(
            "fresh",
            vec![superseding_claim(
                "Fact.",
                vec![msg(MSG_A)],
                vec!["fresh#claim-1"],
            )],
        ),
        &run(RUN_C),
    );
    assert_eq!(
        outcomes,
        vec![ClaimApplyOutcome::Rejected {
            reason: MemoryClaimRejection::InvalidSupersession
        }]
    );
    assert!(corpus.entry("fresh").is_none());
}

#[test]
fn new_topic_title_is_derived_from_slug() {
    assert_eq!(title_from_slug("build-release"), "Build release");
    assert_eq!(title_from_slug("repl"), "Repl");
    assert_eq!(title_from_slug("m1a"), "M1a");

    let mut corpus = MemoryCorpus::default();
    let outcomes = corpus.apply_topic(
        &topic(
            "build-release",
            vec![new_claim(
                "The release train ships on Fridays.",
                vec![msg(MSG_A)],
                vec![],
            )],
        ),
        &run(RUN_C),
    );

    assert_eq!(outcomes, vec![ClaimApplyOutcome::Appended { ordinal: 1 }]);
    let entry = corpus.entry("build-release").unwrap();
    assert_eq!(entry.title, "Build release");
    assert_eq!(entry.created, run(RUN_C));
    assert_eq!(entry.updated, run(RUN_C));
    assert_eq!(entry.artifact, None);
    assert_eq!(
        corpus.render_index(),
        "# Memory Index\n\
         <!-- hard budget: ≤ 40 lines total. One line per entry. Regenerate, never hand-edit semantics. -->\n\
         - build-release — Build release (1 claims) — entries/build-release.md\n"
    );
}

#[test]
fn new_topic_at_the_index_cap_is_rejected() {
    let mut files = BTreeMap::new();
    for index in 0..INDEX_MAX_LINES - 2 {
        let slug = format!("topic-{index:02}");
        files.insert(
            format!("entries/{slug}.md"),
            format!(
                "# {}\n\n- slug: {slug}\n- created: {RUN_A}\n- updated: {RUN_A}\n\n## Claims\n\n- Fact. [src: {MSG_A}]\n",
                title_from_slug(&slug)
            ),
        );
    }
    let mut corpus = MemoryCorpus::parse(&listing(&files)).unwrap();
    // The cap counts the two header lines: 38 entries fill exactly 40.
    assert_eq!(corpus.len(), INDEX_MAX_LINES - 2);
    assert_eq!(corpus.index_lines(), INDEX_MAX_LINES);
    assert!(!corpus.fits_new_topic());

    let outcomes = corpus.apply_topic(
        &topic(
            "brand-new",
            vec![new_claim("Fact.", vec![msg(MSG_A)], vec![])],
        ),
        &run(RUN_C),
    );
    assert_eq!(
        outcomes,
        vec![ClaimApplyOutcome::Rejected {
            reason: MemoryClaimRejection::IndexCapReached
        }]
    );
    assert!(corpus.entry("brand-new").is_none());
    assert_eq!(corpus.render_index().lines().count(), INDEX_MAX_LINES);

    // Appending to an existing topic adds no index line and stays allowed.
    let outcomes = corpus.apply_topic(
        &topic(
            "topic-00",
            vec![new_claim("Another fact.", vec![msg(MSG_A)], vec![])],
        ),
        &run(RUN_C),
    );
    assert_eq!(outcomes, vec![ClaimApplyOutcome::Appended { ordinal: 2 }]);
    assert_eq!(corpus.index_lines(), INDEX_MAX_LINES);

    // One entry fewer: a new topic fits exactly at the cap.
    let mut files = BTreeMap::new();
    for index in 0..INDEX_MAX_LINES - 3 {
        let slug = format!("topic-{index:02}");
        files.insert(
            format!("entries/{slug}.md"),
            format!(
                "# {}\n\n- slug: {slug}\n- created: {RUN_A}\n- updated: {RUN_A}\n\n## Claims\n\n- Fact. [src: {MSG_A}]\n",
                title_from_slug(&slug)
            ),
        );
    }
    let mut corpus = MemoryCorpus::parse(&listing(&files)).unwrap();
    assert!(corpus.fits_new_topic());
    let outcomes = corpus.apply_topic(
        &topic(
            "brand-new",
            vec![new_claim("Fact.", vec![msg(MSG_A)], vec![])],
        ),
        &run(RUN_C),
    );
    assert_eq!(outcomes, vec![ClaimApplyOutcome::Appended { ordinal: 1 }]);
    assert_eq!(corpus.index_lines(), INDEX_MAX_LINES);
}

#[test]
fn optional_tags_round_trip() {
    let text = format!(
        "# Demo\n\n- slug: demo\n- created: {RUN_A}\n- updated: {RUN_B}\n- artifact: reports/demo.md\n\n## Claims\n\n\
         - Old fact. [src: {MSG_A}] [superseded-by: demo#claim-2]\n\
         - New fact. [file: notes/demo.md@3a4aa91013fd] [status: stale]\n"
    );
    let entry = parse_entry(&text).unwrap();
    assert_eq!(entry.claims.len(), 2);
    assert_eq!(
        entry.claims[0].superseded_by.as_deref(),
        Some("demo#claim-2")
    );
    assert_eq!(entry.claims[0].status, None);
    assert_eq!(
        entry.claims[1].files,
        vec![FileSource {
            path: "notes/demo.md".to_owned(),
            digest: Some("3a4aa91013fd".to_owned()),
        }]
    );
    assert_eq!(entry.claims[1].status, Some(ClaimStatus::Stale));
    assert_eq!(render_entry(&entry), text);
}

#[test]
fn malformed_entries_are_rejected() {
    let base = format!(
        "# Demo\n\n- slug: demo\n- created: {RUN_A}\n- updated: {RUN_B}\n\n## Claims\n\n- Fact. [src: {MSG_A}]\n"
    );
    assert!(parse_entry(&base).is_ok());

    let missing_slug = base.replace("- slug: demo\n", "");
    assert!(matches!(
        parse_entry(&missing_slug),
        Err(EntryParseError::MissingField { ref field }) if field == "slug"
    ));

    let bad_run = base.replace(&format!("- created: {RUN_A}\n"), "- created: not-a-run\n");
    assert!(matches!(
        parse_entry(&bad_run),
        Err(EntryParseError::InvalidRun { .. })
    ));

    let unknown_status = base.replace(
        &format!("- Fact. [src: {MSG_A}]\n"),
        "- Fact. [status: fresh] [file: notes/demo.md]\n",
    );
    assert!(matches!(
        parse_entry(&unknown_status),
        Err(EntryParseError::UnknownStatus { .. })
    ));

    let unsourceful = base.replace(&format!("- Fact. [src: {MSG_A}]\n"), "- Fact.\n");
    assert!(matches!(
        parse_entry(&unsourceful),
        Err(EntryParseError::UnsourcefulClaim { .. })
    ));

    let no_claims = format!("# Demo\n\n- slug: demo\n- created: {RUN_A}\n- updated: {RUN_B}\n");
    assert!(matches!(
        parse_entry(&no_claims),
        Err(EntryParseError::MissingClaimsSection)
    ));

    let unknown_field = base.replace("- slug: demo\n", "- slug: demo\n- note: hi\n");
    assert!(matches!(
        parse_entry(&unknown_field),
        Err(EntryParseError::UnknownField { ref field, .. }) if field == "note"
    ));
}

#[test]
fn a_topic_that_is_applied_again_changes_nothing() {
    let mut corpus = MemoryCorpus::new();
    let again = topic(
        "repl",
        vec![
            new_claim("One.", vec![msg(MSG_A)], vec![]),
            superseding_claim("Two.", vec![msg(MSG_B)], vec!["repl#claim-1"]),
        ],
    );
    assert_eq!(
        corpus.apply_topic(&again, &run(RUN_A)),
        [
            ClaimApplyOutcome::Appended { ordinal: 1 },
            ClaimApplyOutcome::Appended { ordinal: 2 },
        ]
    );
    let once = corpus.clone();
    let before = render_entry(corpus.entry("repl").unwrap());
    assert_eq!(
        corpus.apply_topic(&again, &run(RUN_C)),
        [
            ClaimApplyOutcome::Duplicate { ordinal: 1 },
            ClaimApplyOutcome::Duplicate { ordinal: 2 },
        ]
    );
    assert_eq!(render_entry(corpus.entry("repl").unwrap()), before);
    assert_eq!(corpus, once);
}
