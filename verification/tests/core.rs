//! Identities, bounded content, canonical JSON, packages, messages and budgets.

use agl_core::agent::{
    AgentContextEntry, AgentMessage, AgentOperationKey, AgentOperationRequest, CompactionBudgets,
    ContextCapacity, ContextExhaustion, MessageRole, MessageVisibility, ModelGenerationRequest,
    AgentPresentation, PackageDigest, PresentationColors,
};
use agl_core::json::{object, Json, JsonNumber};
use agl_core::num::NonZeroU32;
use agl_core::package::{
    compute_package_digest, InMemoryPackageView, PackageError, PackageId, PackageRelativePath,
    PackageTreeDigest, PackageVersion,
};
use agl_core::{
    AgentRunId, AuthorityGrant, AuthorityGrantSet, CanonicalJson, Content, ContentError,
    ConversationId, DaemonInstanceId, EffectDefinition, EffectId, ExtensionDefinition, ExtensionId,
    JsonSchema, MessageId, RequestId, ToolDefinition, ToolId, MAX_TEXT_BYTES,
};
use agl_core::agent::DeliveryClass;

fn number(n: u32) -> Json {
    Json::Number(JsonNumber::unsigned(n))
}

fn string(text: &str) -> Json {
    Json::Text(text.to_owned())
}

fn schema_of(kind: &str) -> JsonSchema {
    JsonSchema::new(object(vec![("type", string(kind))])).unwrap()
}

// ---------------------------------------------------------------------------
// Context budgets
// ---------------------------------------------------------------------------

#[test]
fn thresholds_and_output_reservation_are_independent_exact_boundaries() {
    assert!(!ContextCapacity::new(45_875, 1, 65_536).needs_compaction());
    assert!(ContextCapacity::new(45_876, 1, 65_536).needs_compaction());
    assert!(!ContextCapacity::new(81_920, 49_152, 131_072).needs_compaction());
    let crossed = ContextCapacity::new(81_921, 49_152, 131_072);
    assert_eq!(crossed.trigger_threshold_tokens, 91_751);
    assert!(crossed.needs_compaction());
    assert!(!crossed.fits());
    assert!(!ContextCapacity::new(u64::MAX, 1, u32::MAX).fits());
}

#[test]
fn summary_budgets_follow_capacity_and_low_capability_only() {
    let qwen = CompactionBudgets::new(131_072, 49_152, true).unwrap();
    assert_eq!(
        qwen,
        CompactionBudgets {
            summary_output_tokens: 16_384,
            summary_reasoning_tokens: 4_096,
            rebuilt_input_target: 13_107,
            recent_tail_limit: 13_107,
        }
    );
    assert_eq!(
        CompactionBudgets::new(131_072, 49_152, false).unwrap(),
        CompactionBudgets {
            summary_reasoning_tokens: 0,
            ..qwen
        }
    );
    assert_eq!(
        CompactionBudgets::new(4_096, 1_024, true).unwrap(),
        CompactionBudgets {
            summary_output_tokens: 512,
            summary_reasoning_tokens: 128,
            rebuilt_input_target: 409,
            recent_tail_limit: 409,
        }
    );
    assert!(CompactionBudgets::new(1_024, 1_025, true).is_none());
}

#[test]
fn exhaustion_from_a_capacity_has_no_compaction_failure() {
    let capacity = ContextCapacity::new(2, 3, 4);
    let exhausted = ContextExhaustion::from(capacity);
    assert_eq!(exhausted.capacity, capacity);
    assert!(exhausted.compaction.is_none());
}

// ---------------------------------------------------------------------------
// Presentation
// ---------------------------------------------------------------------------

fn readings(colors: &PresentationColors) -> Vec<Vec<Option<u32>>> {
    colors
        .numbers()
        .iter()
        .map(|row| {
            row.iter()
                .map(|text| text.parse::<f32>().ok().map(f32::to_bits))
                .collect()
        })
        .collect()
}

fn validated(tool: &str) -> Result<(), String> {
    let colors = PresentationColors {
        tool: tool.into(),
        ..Default::default()
    };
    colors.validate(&readings(&colors))
}

#[test]
fn presentation_colors_validate_supported_forms() {
    assert!(validated("underline italic oklch(0.7 0.15 30)").is_ok());
    assert!(validated("#1234").is_err());
    assert!(validated("").is_err());
}

#[test]
fn the_default_presentation_is_valid() {
    let colors = PresentationColors::default();
    assert_eq!(colors.tool, "bold #00FFFF");
    assert_eq!(colors.validate(&readings(&colors)), Ok(()));
    assert_eq!(AgentPresentation::default().colors, colors);
    let read = |number: u32| Some(number);
    let rows = readings(&colors);
    assert!(rows[..25].iter().all(Vec::is_empty));
    assert_eq!(rows[25], [0x3EE0_C49C, 0, 0].map(read));
    assert_eq!(rows[26], [0x3E89_BA5E, 0, 0].map(read));
    assert_eq!(rows[27], [0x3F37_CED9, 0x3E4E_D917, 0x43AE_E168].map(read));
    assert_eq!(rows[28], [0x3F52_B021, 0x3DF5_C28F, 0x43AD_024E].map(read));
    assert_eq!(rows[29], [0x3F6F_9DB2, 0x3D03_126F, 0x418D_BC6A].map(read));
    assert_eq!(rows[30], rows[28]);
    assert_eq!(rows[31], [0x3F04_9BA6, 0x3E81_8937, 0x43A1_F979].map(read));
}

#[test]
fn presentation_colors_bound_their_numbers() {
    assert!(validated("oklch(1.5 0.15 30)").is_err());
    assert!(validated("oklch(0.7 -0.1 30)").is_err());
    assert!(validated("oklch(0.7 0.15)").is_err());
    assert!(validated("oklch(0.7 nan 30)").is_err());
    assert!(validated("bold").is_ok());
    assert!(validated("#12aBff").is_ok());
}

// ---------------------------------------------------------------------------
// Digests
// ---------------------------------------------------------------------------

#[test]
fn every_digest_has_one_strict_wire_form() {
    let value = format!("sha256:{}", "ab".repeat(32));
    let digest: PackageDigest = value.parse().unwrap();
    assert_eq!(digest.to_string(), value);
    assert_eq!(digest.as_bytes(), &[0xab; 32]);
    assert!(format!("sha256:{}", "AB".repeat(32))
        .parse::<PackageDigest>()
        .is_err());
    assert!("ab".repeat(32).parse::<PackageDigest>().is_err());
}

// ---------------------------------------------------------------------------
// Messages
// ---------------------------------------------------------------------------

#[test]
fn visibility_and_operation_correlation_are_fail_closed() {
    let run_id = AgentRunId::generate();
    let operation = AgentOperationKey {
        run_id,
        ordinal: NonZeroU32::min(),
    };
    let generated = AgentMessage {
        id: MessageId::generate(),
        conversation_id: None,
        run_id: Some(run_id),
        source_operation: Some(operation),
        role: MessageRole::Assistant,
        visibility: MessageVisibility::Internal,
        content: Content::text("private result").unwrap(),
    };
    assert_eq!(generated.validate(), Ok(()));

    let mut invalid = generated.clone();
    invalid.visibility = MessageVisibility::Conversation;
    assert_eq!(
        invalid.validate(),
        Err("conversation-visible message requires a conversation")
    );
    invalid.visibility = MessageVisibility::Internal;
    invalid.run_id = Some(AgentRunId::generate());
    assert_eq!(
        invalid.validate(),
        Err("source operation must belong to the message run")
    );
}

#[test]
fn context_role_must_match_the_persisted_operation_request() {
    let run_id = AgentRunId::generate();
    let operation = AgentOperationKey {
        run_id,
        ordinal: NonZeroU32::min(),
    };
    let entry = AgentContextEntry {
        message: AgentMessage {
            id: MessageId::generate(),
            conversation_id: None,
            run_id: Some(run_id),
            source_operation: Some(operation),
            role: MessageRole::Tool,
            visibility: MessageVisibility::Internal,
            content: Content::text("result").unwrap(),
        },
        source_request: Some(AgentOperationRequest::ModelGeneration(
            ModelGenerationRequest {
                context: vec![],
                max_output_tokens: 1,
            },
        )),
        private_reasoning: None,
    };
    assert_eq!(
        entry.validate(),
        Err("tool context message requires a Tool source request")
    );
}

#[test]
fn user_messages_have_no_source_operation_and_others_have_one() {
    let run_id = AgentRunId::generate();
    let mut message = AgentMessage {
        id: MessageId::generate(),
        conversation_id: None,
        run_id: Some(run_id),
        source_operation: Some(AgentOperationKey {
            run_id,
            ordinal: NonZeroU32::min(),
        }),
        role: MessageRole::User,
        visibility: MessageVisibility::Internal,
        content: Content::text("prompt").unwrap(),
    };
    assert_eq!(
        message.validate(),
        Err("user message cannot have a source operation")
    );
    message.role = MessageRole::Tool;
    message.source_operation = None;
    assert_eq!(
        message.validate(),
        Err("generated message requires a source operation")
    );
}

// ---------------------------------------------------------------------------
// Correlation IDs
// ---------------------------------------------------------------------------

#[test]
fn agent_correlation_ids_are_compact_strict_uuid_v7_values() {
    let run = AgentRunId::generate();
    let conversation = ConversationId::generate();
    assert_eq!(std::mem::size_of_val(&run), 16);
    assert_eq!(AgentRunId::from_bytes(run.into_bytes()).unwrap(), run);
    assert!(AgentRunId::from_bytes([0; 16]).is_err());
    assert_eq!(run.to_string().parse::<AgentRunId>().unwrap(), run);
    assert_eq!(
        conversation.to_string().parse::<ConversationId>().unwrap(),
        conversation
    );
}

#[test]
fn remaining_text_ids_are_strict() {
    for value in [
        RequestId::generate().to_string(),
        MessageId::generate().to_string(),
        DaemonInstanceId::generate().to_string(),
    ] {
        assert!(!value.contains(char::is_uppercase));
    }
    assert!(RequestId::parse("req_not-a-uuid").is_err());
    assert!(AgentRunId::parse("run_550e8400-e29b-41d4-a716-446655440000").is_err());
}

#[test]
fn uuids_are_read_from_their_hyphenated_lowercase_form_only() {
    let text = "run_01a090d5-03b2-7a01-ac4c-8c7b192c76e9";
    let run = AgentRunId::parse(text).unwrap();
    assert_eq!(
        run.as_bytes(),
        &[
            0x01, 0xa0, 0x90, 0xd5, 0x03, 0xb2, 0x7a, 0x01, 0xac, 0x4c, 0x8c, 0x7b, 0x19, 0x2c,
            0x76, 0xe9
        ]
    );
    assert_eq!(run.to_string(), text);
    assert!(AgentRunId::parse("run_01A090D5-03B2-7A01-AC4C-8C7B192C76E9").is_err());
    assert!(AgentRunId::parse("run_01a090d503b27a01ac4c8c7b192c76e9").is_err());
    assert!(AgentRunId::parse("conv_01a090d5-03b2-7a01-ac4c-8c7b192c76e9").is_err());
}

// ---------------------------------------------------------------------------
// Canonical JSON and schemas
// ---------------------------------------------------------------------------

#[test]
fn canonical_json_sorts_objects_and_is_bounded() {
    let value = CanonicalJson::new(object(vec![
        ("z", number(1)),
        ("a", object(vec![("b", number(2)), ("a", number(1))])),
    ]))
    .unwrap();
    assert_eq!(value.to_text(), r#"{"a":{"a":1,"b":2},"z":1}"#);
    assert!(CanonicalJson::new(Json::Text("x".repeat(64 * 1024))).is_err());
}

#[test]
fn canonical_json_escapes_text_and_bounds_its_depth() {
    let value = CanonicalJson::new(string("a\"b\n\u{1}\u{e9}")).unwrap();
    assert_eq!(value.to_text(), "\"a\\\"b\\n\\u0001\u{e9}\"");
    let mut deep = Json::Null;
    for _ in 0..200 {
        deep = Json::Array(vec![deep]);
    }
    assert!(CanonicalJson::new(deep).is_err());
}

#[test]
fn numbers_are_read_as_json_and_written_in_shortest_form() {
    assert_eq!(JsonNumber::parse("1.50").unwrap().as_str(), "1.5");
    assert_eq!(JsonNumber::parse("-7").unwrap().as_str(), "-7");
    assert_eq!(JsonNumber::signed(-12).as_str(), "-12");
    assert_eq!(JsonNumber::unsigned(4_000_000_000).as_str(), "4000000000");
    assert!(JsonNumber::parse("01").is_none());
    assert!(JsonNumber::parse("x").is_none());
    assert!(JsonNumber::parse("").is_none());
}

#[test]
fn schema_deserialization_compiles_and_validation_is_fail_closed() {
    assert!(JsonSchema::new(object(vec![("type", number(7))])).is_err());
    let schema = JsonSchema::new(object(vec![
        ("type", string("object")),
        ("required", Json::Array(vec![string("path")])),
        ("additionalProperties", Json::Bool(false)),
        (
            "properties",
            object(vec![("path", object(vec![("type", string("string"))]))]),
        ),
    ]))
    .unwrap();
    assert!(schema
        .validate(&CanonicalJson::new(object(vec![("path", string("a"))])).unwrap())
        .is_ok());
    assert!(schema
        .validate(&CanonicalJson::new(object(vec![("path", number(1))])).unwrap())
        .is_err());
}

#[test]
fn a_later_member_replaces_an_earlier_one() {
    let value = object(vec![("a", number(1)), ("a", number(2))]);
    match value {
        Json::Object(map) => {
            assert_eq!(map.len(), 1);
            assert_eq!(map.get("a"), Some(&number(2)));
            assert_eq!(map.get("b"), None);
        }
        _ => panic!("an object is built"),
    }
}

#[test]
fn grants_are_kept_in_order() {
    let grant = |effect: &str, scope: u32| AuthorityGrant {
        effect: EffectId::new(effect).unwrap(),
        scope: CanonicalJson::new(number(scope)).unwrap(),
    };
    assert!(AuthorityGrantSet(vec![grant("a:x", 1), grant("a:x", 2), grant("b:x", 1)])
        .validate()
        .is_ok());
    assert!(AuthorityGrantSet(vec![grant("b:x", 1), grant("a:x", 1)])
        .validate()
        .is_err());
    assert!(AuthorityGrantSet(vec![grant("a:x", 1), grant("a:x", 1)])
        .validate()
        .is_err());
}

// ---------------------------------------------------------------------------
// Identifiers, tools and extensions
// ---------------------------------------------------------------------------

#[test]
fn identifiers_are_lowercase_dotted_segments() {
    assert!(ExtensionId::new("core.process").is_ok());
    assert!(ToolId::new("core.process:process.exec").is_ok());
    assert!(ToolId::new("core.process").is_err());
    assert!(ToolId::new("a:b:c").is_err());
    assert!(EffectId::new("Agl:repo").is_err());
    assert!(ExtensionId::new("core..process").is_err());
    assert!(ExtensionId::new("1core").is_err());
    let error = ToolId::new("bad \"id\"").unwrap_err();
    assert_eq!(error.to_string(), "invalid Tool ID: \"bad \\\"id\\\"\"");
}

fn tool(id: &str, effects: &[&str]) -> ToolDefinition {
    ToolDefinition {
        id: ToolId::new(id).unwrap(),
        description: "A tool.".to_owned(),
        input_schema: schema_of("object"),
        required_effects: effects
            .iter()
            .map(|effect| EffectId::new(effect).unwrap())
            .collect(),
        delivery: DeliveryClass::Retryable,
    }
}

#[test]
fn tools_of_an_extension_belong_to_it() {
    let effect = EffectDefinition {
        id: EffectId::new("core.note:write").unwrap(),
        description: "Writes notes.".to_owned(),
        scope_schema: schema_of("object"),
    };
    let mut extension = ExtensionDefinition {
        id: ExtensionId::new("core.note").unwrap(),
        effects: vec![effect.clone()],
        tools: vec![tool("core.note:add", &["core.note:write"])],
    };
    assert!(extension.validate().is_ok());
    extension.tools = vec![tool("core.memory:add", &[])];
    assert!(extension.validate().is_err());
    extension.tools = vec![tool("core.note:add", &[]), tool("core.note:add", &[])];
    assert!(extension.validate().is_err());
}

// ---------------------------------------------------------------------------
// Packages
// ---------------------------------------------------------------------------

fn at(path: &str) -> PackageRelativePath {
    PackageRelativePath::new(path).unwrap()
}

#[test]
fn paths_are_contained() {
    assert!(PackageRelativePath::new("references/api.md").is_ok());
    assert!(PackageRelativePath::new("../secret").is_err());
}

#[test]
fn package_digest_is_order_independent() {
    let left =
        InMemoryPackageView::new(vec![(at("b"), b"2".to_vec()), (at("a"), b"1".to_vec())]).unwrap();
    let right =
        InMemoryPackageView::new(vec![(at("a"), b"1".to_vec()), (at("b"), b"2".to_vec())]).unwrap();
    assert_eq!(
        compute_package_digest(&left).unwrap(),
        compute_package_digest(&right).unwrap()
    );
    assert_eq!(
        compute_package_digest(&left).unwrap().as_str(),
        "sha256:086040b058e830550a7c27ce0b253f55257ce162a3dc5aaaf82230f0a76d47be"
    );
}

#[test]
fn dot_agl_is_an_ordinary_package_path() {
    let package = InMemoryPackageView::new(vec![(
        at(".agl/content.txt"),
        b"ordinary content".to_vec(),
    )])
    .unwrap();
    assert!(compute_package_digest(&package).is_ok());
}

#[test]
fn reserved_and_repeated_files_are_refused() {
    for path in ["a/.git/config", "workspace.toml", "config/x", "state/x", "cache/x"] {
        let package = InMemoryPackageView::new(vec![(at(path), Vec::new())]);
        let refused = match package {
            Ok(package) => compute_package_digest(&package).unwrap_err(),
            Err(error) => error,
        };
        assert_eq!(refused, PackageError::ReservedFile(path.to_owned()));
    }
    assert_eq!(
        InMemoryPackageView::new(vec![(at("a"), Vec::new()), (at("a"), Vec::new())]).unwrap_err(),
        PackageError::DuplicateFile("a".to_owned())
    );
}

#[test]
fn package_names_versions_and_digests_are_strict() {
    assert!(PackageId::new("core").is_ok());
    assert!(PackageId::new("").is_err());
    assert_eq!(
        PackageVersion::new("1.2.3-rc.1+build").unwrap().to_string(),
        "1.2.3-rc.1+build"
    );
    assert_eq!(
        PackageVersion::new("01.2.3").unwrap_err(),
        PackageError::InvalidVersion("01.2.3".to_owned())
    );
    assert!(PackageVersion::new("1.2").is_err());
    assert!(PackageTreeDigest::new(&format!("sha256:{}", "0".repeat(64))).is_ok());
    assert!(PackageTreeDigest::new(&"0".repeat(71)).is_err());
}

// ---------------------------------------------------------------------------
// Content
// ---------------------------------------------------------------------------

#[test]
fn content_is_bounded_text() {
    let content = Content::text("hello").unwrap();
    assert_eq!(content.as_text(), "hello");
    assert_eq!(content.text_byte_len(), 5);
    assert_eq!(Content::text("").unwrap_err(), ContentError::EmptyText);
    assert!(Content::text(&"x".repeat(MAX_TEXT_BYTES)).is_ok());
    assert_eq!(
        Content::text(&"x".repeat(MAX_TEXT_BYTES + 1)).unwrap_err(),
        ContentError::TextTooLarge(MAX_TEXT_BYTES + 1)
    );
}

#[test]
fn versions_are_ordered_by_precedence() {
    let version = |text: &str| PackageVersion::new(text).unwrap();
    assert!(version("1.0.0-rc.1") < version("1.0.0"));
    assert!(version("1.0.0-rc.2") < version("1.0.0-rc.10"));
    assert!(version("1.9.0") < version("1.10.0"));
    assert_eq!(version("1.2.3"), version("1.2.3").clone());
}

#[test]
fn json_numbers_are_equal_as_numbers() {
    let json = |text: &str| Json::Number(JsonNumber::parse(text).unwrap());
    assert_eq!(json("0.0"), json("-0.0"));
    assert_ne!(json("0"), json("0.0"));
    assert_ne!(json("1"), json("-1"));
    assert_eq!(
        object(vec![("a", Json::Array(vec![json("0.0")]))]),
        object(vec![("a", Json::Array(vec![json("-0.0")]))])
    );
    assert_ne!(object(vec![("a", json("1"))]), object(vec![("b", json("1"))]));
}
