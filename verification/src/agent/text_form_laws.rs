//! The JSON text of what a compaction keeps and of instructions, letter by
//! letter.

use vstd::prelude::*;
use vstd::string::*;

use super::compaction::{
    CompactionContent, CompactionExactState, CompactionFailure, CompactionFailureStage,
    FoldedOperationFact, InspectedFileFact, InspectedFileRange, OperationFact, SemanticSummary,
    SourceTokenContribution, SummaryClaim,
};
use super::context::{ContextCapacity, ContextExhaustion, ContextExhaustionAbs};
use super::memory::{MemoryClaim, MemoryTopic};
use super::operation::{
    AgentOperationDeliveryState, AgentOperationFailureKind, AgentOperationFailureKindAbs,
    AgentOperationKey, AgentOperationKind, EffectReceipt, ModelUsage,
};
use super::run::{
    AbsolutePath, InstructionBlock, InstructionSource, InstructionSourceAbs, PackageDigest,
    RelativePath, SkillDefinitionRef, SkillDefinitionRefAbs, WorkspaceScope,
};
use super::text_form::{
    correction_failed_members, invalid_compaction_output_members, invalid_model_output_members,
    tagged,
};
use crate::content::Content;
use crate::correlation_id::{AgentRunId, MessageId};
use crate::digest::digest_text;
use crate::effect::CanonicalJson;
use crate::ids::{EffectId, ToolId};
use crate::json::{json_text, JsonAbs};
use crate::num::NonZeroU32;
use crate::package::{PackageId, PackageVersion};
use crate::text::decimal;
use crate::value::Abstract;
use crate::written::{
    each_written, member_text, name_text, object_text, separated, Written,
};

verus! {

proof fn lemma_member(name: Seq<char>, quoted: Seq<char>, value: Seq<char>)
    requires
        quoted =~= "\""@ + name + "\":"@,
    ensures
        member_text(name, value) == quoted + value,
{
    assert(member_text(name, value) =~= quoted + value);
}

proof fn lemma_first(parts: Seq<Seq<char>>)
    requires
        parts.len() > 0,
    ensures
        "{"@ + separated(parts.take(1)) == "{"@ + parts[0],
{
}

proof fn lemma_next(parts: Seq<Seq<char>>, k: int)
    requires
        1 <= k < parts.len(),
    ensures
        "{"@ + separated(parts.take(k + 1)) == "{"@ + separated(parts.take(k)) + ","@ + parts[k],
{
    let more = parts.take(k + 1);
    assert(more.drop_last() =~= parts.take(k));
    let less = separated(parts.take(k));
    assert("{"@ + (less + ","@ + parts[k]) =~= "{"@ + less + ","@ + parts[k]);
}

proof fn lemma_tagged(tag: Seq<char>, quoted: Seq<char>, value: Seq<char>)
    requires
        quoted =~= "\""@ + tag + "\":"@,
    ensures
        tagged(tag, value) == "{"@ + (quoted + value) + "}"@,
{
    lemma_member(tag, quoted, value);
    let parts = seq![member_text(tag, value)];
    assert(parts.take(1) =~= parts);
    lemma_first(parts);
}

/// `SummaryClaim` is written as an object of its fields, in their order.
pub proof fn summary_claim_text(given: SummaryClaim)
    ensures
        SummaryClaim::written(given.abs()) == "{"@
            + ("\"text\":"@ + String::written(given.text.abs()))
            + ","@
            + ("\"sources\":"@ + Vec::<MessageId>::written(given.sources.abs()))
            + "}"@,
{
    reveal_strlit("\"");
    reveal_strlit("\":");
    reveal_strlit("\"text\":");
    reveal_strlit("text");
    reveal_strlit("\"sources\":");
    reveal_strlit("sources");
    let parts = SummaryClaim::members(given.abs());
    lemma_member("text"@, "\"text\":"@, String::written(given.text.abs()));
    lemma_member("sources"@, "\"sources\":"@, Vec::<MessageId>::written(given.sources.abs()));
    lemma_next(parts, 1);
    lemma_first(parts);
    assert(parts.take(2) =~= parts);
}

/// `MemoryTopic` is written as an object of its fields, in their order.
pub proof fn memory_topic_text(given: MemoryTopic)
    ensures
        MemoryTopic::written(given.abs()) == "{"@
            + ("\"slug\":"@ + String::written(given.slug.abs()))
            + ","@
            + ("\"claims\":"@ + Vec::<MemoryClaim>::written(given.claims.abs()))
            + "}"@,
{
    reveal_strlit("\"");
    reveal_strlit("\":");
    reveal_strlit("\"slug\":");
    reveal_strlit("slug");
    reveal_strlit("\"claims\":");
    reveal_strlit("claims");
    let parts = MemoryTopic::members(given.abs());
    lemma_member("slug"@, "\"slug\":"@, String::written(given.slug.abs()));
    lemma_member("claims"@, "\"claims\":"@, Vec::<MemoryClaim>::written(given.claims.abs()));
    lemma_next(parts, 1);
    lemma_first(parts);
    assert(parts.take(2) =~= parts);
}

/// `SemanticSummary` is written as an object of its fields, in their order.
pub proof fn semantic_summary_text(given: SemanticSummary)
    ensures
        SemanticSummary::written(given.abs()) == "{"@
            + ("\"objective\":"@ + SummaryClaim::written(given.objective.abs()))
            + ","@
            + ("\"rationale\":"@ + Vec::<SummaryClaim>::written(given.rationale.abs()))
            + ","@
            + ("\"decisions\":"@ + Vec::<SummaryClaim>::written(given.decisions.abs()))
            + ","@
            + ("\"completed\":"@ + Vec::<SummaryClaim>::written(given.completed.abs()))
            + ","@
            + ("\"discoveries\":"@ + Vec::<SummaryClaim>::written(given.discoveries.abs()))
            + ","@
            + ("\"unresolved\":"@ + Vec::<SummaryClaim>::written(given.unresolved.abs()))
            + ","@
            + ("\"next_position\":"@ + SummaryClaim::written(given.next_position.abs()))
            + ","@
            + ("\"memory\":"@ + Vec::<MemoryTopic>::written(given.memory.abs()))
            + "}"@,
{
    reveal_strlit("\"");
    reveal_strlit("\":");
    reveal_strlit("\"objective\":");
    reveal_strlit("objective");
    reveal_strlit("\"rationale\":");
    reveal_strlit("rationale");
    reveal_strlit("\"decisions\":");
    reveal_strlit("decisions");
    reveal_strlit("\"completed\":");
    reveal_strlit("completed");
    reveal_strlit("\"discoveries\":");
    reveal_strlit("discoveries");
    reveal_strlit("\"unresolved\":");
    reveal_strlit("unresolved");
    reveal_strlit("\"next_position\":");
    reveal_strlit("next_position");
    reveal_strlit("\"memory\":");
    reveal_strlit("memory");
    let parts = SemanticSummary::members(given.abs());
    lemma_member("objective"@, "\"objective\":"@, SummaryClaim::written(given.objective.abs()));
    lemma_member("rationale"@, "\"rationale\":"@, Vec::<SummaryClaim>::written(given.rationale.abs()));
    lemma_member("decisions"@, "\"decisions\":"@, Vec::<SummaryClaim>::written(given.decisions.abs()));
    lemma_member("completed"@, "\"completed\":"@, Vec::<SummaryClaim>::written(given.completed.abs()));
    lemma_member("discoveries"@, "\"discoveries\":"@, Vec::<SummaryClaim>::written(given.discoveries.abs()));
    lemma_member("unresolved"@, "\"unresolved\":"@, Vec::<SummaryClaim>::written(given.unresolved.abs()));
    lemma_member("next_position"@, "\"next_position\":"@, SummaryClaim::written(given.next_position.abs()));
    lemma_member("memory"@, "\"memory\":"@, Vec::<MemoryTopic>::written(given.memory.abs()));
    lemma_next(parts, 1);
    lemma_next(parts, 2);
    lemma_next(parts, 3);
    lemma_next(parts, 4);
    lemma_next(parts, 5);
    lemma_next(parts, 6);
    lemma_next(parts, 7);
    lemma_first(parts);
    assert(parts.take(8) =~= parts);
}

/// `InspectedFileRange` is written as an object of its fields, in their order.
pub proof fn inspected_file_range_text(given: InspectedFileRange)
    ensures
        InspectedFileRange::written(given.abs()) == "{"@
            + ("\"start_line\":"@ + u64::written(given.start_line.abs()))
            + ","@
            + ("\"end_line\":"@ + u64::written(given.end_line.abs()))
            + "}"@,
{
    reveal_strlit("\"");
    reveal_strlit("\":");
    reveal_strlit("\"start_line\":");
    reveal_strlit("start_line");
    reveal_strlit("\"end_line\":");
    reveal_strlit("end_line");
    let parts = InspectedFileRange::members(given.abs());
    lemma_member("start_line"@, "\"start_line\":"@, u64::written(given.start_line.abs()));
    lemma_member("end_line"@, "\"end_line\":"@, u64::written(given.end_line.abs()));
    lemma_next(parts, 1);
    lemma_first(parts);
    assert(parts.take(2) =~= parts);
}

/// `InspectedFileFact` is written as an object of its fields, in their order.
pub proof fn inspected_file_fact_text(given: InspectedFileFact)
    ensures
        InspectedFileFact::written(given.abs()) == "{"@
            + ("\"path\":"@ + String::written(given.path.abs()))
            + ","@
            + ("\"digest\":"@ + String::written(given.digest.abs()))
            + ","@
            + ("\"ranges\":"@ + Vec::<InspectedFileRange>::written(given.ranges.abs()))
            + ","@
            + ("\"sources\":"@ + Vec::<MessageId>::written(given.sources.abs()))
            + "}"@,
{
    reveal_strlit("\"");
    reveal_strlit("\":");
    reveal_strlit("\"path\":");
    reveal_strlit("path");
    reveal_strlit("\"digest\":");
    reveal_strlit("digest");
    reveal_strlit("\"ranges\":");
    reveal_strlit("ranges");
    reveal_strlit("\"sources\":");
    reveal_strlit("sources");
    let parts = InspectedFileFact::members(given.abs());
    lemma_member("path"@, "\"path\":"@, String::written(given.path.abs()));
    lemma_member("digest"@, "\"digest\":"@, String::written(given.digest.abs()));
    lemma_member("ranges"@, "\"ranges\":"@, Vec::<InspectedFileRange>::written(given.ranges.abs()));
    lemma_member("sources"@, "\"sources\":"@, Vec::<MessageId>::written(given.sources.abs()));
    lemma_next(parts, 1);
    lemma_next(parts, 2);
    lemma_next(parts, 3);
    lemma_first(parts);
    assert(parts.take(4) =~= parts);
}

/// `AgentOperationKey` is written as an object of its fields, in their order.
pub proof fn agent_operation_key_text(given: AgentOperationKey)
    ensures
        AgentOperationKey::written(given.abs()) == "{"@
            + ("\"run_id\":"@ + AgentRunId::written(given.run_id.abs()))
            + ","@
            + ("\"ordinal\":"@ + NonZeroU32::written(given.ordinal.abs()))
            + "}"@,
{
    reveal_strlit("\"");
    reveal_strlit("\":");
    reveal_strlit("\"run_id\":");
    reveal_strlit("run_id");
    reveal_strlit("\"ordinal\":");
    reveal_strlit("ordinal");
    let parts = AgentOperationKey::members(given.abs());
    lemma_member("run_id"@, "\"run_id\":"@, AgentRunId::written(given.run_id.abs()));
    lemma_member("ordinal"@, "\"ordinal\":"@, NonZeroU32::written(given.ordinal.abs()));
    lemma_next(parts, 1);
    lemma_first(parts);
    assert(parts.take(2) =~= parts);
}

/// `ModelUsage` is written as an object of its fields, in their order.
pub proof fn model_usage_text(given: ModelUsage)
    ensures
        ModelUsage::written(given.abs()) == "{"@
            + ("\"input_tokens\":"@ + u64::written(given.input_tokens.abs()))
            + ","@
            + ("\"output_tokens\":"@ + u64::written(given.output_tokens.abs()))
            + "}"@,
{
    reveal_strlit("\"");
    reveal_strlit("\":");
    reveal_strlit("\"input_tokens\":");
    reveal_strlit("input_tokens");
    reveal_strlit("\"output_tokens\":");
    reveal_strlit("output_tokens");
    let parts = ModelUsage::members(given.abs());
    lemma_member("input_tokens"@, "\"input_tokens\":"@, u64::written(given.input_tokens.abs()));
    lemma_member("output_tokens"@, "\"output_tokens\":"@, u64::written(given.output_tokens.abs()));
    lemma_next(parts, 1);
    lemma_first(parts);
    assert(parts.take(2) =~= parts);
}

/// `ContextCapacity` is written as an object of its fields, in their order.
pub proof fn context_capacity_text(given: ContextCapacity)
    ensures
        ContextCapacity::written(given.abs()) == "{"@
            + ("\"prompt_tokens\":"@ + u64::written(given.prompt_tokens.abs()))
            + ","@
            + ("\"reserved_output_tokens\":"@ + u64::written(given.reserved_output_tokens.abs()))
            + ","@
            + ("\"context_capacity_tokens\":"@ + u32::written(given.context_capacity_tokens.abs()))
            + ","@
            + ("\"trigger_threshold_tokens\":"@ + u64::written(given.trigger_threshold_tokens.abs()))
            + "}"@,
{
    reveal_strlit("\"");
    reveal_strlit("\":");
    reveal_strlit("\"prompt_tokens\":");
    reveal_strlit("prompt_tokens");
    reveal_strlit("\"reserved_output_tokens\":");
    reveal_strlit("reserved_output_tokens");
    reveal_strlit("\"context_capacity_tokens\":");
    reveal_strlit("context_capacity_tokens");
    reveal_strlit("\"trigger_threshold_tokens\":");
    reveal_strlit("trigger_threshold_tokens");
    let parts = ContextCapacity::members(given.abs());
    lemma_member("prompt_tokens"@, "\"prompt_tokens\":"@, u64::written(given.prompt_tokens.abs()));
    lemma_member("reserved_output_tokens"@, "\"reserved_output_tokens\":"@, u64::written(given.reserved_output_tokens.abs()));
    lemma_member("context_capacity_tokens"@, "\"context_capacity_tokens\":"@, u32::written(given.context_capacity_tokens.abs()));
    lemma_member("trigger_threshold_tokens"@, "\"trigger_threshold_tokens\":"@, u64::written(given.trigger_threshold_tokens.abs()));
    lemma_next(parts, 1);
    lemma_next(parts, 2);
    lemma_next(parts, 3);
    lemma_first(parts);
    assert(parts.take(4) =~= parts);
}

/// `SourceTokenContribution` is written as an object of its fields, in their order.
pub proof fn source_token_contribution_text(given: SourceTokenContribution)
    ensures
        SourceTokenContribution::written(given.abs()) == "{"@
            + ("\"source_start\":"@ + MessageId::written(given.source_start.abs()))
            + ","@
            + ("\"source_end\":"@ + MessageId::written(given.source_end.abs()))
            + ","@
            + ("\"isolated_prompt_tokens\":"@ + u64::written(given.isolated_prompt_tokens.abs()))
            + "}"@,
{
    reveal_strlit("\"");
    reveal_strlit("\":");
    reveal_strlit("\"source_start\":");
    reveal_strlit("source_start");
    reveal_strlit("\"source_end\":");
    reveal_strlit("source_end");
    reveal_strlit("\"isolated_prompt_tokens\":");
    reveal_strlit("isolated_prompt_tokens");
    let parts = SourceTokenContribution::members(given.abs());
    lemma_member("source_start"@, "\"source_start\":"@, MessageId::written(given.source_start.abs()));
    lemma_member("source_end"@, "\"source_end\":"@, MessageId::written(given.source_end.abs()));
    lemma_member("isolated_prompt_tokens"@, "\"isolated_prompt_tokens\":"@, u64::written(given.isolated_prompt_tokens.abs()));
    lemma_next(parts, 1);
    lemma_next(parts, 2);
    lemma_first(parts);
    assert(parts.take(3) =~= parts);
}

/// `CompactionFailure` is written as an object of its fields, in their order.
pub proof fn compaction_failure_text(given: CompactionFailure)
    ensures
        CompactionFailure::written(given.abs()) == "{"@
            + ("\"stage\":"@ + CompactionFailureStage::written(given.stage.abs()))
            + ","@
            + ("\"model_called\":"@ + bool::written(given.model_called.abs()))
            + ","@
            + ("\"usage\":"@ + Option::<ModelUsage>::written(given.usage.abs()))
            + ","@
            + ("\"summary_source_start\":"@ + Option::<MessageId>::written(given.summary_source_start.abs()))
            + ","@
            + ("\"summary_source_end\":"@ + Option::<MessageId>::written(given.summary_source_end.abs()))
            + ","@
            + ("\"source_contributions\":"@ + Vec::<SourceTokenContribution>::written(given.source_contributions.abs()))
            + "}"@,
{
    reveal_strlit("\"");
    reveal_strlit("\":");
    reveal_strlit("\"stage\":");
    reveal_strlit("stage");
    reveal_strlit("\"model_called\":");
    reveal_strlit("model_called");
    reveal_strlit("\"usage\":");
    reveal_strlit("usage");
    reveal_strlit("\"summary_source_start\":");
    reveal_strlit("summary_source_start");
    reveal_strlit("\"summary_source_end\":");
    reveal_strlit("summary_source_end");
    reveal_strlit("\"source_contributions\":");
    reveal_strlit("source_contributions");
    let parts = CompactionFailure::members(given.abs());
    lemma_member("stage"@, "\"stage\":"@, CompactionFailureStage::written(given.stage.abs()));
    lemma_member("model_called"@, "\"model_called\":"@, bool::written(given.model_called.abs()));
    lemma_member("usage"@, "\"usage\":"@, Option::<ModelUsage>::written(given.usage.abs()));
    lemma_member("summary_source_start"@, "\"summary_source_start\":"@, Option::<MessageId>::written(given.summary_source_start.abs()));
    lemma_member("summary_source_end"@, "\"summary_source_end\":"@, Option::<MessageId>::written(given.summary_source_end.abs()));
    lemma_member("source_contributions"@, "\"source_contributions\":"@, Vec::<SourceTokenContribution>::written(given.source_contributions.abs()));
    lemma_next(parts, 1);
    lemma_next(parts, 2);
    lemma_next(parts, 3);
    lemma_next(parts, 4);
    lemma_next(parts, 5);
    lemma_first(parts);
    assert(parts.take(6) =~= parts);
}

/// `ContextExhaustion` is written as an object of its fields, in their order.
pub proof fn context_exhaustion_text(given: ContextExhaustion)
    ensures
        ContextExhaustion::written(given.abs()) == "{"@
            + ("\"capacity\":"@ + ContextCapacity::written(given.capacity.abs()))
            + ","@
            + ("\"compaction\":"@ + Option::<Box<CompactionFailure>>::written(given.compaction.abs()))
            + "}"@,
{
    reveal_strlit("\"");
    reveal_strlit("\":");
    reveal_strlit("\"capacity\":");
    reveal_strlit("capacity");
    reveal_strlit("\"compaction\":");
    reveal_strlit("compaction");
    let parts = ContextExhaustion::members(given.abs());
    lemma_member("capacity"@, "\"capacity\":"@, ContextCapacity::written(given.capacity.abs()));
    lemma_member("compaction"@, "\"compaction\":"@, Option::<Box<CompactionFailure>>::written(given.compaction.abs()));
    lemma_next(parts, 1);
    lemma_first(parts);
    assert(parts.take(2) =~= parts);
}

/// `EffectReceipt` is written as an object of its fields, in their order.
pub proof fn effect_receipt_text(given: EffectReceipt)
    ensures
        EffectReceipt::written(given.abs()) == "{"@
            + ("\"effect\":"@ + EffectId::written(given.effect.abs()))
            + ","@
            + ("\"scope\":"@ + CanonicalJson::written(given.scope.abs()))
            + "}"@,
{
    reveal_strlit("\"");
    reveal_strlit("\":");
    reveal_strlit("\"effect\":");
    reveal_strlit("effect");
    reveal_strlit("\"scope\":");
    reveal_strlit("scope");
    let parts = EffectReceipt::members(given.abs());
    lemma_member("effect"@, "\"effect\":"@, EffectId::written(given.effect.abs()));
    lemma_member("scope"@, "\"scope\":"@, CanonicalJson::written(given.scope.abs()));
    lemma_next(parts, 1);
    lemma_first(parts);
    assert(parts.take(2) =~= parts);
}

/// `OperationFact` is written as an object of its fields, in their order.
pub proof fn operation_fact_text(given: OperationFact)
    ensures
        OperationFact::written(given.abs()) == "{"@
            + ("\"kind\":"@ + AgentOperationKind::written(given.kind.abs()))
            + ","@
            + ("\"tool_id\":"@ + Option::<ToolId>::written(given.tool_id.abs()))
            + ","@
            + ("\"status\":"@ + AgentOperationDeliveryState::written(given.status.abs()))
            + ","@
            + ("\"failure\":"@ + Option::<AgentOperationFailureKind>::written(given.failure.abs()))
            + ","@
            + ("\"effect_receipts\":"@ + Vec::<EffectReceipt>::written(given.effect_receipts.abs()))
            + "}"@,
{
    reveal_strlit("\"");
    reveal_strlit("\":");
    reveal_strlit("\"kind\":");
    reveal_strlit("kind");
    reveal_strlit("\"tool_id\":");
    reveal_strlit("tool_id");
    reveal_strlit("\"status\":");
    reveal_strlit("status");
    reveal_strlit("\"failure\":");
    reveal_strlit("failure");
    reveal_strlit("\"effect_receipts\":");
    reveal_strlit("effect_receipts");
    let parts = OperationFact::members(given.abs());
    lemma_member("kind"@, "\"kind\":"@, AgentOperationKind::written(given.kind.abs()));
    lemma_member("tool_id"@, "\"tool_id\":"@, Option::<ToolId>::written(given.tool_id.abs()));
    lemma_member("status"@, "\"status\":"@, AgentOperationDeliveryState::written(given.status.abs()));
    lemma_member("failure"@, "\"failure\":"@, Option::<AgentOperationFailureKind>::written(given.failure.abs()));
    lemma_member("effect_receipts"@, "\"effect_receipts\":"@, Vec::<EffectReceipt>::written(given.effect_receipts.abs()));
    lemma_next(parts, 1);
    lemma_next(parts, 2);
    lemma_next(parts, 3);
    lemma_next(parts, 4);
    lemma_first(parts);
    assert(parts.take(5) =~= parts);
}

/// `FoldedOperationFact` is written as an object of its fields, in their order.
pub proof fn folded_operation_fact_text(given: FoldedOperationFact)
    ensures
        FoldedOperationFact::written(given.abs()) == "{"@
            + ("\"fact\":"@ + OperationFact::written(given.fact.abs()))
            + ","@
            + ("\"count\":"@ + u64::written(given.count.abs()))
            + ","@
            + ("\"first\":"@ + AgentOperationKey::written(given.first.abs()))
            + ","@
            + ("\"last\":"@ + AgentOperationKey::written(given.last.abs()))
            + ","@
            + ("\"sources\":"@ + Vec::<AgentOperationKey>::written(given.sources.abs()))
            + "}"@,
{
    reveal_strlit("\"");
    reveal_strlit("\":");
    reveal_strlit("\"fact\":");
    reveal_strlit("fact");
    reveal_strlit("\"count\":");
    reveal_strlit("count");
    reveal_strlit("\"first\":");
    reveal_strlit("first");
    reveal_strlit("\"last\":");
    reveal_strlit("last");
    reveal_strlit("\"sources\":");
    reveal_strlit("sources");
    let parts = FoldedOperationFact::members(given.abs());
    lemma_member("fact"@, "\"fact\":"@, OperationFact::written(given.fact.abs()));
    lemma_member("count"@, "\"count\":"@, u64::written(given.count.abs()));
    lemma_member("first"@, "\"first\":"@, AgentOperationKey::written(given.first.abs()));
    lemma_member("last"@, "\"last\":"@, AgentOperationKey::written(given.last.abs()));
    lemma_member("sources"@, "\"sources\":"@, Vec::<AgentOperationKey>::written(given.sources.abs()));
    lemma_next(parts, 1);
    lemma_next(parts, 2);
    lemma_next(parts, 3);
    lemma_next(parts, 4);
    lemma_first(parts);
    assert(parts.take(5) =~= parts);
}

/// `WorkspaceScope` is written as an object of its fields, in their order.
pub proof fn workspace_scope_text(given: WorkspaceScope)
    ensures
        WorkspaceScope::written(given.abs()) == "{"@
            + ("\"root\":"@ + AbsolutePath::written(given.root.abs()))
            + ","@
            + ("\"working_directory\":"@ + RelativePath::written(given.working_directory.abs()))
            + "}"@,
{
    reveal_strlit("\"");
    reveal_strlit("\":");
    reveal_strlit("\"root\":");
    reveal_strlit("root");
    reveal_strlit("\"working_directory\":");
    reveal_strlit("working_directory");
    let parts = WorkspaceScope::members(given.abs());
    lemma_member("root"@, "\"root\":"@, AbsolutePath::written(given.root.abs()));
    lemma_member("working_directory"@, "\"working_directory\":"@, RelativePath::written(given.working_directory.abs()));
    lemma_next(parts, 1);
    lemma_first(parts);
    assert(parts.take(2) =~= parts);
}

/// `CompactionExactState` is written as an object of its fields, in their order.
pub proof fn compaction_exact_state_text(given: CompactionExactState)
    ensures
        CompactionExactState::written(given.abs()) == "{"@
            + ("\"snapshot_run\":"@ + AgentRunId::written(given.snapshot_run.abs()))
            + ","@
            + ("\"snapshot_digest\":"@ + PackageDigest::written(given.snapshot_digest.abs()))
            + ","@
            + ("\"workspace\":"@ + WorkspaceScope::written(given.workspace.abs()))
            + ","@
            + ("\"operations\":"@ + Vec::<FoldedOperationFact>::written(given.operations.abs()))
            + ","@
            + ("\"inspected_files\":"@ + Vec::<InspectedFileFact>::written(given.inspected_files.abs()))
            + "}"@,
{
    reveal_strlit("\"");
    reveal_strlit("\":");
    reveal_strlit("\"snapshot_run\":");
    reveal_strlit("snapshot_run");
    reveal_strlit("\"snapshot_digest\":");
    reveal_strlit("snapshot_digest");
    reveal_strlit("\"workspace\":");
    reveal_strlit("workspace");
    reveal_strlit("\"operations\":");
    reveal_strlit("operations");
    reveal_strlit("\"inspected_files\":");
    reveal_strlit("inspected_files");
    let parts = CompactionExactState::members(given.abs());
    lemma_member("snapshot_run"@, "\"snapshot_run\":"@, AgentRunId::written(given.snapshot_run.abs()));
    lemma_member("snapshot_digest"@, "\"snapshot_digest\":"@, PackageDigest::written(given.snapshot_digest.abs()));
    lemma_member("workspace"@, "\"workspace\":"@, WorkspaceScope::written(given.workspace.abs()));
    lemma_member("operations"@, "\"operations\":"@, Vec::<FoldedOperationFact>::written(given.operations.abs()));
    lemma_member("inspected_files"@, "\"inspected_files\":"@, Vec::<InspectedFileFact>::written(given.inspected_files.abs()));
    lemma_next(parts, 1);
    lemma_next(parts, 2);
    lemma_next(parts, 3);
    lemma_next(parts, 4);
    lemma_first(parts);
    assert(parts.take(5) =~= parts);
}

/// `CompactionContent` is written as an object of its fields, in their order.
pub proof fn compaction_content_text(given: CompactionContent)
    ensures
        CompactionContent::written(given.abs()) == "{"@
            + ("\"exact\":"@ + CompactionExactState::written(given.exact.abs()))
            + ","@
            + ("\"semantic\":"@ + SemanticSummary::written(given.semantic.abs()))
            + "}"@,
{
    reveal_strlit("\"");
    reveal_strlit("\":");
    reveal_strlit("\"exact\":");
    reveal_strlit("exact");
    reveal_strlit("\"semantic\":");
    reveal_strlit("semantic");
    let parts = CompactionContent::members(given.abs());
    lemma_member("exact"@, "\"exact\":"@, CompactionExactState::written(given.exact.abs()));
    lemma_member("semantic"@, "\"semantic\":"@, SemanticSummary::written(given.semantic.abs()));
    lemma_next(parts, 1);
    lemma_first(parts);
    assert(parts.take(2) =~= parts);
}

/// `SkillDefinitionRef` is written as an object of its fields, in their order.
pub proof fn skill_definition_ref_text(given: SkillDefinitionRef)
    ensures
        SkillDefinitionRef::written(given.abs()) == "{"@
            + ("\"id\":"@ + PackageId::written(given.id.abs()))
            + ","@
            + ("\"version\":"@ + PackageVersion::written(given.version.abs()))
            + ","@
            + ("\"digest\":"@ + PackageDigest::written(given.digest.abs()))
            + "}"@,
{
    reveal_strlit("\"");
    reveal_strlit("\":");
    reveal_strlit("\"id\":");
    reveal_strlit("id");
    reveal_strlit("\"version\":");
    reveal_strlit("version");
    reveal_strlit("\"digest\":");
    reveal_strlit("digest");
    let parts = SkillDefinitionRef::members(given.abs());
    lemma_member("id"@, "\"id\":"@, PackageId::written(given.id.abs()));
    lemma_member("version"@, "\"version\":"@, PackageVersion::written(given.version.abs()));
    lemma_member("digest"@, "\"digest\":"@, PackageDigest::written(given.digest.abs()));
    lemma_next(parts, 1);
    lemma_next(parts, 2);
    lemma_first(parts);
    assert(parts.take(3) =~= parts);
}

/// `InstructionBlock` is written as an object of its fields, in their order.
pub proof fn instruction_block_text(given: InstructionBlock)
    ensures
        InstructionBlock::written(given.abs()) == "{"@
            + ("\"source\":"@ + InstructionSource::written(given.source.abs()))
            + ","@
            + ("\"content\":"@ + Content::written(given.content.abs()))
            + "}"@,
{
    reveal_strlit("\"");
    reveal_strlit("\":");
    reveal_strlit("\"source\":");
    reveal_strlit("source");
    reveal_strlit("\"content\":");
    reveal_strlit("content");
    let parts = InstructionBlock::members(given.abs());
    lemma_member("source"@, "\"source\":"@, InstructionSource::written(given.source.abs()));
    lemma_member("content"@, "\"content\":"@, Content::written(given.content.abs()));
    lemma_next(parts, 1);
    lemma_first(parts);
    assert(parts.take(2) =~= parts);
}

/// The names of `CompactionFailureStage`.
pub proof fn compaction_failure_stage_names()
    ensures
        CompactionFailureStage::written(CompactionFailureStage::SummarySource) == "\"summary_source\""@,
        CompactionFailureStage::written(CompactionFailureStage::SemanticOutput) == "\"semantic_output\""@,
        CompactionFailureStage::written(CompactionFailureStage::RebuiltInput) == "\"rebuilt_input\""@,
        CompactionFailureStage::written(CompactionFailureStage::Inference) == "\"inference\""@,
{
    reveal_strlit("\"");
    reveal_strlit("\"summary_source\"");
    reveal_strlit("summary_source");
    assert(name_text("summary_source"@) =~= "\"summary_source\""@);
    reveal_strlit("\"semantic_output\"");
    reveal_strlit("semantic_output");
    assert(name_text("semantic_output"@) =~= "\"semantic_output\""@);
    reveal_strlit("\"rebuilt_input\"");
    reveal_strlit("rebuilt_input");
    assert(name_text("rebuilt_input"@) =~= "\"rebuilt_input\""@);
    reveal_strlit("\"inference\"");
    reveal_strlit("inference");
    assert(name_text("inference"@) =~= "\"inference\""@);
}

/// The names of `AgentOperationKind`.
pub proof fn agent_operation_kind_names()
    ensures
        AgentOperationKind::written(AgentOperationKind::ModelGeneration) == "\"model_generation\""@,
        AgentOperationKind::written(AgentOperationKind::Compaction) == "\"compaction\""@,
        AgentOperationKind::written(AgentOperationKind::Tool) == "\"tool\""@,
{
    reveal_strlit("\"");
    reveal_strlit("\"model_generation\"");
    reveal_strlit("model_generation");
    assert(name_text("model_generation"@) =~= "\"model_generation\""@);
    reveal_strlit("\"compaction\"");
    reveal_strlit("compaction");
    assert(name_text("compaction"@) =~= "\"compaction\""@);
    reveal_strlit("\"tool\"");
    reveal_strlit("tool");
    assert(name_text("tool"@) =~= "\"tool\""@);
}

/// The names of `AgentOperationDeliveryState`.
pub proof fn agent_operation_delivery_state_names()
    ensures
        AgentOperationDeliveryState::written(AgentOperationDeliveryState::Pending) == "\"pending\""@,
        AgentOperationDeliveryState::written(AgentOperationDeliveryState::Running) == "\"running\""@,
        AgentOperationDeliveryState::written(AgentOperationDeliveryState::RetryScheduled) == "\"retry_scheduled\""@,
        AgentOperationDeliveryState::written(AgentOperationDeliveryState::Succeeded) == "\"succeeded\""@,
        AgentOperationDeliveryState::written(AgentOperationDeliveryState::Failed) == "\"failed\""@,
        AgentOperationDeliveryState::written(AgentOperationDeliveryState::OutcomeUnknown) == "\"outcome_unknown\""@,
        AgentOperationDeliveryState::written(AgentOperationDeliveryState::Cancelled) == "\"cancelled\""@,
{
    reveal_strlit("\"");
    reveal_strlit("\"pending\"");
    reveal_strlit("pending");
    assert(name_text("pending"@) =~= "\"pending\""@);
    reveal_strlit("\"running\"");
    reveal_strlit("running");
    assert(name_text("running"@) =~= "\"running\""@);
    reveal_strlit("\"retry_scheduled\"");
    reveal_strlit("retry_scheduled");
    assert(name_text("retry_scheduled"@) =~= "\"retry_scheduled\""@);
    reveal_strlit("\"succeeded\"");
    reveal_strlit("succeeded");
    assert(name_text("succeeded"@) =~= "\"succeeded\""@);
    reveal_strlit("\"failed\"");
    reveal_strlit("failed");
    assert(name_text("failed"@) =~= "\"failed\""@);
    reveal_strlit("\"outcome_unknown\"");
    reveal_strlit("outcome_unknown");
    assert(name_text("outcome_unknown"@) =~= "\"outcome_unknown\""@);
    reveal_strlit("\"cancelled\"");
    reveal_strlit("cancelled");
    assert(name_text("cancelled"@) =~= "\"cancelled\""@);
}

/// The failures of an operation that hold nothing are written as their names.
pub proof fn failure_kind_names()
    ensures
        AgentOperationFailureKind::written(AgentOperationFailureKindAbs::InvalidInput)
            == "\"invalid_input\""@,
        AgentOperationFailureKind::written(AgentOperationFailureKindAbs::InvalidResult)
            == "\"invalid_result\""@,
        AgentOperationFailureKind::written(AgentOperationFailureKindAbs::IdentityMismatch)
            == "\"identity_mismatch\""@,
        AgentOperationFailureKind::written(AgentOperationFailureKindAbs::ResultTooLarge)
            == "\"result_too_large\""@,
        AgentOperationFailureKind::written(AgentOperationFailureKindAbs::Unauthorized)
            == "\"unauthorized\""@,
        AgentOperationFailureKind::written(AgentOperationFailureKindAbs::Unavailable)
            == "\"unavailable\""@,
        AgentOperationFailureKind::written(AgentOperationFailureKindAbs::Deadline)
            == "\"deadline\""@,
        AgentOperationFailureKind::written(AgentOperationFailureKindAbs::Cancelled)
            == "\"cancelled\""@,
        AgentOperationFailureKind::written(AgentOperationFailureKindAbs::Execution)
            == "\"execution\""@,
        AgentOperationFailureKind::written(AgentOperationFailureKindAbs::OutcomeUnknown)
            == "\"outcome_unknown\""@,
        AgentOperationFailureKind::written(AgentOperationFailureKindAbs::ToolLoopDetected)
            == "\"tool_loop_detected\""@,
{
    reveal_strlit("\"");
    reveal_strlit("\"invalid_input\"");
    reveal_strlit("invalid_input");
    assert(name_text("invalid_input"@) =~= "\"invalid_input\""@);
    reveal_strlit("\"invalid_result\"");
    reveal_strlit("invalid_result");
    assert(name_text("invalid_result"@) =~= "\"invalid_result\""@);
    reveal_strlit("\"identity_mismatch\"");
    reveal_strlit("identity_mismatch");
    assert(name_text("identity_mismatch"@) =~= "\"identity_mismatch\""@);
    reveal_strlit("\"result_too_large\"");
    reveal_strlit("result_too_large");
    assert(name_text("result_too_large"@) =~= "\"result_too_large\""@);
    reveal_strlit("\"unauthorized\"");
    reveal_strlit("unauthorized");
    assert(name_text("unauthorized"@) =~= "\"unauthorized\""@);
    reveal_strlit("\"unavailable\"");
    reveal_strlit("unavailable");
    assert(name_text("unavailable"@) =~= "\"unavailable\""@);
    reveal_strlit("\"deadline\"");
    reveal_strlit("deadline");
    assert(name_text("deadline"@) =~= "\"deadline\""@);
    reveal_strlit("\"cancelled\"");
    reveal_strlit("cancelled");
    assert(name_text("cancelled"@) =~= "\"cancelled\""@);
    reveal_strlit("\"execution\"");
    reveal_strlit("execution");
    assert(name_text("execution"@) =~= "\"execution\""@);
    reveal_strlit("\"outcome_unknown\"");
    reveal_strlit("outcome_unknown");
    assert(name_text("outcome_unknown"@) =~= "\"outcome_unknown\""@);
    reveal_strlit("\"tool_loop_detected\"");
    reveal_strlit("tool_loop_detected");
    assert(name_text("tool_loop_detected"@) =~= "\"tool_loop_detected\""@);
}

/// The failures of an operation that hold something are written as an object of
/// one member, under their name.
pub proof fn failure_kind_texts(
    usage: ModelUsage,
    calls: u64,
    input_tokens: u64,
    output_tokens: u64,
    exhaustion: ContextExhaustionAbs,
    capacity: ContextCapacity,
)
    ensures
        AgentOperationFailureKind::written(
            AgentOperationFailureKindAbs::InvalidModelOutput { usage },
        ) == "{"@ + ("\"invalid_model_output\":"@ + ("{"@ + ("\"usage\":"@ + ModelUsage::written(
            usage,
        )) + "}"@)) + "}"@,
        AgentOperationFailureKind::written(
            AgentOperationFailureKindAbs::InvalidCompactionOutput { usage },
        ) == "{"@ + ("\"invalid_compaction_output\":"@ + ("{"@ + ("\"usage\":"@
            + ModelUsage::written(usage)) + "}"@)) + "}"@,
        AgentOperationFailureKind::written(
            AgentOperationFailureKindAbs::CorrectionFailed {
                primary_usage: usage,
                calls,
                input_tokens,
                output_tokens,
            },
        ) == "{"@ + ("\"correction_failed\":"@ + ("{"@ + ("\"primary_usage\":"@
            + ModelUsage::written(usage)) + ","@ + ("\"calls\":"@ + u64::written(calls)) + ","@ + (
        "\"input_tokens\":"@ + u64::written(input_tokens)) + ","@ + ("\"output_tokens\":"@
            + u64::written(output_tokens)) + "}"@)) + "}"@,
        AgentOperationFailureKind::written(
            AgentOperationFailureKindAbs::ContextExhausted(exhaustion),
        ) == "{"@ + ("\"context_exhausted\":"@ + ContextExhaustion::written(exhaustion)) + "}"@,
        AgentOperationFailureKind::written(
            AgentOperationFailureKindAbs::CompactionRequired(capacity),
        ) == "{"@ + ("\"compaction_required\":"@ + ContextCapacity::written(capacity)) + "}"@,
{
    reveal_strlit("\"");
    reveal_strlit("\":");
    reveal_strlit("\"invalid_model_output\":");
    reveal_strlit("invalid_model_output");
    reveal_strlit("\"invalid_compaction_output\":");
    reveal_strlit("invalid_compaction_output");
    reveal_strlit("\"correction_failed\":");
    reveal_strlit("correction_failed");
    reveal_strlit("\"context_exhausted\":");
    reveal_strlit("context_exhausted");
    reveal_strlit("\"compaction_required\":");
    reveal_strlit("compaction_required");
    reveal_strlit("\"usage\":");
    reveal_strlit("usage");
    reveal_strlit("\"primary_usage\":");
    reveal_strlit("primary_usage");
    reveal_strlit("\"calls\":");
    reveal_strlit("calls");
    reveal_strlit("\"input_tokens\":");
    reveal_strlit("input_tokens");
    reveal_strlit("\"output_tokens\":");
    reveal_strlit("output_tokens");
    lemma_member("usage"@, "\"usage\":"@, ModelUsage::written(usage));
    let one = invalid_model_output_members(usage);
    lemma_first(one);
    assert(one.take(1) =~= one);
    let other = invalid_compaction_output_members(usage);
    lemma_first(other);
    assert(other.take(1) =~= other);
    let four = correction_failed_members(usage, calls, input_tokens, output_tokens);
    lemma_member("primary_usage"@, "\"primary_usage\":"@, ModelUsage::written(usage));
    lemma_member("calls"@, "\"calls\":"@, u64::written(calls));
    lemma_member("input_tokens"@, "\"input_tokens\":"@, u64::written(input_tokens));
    lemma_member("output_tokens"@, "\"output_tokens\":"@, u64::written(output_tokens));
    lemma_first(four);
    lemma_next(four, 1);
    lemma_next(four, 2);
    lemma_next(four, 3);
    assert(four.take(4) =~= four);
    lemma_tagged("invalid_model_output"@, "\"invalid_model_output\":"@, object_text(one));
    lemma_tagged(
        "invalid_compaction_output"@,
        "\"invalid_compaction_output\":"@,
        object_text(other),
    );
    lemma_tagged("correction_failed"@, "\"correction_failed\":"@, object_text(four));
    lemma_tagged(
        "context_exhausted"@,
        "\"context_exhausted\":"@,
        ContextExhaustion::written(exhaustion),
    );
    lemma_tagged(
        "compaction_required"@,
        "\"compaction_required\":"@,
        ContextCapacity::written(capacity),
    );
}

/// Instructions come from the agent or from a skill.
pub proof fn instruction_source_text(skill: SkillDefinitionRefAbs)
    ensures
        InstructionSource::written(InstructionSourceAbs::Agent) == "\"agent\""@,
        InstructionSource::written(InstructionSourceAbs::Skill(skill)) == "{"@ + ("\"skill\":"@
            + SkillDefinitionRef::written(skill)) + "}"@,
{
    reveal_strlit("\"");
    reveal_strlit("\":");
    reveal_strlit("\"agent\"");
    reveal_strlit("agent");
    reveal_strlit("\"skill\":");
    reveal_strlit("skill");
    assert(name_text("agent"@) =~= "\"agent\""@);
    lemma_tagged("skill"@, "\"skill\":"@, SkillDefinitionRef::written(skill));
}

/// A memory claim is written as an object of its fields; one that supersedes
/// nothing does not mention it.
pub proof fn memory_claim_text(given: MemoryClaim)
    ensures
        MemoryClaim::written(given.abs()) == "{"@
            + ("\"text\":"@ + String::written(given.text.abs()))
            + ","@
            + ("\"sources\":"@ + Vec::<MessageId>::written(given.sources.abs()))
            + ","@
            + ("\"files\":"@ + Vec::<String>::written(given.files.abs()))
            + (match given.supersedes {
            Some(references) => ","@ + ("\"supersedes\":"@ + Vec::<String>::written(
                references.abs(),
            )),
            None => Seq::empty(),
        }) + "}"@,
{
    reveal_strlit("\"");
    reveal_strlit("\":");
    reveal_strlit("\"text\":");
    reveal_strlit("text");
    reveal_strlit("\"sources\":");
    reveal_strlit("sources");
    reveal_strlit("\"files\":");
    reveal_strlit("files");
    reveal_strlit("\"supersedes\":");
    reveal_strlit("supersedes");
    let parts = MemoryClaim::members(given.abs());
    lemma_member("text"@, "\"text\":"@, String::written(given.text.abs()));
    lemma_member("sources"@, "\"sources\":"@, Vec::<MessageId>::written(given.sources.abs()));
    lemma_member("files"@, "\"files\":"@, Vec::<String>::written(given.files.abs()));
    lemma_first(parts);
    lemma_next(parts, 1);
    lemma_next(parts, 2);
    let head = "{"@ + separated(parts.take(3));
    if let Some(references) = given.supersedes {
        lemma_member("supersedes"@, "\"supersedes\":"@, Vec::<String>::written(references.abs()));
        lemma_next(parts, 3);
        assert(parts.take(4) =~= parts);
        assert(head + ","@ + parts[3] =~= head + (","@ + parts[3]));
    } else {
        assert(parts.take(3) =~= parts);
        assert(head + Seq::<char>::empty() =~= head);
    }
}

/// Plain values: numbers in decimal, flags by name, texts as JSON strings,
/// missing values as null.
pub proof fn plain_texts(n: u64, m: u32, text: String, digest: PackageDigest)
    ensures
        u64::written(n) == decimal(n as nat),
        u32::written(m) == decimal(m as nat),
        bool::written(true) == "true"@,
        bool::written(false) == "false"@,
        String::written(text@) == json_text(JsonAbs::Text(text@)),
        Option::<String>::written(None) == "null"@,
        Option::<String>::written(Some(text@)) == String::written(text@),
        PackageDigest::written(digest.abs()) == json_text(JsonAbs::Text(digest_text(digest@))),
{
}

/// A list is written in brackets, its items in their order with commas between
/// them.
pub proof fn list_text<T: Written>(items: Seq<T::Abs>, last: T::Abs)
    ensures
        Vec::<T>::written(Seq::empty()) == "["@ + "]"@,
        Vec::<T>::written(seq![last]) == "["@ + T::written(last) + "]"@,
        items.len() > 0 ==> exists|inner: Seq<char>|
            #![trigger "["@ + inner + "]"@]
            Vec::<T>::written(items) == "["@ + inner + "]"@ && Vec::<T>::written(items.push(last))
                == "["@ + (inner + ","@ + T::written(last)) + "]"@,
{
    let none = each_written::<T>(Seq::empty());
    assert(none =~= Seq::<Seq<char>>::empty());
    assert("["@ + Seq::<char>::empty() =~= "["@);
    let one = each_written::<T>(seq![last]);
    assert(one =~= seq![T::written(last)]);
    if items.len() > 0 {
        let texts = each_written::<T>(items);
        let more = each_written::<T>(items.push(last));
        assert(more.drop_last() =~= texts);
        assert(more.last() == T::written(last));
        let inner = separated(texts);
        assert(Vec::<T>::written(items) == "["@ + inner + "]"@);
    }
}

} // verus!
