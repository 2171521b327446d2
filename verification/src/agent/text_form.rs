//! The JSON text of what a compaction keeps, and of instruction blocks.

use vstd::prelude::*;
use vstd::string::*;

use super::compaction::{
    CompactionContent, CompactionContentAbs, CompactionExactState, CompactionExactStateAbs,
    CompactionFailure, CompactionFailureAbs, CompactionFailureStage, FoldedOperationFact,
    FoldedOperationFactAbs, InspectedFileFact, InspectedFileFactAbs, InspectedFileRange,
    InspectedFileRangeAbs, OperationFact, OperationFactAbs, SemanticSummary, SemanticSummaryAbs,
    SourceTokenContribution, SourceTokenContributionAbs, SummaryClaim, SummaryClaimAbs,
};
use super::context::{ContextCapacity, ContextExhaustion, ContextExhaustionAbs};
use super::memory::{MemoryClaim, MemoryClaimAbs, MemoryTopic, MemoryTopicAbs};
use super::operation::{
    AgentOperationDeliveryState, AgentOperationFailureKind, AgentOperationFailureKindAbs,
    AgentOperationKey, AgentOperationKeyAbs, AgentOperationKind, EffectReceipt, EffectReceiptAbs,
    ModelUsage,
};
use super::run::{
    AbsolutePath, InstructionBlock, InstructionBlockAbs, InstructionSource, InstructionSourceAbs,
    PackageDigest, RelativePath, SkillDefinitionRef, SkillDefinitionRefAbs, WorkspaceScope,
    WorkspaceScopeAbs,
};
use crate::content::Content;
use crate::correlation_id::{AgentRunId, MessageId};
use crate::digest::digest_text;
use crate::effect::CanonicalJson;
use crate::ids::{EffectId, ToolId};
use crate::num::NonZeroU32;
use crate::package::{PackageId, PackageVersion};
use crate::value::Abstract;
use crate::written::{
    member_text, name_text, object_text, separated, string_text, write_name, write_string, Members,
    Written,
};

verus! {

/// A variant that holds a value.
pub open spec fn tagged(tag: Seq<char>, value: Seq<char>) -> Seq<char> {
    object_text(seq![member_text(tag, value)])
}

fn write_tagged(tag: &str, value: &str) -> (r: String)
    ensures
        r@ == tagged(tag@, value@),
{
    let r: String = "{\"".to_owned().concat(tag).concat("\":").concat(value).concat("}");
    proof {
        let members = seq![member_text(tag@, value@)];
        assert(separated(members) == members[0]);
        reveal_strlit("{\"");
        reveal_strlit("{");
        reveal_strlit("\"");
        assert(r@ =~= object_text(members));
    }
    r
}

impl Written for PackageDigest {
    open spec fn written(content: Seq<u8>) -> Seq<char> {
        string_text(digest_text(content))
    }

    fn write(&self) -> String {
        write_string(self.to_string().as_str())
    }
}

impl Written for AbsolutePath {
    open spec fn written(content: Seq<char>) -> Seq<char> {
        string_text(content)
    }

    fn write(&self) -> String {
        write_string(self.as_path())
    }
}

impl Written for RelativePath {
    open spec fn written(content: Seq<char>) -> Seq<char> {
        string_text(content)
    }

    fn write(&self) -> String {
        write_string(self.as_path())
    }
}

impl Written for InstructionSource {
    open spec fn written(content: InstructionSourceAbs) -> Seq<char> {
        match content {
            InstructionSourceAbs::Agent => name_text("agent"@),
            InstructionSourceAbs::Skill(skill) => tagged(
                "skill"@,
                SkillDefinitionRef::written(skill),
            ),
        }
    }

    fn write(&self) -> String {
        match self {
            InstructionSource::Agent => write_name("agent"),
            InstructionSource::Skill(skill) => write_tagged("skill", skill.write().as_str()),
        }
    }
}

impl MemoryClaim {
    /// The members of a claim; one without a supersession does not mention it.
    pub open spec fn members(content: MemoryClaimAbs) -> Seq<Seq<char>> {
        let members = seq![
            member_text("text"@, String::written(content.text)),
            member_text("sources"@, Vec::<MessageId>::written(content.sources)),
            member_text("files"@, Vec::<String>::written(content.files)),
        ];
        match content.supersedes {
            Some(references) => members.push(
                member_text("supersedes"@, Vec::<String>::written(references)),
            ),
            None => members,
        }
    }
}

impl Written for MemoryClaim {
    open spec fn written(content: MemoryClaimAbs) -> Seq<char> {
        object_text(MemoryClaim::members(content))
    }

    fn write(&self) -> String {
        let first: Members = Members::new().with("text", &self.text).with(
            "sources",
            &self.sources,
        ).with("files", &self.files);
        let members: Members = match &self.supersedes {
            Some(references) => first.with("supersedes", references),
            None => first,
        };
        assert(members@ =~= MemoryClaim::members(self.abs()));
        members.finish()
    }
}

impl Written for CompactionFailureStage {
    open spec fn written(content: CompactionFailureStage) -> Seq<char> {
        match content {
            CompactionFailureStage::SummarySource => name_text("summary_source"@),
            CompactionFailureStage::SemanticOutput => name_text("semantic_output"@),
            CompactionFailureStage::RebuiltInput => name_text("rebuilt_input"@),
            CompactionFailureStage::Inference => name_text("inference"@),
        }
    }

    fn write(&self) -> String {
        match self {
            CompactionFailureStage::SummarySource => write_name("summary_source"),
            CompactionFailureStage::SemanticOutput => write_name("semantic_output"),
            CompactionFailureStage::RebuiltInput => write_name("rebuilt_input"),
            CompactionFailureStage::Inference => write_name("inference"),
        }
    }
}

impl Written for AgentOperationKind {
    open spec fn written(content: AgentOperationKind) -> Seq<char> {
        match content {
            AgentOperationKind::ModelGeneration => name_text("model_generation"@),
            AgentOperationKind::Compaction => name_text("compaction"@),
            AgentOperationKind::Tool => name_text("tool"@),
        }
    }

    fn write(&self) -> String {
        match self {
            AgentOperationKind::ModelGeneration => write_name("model_generation"),
            AgentOperationKind::Compaction => write_name("compaction"),
            AgentOperationKind::Tool => write_name("tool"),
        }
    }
}

impl Written for AgentOperationDeliveryState {
    open spec fn written(content: AgentOperationDeliveryState) -> Seq<char> {
        match content {
            AgentOperationDeliveryState::Pending => name_text("pending"@),
            AgentOperationDeliveryState::Running => name_text("running"@),
            AgentOperationDeliveryState::RetryScheduled => name_text("retry_scheduled"@),
            AgentOperationDeliveryState::Succeeded => name_text("succeeded"@),
            AgentOperationDeliveryState::Failed => name_text("failed"@),
            AgentOperationDeliveryState::OutcomeUnknown => name_text("outcome_unknown"@),
            AgentOperationDeliveryState::Cancelled => name_text("cancelled"@),
        }
    }

    fn write(&self) -> String {
        match self {
            AgentOperationDeliveryState::Pending => write_name("pending"),
            AgentOperationDeliveryState::Running => write_name("running"),
            AgentOperationDeliveryState::RetryScheduled => write_name("retry_scheduled"),
            AgentOperationDeliveryState::Succeeded => write_name("succeeded"),
            AgentOperationDeliveryState::Failed => write_name("failed"),
            AgentOperationDeliveryState::OutcomeUnknown => write_name("outcome_unknown"),
            AgentOperationDeliveryState::Cancelled => write_name("cancelled"),
        }
    }
}

impl SummaryClaim {
    pub open spec fn members(content: SummaryClaimAbs) -> Seq<Seq<char>> {
        seq![
            member_text("text"@, String::written(content.text)),
            member_text("sources"@, Vec::<MessageId>::written(content.sources)),
        ]
    }
}

impl Written for SummaryClaim {
    open spec fn written(content: SummaryClaimAbs) -> Seq<char> {
        object_text(SummaryClaim::members(content))
    }

    fn write(&self) -> String {
        let members: Members = Members::new().with(
            "text",
            &self.text,
        ).with(
            "sources",
            &self.sources,
        );
        assert(members@ =~= SummaryClaim::members(self.abs()));
        members.finish()
    }
}

impl MemoryTopic {
    pub open spec fn members(content: MemoryTopicAbs) -> Seq<Seq<char>> {
        seq![
            member_text("slug"@, String::written(content.slug)),
            member_text("claims"@, Vec::<MemoryClaim>::written(content.claims)),
        ]
    }
}

impl Written for MemoryTopic {
    open spec fn written(content: MemoryTopicAbs) -> Seq<char> {
        object_text(MemoryTopic::members(content))
    }

    fn write(&self) -> String {
        let members: Members = Members::new().with(
            "slug",
            &self.slug,
        ).with(
            "claims",
            &self.claims,
        );
        assert(members@ =~= MemoryTopic::members(self.abs()));
        members.finish()
    }
}

impl SemanticSummary {
    pub open spec fn members(content: SemanticSummaryAbs) -> Seq<Seq<char>> {
        seq![
            member_text("objective"@, SummaryClaim::written(content.objective)),
            member_text("rationale"@, Vec::<SummaryClaim>::written(content.rationale)),
            member_text("decisions"@, Vec::<SummaryClaim>::written(content.decisions)),
            member_text("completed"@, Vec::<SummaryClaim>::written(content.completed)),
            member_text("discoveries"@, Vec::<SummaryClaim>::written(content.discoveries)),
            member_text("unresolved"@, Vec::<SummaryClaim>::written(content.unresolved)),
            member_text("next_position"@, SummaryClaim::written(content.next_position)),
            member_text("memory"@, Vec::<MemoryTopic>::written(content.memory)),
        ]
    }
}

impl Written for SemanticSummary {
    open spec fn written(content: SemanticSummaryAbs) -> Seq<char> {
        object_text(SemanticSummary::members(content))
    }

    fn write(&self) -> String {
        let members: Members = Members::new().with(
            "objective",
            &self.objective,
        ).with(
            "rationale",
            &self.rationale,
        ).with(
            "decisions",
            &self.decisions,
        ).with(
            "completed",
            &self.completed,
        ).with(
            "discoveries",
            &self.discoveries,
        ).with(
            "unresolved",
            &self.unresolved,
        ).with(
            "next_position",
            &self.next_position,
        ).with(
            "memory",
            &self.memory,
        );
        assert(members@ =~= SemanticSummary::members(self.abs()));
        members.finish()
    }
}

impl InspectedFileRange {
    pub open spec fn members(content: InspectedFileRangeAbs) -> Seq<Seq<char>> {
        seq![
            member_text("start_line"@, u64::written(content.start_line)),
            member_text("end_line"@, u64::written(content.end_line)),
        ]
    }
}

impl Written for InspectedFileRange {
    open spec fn written(content: InspectedFileRangeAbs) -> Seq<char> {
        object_text(InspectedFileRange::members(content))
    }

    fn write(&self) -> String {
        let members: Members = Members::new().with(
            "start_line",
            &self.start_line,
        ).with(
            "end_line",
            &self.end_line,
        );
        assert(members@ =~= InspectedFileRange::members(self.abs()));
        members.finish()
    }
}

impl InspectedFileFact {
    pub open spec fn members(content: InspectedFileFactAbs) -> Seq<Seq<char>> {
        seq![
            member_text("path"@, String::written(content.path)),
            member_text("digest"@, String::written(content.digest)),
            member_text("ranges"@, Vec::<InspectedFileRange>::written(content.ranges)),
            member_text("sources"@, Vec::<MessageId>::written(content.sources)),
        ]
    }
}

impl Written for InspectedFileFact {
    open spec fn written(content: InspectedFileFactAbs) -> Seq<char> {
        object_text(InspectedFileFact::members(content))
    }

    fn write(&self) -> String {
        let members: Members = Members::new().with(
            "path",
            &self.path,
        ).with(
            "digest",
            &self.digest,
        ).with(
            "ranges",
            &self.ranges,
        ).with(
            "sources",
            &self.sources,
        );
        assert(members@ =~= InspectedFileFact::members(self.abs()));
        members.finish()
    }
}

impl AgentOperationKey {
    pub open spec fn members(content: AgentOperationKeyAbs) -> Seq<Seq<char>> {
        seq![
            member_text("run_id"@, AgentRunId::written(content.run_id)),
            member_text("ordinal"@, NonZeroU32::written(content.ordinal)),
        ]
    }
}

impl Written for AgentOperationKey {
    open spec fn written(content: AgentOperationKeyAbs) -> Seq<char> {
        object_text(AgentOperationKey::members(content))
    }

    fn write(&self) -> String {
        let members: Members = Members::new().with(
            "run_id",
            &self.run_id,
        ).with(
            "ordinal",
            &self.ordinal,
        );
        assert(members@ =~= AgentOperationKey::members(self.abs()));
        members.finish()
    }
}

impl ModelUsage {
    pub open spec fn members(content: ModelUsage) -> Seq<Seq<char>> {
        seq![
            member_text("input_tokens"@, u64::written(content.input_tokens)),
            member_text("output_tokens"@, u64::written(content.output_tokens)),
        ]
    }
}

impl Written for ModelUsage {
    open spec fn written(content: ModelUsage) -> Seq<char> {
        object_text(ModelUsage::members(content))
    }

    fn write(&self) -> String {
        let members: Members = Members::new().with(
            "input_tokens",
            &self.input_tokens,
        ).with(
            "output_tokens",
            &self.output_tokens,
        );
        assert(members@ =~= ModelUsage::members(self.abs()));
        members.finish()
    }
}

impl ContextCapacity {
    pub open spec fn members(content: ContextCapacity) -> Seq<Seq<char>> {
        seq![
            member_text("prompt_tokens"@, u64::written(content.prompt_tokens)),
            member_text("reserved_output_tokens"@, u64::written(content.reserved_output_tokens)),
            member_text("context_capacity_tokens"@, u32::written(content.context_capacity_tokens)),
            member_text(
                "trigger_threshold_tokens"@,
                u64::written(content.trigger_threshold_tokens),
            ),
        ]
    }
}

impl Written for ContextCapacity {
    open spec fn written(content: ContextCapacity) -> Seq<char> {
        object_text(ContextCapacity::members(content))
    }

    fn write(&self) -> String {
        let members: Members = Members::new().with(
            "prompt_tokens",
            &self.prompt_tokens,
        ).with(
            "reserved_output_tokens",
            &self.reserved_output_tokens,
        ).with(
            "context_capacity_tokens",
            &self.context_capacity_tokens,
        ).with(
            "trigger_threshold_tokens",
            &self.trigger_threshold_tokens,
        );
        assert(members@ =~= ContextCapacity::members(self.abs()));
        members.finish()
    }
}

impl SourceTokenContribution {
    pub open spec fn members(content: SourceTokenContributionAbs) -> Seq<Seq<char>> {
        seq![
            member_text("source_start"@, MessageId::written(content.source_start)),
            member_text("source_end"@, MessageId::written(content.source_end)),
            member_text("isolated_prompt_tokens"@, u64::written(content.isolated_prompt_tokens)),
        ]
    }
}

impl Written for SourceTokenContribution {
    open spec fn written(content: SourceTokenContributionAbs) -> Seq<char> {
        object_text(SourceTokenContribution::members(content))
    }

    fn write(&self) -> String {
        let members: Members = Members::new().with(
            "source_start",
            &self.source_start,
        ).with(
            "source_end",
            &self.source_end,
        ).with(
            "isolated_prompt_tokens",
            &self.isolated_prompt_tokens,
        );
        assert(members@ =~= SourceTokenContribution::members(self.abs()));
        members.finish()
    }
}

impl CompactionFailure {
    pub open spec fn members(content: CompactionFailureAbs) -> Seq<Seq<char>> {
        seq![
            member_text("stage"@, CompactionFailureStage::written(content.stage)),
            member_text("model_called"@, bool::written(content.model_called)),
            member_text("usage"@, Option::<ModelUsage>::written(content.usage)),
            member_text(
                "summary_source_start"@,
                Option::<MessageId>::written(content.summary_source_start),
            ),
            member_text(
                "summary_source_end"@,
                Option::<MessageId>::written(content.summary_source_end),
            ),
            member_text(
                "source_contributions"@,
                Vec::<SourceTokenContribution>::written(content.source_contributions),
            ),
        ]
    }
}

impl Written for CompactionFailure {
    open spec fn written(content: CompactionFailureAbs) -> Seq<char> {
        object_text(CompactionFailure::members(content))
    }

    fn write(&self) -> String {
        let members: Members = Members::new().with(
            "stage",
            &self.stage,
        ).with(
            "model_called",
            &self.model_called,
        ).with(
            "usage",
            &self.usage,
        ).with(
            "summary_source_start",
            &self.summary_source_start,
        ).with(
            "summary_source_end",
            &self.summary_source_end,
        ).with(
            "source_contributions",
            &self.source_contributions,
        );
        assert(members@ =~= CompactionFailure::members(self.abs()));
        members.finish()
    }
}

impl ContextExhaustion {
    pub open spec fn members(content: ContextExhaustionAbs) -> Seq<Seq<char>> {
        seq![
            member_text("capacity"@, ContextCapacity::written(content.capacity)),
            member_text(
                "compaction"@,
                Option::<Box<CompactionFailure>>::written(content.compaction),
            ),
        ]
    }
}

impl Written for ContextExhaustion {
    open spec fn written(content: ContextExhaustionAbs) -> Seq<char> {
        object_text(ContextExhaustion::members(content))
    }

    fn write(&self) -> String {
        let members: Members = Members::new().with(
            "capacity",
            &self.capacity,
        ).with(
            "compaction",
            &self.compaction,
        );
        assert(members@ =~= ContextExhaustion::members(self.abs()));
        members.finish()
    }
}

impl EffectReceipt {
    pub open spec fn members(content: EffectReceiptAbs) -> Seq<Seq<char>> {
        seq![
            member_text("effect"@, EffectId::written(content.effect)),
            member_text("scope"@, CanonicalJson::written(content.scope)),
        ]
    }
}

impl Written for EffectReceipt {
    open spec fn written(content: EffectReceiptAbs) -> Seq<char> {
        object_text(EffectReceipt::members(content))
    }

    fn write(&self) -> String {
        let members: Members = Members::new().with(
            "effect",
            &self.effect,
        ).with(
            "scope",
            &self.scope,
        );
        assert(members@ =~= EffectReceipt::members(self.abs()));
        members.finish()
    }
}

impl OperationFact {
    pub open spec fn members(content: OperationFactAbs) -> Seq<Seq<char>> {
        seq![
            member_text("kind"@, AgentOperationKind::written(content.kind)),
            member_text("tool_id"@, Option::<ToolId>::written(content.tool_id)),
            member_text("status"@, AgentOperationDeliveryState::written(content.status)),
            member_text("failure"@, Option::<AgentOperationFailureKind>::written(content.failure)),
            member_text("effect_receipts"@, Vec::<EffectReceipt>::written(content.effect_receipts)),
        ]
    }
}

impl Written for OperationFact {
    open spec fn written(content: OperationFactAbs) -> Seq<char> {
        object_text(OperationFact::members(content))
    }

    fn write(&self) -> String {
        let members: Members = Members::new().with(
            "kind",
            &self.kind,
        ).with(
            "tool_id",
            &self.tool_id,
        ).with(
            "status",
            &self.status,
        ).with(
            "failure",
            &self.failure,
        ).with(
            "effect_receipts",
            &self.effect_receipts,
        );
        assert(members@ =~= OperationFact::members(self.abs()));
        members.finish()
    }
}

impl FoldedOperationFact {
    pub open spec fn members(content: FoldedOperationFactAbs) -> Seq<Seq<char>> {
        seq![
            member_text("fact"@, OperationFact::written(content.fact)),
            member_text("count"@, u64::written(content.count)),
            member_text("first"@, AgentOperationKey::written(content.first)),
            member_text("last"@, AgentOperationKey::written(content.last)),
            member_text("sources"@, Vec::<AgentOperationKey>::written(content.sources)),
        ]
    }
}

impl Written for FoldedOperationFact {
    open spec fn written(content: FoldedOperationFactAbs) -> Seq<char> {
        object_text(FoldedOperationFact::members(content))
    }

    fn write(&self) -> String {
        let members: Members = Members::new().with(
            "fact",
            &self.fact,
        ).with(
            "count",
            &self.count,
        ).with(
            "first",
            &self.first,
        ).with(
            "last",
            &self.last,
        ).with(
            "sources",
            &self.sources,
        );
        assert(members@ =~= FoldedOperationFact::members(self.abs()));
        members.finish()
    }
}

impl WorkspaceScope {
    pub open spec fn members(content: WorkspaceScopeAbs) -> Seq<Seq<char>> {
        seq![
            member_text("root"@, AbsolutePath::written(content.root)),
            member_text("working_directory"@, RelativePath::written(content.working_directory)),
        ]
    }
}

impl Written for WorkspaceScope {
    open spec fn written(content: WorkspaceScopeAbs) -> Seq<char> {
        object_text(WorkspaceScope::members(content))
    }

    fn write(&self) -> String {
        let members: Members = Members::new().with(
            "root",
            &self.root,
        ).with(
            "working_directory",
            &self.working_directory,
        );
        assert(members@ =~= WorkspaceScope::members(self.abs()));
        members.finish()
    }
}

impl CompactionExactState {
    pub open spec fn members(content: CompactionExactStateAbs) -> Seq<Seq<char>> {
        seq![
            member_text("snapshot_run"@, AgentRunId::written(content.snapshot_run)),
            member_text("snapshot_digest"@, PackageDigest::written(content.snapshot_digest)),
            member_text("workspace"@, WorkspaceScope::written(content.workspace)),
            member_text("operations"@, Vec::<FoldedOperationFact>::written(content.operations)),
            member_text(
                "inspected_files"@,
                Vec::<InspectedFileFact>::written(content.inspected_files),
            ),
        ]
    }
}

impl Written for CompactionExactState {
    open spec fn written(content: CompactionExactStateAbs) -> Seq<char> {
        object_text(CompactionExactState::members(content))
    }

    fn write(&self) -> String {
        let members: Members = Members::new().with(
            "snapshot_run",
            &self.snapshot_run,
        ).with(
            "snapshot_digest",
            &self.snapshot_digest,
        ).with(
            "workspace",
            &self.workspace,
        ).with(
            "operations",
            &self.operations,
        ).with(
            "inspected_files",
            &self.inspected_files,
        );
        assert(members@ =~= CompactionExactState::members(self.abs()));
        members.finish()
    }
}

impl CompactionContent {
    pub open spec fn members(content: CompactionContentAbs) -> Seq<Seq<char>> {
        seq![
            member_text("exact"@, CompactionExactState::written(content.exact)),
            member_text("semantic"@, SemanticSummary::written(content.semantic)),
        ]
    }
}

impl Written for CompactionContent {
    open spec fn written(content: CompactionContentAbs) -> Seq<char> {
        object_text(CompactionContent::members(content))
    }

    fn write(&self) -> String {
        let members: Members = Members::new().with(
            "exact",
            &self.exact,
        ).with(
            "semantic",
            &self.semantic,
        );
        assert(members@ =~= CompactionContent::members(self.abs()));
        members.finish()
    }
}

impl SkillDefinitionRef {
    pub open spec fn members(content: SkillDefinitionRefAbs) -> Seq<Seq<char>> {
        seq![
            member_text("id"@, PackageId::written(content.id)),
            member_text("version"@, PackageVersion::written(content.version)),
            member_text("digest"@, PackageDigest::written(content.digest)),
        ]
    }
}

impl Written for SkillDefinitionRef {
    open spec fn written(content: SkillDefinitionRefAbs) -> Seq<char> {
        object_text(SkillDefinitionRef::members(content))
    }

    fn write(&self) -> String {
        let members: Members = Members::new().with(
            "id",
            &self.id,
        ).with(
            "version",
            &self.version,
        ).with(
            "digest",
            &self.digest,
        );
        assert(members@ =~= SkillDefinitionRef::members(self.abs()));
        members.finish()
    }
}

impl InstructionBlock {
    pub open spec fn members(content: InstructionBlockAbs) -> Seq<Seq<char>> {
        seq![
            member_text("source"@, InstructionSource::written(content.source)),
            member_text("content"@, Content::written(content.content)),
        ]
    }
}

impl Written for InstructionBlock {
    open spec fn written(content: InstructionBlockAbs) -> Seq<char> {
        object_text(InstructionBlock::members(content))
    }

    fn write(&self) -> String {
        let members: Members = Members::new().with(
            "source",
            &self.source,
        ).with(
            "content",
            &self.content,
        );
        assert(members@ =~= InstructionBlock::members(self.abs()));
        members.finish()
    }
}

/// The members of a failure of that kind.
pub open spec fn invalid_model_output_members(usage: ModelUsage) -> Seq<Seq<char>> {
    seq![
        member_text("usage"@, ModelUsage::written(usage)),
    ]
}

/// The members of a failure of that kind.
pub open spec fn invalid_compaction_output_members(usage: ModelUsage) -> Seq<Seq<char>> {
    seq![
        member_text("usage"@, ModelUsage::written(usage)),
    ]
}

/// The members of a failure of that kind.
pub open spec fn correction_failed_members(
    primary_usage: ModelUsage,
    calls: u64,
    input_tokens: u64,
    output_tokens: u64,
) -> Seq<Seq<char>> {
    seq![
        member_text("primary_usage"@, ModelUsage::written(primary_usage)),
        member_text("calls"@, u64::written(calls)),
        member_text("input_tokens"@, u64::written(input_tokens)),
        member_text("output_tokens"@, u64::written(output_tokens)),
    ]
}

impl Written for AgentOperationFailureKind {
    open spec fn written(content: AgentOperationFailureKindAbs) -> Seq<char> {
        match content {
            AgentOperationFailureKindAbs::InvalidInput => name_text("invalid_input"@),
            AgentOperationFailureKindAbs::InvalidResult => name_text("invalid_result"@),
            AgentOperationFailureKindAbs::IdentityMismatch => name_text("identity_mismatch"@),
            AgentOperationFailureKindAbs::ResultTooLarge => name_text("result_too_large"@),
            AgentOperationFailureKindAbs::Unauthorized => name_text("unauthorized"@),
            AgentOperationFailureKindAbs::Unavailable => name_text("unavailable"@),
            AgentOperationFailureKindAbs::Deadline => name_text("deadline"@),
            AgentOperationFailureKindAbs::Cancelled => name_text("cancelled"@),
            AgentOperationFailureKindAbs::Execution => name_text("execution"@),
            AgentOperationFailureKindAbs::OutcomeUnknown => name_text("outcome_unknown"@),
            AgentOperationFailureKindAbs::ToolLoopDetected => name_text("tool_loop_detected"@),
            AgentOperationFailureKindAbs::InvalidModelOutput { usage } => tagged(
                "invalid_model_output"@,
                object_text(invalid_model_output_members(usage)),
            ),
            AgentOperationFailureKindAbs::InvalidCompactionOutput { usage } => tagged(
                "invalid_compaction_output"@,
                object_text(invalid_compaction_output_members(usage)),
            ),
            AgentOperationFailureKindAbs::CorrectionFailed {
                primary_usage,
                calls,
                input_tokens,
                output_tokens,
            } => tagged(
                "correction_failed"@,
                object_text(
                    correction_failed_members(primary_usage, calls, input_tokens, output_tokens),
                ),
            ),
            AgentOperationFailureKindAbs::ContextExhausted(value) => tagged(
                "context_exhausted"@,
                ContextExhaustion::written(value),
            ),
            AgentOperationFailureKindAbs::CompactionRequired(value) => tagged(
                "compaction_required"@,
                ContextCapacity::written(value),
            ),
        }
    }

    fn write(&self) -> String {
        match self {
            AgentOperationFailureKind::InvalidInput => write_name("invalid_input"),
            AgentOperationFailureKind::InvalidResult => write_name("invalid_result"),
            AgentOperationFailureKind::IdentityMismatch => write_name("identity_mismatch"),
            AgentOperationFailureKind::ResultTooLarge => write_name("result_too_large"),
            AgentOperationFailureKind::Unauthorized => write_name("unauthorized"),
            AgentOperationFailureKind::Unavailable => write_name("unavailable"),
            AgentOperationFailureKind::Deadline => write_name("deadline"),
            AgentOperationFailureKind::Cancelled => write_name("cancelled"),
            AgentOperationFailureKind::Execution => write_name("execution"),
            AgentOperationFailureKind::OutcomeUnknown => write_name("outcome_unknown"),
            AgentOperationFailureKind::ToolLoopDetected => write_name("tool_loop_detected"),
            AgentOperationFailureKind::InvalidModelOutput { usage } => {
                let members: Members = Members::new().with("usage", usage);
                assert(members@ =~= invalid_model_output_members(*usage));
                write_tagged("invalid_model_output", members.finish().as_str())
            },
            AgentOperationFailureKind::InvalidCompactionOutput { usage } => {
                let members: Members = Members::new().with("usage", usage);
                assert(members@ =~= invalid_compaction_output_members(*usage));
                write_tagged("invalid_compaction_output", members.finish().as_str())
            },
            AgentOperationFailureKind::CorrectionFailed {
                primary_usage,
                calls,
                input_tokens,
                output_tokens,
            } => {
                let members: Members = Members::new().with(
                    "primary_usage",
                    primary_usage,
                ).with("calls", calls).with("input_tokens", input_tokens).with(
                    "output_tokens",
                    output_tokens,
                );
                assert(members@ =~= correction_failed_members(
                    *primary_usage,
                    *calls,
                    *input_tokens,
                    *output_tokens,
                ));
                write_tagged("correction_failed", members.finish().as_str())
            },
            AgentOperationFailureKind::ContextExhausted(value) => write_tagged(
                "context_exhausted",
                value.write().as_str(),
            ),
            AgentOperationFailureKind::CompactionRequired(value) => write_tagged(
                "compaction_required",
                value.write().as_str(),
            ),
        }
    }
}

/// The JSON text of what a compaction keeps.
pub open spec fn compaction_text(content: CompactionContentAbs) -> Seq<char> {
    CompactionContent::written(content)
}

} // verus!
