//! Compaction: a summary that takes the place of older messages.

use vstd::prelude::*;

use super::context::{
    budgets_for, measured, CompactionBudgets, ContextCapacity,
};
use super::inference::{
    ModelRuntimeSelection, ModelRuntimeSelectionAbs, ReasoningEffort, ReasoningSelection,
};
use super::memory::{MemoryTopic, MemoryTopicAbs};
use super::operation::{
    AgentOperationDeliveryState, AgentOperationFailureKind, AgentOperationFailureKindAbs,
    AgentOperationKey, AgentOperationKeyAbs, AgentOperationKind, EffectReceipt, EffectReceiptAbs,
    InferenceRealizationRef, InferenceRealizationRefAbs, ModelUsage,
};
use super::run::{ModelSelection, PackageDigest, WorkspaceScope, WorkspaceScopeAbs};
use super::text_form::compaction_text;
use crate::content::{content_failure, Content};
use crate::correlation_id::{AgentRunId, MessageId};
use crate::ids::ToolId;
use crate::text::{blank, is_blank};
use crate::value::{contains_value, contents, Abstract};
use crate::written::Written;

verus! {

/// A compaction that is asked for.
#[derive(Clone, Debug, Eq, PartialEq)]
pub struct CompactionRequest {
    pub context: Vec<MessageId>,
    pub before: ContextCapacity,
    pub correction_of: Option<AgentOperationKey>,
}

/// The content of `CompactionRequest`.
pub struct CompactionRequestAbs {
    pub context: Seq<Seq<char>>,
    pub before: ContextCapacity,
    pub correction_of: Option<AgentOperationKeyAbs>,
}

impl Abstract for CompactionRequest {
    type Abs = CompactionRequestAbs;

    open spec fn abs(&self) -> CompactionRequestAbs {
        CompactionRequestAbs {
            context: self.context.abs(),
            before: self.before.abs(),
            correction_of: self.correction_of.abs(),
        }
    }

    fn duplicate(&self) -> CompactionRequest {
        CompactionRequest {
            context: self.context.duplicate(),
            before: self.before.duplicate(),
            correction_of: self.correction_of.duplicate(),
        }
    }

    fn same(&self, other: &CompactionRequest) -> bool {
        self.context.same(&other.context) && self.before.same(&other.before)
            && self.correction_of.same(&other.correction_of)
    }
}

/// One statement of a summary, with the messages that it rests on.
#[derive(Clone, Debug, Eq, PartialEq)]
pub struct SummaryClaim {
    pub text: String,
    pub sources: Vec<MessageId>,
}

/// The content of `SummaryClaim`.
pub struct SummaryClaimAbs {
    pub text: Seq<char>,
    pub sources: Seq<Seq<char>>,
}

impl Abstract for SummaryClaim {
    type Abs = SummaryClaimAbs;

    open spec fn abs(&self) -> SummaryClaimAbs {
        SummaryClaimAbs {
            text: self.text.abs(),
            sources: self.sources.abs(),
        }
    }

    fn duplicate(&self) -> SummaryClaim {
        SummaryClaim {
            text: self.text.duplicate(),
            sources: self.sources.duplicate(),
        }
    }

    fn same(&self, other: &SummaryClaim) -> bool {
        self.text.same(&other.text) && self.sources.same(&other.sources)
    }
}

/// What a model says of the messages that it summarizes.
#[derive(Clone, Debug, Eq, PartialEq)]
pub struct SemanticSummary {
    pub objective: SummaryClaim,
    pub rationale: Vec<SummaryClaim>,
    pub decisions: Vec<SummaryClaim>,
    pub completed: Vec<SummaryClaim>,
    pub discoveries: Vec<SummaryClaim>,
    pub unresolved: Vec<SummaryClaim>,
    pub next_position: SummaryClaim,
    /// Durable, sourced memory candidates extracted in the same summary pass.
    pub memory: Vec<MemoryTopic>,
}

/// The content of `SemanticSummary`.
pub struct SemanticSummaryAbs {
    pub objective: SummaryClaimAbs,
    pub rationale: Seq<SummaryClaimAbs>,
    pub decisions: Seq<SummaryClaimAbs>,
    pub completed: Seq<SummaryClaimAbs>,
    pub discoveries: Seq<SummaryClaimAbs>,
    pub unresolved: Seq<SummaryClaimAbs>,
    pub next_position: SummaryClaimAbs,
    pub memory: Seq<MemoryTopicAbs>,
}

impl Abstract for SemanticSummary {
    type Abs = SemanticSummaryAbs;

    open spec fn abs(&self) -> SemanticSummaryAbs {
        SemanticSummaryAbs {
            objective: self.objective.abs(),
            rationale: self.rationale.abs(),
            decisions: self.decisions.abs(),
            completed: self.completed.abs(),
            discoveries: self.discoveries.abs(),
            unresolved: self.unresolved.abs(),
            next_position: self.next_position.abs(),
            memory: self.memory.abs(),
        }
    }

    fn duplicate(&self) -> SemanticSummary {
        SemanticSummary {
            objective: self.objective.duplicate(),
            rationale: self.rationale.duplicate(),
            decisions: self.decisions.duplicate(),
            completed: self.completed.duplicate(),
            discoveries: self.discoveries.duplicate(),
            unresolved: self.unresolved.duplicate(),
            next_position: self.next_position.duplicate(),
            memory: self.memory.duplicate(),
        }
    }

    fn same(&self, other: &SemanticSummary) -> bool {
        self.objective.same(&other.objective) && self.rationale.same(&other.rationale)
            && self.decisions.same(&other.decisions) && self.completed.same(&other.completed)
            && self.discoveries.same(&other.discoveries) && self.unresolved.same(&other.unresolved)
            && self.next_position.same(&other.next_position) && self.memory.same(&other.memory)
    }
}

/// Why a claim cannot stand in a summary of the source, if it cannot.
pub open spec fn claim_failure(
    claim: SummaryClaimAbs,
    source: Seq<Seq<char>>,
) -> Option<&'static str> {
    if is_blank(claim.text) {
        Some("summary claim text is empty")
    } else if claim.sources.len() == 0 || exists|i: int|
        0 <= i < claim.sources.len() && !source.contains(#[trigger] claim.sources[i]) {
        Some("summary claim must reference messages in the summarized source")
    } else {
        None
    }
}

/// The failure of the first claim that has one.
pub open spec fn claims_failure(
    claims: Seq<SummaryClaimAbs>,
    source: Seq<Seq<char>>,
) -> Option<&'static str>
    decreases claims.len(),
{
    if claims.len() == 0 {
        None
    } else {
        match claims_failure(claims.drop_last(), source) {
            Some(error) => Some(error),
            None => claim_failure(claims.last(), source),
        }
    }
}

/// The claims of a summary, in order.
pub open spec fn summary_claims(summary: SemanticSummaryAbs) -> Seq<SummaryClaimAbs> {
    seq![summary.objective] + summary.rationale + summary.decisions + summary.completed
        + summary.discoveries + summary.unresolved + seq![summary.next_position]
}

/// The failure of two rows of claims in a row.
proof fn lemma_claims_append(
    left: Seq<SummaryClaimAbs>,
    right: Seq<SummaryClaimAbs>,
    source: Seq<Seq<char>>,
)
    ensures
        claims_failure(left + right, source) == (match claims_failure(left, source) {
            Some(error) => Some(error),
            None => claims_failure(right, source),
        }),
    decreases right.len(),
{
    if right.len() == 0 {
        assert(left + right =~= left);
    } else {
        assert((left + right).drop_last() =~= left + right.drop_last());
        lemma_claims_append(left, right.drop_last(), source);
    }
}

fn validate_summary_claim(claim: &SummaryClaim, source: &[MessageId]) -> (r: Result<
    (),
    &'static str,
>)
    ensures
        r == (match claim_failure(claim.abs(), contents(source@)) {
            Some(error) => Err::<(), &'static str>(error),
            None => Ok(()),
        }),
{
    if blank(claim.text.as_str()) {
        return Err("summary claim text is empty");
    }
    if claim.sources.len() == 0 {
        return Err("summary claim must reference messages in the summarized source");
    }
    let mut i: usize = 0;
    while i < claim.sources.len()
        invariant
            i <= claim.sources@.len(),
            claim.sources@.len() > 0,
            !is_blank(claim.text@),
            forall|k: int|
                0 <= k < i ==> contents(source@).contains(#[trigger] claim.abs().sources[k]),
        decreases claim.sources@.len() - i,
    {
        assert(claim.abs().sources[i as int] == claim.sources@[i as int]@);
        if !contains_value(source, &claim.sources[i]) {
            return Err("summary claim must reference messages in the summarized source");
        }
        i += 1;
    }
    Ok(())
}

fn validate_summary_claims(claims: &Vec<SummaryClaim>, source: &[MessageId]) -> (r: Result<
    (),
    &'static str,
>)
    ensures
        r == (match claims_failure(contents(claims@), contents(source@)) {
            Some(error) => Err::<(), &'static str>(error),
            None => Ok(()),
        }),
{
    let ghost all = contents(claims@);
    let mut i: usize = 0;
    assert(all.take(0) =~= Seq::<SummaryClaimAbs>::empty());
    while i < claims.len()
        invariant
            i <= claims@.len(),
            all == contents(claims@),
            claims_failure(all.take(i as int), contents(source@)) is None,
        decreases claims@.len() - i,
    {
        assert(all.take(i + 1).drop_last() =~= all.take(i as int));
        match validate_summary_claim(&claims[i], source) {
            Ok(_) => {},
            Err(error) => {
                proof {
                    lemma_claims_append(all.take(i + 1), all.skip(i + 1), contents(source@));
                    assert(all.take(i + 1) + all.skip(i + 1) =~= all);
                }
                return Err(error);
            },
        }
        i += 1;
    }
    assert(all.take(i as int) =~= all);
    Ok(())
}

impl SemanticSummary {
    /// Accepts the summary exactly when every claim has a text and rests on
    /// messages of the source.
    pub fn validate(&self, source: &[MessageId]) -> (r: Result<(), &'static str>)
        ensures
            r == (match claims_failure(summary_claims(self.abs()), contents(source@)) {
                Some(error) => Err::<(), &'static str>(error),
                None => Ok(()),
            }),
    {
        let ghost sources = contents(source@);
        let ghost abs = self.abs();
        proof {
            let first = seq![abs.objective];
            let last = seq![abs.next_position];
            assert(first.drop_last() =~= Seq::<SummaryClaimAbs>::empty());
            assert(last.drop_last() =~= Seq::<SummaryClaimAbs>::empty());
            assert(claims_failure(first.drop_last(), sources) is None);
            assert(claims_failure(last.drop_last(), sources) is None);
            let a = first + abs.rationale;
            let b = a + abs.decisions;
            let c = b + abs.completed;
            let d = c + abs.discoveries;
            let e = d + abs.unresolved;
            lemma_claims_append(first, abs.rationale, sources);
            lemma_claims_append(a, abs.decisions, sources);
            lemma_claims_append(b, abs.completed, sources);
            lemma_claims_append(c, abs.discoveries, sources);
            lemma_claims_append(d, abs.unresolved, sources);
            lemma_claims_append(e, last, sources);
        }
        if let Err(error) = validate_summary_claim(&self.objective, source) {
            return Err(error);
        }
        if let Err(error) = validate_summary_claims(&self.rationale, source) {
            return Err(error);
        }
        if let Err(error) = validate_summary_claims(&self.decisions, source) {
            return Err(error);
        }
        if let Err(error) = validate_summary_claims(&self.completed, source) {
            return Err(error);
        }
        if let Err(error) = validate_summary_claims(&self.discoveries, source) {
            return Err(error);
        }
        if let Err(error) = validate_summary_claims(&self.unresolved, source) {
            return Err(error);
        }
        validate_summary_claim(&self.next_position, source)
    }
}

/// A summary is accepted exactly when each of its claims is.
pub proof fn accepted_summary_claims(summary: SemanticSummaryAbs, source: Seq<Seq<char>>)
    ensures
        claims_failure(summary_claims(summary), source) is None <==> forall|i: int|
            0 <= i < summary_claims(summary).len() ==> claim_failure(
                #[trigger] summary_claims(summary)[i],
                source,
            ) is None,
{
    lemma_claims_accepted(summary_claims(summary), source);
}

proof fn lemma_claims_accepted(claims: Seq<SummaryClaimAbs>, source: Seq<Seq<char>>)
    ensures
        claims_failure(claims, source) is None <==> forall|i: int|
            0 <= i < claims.len() ==> claim_failure(#[trigger] claims[i], source) is None,
    decreases claims.len(),
{
    if claims.len() > 0 {
        let rest = claims.drop_last();
        lemma_claims_accepted(rest, source);
        if claims_failure(claims, source) is None {
            assert forall|i: int| 0 <= i < claims.len() implies claim_failure(
                #[trigger] claims[i],
                source,
            ) is None by {
                if i < claims.len() - 1 {
                    assert(rest[i] == claims[i]);
                }
            }
        } else if forall|i: int|
            0 <= i < claims.len() ==> claim_failure(#[trigger] claims[i], source) is None {
            assert forall|i: int| 0 <= i < rest.len() implies claim_failure(
                #[trigger] rest[i],
                source,
            ) is None by {
                assert(rest[i] == claims[i]);
            }
            assert(claims.last() == claims[claims.len() - 1]);
        }
    }
}

/// Lines of a file that were read.
#[derive(Clone, Debug, Eq, PartialEq)]
pub struct InspectedFileRange {
    pub start_line: u64,
    pub end_line: u64,
}

/// The content of `InspectedFileRange`.
pub struct InspectedFileRangeAbs {
    pub start_line: u64,
    pub end_line: u64,
}

impl Abstract for InspectedFileRange {
    type Abs = InspectedFileRangeAbs;

    open spec fn abs(&self) -> InspectedFileRangeAbs {
        InspectedFileRangeAbs {
            start_line: self.start_line.abs(),
            end_line: self.end_line.abs(),
        }
    }

    fn duplicate(&self) -> InspectedFileRange {
        InspectedFileRange {
            start_line: self.start_line.duplicate(),
            end_line: self.end_line.duplicate(),
        }
    }

    fn same(&self, other: &InspectedFileRange) -> bool {
        self.start_line.same(&other.start_line) && self.end_line.same(&other.end_line)
    }
}

/// A file that was read.
#[derive(Clone, Debug, Eq, PartialEq)]
pub struct InspectedFileFact {
    pub path: String,
    pub digest: String,
    pub ranges: Vec<InspectedFileRange>,
    pub sources: Vec<MessageId>,
}

/// The content of `InspectedFileFact`.
pub struct InspectedFileFactAbs {
    pub path: Seq<char>,
    pub digest: Seq<char>,
    pub ranges: Seq<InspectedFileRangeAbs>,
    pub sources: Seq<Seq<char>>,
}

impl Abstract for InspectedFileFact {
    type Abs = InspectedFileFactAbs;

    open spec fn abs(&self) -> InspectedFileFactAbs {
        InspectedFileFactAbs {
            path: self.path.abs(),
            digest: self.digest.abs(),
            ranges: self.ranges.abs(),
            sources: self.sources.abs(),
        }
    }

    fn duplicate(&self) -> InspectedFileFact {
        InspectedFileFact {
            path: self.path.duplicate(),
            digest: self.digest.duplicate(),
            ranges: self.ranges.duplicate(),
            sources: self.sources.duplicate(),
        }
    }

    fn same(&self, other: &InspectedFileFact) -> bool {
        self.path.same(&other.path) && self.digest.same(&other.digest)
            && self.ranges.same(&other.ranges) && self.sources.same(&other.sources)
    }
}

/// What became of operations.
#[derive(Clone, Debug, Eq, PartialEq)]
pub struct OperationFact {
    pub kind: AgentOperationKind,
    pub tool_id: Option<ToolId>,
    pub status: AgentOperationDeliveryState,
    pub failure: Option<AgentOperationFailureKind>,
    pub effect_receipts: Vec<EffectReceipt>,
}

/// The content of `OperationFact`.
pub struct OperationFactAbs {
    pub kind: AgentOperationKind,
    pub tool_id: Option<Seq<char>>,
    pub status: AgentOperationDeliveryState,
    pub failure: Option<AgentOperationFailureKindAbs>,
    pub effect_receipts: Seq<EffectReceiptAbs>,
}

impl Abstract for OperationFact {
    type Abs = OperationFactAbs;

    open spec fn abs(&self) -> OperationFactAbs {
        OperationFactAbs {
            kind: self.kind.abs(),
            tool_id: self.tool_id.abs(),
            status: self.status.abs(),
            failure: self.failure.abs(),
            effect_receipts: self.effect_receipts.abs(),
        }
    }

    fn duplicate(&self) -> OperationFact {
        OperationFact {
            kind: self.kind.duplicate(),
            tool_id: self.tool_id.duplicate(),
            status: self.status.duplicate(),
            failure: self.failure.duplicate(),
            effect_receipts: self.effect_receipts.duplicate(),
        }
    }

    fn same(&self, other: &OperationFact) -> bool {
        self.kind.same(&other.kind) && self.tool_id.same(&other.tool_id)
            && self.status.same(&other.status) && self.failure.same(&other.failure)
            && self.effect_receipts.same(&other.effect_receipts)
    }
}

/// Operations of which the same holds.
#[derive(Clone, Debug, Eq, PartialEq)]
pub struct FoldedOperationFact {
    pub fact: OperationFact,
    pub count: u64,
    pub first: AgentOperationKey,
    pub last: AgentOperationKey,
    pub sources: Vec<AgentOperationKey>,
}

/// The content of `FoldedOperationFact`.
pub struct FoldedOperationFactAbs {
    pub fact: OperationFactAbs,
    pub count: u64,
    pub first: AgentOperationKeyAbs,
    pub last: AgentOperationKeyAbs,
    pub sources: Seq<AgentOperationKeyAbs>,
}

impl Abstract for FoldedOperationFact {
    type Abs = FoldedOperationFactAbs;

    open spec fn abs(&self) -> FoldedOperationFactAbs {
        FoldedOperationFactAbs {
            fact: self.fact.abs(),
            count: self.count.abs(),
            first: self.first.abs(),
            last: self.last.abs(),
            sources: self.sources.abs(),
        }
    }

    fn duplicate(&self) -> FoldedOperationFact {
        FoldedOperationFact {
            fact: self.fact.duplicate(),
            count: self.count.duplicate(),
            first: self.first.duplicate(),
            last: self.last.duplicate(),
            sources: self.sources.duplicate(),
        }
    }

    fn same(&self, other: &FoldedOperationFact) -> bool {
        self.fact.same(&other.fact) && self.count.same(&other.count)
            && self.first.same(&other.first) && self.last.same(&other.last)
            && self.sources.same(&other.sources)
    }
}

/// Exact structured facts are built by the daemon, never decoded from model
/// output.
#[derive(Clone, Debug, Eq, PartialEq)]
pub struct CompactionExactState {
    pub snapshot_run: AgentRunId,
    pub snapshot_digest: PackageDigest,
    pub workspace: WorkspaceScope,
    pub operations: Vec<FoldedOperationFact>,
    pub inspected_files: Vec<InspectedFileFact>,
}

/// The content of `CompactionExactState`.
pub struct CompactionExactStateAbs {
    pub snapshot_run: Seq<u8>,
    pub snapshot_digest: Seq<u8>,
    pub workspace: WorkspaceScopeAbs,
    pub operations: Seq<FoldedOperationFactAbs>,
    pub inspected_files: Seq<InspectedFileFactAbs>,
}

impl Abstract for CompactionExactState {
    type Abs = CompactionExactStateAbs;

    open spec fn abs(&self) -> CompactionExactStateAbs {
        CompactionExactStateAbs {
            snapshot_run: self.snapshot_run.abs(),
            snapshot_digest: self.snapshot_digest.abs(),
            workspace: self.workspace.abs(),
            operations: self.operations.abs(),
            inspected_files: self.inspected_files.abs(),
        }
    }

    fn duplicate(&self) -> CompactionExactState {
        CompactionExactState {
            snapshot_run: self.snapshot_run.duplicate(),
            snapshot_digest: self.snapshot_digest.duplicate(),
            workspace: self.workspace.duplicate(),
            operations: self.operations.duplicate(),
            inspected_files: self.inspected_files.duplicate(),
        }
    }

    fn same(&self, other: &CompactionExactState) -> bool {
        self.snapshot_run.same(&other.snapshot_run)
            && self.snapshot_digest.same(&other.snapshot_digest)
            && self.workspace.same(&other.workspace) && self.operations.same(&other.operations)
            && self.inspected_files.same(&other.inspected_files)
    }
}

/// What a compaction keeps.
#[derive(Clone, Debug, Eq, PartialEq)]
pub struct CompactionContent {
    pub exact: CompactionExactState,
    pub semantic: SemanticSummary,
}

/// The content of `CompactionContent`.
pub struct CompactionContentAbs {
    pub exact: CompactionExactStateAbs,
    pub semantic: SemanticSummaryAbs,
}

impl Abstract for CompactionContent {
    type Abs = CompactionContentAbs;

    open spec fn abs(&self) -> CompactionContentAbs {
        CompactionContentAbs {
            exact: self.exact.abs(),
            semantic: self.semantic.abs(),
        }
    }

    fn duplicate(&self) -> CompactionContent {
        CompactionContent {
            exact: self.exact.duplicate(),
            semantic: self.semantic.duplicate(),
        }
    }

    fn same(&self, other: &CompactionContent) -> bool {
        self.exact.same(&other.exact) && self.semantic.same(&other.semantic)
    }
}

/// Why a compaction is no message content, if it is none.
pub open spec fn rendering_failure(content: CompactionContentAbs) -> Option<&'static str> {
    if content_failure(compaction_text(content)) is Some {
        Some("compaction content exceeds the content limit")
    } else {
        None
    }
}

impl CompactionContent {
    /// The message content of this compaction: its JSON text.
    pub fn render(&self) -> (r: Result<Content, &'static str>)
        ensures
            match r {
                Ok(content) => rendering_failure(self.abs()) is None && content@
                    == compaction_text(self.abs()),
                Err(error) => rendering_failure(self.abs()) == Some(error),
            },
    {
        let json: String = self.write();
        match Content::text(json.as_str()) {
            Ok(content) => Ok(content),
            Err(_) => Err("compaction content exceeds the content limit"),
        }
    }
}

/// What was measured of a compaction.
#[derive(Clone, Debug, Eq, PartialEq)]
pub struct CompactionMetadata {
    pub source_start: MessageId,
    pub source_end: MessageId,
    pub source: Vec<MessageId>,
    pub retained_checkpoints: Vec<MessageId>,
    pub tail_first: Option<MessageId>,
    pub tail: Vec<MessageId>,
    pub tail_tokens: u64,
    pub summary_tokens: u64,
    pub before: ContextCapacity,
    pub summary_request: ContextCapacity,
    pub after: ContextCapacity,
    pub tokenizer_artifact: PackageDigest,
    pub realization: InferenceRealizationRef,
    pub summary_operation: AgentOperationKey,
    pub correction_of: Option<AgentOperationKey>,
    pub reasoning: ReasoningSelection,
    pub usage: ModelUsage,
}

/// The content of `CompactionMetadata`.
pub struct CompactionMetadataAbs {
    pub source_start: Seq<char>,
    pub source_end: Seq<char>,
    pub source: Seq<Seq<char>>,
    pub retained_checkpoints: Seq<Seq<char>>,
    pub tail_first: Option<Seq<char>>,
    pub tail: Seq<Seq<char>>,
    pub tail_tokens: u64,
    pub summary_tokens: u64,
    pub before: ContextCapacity,
    pub summary_request: ContextCapacity,
    pub after: ContextCapacity,
    pub tokenizer_artifact: Seq<u8>,
    pub realization: InferenceRealizationRefAbs,
    pub summary_operation: AgentOperationKeyAbs,
    pub correction_of: Option<AgentOperationKeyAbs>,
    pub reasoning: ReasoningSelection,
    pub usage: ModelUsage,
}

impl Abstract for CompactionMetadata {
    type Abs = CompactionMetadataAbs;

    open spec fn abs(&self) -> CompactionMetadataAbs {
        CompactionMetadataAbs {
            source_start: self.source_start.abs(),
            source_end: self.source_end.abs(),
            source: self.source.abs(),
            retained_checkpoints: self.retained_checkpoints.abs(),
            tail_first: self.tail_first.abs(),
            tail: self.tail.abs(),
            tail_tokens: self.tail_tokens.abs(),
            summary_tokens: self.summary_tokens.abs(),
            before: self.before.abs(),
            summary_request: self.summary_request.abs(),
            after: self.after.abs(),
            tokenizer_artifact: self.tokenizer_artifact.abs(),
            realization: self.realization.abs(),
            summary_operation: self.summary_operation.abs(),
            correction_of: self.correction_of.abs(),
            reasoning: self.reasoning.abs(),
            usage: self.usage.abs(),
        }
    }

    fn duplicate(&self) -> CompactionMetadata {
        CompactionMetadata {
            source_start: self.source_start.duplicate(),
            source_end: self.source_end.duplicate(),
            source: self.source.duplicate(),
            retained_checkpoints: self.retained_checkpoints.duplicate(),
            tail_first: self.tail_first.duplicate(),
            tail: self.tail.duplicate(),
            tail_tokens: self.tail_tokens.duplicate(),
            summary_tokens: self.summary_tokens.duplicate(),
            before: self.before.duplicate(),
            summary_request: self.summary_request.duplicate(),
            after: self.after.duplicate(),
            tokenizer_artifact: self.tokenizer_artifact.duplicate(),
            realization: self.realization.duplicate(),
            summary_operation: self.summary_operation.duplicate(),
            correction_of: self.correction_of.duplicate(),
            reasoning: self.reasoning.duplicate(),
            usage: self.usage.duplicate(),
        }
    }

    fn same(&self, other: &CompactionMetadata) -> bool {
        self.source_start.same(&other.source_start) && self.source_end.same(&other.source_end)
            && self.source.same(&other.source)
            && self.retained_checkpoints.same(&other.retained_checkpoints)
            && self.tail_first.same(&other.tail_first) && self.tail.same(&other.tail)
            && self.tail_tokens.same(&other.tail_tokens)
            && self.summary_tokens.same(&other.summary_tokens) && self.before.same(&other.before)
            && self.summary_request.same(&other.summary_request) && self.after.same(&other.after)
            && self.tokenizer_artifact.same(&other.tokenizer_artifact)
            && self.realization.same(&other.realization)
            && self.summary_operation.same(&other.summary_operation)
            && self.correction_of.same(&other.correction_of)
            && self.reasoning.same(&other.reasoning) && self.usage.same(&other.usage)
    }
}

/// The result of a compaction.
#[derive(Clone, Debug, Eq, PartialEq)]
pub struct CompactionResult {
    pub content: CompactionContent,
    pub metadata: CompactionMetadata,
}

/// The content of `CompactionResult`.
pub struct CompactionResultAbs {
    pub content: CompactionContentAbs,
    pub metadata: CompactionMetadataAbs,
}

impl Abstract for CompactionResult {
    type Abs = CompactionResultAbs;

    open spec fn abs(&self) -> CompactionResultAbs {
        CompactionResultAbs {
            content: self.content.abs(),
            metadata: self.metadata.abs(),
        }
    }

    fn duplicate(&self) -> CompactionResult {
        CompactionResult {
            content: self.content.duplicate(),
            metadata: self.metadata.duplicate(),
        }
    }

    fn same(&self, other: &CompactionResult) -> bool {
        self.content.same(&other.content) && self.metadata.same(&other.metadata)
    }
}

/// Where a compaction failed.
#[derive(Clone, Copy, Debug, Eq, PartialEq, Structural)]
pub enum CompactionFailureStage {
    SummarySource,
    SemanticOutput,
    RebuiltInput,
    Inference,
}

impl Abstract for CompactionFailureStage {
    type Abs = CompactionFailureStage;

    open spec fn abs(&self) -> CompactionFailureStage {
        *self
    }

    fn duplicate(&self) -> CompactionFailureStage {
        *self
    }

    fn same(&self, other: &CompactionFailureStage) -> bool {
        *self == *other
    }
}

/// Exact measurements of isolated source ranges including the request's
/// instructions and template. These counts are not additive token estimates.
#[derive(Clone, Debug, Eq, PartialEq)]
pub struct SourceTokenContribution {
    pub source_start: MessageId,
    pub source_end: MessageId,
    pub isolated_prompt_tokens: u64,
}

/// The content of `SourceTokenContribution`.
pub struct SourceTokenContributionAbs {
    pub source_start: Seq<char>,
    pub source_end: Seq<char>,
    pub isolated_prompt_tokens: u64,
}

impl Abstract for SourceTokenContribution {
    type Abs = SourceTokenContributionAbs;

    open spec fn abs(&self) -> SourceTokenContributionAbs {
        SourceTokenContributionAbs {
            source_start: self.source_start.abs(),
            source_end: self.source_end.abs(),
            isolated_prompt_tokens: self.isolated_prompt_tokens.abs(),
        }
    }

    fn duplicate(&self) -> SourceTokenContribution {
        SourceTokenContribution {
            source_start: self.source_start.duplicate(),
            source_end: self.source_end.duplicate(),
            isolated_prompt_tokens: self.isolated_prompt_tokens.duplicate(),
        }
    }

    fn same(&self, other: &SourceTokenContribution) -> bool {
        self.source_start.same(&other.source_start) && self.source_end.same(&other.source_end)
            && self.isolated_prompt_tokens.same(&other.isolated_prompt_tokens)
    }
}

/// A failed compaction.
#[derive(Clone, Debug, Eq, PartialEq)]
pub struct CompactionFailure {
    pub stage: CompactionFailureStage,
    pub model_called: bool,
    pub usage: Option<ModelUsage>,
    pub summary_source_start: Option<MessageId>,
    pub summary_source_end: Option<MessageId>,
    pub source_contributions: Vec<SourceTokenContribution>,
}

/// The content of `CompactionFailure`.
pub struct CompactionFailureAbs {
    pub stage: CompactionFailureStage,
    pub model_called: bool,
    pub usage: Option<ModelUsage>,
    pub summary_source_start: Option<Seq<char>>,
    pub summary_source_end: Option<Seq<char>>,
    pub source_contributions: Seq<SourceTokenContributionAbs>,
}

impl Abstract for CompactionFailure {
    type Abs = CompactionFailureAbs;

    open spec fn abs(&self) -> CompactionFailureAbs {
        CompactionFailureAbs {
            stage: self.stage.abs(),
            model_called: self.model_called.abs(),
            usage: self.usage.abs(),
            summary_source_start: self.summary_source_start.abs(),
            summary_source_end: self.summary_source_end.abs(),
            source_contributions: self.source_contributions.abs(),
        }
    }

    fn duplicate(&self) -> CompactionFailure {
        CompactionFailure {
            stage: self.stage.duplicate(),
            model_called: self.model_called.duplicate(),
            usage: self.usage.duplicate(),
            summary_source_start: self.summary_source_start.duplicate(),
            summary_source_end: self.summary_source_end.duplicate(),
            source_contributions: self.source_contributions.duplicate(),
        }
    }

    fn same(&self, other: &CompactionFailure) -> bool {
        self.stage.same(&other.stage) && self.model_called.same(&other.model_called)
            && self.usage.same(&other.usage)
            && self.summary_source_start.same(&other.summary_source_start)
            && self.summary_source_end.same(&other.summary_source_end)
            && self.source_contributions.same(&other.source_contributions)
    }
}

/// The reasoning of a summary.
pub open spec fn summary_reasoning(supports_low: bool, budgets: CompactionBudgets) -> ReasoningSelection {
    if supports_low {
        ReasoningSelection::Enabled {
            effort: Some(ReasoningEffort::Low),
            max_tokens: budgets.summary_reasoning_tokens as u32,
            preserve: false,
        }
    } else {
        ReasoningSelection::Disabled
    }
}

/// The budgets of a summary by a model.
pub open spec fn model_budgets(model: ModelSelection) -> Option<CompactionBudgets> {
    budgets_for(
        model.runtime.load.context_tokens,
        model.runtime.generation.max_output_tokens,
        model.reasoning_efforts@.contains(ReasoningEffort::Low),
    )
}

/// The runtime that a model summarizes with: its own, with the output and
/// reasoning budgets of a summary.
pub open spec fn summarizing(model: ModelSelection) -> Option<ModelRuntimeSelectionAbs> {
    match model_budgets(model) {
        None => None,
        Some(budgets) => {
            let runtime = model.runtime.abs();
            Some(
                ModelRuntimeSelectionAbs {
                    generation: super::inference::GenerationSettingsAbs {
                        max_output_tokens: budgets.summary_output_tokens,
                        ..runtime.generation
                    },
                    reasoning: summary_reasoning(
                        model.reasoning_efforts@.contains(ReasoningEffort::Low),
                        budgets,
                    ),
                    ..runtime
                },
            )
        },
    }
}

/// Whether a model can reason with low effort.
fn supports_low(model: &ModelSelection) -> (b: bool)
    ensures
        b == model.reasoning_efforts@.contains(ReasoningEffort::Low),
{
    let mut i: usize = 0;
    while i < model.reasoning_efforts.len()
        invariant
            i <= model.reasoning_efforts@.len(),
            forall|k: int| 0 <= k < i ==> model.reasoning_efforts@[k] != ReasoningEffort::Low,
        decreases model.reasoning_efforts@.len() - i,
    {
        if model.reasoning_efforts[i] == ReasoningEffort::Low {
            return true;
        }
        i += 1;
    }
    false
}

pub fn summary_runtime(model: &ModelSelection) -> (r: Option<ModelRuntimeSelection>)
    ensures
        r.abs() == summarizing(*model),
{
    let low: bool = supports_low(model);
    match CompactionBudgets::new(
        model.runtime.load.context_tokens,
        model.runtime.generation.max_output_tokens,
        low,
    ) {
        None => None,
        Some(budgets) => {
            let mut runtime: ModelRuntimeSelection = model.runtime.duplicate();
            runtime.generation.max_output_tokens = budgets.summary_output_tokens;
            runtime.reasoning = if low {
                ReasoningSelection::Enabled {
                    effort: Some(ReasoningEffort::Low),
                    max_tokens: budgets.summary_reasoning_tokens as u32,
                    preserve: false,
                }
            } else {
                ReasoningSelection::Disabled
            };
            Some(runtime)
        },
    }
}

/// Why the measurements do not belong to a model, if they do not.
pub open spec fn metadata_failure(
    metadata: CompactionMetadata,
    model: ModelSelection,
) -> Option<&'static str> {
    let capacity = model.runtime.load.context_tokens;
    match summarizing(model) {
        None => Some("invalid summary budget"),
        Some(runtime) => match budgets_for(
            capacity,
            metadata.before.reserved_output_tokens,
            false,
        ) {
            None => Some("invalid rebuilt context budget"),
            Some(budgets) => if {
                &&& metadata.tokenizer_artifact@ == runtime.artifact.digest
                &&& metadata.reasoning == runtime.reasoning
                &&& metadata.before.reserved_output_tokens
                    <= model.runtime.generation.max_output_tokens
                &&& metadata.summary_request == measured(
                    metadata.summary_request.prompt_tokens,
                    runtime.generation.max_output_tokens,
                    capacity,
                )
                &&& metadata.after == measured(
                    metadata.after.prompt_tokens,
                    metadata.before.reserved_output_tokens,
                    capacity,
                )
                &&& metadata.before == measured(
                    metadata.before.prompt_tokens,
                    metadata.before.reserved_output_tokens,
                    capacity,
                )
                &&& metadata.summary_request.is_fitting()
                &&& metadata.after.prompt_tokens <= budgets.rebuilt_input_target
                &&& metadata.usage.output_tokens <= runtime.generation.max_output_tokens
            } {
                None
            } else {
                Some("compaction metadata does not match the admitted model")
            },
        },
    }
}

impl CompactionMetadata {
    /// Check durable measurements against the admitted model, not
    /// model-authored text.
    pub fn validate_model(&self, model: &ModelSelection) -> (r: Result<(), &'static str>)
        ensures
            r == (match metadata_failure(*self, *model) {
                Some(error) => Err::<(), &'static str>(error),
                None => Ok(()),
            }),
    {
        let capacity: u32 = model.runtime.load.context_tokens;
        let runtime: ModelRuntimeSelection = match summary_runtime(model) {
            Some(runtime) => runtime,
            None => {
                return Err("invalid summary budget");
            },
        };
        let budgets: CompactionBudgets = match CompactionBudgets::new(
            capacity,
            self.before.reserved_output_tokens,
            false,
        ) {
            Some(budgets) => budgets,
            None => {
                return Err("invalid rebuilt context budget");
            },
        };
        if !self.tokenizer_artifact.same(&runtime.artifact.digest) || self.reasoning
            != runtime.reasoning || self.before.context_capacity_tokens != capacity
            || self.before.reserved_output_tokens > model.runtime.generation.max_output_tokens
            || self.summary_request != ContextCapacity::new(
            self.summary_request.prompt_tokens,
            runtime.generation.max_output_tokens,
            capacity,
        ) || self.after != ContextCapacity::new(
            self.after.prompt_tokens,
            self.before.reserved_output_tokens,
            capacity,
        ) || self.before != ContextCapacity::new(
            self.before.prompt_tokens,
            self.before.reserved_output_tokens,
            capacity,
        ) || !self.summary_request.fits() || self.after.prompt_tokens
            > budgets.rebuilt_input_target || self.usage.output_tokens
            > runtime.generation.max_output_tokens {
            return Err("compaction metadata does not match the admitted model");
        }
        Ok(())
    }
}

} // verus!
