//! When a summary is accepted, and what its budgets are.

use vstd::prelude::*;

use super::compaction::{
    accepted_summary_claims, claim_failure, claims_failure, rendering_failure, summary_claims,
    CompactionContent, SemanticSummary, SummaryClaim, SummaryClaimAbs,
};
use super::context::{budgets_for, measured};
use super::text_form::compaction_text;
use crate::correlation_id::MessageId;
use crate::text::is_whitespace;
use crate::value::{contents, Abstract};

verus! {

/// Whether a message is one of some messages.
pub open spec fn is_among(id: MessageId, source: Seq<MessageId>) -> bool {
    exists|m: int| 0 <= m < source.len() && (#[trigger] source[m])@ == id@
}

/// Whether a claim says something and rests on the given messages only: there
/// is a character that is no white space, there is a source, and every source
/// is one of the messages.
pub open spec fn is_founded(claim: SummaryClaim, source: Seq<MessageId>) -> bool {
    &&& exists|i: int| 0 <= i < claim.text@.len() && !is_whitespace(#[trigger] claim.text@[i])
    &&& claim.sources@.len() > 0
    &&& forall|k: int|
        0 <= k < claim.sources@.len() ==> is_among(#[trigger] claim.sources@[k], source)
}

/// Whether all of some claims are founded.
pub open spec fn are_founded(claims: Seq<SummaryClaim>, source: Seq<MessageId>) -> bool {
    forall|i: int| 0 <= i < claims.len() ==> is_founded(#[trigger] claims[i], source)
}

proof fn lemma_founded(claim: SummaryClaim, source: Seq<MessageId>)
    ensures
        claim_failure(claim.abs(), contents(source)) is None <==> is_founded(claim, source),
{
    let all = contents(source);
    let abs = claim.abs();
    assert(abs.text == claim.text@);
    assert(abs.sources.len() == claim.sources@.len());
    assert forall|k: int| 0 <= k < claim.sources@.len() implies (all.contains(
        #[trigger] abs.sources[k],
    ) <==> is_among(claim.sources@[k], source)) by {
        assert(abs.sources[k] == claim.sources@[k]@);
        if all.contains(abs.sources[k]) {
            let m = choose|m: int| 0 <= m < all.len() && all[m] == abs.sources[k];
            assert(source[m]@ == claim.sources@[k]@);
        }
        if is_among(claim.sources@[k], source) {
            let m = choose|m: int|
                0 <= m < source.len() && (#[trigger] source[m])@ == claim.sources@[k]@;
            assert(all[m] == abs.sources[k]);
        }
    }
    if is_founded(claim, source) {
        let i = choose|i: int| 0 <= i < claim.text@.len() && !is_whitespace(
            #[trigger] claim.text@[i],
        );
        assert(!is_whitespace(abs.text[i]));
        assert forall|k: int| 0 <= k < abs.sources.len() implies all.contains(
            #[trigger] abs.sources[k],
        ) by {
            assert(is_among(claim.sources@[k], source));
        }
    }
    if claim_failure(abs, all) is None {
        let i = choose|i: int| 0 <= i < abs.text.len() && !is_whitespace(#[trigger] abs.text[i]);
        assert(!is_whitespace(claim.text@[i]));
        assert forall|k: int| 0 <= k < claim.sources@.len() implies is_among(
            #[trigger] claim.sources@[k],
            source,
        ) by {
            assert(all.contains(abs.sources[k]));
        }
    }
}

proof fn lemma_part(
    all: Seq<SummaryClaimAbs>,
    from: int,
    claims: Seq<SummaryClaim>,
    source: Seq<MessageId>,
)
    requires
        0 <= from,
        from + claims.len() <= all.len(),
        forall|i: int| 0 <= i < claims.len() ==> all[from + i] == (#[trigger] claims[i]).abs(),
    ensures
        are_founded(claims, source) <==> forall|i: int|
            from <= i < from + claims.len() ==> claim_failure(#[trigger] all[i], contents(source))
                is None,
{
    if are_founded(claims, source) {
        assert forall|i: int| from <= i < from + claims.len() implies claim_failure(
            #[trigger] all[i],
            contents(source),
        ) is None by {
            assert(all[from + (i - from)] == claims[i - from].abs());
            lemma_founded(claims[i - from], source);
        }
    }
    if forall|i: int|
        from <= i < from + claims.len() ==> claim_failure(#[trigger] all[i], contents(source))
            is None {
        assert forall|i: int| 0 <= i < claims.len() implies is_founded(
            #[trigger] claims[i],
            source,
        ) by {
            assert(claim_failure(all[from + i], contents(source)) is None);
            lemma_founded(claims[i], source);
        }
    }
}

/// A summary is accepted exactly when its objective, its next position and
/// every claim of its rationale, its decisions, what it completed, what it
/// discovered and what it left unresolved say something and rest on the
/// summarized messages.
pub proof fn accepted_summaries_are_founded(summary: SemanticSummary, source: Seq<MessageId>)
    ensures
        claims_failure(summary_claims(summary.abs()), contents(source)) is None <==> {
            &&& is_founded(summary.objective, source)
            &&& are_founded(summary.rationale@, source)
            &&& are_founded(summary.decisions@, source)
            &&& are_founded(summary.completed@, source)
            &&& are_founded(summary.discoveries@, source)
            &&& are_founded(summary.unresolved@, source)
            &&& is_founded(summary.next_position, source)
        },
{
    let abs = summary.abs();
    let all = summary_claims(abs);
    let given = contents(source);
    let a = 1 + summary.rationale@.len();
    let b = a + summary.decisions@.len();
    let c = b + summary.completed@.len();
    let d = c + summary.discoveries@.len();
    let e = d + summary.unresolved@.len();
    accepted_summary_claims(abs, given);
    lemma_founded(summary.objective, source);
    lemma_founded(summary.next_position, source);
    assert(all[0] == summary.objective.abs());
    assert(all.len() == e + 1);
    assert(all[e as int] == summary.next_position.abs());
    lemma_part(all, 1, summary.rationale@, source);
    lemma_part(all, a as int, summary.decisions@, source);
    lemma_part(all, b as int, summary.completed@, source);
    lemma_part(all, c as int, summary.discoveries@, source);
    lemma_part(all, d as int, summary.unresolved@, source);
    if is_founded(summary.objective, source) && are_founded(summary.rationale@, source)
        && are_founded(summary.decisions@, source) && are_founded(summary.completed@, source)
        && are_founded(summary.discoveries@, source) && are_founded(summary.unresolved@, source)
        && is_founded(summary.next_position, source) {
        assert forall|i: int| 0 <= i < all.len() implies claim_failure(
            #[trigger] all[i],
            given,
        ) is None by {
            assert(i == 0 || 1 <= i < a || a <= i < b || b <= i < c || c <= i < d || d <= i < e || i
                == e);
        }
    }
}

/// The error of a claim tells what it lacks: a claim without anything said is
/// refused for its text, and one that says something for its sources.
pub proof fn unfounded_claims_are_told(claim: SummaryClaim, source: Seq<MessageId>)
    requires
        !is_founded(claim, source),
    ensures
        claim_failure(claim.abs(), contents(source)) == Some(
            if exists|i: int|
                0 <= i < claim.text@.len() && !is_whitespace(#[trigger] claim.text@[i]) {
                "summary claim must reference messages in the summarized source"
            } else {
                "summary claim text is empty"
            },
        ),
{
    lemma_founded(claim, source);
    assert(claim.abs().text == claim.text@);
}

/// A compaction is a message exactly when its text is no longer than a message
/// may be.
pub proof fn renderings_are_bounded(content: CompactionContent)
    ensures
        rendering_failure(content.abs()) is None <==> {
            let bytes = vstd::utf8::encode_utf8(compaction_text(content.abs())).len();
            bytes <= 1_048_576
        },
{
    reveal_strlit("{");
    assert(compaction_text(content.abs()).len() > 0);
}

// ---------------------------------------------------------------------------
// Budgets
// ---------------------------------------------------------------------------

/// A prompt needs a compaction from seven tenths of the capacity on, or where
/// it leaves no room for the reserved output.
pub proof fn compactions_are_needed(prompt: u64, reserved: u64, capacity: u32)
    ensures
        measured(prompt, reserved, capacity).is_over() <==> 10 * prompt >= 7 * capacity || prompt
            + reserved > capacity,
        measured(prompt, reserved, capacity).is_fitting() <==> prompt + reserved <= capacity,
        measured(prompt, reserved, capacity).prompt_tokens == prompt,
        measured(prompt, reserved, capacity).reserved_output_tokens == reserved,
        measured(prompt, reserved, capacity).context_capacity_tokens == capacity,
{
}

/// There are budgets exactly where the work output fits into the capacity. A
/// summary may take an eighth of the capacity, 16384 tokens at most, a quarter
/// of it for reasoning where that is supported; the rebuilt input and the
/// recent tail may take a tenth each.
pub proof fn budgets_are_shares(capacity: u32, work: u64, supports_low: bool)
    ensures
        budgets_for(capacity, work, supports_low) is Some <==> work <= capacity,
        work <= capacity ==> ({
            let budgets = budgets_for(capacity, work, supports_low)->Some_0;
            let summary = budgets.summary_output_tokens;
            &&& summary <= 16_384 && 8 * summary <= capacity
            &&& summary < 16_384 ==> capacity < 8 * (summary + 1)
            &&& supports_low ==> 4 * budgets.summary_reasoning_tokens <= summary < 4 * (
            budgets.summary_reasoning_tokens + 1)
            &&& !supports_low ==> budgets.summary_reasoning_tokens == 0
            &&& 10 * budgets.rebuilt_input_target <= capacity < 10 * (budgets.rebuilt_input_target
                + 1)
            &&& budgets.recent_tail_limit == budgets.rebuilt_input_target
        }),
{
}

/// What is told of a summary is that it is accepted exactly when each of its
/// claims, in whichever part it stands, is founded on the source.
pub proof fn summaries_are_told_to_be_founded(
    summary: &SemanticSummary,
    source: &[MessageId],
    told: Result<(), &'static str>,
)
    requires
        call_ensures(SemanticSummary::validate, (summary, source), told),
    ensures
        told is Ok <==> {
            &&& is_founded(summary.objective, source@)
            &&& are_founded(summary.rationale@, source@)
            &&& are_founded(summary.decisions@, source@)
            &&& are_founded(summary.completed@, source@)
            &&& are_founded(summary.discoveries@, source@)
            &&& are_founded(summary.unresolved@, source@)
            &&& is_founded(summary.next_position, source@)
        },
{
    accepted_summaries_are_founded(*summary, source@);
}

} // verus!
