//! When entries of a context and the measurements of a compaction fit.

use vstd::prelude::*;
use vstd::string::*;
use vstd::utf8::*;

use super::compaction::{metadata_failure, CompactionMetadata};
use super::context::ContextCapacity;
use super::inference::ReasoningEffort;
use super::message::{entry_failure, message_failure, AgentContextEntry};
use super::run::{is_absolute_path, leads_up, ModelSelection};
use crate::text::pieces;
use crate::value::Abstract;

verus! {

/// An entry is consistent exactly when its message is, a message of the user has
/// neither a request nor reasoning behind it, one of the assistant comes from a
/// generation or, internal and without reasoning, from a compaction, and one of
/// a tool from a call.
pub proof fn entries_come_from_their_requests(entry: AgentContextEntry)
    ensures
        entry_failure(entry) is None <==> {
            &&& message_failure(entry.message.abs()) is None
            &&& entry.private_reasoning is Some ==> {
                &&& entry.private_reasoning->Some_0@.len() > 0
                &&& encode_utf8(entry.private_reasoning->Some_0@).len() <= 1_048_576
            }
            &&& entry.message.role is User ==> entry.source_request is None
                && entry.private_reasoning is None
            &&& entry.message.role is Assistant ==> entry.source_request is Some && !(
            entry.source_request->Some_0 is Tool) && (entry.source_request->Some_0 is Compaction
                ==> entry.message.visibility is Internal && entry.private_reasoning is None)
            &&& entry.message.role is Tool ==> entry.source_request is Some
                && entry.source_request->Some_0 is Tool
        },
{
}

/// Whether counts are taken against a capacity, with seven tenths of it, rounded
/// up, as the threshold.
pub open spec fn is_taken_against(counts: ContextCapacity, capacity: u32) -> bool {
    &&& counts.context_capacity_tokens == capacity
    &&& 10 * counts.trigger_threshold_tokens >= 7 * capacity
    &&& 10 * counts.trigger_threshold_tokens < 7 * capacity + 10
}

/// The measurements of a compaction belong to a model exactly when all counts
/// are taken against its capacity, the output that is reserved is one that it
/// may give, the summary was asked for with an eighth of the capacity, up to
/// 16,384 tokens, and fits, and what is left takes a tenth at most.
pub proof fn measurements_belong_to_the_model(metadata: CompactionMetadata, model: ModelSelection)
    ensures
        metadata_failure(metadata, model) is None <==> {
            let capacity = model.runtime.load.context_tokens;
            let output = model.runtime.generation.max_output_tokens;
            let summary = metadata.summary_request;
            &&& output <= capacity
            &&& metadata.tokenizer_artifact@ == model.runtime.artifact.digest@
            &&& if exists|i: int|
                0 <= i < model.reasoning_efforts@.len() && #[trigger] model.reasoning_efforts@[i]
                    is Low {
                &&& metadata.reasoning is Enabled
                &&& metadata.reasoning->effort == Some(ReasoningEffort::Low)
                &&& metadata.reasoning->max_tokens == summary.reserved_output_tokens / 4
                &&& !metadata.reasoning->preserve
            } else {
                metadata.reasoning is Disabled
            }
            &&& is_taken_against(metadata.before, capacity)
            &&& is_taken_against(summary, capacity)
            &&& is_taken_against(metadata.after, capacity)
            &&& metadata.before.reserved_output_tokens <= output
            &&& metadata.after.reserved_output_tokens == metadata.before.reserved_output_tokens
            &&& summary.reserved_output_tokens == (if capacity / 8 < 16_384 {
                capacity / 8
            } else {
                16_384
            })
            &&& summary.prompt_tokens + summary.reserved_output_tokens <= capacity
            &&& 10 * metadata.after.prompt_tokens <= capacity
            &&& metadata.usage.output_tokens <= summary.reserved_output_tokens
        },
{
    let efforts = model.reasoning_efforts@;
    if efforts.contains(ReasoningEffort::Low) {
        let i = choose|i: int| 0 <= i < efforts.len() && efforts[i] == ReasoningEffort::Low;
        assert(efforts[i] is Low);
    } else {
        assert forall|i: int| 0 <= i < efforts.len() implies !(#[trigger] efforts[i] is Low) by {
            if efforts[i] is Low {
                assert(efforts[i] == ReasoningEffort::Low);
                assert(efforts.contains(ReasoningEffort::Low));
            }
        }
    }
}

/// A path leads from the root where a slash is in front, and upwards where two
/// dots stand between slashes or the ends.
pub proof fn paths_lead_from_the_root_or_upwards(path: Seq<char>)
    ensures
        is_absolute_path(path) <==> path.len() > 0 && path[0] == '/',
        leads_up(path) <==> pieces(path, '/').contains(seq!['.', '.']),
{
    reveal_strlit("..");
    assert(".."@ =~= seq!['.', '.']);
    if path.len() > 0 {
        assert(path.subrange(0, 1)[0] == path[0]);
        if path[0] == '/' {
            assert(path.subrange(0, 1) =~= seq!['/']);
        }
    }
    let all = pieces(path, '/');
    if all.contains(seq!['.', '.']) {
        let k = choose|k: int| 0 <= k < all.len() && all[k] == seq!['.', '.'];
        assert(all[k] == ".."@);
    }
}

} // verus!
