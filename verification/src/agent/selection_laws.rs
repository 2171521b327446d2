//! When services are shared, instructions accepted and paths equal.

use vstd::prelude::*;
use vstd::string::*;
use vstd::utf8::*;

use super::inference::{
    equal_numbers, is_shared_service, ModelArtifactRef, ModelLoadSelection, ModelRuntimeSelection,
    Real,
};
use super::run::{
    equal_paths, instruction_digest, instruction_failure, instruction_set_failure, path_parts,
    InstructionBlock, InstructionSet,
};
use crate::digest::sha256;
use crate::text::{pieces, pieces_nonempty};
use crate::value::{contents, Abstract};
use crate::written::Written;

verus! {

/// Whether two references are to the same bytes: of the same kind, digest and
/// length.
pub open spec fn are_same_bytes(left: ModelArtifactRef, right: ModelArtifactRef) -> bool {
    left.kind == right.kind && left.digest@ == right.digest@ && left.bytes == right.bytes
}

/// Whether two models are loaded alike, setting by setting.
pub open spec fn are_loaded_alike(left: ModelLoadSelection, right: ModelLoadSelection) -> bool {
    &&& left.context_tokens == right.context_tokens
    &&& left.batch_size == right.batch_size
    &&& left.ubatch_size == right.ubatch_size
    &&& left.threads == right.threads
    &&& left.threads_batch == right.threads_batch
    &&& left.gpu_layers == right.gpu_layers
    &&& left.devices.abs() == right.devices.abs()
    &&& left.split_mode == right.split_mode
    &&& left.main_gpu.abs() == right.main_gpu.abs()
    &&& left.tensor_split@.len() == right.tensor_split@.len()
    &&& forall|i: int|
        0 <= i < left.tensor_split@.len() ==> equal_numbers(
            #[trigger] left.tensor_split@[i],
            right.tensor_split@[i],
        )
    &&& left.mmap == right.mmap
    &&& left.mlock == right.mlock
    &&& left.flash_attention == right.flash_attention
    &&& left.kv_cache_type_k == right.kv_cache_type_k
    &&& left.kv_cache_type_v == right.kv_cache_type_v
    &&& left.engine_build_digest@ == right.engine_build_digest@
}

/// Two models share a service exactly when they are the same bytes, loaded
/// alike, with the same speculation and the same adapters at the same scales,
/// under the same key and with the same room.
pub proof fn services_are_shared_by_alike_models(
    left: ModelRuntimeSelection,
    right: ModelRuntimeSelection,
)
    ensures
        is_shared_service(left, right) <==> {
            &&& are_same_bytes(left.artifact, right.artifact)
            &&& are_loaded_alike(left.load, right.load)
            &&& left.speculative == right.speculative
            &&& left.adapters@.len() == right.adapters@.len()
            &&& forall|i: int|
                0 <= i < left.adapters@.len() ==> are_same_bytes(
                    (#[trigger] left.adapters@[i]).artifact,
                    right.adapters@[i].artifact,
                ) && equal_numbers(left.adapters@[i].scale, right.adapters@[i].scale)
            &&& left.service.key.abs() == right.service.key.abs()
            &&& left.service.slots == right.service.slots
            &&& left.service.queue_capacity == right.service.queue_capacity
            &&& left.service.continuous_batching == right.service.continuous_batching
        },
{
}

/// Numbers are equal where their bits are and stand for a number; the two zeros
/// are equal.
pub proof fn zeros_are_equal(left: Real, right: Real)
    ensures
        left.bits == 0 && right.bits == 0x8000_0000_0000_0000 ==> equal_numbers(left, right),
        left.bits == right.bits && left.bits <= 0x7FF0_0000_0000_0000 ==> equal_numbers(left, right),
        0x7FF0_0000_0000_0000 < left.bits < 0x8000_0000_0000_0000 ==> !equal_numbers(left, right),
        equal_numbers(left, right) ==> equal_numbers(right, left),
        equal_numbers(left, right) && left.bits != right.bits ==> left.bits
            % 0x8000_0000_0000_0000 == 0 && right.bits % 0x8000_0000_0000_0000 == 0,
{
}

// ---------------------------------------------------------------------------
// Instructions
// ---------------------------------------------------------------------------

/// Blocks are an instruction set exactly when there are 256 at most, each is
/// content, and their text takes 4 MiB at most; its digest is that of their
/// text, behind the name of the format.
pub proof fn instructions_are_bounded(blocks: Seq<InstructionBlock>)
    ensures
        instruction_failure(blocks) is None <==> {
            &&& blocks.len() <= 256
            &&& forall|i: int|
                0 <= i < blocks.len() ==> 1 <= (#[trigger] blocks[i]).content@.len() && encode_utf8(
                    blocks[i].content@,
                ).len() <= 1_048_576
            &&& encode_utf8(Vec::<InstructionBlock>::written(contents(blocks))).len() <= 4_194_304
        },
        instruction_digest(blocks) == sha256(
            encode_utf8("agentlibre.instructions.v1\0"@) + encode_utf8(
                Vec::<InstructionBlock>::written(contents(blocks)),
            ),
        ),
{
    if blocks.len() <= 256 {
        if forall|i: int|
            0 <= i < blocks.len() ==> 1 <= (#[trigger] blocks[i]).content@.len() && encode_utf8(
                blocks[i].content@,
            ).len() <= 1_048_576 {
            assert forall|i: int| 0 <= i < blocks.len() implies crate::content::content_failure(
                #[trigger] blocks[i].content@,
            ) is None by {
                assert(1 <= blocks[i].content@.len());
            }
        }
        if !(exists|i: int|
            0 <= i < blocks.len() && crate::content::content_failure(
                #[trigger] blocks[i].content@,
            ) is Some) {
            assert forall|i: int| 0 <= i < blocks.len() implies 1 <= (
            #[trigger] blocks[i]).content@.len() && encode_utf8(blocks[i].content@).len()
                <= 1_048_576 by {
                assert(crate::content::content_failure(blocks[i].content@) is None);
            }
        }
    }
}

/// A set is valid exactly when its blocks are an instruction set and the digest
/// is theirs: in another order, or with another block, it is not.
pub proof fn instruction_sets_keep_their_digest(set: InstructionSet)
    ensures
        instruction_set_failure(set) is None <==> instruction_failure(set.blocks@) is None
            && set.digest@ == instruction_digest(set.blocks@),
{
}

// ---------------------------------------------------------------------------
// Paths
// ---------------------------------------------------------------------------

/// A slash behind a path does not change it, and a path from the root is none
/// from elsewhere.
pub proof fn paths_are_equal_but_for_slashes(path: Seq<char>, other: Seq<char>)
    requires
        path.len() > 0,
    ensures
        equal_paths(path, path),
        equal_paths(path + seq!['/'], path),
        equal_paths(path, other) ==> equal_paths(other, path),
        other.len() > 0 && path[0] == '/' && other[0] != '/' ==> !equal_paths(path, other),
{
    let longer = path + seq!['/'];
    let a = pieces(longer, '/');
    let b = pieces(path, '/');
    pieces_nonempty(path, '/');
    assert(longer.drop_last() =~= path);
    assert(a == b.push(Seq::<char>::empty()));
    assert(longer.subrange(0, 1) =~= path.subrange(0, 1));
    lemma_parts(b, a, b.len() as int);
    assert(a[b.len() as int].len() == 0);
    assert(path_parts(a, a.len() as int) == path_parts(b, b.len() as int));
    assert(path.subrange(0, 1)[0] == path[0]);
    if path[0] == '/' {
        assert(path.subrange(0, 1) =~= seq!['/']);
    }
    if other.len() > 0 {
        assert(other.subrange(0, 1)[0] == other[0]);
    }
}

proof fn lemma_parts(left: Seq<Seq<char>>, right: Seq<Seq<char>>, n: int)
    requires
        0 <= n <= left.len() <= right.len(),
        forall|i: int| 0 <= i < left.len() ==> #[trigger] right[i] == left[i],
    ensures
        path_parts(right, n) == path_parts(left, n),
    decreases n,
{
    if n > 0 {
        lemma_parts(left, right, n - 1);
        assert(right[n - 1] == left[n - 1]);
    }
}

/// The parts of a path are its pieces without the empty ones and those that
/// stay where they are, in their order.
pub proof fn parts_lead_somewhere(all: Seq<Seq<char>>, n: int)
    requires
        0 <= n <= all.len(),
    ensures
        forall|k: int|
            0 <= k < path_parts(all, n).len() ==> (#[trigger] path_parts(all, n)[k]).len() > 0
                && path_parts(all, n)[k] != "."@ && all.contains(path_parts(all, n)[k]),
        forall|i: int|
            0 <= i < n && (#[trigger] all[i]).len() > 0 && all[i] != "."@ ==> path_parts(
                all,
                n,
            ).contains(all[i]),
    decreases n,
{
    if n > 0 {
        parts_lead_somewhere(all, n - 1);
        let before = path_parts(all, n - 1);
        let now = path_parts(all, n);
        assert(all.contains(all[n - 1]));
        assert forall|i: int|
            0 <= i < n && (#[trigger] all[i]).len() > 0 && all[i] != "."@ implies now.contains(
            all[i],
        ) by {
            if i < n - 1 {
                assert(before.contains(all[i]));
                let k = choose|k: int| 0 <= k < before.len() && before[k] == all[i];
                assert(now[k] == all[i]);
            } else {
                assert(now[now.len() - 1] == all[i]);
            }
        }
    }
}

} // verus!
