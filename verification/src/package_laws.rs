//! What the digest of a package stands for, and what the parts of definitions
//! and messages must be.

use vstd::prelude::*;
use vstd::string::*;
use vstd::utf8::*;

use crate::agent::message::{message_failure, AgentMessageAbs, MessageRole, MessageVisibility};
use crate::digest::{digest_text, sha256};
use crate::effect::{canonical_failure, nests_within};
use crate::extension::ExtensionDefinition;
use crate::ids::{is_dotted, is_qualified};
use crate::json::{json_text, JsonAbs};
use crate::order::{ascend, in_order};
use crate::package::{
    big_endian, file_index, first_repeated, framed_file, framed_from, tree_digest, tree_domain,
    PackageErrorAbs, PackageView,
};
use crate::text::{begins, cut, cut_is, find, find_from_meaning, pieces};

verus! {

// ---------------------------------------------------------------------------
// Frames
// ---------------------------------------------------------------------------

/// The number that bytes stand for, the first one the greatest.
pub open spec fn byte_value(bytes: Seq<u8>) -> nat
    decreases bytes.len(),
{
    if bytes.len() == 0 {
        0
    } else {
        byte_value(bytes.drop_last()) * 256 + bytes.last() as nat
    }
}

/// The greatest number of some bytes, and one.
pub open spec fn byte_range(width: nat) -> nat
    decreases width,
{
    if width == 0 {
        1
    } else {
        byte_range((width - 1) as nat) * 256
    }
}

/// A number that fits is read back from its bytes.
pub proof fn big_endian_round_trip(n: nat, width: nat)
    requires
        n < byte_range(width),
    ensures
        big_endian(n, width).len() == width,
        byte_value(big_endian(n, width)) == n,
    decreases width,
{
    if width > 0 {
        big_endian_round_trip(n / 256, (width - 1) as nat);
        assert(big_endian(n, width).drop_last() =~= big_endian(n / 256, (width - 1) as nat));
    }
}

proof fn lemma_width(n: nat, width: nat)
    ensures
        big_endian(n, width).len() == width,
    decreases width,
{
    if width > 0 {
        lemma_width(n / 256, (width - 1) as nat);
    }
}

proof fn lemma_same_prefix(a: Seq<u8>, b: Seq<u8>, x: Seq<u8>, y: Seq<u8>)
    requires
        a + x == b + y,
        a.len() == b.len(),
    ensures
        a == b,
        x == y,
{
    assert(a =~= (a + x).subrange(0, a.len() as int));
    assert(b =~= (b + y).subrange(0, a.len() as int));
    assert(x =~= (a + x).subrange(a.len() as int, (a + x).len() as int));
    assert(y =~= (b + y).subrange(a.len() as int, (a + x).len() as int));
}

/// The frame of a file tells where it ends, its path and its bytes: two files
/// with the same frame, whatever follows, are the same, and so is what follows.
pub proof fn frames_tell_files_apart(
    path: Seq<char>,
    bytes: Seq<u8>,
    rest: Seq<u8>,
    other_path: Seq<char>,
    other_bytes: Seq<u8>,
    other_rest: Seq<u8>,
)
    requires
        framed_file(path, bytes) + rest == framed_file(other_path, other_bytes) + other_rest,
        encode_utf8(path).len() < byte_range(8),
        encode_utf8(other_path).len() < byte_range(8),
        bytes.len() < byte_range(8),
        other_bytes.len() < byte_range(8),
    ensures
        path == other_path,
        bytes == other_bytes,
        rest == other_rest,
{
    let (p, q) = (encode_utf8(path), encode_utf8(other_path));
    big_endian_round_trip(p.len(), 8);
    big_endian_round_trip(q.len(), 8);
    big_endian_round_trip(bytes.len(), 8);
    big_endian_round_trip(other_bytes.len(), 8);
    let (n, m) = (big_endian(p.len(), 8), big_endian(q.len(), 8));
    let (k, l) = (big_endian(bytes.len(), 8), big_endian(other_bytes.len(), 8));
    assert(framed_file(path, bytes) + rest =~= n + (p + (k + (bytes + rest))));
    assert(framed_file(other_path, other_bytes) + other_rest =~= m + (q + (l + (other_bytes
        + other_rest))));
    lemma_same_prefix(n, m, p + (k + (bytes + rest)), q + (l + (other_bytes + other_rest)));
    lemma_same_prefix(p, q, k + (bytes + rest), l + (other_bytes + other_rest));
    lemma_same_prefix(k, l, bytes + rest, other_bytes + other_rest);
    lemma_same_prefix(bytes, other_bytes, rest, other_rest);
    encode_utf8_decode_utf8(path);
    encode_utf8_decode_utf8(other_path);
}

/// The bytes of the first `n` files together.
pub open spec fn bytes_of<V: PackageView>(view: V, paths: Seq<Seq<char>>, n: int) -> nat
    decreases n,
{
    if n <= 0 {
        0
    } else {
        bytes_of(view, paths, n - 1) + view.file(paths[n - 1])->Ok_0.len()
    }
}

/// The first `n` files, one after the other, each as the length of its path, the
/// path, its length and its bytes.
pub open spec fn frames_of<V: PackageView>(view: V, paths: Seq<Seq<char>>, n: int) -> Seq<u8>
    decreases n,
{
    if n <= 0 {
        Seq::empty()
    } else {
        let path = encode_utf8(paths[n - 1]);
        let bytes = view.file(paths[n - 1])->Ok_0;
        frames_of(view, paths, n - 1) + (big_endian(path.len(), 8) + path + big_endian(
            bytes.len(),
            8,
        ) + bytes)
    }
}

/// Whether a path names something that is not part of a package: what belongs
/// to the repository, to the workspace or to its state.
pub open spec fn is_not_packed(path: Seq<char>) -> bool {
    ||| exists|k: int| 0 <= k < pieces(path, '/').len() && #[trigger] pieces(path, '/')[k] == ".git"@
    ||| path == "workspace.toml"@
    ||| path == "package-lock.toml"@
    ||| begins(path, "config/"@)
    ||| begins(path, "state/"@)
    ||| begins(path, "cache/"@)
}

proof fn lemma_framed<V: PackageView>(
    view: V,
    paths: Seq<Seq<char>>,
    i: int,
    total: nat,
    framed: Seq<u8>,
)
    requires
        0 <= i <= paths.len(),
        forall|k: int| 0 <= k < paths.len() - 1 ==> #[trigger] paths[k] != paths[k + 1],
        forall|k: int|
            0 <= k < paths.len() ==> !is_not_packed(#[trigger] paths[k]) && view.file(paths[k])
                is Ok,
        bytes_of(view, paths, paths.len() as int) <= 67_108_864,
        total == bytes_of(view, paths, i),
        framed == tree_domain() + frames_of(view, paths, i),
    ensures
        framed_from(view, paths, i, total, framed) == Ok::<Seq<u8>, PackageErrorAbs>(
            tree_domain() + frames_of(view, paths, paths.len() as int),
        ),
    decreases paths.len() - i,
{
    if i < paths.len() {
        let bytes = view.file(paths[i])->Ok_0;
        lemma_bytes_grow(view, paths, i + 1, paths.len() as int);
        if i > 0 {
            assert(paths[i - 1] != paths[i - 1 + 1]);
        }
        assert(!is_not_packed(paths[i]));
        assert(framed + framed_file(paths[i], bytes) =~= tree_domain() + frames_of(
            view,
            paths,
            i + 1,
        ));
        lemma_framed(
            view,
            paths,
            i + 1,
            total + bytes.len(),
            framed + framed_file(paths[i], bytes),
        );
    }
}

proof fn lemma_bytes_grow<V: PackageView>(view: V, paths: Seq<Seq<char>>, n: int, m: int)
    requires
        0 <= n <= m,
    ensures
        bytes_of(view, paths, n) <= bytes_of(view, paths, m),
    decreases m,
{
    if n < m {
        lemma_bytes_grow(view, paths, n, m - 1);
    }
}

/// A package whose files are listed once each, are all its own and can be read,
/// and are together no larger than 64 MiB, has a digest: that of its files in
/// the order of their paths, each with its path and its bytes.
pub proof fn packages_have_the_digest_of_their_files<V: PackageView>(view: V, listed: Seq<Seq<char>>)
    requires
        view.listing() == Ok::<Seq<Seq<char>>, PackageErrorAbs>(listed),
        ({
            let paths = in_order(listed);
            &&& forall|k: int| 0 <= k < paths.len() - 1 ==> #[trigger] paths[k] != paths[k + 1]
            &&& forall|k: int|
                0 <= k < paths.len() ==> !is_not_packed(#[trigger] paths[k]) && view.file(paths[k])
                    is Ok
            &&& bytes_of(view, paths, paths.len() as int) <= 67_108_864
        }),
    ensures
        ({
            let paths = in_order(listed);
            tree_digest(view) == Ok::<Seq<char>, PackageErrorAbs>(
                digest_text(
                    sha256(
                        encode_utf8("agentlibre.package-tree.v1\0"@) + frames_of(
                            view,
                            paths,
                            paths.len() as int,
                        ),
                    ),
                ),
            )
        }),
{
    let paths = in_order(listed);
    assert(tree_domain() + frames_of(view, paths, 0) =~= tree_domain());
    lemma_framed(view, paths, 0, 0, tree_domain());
}

/// A package with a file that is not to be packed, or that cannot be read, has
/// no digest.
pub proof fn strange_files_are_refused<V: PackageView>(view: V, listed: Seq<Seq<char>>, k: int)
    requires
        view.listing() == Ok::<Seq<Seq<char>>, PackageErrorAbs>(listed),
        0 <= k < in_order(listed).len(),
        is_not_packed(in_order(listed)[k]) || view.file(in_order(listed)[k]) is Err,
    ensures
        tree_digest(view) is Err,
{
    lemma_refused(view, in_order(listed), 0, 0, tree_domain(), k);
}

proof fn lemma_refused<V: PackageView>(
    view: V,
    paths: Seq<Seq<char>>,
    i: int,
    total: nat,
    framed: Seq<u8>,
    k: int,
)
    requires
        0 <= i <= k < paths.len(),
        is_not_packed(paths[k]) || view.file(paths[k]) is Err,
    ensures
        framed_from(view, paths, i, total, framed) is Err,
    decreases paths.len() - i,
{
    if i < k && view.file(paths[i]) is Ok {
        let bytes = view.file(paths[i])->Ok_0;
        lemma_refused(
            view,
            paths,
            i + 1,
            total + bytes.len(),
            framed + framed_file(paths[i], bytes),
            k,
        );
    }
}

/// Files in memory are those that were given, under paths of their own: a path
/// that is given once has its bytes, and one that is not given has none.
pub proof fn files_in_memory_are_found(files: Seq<(Seq<char>, Seq<u8>)>, path: Seq<char>)
    ensures
        match file_index(files, path) {
            Some(i) => 0 <= i < files.len() && files[i].0 == path && forall|k: int|
                0 <= k < i ==> (#[trigger] files[k]).0 != path,
            None => forall|k: int| 0 <= k < files.len() ==> (#[trigger] files[k]).0 != path,
        },
    decreases files.len(),
{
    if files.len() > 0 {
        let rest = files.drop_last();
        files_in_memory_are_found(rest, path);
        assert forall|k: int| 0 <= k < rest.len() implies rest[k] == #[trigger] files[k] by {}
    }
}

/// A list of files is refused exactly where a path occurs twice in it, and the
/// error names the first one that was there before.
pub proof fn repeated_files_are_refused(files: Seq<(Seq<char>, Seq<u8>)>)
    ensures
        match first_repeated(files) {
            Some(i) => 0 <= i < files.len() && exists|k: int|
                0 <= k < i && (#[trigger] files[k]).0 == files[i].0,
            None => forall|i: int, j: int|
                0 <= i < j < files.len() ==> (#[trigger] files[i]).0 != (#[trigger] files[j]).0,
        },
    decreases files.len(),
{
    if files.len() > 0 {
        let rest = files.drop_last();
        repeated_files_are_refused(rest);
        files_in_memory_are_found(rest, files.last().0);
        assert forall|k: int| 0 <= k < rest.len() implies rest[k] == #[trigger] files[k] by {}
        match first_repeated(rest) {
            Some(i) => {
                let k = choose|k: int| 0 <= k < i && (#[trigger] rest[k]).0 == rest[i].0;
                assert(files[k].0 == files[i].0);
            },
            None => {
                if let Some(k) = file_index(rest, files.last().0) {
                    assert(files[k].0 == files[files.len() - 1].0);
                }
            },
        }
    }
}

// ---------------------------------------------------------------------------
// Names
// ---------------------------------------------------------------------------

/// A qualified name is two dotted names with a colon between them.
pub proof fn qualified_names_have_two_parts(name: Seq<char>)
    ensures
        is_qualified(name) <==> exists|owner: Seq<char>, local: Seq<char>|
            is_dotted(owner) && is_dotted(local) && name == #[trigger] (owner + seq![':'] + local),
{
    let colon = seq![':'];
    if is_qualified(name) {
        find_from_meaning(name, colon, 0);
        let i = find(name, colon)->Some_0;
        let (owner, local) = cut(name, colon)->Some_0;
        assert(name.subrange(i, i + 1)[0] == name[i]);
        assert(name =~= owner + colon + local);
    }
    if exists|owner: Seq<char>, local: Seq<char>|
        is_dotted(owner) && is_dotted(local) && name == #[trigger] (owner + seq![':'] + local) {
        let (owner, local) = choose|owner: Seq<char>, local: Seq<char>|
            is_dotted(owner) && is_dotted(local) && name == #[trigger] (owner + seq![':'] + local);
        lemma_dotted_chars(owner);
        cut_is(owner, colon, local);
    }
}

proof fn lemma_dotted_chars(name: Seq<char>)
    requires
        is_dotted(name),
    ensures
        !name.contains(':'),
{
    if name.contains(':') {
        let i = choose|i: int| 0 <= i < name.len() && name[i] == ':';
        crate::agent::memory_laws::lemma_chars_of_pieces(name, '.', i);
        let p = pieces(name, '.');
        let (k, j) = choose|k: int, j: int|
            0 <= k < p.len() && 0 <= j < p[k].len() && #[trigger] p[k][j] == name[i];
        assert(crate::ids::is_local(p[k]));
        assert(crate::ids::is_local_char(p[k][j]));
    }
}

// ---------------------------------------------------------------------------
// JSON
// ---------------------------------------------------------------------------

/// A value in a list or an object lies one level deeper than they do, and a
/// plain value takes no level of its own.
pub proof fn nesting_counts_levels(value: JsonAbs, key: Seq<char>, depth: int)
    ensures
        nests_within(JsonAbs::Array(seq![value]), depth + 1) <==> depth + 1 >= 0 && nests_within(
            value,
            depth,
        ),
        nests_within(JsonAbs::Object(seq![(key, value)]), depth + 1) <==> depth + 1 >= 0
            && nests_within(value, depth),
        nests_within(JsonAbs::Null, depth) <==> depth >= 0,
        nests_within(JsonAbs::Text(key), depth) <==> depth >= 0,
        nests_within(value, depth) ==> depth >= 0,
{
    reveal_with_fuel(nests_within, 2);
    let list = seq![value];
    let members = seq![(key, value)];
    if nests_within(JsonAbs::Array(list), depth + 1) {
        crate::effect::nested_part(JsonAbs::Array(list), depth + 1, 0);
    }
    if nests_within(JsonAbs::Object(members), depth + 1) {
        crate::effect::nested_part(JsonAbs::Object(members), depth + 1, 0);
    }
    assert(list[0] == value);
    assert(members[0].1 == value);
    if nests_within(value, depth) {
        assert forall|i: int| 0 <= i < list.len() implies nests_within(
            #[trigger] list[i],
            depth + 1 - 1,
        ) by {}
        assert forall|i: int| 0 <= i < members.len() implies nests_within(
            (#[trigger] members[i]).1,
            depth + 1 - 1,
        ) by {}
    }
}

/// JSON is canonical where it nests no deeper than 32 levels and is written in
/// no more than 64 KiB.
pub proof fn canonical_json_is_bounded(value: JsonAbs)
    ensures
        canonical_failure(value) is None <==> nests_within(value, 32) && encode_utf8(
            json_text(value),
        ).len() <= 65_536,
{
}

// ---------------------------------------------------------------------------
// Extensions and messages
// ---------------------------------------------------------------------------

/// Whether texts stand in order, each once.
pub open spec fn stand_in_order(texts: Seq<Seq<char>>) -> bool {
    forall|i: int|
        0 <= i < texts.len() - 1 ==> crate::text::precedes(#[trigger] texts[i], texts[i + 1])
}

proof fn lemma_tools(extension: ExtensionDefinition, n: int)
    requires
        0 <= n <= extension.tools@.len(),
    ensures
        extension.tools_failure(n) is None <==> forall|i: int|
            0 <= i < n ==> extension.tool_failure(#[trigger] extension.tools@[i]) is None,
    decreases n,
{
    if n > 0 {
        lemma_tools(extension, n - 1);
    }
}

/// An extension is valid exactly when its effects and its tools stand in the
/// order of their names, each once, and every tool is described, is named under
/// the extension, and requires, in order, effects that the extension declares.
pub proof fn valid_extensions_own_their_tools(extension: ExtensionDefinition)
    ensures
        extension.failure() is None <==> {
            &&& stand_in_order(extension.effect_ids())
            &&& stand_in_order(extension.tool_ids())
            &&& forall|i: int|
                0 <= i < extension.tools@.len() ==> {
                    let tool = #[trigger] extension.tools@[i];
                    &&& tool.failure() is None
                    &&& begins(tool.id@, extension.id@ + seq![':'])
                    &&& forall|k: int|
                        0 <= k < tool.required_effects@.len() ==> extension.effect_ids().contains(
                            #[trigger] tool.required_effects@[k]@,
                        )
                }
        },
{
    lemma_tools(extension, extension.tools@.len() as int);
    let effects = extension.effect_ids();
    let tools = extension.tool_ids();
    if stand_in_order(effects) {
        assert(ascend(effects));
        crate::order::ascending_texts_are_distinct(effects);
    }
    if stand_in_order(tools) {
        assert(ascend(tools));
        crate::order::ascending_texts_are_distinct(tools);
    }
}

/// A message is valid exactly when it is content, what the conversation sees is
/// in one, what a user says comes from no operation, and everything else comes
/// from one of its run.
pub proof fn valid_messages_have_their_origin(message: AgentMessageAbs)
    ensures
        message_failure(message) is None <==> {
            &&& message.visibility == MessageVisibility::Conversation
                ==> message.conversation_id is Some
            &&& message.role == MessageRole::User ==> message.source_operation is None
            &&& message.role != MessageRole::User ==> message.source_operation is Some
            &&& message.source_operation is Some ==> message.run_id == Some(
                message.source_operation->Some_0.run_id,
            )
            &&& message.content.len() > 0
            &&& encode_utf8(message.content).len() <= 1_048_576
        },
{
}

} // verus!
