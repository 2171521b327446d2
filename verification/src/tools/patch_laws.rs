//! What edits, patches and the changes of a shell come to.

use vstd::prelude::*;
use vstd::string::*;
use vstd::utf8::*;

use super::artifacts::ArtifactRoutes;
use super::cow::{
    covers, diff, differences, equal_links, is_expected, operation_of, operations_of, shown,
    CowOperationAbs, Difference, TreeAbs,
};
use super::edits::{
    accepted_edits_are_disjoint, edit_span, edited, replaced, resume, spans_of, stands_at,
    PatchEdit, SpanAbs,
};
use super::patch::{absent_target, source_file, FileProbe, SourceProbe};
use super::patch_plan::{plan_operations, planned, ChangeAbs, PatchOperation};
use super::repo_path::{normalized, repo_path, slashed};
use crate::text::{begins, pieces, without_prefix, without_suffix};
use crate::text_laws::rejoined;

verus! {

// ---------------------------------------------------------------------------
// Edits
// ---------------------------------------------------------------------------

/// Whether some bytes stand in others from an offset on, byte by byte.
pub open spec fn bytes_stand(source: Seq<u8>, needle: Seq<u8>, at: int) -> bool {
    &&& 0 <= at
    &&& at + needle.len() <= source.len()
    &&& forall|j: int| 0 <= j < needle.len() ==> source[at + j] == #[trigger] needle[j]
}

proof fn lemma_stands(source: Seq<u8>, needle: Seq<u8>, at: int)
    ensures
        bytes_stand(source, needle, at) <==> stands_at(source, needle, at),
{
    if stands_at(source, needle, at) {
        assert forall|j: int| 0 <= j < needle.len() implies source[at + j] == #[trigger] needle[j] by {
            assert(source.subrange(at, at + needle.len())[j] == source[at + j]);
        }
    }
    if bytes_stand(source, needle, at) {
        assert(source.subrange(at, at + needle.len()) =~= needle);
    }
}

/// An edit has its place where its old text stands once and only once in the
/// file; an empty old text has one in an empty file, for the only edit.
pub proof fn edits_need_one_place(source: Seq<u8>, edits: Seq<PatchEdit>, i: int, at: int)
    requires
        0 <= i < edits.len(),
    ensures
        ({
            let old_text = encode_utf8(edits[i].old_text@);
            edit_span(source, edits, i) == Ok::<SpanAbs, Seq<char>>(
                SpanAbs { index: i, start: at, end: at + old_text.len() },
            ) <==> if old_text.len() == 0 {
                source.len() == 0 && edits.len() == 1 && at == 0
            } else {
                bytes_stand(source, old_text, at) && forall|other: int| #[trigger]
                    bytes_stand(source, old_text, other) ==> other == at
            }
        }),
{
    let needle = edits[i].old_bytes();
    if needle.len() > 0 {
        if bytes_stand(source, needle, at) && forall|other: int| #[trigger]
            bytes_stand(source, needle, other) ==> other == at {
            lemma_stands(source, needle, at);
            assert(stands_at(source, needle, at));
            assert forall|a: int, b: int|
                a < b && #[trigger] stands_at(source, needle, a) implies !#[trigger] stands_at(
                source,
                needle,
                b,
            ) by {
                lemma_stands(source, needle, a);
                lemma_stands(source, needle, b);
            }
            let found = choose|found: int| #[trigger] stands_at(source, needle, found);
            lemma_stands(source, needle, found);
        }
        if edit_span(source, edits, i) == Ok::<SpanAbs, Seq<char>>(
            SpanAbs { index: i, start: at, end: at + needle.len() },
        ) {
            let found = choose|found: int| #[trigger] stands_at(source, needle, found);
            assert(stands_at(source, needle, found));
            assert(found == at);
            lemma_stands(source, needle, at);
            assert forall|other: int| #[trigger] bytes_stand(source, needle, other) implies other
                == at by {
                lemma_stands(source, needle, other);
                if other < at {
                    assert(stands_at(source, needle, other) && stands_at(source, needle, at));
                } else if at < other {
                    assert(stands_at(source, needle, at) && stands_at(source, needle, other));
                }
            }
        }
    }
}

/// Gaps with something between them: the first `n` gaps, each with what follows
/// it.
pub open spec fn woven(gaps: Seq<Seq<u8>>, fills: Seq<Seq<u8>>, n: int) -> Seq<u8>
    decreases n,
{
    if n <= 0 {
        Seq::empty()
    } else {
        woven(gaps, fills, n - 1) + gaps[n - 1] + fills[n - 1]
    }
}

/// The old texts of the edits, in an order.
pub open spec fn old_texts(edits: Seq<PatchEdit>, order: Seq<int>) -> Seq<Seq<u8>> {
    Seq::new(order.len(), |k: int| encode_utf8(edits[order[k]].old_text@))
}

/// The new texts of the edits, in an order.
pub open spec fn new_texts(edits: Seq<PatchEdit>, order: Seq<int>) -> Seq<Seq<u8>> {
    Seq::new(order.len(), |k: int| encode_utf8(edits[order[k]].new_text@))
}

proof fn lemma_woven(
    source: Seq<u8>,
    edits: Seq<PatchEdit>,
    spans: Seq<SpanAbs>,
    gaps: Seq<Seq<u8>>,
    order: Seq<int>,
    n: int,
)
    requires
        0 <= n <= spans.len(),
        super::edits::one_span_each(source, edits, spans, edits.len() as int),
        forall|i: int, j: int|
            0 <= i < j < spans.len() ==> (#[trigger] spans[i]).end <= (#[trigger] spans[j]).start,
        gaps.len() == spans.len() + 1,
        order.len() == spans.len(),
        forall|k: int|
            0 <= k < spans.len() ==> #[trigger] gaps[k] == source.subrange(
                resume(spans, k),
                spans[k].start,
            ),
        forall|k: int| 0 <= k < spans.len() ==> #[trigger] order[k] == spans[k].index,
    ensures
        woven(gaps, new_texts(edits, order), n) == replaced(source, edits, spans, n),
        0 <= resume(spans, n) <= source.len(),
        woven(gaps, old_texts(edits, order), n) == source.subrange(0, resume(spans, n)),
    decreases n,
{
    if n == 0 {
        assert(source.subrange(0, 0) =~= Seq::<u8>::empty());
    } else {
        lemma_woven(source, edits, spans, gaps, order, n - 1);
        let span = spans[n - 1];
        let needle = edits[span.index].old_bytes();
        assert(edit_span(source, edits, span.index) == Ok::<SpanAbs, Seq<char>>(span));
        assert(span.end == span.start + needle.len());
        edits_need_one_place(source, edits, span.index, span.start);
        if n > 1 {
            assert(spans[n - 2].end <= spans[n - 1].start);
        }
        assert(gaps[n - 1] == source.subrange(resume(spans, n - 1), span.start));
        assert(order[n - 1] == span.index);
        assert(old_texts(edits, order)[n - 1] == needle);
        assert(new_texts(edits, order)[n - 1] == edits[span.index].new_bytes());
        assert(source.subrange(span.start, span.end) =~= needle);
        assert(source.subrange(0, resume(spans, n - 1)) + gaps[n - 1] + needle
            =~= source.subrange(0, span.end));
    }
}

/// Edits replace their old texts by their new ones, and leave the rest: the
/// file is some gaps with the old texts between them, each edit once, and what
/// comes of it is the same gaps with the new texts in their places.
pub proof fn edits_replace_in_place(path: Seq<char>, source: Seq<u8>, edits: Seq<PatchEdit>) -> (r: (
    Seq<Seq<u8>>,
    Seq<int>,
))
    requires
        edited(path, source, edits) is Ok,
    ensures
        ({
            let (gaps, order) = r;
            let n = edits.len() as int;
            &&& gaps.len() == n + 1
            &&& order.len() == n
            &&& order.no_duplicates()
            &&& forall|k: int| 0 <= k < n ==> 0 <= #[trigger] order[k] < n
            &&& source == woven(gaps, old_texts(edits, order), n) + gaps[n]
            &&& edited(path, source, edits)->Ok_0 == woven(gaps, new_texts(edits, order), n)
                + gaps[n]
        }),
{
    accepted_edits_are_disjoint(path, source, edits);
    let n = edits.len() as int;
    let spans = spans_of(source, edits, n)->Ok_0;
    let gaps = Seq::new(
        (n + 1) as nat,
        |k: int|
            if k < n {
                source.subrange(resume(spans, k), spans[k].start)
            } else {
                source.subrange(resume(spans, n), source.len() as int)
            },
    );
    let order = Seq::new(n as nat, |k: int| spans[k].index);
    lemma_woven(source, edits, spans, gaps, order, n);
    assert(source =~= source.subrange(0, resume(spans, n)) + gaps[n]);
    assert forall|k: int| 0 <= k < n implies 0 <= #[trigger] order[k] < n by {
        assert(0 <= spans[k].index < n);
    }
    assert(order.no_duplicates()) by {
        assert forall|a: int, b: int| 0 <= a < n && 0 <= b < n && a != b implies order[a]
            != order[b] by {
            if order[a] == order[b] {
                assert(edit_span(source, edits, spans[a].index) == Ok::<SpanAbs, Seq<char>>(
                    spans[a],
                ));
                assert(edit_span(source, edits, spans[b].index) == Ok::<SpanAbs, Seq<char>>(
                    spans[b],
                ));
                if a < b {
                    assert(super::edits::span_precedes(spans[a], spans[b]));
                } else {
                    assert(super::edits::span_precedes(spans[b], spans[a]));
                }
            }
        }
    }
    (gaps, order)
}

// ---------------------------------------------------------------------------
// Paths
// ---------------------------------------------------------------------------

/// A path is shown with slashes between its segments.
pub proof fn paths_are_shown_with_slashes(segments: Seq<Seq<char>>)
    ensures
        slashed(segments) == rejoined(segments, '/'),
    decreases segments.len(),
{
    reveal_strlit("/");
    assert("/"@ =~= seq!['/']);
    if segments.len() > 1 {
        paths_are_shown_with_slashes(segments.drop_last());
    }
}

proof fn lemma_plain(parts: Seq<Seq<char>>, n: int)
    requires
        0 <= n <= parts.len(),
        forall|i: int|
            0 <= i < parts.len() ==> (#[trigger] parts[i]).len() > 0 && parts[i] != "."@ && parts[i]
                != ".."@ && parts[i] != ".git"@ && !begins(parts[i], ".agl-fs-transaction-"@),
    ensures
        normalized(parts, n) == Ok::<Seq<Seq<char>>, &'static str>(parts.take(n)),
    decreases n,
{
    if n > 0 {
        lemma_plain(parts, n - 1);
        assert(parts[n - 1].len() > 0);
        assert(parts.take(n) =~= parts.take(n - 1).push(parts[n - 1]));
    } else {
        assert(parts.take(0) =~= Seq::<Seq<char>>::empty());
    }
}

/// A relative path whose segments go neither up nor into the repository's own
/// directory or a transaction is accepted as it stands.
pub proof fn plain_paths_are_accepted(raw: Seq<char>, allow_root: bool)
    requires
        !crate::text::is_blank(raw),
        !raw.contains('\0'),
        !raw.contains('\\'),
        !begins(raw, seq!['/']),
        forall|i: int|
            0 <= i < pieces(raw, '/').len() ==> (#[trigger] pieces(raw, '/')[i]).len() > 0
                && pieces(raw, '/')[i] != "."@ && pieces(raw, '/')[i] != ".."@ && pieces(
                raw,
                '/',
            )[i] != ".git"@ && !begins(pieces(raw, '/')[i], ".agl-fs-transaction-"@),
    ensures
        repo_path(raw, allow_root) == Ok::<Seq<Seq<char>>, &'static str>(pieces(raw, '/')),
{
    let parts = pieces(raw, '/');
    crate::text::pieces_nonempty(raw, '/');
    lemma_plain(parts, parts.len() as int);
    assert(parts.take(parts.len() as int) =~= parts);
}

// ---------------------------------------------------------------------------
// Patches
// ---------------------------------------------------------------------------

/// A file that an operation reads has the path that is named and the content
/// and permissions that were found, and its content has the digest that is
/// expected.
pub proof fn sources_are_as_found(
    raw: Seq<char>,
    expected: Seq<char>,
    routes: ArtifactRoutes,
    probe: SourceProbe,
)
    requires
        source_file(raw, expected, routes, probe) is Ok,
    ensures
        ({
            let (path, content, permissions) = source_file(raw, expected, routes, probe)->Ok_0;
            &&& repo_path(raw, false) == Ok::<Seq<Seq<char>>, &'static str>(path)
            &&& probe.file matches FileProbe::Content { bytes, permissions: found }
            &&& bytes@ == content
            &&& found == permissions
            &&& crate::digest::digest_text(crate::digest::sha256(content)) == expected
        }),
{
}

/// Whether a change is among others.
pub open spec fn has_change(
    changes: Seq<ChangeAbs>,
    relative: Seq<Seq<char>>,
    before: Option<Seq<u8>>,
    after: Option<Seq<u8>>,
    after_permissions: Option<u32>,
) -> bool {
    exists|k: int|
        0 <= k < changes.len() && (#[trigger] changes[k]).relative == relative
            && changes[k].before == before && changes[k].after == after
            && changes[k].after_permissions == after_permissions
}

/// Whether a plan holds what an operation asks for: a creation makes its file
/// with its content; an update edits the content that was found and keeps the
/// permissions; a deletion removes what was found; a move removes it at the one
/// path and makes it at the other, with its content and its permissions.
pub open spec fn is_carried_out(
    changes: Seq<ChangeAbs>,
    routes: ArtifactRoutes,
    operation: PatchOperation,
) -> bool {
    match operation {
        PatchOperation::Create { path, content, expected_absent, target } => {
            &&& expected_absent
            &&& absent_target(path@, routes, target) matches Ok(relative)
            &&& has_change(changes, relative, None, Some(encode_utf8(content@)), None)
        },
        PatchOperation::Update { path, expected_digest, edits, source } => {
            &&& source_file(path@, expected_digest@, routes, source) matches Ok((
                relative,
                before,
                permissions,
            ))
            &&& edited(path@, before, edits@) matches Ok(after)
            &&& has_change(changes, relative, Some(before), Some(after), Some(permissions))
        },
        PatchOperation::Delete { path, expected_digest, source } => {
            &&& source_file(path@, expected_digest@, routes, source) matches Ok((
                relative,
                before,
                _,
            ))
            &&& has_change(changes, relative, Some(before), None, None)
        },
        PatchOperation::Move {
            from,
            to,
            expected_digest,
            expected_destination_absent,
            source,
            target,
        } => {
            &&& expected_destination_absent
            &&& source_file(from@, expected_digest@, routes, source) matches Ok((
                origin,
                content,
                permissions,
            ))
            &&& absent_target(to@, routes, target) matches Ok(destination)
            &&& has_change(changes, origin, Some(content), None, None)
            &&& has_change(changes, destination, None, Some(content), Some(permissions))
        },
    }
}

/// How many files an operation changes.
pub open spec fn changes_made(operation: PatchOperation) -> nat {
    if operation is Move {
        2
    } else {
        1
    }
}

/// How many files the first `n` operations change.
pub open spec fn all_changes_made(operations: Seq<PatchOperation>, n: int) -> nat
    decreases n,
{
    if n <= 0 {
        0
    } else {
        all_changes_made(operations, n - 1) + changes_made(operations[n - 1])
    }
}

proof fn lemma_counted(routes: ArtifactRoutes, operations: Seq<PatchOperation>, n: int)
    requires
        0 <= n <= operations.len(),
        plan_operations(routes, operations, n) is Ok,
    ensures
        plan_operations(routes, operations, n)->Ok_0.changes.len() == all_changes_made(
            operations,
            n,
        ),
        plan_operations(routes, operations, n)->Ok_0.receipts.len() == n,
    decreases n,
{
    if n > 0 {
        lemma_counted(routes, operations, n - 1);
    }
}

/// A planned patch carries out every one of its operations, and changes no
/// other file.
pub proof fn operations_are_carried_out(
    routes: ArtifactRoutes,
    operations: Seq<PatchOperation>,
    i: int,
)
    requires
        planned(routes, operations) is Ok,
        0 <= i < operations.len(),
    ensures
        1 <= operations.len() <= 64,
        is_carried_out(planned(routes, operations)->Ok_0.changes, routes, operations[i]),
        planned(routes, operations)->Ok_0.changes.len() == all_changes_made(
            operations,
            operations.len() as int,
        ),
{
    let n = operations.len() as int;
    lemma_counted(routes, operations, n);
    super::patch_plan::lemma_plan_grows(routes, operations, i, n);
    super::patch_plan::lemma_plan_grows(routes, operations, i + 1, n);
    let first = plan_operations(routes, operations, i)->Ok_0.changes;
    let second = plan_operations(routes, operations, i + 1)->Ok_0.changes;
    let all = plan_operations(routes, operations, n)->Ok_0.changes;
    let k = first.len() as int;
    assert(all[k] == second[k]);
    if operations[i] is Move {
        assert(all[k + 1] == second[k + 1]);
    }
}

/// The receipt of an operation names it, the paths that it changed, and the
/// digests of what was there and of what is.
pub proof fn receipts_tell_the_operation(
    routes: ArtifactRoutes,
    operations: Seq<PatchOperation>,
    i: int,
)
    requires
        planned(routes, operations) is Ok,
        0 <= i < operations.len(),
    ensures
        ({
            let receipt = planned(routes, operations)->Ok_0.receipts[i];
            let digest = |bytes: Seq<u8>|
                Some(crate::digest::digest_text(crate::digest::sha256(bytes)));
            match operations[i] {
                PatchOperation::Create { path, content, target, .. } => {
                    &&& receipt.operation == "create"
                    &&& absent_target(path@, routes, target) matches Ok(relative)
                    &&& receipt.path == Some(slashed(relative))
                    &&& receipt.from is None && receipt.to is None
                    &&& receipt.before_digest is None
                    &&& receipt.after_digest == digest(encode_utf8(content@))
                },
                PatchOperation::Update { path, expected_digest, edits, source } => {
                    &&& receipt.operation == "update"
                    &&& source_file(path@, expected_digest@, routes, source) matches Ok((
                        relative,
                        before,
                        _,
                    ))
                    &&& receipt.path == Some(slashed(relative))
                    &&& receipt.from is None && receipt.to is None
                    &&& receipt.before_digest == digest(before)
                    &&& receipt.after_digest == digest(edited(path@, before, edits@)->Ok_0)
                },
                PatchOperation::Delete { path, expected_digest, source } => {
                    &&& receipt.operation == "delete"
                    &&& source_file(path@, expected_digest@, routes, source) matches Ok((
                        relative,
                        before,
                        _,
                    ))
                    &&& receipt.path == Some(slashed(relative))
                    &&& receipt.from is None && receipt.to is None
                    &&& receipt.before_digest == digest(before)
                    &&& receipt.after_digest is None
                },
                PatchOperation::Move { from, to, expected_digest, source, target, .. } => {
                    &&& receipt.operation == "move"
                    &&& source_file(from@, expected_digest@, routes, source) matches Ok((
                        origin,
                        content,
                        _,
                    ))
                    &&& absent_target(to@, routes, target) matches Ok(destination)
                    &&& receipt.path is None
                    &&& receipt.from == Some(slashed(origin))
                    &&& receipt.to == Some(slashed(destination))
                    &&& receipt.before_digest == digest(content)
                    &&& receipt.after_digest == digest(content)
                },
            }
        }),
{
    let n = operations.len() as int;
    lemma_receipts_grow(routes, operations, i + 1, n);
    lemma_counted(routes, operations, i);
    let second = plan_operations(routes, operations, i + 1)->Ok_0.receipts;
    assert(plan_operations(routes, operations, n)->Ok_0.receipts[i] == second[i]);
}

proof fn lemma_receipts_grow(
    routes: ArtifactRoutes,
    operations: Seq<PatchOperation>,
    n: int,
    m: int,
)
    requires
        0 < n <= m <= operations.len(),
        plan_operations(routes, operations, m) is Ok,
    ensures
        plan_operations(routes, operations, n) is Ok,
        plan_operations(routes, operations, n - 1) is Ok,
        ({
            let first = plan_operations(routes, operations, n)->Ok_0.receipts;
            let all = plan_operations(routes, operations, m)->Ok_0.receipts;
            first.len() <= all.len() && forall|k: int|
                0 <= k < first.len() ==> #[trigger] all[k] == first[k]
        }),
    decreases m,
{
    if n < m {
        lemma_receipts_grow(routes, operations, n, m - 1);
    }
}

// ---------------------------------------------------------------------------
// What a shell changed
// ---------------------------------------------------------------------------

/// An expected path covers itself; with a slash behind it, it covers the
/// directory that it names and all that lies below it.
pub proof fn expected_paths_cover(name: Seq<char>, observed: Seq<char>, below: Seq<char>)
    requires
        name.len() > 0,
        name.last() != '/',
    ensures
        covers(name, observed) <==> observed == name,
        covers(name + seq!['/'], name),
        covers(name + seq!['/'], name + seq!['/'] + below),
        covers(name + seq!['/'], observed) ==> observed == name || (observed.len() > name.len()
            && observed.subrange(0, name.len() as int) == name && observed[name.len() as int]
            == '/'),
{
    let slash = seq!['/'];
    let directory = name + slash;
    assert(name.subrange(name.len() - 1, name.len() as int)[0] == name.last());
    assert(without_suffix(name, slash) is None);
    assert(directory.subrange(directory.len() - 1, directory.len() as int) =~= slash);
    assert(directory.subrange(0, directory.len() - 1) =~= name);
    assert(without_suffix(directory, slash) == Some(name));
    let long = directory + below;
    assert(long.subrange(0, name.len() as int) =~= name);
    let rest = crate::text::after(long, name.len() as int);
    assert(rest.subrange(0, 1) =~= slash);
    if covers(directory, observed) && observed != name {
        let suffix = without_prefix(observed, name)->Some_0;
        assert(suffix.subrange(0, 1)[0] == suffix[0]);
    }
}

/// Whether an operation commits a difference: it creates the new file, deletes
/// the old one by its digest, or replaces its whole text.
pub open spec fn commits_difference(operation: CowOperationAbs, difference: Difference) -> bool {
    match difference {
        Difference::Created { after } => {
            &&& operation matches CowOperationAbs::Create { path, content }
            &&& path == shown(after.path)
            &&& encode_utf8(content) == after.bytes
        },
        Difference::Deleted { before } => {
            &&& operation matches CowOperationAbs::Delete { path, expected_digest }
            &&& path == shown(before.path)
            &&& expected_digest == crate::digest::digest_text(crate::digest::sha256(before.bytes))
        },
        Difference::Changed { before, after } => {
            &&& operation matches CowOperationAbs::Update {
                path,
                expected_digest,
                old_text,
                new_text,
            }
            &&& path == shown(before.path)
            &&& expected_digest == crate::digest::digest_text(crate::digest::sha256(before.bytes))
            &&& encode_utf8(old_text) == before.bytes
            &&& encode_utf8(new_text) == after.bytes
            &&& before.mode == after.mode
        },
    }
}

/// Whether a difference can be committed: it is expected, leaves the
/// permissions, and is of text.
pub open spec fn can_be_committed(difference: Difference, expected: Seq<Seq<char>>) -> bool {
    match difference {
        Difference::Created { after } => is_expected(expected, shown(after.path)) && valid_utf8(
            after.bytes,
        ),
        Difference::Deleted { before } => is_expected(expected, shown(before.path)),
        Difference::Changed { before, after } => before.mode == after.mode && is_expected(
            expected,
            shown(before.path),
        ) && valid_utf8(before.bytes) && valid_utf8(after.bytes),
    }
}

proof fn lemma_commits(all: Seq<Difference>, expected: Seq<Seq<char>>, n: int)
    requires
        0 <= n <= all.len(),
    ensures
        operations_of(all, expected, n) is Ok <==> forall|i: int|
            0 <= i < n ==> can_be_committed(#[trigger] all[i], expected),
        operations_of(all, expected, n) matches Ok(operations) ==> operations.len() == n && forall|
            i: int,
        |
            0 <= i < n ==> commits_difference(#[trigger] operations[i], all[i]),
    decreases n,
{
    broadcast use decode_utf8_encode_utf8;

    if n > 0 {
        lemma_commits(all, expected, n - 1);
        assert(operation_of(all[n - 1], expected) is Ok <==> can_be_committed(
            all[n - 1],
            expected,
        ));
    }
}

/// What a shell changed is committed exactly when its links stay, every
/// difference can be committed, and there are 64 at most; then there is one
/// operation for each difference, in their order, and it commits it.
pub proof fn shell_changes_are_committed(
    before: TreeAbs,
    after: TreeAbs,
    expected: Seq<Seq<char>>,
)
    ensures
        ({
            let all = differences(before.files, after.files);
            &&& diff(before, after, expected) is Ok <==> {
                &&& equal_links(before.symlinks, after.symlinks)
                &&& all.len() <= 64
                &&& forall|i: int|
                    0 <= i < all.len() ==> can_be_committed(#[trigger] all[i], expected)
            }
            &&& diff(before, after, expected) matches Ok(operations) ==> operations.len()
                == all.len() && forall|i: int|
                0 <= i < all.len() ==> commits_difference(#[trigger] operations[i], all[i])
        }),
{
    let all = differences(before.files, after.files);
    lemma_commits(all, expected, all.len() as int);
}

} // verus!
