//! Exact text edits: each replaces the one place where its old text stands.

use vstd::prelude::*;
use vstd::string::*;
use vstd::utf8::*;

use super::patch_error::{invalid_at, invalid_edit, PatchError, PatchErrorAbs};
use crate::package::push_bytes;
use crate::text::{decimal, decimal_text, read_utf8};

verus! {

/// The most edits of one file.
pub const MAX_PATCH_EDITS: usize = 64;

/// One replacement of a text by another.
#[derive(Clone, Debug, Eq, PartialEq)]
pub struct PatchEdit {
    /// Exact original text. It must identify one unique source span.
    pub old_text: String,
    /// UTF-8 replacement text. An empty text deletes the selected span.
    pub new_text: String,
}

impl PatchEdit {
    pub open spec fn old_bytes(&self) -> Seq<u8> {
        encode_utf8(self.old_text@)
    }

    pub open spec fn new_bytes(&self) -> Seq<u8> {
        encode_utf8(self.new_text@)
    }
}

/// Where an edit applies: from `start` up to `end`.
pub struct SpanAbs {
    pub index: int,
    pub start: int,
    pub end: int,
}

/// Whether the needle stands in the source at that offset.
pub open spec fn stands_at(source: Seq<u8>, needle: Seq<u8>, at: int) -> bool {
    0 <= at && at + needle.len() <= source.len() && source.subrange(at, at + needle.len())
        == needle
}

/// The one place where the old text of an edit stands, or why there is none.
pub open spec fn edit_span(source: Seq<u8>, edits: Seq<PatchEdit>, i: int) -> Result<
    SpanAbs,
    Seq<char>,
> {
    let needle = edits[i].old_bytes();
    if needle.len() == 0 {
        if source.len() == 0 && edits.len() == 1 {
            Ok(SpanAbs { index: i, start: 0, end: 0 })
        } else {
            Err("empty old_text requires an empty file and exactly one edit"@)
        }
    } else if forall|at: int| !#[trigger] stands_at(source, needle, at) {
        Err("old_text did not match the original file"@)
    } else if exists|a: int, b: int|
        a < b && #[trigger] stands_at(source, needle, a) && #[trigger] stands_at(
            source,
            needle,
            b,
        ) {
        Err("old_text matched the original file more than once"@)
    } else {
        let at = choose|at: int| #[trigger] stands_at(source, needle, at);
        Ok(SpanAbs { index: i, start: at, end: at + needle.len() })
    }
}

/// Whether a span comes before another: by start, then by end, then by the
/// order of the edits.
pub open spec fn span_precedes(left: SpanAbs, right: SpanAbs) -> bool {
    left.start < right.start || (left.start == right.start && (left.end < right.end || (left.end
        == right.end && left.index < right.index)))
}

/// How many spans stay before a span that is put into a list: all up to the
/// first that it comes before.
pub open spec fn rank(spans: Seq<SpanAbs>, span: SpanAbs) -> nat
    decreases spans.len(),
{
    if spans.len() == 0 || span_precedes(span, spans[0]) {
        0
    } else {
        1 + rank(spans.drop_first(), span)
    }
}

/// The spans of the first `n` edits in the order of their places, or the first
/// edit that has none, and why.
pub open spec fn spans_of(source: Seq<u8>, edits: Seq<PatchEdit>, n: int) -> Result<
    Seq<SpanAbs>,
    (int, Seq<char>),
>
    decreases n,
{
    if n <= 0 {
        Ok(Seq::empty())
    } else {
        match spans_of(source, edits, n - 1) {
            Err(error) => Err(error),
            Ok(spans) => match edit_span(source, edits, n - 1) {
                Err(message) => Err((n - 1, message)),
                Ok(span) => Ok(spans.insert(rank(spans, span) as int, span)),
            },
        }
    }
}

/// The first of the first `n` spans that overlaps the one before it.
pub open spec fn overlap(spans: Seq<SpanAbs>, n: int) -> Option<int>
    decreases n,
{
    if n <= 1 {
        None
    } else {
        match overlap(spans, n - 1) {
            Some(i) => Some(i),
            None => if spans[n - 1].start < spans[n - 2].end {
                Some(n - 1)
            } else {
                None
            },
        }
    }
}

/// Where the source goes on after the first `n` spans.
pub open spec fn resume(spans: Seq<SpanAbs>, n: int) -> int {
    if n <= 0 {
        0
    } else {
        spans[n - 1].end
    }
}

/// The source up to the end of the first `n` spans, with those replaced.
pub open spec fn replaced(
    source: Seq<u8>,
    edits: Seq<PatchEdit>,
    spans: Seq<SpanAbs>,
    n: int,
) -> Seq<u8>
    decreases n,
{
    if n <= 0 {
        Seq::empty()
    } else {
        replaced(source, edits, spans, n - 1) + source.subrange(
            resume(spans, n - 1),
            spans[n - 1].start,
        ) + edits[spans[n - 1].index].new_bytes()
    }
}

/// The source with all spans replaced.
pub open spec fn spliced(source: Seq<u8>, edits: Seq<PatchEdit>, spans: Seq<SpanAbs>) -> Seq<u8> {
    let n = spans.len() as int;
    replaced(source, edits, spans, n) + source.subrange(resume(spans, n), source.len() as int)
}

/// What edits make of the content of a file, or why they are refused.
pub open spec fn edited(path: Seq<char>, source: Seq<u8>, edits: Seq<PatchEdit>) -> Result<
    Seq<u8>,
    PatchErrorAbs,
> {
    if edits.len() == 0 || edits.len() > MAX_PATCH_EDITS {
        Err(invalid_at(path, "edits must contain between 1 and 64 items"@))
    } else if !valid_utf8(source) {
        Err(invalid_at(path, "update target is not valid UTF-8"@))
    } else {
        match spans_of(source, edits, edits.len() as int) {
            Err((index, message)) => Err(invalid_edit(path, index, message)),
            Ok(spans) => match overlap(spans, spans.len() as int) {
                Some(i) => Err(
                    invalid_edit(
                        path,
                        spans[i].index,
                        "edit overlaps edit "@ + decimal(spans[i - 1].index as nat),
                    ),
                ),
                None => Ok(spliced(source, edits, spans)),
            },
        }
    }
}

// ---------------------------------------------------------------------------
// Searching
// ---------------------------------------------------------------------------

/// Where an edit applies, as a value.
#[derive(Clone, Copy, Debug, Eq, PartialEq, Structural)]
struct Span {
    index: usize,
    start: usize,
    end: usize,
}

impl Span {
    spec fn view(&self) -> SpanAbs {
        SpanAbs { index: self.index as int, start: self.start as int, end: self.end as int }
    }
}

spec fn views(spans: Seq<Span>) -> Seq<SpanAbs> {
    Seq::new(spans.len(), |i: int| spans[i]@)
}

fn matches_at(source: &[u8], needle: &[u8], at: usize) -> (b: bool)
    requires
        at + needle@.len() <= source@.len(),
    ensures
        b == stands_at(source@, needle@, at as int),
{
    let size: usize = source.len();
    let mut i: usize = 0;
    while i < needle.len()
        invariant
            i <= needle@.len(),
            size == source@.len(),
            at + needle@.len() <= size,
            forall|k: int| 0 <= k < i ==> source@[at + k] == #[trigger] needle@[k],
        decreases needle@.len() - i,
    {
        if source[at + i] != needle[i] {
            assert(source@.subrange(at as int, at + needle@.len())[i as int]
                != needle@[i as int]);
            return false;
        }
        i += 1;
    }
    assert(source@.subrange(at as int, at + needle@.len()) =~= needle@);
    true
}

/// The first place from `from` on where the needle stands.
fn find_bytes(source: &[u8], needle: &[u8], from: usize) -> (r: Option<usize>)
    requires
        from <= source@.len(),
    ensures
        match r {
            Some(at) => from <= at && stands_at(source@, needle@, at as int) && forall|k: int|
                from <= k < at ==> !#[trigger] stands_at(source@, needle@, k),
            None => forall|k: int| from <= k ==> !#[trigger] stands_at(source@, needle@, k),
        },
{
    let size: usize = source.len();
    let width: usize = needle.len();
    let mut at: usize = from;
    while at < size && width <= size - at
        invariant
            from <= at <= size,
            size == source@.len(),
            width == needle@.len(),
            forall|k: int| from <= k < at ==> !#[trigger] stands_at(source@, needle@, k),
        decreases size - at,
    {
        if matches_at(source, needle, at) {
            return Some(at);
        }
        at += 1;
    }
    if at == size && width == 0 {
        if matches_at(source, needle, at) {
            return Some(at);
        }
    }
    None
}

/// The one place where the old text of an edit stands.
fn find_span(source: &[u8], edits: &Vec<PatchEdit>, index: usize) -> (r: Result<Span, String>)
    requires
        index < edits@.len(),
    ensures
        match r {
            Ok(span) => edit_span(source@, edits@, index as int) == Ok::<SpanAbs, Seq<char>>(
                span@,
            ) && span.start <= span.end <= source@.len() && span.index == index,
            Err(message) => edit_span(source@, edits@, index as int) == Err::<SpanAbs, Seq<char>>(
                message@,
            ),
        },
{
    let size: usize = source.len();
    let needle: &[u8] = edits[index].old_text.as_str().as_bytes();
    if needle.len() == 0 {
        if source.len() == 0 && edits.len() == 1 {
            return Ok(Span { index, start: 0, end: 0 });
        }
        return Err("empty old_text requires an empty file and exactly one edit".to_owned());
    }
    let start: usize = match find_bytes(source, needle, 0) {
        Some(start) => start,
        None => {
            assert forall|at: int| !#[trigger] stands_at(source@, needle@, at) by {}
            return Err("old_text did not match the original file".to_owned());
        },
    };
    assert(start < size);
    if find_bytes(source, needle, start + 1).is_some() {
        return Err("old_text matched the original file more than once".to_owned());
    }
    proof {
        assert forall|a: int, b: int|
            a < b && #[trigger] stands_at(source@, needle@, a) && #[trigger] stands_at(
                source@,
                needle@,
                b,
            ) implies false by {}
        let at = choose|at: int| #[trigger] stands_at(source@, needle@, at);
        assert(stands_at(source@, needle@, at));
        assert(at == start);
    }
    Ok(Span { index, start, end: start + needle.len() })
}

fn precedes(left: &Span, right: &Span) -> (b: bool)
    ensures
        b == span_precedes(left@, right@),
{
    left.start < right.start || (left.start == right.start && (left.end < right.end || (left.end
        == right.end && left.index < right.index)))
}

proof fn lemma_rank(spans: Seq<SpanAbs>, span: SpanAbs, n: int)
    requires
        0 <= n <= spans.len(),
        forall|k: int| 0 <= k < n ==> !span_precedes(span, #[trigger] spans[k]),
        n < spans.len() ==> span_precedes(span, spans[n]),
    ensures
        rank(spans, span) == n,
    decreases spans.len(),
{
    if n > 0 {
        let rest = spans.drop_first();
        assert forall|k: int| 0 <= k < n - 1 implies !span_precedes(span, #[trigger] rest[k]) by {
            assert(rest[k] == spans[k + 1]);
        }
        lemma_rank(rest, span, n - 1);
    }
}

proof fn lemma_rank_bound(spans: Seq<SpanAbs>, span: SpanAbs)
    ensures
        rank(spans, span) <= spans.len(),
        forall|k: int| 0 <= k < rank(spans, span) ==> !span_precedes(span, #[trigger] spans[k]),
        rank(spans, span) < spans.len() ==> span_precedes(
            span,
            spans[rank(spans, span) as int],
        ),
    decreases spans.len(),
{
    if spans.len() > 0 && !span_precedes(span, spans[0]) {
        let rest = spans.drop_first();
        lemma_rank_bound(rest, span);
        assert forall|k: int| 0 <= k < rank(spans, span) implies !span_precedes(
            span,
            #[trigger] spans[k],
        ) by {
            if k > 0 {
                assert(rest[k - 1] == spans[k]);
            }
        }
    }
}

/// Puts a span in its place.
fn insert_span(spans: &mut Vec<Span>, span: Span)
    ensures
        views(final(spans)@) == views(old(spans)@).insert(
            rank(views(old(spans)@), span@) as int,
            span@,
        ),
        final(spans)@.len() == old(spans)@.len() + 1,
{
    let ghost before = spans@;
    let mut i: usize = 0;
    while i < spans.len() && !precedes(&span, &spans[i])
        invariant
            i <= spans@.len(),
            spans@ == before,
            forall|k: int| 0 <= k < i ==> !span_precedes(span@, #[trigger] views(before)[k]),
        decreases spans@.len() - i,
    {
        assert(views(before)[i as int] == spans@[i as int]@);
        i += 1;
    }
    proof {
        if i < spans@.len() {
            assert(views(before)[i as int] == spans@[i as int]@);
        }
        lemma_rank(views(before), span@, i as int);
    }
    spans.insert(i, span);
    assert(views(spans@) =~= views(before).insert(i as int, span@));
}

/// The spans of edits lie in the source and belong to edits.
spec fn lie_within(spans: Seq<SpanAbs>, size: int, count: int) -> bool {
    forall|i: int|
        0 <= i < spans.len() ==> 0 <= (#[trigger] spans[i]).start <= spans[i].end <= size && 0
            <= spans[i].index < count
}

proof fn lemma_spans_fail(source: Seq<u8>, edits: Seq<PatchEdit>, n: int, m: int)
    requires
        0 <= n <= m,
        spans_of(source, edits, n) is Err,
    ensures
        spans_of(source, edits, m) == spans_of(source, edits, n),
    decreases m,
{
    if n < m {
        lemma_spans_fail(source, edits, n, m - 1);
    }
}

/// The spans of all edits, in order.
fn find_spans(source: &[u8], edits: &Vec<PatchEdit>) -> (r: Result<Vec<Span>, (usize, String)>)
    ensures
        match r {
            Ok(spans) => spans_of(source@, edits@, edits@.len() as int) == Ok::<
                Seq<SpanAbs>,
                (int, Seq<char>),
            >(views(spans@)) && lie_within(
                views(spans@),
                source@.len() as int,
                edits@.len() as int,
            ),
            Err((index, message)) => spans_of(source@, edits@, edits@.len() as int) == Err::<
                Seq<SpanAbs>,
                (int, Seq<char>),
            >((index as int, message@)),
        },
{
    let mut spans: Vec<Span> = Vec::new();
    let mut i: usize = 0;
    assert(views(spans@) =~= Seq::<SpanAbs>::empty());
    while i < edits.len()
        invariant
            i <= edits@.len(),
            spans_of(source@, edits@, i as int) == Ok::<Seq<SpanAbs>, (int, Seq<char>)>(
                views(spans@),
            ),
            lie_within(views(spans@), source@.len() as int, edits@.len() as int),
        decreases edits@.len() - i,
    {
        match find_span(source, edits, i) {
            Ok(span) => {
                let ghost before = views(spans@);
                insert_span(&mut spans, span);
                proof {
                    lemma_rank_bound(before, span@);
                    let at = rank(before, span@) as int;
                    let now = views(spans@);
                    assert forall|k: int| 0 <= k < now.len() implies 0 <= (#[trigger] now[k]).start
                        <= now[k].end <= source@.len() && 0 <= now[k].index < edits@.len() by {
                        if k < at {
                            assert(now[k] == before[k]);
                        } else if k > at {
                            assert(now[k] == before[k - 1]);
                        }
                    }
                }
            },
            Err(message) => {
                proof {
                    lemma_spans_fail(source@, edits@, i + 1, edits@.len() as int);
                }
                return Err((i, message));
            },
        }
        i += 1;
    }
    Ok(spans)
}

proof fn lemma_overlap(spans: Seq<SpanAbs>, n: int, m: int)
    requires
        0 <= n <= m,
        overlap(spans, n) is Some,
    ensures
        overlap(spans, m) == overlap(spans, n),
    decreases m,
{
    if n < m {
        lemma_overlap(spans, n, m - 1);
    }
}

/// Where spans do not overlap, each begins where the one before it ends, or
/// later.
proof fn lemma_no_overlap(spans: Seq<SpanAbs>, n: int, i: int)
    requires
        overlap(spans, n) is None,
        1 <= i < n,
    ensures
        spans[i - 1].end <= spans[i].start,
    decreases n,
{
    if i < n - 1 {
        lemma_no_overlap(spans, n - 1, i);
    }
}

fn find_overlap(spans: &Vec<Span>) -> (r: Option<usize>)
    ensures
        match r {
            Some(i) => overlap(views(spans@), spans@.len() as int) == Some(i as int) && 1 <= i
                < spans@.len(),
            None => overlap(views(spans@), spans@.len() as int) is None,
        },
{
    let ghost all = views(spans@);
    let mut i: usize = 1;
    while i < spans.len()
        invariant
            1 <= i,
            i <= spans@.len() || i == 1,
            all == views(spans@),
            overlap(all, i as int) is None,
        decreases spans@.len() - i,
    {
        assert(all[i as int] == spans@[i as int]@);
        assert(all[i - 1] == spans@[i - 1]@);
        if spans[i].start < spans[i - 1].end {
            proof {
                lemma_overlap(all, i + 1, all.len() as int);
            }
            return Some(i);
        }
        i += 1;
    }
    None
}

/// Applies exact text edits to the content of a file.
pub fn apply_exact_text_edits(path: &str, before: &[u8], edits: &Vec<PatchEdit>) -> (r: Result<
    Vec<u8>,
    PatchError,
>)
    ensures
        match r {
            Ok(after) => edited(path@, before@, edits@) == Ok::<Seq<u8>, PatchErrorAbs>(after@),
            Err(error) => edited(path@, before@, edits@) == Err::<Seq<u8>, PatchErrorAbs>(error@),
        },
{
    if edits.len() == 0 || edits.len() > MAX_PATCH_EDITS {
        return Err(
            PatchError::invalid_at(
                path,
                None,
                "edits must contain between 1 and 64 items".to_owned(),
            ),
        );
    }
    if read_utf8(before).is_none() {
        return Err(
            PatchError::invalid_at(path, None, "update target is not valid UTF-8".to_owned()),
        );
    }
    let spans: Vec<Span> = match find_spans(before, edits) {
        Ok(spans) => spans,
        Err((index, message)) => {
            return Err(PatchError::invalid_at(path, Some(index), message));
        },
    };
    let ghost all = views(spans@);
    if let Some(i) = find_overlap(&spans) {
        assert(all[i as int] == spans@[i as int]@);
        assert(all[i - 1] == spans@[i - 1]@);
        let message: String = "edit overlaps edit ".to_owned().concat(
            decimal_text(spans[i - 1].index).as_str(),
        );
        return Err(PatchError::invalid_at(path, Some(spans[i].index), message));
    }
    let mut after: Vec<u8> = Vec::new();
    let mut cursor: usize = 0;
    let mut i: usize = 0;
    while i < spans.len()
        invariant
            i <= spans@.len(),
            all == views(spans@),
            lie_within(all, before@.len() as int, edits@.len() as int),
            overlap(all, all.len() as int) is None,
            cursor == resume(all, i as int),
            cursor <= before@.len(),
            after@ == replaced(before@, edits@, all, i as int),
        decreases spans@.len() - i,
    {
        let span: Span = spans[i];
        assert(all[i as int] == span@);
        proof {
            if i > 0 {
                lemma_no_overlap(all, all.len() as int, i as int);
            }
        }
        push_range(&mut after, before, cursor, span.start);
        push_bytes(&mut after, edits[span.index].new_text.as_str().as_bytes());
        cursor = span.end;
        i += 1;
        assert(after@ =~= replaced(before@, edits@, all, i as int));
    }
    push_range(&mut after, before, cursor, before.len());
    Ok(after)
}

/// Appends part of some bytes.
fn push_range(out: &mut Vec<u8>, bytes: &[u8], from: usize, to: usize)
    requires
        from <= to <= bytes@.len(),
    ensures
        final(out)@ == old(out)@ + bytes@.subrange(from as int, to as int),
{
    let ghost start = out@;
    let mut i: usize = from;
    assert(out@ =~= start + bytes@.subrange(from as int, from as int));
    while i < to
        invariant
            from <= i <= to <= bytes@.len(),
            out@ == start + bytes@.subrange(from as int, i as int),
        decreases to - i,
    {
        out.push(bytes[i]);
        i += 1;
        assert(out@ =~= start + bytes@.subrange(from as int, i as int));
    }
}

// ---------------------------------------------------------------------------
// Laws
// ---------------------------------------------------------------------------

/// Whether spans stand in order.
pub open spec fn in_span_order(spans: Seq<SpanAbs>) -> bool {
    forall|i: int, j: int|
        0 <= i < j < spans.len() ==> span_precedes(#[trigger] spans[i], #[trigger] spans[j])
}

/// Whether every one of the first `n` edits has its span in the list, and the
/// list holds nothing else.
pub open spec fn one_span_each(
    source: Seq<u8>,
    edits: Seq<PatchEdit>,
    spans: Seq<SpanAbs>,
    n: int,
) -> bool {
    &&& spans.len() == n
    &&& forall|i: int|
        0 <= i < spans.len() ==> 0 <= (#[trigger] spans[i]).index < n && edit_span(
            source,
            edits,
            spans[i].index,
        ) == Ok::<SpanAbs, Seq<char>>(spans[i])
    &&& forall|i: int| 0 <= i < n ==> #[trigger] has_span(spans, i)
}

/// Whether the list holds a span of the edit.
pub open spec fn has_span(spans: Seq<SpanAbs>, index: int) -> bool {
    exists|k: int| 0 <= k < spans.len() && (#[trigger] spans[k]).index == index
}

proof fn lemma_spans(source: Seq<u8>, edits: Seq<PatchEdit>, n: int)
    requires
        0 <= n <= edits.len(),
        spans_of(source, edits, n) is Ok,
    ensures
        in_span_order(spans_of(source, edits, n)->Ok_0),
        one_span_each(source, edits, spans_of(source, edits, n)->Ok_0, n),
    decreases n,
{
    if n > 0 {
        lemma_spans(source, edits, n - 1);
        let before = spans_of(source, edits, n - 1)->Ok_0;
        let span = edit_span(source, edits, n - 1)->Ok_0;
        lemma_rank_bound(before, span);
        let at = rank(before, span) as int;
        let now = before.insert(at, span);
        assert(now == spans_of(source, edits, n)->Ok_0);
        assert forall|i: int, j: int| 0 <= i < j < now.len() implies span_precedes(
            #[trigger] now[i],
            #[trigger] now[j],
        ) by {
            if j < at {
                assert(span_precedes(before[i], before[j]));
            } else if i < at && j == at {
                assert(!span_precedes(span, before[i]));
                assert(before[i].index < span.index);
            } else if i < at {
                assert(span_precedes(before[i], before[j - 1]));
            } else if i == at {
                if j - 1 > at {
                    assert(span_precedes(before[at], before[j - 1]));
                }
            } else {
                assert(span_precedes(before[i - 1], before[j - 1]));
            }
        }
        assert forall|i: int| 0 <= i < now.len() implies 0 <= (#[trigger] now[i]).index < n
            && edit_span(source, edits, now[i].index) == Ok::<SpanAbs, Seq<char>>(now[i]) by {
            if i < at {
                assert(now[i] == before[i]);
            } else if i > at {
                assert(now[i] == before[i - 1]);
            }
        }
        assert forall|i: int| 0 <= i < n implies #[trigger] has_span(now, i) by {
            if i == n - 1 {
                assert(now[at].index == i);
            } else {
                assert(has_span(before, i));
                let k = choose|k: int| 0 <= k < before.len() && (#[trigger] before[k]).index == i;
                if k < at {
                    assert(now[k].index == i);
                } else {
                    assert(now[k + 1].index == i);
                }
            }
        }
    }
}

/// Accepted edits apply one each, in the order of their places, and no two of
/// them touch the same bytes.
pub proof fn accepted_edits_are_disjoint(path: Seq<char>, source: Seq<u8>, edits: Seq<PatchEdit>)
    requires
        edited(path, source, edits) is Ok,
    ensures
        ({
            let spans = spans_of(source, edits, edits.len() as int)->Ok_0;
            &&& in_span_order(spans)
            &&& one_span_each(source, edits, spans, edits.len() as int)
            &&& forall|i: int, j: int|
                0 <= i < j < spans.len() ==> (#[trigger] spans[i]).end <= (
                #[trigger] spans[j]).start
        }),
{
    lemma_spans(source, edits, edits.len() as int);
    let spans = spans_of(source, edits, edits.len() as int)->Ok_0;
    assert forall|i: int, j: int| 0 <= i < j < spans.len() implies (#[trigger] spans[i]).end <= (
    #[trigger] spans[j]).start by {
        lemma_disjoint(source, edits, spans, i, j);
    }
}

proof fn lemma_disjoint(
    source: Seq<u8>,
    edits: Seq<PatchEdit>,
    spans: Seq<SpanAbs>,
    i: int,
    j: int,
)
    requires
        one_span_each(source, edits, spans, edits.len() as int),
        overlap(spans, spans.len() as int) is None,
        0 <= i < j < spans.len(),
    ensures
        spans[i].end <= spans[j].start,
    decreases j - i,
{
    lemma_no_overlap(spans, spans.len() as int, j);
    if i < j - 1 {
        lemma_disjoint(source, edits, spans, i, j - 1);
        assert(edit_span(source, edits, spans[j - 1].index) == Ok::<SpanAbs, Seq<char>>(
            spans[j - 1],
        ));
    }
}

/// Whether every edit has its one place, and no two places touch the same
/// bytes.
pub open spec fn have_places(source: Seq<u8>, edits: Seq<PatchEdit>) -> bool {
    &&& forall|i: int| 0 <= i < edits.len() ==> #[trigger] edit_span(source, edits, i) is Ok
    &&& forall|i: int, j: int|
        0 <= i < edits.len() && 0 <= j < edits.len() && i != j ==> apart(
            #[trigger] edit_span(source, edits, i)->Ok_0,
            #[trigger] edit_span(source, edits, j)->Ok_0,
        )
}

/// Whether one span ends before the other starts.
pub open spec fn apart(left: SpanAbs, right: SpanAbs) -> bool {
    left.end <= right.start || right.end <= left.start
}

proof fn lemma_spans_exist(source: Seq<u8>, edits: Seq<PatchEdit>, n: int)
    requires
        0 <= n <= edits.len(),
        forall|i: int| 0 <= i < edits.len() ==> #[trigger] edit_span(source, edits, i) is Ok,
    ensures
        spans_of(source, edits, n) is Ok,
    decreases n,
{
    if n > 0 {
        lemma_spans_exist(source, edits, n - 1);
        assert(edit_span(source, edits, n - 1) is Ok);
    }
}

proof fn lemma_all_apart(source: Seq<u8>, edits: Seq<PatchEdit>, spans: Seq<SpanAbs>, n: int)
    requires
        have_places(source, edits),
        in_span_order(spans),
        one_span_each(source, edits, spans, edits.len() as int),
        0 <= n <= spans.len(),
    ensures
        overlap(spans, n) is None,
    decreases n,
{
    if n > 1 {
        lemma_all_apart(source, edits, spans, n - 1);
        let left = spans[n - 2];
        let right = spans[n - 1];
        assert(span_precedes(left, right));
        assert(edit_span(source, edits, left.index) == Ok::<SpanAbs, Seq<char>>(left));
        assert(edit_span(source, edits, right.index) == Ok::<SpanAbs, Seq<char>>(right));
        assert(left.index != right.index);
        assert(apart(
            edit_span(source, edits, left.index)->Ok_0,
            edit_span(source, edits, right.index)->Ok_0,
        ));
    }
}

/// Edits are accepted exactly when there are some and not too many of them, the
/// file is UTF-8, and every edit has its one place apart from the others.
pub proof fn acceptance(path: Seq<char>, source: Seq<u8>, edits: Seq<PatchEdit>)
    ensures
        edited(path, source, edits) is Ok <==> {
            &&& 0 < edits.len() <= MAX_PATCH_EDITS
            &&& valid_utf8(source)
            &&& have_places(source, edits)
        },
{
    let n = edits.len() as int;
    if edited(path, source, edits) is Ok {
        accepted_edits_are_disjoint(path, source, edits);
        let spans = spans_of(source, edits, n)->Ok_0;
        assert forall|i: int| 0 <= i < n implies #[trigger] edit_span(source, edits, i) is Ok by {
            assert(has_span(spans, i));
        }
        assert forall|i: int, j: int|
            0 <= i < edits.len() && 0 <= j < edits.len() && i != j implies apart(
            #[trigger] edit_span(source, edits, i)->Ok_0,
            #[trigger] edit_span(source, edits, j)->Ok_0,
        ) by {
            assert(has_span(spans, i) && has_span(spans, j));
            let k = choose|k: int| 0 <= k < spans.len() && (#[trigger] spans[k]).index == i;
            let l = choose|l: int| 0 <= l < spans.len() && (#[trigger] spans[l]).index == j;
            assert(edit_span(source, edits, i) == Ok::<SpanAbs, Seq<char>>(spans[k]));
            assert(edit_span(source, edits, j) == Ok::<SpanAbs, Seq<char>>(spans[l]));
            if k < l {
                assert(spans[k].end <= spans[l].start);
            } else {
                assert(spans[l].end <= spans[k].start);
            }
        }
    }
    if 0 < n <= MAX_PATCH_EDITS && valid_utf8(source) && have_places(source, edits) {
        lemma_spans_exist(source, edits, n);
        lemma_spans(source, edits, n);
        let spans = spans_of(source, edits, n)->Ok_0;
        lemma_all_apart(source, edits, spans, n);
    }
}

/// Whether two edits say the same.
pub open spec fn same_edit(left: PatchEdit, right: PatchEdit) -> bool {
    left.old_text@ == right.old_text@ && left.new_text@ == right.new_text@
}

/// Whether some edits are others in another order: `order` gives the place of
/// each among the others, and names every place once.
pub open spec fn is_reordering(
    edits: Seq<PatchEdit>,
    others: Seq<PatchEdit>,
    order: Seq<int>,
) -> bool {
    &&& edits.len() == others.len() == order.len()
    &&& forall|j: int|
        0 <= j < order.len() ==> 0 <= #[trigger] order[j] < others.len() && same_edit(
            edits[j],
            others[order[j]],
        )
    &&& forall|i: int| 0 <= i < others.len() ==> #[trigger] order.contains(i)
    &&& order.no_duplicates()
}

proof fn lemma_same_place(
    source: Seq<u8>,
    edits: Seq<PatchEdit>,
    others: Seq<PatchEdit>,
    order: Seq<int>,
    j: int,
)
    requires
        is_reordering(edits, others, order),
        0 <= j < order.len(),
    ensures
        edit_span(source, edits, j) is Ok <==> edit_span(source, others, order[j]) is Ok,
        edit_span(source, edits, j) is Ok ==> {
            let left = edit_span(source, edits, j)->Ok_0;
            let right = edit_span(source, others, order[j])->Ok_0;
            left.start == right.start && left.end == right.end && left.index == j && right.index
                == order[j]
        },
{
    assert(same_edit(edits[j], others[order[j]]));
}

proof fn lemma_places_reordered(
    source: Seq<u8>,
    edits: Seq<PatchEdit>,
    others: Seq<PatchEdit>,
    order: Seq<int>,
)
    requires
        is_reordering(edits, others, order),
    ensures
        have_places(source, edits) <==> have_places(source, others),
{
    if have_places(source, others) {
        assert forall|j: int| 0 <= j < edits.len() implies #[trigger] edit_span(
            source,
            edits,
            j,
        ) is Ok by {
            lemma_same_place(source, edits, others, order, j);
        }
        assert forall|i: int, j: int|
            0 <= i < edits.len() && 0 <= j < edits.len() && i != j implies apart(
            #[trigger] edit_span(source, edits, i)->Ok_0,
            #[trigger] edit_span(source, edits, j)->Ok_0,
        ) by {
            lemma_same_place(source, edits, others, order, i);
            lemma_same_place(source, edits, others, order, j);
            assert(order[i] != order[j]);
            assert(apart(
                edit_span(source, others, order[i])->Ok_0,
                edit_span(source, others, order[j])->Ok_0,
            ));
        }
    }
    if have_places(source, edits) {
        assert forall|k: int| 0 <= k < others.len() implies #[trigger] edit_span(
            source,
            others,
            k,
        ) is Ok by {
            assert(order.contains(k));
            let j = choose|j: int| 0 <= j < order.len() && order[j] == k;
            lemma_same_place(source, edits, others, order, j);
        }
        assert forall|k: int, l: int|
            0 <= k < others.len() && 0 <= l < others.len() && k != l implies apart(
            #[trigger] edit_span(source, others, k)->Ok_0,
            #[trigger] edit_span(source, others, l)->Ok_0,
        ) by {
            assert(order.contains(k) && order.contains(l));
            let i = choose|i: int| 0 <= i < order.len() && order[i] == k;
            let j = choose|j: int| 0 <= j < order.len() && order[j] == l;
            lemma_same_place(source, edits, others, order, i);
            lemma_same_place(source, edits, others, order, j);
            assert(apart(
                edit_span(source, edits, i)->Ok_0,
                edit_span(source, edits, j)->Ok_0,
            ));
        }
    }
}

/// Whether two spans are the same place, for the same edit.
spec fn same_span(
    edits: Seq<PatchEdit>,
    others: Seq<PatchEdit>,
    left: SpanAbs,
    right: SpanAbs,
) -> bool {
    &&& left.start == right.start
    &&& left.end == right.end
    &&& edits[left.index].new_bytes() == others[right.index].new_bytes()
}

/// In a list of spans that are apart, a later one starts later.
proof fn lemma_starts_grow(
    source: Seq<u8>,
    edits: Seq<PatchEdit>,
    spans: Seq<SpanAbs>,
    i: int,
    j: int,
)
    requires
        in_span_order(spans),
        one_span_each(source, edits, spans, edits.len() as int),
        overlap(spans, spans.len() as int) is None,
        0 <= i < j < spans.len(),
    ensures
        spans[i].start < spans[j].start,
{
    lemma_disjoint(source, edits, spans, i, j);
    assert(span_precedes(spans[i], spans[j]));
    assert(edit_span(source, edits, spans[i].index) == Ok::<SpanAbs, Seq<char>>(spans[i]));
}

/// A span of one order of the edits is among those of the other.
proof fn lemma_counterpart(
    source: Seq<u8>,
    edits: Seq<PatchEdit>,
    others: Seq<PatchEdit>,
    order: Seq<int>,
    left: Seq<SpanAbs>,
    right: Seq<SpanAbs>,
    k: int,
) -> (l: int)
    requires
        is_reordering(edits, others, order),
        one_span_each(source, edits, left, edits.len() as int),
        one_span_each(source, others, right, others.len() as int),
        0 <= k < left.len(),
    ensures
        0 <= l < right.len(),
        same_span(edits, others, left[k], right[l]),
{
    let j = left[k].index;
    assert(edit_span(source, edits, j) == Ok::<SpanAbs, Seq<char>>(left[k]));
    lemma_same_place(source, edits, others, order, j);
    assert(has_span(right, order[j]));
    let l = choose|l: int| 0 <= l < right.len() && (#[trigger] right[l]).index == order[j];
    assert(edit_span(source, others, order[j]) == Ok::<SpanAbs, Seq<char>>(right[l]));
    assert(same_edit(edits[j], others[order[j]]));
    l
}

/// The other way round.
proof fn lemma_counterpart_back(
    source: Seq<u8>,
    edits: Seq<PatchEdit>,
    others: Seq<PatchEdit>,
    order: Seq<int>,
    left: Seq<SpanAbs>,
    right: Seq<SpanAbs>,
    l: int,
) -> (k: int)
    requires
        is_reordering(edits, others, order),
        one_span_each(source, edits, left, edits.len() as int),
        one_span_each(source, others, right, others.len() as int),
        0 <= l < right.len(),
    ensures
        0 <= k < left.len(),
        same_span(edits, others, left[k], right[l]),
{
    let i = right[l].index;
    assert(order.contains(i));
    let j = choose|j: int| 0 <= j < order.len() && order[j] == i;
    assert(edit_span(source, others, i) == Ok::<SpanAbs, Seq<char>>(right[l]));
    lemma_same_place(source, edits, others, order, j);
    assert(has_span(left, j));
    let k = choose|k: int| 0 <= k < left.len() && (#[trigger] left[k]).index == j;
    assert(edit_span(source, edits, j) == Ok::<SpanAbs, Seq<char>>(left[k]));
    assert(same_edit(edits[j], others[order[j]]));
    k
}

proof fn lemma_spans_agree(
    source: Seq<u8>,
    edits: Seq<PatchEdit>,
    others: Seq<PatchEdit>,
    order: Seq<int>,
    left: Seq<SpanAbs>,
    right: Seq<SpanAbs>,
    n: int,
)
    requires
        is_reordering(edits, others, order),
        in_span_order(left),
        in_span_order(right),
        one_span_each(source, edits, left, edits.len() as int),
        one_span_each(source, others, right, others.len() as int),
        overlap(left, left.len() as int) is None,
        overlap(right, right.len() as int) is None,
        0 <= n <= left.len(),
    ensures
        forall|k: int| 0 <= k < n ==> same_span(edits, others, #[trigger] left[k], right[k]),
    decreases n,
{
    if n > 0 {
        let k = n - 1;
        lemma_spans_agree(source, edits, others, order, left, right, k);
        let p = lemma_counterpart(source, edits, others, order, left, right, k);
        let q = lemma_counterpart_back(source, edits, others, order, left, right, k);
        if p < k {
            assert(same_span(edits, others, left[p], right[p]));
            lemma_starts_grow(source, edits, left, p, k);
        }
        if q < k {
            assert(same_span(edits, others, left[q], right[q]));
            lemma_starts_grow(source, others, right, q, k);
        }
        if p > k {
            lemma_starts_grow(source, others, right, k, p);
            if q > k {
                lemma_starts_grow(source, edits, left, k, q);
            }
        }
    }
}

proof fn lemma_replaced_agree(
    source: Seq<u8>,
    edits: Seq<PatchEdit>,
    others: Seq<PatchEdit>,
    left: Seq<SpanAbs>,
    right: Seq<SpanAbs>,
    n: int,
)
    requires
        left.len() == right.len(),
        0 <= n <= left.len(),
        forall|k: int|
            0 <= k < left.len() ==> same_span(edits, others, #[trigger] left[k], right[k]),
    ensures
        replaced(source, edits, left, n) == replaced(source, others, right, n),
        resume(left, n) == resume(right, n),
    decreases n,
{
    if n > 0 {
        lemma_replaced_agree(source, edits, others, left, right, n - 1);
        assert(same_span(edits, others, left[n - 1], right[n - 1]));
    }
}

/// The order of the edits does not matter: in another order they are accepted
/// exactly when they are in this one, and give the same bytes.
pub proof fn edits_commute(
    path: Seq<char>,
    source: Seq<u8>,
    edits: Seq<PatchEdit>,
    others: Seq<PatchEdit>,
    order: Seq<int>,
)
    requires
        is_reordering(edits, others, order),
    ensures
        edited(path, source, edits) is Ok <==> edited(path, source, others) is Ok,
        edited(path, source, edits) is Ok ==> edited(path, source, edits) == edited(
            path,
            source,
            others,
        ),
{
    acceptance(path, source, edits);
    acceptance(path, source, others);
    lemma_places_reordered(source, edits, others, order);
    if edited(path, source, edits) is Ok {
        let n = edits.len() as int;
        let left = spans_of(source, edits, n)->Ok_0;
        let right = spans_of(source, others, n)->Ok_0;
        lemma_spans(source, edits, n);
        lemma_spans(source, others, n);
        lemma_spans_agree(source, edits, others, order, left, right, n);
        lemma_replaced_agree(source, edits, others, left, right, n);
    }
}

} // verus!
