//! What rendering and parsing memory entries and indexes give back of each
//! other.

use vstd::prelude::*;

use super::memory::{is_slug, is_slug_segment};
use super::memory_corpus::{corpus_is_enumerated, slug_order, MemoryCorpus};
use super::memory_entry::{
    is_line, unlines_round_trip, IndexLineAbs, IndexParseErrorAbs, INDEX_HEADER,
};
use super::memory_index::{
    corpus_index, entry_path, index_body, index_line_text, index_text, read_index,
    read_index_line, read_index_lines,
};
use crate::text::{
    after, all_chars, cut_is, decimal, ends, decimal_round_trip, is_digit, is_lower, number_in,
    occurs_at, pieces, pieces_nonempty, rcut, rcut_is, without_suffix,
};

verus! {

// ---------------------------------------------------------------------------
// Slugs
// ---------------------------------------------------------------------------

/// Lowercase letters, digits and hyphens.
pub open spec fn is_slug_char(c: char) -> bool {
    is_lower(c) || is_digit(c) || c == '-'
}

/// Every character of a text is the separator or stands in a piece.
pub(crate) proof fn lemma_chars_of_pieces(s: Seq<char>, separator: char, i: int)
    requires
        0 <= i < s.len(),
    ensures
        s[i] == separator || exists|k: int, j: int|
            0 <= k < pieces(s, separator).len() && 0 <= j < pieces(s, separator)[k].len()
                && #[trigger] pieces(s, separator)[k][j] == s[i],
    decreases s.len(),
{
    let p = pieces(s, separator);
    let less = s.drop_last();
    let q = pieces(less, separator);
    pieces_nonempty(less, separator);
    if i == s.len() - 1 {
        if s.last() != separator {
            let last = p[p.len() - 1];
            assert(p[p.len() - 1][last.len() - 1] == s[i]);
        }
    } else {
        lemma_chars_of_pieces(less, separator, i);
        if s[i] != separator {
            assert(less[i] == s[i]);
            let (k, j) = choose|k: int, j: int|
                0 <= k < q.len() && 0 <= j < q[k].len() && #[trigger] q[k][j] == less[i];
            assert(p[k][j] == s[i]);
        }
    }
}

/// A slug is not empty and holds slug characters alone.
pub proof fn slug_chars(slug: Seq<char>)
    requires
        is_slug(slug),
    ensures
        slug.len() > 0,
        all_chars(slug, |c: char| is_slug_char(c)),
{
    let p = pieces(slug, '-');
    pieces_nonempty(slug, '-');
    assert(is_slug_segment(p[0]));
    if slug.len() == 0 {
        assert(p[0].len() == 0);
    }
    assert forall|i: int| 0 <= i < slug.len() implies is_slug_char(#[trigger] slug[i]) by {
        lemma_chars_of_pieces(slug, '-', i);
        if slug[i] != '-' {
            let (k, j) = choose|k: int, j: int|
                0 <= k < p.len() && 0 <= j < p[k].len() && #[trigger] p[k][j] == slug[i];
            assert(is_slug_segment(p[k]));
        }
    }
}

// ---------------------------------------------------------------------------
// The index
// ---------------------------------------------------------------------------

/// The decimal form of a number that fits is read back as that number.
pub proof fn number_round_trip(n: usize)
    ensures
        number_in(decimal(n as nat)) == Some(n),
        all_chars(decimal(n as nat), |c: char| is_digit(c)),
{
    decimal_round_trip(n as nat);
    let s = decimal(n as nat);
    assert(is_digit(s[0]));
}

/// A line that the index of a corpus can hold.
pub open spec fn is_index_line(line: IndexLineAbs) -> bool {
    is_slug(line.slug) && line.title.len() > 0 && !line.title.contains('\n') && line.path
        == entry_path(line.slug)
}

/// A character that stands in neither of two texts does not stand in both
/// together.
pub proof fn lemma_free(a: Seq<char>, b: Seq<char>, c: char)
    requires
        !a.contains(c),
        !b.contains(c),
    ensures
        !(a + b).contains(c),
{
    let s = a + b;
    assert forall|i: int| 0 <= i < s.len() implies s[i] != c by {
        if i < a.len() {
            assert(s[i] == a[i]);
            assert(a.contains(a[i]));
        } else {
            assert(s[i] == b[i - a.len()]);
            assert(b.contains(b[i - a.len()]));
        }
    }
}

/// A slug holds no character but slug characters.
pub proof fn lemma_slug_free(slug: Seq<char>, c: char)
    requires
        is_slug(slug),
        !is_slug_char(c),
    ensures
        !slug.contains(c),
{
    slug_chars(slug);
    if slug.contains(c) {
        let i = choose|i: int| 0 <= i < slug.len() && slug[i] == c;
        assert(is_slug_char(slug[i]));
    }
}

/// A number holds no character but digits.
proof fn lemma_number_free(n: usize, c: char)
    requires
        !is_digit(c),
    ensures
        !decimal(n as nat).contains(c),
{
    number_round_trip(n);
    let s = decimal(n as nat);
    if s.contains(c) {
        let i = choose|i: int| 0 <= i < s.len() && s[i] == c;
        assert(is_digit(s[i]));
    }
}

/// The path of an index line begins behind the last mark.
proof fn lemma_cut_path(head: Seq<char>, slug: Seq<char>)
    requires
        is_slug(slug),
    ensures
        rcut(
            head + " — entries/"@ + (slug + ".md"@),
            " — entries/"@,
        ) == Some((head, slug + ".md"@)),
{
    let mark = " — entries/"@;
    let file = slug + ".md"@;
    reveal_strlit(" — entries/");
    reveal_strlit(".md");
    lemma_slug_free(slug, ' ');
    assert(!".md"@.contains(' '));
    lemma_free(slug, ".md"@, ' ');
    assert forall|k: int| 0 < k implies !#[trigger] occurs_at(mark + file, mark, k) by {
        if occurs_at(mark + file, mark, k) {
            let all = mark + file;
            let at = all.subrange(k, k + mark.len());
            assert(at[0] == all[k]);
            assert(at[1] == all[k + 1]);
            if k >= mark.len() {
                assert(all[k] == file[k - mark.len()]);
            }
        }
    }
    rcut_is(head, mark, file);
}

/// The count of an index line begins behind the last bracket.
proof fn lemma_cut_count(title: Seq<char>, n: usize)
    ensures
        ({
            let end = decimal(n as nat) + " claims)"@;
            &&& rcut(title + " ("@ + end, " ("@) == Some((title, end))
            &&& without_suffix(end, " claims)"@) == Some(decimal(n as nat))
        }),
{
    let count = decimal(n as nat);
    let end = count + " claims)"@;
    reveal_strlit(" (");
    reveal_strlit(" claims)");
    lemma_number_free(n, ' ');
    assert forall|k: int| 0 < k implies !#[trigger] occurs_at(" ("@ + end, " ("@, k) by {
        let all = " ("@ + end;
        if occurs_at(all, " ("@, k) {
            let at = all.subrange(k, k + 2);
            assert(at[0] == all[k]);
            assert(at[1] == all[k + 1]);
            if 2 <= k < 2 + count.len() {
                assert(all[k] == count[k - 2]);
            }
        }
    }
    rcut_is(title, " ("@, end);
    assert(end.subrange(end.len() - 8, end.len() as int) =~= " claims)"@);
    assert(end.subrange(0, end.len() - 8) =~= count);
}

/// The text of an index line in the pieces that are cut off it.
proof fn lemma_index_line_parts(line: IndexLineAbs)
    requires
        line.path == entry_path(line.slug),
    ensures
        ({
            let tail = line.title + " ("@ + (decimal(line.claims as nat) + " claims)"@);
            let head = line.slug + " — "@ + tail;
            index_line_text(line) == "- "@ + (head + " — entries/"@ + (line.slug + ".md"@))
        }),
        entry_path(line.slug) == "entries/"@ + (line.slug + ".md"@),
        ends(entry_path(line.slug), ".md"@),
{
    let tail = line.title + " ("@ + (decimal(line.claims as nat) + " claims)"@);
    let head = line.slug + " — "@ + tail;
    reveal_strlit(" — entries/");
    reveal_strlit("entries/");
    reveal_strlit(" claims)");
    reveal_strlit(" claims) — ");
    assert(" claims) — "@ + "entries/"@ =~= " claims)"@ + " — entries/"@);
    let front = "- "@ + line.slug + " — "@ + line.title + " ("@ + decimal(line.claims as nat);
    let path = entry_path(line.slug);
    assert(path =~= "entries/"@ + (line.slug + ".md"@));
    assert(index_line_text(line) =~= front + (" claims) — "@ + "entries/"@) + (line.slug
        + ".md"@));
    assert("- "@ + (head + " — entries/"@ + (line.slug + ".md"@)) =~= front + (" claims)"@
        + " — entries/"@) + (line.slug + ".md"@));
    assert(path.subrange(path.len() - ".md"@.len(), path.len() as int) =~= ".md"@);
}

/// An index line stands whole between line feeds.
proof fn lemma_index_line_is_line(line: IndexLineAbs)
    requires
        is_index_line(line),
    ensures
        is_line(index_line_text(line)),
{
    let count = decimal(line.claims as nat);
    reveal_strlit("- ");
    reveal_strlit(" — ");
    reveal_strlit("entries/");
    reveal_strlit(".md");
    reveal_strlit(" (");
    reveal_strlit(" claims) — ");
    let c = '\n';
    lemma_slug_free(line.slug, c);
    lemma_number_free(line.claims, c);
    lemma_free("- "@, line.slug, c);
    lemma_free("- "@ + line.slug, " — "@, c);
    lemma_free("- "@ + line.slug + " — "@, line.title, c);
    let front = "- "@ + line.slug + " — "@ + line.title;
    lemma_free(front, " ("@, c);
    lemma_free(front + " ("@, count, c);
    lemma_free(front + " ("@ + count, " claims) — "@, c);
    lemma_free("entries/"@, line.slug, c);
    lemma_free("entries/"@ + line.slug, ".md"@, c);
    lemma_free(front + " ("@ + count + " claims) — "@, line.path, c);
    assert(line.path.last() == 'd');
    assert(index_line_text(line).last() == line.path.last());
}

/// An index line is read back as it was rendered.
pub proof fn index_line_round_trip(line: IndexLineAbs, number: usize)
    requires
        is_index_line(line),
    ensures
        read_index_line(index_line_text(line), number) == Ok::<IndexLineAbs, IndexParseErrorAbs>(
            line,
        ),
        is_line(index_line_text(line)),
{
    lemma_index_line_is_line(line);
    lemma_index_line_parts(line);
    let count = decimal(line.claims as nat);
    let tail = line.title + " ("@ + (count + " claims)"@);
    let head = line.slug + " — "@ + tail;
    let rest = head + " — entries/"@ + (line.slug + ".md"@);
    let text = index_line_text(line);
    assert(text.subrange(0, "- "@.len() as int) =~= "- "@);
    assert(after(text, "- "@.len() as int) =~= rest);
    lemma_cut_path(head, line.slug);
    reveal_strlit(" — ");
    lemma_slug_free(line.slug, ' ');
    cut_is(line.slug, " — "@, tail);
    lemma_cut_count(line.title, line.claims);
    number_round_trip(line.claims);
}

/// The lines of an index are read back as they were rendered.
pub proof fn index_lines_round_trip(lines: Seq<IndexLineAbs>)
    requires
        forall|i: int| 0 <= i < lines.len() ==> is_index_line(#[trigger] lines[i]),
    ensures
        read_index(index_text(lines)) == Ok::<Seq<IndexLineAbs>, IndexParseErrorAbs>(lines),
{
    let texts = Seq::new(lines.len(), |i: int| index_line_text(lines[i]));
    assert forall|i: int| 0 <= i < texts.len() implies is_line(#[trigger] texts[i]) by {
        assert(is_index_line(lines[i]));
        index_line_round_trip(lines[i], 0);
    }
    unlines_round_trip(texts);
    let text = index_text(lines);
    let n = INDEX_HEADER@.len() as int;
    assert(text.subrange(0, n) =~= INDEX_HEADER@);
    assert(after(text, n) =~= index_body(lines));
    lemma_index_lines(lines, texts, lines.len() as int);
    assert(lines.take(lines.len() as int) =~= lines);
}

proof fn lemma_index_lines(lines: Seq<IndexLineAbs>, texts: Seq<Seq<char>>, n: int)
    requires
        0 <= n <= lines.len(),
        texts == Seq::new(lines.len(), |i: int| index_line_text(lines[i])),
        forall|i: int| 0 <= i < lines.len() ==> is_index_line(#[trigger] lines[i]),
    ensures
        read_index_lines(texts, n) == Ok::<Seq<IndexLineAbs>, IndexParseErrorAbs>(lines.take(n)),
    decreases n,
{
    if n == 0 {
        assert(lines.take(0) =~= Seq::<IndexLineAbs>::empty());
    } else {
        lemma_index_lines(lines, texts, n - 1);
        assert(is_index_line(lines[n - 1]));
        index_line_round_trip(lines[n - 1], (n + 2) as usize);
        assert(lines.take(n) =~= lines.take(n - 1).push(lines[n - 1]));
    }
}

/// Parsing the rendered index of a corpus recovers its index lines, and
/// rendering those reproduces the text, where the slugs are slugs and the
/// titles are single lines.
pub proof fn index_round_trip(corpus: &MemoryCorpus)
    requires
        corpus.wf(),
        forall|slug: Seq<char>| #[trigger]
            corpus@.contains_key(slug) ==> is_slug(slug) && corpus@[slug].title.len() > 0
                && !corpus@[slug].title.contains('\n'),
    ensures
        ({
            let text = index_text(corpus_index(corpus@));
            &&& read_index(text) == Ok::<Seq<IndexLineAbs>, IndexParseErrorAbs>(
                corpus_index(corpus@),
            )
            &&& index_text(read_index(text)->Ok_0) == text
        }),
{
    corpus_is_enumerated(corpus);
    let lines = corpus_index(corpus@);
    let slugs = slug_order(corpus@);
    assert forall|i: int| 0 <= i < lines.len() implies is_index_line(#[trigger] lines[i]) by {
        assert(slugs.contains(slugs[i]));
        assert(corpus@.dom().contains(slugs[i]));
        assert(corpus@.contains_key(slugs[i]));
    }
    index_lines_round_trip(lines);
}

} // verus!
