//! What splitting, trimming, ordering and writing numbers mean for a text.

use vstd::prelude::*;

use crate::text::{
    decimal, find, find_from_meaning, is_blank, is_whitespace, lines_of, lowered, number_in,
    occurs_at, pieces, pieces_nonempty, precedes, trimmed, trimmed_end, trimmed_start,
};

verus! {

// ---------------------------------------------------------------------------
// Pieces and lines
// ---------------------------------------------------------------------------

/// Some texts with a separator between them.
pub open spec fn rejoined(parts: Seq<Seq<char>>, separator: char) -> Seq<char>
    decreases parts.len(),
{
    if parts.len() == 0 {
        Seq::empty()
    } else if parts.len() == 1 {
        parts[0]
    } else {
        rejoined(parts.drop_last(), separator) + seq![separator] + parts.last()
    }
}

/// The pieces of a text hold no separator, and with separators between them
/// they are the text.
pub proof fn pieces_rebuild_the_text(s: Seq<char>, separator: char)
    ensures
        pieces(s, separator).len() > 0,
        forall|i: int|
            0 <= i < pieces(s, separator).len() ==> !(#[trigger] pieces(s, separator)[i]).contains(
                separator,
            ),
        rejoined(pieces(s, separator), separator) == s,
    decreases s.len(),
{
    let p = pieces(s, separator);
    if s.len() == 0 {
        assert(p[0] =~= s);
    } else {
        let less = s.drop_last();
        let q = pieces(less, separator);
        pieces_rebuild_the_text(less, separator);
        if s.last() == separator {
            assert(p.drop_last() =~= q);
            assert(p.last() =~= Seq::<char>::empty());
            assert(rejoined(p, separator) =~= s);
        } else {
            let longer = q.last().push(s.last());
            assert(p.last() == longer);
            assert(p.drop_last() =~= q.drop_last());
            assert(!longer.contains(separator)) by {
                assert(!q[q.len() - 1].contains(separator));
                if longer.contains(separator) {
                    let k = choose|k: int| 0 <= k < longer.len() && longer[k] == separator;
                    assert(q.last()[k] == separator);
                }
            }
            assert(s =~= less.push(s.last()));
            assert(p.len() == q.len());
            if q.len() == 1 {
                assert(p[0] == longer && q[0] == q.last());
                assert(rejoined(p, separator) =~= s);
            } else {
                let head = rejoined(q.drop_last(), separator) + seq![separator];
                assert(less == head + q.last());
                assert(rejoined(p, separator) == head + longer);
                assert(head + longer =~= (head + q.last()).push(s.last()));
            }
            assert forall|i: int| 0 <= i < p.len() implies !(#[trigger] p[i]).contains(
                separator,
            ) by {
                if i < p.len() - 1 {
                    assert(p[i] == q[i]);
                }
            }
        }
    }
}

proof fn lemma_solid_piece(s: Seq<char>, separator: char)
    requires
        !s.contains(separator),
    ensures
        pieces(s, separator) == seq![s],
    decreases s.len(),
{
    if s.len() == 0 {
        assert(s =~= Seq::<char>::empty());
    } else {
        let less = s.drop_last();
        assert forall|i: int| 0 <= i < less.len() implies less[i] != separator by {
            assert(s.contains(s[i]));
        }
        assert(s.contains(s.last()));
        lemma_solid_piece(less, separator);
        assert(less.push(s.last()) =~= s);
        assert(pieces(s, separator) =~= seq![s]);
    }
}

/// What stands before a separator is a piece of its own.
proof fn lemma_first_piece(first: Seq<char>, separator: char, rest: Seq<char>)
    requires
        !first.contains(separator),
    ensures
        pieces(first + seq![separator] + rest, separator) == seq![first] + pieces(rest, separator),
    decreases rest.len(),
{
    let s = first + seq![separator] + rest;
    lemma_solid_piece(first, separator);
    if rest.len() == 0 {
        assert(s.drop_last() =~= first);
        assert(s.last() == separator);
        assert(rest =~= Seq::<char>::empty());
        assert(pieces(s, separator) =~= seq![first] + pieces(rest, separator));
    } else {
        let less = rest.drop_last();
        lemma_first_piece(first, separator, less);
        pieces_nonempty(less, separator);
        assert(s.drop_last() =~= first + seq![separator] + less);
        assert(s.last() == rest.last());
        let p = pieces(less, separator);
        let q = seq![first] + p;
        assert(q.last() == p.last());
        assert(q.drop_last() =~= seq![first] + p.drop_last());
        assert(pieces(s, separator) =~= seq![first] + pieces(rest, separator));
    }
}

/// A line ends at its line feed, and a carriage return before the line feed
/// belongs to neither the line nor the next one.
pub proof fn lines_end_at_line_feeds(line: Seq<char>, rest: Seq<char>)
    requires
        !line.contains('\n'),
    ensures
        lines_of(line + seq!['\r', '\n'] + rest) == seq![line] + lines_of(rest),
        line.len() == 0 || line.last() != '\r' ==> lines_of(line + seq!['\n'] + rest) == seq![line]
            + lines_of(rest),
{
    let returned = line.push('\r');
    assert(!returned.contains('\n')) by {
        if returned.contains('\n') {
            let k = choose|k: int| 0 <= k < returned.len() && returned[k] == '\n';
            assert(line[k] == '\n');
        }
    }
    pieces_nonempty(rest, '\n');
    lemma_first_piece(returned, '\n', rest);
    assert(line + seq!['\r', '\n'] + rest =~= returned + seq!['\n'] + rest);
    assert(returned.drop_last() =~= line);
    assert(lines_of(line + seq!['\r', '\n'] + rest) =~= seq![line] + lines_of(rest));
    if line.len() == 0 || line.last() != '\r' {
        lemma_first_piece(line, '\n', rest);
        assert(lines_of(line + seq!['\n'] + rest) =~= seq![line] + lines_of(rest));
    }
}

/// A text without a line feed is one line, and an empty one is none.
pub proof fn the_last_line_may_be_open(line: Seq<char>)
    requires
        !line.contains('\n'),
    ensures
        line.len() > 0 ==> lines_of(line) == seq![line],
        line.len() == 0 ==> lines_of(line).len() == 0,
{
    lemma_solid_piece(line, '\n');
    if line.len() > 0 {
        assert(lines_of(line) =~= seq![line]);
    }
}

// ---------------------------------------------------------------------------
// White space and case
// ---------------------------------------------------------------------------

proof fn lemma_trimmed_end(s: Seq<char>)
    ensures
        exists|b: Seq<char>| is_blank(b) && s == #[trigger] (trimmed_end(s) + b),
    decreases s.len(),
{
    if s.len() > 0 && is_whitespace(s.last()) {
        lemma_trimmed_end(s.drop_last());
        let t = trimmed_end(s);
        let b = choose|b: Seq<char>| is_blank(b) && s.drop_last() == #[trigger] (t + b);
        let longer = b.push(s.last());
        assert(is_blank(longer));
        assert(t == trimmed_end(s.drop_last()));
        assert(s =~= s.drop_last().push(s.last()));
        assert(s =~= t + longer);
    } else {
        let b = Seq::<char>::empty();
        assert(is_blank(b));
        assert(s =~= trimmed_end(s) + b);
    }
}

proof fn lemma_trimmed_start(s: Seq<char>)
    ensures
        exists|a: Seq<char>| is_blank(a) && s == #[trigger] (a + trimmed_start(s)),
    decreases s.len(),
{
    if s.len() > 0 && is_whitespace(s[0]) {
        lemma_trimmed_start(s.drop_first());
        let t = trimmed_start(s);
        let a = choose|a: Seq<char>| is_blank(a) && s.drop_first() == #[trigger] (a + t);
        let longer = seq![s[0]] + a;
        assert(is_blank(longer));
        assert(t == trimmed_start(s.drop_first()));
        assert(s =~= seq![s[0]] + s.drop_first());
        assert(s =~= longer + t);
    } else {
        let a = Seq::<char>::empty();
        assert(is_blank(a));
        assert(s =~= a + trimmed_start(s));
    }
}

/// Trimming takes white space from both ends, all of it and nothing else.
pub proof fn trimming_takes_white_space(s: Seq<char>)
    ensures
        exists|a: Seq<char>, b: Seq<char>|
            is_blank(a) && is_blank(b) && s == #[trigger] (a + trimmed(s) + b),
        trimmed(s).len() > 0 ==> !is_whitespace(trimmed(s)[0]) && !is_whitespace(
            trimmed(s).last(),
        ),
{
    crate::text::trimmed_facts(s);
    lemma_trimmed_end(s);
    let e = trimmed_end(s);
    lemma_trimmed_start(e);
    let b = choose|b: Seq<char>| is_blank(b) && s == #[trigger] (e + b);
    let a = choose|a: Seq<char>| is_blank(a) && e == #[trigger] (a + trimmed(s));
    assert(s =~= a + trimmed(s) + b);
}

/// White space is the space, the ASCII controls from tab to carriage return,
/// and the separators beyond ASCII; no visible ASCII character is.
pub proof fn ascii_white_space(c: char)
    requires
        c as u32 <= 0x7F,
    ensures
        is_whitespace(c) <==> seq![' ', '\t', '\n', '\u{b}', '\u{c}', '\r'].contains(c),
{
    let all = seq![' ', '\t', '\n', '\u{b}', '\u{c}', '\r'];
    assert(all[0] == ' ' && all[1] == '\t' && all[2] == '\n' && all[3] == '\u{b}' && all[4]
        == '\u{c}' && all[5] == '\r');
    if is_whitespace(c) {
        assert(c == all[0] || c == all[1] || c == all[2] || c == all[3] || c == all[4] || c
            == all[5]);
    }
}

/// Lowering changes the capital ASCII letters, each to the small one.
pub proof fn lowering_changes_capitals(s: Seq<char>, i: int)
    requires
        0 <= i < s.len(),
    ensures
        lowered(s).len() == s.len(),
        65 <= s[i] as u32 <= 90 ==> lowered(s)[i] as u32 == s[i] as u32 + 32,
        !(65 <= s[i] as u32 <= 90) ==> lowered(s)[i] == s[i],
{
}

// ---------------------------------------------------------------------------
// Finding
// ---------------------------------------------------------------------------

/// Whether a pattern stands at a position, character by character.
pub open spec fn stands(s: Seq<char>, pattern: Seq<char>, at: int) -> bool {
    &&& 0 <= at
    &&& at + pattern.len() <= s.len()
    &&& forall|j: int| 0 <= j < pattern.len() ==> s[at + j] == #[trigger] pattern[j]
}

/// To stand at a position is to be what is there.
pub proof fn standing_means_equal(s: Seq<char>, pattern: Seq<char>, at: int)
    ensures
        stands(s, pattern, at) <==> occurs_at(s, pattern, at),
{
    if occurs_at(s, pattern, at) {
        assert forall|j: int| 0 <= j < pattern.len() implies s[at + j] == #[trigger] pattern[j] by {
            assert(s.subrange(at, at + pattern.len())[j] == s[at + j]);
        }
    }
    if stands(s, pattern, at) {
        assert(s.subrange(at, at + pattern.len()) =~= pattern);
    }
}

/// The position that is found is the first one at which the pattern stands; a
/// pattern that stands somewhere is found.
pub proof fn finding_is_complete(s: Seq<char>, pattern: Seq<char>)
    ensures
        match find(s, pattern) {
            Some(i) => stands(s, pattern, i) && forall|k: int|
                0 <= k < i ==> !#[trigger] stands(s, pattern, k),
            None => forall|k: int| !#[trigger] stands(s, pattern, k),
        },
{
    find_from_meaning(s, pattern, 0);
    assert forall|k: int| #[trigger] stands(s, pattern, k) implies occurs_at(s, pattern, k) by {
        standing_means_equal(s, pattern, k);
    }
    if let Some(i) = find(s, pattern) {
        standing_means_equal(s, pattern, i);
    }
}

// ---------------------------------------------------------------------------
// Order
// ---------------------------------------------------------------------------

/// Texts are ordered by the first character in which they differ, and a text
/// comes before its continuations.
pub proof fn the_first_difference_decides(
    common: Seq<char>,
    x: char,
    y: char,
    a: Seq<char>,
    b: Seq<char>,
)
    requires
        x != y,
    ensures
        precedes(common + seq![x] + a, common + seq![y] + b) <==> (x as u32) < (y as u32),
        precedes(common, common + seq![x] + a),
        !precedes(common + seq![x] + a, common),
    decreases common.len(),
{
    let s = common + seq![x] + a;
    let t = common + seq![y] + b;
    if common.len() > 0 {
        let rest = common.drop_first();
        the_first_difference_decides(rest, x, y, a, b);
        assert(s.drop_first() =~= rest + seq![x] + a);
        assert(t.drop_first() =~= rest + seq![y] + b);
        assert(s[0] == common[0] && t[0] == common[0]);
    } else {
        assert(s[0] == x && t[0] == y);
    }
}

// ---------------------------------------------------------------------------
// Numbers
// ---------------------------------------------------------------------------

/// A number is written with its last digit behind the digits of its tens.
pub proof fn decimal_digits(n: nat)
    ensures
        decimal(n).len() > 0,
        decimal(n).last() as u32 == 48 + n % 10,
        n >= 10 ==> decimal(n).drop_last() == decimal(n / 10),
        n < 10 ==> decimal(n).len() == 1,
{
    if n >= 10 {
        assert(decimal(n).drop_last() =~= decimal(n / 10));
    }
}

/// The number in a text, with or without a plus sign, is that of its digits; a
/// text with any other character is no number.
pub proof fn numbers_are_read(s: Seq<char>)
    ensures
        s.len() == 0 ==> number_in(s) is None,
        forall|i: int|
            0 <= i < s.len() && !(48 <= #[trigger] s[i] as u32 <= 57) && !(i == 0 && s[i] == '+')
                ==> number_in(s) is None,
        s == seq!['+'] ==> number_in(s) is None,
{
    let d = crate::text::unsigned_digits(s);
    assert forall|i: int|
        0 <= i < s.len() && !(48 <= #[trigger] s[i] as u32 <= 57) && !(i == 0 && s[i]
            == '+') implies number_in(s) is None by {
        if s[0] == '+' {
            assert(d[i - 1] == s[i]);
        } else {
            assert(d[i] == s[i]);
        }
    }
}

} // verus!
