//! What a search tells, and which lines are read.

use vstd::prelude::*;

use super::fs::{
    compared, first_line, found, line_limit, lines_read, named_path,
    requested_path, FsTool, MatchAbs,
};
use crate::json::JsonAbs;
use crate::text::find;
use crate::text_laws::{finding_is_complete, stands};

verus! {

// ---------------------------------------------------------------------------
// Searching
// ---------------------------------------------------------------------------

/// A letter without regard to ASCII case.
pub open spec fn folded(c: char) -> u32 {
    if 65 <= c as u32 <= 90 {
        (c as u32 + 32) as u32
    } else {
        c as u32
    }
}

/// Whether a pattern stands in a line from a position on: letter by letter the
/// same or, where case does not count, the same but for ASCII case.
pub open spec fn matches_at(
    line: Seq<char>,
    pattern: Seq<char>,
    case_sensitive: bool,
    at: int,
) -> bool {
    &&& 0 <= at
    &&& at + pattern.len() <= line.len()
    &&& forall|j: int|
        0 <= j < pattern.len() ==> if case_sensitive {
            line[at + j] == #[trigger] pattern[j]
        } else {
            folded(line[at + j]) == folded(#[trigger] pattern[j])
        }
}

/// Whether a pattern stands anywhere in a line.
pub open spec fn holds_pattern(line: Seq<char>, pattern: Seq<char>, case_sensitive: bool) -> bool {
    exists|at: int| #[trigger] matches_at(line, pattern, case_sensitive, at)
}

proof fn lemma_compared(line: Seq<char>, pattern: Seq<char>, case_sensitive: bool, at: int)
    ensures
        matches_at(line, pattern, case_sensitive, at) <==> stands(
            compared(line, case_sensitive),
            compared(pattern, case_sensitive),
            at,
        ),
{
    let s = compared(line, case_sensitive);
    let p = compared(pattern, case_sensitive);
    if 0 <= at && at + pattern.len() <= line.len() {
        assert forall|j: int| 0 <= j < pattern.len() implies (s[at + j] == #[trigger] p[j] <==> if case_sensitive {
            line[at + j] == pattern[j]
        } else {
            folded(line[at + j]) == folded(pattern[j])
        }) by {}
        if matches_at(line, pattern, case_sensitive, at) {
            assert forall|j: int| 0 <= j < p.len() implies s[at + j] == #[trigger] p[j] by {
                assert(pattern[j] == pattern[j]);
            }
        }
        if stands(s, p, at) {
            assert forall|j: int| 0 <= j < pattern.len() implies if case_sensitive {
                line[at + j] == #[trigger] pattern[j]
            } else {
                folded(line[at + j]) == folded(#[trigger] pattern[j])
            } by {
                assert(s[at + j] == p[j]);
            }
        }
    }
}

proof fn lemma_hit(line: Seq<char>, pattern: Seq<char>, case_sensitive: bool)
    ensures
        find(compared(line, case_sensitive), compared(pattern, case_sensitive)) is Some
            <==> holds_pattern(line, pattern, case_sensitive),
{
    let s = compared(line, case_sensitive);
    let p = compared(pattern, case_sensitive);
    finding_is_complete(s, p);
    if let Some(i) = find(s, p) {
        lemma_compared(line, pattern, case_sensitive, i);
    }
    if holds_pattern(line, pattern, case_sensitive) {
        let at = choose|at: int| #[trigger] matches_at(line, pattern, case_sensitive, at);
        lemma_compared(line, pattern, case_sensitive, at);
        assert(stands(s, p, at));
    }
}

proof fn lemma_found(
    before: Seq<MatchAbs>,
    path: Seq<char>,
    lines: Seq<Seq<char>>,
    pattern: Seq<char>,
    case_sensitive: bool,
    max_matches: int,
    n: int,
)
    requires
        0 <= n <= lines.len(),
        before.len() <= max_matches,
    ensures
        ({
            let after = found(
                before,
                path,
                lines,
                compared(pattern, case_sensitive),
                case_sensitive,
                max_matches,
                n,
            );
            &&& before.len() <= after.len() <= max_matches
            &&& forall|i: int| 0 <= i < before.len() ==> #[trigger] after[i] == before[i]
            &&& forall|i: int|
                before.len() <= i < after.len() ==> {
                    let hit = #[trigger] after[i];
                    &&& hit.path == path
                    &&& 1 <= hit.line <= n
                    &&& hit.text == lines[hit.line - 1]
                    &&& holds_pattern(hit.text, pattern, case_sensitive)
                }
            &&& forall|i: int, j: int|
                before.len() <= i < j < after.len() ==> (#[trigger] after[i]).line < (
                #[trigger] after[j]).line
            &&& forall|k: int|
                0 <= k < n && holds_pattern(#[trigger] lines[k], pattern, case_sensitive)
                    ==> after.skip(before.len() as int).contains(
                    MatchAbs { path, line: k + 1, text: lines[k] },
                ) || (after.len() == max_matches && forall|i: int|
                    before.len() <= i < after.len() ==> (#[trigger] after[i]).line <= k)
        }),
    decreases n,
{
    if n > 0 {
        let needle = compared(pattern, case_sensitive);
        lemma_found(before, path, lines, pattern, case_sensitive, max_matches, n - 1);
        let so_far = found(before, path, lines, needle, case_sensitive, max_matches, n - 1);
        let after = found(before, path, lines, needle, case_sensitive, max_matches, n);
        let line = lines[n - 1];
        lemma_hit(line, pattern, case_sensitive);
        let m = before.len() as int;
        assert forall|k: int|
            0 <= k < n && holds_pattern(#[trigger] lines[k], pattern, case_sensitive) implies after.skip(
            m,
        ).contains(MatchAbs { path, line: k + 1, text: lines[k] }) || (after.len() == max_matches
            && forall|i: int| m <= i < after.len() ==> (#[trigger] after[i]).line <= k) by {
            let told = MatchAbs { path, line: k + 1, text: lines[k] };
            if k < n - 1 {
                if so_far.skip(m).contains(told) {
                    let i = choose|i: int| 0 <= i < so_far.skip(m).len() && so_far.skip(m)[i] == told;
                    assert(after.skip(m)[i] == told);
                } else {
                    assert(after == so_far);
                }
            } else if so_far.len() < max_matches {
                assert(after.skip(m)[after.len() - 1 - m] == told);
            }
        }
    }
}

/// A search through a file keeps what was found before, tells only lines in
/// which the pattern stands, each once, in their order and with their number
/// and text, and tells every such line: once it is full, those that follow the
/// last one told are left out, and no others.
pub proof fn searches_are_complete(
    before: Seq<MatchAbs>,
    path: Seq<char>,
    lines: Seq<Seq<char>>,
    pattern: Seq<char>,
    case_sensitive: bool,
    max_matches: int,
)
    requires
        before.len() <= max_matches,
    ensures
        ({
            let after = found(
                before,
                path,
                lines,
                compared(pattern, case_sensitive),
                case_sensitive,
                max_matches,
                lines.len() as int,
            );
            &&& before.len() <= after.len() <= max_matches
            &&& forall|i: int| 0 <= i < before.len() ==> #[trigger] after[i] == before[i]
            &&& forall|i: int|
                before.len() <= i < after.len() ==> {
                    let hit = #[trigger] after[i];
                    &&& hit.path == path
                    &&& 1 <= hit.line <= lines.len()
                    &&& hit.text == lines[hit.line - 1]
                    &&& holds_pattern(hit.text, pattern, case_sensitive)
                }
            &&& forall|i: int, j: int|
                before.len() <= i < j < after.len() ==> (#[trigger] after[i]).line < (
                #[trigger] after[j]).line
            &&& forall|k: int|
                0 <= k < lines.len() && holds_pattern(#[trigger] lines[k], pattern, case_sensitive)
                    ==> after.skip(before.len() as int).contains(
                    MatchAbs { path, line: k + 1, text: lines[k] },
                ) || (after.len() == max_matches && forall|i: int|
                    before.len() <= i < after.len() ==> (#[trigger] after[i]).line <= k)
        }),
{
    lemma_found(
        before,
        path,
        lines,
        pattern,
        case_sensitive,
        max_matches,
        lines.len() as int,
    );
}

// ---------------------------------------------------------------------------
// Reading
// ---------------------------------------------------------------------------

/// Reading begins with the line that is asked for, the first one unless
/// another is, and goes on to the end of the file or to the limit, whichever
/// comes first: 200 lines, or as many as are asked for, but no more than 500.
pub proof fn reading_stops_at_the_limit(total: nat, offset: Option<usize>, limit: Option<usize>)
    ensures
        ({
            let start = first_line(offset);
            let most = line_limit(limit);
            let count = lines_read(total as int, start, most);
            &&& offset is None ==> start == 1
            &&& offset == Some(0usize) ==> start == 1
            &&& (offset matches Some(line) ==> (line > 0 ==> start == line))
            &&& limit is None ==> most == 200
            &&& (limit matches Some(n) ==> (n <= 500 ==> most == n))
            &&& (limit matches Some(n) ==> (n > 500 ==> most == 500))
            &&& 0 <= count <= most
            &&& count > 0 ==> start + count - 1 <= total
            &&& count < most ==> start + count > total
        }),
{
}

/// Two pages, the second from the line behind the first, are one longer page.
pub proof fn pages_follow_each_other(total: nat, start: int, first: nat, second: nat)
    requires
        start >= 1,
    ensures
        lines_read(total as int, start, first as int) == first ==> lines_read(
            total as int,
            start,
            (first + second) as int,
        ) == first + lines_read(total as int, start + first, second as int),
{
}

// ---------------------------------------------------------------------------
// Paths
// ---------------------------------------------------------------------------

/// A call that reads or lists asks for the path that it names; a search asks
/// for the root where it names none; no other call asks for a path to read.
pub proof fn reading_calls_name_their_path(
    members: Seq<(Seq<char>, JsonAbs)>,
    path: Seq<char>,
    i: int,
)
    requires
        crate::json::in_key_order(members),
        0 <= i < members.len(),
        members[i] == ("path"@, JsonAbs::Text(path)),
    ensures
        requested_path(Some(FsTool::Read), JsonAbs::Object(members)) == Some(path),
        requested_path(Some(FsTool::List), JsonAbs::Object(members)) == Some(path),
        requested_path(Some(FsTool::Search), JsonAbs::Object(members)) == Some(path),
        requested_path(Some(FsTool::ApplyPatch), JsonAbs::Object(members)) is None,
{
    let all = JsonAbs::Object(members);
    assert(super::fs::has_member(all, "path"@, JsonAbs::Text(path)));
    super::fs::lemma_one_path(members, JsonAbs::Text(path));
    assert(named_path(all) == Some(path));
}

/// Without a path that is a text, only a search has one: the root.
pub proof fn unnamed_paths(members: Seq<(Seq<char>, JsonAbs)>)
    requires
        forall|i: int|
            0 <= i < members.len() && (#[trigger] members[i]).0 == "path"@ ==> !(members[i].1
                is Text),
    ensures
        requested_path(Some(FsTool::Read), JsonAbs::Object(members)) is None,
        requested_path(Some(FsTool::List), JsonAbs::Object(members)) is None,
        requested_path(Some(FsTool::Search), JsonAbs::Object(members)) == Some("."@),
{
    let all = JsonAbs::Object(members);
    assert forall|path: Seq<char>| !#[trigger] super::fs::has_member(
        all,
        "path"@,
        JsonAbs::Text(path),
    ) by {
        if super::fs::has_member(all, "path"@, JsonAbs::Text(path)) {
            let i = choose|i: int|
                0 <= i < members.len() && members[i] == ("path"@, JsonAbs::Text(path));
            assert(members[i].0 == "path"@);
        }
    }
}

} // verus!
