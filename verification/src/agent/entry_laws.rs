//! Memory entries as text: what is rendered is read back.

use vstd::prelude::*;

use super::memory::{is_slug, is_supersession};
use super::memory_entry::{
    claim_line, claim_lines, empty_scan, entry_lines, entry_text, file_tag, file_text, file_texts,
    group_at, header_field, header_lines, is_digest_prefix, is_line, joined, no_tags, read_claim,
    read_entry, read_file, read_files, read_sources, read_tags, scan_lines, source_tag,
    status_tag, status_text, supersession_tag, tag_text, unlines_round_trip, with_tag, ClaimTags,
    EntryParseErrorAbs, EntryScan, FileSourceAbs, MemoryEntryAbs, StoredClaimAbs,
};
use super::memory_laws::{is_slug_char, lemma_free, lemma_slug_free};
use crate::correlation_id::{
    hyphen_at, identified, identity_round_trip, identity_text, identity_text_is_unique,
    is_hyphenated, is_version7, ParseIdError,
};
use crate::text::{
    after, cut, cut_is, ends, find_from_meaning, is_blank, is_hex, is_whitespace, lines_of,
    occurs_at, pieces, pieces_extended, pieces_nonempty, rcut_at_char, rfind, rfind_from_meaning,
    trimmed, trimmed_end, trimmed_end_facts, trimmed_facts, trimmed_start, trimmed_start_facts,
    without_prefix,
};

verus! {

// ---------------------------------------------------------------------------
// What can be written
// ---------------------------------------------------------------------------

/// The keys of the tags.
pub open spec fn is_tag_key(key: Seq<char>) -> bool {
    key == "src"@ || key == "file"@ || key == "status"@ || key == "superseded-by"@
}

/// Whether the end of a text would not be taken for a tag.
pub open spec fn has_no_tag(text: Seq<char>) -> bool {
    ends(text, seq![']']) ==> match rfind(text, seq!['[']) {
        None => false,
        Some(start) => match group_at(text, start) {
            None => true,
            Some((key, value)) => !is_tag_key(key),
        },
    }
}

/// A text that stands in a line, without white space at its ends.
pub open spec fn is_phrase(text: Seq<char>) -> bool {
    text.len() > 0 && trimmed(text) == text && !text.contains('\n')
}

/// A file source that can be written: no separator and no bracket in its path,
/// and no `@` where it has no digest.
pub open spec fn is_written_file(file: FileSourceAbs) -> bool {
    &&& file.path.len() > 0
    &&& file.path[0] != '/'
    &&& !file.path.contains('\0')
    &&& is_phrase(file_text(file))
    &&& !file.path.contains(',')
    &&& !file.path.contains('[')
    &&& match file.digest {
        Some(digest) => is_digest_prefix(digest),
        None => !file.path.contains('@'),
    }
}

/// A claim that can be written.
pub open spec fn is_written_claim(claim: StoredClaimAbs) -> bool {
    &&& is_phrase(claim.text)
    &&& has_no_tag(claim.text)
    &&& claim.sources.len() > 0 || claim.files.len() > 0
    &&& forall|i: int|
        0 <= i < claim.sources.len() ==> identified(#[trigger] claim.sources[i], "msg_") is Ok
    &&& forall|i: int| 0 <= i < claim.files.len() ==> is_written_file(#[trigger] claim.files[i])
    &&& claim.superseded_by matches Some(reference) ==> is_supersession(reference)
}

/// An entry that can be written.
pub open spec fn is_written_entry(entry: MemoryEntryAbs) -> bool {
    &&& entry.title.len() > 0
    &&& is_line(entry.title)
    &&& is_slug(entry.slug)
    &&& entry.created.len() == 16 && is_version7(entry.created)
    &&& entry.updated.len() == 16 && is_version7(entry.updated)
    &&& entry.artifact matches Some(artifact) ==> is_line(artifact)
    &&& forall|i: int| 0 <= i < entry.claims.len() ==> is_written_claim(#[trigger] entry.claims[i])
}

// ---------------------------------------------------------------------------
// White space
// ---------------------------------------------------------------------------

/// A text that ends visibly is not trimmed at its end.
proof fn lemma_visible_end(s: Seq<char>)
    requires
        s.len() > 0,
        !is_whitespace(s.last()),
    ensures
        trimmed_end(s) == s,
        trimmed_end(s.push(' ')) == s,
{
    assert(s.push(' ').drop_last() =~= s);
}

/// A text that begins and ends visibly is its own trimmed form.
proof fn lemma_visible_ends(s: Seq<char>)
    requires
        s.len() > 0,
        !is_whitespace(s[0]),
        !is_whitespace(s.last()),
    ensures
        trimmed(s) == s,
{
    lemma_visible_end(s);
}

/// A space before a trimmed text is trimmed off.
proof fn lemma_trim_space(s: Seq<char>)
    requires
        s.len() > 0,
        trimmed(s) == s,
    ensures
        trimmed(seq![' '] + s) == s,
        !is_whitespace(s[0]),
        !is_whitespace(s.last()),
{
    trimmed_facts(s);
    let t = seq![' '] + s;
    assert(t.last() == s.last());
    lemma_visible_end(t);
    assert(t.drop_first() =~= s);
    assert(trimmed_start(t) == trimmed_start(s));
    assert(trimmed_start(s) == s);
}

// ---------------------------------------------------------------------------
// Lists
// ---------------------------------------------------------------------------

/// What a joined list is split into.
pub open spec fn split_items(items: Seq<Seq<char>>) -> Seq<Seq<char>> {
    Seq::new(
        items.len(),
        |i: int|
            if i == 0 {
                items[0]
            } else {
                seq![' '] + items[i]
            },
    )
}

proof fn lemma_split_joined(items: Seq<Seq<char>>)
    requires
        items.len() > 0,
        forall|i: int| 0 <= i < items.len() ==> !(#[trigger] items[i]).contains(','),
    ensures
        pieces(joined(items), ',') == split_items(items),
    decreases items.len(),
{
    let none = Seq::<char>::empty();
    if items.len() == 1 {
        assert(!items[0].contains(','));
        pieces_extended(none, items[0], ',');
        assert(none + items[0] =~= items[0]);
        assert(pieces(none, ',') =~= seq![none]);
        assert(pieces(items[0], ',') =~= split_items(items));
    } else {
        let rest = items.drop_last();
        assert forall|i: int| 0 <= i < rest.len() implies !(#[trigger] rest[i]).contains(',') by {
            assert(rest[i] == items[i]);
        }
        lemma_split_joined(rest);
        let last = items[items.len() - 1];
        reveal_strlit(", ");
        let before = joined(rest);
        let comma = before + seq![','];
        assert(comma.drop_last() =~= before);
        assert(pieces(comma, ',') == pieces(before, ',').push(none));
        let more = seq![' '] + last;
        assert(!seq![' '].contains(','));
        assert(!last.contains(','));
        lemma_free(seq![' '], last, ',');
        pieces_extended(comma, more, ',');
        assert(comma + more =~= joined(items));
        assert(none + more =~= more);
        assert(pieces(joined(items), ',') =~= split_items(items));
    }
}

/// A character that stands in no item and in no separator does not stand in
/// the list.
proof fn lemma_joined_free(items: Seq<Seq<char>>, c: char)
    requires
        forall|i: int| 0 <= i < items.len() ==> !(#[trigger] items[i]).contains(c),
        c != ',',
        c != ' ',
    ensures
        !joined(items).contains(c),
    decreases items.len(),
{
    if items.len() == 1 {
        assert(!items[0].contains(c));
    } else if items.len() > 1 {
        let rest = items.drop_last();
        assert forall|i: int| 0 <= i < rest.len() implies !(#[trigger] rest[i]).contains(c) by {
            assert(rest[i] == items[i]);
        }
        lemma_joined_free(rest, c);
        reveal_strlit(", ");
        assert(!items[items.len() - 1].contains(c));
        lemma_free(joined(rest), ", "@, c);
        lemma_free(joined(rest) + ", "@, items.last(), c);
    }
}

// ---------------------------------------------------------------------------
// Sources and files
// ---------------------------------------------------------------------------

/// The text of an identity holds nothing but lowercase letters, digits,
/// hyphens and underscores, and begins and ends visibly.
proof fn lemma_identity_free(value: Seq<char>, prefix: &'static str, c: char)
    requires
        identified(value, prefix) is Ok,
        prefix == "msg_" || prefix == "run_",
        !is_slug_char(c),
        c != '_',
    ensures
        !value.contains(c),
        value.len() > 0,
        trimmed(value) == value,
{
    reveal(is_hyphenated);
    reveal_strlit("msg_");
    reveal_strlit("run_");
    let payload = after(value, prefix@.len() as int);
    assert(value.subrange(0, prefix@.len() as int) == prefix@);
    assert forall|i: int| 0 <= i < value.len() implies is_slug_char(#[trigger] value[i])
        || value[i] == '_' by {
        if i < 4 {
            assert(value[i] == value.subrange(0, 4)[i]);
        } else {
            assert(value[i] == payload[i - 4]);
            assert(if hyphen_at(i - 4) {
                payload[i - 4] == '-'
            } else {
                crate::text::is_lower_hex(payload[i - 4])
            });
        }
    }
    if value.contains(c) {
        let i = choose|i: int| 0 <= i < value.len() && value[i] == c;
        assert(is_slug_char(value[i]) || value[i] == '_');
    }
    assert(is_slug_char(value[0]) || value[0] == '_');
    assert(is_slug_char(value[value.len() - 1]) || value[value.len() - 1] == '_');
    lemma_visible_ends(value);
}

proof fn lemma_read_sources(sources: Seq<Seq<char>>, n: int, line: usize)
    requires
        0 <= n <= sources.len(),
        forall|i: int|
            0 <= i < sources.len() ==> identified(#[trigger] sources[i], "msg_") is Ok,
    ensures
        read_sources(split_items(sources).take(n), line) == Ok::<
            Seq<Seq<char>>,
            EntryParseErrorAbs,
        >(sources.take(n)),
    decreases n,
{
    let items = split_items(sources);
    if n == 0 {
        assert(items.take(0) =~= Seq::<Seq<char>>::empty());
        assert(sources.take(0) =~= Seq::<Seq<char>>::empty());
    } else {
        lemma_read_sources(sources, n - 1, line);
        assert(items.take(n).drop_last() =~= items.take(n - 1));
        assert(sources.take(n) =~= sources.take(n - 1).push(sources[n - 1]));
        assert(identified(sources[n - 1], "msg_") is Ok);
        lemma_identity_free(sources[n - 1], "msg_", ' ');
        lemma_trim_space(sources[n - 1]);
    }
}

/// A file source is read back as it was written.
proof fn lemma_read_file(file: FileSourceAbs, line: usize)
    requires
        is_written_file(file),
    ensures
        read_file(file_text(file), line) == Ok::<FileSourceAbs, EntryParseErrorAbs>(file),
        !file_text(file).contains(','),
        !file_text(file).contains('['),
{
    reveal_strlit("@");
    assert("@"@ =~= seq!['@']);
    match file.digest {
        Some(digest) => {
            assert forall|i: int| 0 <= i < digest.len() implies digest[i] != '@' && digest[i] != ','
                && digest[i] != '[' by {
                assert(is_hex(digest[i]));
            }
            rcut_at_char(file.path, '@', digest);
            lemma_free(file.path, "@"@, ',');
            lemma_free(file.path + "@"@, digest, ',');
            lemma_free(file.path, "@"@, '[');
            lemma_free(file.path + "@"@, digest, '[');
        },
        None => {
            lemma_no_occurrence(file.path, '@');
        },
    }
}

/// A character that does not stand in a text is not found in it.
proof fn lemma_no_occurrence(s: Seq<char>, c: char)
    ensures
        rfind(s, seq![c]) is None <==> !s.contains(c),
{
    rfind_from_meaning(s, seq![c], s.len() - 1);
    if let Some(i) = rfind(s, seq![c]) {
        assert(s.subrange(i, i + 1)[0] == s[i]);
        assert(s.contains(s[i]));
    } else if s.contains(c) {
        let i = choose|i: int| 0 <= i < s.len() && s[i] == c;
        assert(s.subrange(i, i + 1) =~= seq![c]);
        assert(occurs_at(s, seq![c], i));
    }
}

proof fn lemma_read_files(files: Seq<FileSourceAbs>, n: int, line: usize)
    requires
        0 <= n <= files.len(),
        forall|i: int| 0 <= i < files.len() ==> is_written_file(#[trigger] files[i]),
    ensures
        read_files(split_items(file_texts(files)).take(n), line) == Ok::<
            Seq<FileSourceAbs>,
            EntryParseErrorAbs,
        >(files.take(n)),
    decreases n,
{
    let items = split_items(file_texts(files));
    if n == 0 {
        assert(items.take(0) =~= Seq::<Seq<char>>::empty());
        assert(files.take(0) =~= Seq::<FileSourceAbs>::empty());
    } else {
        lemma_read_files(files, n - 1, line);
        assert(items.take(n).drop_last() =~= items.take(n - 1));
        assert(files.take(n) =~= files.take(n - 1).push(files[n - 1]));
        assert(is_written_file(files[n - 1]));
        lemma_read_file(files[n - 1], line);
        lemma_trim_space(file_text(files[n - 1]));
    }
}

// ---------------------------------------------------------------------------
// Tags
// ---------------------------------------------------------------------------

/// A tag at the end of a body is read, and reading goes on before it.
proof fn lemma_tag_step(
    front: Seq<char>,
    key: Seq<char>,
    value: Seq<char>,
    tags: ClaimTags,
    line: usize,
)
    requires
        front.len() > 0,
        !is_whitespace(front.last()),
        is_tag_key(key),
        !value.contains('['),
        with_tag(tags, key, value, line) matches Some(Ok(_)),
    ensures
        read_tags(front + tag_text(key, value), tags, line) == read_tags(
            front,
            with_tag(tags, key, value, line)->Some_0->Ok_0,
            line,
        ),
        (front + tag_text(key, value)).last() == ']',
{
    reveal_strlit(" [");
    reveal_strlit(": ");
    reveal_strlit("]");
    reveal_strlit("src");
    reveal_strlit("file");
    reveal_strlit("status");
    reveal_strlit("superseded-by");
    let body = front + tag_text(key, value);
    let inner = key + ": "@ + value;
    let back = inner + "]"@;
    assert(body =~= front.push(' ') + seq!['['] + back);
    assert(body.subrange(body.len() - 1, body.len() as int) =~= seq![']']);
    assert(!key.contains('['));
    assert(!key.contains(':'));
    lemma_free(key, ": "@, '[');
    lemma_free(key + ": "@, value, '[');
    lemma_free(inner, "]"@, '[');
    rcut_at_char(front.push(' '), '[', back);
    let start = front.len() as int + 1;
    assert(rfind(body, seq!['[']) == Some(start));
    assert(body.subrange(start + 1, body.len() - 1) =~= inner);
    cut_is(key, ": "@, value);
    assert(group_at(body, start) == Some((key, value)));
    assert(body.subrange(0, start) =~= front.push(' '));
    lemma_visible_end(front);
}

/// A text that has no tag at its end is read as it stands.
proof fn lemma_no_tag(text: Seq<char>, tags: ClaimTags, line: usize)
    requires
        has_no_tag(text),
    ensures
        read_tags(text, tags, line) == Ok::<(Seq<char>, ClaimTags), EntryParseErrorAbs>(
            (text, tags),
        ),
{
}

/// A supersession reference holds no bracket and stands in a line.
proof fn lemma_reference_free(reference: Seq<char>, c: char)
    requires
        is_supersession(reference),
        !is_slug_char(c),
        c != '#',
    ensures
        !reference.contains(c),
{
    find_from_meaning(reference, seq!['#'], 0);
    let (slug, ordinal) = cut(reference, seq!['#'])->Some_0;
    let number = without_prefix(ordinal, "claim-"@)->Some_0;
    let at = slug.len() as int;
    assert(reference.subrange(at, at + 1)[0] == reference[at]);
    assert(reference =~= slug + seq!['#'] + ordinal);
    assert(ordinal.subrange(0, "claim-"@.len() as int) == "claim-"@);
    assert(ordinal =~= "claim-"@ + number);
    reveal_strlit("claim-");
    lemma_slug_free(slug, c);
    assert forall|i: int| 0 <= i < number.len() implies number[i] != c by {
        assert(crate::text::is_digit(number[i]));
    }
    assert(!"claim-"@.contains(c));
    lemma_free("claim-"@, number, c);
    lemma_free(slug, seq!['#'], c);
    lemma_free(slug + seq!['#'], ordinal, c);
}

/// A claim is read back as it was written.
pub proof fn claim_round_trip(claim: StoredClaimAbs, line: usize)
    requires
        is_written_claim(claim),
    ensures
        read_claim(claim_line(claim), line) == Ok::<StoredClaimAbs, EntryParseErrorAbs>(claim),
{
    let t0 = no_tags();
    let t1 = ClaimTags { superseded_by: claim.superseded_by, ..t0 };
    let t2 = ClaimTags { status: claim.status, ..t1 };
    let t3 = ClaimTags { files: claim.files, ..t2 };
    let t4 = ClaimTags { sources: claim.sources, ..t3 };
    let b4 = claim.text;
    let b3 = b4 + source_tag(claim);
    let b2 = b3 + file_tag(claim);
    let b1 = b2 + status_tag(claim);
    let b0 = b1 + supersession_tag(claim);
    trimmed_facts(claim.text);
    lemma_no_tag(b4, t4, line);
    lemma_source_step(claim, b4, t3, line);
    lemma_file_step(claim, b3, t2, line);
    lemma_status_step(claim, b2, t1, line);
    lemma_supersession_step(claim, b1, t0, line);
    assert(t1 == t0 || claim.superseded_by is Some);
    let text = claim_line(claim);
    assert(text =~= "- "@ + b0);
    assert(text.subrange(0, "- "@.len() as int) =~= "- "@);
    assert(after(text, "- "@.len() as int) =~= b0);
}

proof fn lemma_source_step(claim: StoredClaimAbs, front: Seq<char>, tags: ClaimTags, line: usize)
    requires
        is_written_claim(claim),
        front.len() > 0,
        !is_whitespace(front.last()),
        tags.sources == Seq::<Seq<char>>::empty(),
    ensures
        read_tags(front + source_tag(claim), tags, line) == read_tags(
            front,
            ClaimTags { sources: claim.sources, ..tags },
            line,
        ),
        !is_whitespace((front + source_tag(claim)).last()),
{
    if claim.sources.len() == 0 {
        assert(front + source_tag(claim) =~= front);
        assert(claim.sources =~= Seq::<Seq<char>>::empty());
    } else {
        let items = claim.sources;
        assert forall|i: int| 0 <= i < items.len() implies !(#[trigger] items[i]).contains(',')
            && !items[i].contains('[') by {
            assert(identified(items[i], "msg_") is Ok);
            lemma_identity_free(items[i], "msg_", ',');
            lemma_identity_free(items[i], "msg_", '[');
        }
        lemma_split_joined(items);
        lemma_joined_free(items, '[');
        lemma_read_sources(items, items.len() as int, line);
        assert(split_items(items).take(items.len() as int) =~= split_items(items));
        assert(items.take(items.len() as int) =~= items);
        lemma_tag_step(front, "src"@, joined(items), tags, line);
    }
}

proof fn lemma_file_step(claim: StoredClaimAbs, front: Seq<char>, tags: ClaimTags, line: usize)
    requires
        is_written_claim(claim),
        front.len() > 0,
        !is_whitespace(front.last()),
        tags.files == Seq::<FileSourceAbs>::empty(),
    ensures
        read_tags(front + file_tag(claim), tags, line) == read_tags(
            front,
            ClaimTags { files: claim.files, ..tags },
            line,
        ),
        !is_whitespace((front + file_tag(claim)).last()),
{
    if claim.files.len() == 0 {
        assert(front + file_tag(claim) =~= front);
        assert(claim.files =~= Seq::<FileSourceAbs>::empty());
    } else {
        let items = file_texts(claim.files);
        assert forall|i: int| 0 <= i < items.len() implies !(#[trigger] items[i]).contains(',')
            && !items[i].contains('[') by {
            assert(is_written_file(claim.files[i]));
            lemma_read_file(claim.files[i], line);
        }
        lemma_split_joined(items);
        lemma_joined_free(items, '[');
        lemma_read_files(claim.files, items.len() as int, line);
        assert(split_items(items).take(items.len() as int) =~= split_items(items));
        assert(claim.files.take(items.len() as int) =~= claim.files);
        reveal_strlit("src");
        reveal_strlit("file");
        assert("src"@.len() != "file"@.len());
        lemma_tag_step(front, "file"@, joined(items), tags, line);
    }
}

proof fn lemma_status_step(claim: StoredClaimAbs, front: Seq<char>, tags: ClaimTags, line: usize)
    requires
        is_written_claim(claim),
        front.len() > 0,
        !is_whitespace(front.last()),
        tags.status is None,
    ensures
        read_tags(front + status_tag(claim), tags, line) == read_tags(
            front,
            ClaimTags { status: claim.status, ..tags },
            line,
        ),
        !is_whitespace((front + status_tag(claim)).last()),
{
    match claim.status {
        None => {
            assert(front + status_tag(claim) =~= front);
        },
        Some(status) => {
            reveal_strlit("src");
            reveal_strlit("file");
            reveal_strlit("status");
            reveal_strlit("active");
            reveal_strlit("stale");
            assert("src"@.len() == 3 && "file"@.len() == 4 && "status"@.len() == 6);
            assert("active"@.len() == 6 && "stale"@.len() == 5);
            assert(!status_text(status).contains('['));
            lemma_tag_step(front, "status"@, status_text(status), tags, line);
        },
    }
}

proof fn lemma_supersession_step(
    claim: StoredClaimAbs,
    front: Seq<char>,
    tags: ClaimTags,
    line: usize,
)
    requires
        is_written_claim(claim),
        front.len() > 0,
        !is_whitespace(front.last()),
        tags.superseded_by is None,
    ensures
        read_tags(front + supersession_tag(claim), tags, line) == read_tags(
            front,
            ClaimTags { superseded_by: claim.superseded_by, ..tags },
            line,
        ),
        !is_whitespace((front + supersession_tag(claim)).last()),
{
    match claim.superseded_by {
        None => {
            assert(front + supersession_tag(claim) =~= front);
        },
        Some(reference) => {
            reveal_strlit("src");
            reveal_strlit("file");
            reveal_strlit("status");
            reveal_strlit("superseded-by");
            assert("src"@.len() == 3 && "file"@.len() == 4 && "status"@.len() == 6);
            assert("superseded-by"@.len() == 13);
            lemma_reference_free(reference, '[');
            lemma_tag_step(front, "superseded-by"@, reference, tags, line);
        },
    }
}

// ---------------------------------------------------------------------------
// Lines
// ---------------------------------------------------------------------------

/// A tag stands in a line where its value does.
proof fn lemma_tag_is_flat(key: Seq<char>, value: Seq<char>)
    requires
        is_tag_key(key),
        !value.contains('\n'),
    ensures
        !tag_text(key, value).contains('\n'),
        tag_text(key, value).last() == ']',
        tag_text(key, value).len() > 0,
{
    reveal_strlit(" [");
    reveal_strlit(": ");
    reveal_strlit("]");
    reveal_strlit("src");
    reveal_strlit("file");
    reveal_strlit("status");
    reveal_strlit("superseded-by");
    assert(!key.contains('\n'));
    lemma_free(" ["@, key, '\n');
    lemma_free(" ["@ + key, ": "@, '\n');
    lemma_free(" ["@ + key + ": "@, value, '\n');
    lemma_free(" ["@ + key + ": "@ + value, "]"@, '\n');
}

/// The line of a claim stands whole between line feeds.
proof fn lemma_claim_is_line(claim: StoredClaimAbs)
    requires
        is_written_claim(claim),
    ensures
        is_line(claim_line(claim)),
        claim_line(claim).len() > 0,
{
    reveal_strlit("- ");
    let c = '\n';
    let none = Seq::<char>::empty();
    assert(!none.contains(c));
    let sources = source_tag(claim);
    let files = file_tag(claim);
    let status = status_tag(claim);
    let by = supersession_tag(claim);
    if claim.sources.len() > 0 {
        assert forall|i: int| 0 <= i < claim.sources.len() implies !(
        #[trigger] claim.sources[i]).contains(c) by {
            lemma_identity_free(claim.sources[i], "msg_", c);
        }
        lemma_joined_free(claim.sources, c);
        lemma_tag_is_flat("src"@, joined(claim.sources));
    }
    if claim.files.len() > 0 {
        let items = file_texts(claim.files);
        assert forall|i: int| 0 <= i < items.len() implies !(#[trigger] items[i]).contains(c) by {
            assert(is_written_file(claim.files[i]));
        }
        lemma_joined_free(items, c);
        lemma_tag_is_flat("file"@, joined(items));
    }
    if let Some(value) = claim.status {
        reveal_strlit("active");
        reveal_strlit("stale");
        assert(!status_text(value).contains(c));
        lemma_tag_is_flat("status"@, status_text(value));
    }
    if let Some(reference) = claim.superseded_by {
        lemma_reference_free(reference, c);
        lemma_tag_is_flat("superseded-by"@, reference);
    }
    lemma_free("- "@, claim.text, c);
    lemma_free("- "@ + claim.text, sources, c);
    lemma_free("- "@ + claim.text + sources, files, c);
    lemma_free("- "@ + claim.text + sources + files, status, c);
    lemma_free("- "@ + claim.text + sources + files + status, by, c);
    let text = claim_line(claim);
    if by.len() > 0 {
        assert(text.last() == by.last());
    } else if status.len() > 0 {
        assert(text.last() == status.last());
    } else if files.len() > 0 {
        assert(text.last() == files.last());
    } else {
        assert(text.last() == sources.last());
    }
}

/// The name and the value of a header line are read back.
proof fn lemma_header_line(lead: Seq<char>, name: Seq<char>, value: Seq<char>)
    requires
        lead == "- "@ + name + ": "@,
        !name.contains(':'),
        !name.contains('\n'),
    ensures
        header_field(lead + value) == Some((name, value)),
        (lead + value).len() > 0,
        lead + value != "## Claims"@,
        is_line(value) ==> is_line(lead + value),
{
    reveal_strlit("- ");
    reveal_strlit(": ");
    reveal_strlit("## Claims");
    let text = lead + value;
    assert(text[0] == '-');
    assert("## Claims"@[0] == '#');
    assert(text.subrange(0, 2) =~= "- "@);
    assert(after(text, 2) =~= name + ": "@ + value);
    cut_is(name, ": "@, value);
    if is_line(value) {
        lemma_free("- "@, name, '\n');
        lemma_free("- "@ + name, ": "@, '\n');
        lemma_free(lead, value, '\n');
        if value.len() > 0 {
            assert(text.last() == value.last());
            assert(value.last() != '\r') by {
                if value.last() == '\r' {
                    assert(value.drop_last().len() != value.len());
                }
            }
        } else {
            assert(text.last() == ' ');
        }
    }
}

/// The text of an identity stands in a line.
proof fn lemma_identity_is_line(bytes: Seq<u8>)
    requires
        bytes.len() == 16,
        is_version7(bytes),
    ensures
        is_line(identity_text("run_", bytes)),
        identified(identity_text("run_", bytes), "run_") == Ok::<Seq<u8>, ParseIdError>(bytes),
{
    let text = identity_text("run_", bytes);
    identity_round_trip("run_", bytes);
    lemma_identity_free(text, "run_", '\n');
    lemma_identity_free(text, "run_", '\r');
    assert(text.contains(text[text.len() - 1]));
}

/// What has been read of an entry when its claims begin.
spec fn header_scan(entry: MemoryEntryAbs) -> EntryScan {
    EntryScan {
        slug: Some(entry.slug),
        created: Some(entry.created),
        updated: Some(entry.updated),
        artifact: entry.artifact,
        in_claims: true,
        claims: Seq::empty(),
    }
}

/// The header lines are read back, and each is a line.
#[verifier::rlimit(30)]
proof fn lemma_header(entry: MemoryEntryAbs, lines: Seq<Seq<char>>)
    requires
        is_written_entry(entry),
        lines.len() >= header_lines(entry).len(),
        lines.take(header_lines(entry).len() as int) == header_lines(entry),
    ensures
        scan_lines(lines, header_lines(entry).len() as int) == Ok::<EntryScan, EntryParseErrorAbs>(
            header_scan(entry),
        ),
        forall|i: int|
            0 <= i < header_lines(entry).len() ==> is_line(#[trigger] header_lines(entry)[i]),
        without_prefix(lines[0], "# "@) == Some(entry.title),
{
    reveal_strlit("- ");
    reveal_strlit(": ");
    reveal_strlit("- slug: ");
    reveal_strlit("- created: ");
    reveal_strlit("- updated: ");
    reveal_strlit("- artifact: ");
    reveal_strlit("slug");
    reveal_strlit("created");
    reveal_strlit("updated");
    reveal_strlit("artifact");
    reveal_strlit("# ");
    reveal_strlit("## Claims");
    let head = header_lines(entry);
    assert forall|i: int| 0 <= i < head.len() implies #[trigger] lines[i] == head[i] by {
        assert(lines.take(head.len() as int)[i] == lines[i]);
    }
    assert("- slug: "@ =~= "- "@ + "slug"@ + ": "@);
    assert("- created: "@ =~= "- "@ + "created"@ + ": "@);
    assert("- updated: "@ =~= "- "@ + "updated"@ + ": "@);
    assert("- artifact: "@ =~= "- "@ + "artifact"@ + ": "@);
    assert("slug"@.len() == 4 && "created"@.len() == 7 && "updated"@.len() == 7
        && "artifact"@.len() == 8);
    assert("created"@[0] != "updated"@[0]);
    lemma_identity_is_line(entry.created);
    lemma_identity_is_line(entry.updated);
    let created = identity_text("run_", entry.created);
    let updated = identity_text("run_", entry.updated);
    lemma_header_line("- slug: "@, "slug"@, entry.slug);
    lemma_header_line("- created: "@, "created"@, created);
    lemma_header_line("- updated: "@, "updated"@, updated);
    lemma_slug_free(entry.slug, '\n');
    lemma_slug_free(entry.slug, '\r');
    if entry.slug.len() > 0 {
        assert(entry.slug.contains(entry.slug[entry.slug.len() - 1]));
    }
    assert(is_line(entry.slug));
    let none = Seq::<char>::empty();
    assert(is_line(none));
    assert(is_line("## Claims"@));
    let title = "# "@ + entry.title;
    lemma_free("# "@, entry.title, '\n');
    assert(title.last() == entry.title.last());
    assert(entry.title.last() != '\r') by {
        if entry.title.last() == '\r' {
            assert(entry.title.drop_last().len() != entry.title.len());
        }
    }
    assert(is_line(title));
    assert(title.subrange(0, 2) =~= "# "@);
    assert(after(title, 2) =~= entry.title);
    assert(head[0] == title && head[1] == none && head[2] == "- slug: "@ + entry.slug);
    assert(head[3] == "- created: "@ + created && head[4] == "- updated: "@ + updated);
    let s0 = empty_scan();
    let s1 = EntryScan { slug: Some(entry.slug), ..s0 };
    let s2 = EntryScan { created: Some(entry.created), ..s1 };
    let s3 = EntryScan { updated: Some(entry.updated), ..s2 };
    let s4 = EntryScan { artifact: entry.artifact, ..s3 };
    assert(scan_lines(lines, 1) == Ok::<EntryScan, EntryParseErrorAbs>(s0));
    assert(scan_lines(lines, 2) == Ok::<EntryScan, EntryParseErrorAbs>(s0));
    assert(scan_lines(lines, 3) == Ok::<EntryScan, EntryParseErrorAbs>(s1));
    assert(scan_lines(lines, 4) == Ok::<EntryScan, EntryParseErrorAbs>(s2));
    assert(scan_lines(lines, 5) == Ok::<EntryScan, EntryParseErrorAbs>(s3));
    match entry.artifact {
        Some(artifact) => {
            lemma_header_line("- artifact: "@, "artifact"@, artifact);
            assert(head.len() == 8);
            assert(head[5] == "- artifact: "@ + artifact);
            assert(head[6] == none && head[7] == "## Claims"@);
            assert(scan_lines(lines, 6) == Ok::<EntryScan, EntryParseErrorAbs>(s4));
            assert(scan_lines(lines, 7) == Ok::<EntryScan, EntryParseErrorAbs>(s4));
            assert(scan_lines(lines, 8) == Ok::<EntryScan, EntryParseErrorAbs>(
                header_scan(entry),
            ));
        },
        None => {
            assert(head.len() == 7);
            assert(head[5] == none && head[6] == "## Claims"@);
            assert(scan_lines(lines, 6) == Ok::<EntryScan, EntryParseErrorAbs>(s4));
            assert(scan_lines(lines, 7) == Ok::<EntryScan, EntryParseErrorAbs>(
                header_scan(entry),
            ));
        },
    }
}

/// The lines of the first `n` claims are read back.
proof fn lemma_claims(
    entry: MemoryEntryAbs,
    lines: Seq<Seq<char>>,
    from: int,
    n: int,
)
    requires
        is_written_entry(entry),
        0 <= n <= entry.claims.len(),
        1 <= from,
        from + entry.claims.len() == lines.len(),
        forall|i: int|
            0 <= i < entry.claims.len() ==> #[trigger] lines[from + i] == claim_line(
                entry.claims[i],
            ),
        scan_lines(lines, from) == Ok::<EntryScan, EntryParseErrorAbs>(header_scan(entry)),
    ensures
        scan_lines(lines, from + n) == Ok::<EntryScan, EntryParseErrorAbs>(
            EntryScan { claims: entry.claims.take(n), ..header_scan(entry) },
        ),
    decreases n,
{
    if n == 0 {
        assert(entry.claims.take(0) =~= Seq::<StoredClaimAbs>::empty());
    } else {
        lemma_claims(entry, lines, from, n - 1);
        let claim = entry.claims[n - 1];
        assert(is_written_claim(claim));
        assert(lines[from + (n - 1)] == claim_line(claim));
        lemma_claim_is_line(claim);
        claim_round_trip(claim, (from + n) as usize);
        assert(entry.claims.take(n) =~= entry.claims.take(n - 1).push(claim));
    }
}

/// A rendered entry is read back as it was, where it can be written: its title
/// and artifact are single lines, its identities are valid, and its claims
/// hold no text that would be taken for a tag or a separator.
pub proof fn entry_round_trip(entry: MemoryEntryAbs)
    requires
        is_written_entry(entry),
    ensures
        read_entry(entry_text(entry)) == Ok::<MemoryEntryAbs, EntryParseErrorAbs>(entry),
{
    let lines = entry_lines(entry);
    let head = header_lines(entry);
    let n = head.len() as int;
    assert(lines.take(n) =~= head);
    lemma_header(entry, lines);
    let from = if entry.claims.len() == 0 {
        n
    } else {
        n + 1
    };
    assert forall|i: int| 0 <= i < entry.claims.len() implies #[trigger] lines[from + i]
        == claim_line(entry.claims[i]) by {
        assert(lines[from + i] == claim_lines(entry.claims)[i]);
    }
    if entry.claims.len() > 0 {
        assert(lines[n] == Seq::<char>::empty());
        assert(scan_lines(lines, from) == scan_lines(lines, n));
    }
    lemma_claims(entry, lines, from, entry.claims.len() as int);
    assert(entry.claims.take(entry.claims.len() as int) =~= entry.claims);
    assert forall|i: int| 0 <= i < lines.len() implies is_line(#[trigger] lines[i]) by {
        if i < n {
            assert(lines[i] == head[i]);
        } else if i >= from {
            assert(lines[from + (i - from)] == claim_line(entry.claims[i - from]));
            assert(is_written_claim(entry.claims[i - from]));
            lemma_claim_is_line(entry.claims[i - from]);
        } else {
            assert(lines[i] == Seq::<char>::empty());
        }
    }
    unlines_round_trip(lines);
}

// ---------------------------------------------------------------------------
// What has been read can be written
// ---------------------------------------------------------------------------

/// The pieces of a text hold no separator, and nothing that the text does not
/// hold.
proof fn lemma_pieces_free(s: Seq<char>, separator: char, c: char, k: int)
    requires
        c == separator || !s.contains(c),
        0 <= k < pieces(s, separator).len(),
    ensures
        !pieces(s, separator)[k].contains(c),
    decreases s.len(),
{
    if s.len() > 0 {
        let less = s.drop_last();
        let p = pieces(less, separator);
        pieces_nonempty(less, separator);
        if c != separator && less.contains(c) {
            let i = choose|i: int| 0 <= i < less.len() && less[i] == c;
            assert(s[i] == c);
        }
        if k < p.len() {
            lemma_pieces_free(less, separator, c, k);
        }
        if s.last() != separator && k == p.len() - 1 {
            if s.last() == c {
                assert(s.contains(s[s.len() - 1]));
            }
            assert(!seq![s.last()].contains(c));
            lemma_free(p[k], seq![s.last()], c);
            assert(p[k].push(s.last()) =~= p[k] + seq![s.last()]);
        }
    }
}

/// Trimming adds nothing.
proof fn lemma_trimmed_free(s: Seq<char>, c: char)
    requires
        !s.contains(c),
    ensures
        !trimmed(s).contains(c),
        !trimmed_end(s).contains(c),
{
    trimmed_end_facts(s);
    let e = trimmed_end(s);
    trimmed_start_facts(e);
    let t = trimmed_start(e);
    assert forall|i: int| 0 <= i < e.len() implies e[i] != c by {
        assert(e[i] == s[i]);
        assert(s.contains(s[i]));
    }
    assert forall|i: int| 0 <= i < t.len() implies t[i] != c by {
        assert(t[i] == e[i + (e.len() - t.len())]);
    }
}

/// Part of a text holds nothing that the text does not hold.
proof fn lemma_part_free(s: Seq<char>, from: int, to: int, c: char)
    requires
        !s.contains(c),
        0 <= from <= to <= s.len(),
    ensures
        !s.subrange(from, to).contains(c),
{
    let t = s.subrange(from, to);
    assert forall|i: int| 0 <= i < t.len() implies t[i] != c by {
        assert(t[i] == s[from + i]);
        assert(s.contains(s[from + i]));
    }
}

/// A file source that has been read can be written.
proof fn lemma_file_can_be_written(piece: Seq<char>, line: usize)
    requires
        !piece.contains(','),
        !piece.contains('['),
        !piece.contains('\n'),
        read_file(trimmed(piece), line) is Ok,
    ensures
        is_written_file(read_file(trimmed(piece), line)->Ok_0),
{
    let item = trimmed(piece);
    let file = read_file(item, line)->Ok_0;
    lemma_trimmed_free(piece, ',');
    lemma_trimmed_free(piece, '[');
    lemma_trimmed_free(piece, '\n');
    trimmed_facts(piece);
    reveal_strlit("@");
    assert("@"@ =~= seq!['@']);
    lemma_no_occurrence(item, '@');
    match rfind(item, seq!['@']) {
        Some(i) => {
            rfind_from_meaning(item, seq!['@'], item.len() - 1);
            assert(item.subrange(i, i + 1)[0] == item[i]);
            assert(item =~= file.path + "@"@ + file.digest->Some_0);
            lemma_part_free(item, 0, i, ',');
            lemma_part_free(item, 0, i, '[');
        },
        None => {},
    }
    assert(file_text(file) == item);
}

proof fn lemma_files_can_be_written(value: Seq<char>, n: int, line: usize)
    requires
        !value.contains('['),
        !value.contains('\n'),
        0 <= n <= pieces(value, ',').len(),
        read_files(pieces(value, ',').take(n), line) is Ok,
    ensures
        forall|i: int|
            0 <= i < read_files(pieces(value, ',').take(n), line)->Ok_0.len() ==> is_written_file(
                #[trigger] read_files(pieces(value, ',').take(n), line)->Ok_0[i],
            ),
    decreases n,
{
    if n > 0 {
        let items = pieces(value, ',');
        assert(items.take(n).drop_last() =~= items.take(n - 1));
        lemma_files_can_be_written(value, n - 1, line);
        lemma_pieces_free(value, ',', ',', n - 1);
        lemma_pieces_free(value, ',', '[', n - 1);
        lemma_pieces_free(value, ',', '\n', n - 1);
        lemma_file_can_be_written(items[n - 1], line);
        let before = read_files(items.take(n - 1), line)->Ok_0;
        let files = read_files(items.take(n), line)->Ok_0;
        assert forall|i: int| 0 <= i < files.len() implies is_written_file(#[trigger] files[i]) by {
            if i < before.len() {
                assert(files[i] == before[i]);
            }
        }
    }
}

proof fn lemma_sources_can_be_written(items: Seq<Seq<char>>, line: usize)
    requires
        read_sources(items, line) is Ok,
    ensures
        forall|i: int|
            0 <= i < read_sources(items, line)->Ok_0.len() ==> identified(
                #[trigger] read_sources(items, line)->Ok_0[i],
                "msg_",
            ) is Ok,
    decreases items.len(),
{
    if items.len() > 0 {
        lemma_sources_can_be_written(items.drop_last(), line);
        let before = read_sources(items.drop_last(), line)->Ok_0;
        let sources = read_sources(items, line)->Ok_0;
        assert forall|i: int| 0 <= i < sources.len() implies identified(
            #[trigger] sources[i],
            "msg_",
        ) is Ok by {
            if i < before.len() {
                assert(sources[i] == before[i]);
            }
        }
    }
}

/// Tags that can be written.
spec fn are_written_tags(tags: ClaimTags) -> bool {
    &&& forall|i: int|
        0 <= i < tags.sources.len() ==> identified(#[trigger] tags.sources[i], "msg_") is Ok
    &&& forall|i: int| 0 <= i < tags.files.len() ==> is_written_file(#[trigger] tags.files[i])
    &&& tags.superseded_by matches Some(reference) ==> is_supersession(reference)
}

proof fn lemma_tag_can_be_written(
    tags: ClaimTags,
    key: Seq<char>,
    value: Seq<char>,
    line: usize,
)
    requires
        are_written_tags(tags),
        !value.contains('['),
        !value.contains('\n'),
    ensures
        with_tag(tags, key, value, line) matches Some(Ok(more)) ==> are_written_tags(more),
        with_tag(tags, key, value, line) is None <==> !is_tag_key(key),
{
    if let Some(Ok(more)) = with_tag(tags, key, value, line) {
        if key == "src"@ {
            lemma_sources_can_be_written(pieces(value, ','), line);
        } else if key == "file"@ {
            let n = pieces(value, ',').len() as int;
            assert(pieces(value, ',').take(n) =~= pieces(value, ','));
            lemma_files_can_be_written(value, n, line);
        }
    }
}

/// What is left of a body when its tags have been read.
proof fn lemma_tags_can_be_written(body: Seq<char>, tags: ClaimTags, line: usize)
    requires
        are_written_tags(tags),
        !body.contains('\n'),
        read_tags(body, tags, line) is Ok,
    ensures
        ({
            let (rest, more) = read_tags(body, tags, line)->Ok_0;
            &&& are_written_tags(more)
            &&& !rest.contains('\n')
            &&& has_no_tag(rest)
            &&& (rest == body && more == tags) || trimmed_end(rest) == rest
        }),
    decreases body.len(),
{
    if ends(body, seq![']']) {
        let start = rfind(body, seq!['['])->Some_0;
        rfind_from_meaning(body, seq!['['], body.len() - 1);
        assert(body.last() == ']') by {
            assert(body.subrange(body.len() - 1, body.len() as int)[0] == body.last());
        }
        assert(body[start] == '[') by {
            assert(body.subrange(start, start + 1)[0] == body[start]);
        }
        let inner = body.subrange(start + 1, body.len() - 1);
        lemma_part_free(body, start + 1, body.len() - 1, '\n');
        assert forall|i: int| 0 <= i < inner.len() implies inner[i] != '[' by {
            if inner[i] == '[' {
                assert(body.subrange(start + 1 + i, start + 2 + i) =~= seq!['[']);
                assert(occurs_at(body, seq!['['], start + 1 + i));
            }
        }
        if let Some((key, value)) = group_at(body, start) {
            find_from_meaning(inner, ": "@, 0);
            let at = crate::text::find(inner, ": "@)->Some_0;
            lemma_part_free(inner, at + ": "@.len(), inner.len() as int, '\n');
            lemma_part_free(inner, at + ": "@.len(), inner.len() as int, '[');
            lemma_tag_can_be_written(tags, key, value, line);
            if let Some(Ok(more)) = with_tag(tags, key, value, line) {
                let front = body.subrange(0, start);
                let rest = trimmed_end(front);
                trimmed_end_facts(front);
                lemma_part_free(body, 0, start, '\n');
                lemma_trimmed_free(front, '\n');
                lemma_tags_can_be_written(rest, more, line);
            }
        }
    }
}

/// White space before a text does not change whether it ends in a tag.
proof fn lemma_no_tag_after_trimming(text: Seq<char>)
    requires
        has_no_tag(text),
        !is_blank(text),
        trimmed_end(text) == text,
    ensures
        has_no_tag(trimmed(text)),
{
    trimmed_start_facts(text);
    let t = trimmed(text);
    let d = text.len() - t.len();
    assert(t == after(text, d));
    if ends(t, seq![']']) {
        assert(t.subrange(t.len() - 1, t.len() as int)[0] == t.last());
        assert(text.last() == ']');
        assert(text.subrange(text.len() - 1, text.len() as int) =~= seq![']']);
        let start = rfind(text, seq!['['])->Some_0;
        rfind_from_meaning(text, seq!['['], text.len() - 1);
        assert(text.subrange(start, start + 1)[0] == text[start]);
        if start < d {
            lemma_dropped_is_blank(text, start);
        }
        assert(t.subrange(start - d, start - d + 1) =~= seq!['[']);
        assert forall|k: int| start - d < k implies !#[trigger] occurs_at(t, seq!['['], k) by {
            if occurs_at(t, seq!['['], k) {
                assert(text.subrange(k + d, k + d + 1) =~= t.subrange(k, k + 1));
                assert(occurs_at(text, seq!['['], k + d));
            }
        }
        crate::text::rfind_is(t, seq!['['], start - d);
        assert(t.subrange(start - d + 1, t.len() - 1) =~= text.subrange(
            start + 1,
            text.len() - 1,
        ));
    }
}

/// What is trimmed off the start is white space.
proof fn lemma_dropped_is_blank(s: Seq<char>, i: int)
    requires
        0 <= i < s.len() - trimmed_start(s).len(),
    ensures
        is_whitespace(s[i]),
    decreases s.len(),
{
    if s.len() > 0 && is_whitespace(s[0]) && i > 0 {
        lemma_dropped_is_blank(s.drop_first(), i - 1);
    }
}

/// A claim that has been read can be written.
proof fn lemma_claim_can_be_written(text: Seq<char>, line: usize)
    requires
        !text.contains('\n'),
        read_claim(text, line) is Ok,
    ensures
        is_written_claim(read_claim(text, line)->Ok_0),
{
    let rest = without_prefix(text, "- "@)->Some_0;
    lemma_part_free(text, "- "@.len() as int, text.len() as int, '\n');
    lemma_tags_can_be_written(rest, no_tags(), line);
    let (body, tags) = read_tags(rest, no_tags(), line)->Ok_0;
    assert(trimmed_end(body) == body);
    lemma_no_tag_after_trimming(body);
    lemma_trimmed_free(body, '\n');
    trimmed_facts(body);
}

/// What has been read of an entry can be written.
spec fn is_written_scan(scan: EntryScan) -> bool {
    &&& scan.created matches Some(run) ==> run.len() == 16 && is_version7(run)
    &&& scan.updated matches Some(run) ==> run.len() == 16 && is_version7(run)
    &&& scan.artifact matches Some(artifact) ==> !artifact.contains('\n')
    &&& forall|i: int| 0 <= i < scan.claims.len() ==> is_written_claim(#[trigger] scan.claims[i])
}

proof fn lemma_scan_can_be_written(lines: Seq<Seq<char>>, n: int)
    requires
        n <= lines.len(),
        forall|i: int| 0 <= i < lines.len() ==> !(#[trigger] lines[i]).contains('\n'),
        scan_lines(lines, n) is Ok,
    ensures
        is_written_scan(scan_lines(lines, n)->Ok_0),
    decreases n,
{
    if n > 1 {
        lemma_scan_can_be_written(lines, n - 1);
        let before = scan_lines(lines, n - 1)->Ok_0;
        let scan = scan_lines(lines, n)->Ok_0;
        let text = lines[n - 1];
        assert(!text.contains('\n'));
        if text.len() == 0 {
        } else if before.in_claims {
            lemma_claim_can_be_written(text, n as usize);
            assert forall|i: int| 0 <= i < scan.claims.len() implies is_written_claim(
                #[trigger] scan.claims[i],
            ) by {
                if i < before.claims.len() {
                    assert(scan.claims[i] == before.claims[i]);
                }
            }
        } else if text != "## Claims"@ {
            let rest = without_prefix(text, "- "@)->Some_0;
            lemma_part_free(text, "- "@.len() as int, text.len() as int, '\n');
            let (field, value) = header_field(text)->Some_0;
            find_from_meaning(rest, ": "@, 0);
            let at = crate::text::find(rest, ": "@)->Some_0;
            lemma_part_free(rest, at + ": "@.len(), rest.len() as int, '\n');
            if identified(value, "run_") is Ok {
                identity_text_is_unique(value, "run_");
            }
        }
    }
}

/// An entry that has been read can be written, unless a carriage return ends
/// its title or its artifact.
pub proof fn read_entry_can_be_written(text: Seq<char>)
    requires
        read_entry(text) is Ok,
        read_entry(text)->Ok_0.title.last() != '\r',
        read_entry(text)->Ok_0.artifact matches Some(artifact) ==> !ends(artifact, seq!['\r']),
    ensures
        is_written_entry(read_entry(text)->Ok_0),
{
    let lines = lines_of(text);
    let p = pieces(text, '\n');
    pieces_nonempty(text, '\n');
    assert forall|i: int| 0 <= i < lines.len() implies !(#[trigger] lines[i]).contains('\n') by {
        lemma_pieces_free(text, '\n', '\n', i);
        if p[i].len() > 0 {
            lemma_part_free(p[i], 0, p[i].len() - 1, '\n');
            assert(p[i].subrange(0, p[i].len() - 1) =~= p[i].drop_last());
        }
    }
    lemma_scan_can_be_written(lines, lines.len() as int);
    assert(!lines[0].contains('\n'));
    lemma_part_free(lines[0], "# "@.len() as int, lines[0].len() as int, '\n');
    let entry = read_entry(text)->Ok_0;
    if let Some(artifact) = entry.artifact {
        if artifact.len() > 0 && artifact.last() == '\r' {
            assert(artifact.subrange(artifact.len() - 1, artifact.len() as int) =~= seq!['\r']);
        }
    }
}

/// Parsing an entry, rendering it and parsing it again gives the same entry,
/// unless a carriage return ends its title or its artifact.
pub proof fn rendering_keeps_what_was_read(text: Seq<char>)
    requires
        read_entry(text) is Ok,
        read_entry(text)->Ok_0.title.last() != '\r',
        read_entry(text)->Ok_0.artifact matches Some(artifact) ==> !ends(artifact, seq!['\r']),
    ensures
        read_entry(entry_text(read_entry(text)->Ok_0)) == read_entry(text),
{
    read_entry_can_be_written(text);
    entry_round_trip(read_entry(text)->Ok_0);
}

} // verus!
