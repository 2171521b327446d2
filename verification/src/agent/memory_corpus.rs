//! The corpus of memory entries and its index.

use vstd::prelude::*;
use vstd::string::*;

use super::memory::{
    is_slug, is_valid_slug, MemoryClaim, MemoryClaimAbs, MemoryClaimRejection, MemoryTopic,
    MemoryTopicAbs,
};
use super::memory_entry::{
    parse_entry, read_entry, ClaimApplyOutcome, CorpusParseError, CorpusParseErrorAbs,
    EntryParseError, EntryParseErrorAbs, FileSource, FileSourceAbs, MemoryEntry, MemoryEntryAbs,
    StoredClaim, StoredClaimAbs, INDEX_MAX_LINES,
};
use crate::correlation_id::AgentRunId;
use crate::text::{
    after, chars_of, cut, decimal, decimal_text, is_digit, is_lower, number_in, parse_number,
    pieces, precedes, precedes_irreflexive, precedes_total, precedes_transitive, same_text, split,
    split_once, strip_prefix, strip_suffix, text_before, text_of, without_prefix, without_suffix,
};
use crate::value::{contents, Abstract};

verus! {

// ---------------------------------------------------------------------------
// Titles
// ---------------------------------------------------------------------------

/// The uppercase form of a character.
pub uninterp spec fn uppercase(c: char) -> Seq<char>;

/// `char::to_uppercase`. Of the result is claimed that it is the same for the
/// same character, the capital of an ASCII letter, and the character itself
/// for an ASCII digit.
#[verifier::external_body]
fn to_uppercase(c: char) -> (r: String)
    ensures
        r@ == uppercase(c),
        is_lower(c) ==> r@ == seq![(c as u32 - 32) as char],
        is_digit(c) ==> r@ == seq![c],
{
    c.to_uppercase().collect()
}

/// A character in uppercase: the capital of an ASCII letter, and an ASCII digit
/// as it is.
pub open spec fn capital(c: char) -> Seq<char> {
    if is_lower(c) {
        seq![(c as u32 - 32) as char]
    } else if is_digit(c) {
        seq![c]
    } else {
        uppercase(c)
    }
}

/// A word with a capital letter.
pub open spec fn capitalized(word: Seq<char>) -> Seq<char> {
    if word.len() == 0 {
        word
    } else {
        capital(word[0]) + word.drop_first()
    }
}

/// Words with a space before each.
pub open spec fn spaced(words: Seq<Seq<char>>) -> Seq<char>
    decreases words.len(),
{
    if words.len() == 0 {
        Seq::empty()
    } else {
        spaced(words.drop_last()) + seq![' '] + words.last()
    }
}

/// The title of a new topic: the words of the slug, the first one capitalized.
pub open spec fn slug_title(slug: Seq<char>) -> Seq<char> {
    let words = pieces(slug, '-');
    capitalized(words[0]) + spaced(words.drop_first())
}

/// Derive a new entry's title from its slug: `build-release` becomes
/// `Build release`. Existing entries keep their stored title.
pub fn title_from_slug(slug: &str) -> (r: String)
    ensures
        r@ == slug_title(slug@),
{
    let words: Vec<String> = split(slug, '-');
    let ghost all = pieces(slug@, '-');
    assert(all[0] == words@[0]@);
    let first: Vec<char> = chars_of(words[0].as_str());
    let mut title: String = String::new();
    if first.len() > 0 {
        title = to_uppercase(first[0]);
        title.append(text_of(&first, 1, first.len()).as_str());
        assert(first@.subrange(1, first@.len() as int) =~= first@.drop_first());
    } else {
        assert(title@ =~= all[0]);
    }
    let ghost head = title@;
    let ghost rest = all.drop_first();
    assert(rest.take(0) =~= Seq::<Seq<char>>::empty());
    assert(title@ =~= head + spaced(rest.take(0)));
    let mut i: usize = 1;
    while i < words.len()
        invariant
            1 <= i <= words@.len(),
            contents(words@) == all,
            rest == all.drop_first(),
            title@ == head + spaced(rest.take(i - 1)),
        decreases words@.len() - i,
    {
        assert(rest[i - 1] == words@[i as int]@);
        assert(rest.take(i as int).drop_last() =~= rest.take(i - 1));
        title.push(' ');
        title.append(words[i].as_str());
        assert(title@ =~= head + spaced(rest.take(i as int)));
        i += 1;
    }
    assert(rest.take(i - 1) =~= rest);
    title
}

// ---------------------------------------------------------------------------
// The corpus
// ---------------------------------------------------------------------------

/// Whether the slugs are those of a set, in order and each once.
pub open spec fn enumerates(slugs: Seq<Seq<char>>, set: Set<Seq<char>>) -> bool {
    &&& forall|i: int, j: int|
        0 <= i < j < slugs.len() ==> precedes(#[trigger] slugs[i], #[trigger] slugs[j])
    &&& forall|slug: Seq<char>| #[trigger] set.contains(slug) <==> slugs.contains(slug)
}

/// The parsed `memory/` entry corpus: entries are the source of truth, keyed
/// by slug and stored in slug order for a deterministic index.
#[derive(Debug, Eq, PartialEq)]
pub struct MemoryCorpus {
    entries: Vec<(String, MemoryEntry)>,
}

/// The entries of a corpus by slug.
pub type CorpusAbs = Map<Seq<char>, MemoryEntryAbs>;

/// The slugs of a corpus, in order.
pub open spec fn slug_order(corpus: CorpusAbs) -> Seq<Seq<char>> {
    choose|slugs: Seq<Seq<char>>| enumerates(slugs, corpus.dom())
}

spec fn keys(entries: Seq<(String, MemoryEntry)>) -> Seq<Seq<char>> {
    Seq::new(entries.len(), |i: int| entries[i].0@)
}

spec fn ordered(entries: Seq<(String, MemoryEntry)>) -> bool {
    forall|i: int, j: int|
        0 <= i < j < entries.len() ==> precedes(#[trigger] entries[i].0@, #[trigger] entries[j].0@)
}

/// The position of a key.
spec fn place_of(entries: Seq<(String, MemoryEntry)>, key: Seq<char>) -> int {
    choose|i: int| 0 <= i < keys(entries).len() && keys(entries)[i] == key
}

spec fn corpus_of(entries: Seq<(String, MemoryEntry)>) -> CorpusAbs {
    Map::new(
        |key: Seq<char>| keys(entries).contains(key),
        |key: Seq<char>| entries[place_of(entries, key)].1.abs(),
    )
}

proof fn lemma_place(entries: Seq<(String, MemoryEntry)>, i: int)
    requires
        ordered(entries),
        0 <= i < entries.len(),
    ensures
        place_of(entries, entries[i].0@) == i,
        corpus_of(entries).contains_key(entries[i].0@),
        corpus_of(entries)[entries[i].0@] == entries[i].1.abs(),
{
    let key = entries[i].0@;
    let j = place_of(entries, key);
    assert(0 <= i < keys(entries).len() && keys(entries)[i] == key);
    assert(0 <= j < keys(entries).len() && keys(entries)[j] == key);
    precedes_irreflexive(key);
    if i < j {
        assert(precedes(entries[i].0@, entries[j].0@));
    } else if j < i {
        assert(precedes(entries[j].0@, entries[i].0@));
    }
    assert(keys(entries)[i] == key);
}

/// Entries of the same content are the same corpus.
proof fn lemma_same_entries(
    entries: Seq<(String, MemoryEntry)>,
    others: Seq<(String, MemoryEntry)>,
)
    requires
        entries.len() == others.len(),
        forall|k: int|
            0 <= k < others.len() ==> (#[trigger] others[k]).0@ == entries[k].0@
                && others[k].1.abs() == entries[k].1.abs(),
    ensures
        ordered(others) == ordered(entries),
        corpus_of(others) == corpus_of(entries),
{
    assert(keys(others) =~= keys(entries));
    assert forall|i: int| 0 <= i < others.len() implies (#[trigger] entries[i]).0@
        == others[i].0@ by {
        assert(others[i].0@ == entries[i].0@);
    }
    assert(corpus_of(others) =~= corpus_of(entries)) by {
        assert forall|key: Seq<char>| keys(entries).contains(key) implies #[trigger] corpus_of(
            others,
        )[key] == corpus_of(entries)[key] by {
            let k = place_of(entries, key);
            assert(0 <= k < keys(entries).len() && keys(entries)[k] == key);
            assert(others[k].1.abs() == entries[k].1.abs());
        }
    }
}

proof fn lemma_absent(entries: Seq<(String, MemoryEntry)>, key: Seq<char>)
    requires
        forall|i: int| 0 <= i < entries.len() ==> #[trigger] entries[i].0@ != key,
    ensures
        !corpus_of(entries).contains_key(key),
{
    assert forall|i: int| 0 <= i < keys(entries).len() implies keys(entries)[i] != key by {
        assert(entries[i].0@ != key);
    }
}

/// Two enumerations of one set are the same.
pub proof fn enumeration_is_unique(a: Seq<Seq<char>>, b: Seq<Seq<char>>, set: Set<Seq<char>>)
    requires
        enumerates(a, set),
        enumerates(b, set),
    ensures
        a == b,
    decreases a.len(),
{
    if a.len() == 0 {
        if b.len() > 0 {
            assert(b.contains(b[0]));
            assert(set.contains(b[0]));
            assert(a.contains(b[0]));
        }
        assert(a =~= b);
    } else {
        let x = a.last();
        assert(a.contains(a[a.len() - 1]));
        assert(set.contains(x));
        assert(b.contains(x));
        let i = choose|i: int| 0 <= i < b.len() && b[i] == x;
        let y = b.last();
        assert(b.contains(b[b.len() - 1]));
        assert(set.contains(y));
        assert(a.contains(y));
        let j = choose|j: int| 0 <= j < a.len() && a[j] == y;
        precedes_total(x, y);
        if i < b.len() - 1 {
            assert(precedes(b[i], b[b.len() - 1]));
        }
        if j < a.len() - 1 {
            assert(precedes(a[j], a[a.len() - 1]));
        }
        assert(x == y);
        let smaller = set.remove(x);
        lemma_enumerates_rest(a, set);
        lemma_enumerates_rest(b, set);
        enumeration_is_unique(a.drop_last(), b.drop_last(), smaller);
        assert(a =~= a.drop_last().push(x));
        assert(b =~= b.drop_last().push(y));
    }
}

proof fn lemma_enumerates_rest(a: Seq<Seq<char>>, set: Set<Seq<char>>)
    requires
        a.len() > 0,
        enumerates(a, set),
    ensures
        enumerates(a.drop_last(), set.remove(a.last())),
{
    let rest = a.drop_last();
    let x = a.last();
    assert forall|slug: Seq<char>| #[trigger] set.remove(x).contains(slug) implies rest.contains(
        slug,
    ) by {
        assert(set.contains(slug));
        assert(a.contains(slug));
        let i = choose|i: int| 0 <= i < a.len() && a[i] == slug;
        assert(i < a.len() - 1);
        assert(rest[i] == slug);
    }
    assert forall|slug: Seq<char>| rest.contains(slug) implies #[trigger] set.remove(x).contains(
        slug,
    ) by {
        let i = choose|i: int| 0 <= i < rest.len() && rest[i] == slug;
        assert(a[i] == slug);
        assert(a.contains(slug));
        assert(set.contains(slug));
        assert(precedes(a[i], a[a.len() - 1]));
        precedes_irreflexive(x);
    }
    assert forall|i: int, j: int| 0 <= i < j < rest.len() implies precedes(
        #[trigger] rest[i],
        #[trigger] rest[j],
    ) by {
        assert(precedes(a[i], a[j]));
    }
}

/// An enumeration is as long as its set is large.
pub proof fn enumeration_length(a: Seq<Seq<char>>, set: Set<Seq<char>>)
    requires
        enumerates(a, set),
    ensures
        set.finite(),
        set.len() == a.len(),
    decreases a.len(),
{
    if a.len() == 0 {
        assert forall|slug: Seq<char>| !set.contains(slug) by {
            if set.contains(slug) {
                assert(a.contains(slug));
            }
        }
        assert(set =~= Set::empty());
    } else {
        lemma_enumerates_rest(a, set);
        enumeration_length(a.drop_last(), set.remove(a.last()));
        assert(a.contains(a[a.len() - 1]));
        assert(set.contains(a.last()));
        assert(set =~= set.remove(a.last()).insert(a.last()));
    }
}

proof fn lemma_order(entries: Seq<(String, MemoryEntry)>)
    requires
        ordered(entries),
    ensures
        enumerates(keys(entries), corpus_of(entries).dom()),
        slug_order(corpus_of(entries)) == keys(entries),
        corpus_of(entries).dom().finite(),
        corpus_of(entries).len() == entries.len(),
{
    let list = keys(entries);
    let set = corpus_of(entries).dom();
    assert forall|i: int, j: int| 0 <= i < j < list.len() implies precedes(
        #[trigger] list[i],
        #[trigger] list[j],
    ) by {
        assert(precedes(entries[i].0@, entries[j].0@));
    }
    assert(enumerates(list, set));
    enumeration_is_unique(slug_order(corpus_of(entries)), list, set);
    enumeration_length(list, set);
}

impl Clone for MemoryCorpus {
    fn clone(&self) -> (r: MemoryCorpus)
        ensures
            r.wf() == self.wf(),
            r@ == self@,
    {
        let mut entries: Vec<(String, MemoryEntry)> = Vec::new();
        let mut i: usize = 0;
        while i < self.entries.len()
            invariant
                i <= self.entries@.len(),
                entries@.len() == i,
                forall|k: int|
                    0 <= k < i ==> (#[trigger] entries@[k]).0@ == self.entries@[k].0@
                        && entries@[k].1.abs() == self.entries@[k].1.abs(),
            decreases self.entries@.len() - i,
        {
            let entry: &(String, MemoryEntry) = &self.entries[i];
            entries.push((entry.0.clone(), entry.1.duplicate()));
            i += 1;
        }
        proof {
            lemma_same_entries(self.entries@, entries@);
        }
        MemoryCorpus { entries }
    }
}

impl MemoryCorpus {
    /// Whether the entries stand in slug order, each slug once.
    pub closed spec fn wf(&self) -> bool {
        ordered(self.entries@)
    }

    pub closed spec fn view(&self) -> CorpusAbs {
        corpus_of(self.entries@)
    }

    pub fn new() -> (r: MemoryCorpus)
        ensures
            r.wf(),
            r@ == Map::<Seq<char>, MemoryEntryAbs>::empty(),
    {
        let r = MemoryCorpus { entries: Vec::new() };
        assert(r@ =~= Map::<Seq<char>, MemoryEntryAbs>::empty());
        r
    }

    /// Where a slug stands, or where it belongs.
    fn place(&self, slug: &str) -> (r: (usize, bool))
        requires
            self.wf(),
        ensures
            r.0 <= self.entries@.len(),
            r.1 ==> r.0 < self.entries@.len() && self.entries@[r.0 as int].0@ == slug@,
            r.1 == self@.contains_key(slug@),
            forall|i: int| 0 <= i < r.0 ==> precedes(#[trigger] self.entries@[i].0@, slug@),
            forall|i: int|
                r.0 <= i < self.entries@.len() && !r.1 ==> precedes(
                    slug@,
                    #[trigger] self.entries@[i].0@,
                ),
            forall|i: int|
                r.0 < i < self.entries@.len() ==> precedes(slug@, #[trigger] self.entries@[i].0@),
    {
        let mut i: usize = 0;
        while i < self.entries.len() && text_before(self.entries[i].0.as_str(), slug)
            invariant
                i <= self.entries@.len(),
                forall|k: int| 0 <= k < i ==> precedes(#[trigger] self.entries@[k].0@, slug@),
            decreases self.entries@.len() - i,
        {
            i += 1;
        }
        let found: bool = i < self.entries.len() && same_text(self.entries[i].0.as_str(), slug);
        proof {
            let list = self.entries@;
            if i < list.len() {
                precedes_total(slug@, list[i as int].0@);
                assert forall|k: int| i < k < list.len() implies precedes(
                    slug@,
                    #[trigger] list[k].0@,
                ) by {
                    assert(precedes(list[i as int].0@, list[k].0@));
                    if slug@ != list[i as int].0@ {
                        precedes_transitive(slug@, list[i as int].0@, list[k].0@);
                    }
                }
            }
            if found {
                lemma_place(list, i as int);
            } else {
                assert forall|k: int| 0 <= k < list.len() implies #[trigger] list[k].0@ != slug@ by {
                    precedes_irreflexive(slug@);
                    if k < i {
                        assert(precedes(list[k].0@, slug@));
                    } else if k > i {
                        assert(precedes(slug@, list[k].0@));
                    }
                }
                lemma_absent(list, slug@);
            }
        }
        (i, found)
    }

    /// Insert or replace an entry; the corpus keeps one entry per slug.
    pub fn insert(&mut self, entry: MemoryEntry)
        requires
            old(self).wf(),
        ensures
            final(self).wf(),
            final(self)@ == old(self)@.insert(entry.slug@, entry.abs()),
    {
        let slug: String = entry.slug.clone();
        self.insert_at(slug, entry);
    }

    fn insert_at(&mut self, slug: String, entry: MemoryEntry)
        requires
            old(self).wf(),
        ensures
            final(self).wf(),
            final(self)@ == old(self)@.insert(slug@, entry.abs()),
    {
        let (i, found): (usize, bool) = self.place(slug.as_str());
        let ghost before = self.entries@;
        let ghost key = slug@;
        if found {
            self.entries.set(i, (slug, entry));
        } else {
            self.entries.insert(i, (slug, entry));
        }
        proof {
            lemma_inserted(before, self.entries@, i as int, found, key);
        }
    }

    /// Takes an entry out of the corpus.
    fn remove(&mut self, slug: &str) -> (r: Option<MemoryEntry>)
        requires
            old(self).wf(),
        ensures
            final(self).wf(),
            match r {
                Some(entry) => old(self)@.contains_key(slug@) && entry.abs() == old(self)@[slug@],
                None => !old(self)@.contains_key(slug@),
            },
            final(self)@ == old(self)@.remove(slug@),
    {
        let (i, found): (usize, bool) = self.place(slug);
        if !found {
            assert(self@ =~= self@.remove(slug@));
            return None;
        }
        let ghost before = self.entries@;
        let taken: (String, MemoryEntry) = self.entries.remove(i);
        proof {
            lemma_place(before, i as int);
            lemma_removed(before, i as int);
        }
        Some(taken.1)
    }

    pub fn entry(&self, slug: &str) -> (r: Option<&MemoryEntry>)
        requires
            self.wf(),
        ensures
            match r {
                Some(entry) => self@.contains_key(slug@) && entry.abs() == self@[slug@],
                None => !self@.contains_key(slug@),
            },
    {
        let (i, found): (usize, bool) = self.place(slug);
        if found {
            proof {
                lemma_place(self.entries@, i as int);
            }
            Some(&self.entries[i].1)
        } else {
            None
        }
    }

    /// An entry to be changed in place, under the slug that it is kept with.
    pub fn entry_mut(&mut self, slug: &str) -> (r: Option<&mut MemoryEntry>)
        requires
            old(self).wf(),
        ensures
            final(self).wf(),
            match r {
                Some(entry) => old(self)@.contains_key(slug@) && (*entry).abs()
                    == old(self)@[slug@] && final(self)@ == old(self)@.insert(
                    slug@,
                    (*final(entry)).abs(),
                ),
                None => !old(self)@.contains_key(slug@) && final(self)@ == old(self)@,
            },
    {
        let (i, found): (usize, bool) = self.place(slug);
        if !found {
            return None;
        }
        let ghost before = self.entries@;
        proof {
            lemma_place(before, i as int);
            assert forall|value: MemoryEntry| ordered(
                #[trigger] before.update(i as int, (before[i as int].0, value)),
            ) && corpus_of(before.update(i as int, (before[i as int].0, value)))
                == corpus_of(before).insert(slug@, value.abs()) by {
                lemma_inserted(
                    before,
                    before.update(i as int, (before[i as int].0, value)),
                    i as int,
                    true,
                    slug@,
                );
            }
        }
        let slot: &mut (String, MemoryEntry) = &mut self.entries[i];
        Some(&mut slot.1)
    }

    /// The slugs of the entries, in order.
    pub fn slugs(&self) -> (r: Vec<String>)
        requires
            self.wf(),
        ensures
            contents(r@) == slug_order(self@),
            enumerates(contents(r@), self@.dom()),
    {
        let mut out: Vec<String> = Vec::new();
        let mut i: usize = 0;
        while i < self.entries.len()
            invariant
                i <= self.entries@.len(),
                out@.len() == i,
                forall|k: int| 0 <= k < i ==> (#[trigger] out@[k])@ == self.entries@[k].0@,
            decreases self.entries@.len() - i,
        {
            out.push(self.entries[i].0.clone());
            i += 1;
        }
        proof {
            lemma_order(self.entries@);
            assert(contents(out@) =~= keys(self.entries@));
        }
        out
    }

    pub fn len(&self) -> (r: usize)
        requires
            self.wf(),
        ensures
            self@.dom().finite(),
            r == self@.len(),
    {
        proof {
            lemma_order(self.entries@);
        }
        self.entries.len()
    }

    pub fn is_empty(&self) -> (r: bool)
        requires
            self.wf(),
        ensures
            r == (self@.len() == 0),
    {
        proof {
            lemma_order(self.entries@);
        }
        self.entries.len() == 0
    }

    /// Line count of the rendered index, counting its header.
    pub fn index_lines(&self) -> (r: usize)
        requires
            self.wf(),
            self@.len() + 2 <= usize::MAX,
        ensures
            r == self@.len() + 2,
    {
        proof {
            lemma_order(self.entries@);
        }
        2 + self.entries.len()
    }

    /// A new topic fits under the cap only when the rendered index with the
    /// added line stays within `INDEX_MAX_LINES`.
    pub fn fits_new_topic(&self) -> (r: bool)
        requires
            self.wf(),
        ensures
            r == has_room(self@),
    {
        proof {
            lemma_order(self.entries@);
        }
        self.entries.len() < INDEX_MAX_LINES - 2
    }
}

impl Default for MemoryCorpus {
    fn default() -> (r: MemoryCorpus)
        ensures
            r.wf(),
            r@ == Map::<Seq<char>, MemoryEntryAbs>::empty(),
    {
        MemoryCorpus::new()
    }
}

/// The slugs of a corpus can be put in order.
pub proof fn corpus_is_enumerated(corpus: &MemoryCorpus)
    requires
        corpus.wf(),
    ensures
        enumerates(slug_order(corpus@), corpus@.dom()),
        slug_order(corpus@).len() == corpus@.len(),
        corpus@.dom().finite(),
{
    lemma_order(corpus.entries@);
}

/// Whether the index of a corpus has room for one more line.
pub open spec fn has_room(corpus: CorpusAbs) -> bool {
    corpus.len() + 3 <= INDEX_MAX_LINES
}

proof fn lemma_inserted(
    before: Seq<(String, MemoryEntry)>,
    after: Seq<(String, MemoryEntry)>,
    i: int,
    found: bool,
    key: Seq<char>,
)
    requires
        ordered(before),
        0 <= i <= before.len(),
        i < after.len(),
        after[i].0@ == key,
        after == (if found {
            before.update(i, after[i])
        } else {
            before.insert(i, after[i])
        }),
        found ==> i < before.len() && before[i].0@ == key,
        forall|k: int| 0 <= k < i ==> precedes(#[trigger] before[k].0@, key),
        !found ==> forall|k: int|
            i <= k < before.len() ==> precedes(key, #[trigger] before[k].0@),
        forall|k: int| i < k < before.len() ==> precedes(key, #[trigger] before[k].0@),
    ensures
        ordered(after),
        corpus_of(after) == corpus_of(before).insert(key, after[i].1.abs()),
{
    let shift = |k: int|
        if found || k < i {
            k
        } else {
            k - 1
        };
    assert forall|a: int, b: int| 0 <= a < b < after.len() implies precedes(
        #[trigger] after[a].0@,
        #[trigger] after[b].0@,
    ) by {
        if a == i {
            assert(after[b].0@ == before[shift(b)].0@);
        } else if b == i {
            assert(after[a].0@ == before[a].0@);
        } else {
            assert(after[a].0@ == before[shift(a)].0@);
            assert(after[b].0@ == before[shift(b)].0@);
            assert(precedes(before[shift(a)].0@, before[shift(b)].0@));
        }
    }
    let left = corpus_of(after);
    let right = corpus_of(before).insert(key, after[i].1.abs());
    lemma_place(after, i);
    assert forall|k: Seq<char>| #[trigger] left.contains_key(k) <==> right.contains_key(k) by {
        if left.contains_key(k) && k != key {
            assert(keys(after).contains(k));
            let a = choose|a: int| 0 <= a < keys(after).len() && keys(after)[a] == k;
            assert(keys(before)[shift(a)] == k);
        }
        if right.contains_key(k) && k != key {
            assert(keys(before).contains(k));
            let b = choose|b: int| 0 <= b < keys(before).len() && keys(before)[b] == k;
            let a = if found || b < i {
                b
            } else {
                b + 1
            };
            assert(keys(after)[a] == k);
        }
    }
    assert forall|k: Seq<char>| left.contains_key(k) implies #[trigger] left[k] == right[k] by {
        if k != key {
            assert(keys(after).contains(k));
            let a = choose|a: int| 0 <= a < keys(after).len() && keys(after)[a] == k;
            lemma_place(after, a);
            lemma_place(before, shift(a));
        }
    }
    assert(left =~= right);
}

proof fn lemma_removed(before: Seq<(String, MemoryEntry)>, i: int)
    requires
        ordered(before),
        0 <= i < before.len(),
    ensures
        ordered(before.remove(i)),
        corpus_of(before.remove(i)) == corpus_of(before).remove(before[i].0@),
{
    let after = before.remove(i);
    let key = before[i].0@;
    let shift = |k: int|
        if k < i {
            k
        } else {
            k + 1
        };
    assert forall|a: int, b: int| 0 <= a < b < after.len() implies precedes(
        #[trigger] after[a].0@,
        #[trigger] after[b].0@,
    ) by {
        assert(after[a] == before[shift(a)] && after[b] == before[shift(b)]);
        assert(precedes(before[shift(a)].0@, before[shift(b)].0@));
    }
    let left = corpus_of(after);
    let right = corpus_of(before).remove(key);
    precedes_irreflexive(key);
    assert forall|k: Seq<char>| #[trigger] left.contains_key(k) <==> right.contains_key(k) by {
        if left.contains_key(k) {
            assert(keys(after).contains(k));
            let a = choose|a: int| 0 <= a < keys(after).len() && keys(after)[a] == k;
            assert(keys(before)[shift(a)] == k);
            if shift(a) < i {
                assert(precedes(before[shift(a)].0@, before[i].0@));
            } else {
                assert(precedes(before[i].0@, before[shift(a)].0@));
            }
        }
        if right.contains_key(k) {
            assert(keys(before).contains(k));
            let b = choose|b: int| 0 <= b < keys(before).len() && keys(before)[b] == k;
            let a = if b < i {
                b
            } else {
                b - 1
            };
            assert(b != i);
            assert(keys(after)[a] == k);
        }
    }
    assert forall|k: Seq<char>| left.contains_key(k) implies #[trigger] left[k] == right[k] by {
        assert(keys(after).contains(k));
        let a = choose|a: int| 0 <= a < keys(after).len() && keys(after)[a] == k;
        lemma_place(after, a);
        lemma_place(before, shift(a));
    }
    assert(left =~= right);
}

// ---------------------------------------------------------------------------
// Reading a corpus
// ---------------------------------------------------------------------------

/// The slug in the name of an entry file: what stands after the last slash and
/// before `.md`.
pub open spec fn file_slug(path: Seq<char>) -> Seq<char> {
    let name = pieces(path, '/').last();
    match without_suffix(name, ".md"@) {
        Some(slug) => slug,
        None => Seq::empty(),
    }
}

/// The corpus of the first `n` files.
pub open spec fn read_corpus(files: Seq<(Seq<char>, Seq<char>)>, n: int) -> Result<
    CorpusAbs,
    CorpusParseErrorAbs,
>
    decreases n,
{
    if n <= 0 {
        Ok(Map::empty())
    } else {
        match read_corpus(files, n - 1) {
            Err(error) => Err(error),
            Ok(corpus) => {
                let (path, text) = files[n - 1];
                match read_entry(text) {
                    Err(source) => Err(CorpusParseErrorAbs { path, source }),
                    Ok(entry) => if entry.slug != file_slug(path) {
                        Err(
                            CorpusParseErrorAbs {
                                path,
                                source: EntryParseErrorAbs::InvalidSlug(entry.slug),
                            },
                        )
                    } else {
                        Ok(corpus.insert(entry.slug, entry))
                    },
                }
            },
        }
    }
}

/// Files by path and text.
pub open spec fn named_texts(files: Seq<(String, String)>) -> Seq<(Seq<char>, Seq<char>)> {
    Seq::new(files.len(), |i: int| (files[i].0@, files[i].1@))
}

proof fn lemma_corpus_fails(files: Seq<(Seq<char>, Seq<char>)>, n: int, m: int)
    requires
        n <= m,
        read_corpus(files, n) is Err,
    ensures
        read_corpus(files, m) == read_corpus(files, n),
    decreases m,
{
    if n < m {
        lemma_corpus_fails(files, n, m - 1);
    }
}

impl MemoryCorpus {
    /// Parse a set of entry files, in path order. Paths are `entries/<slug>.md`
    /// or `<slug>.md`; the file slug must match the entry's `slug:` field.
    pub fn parse(files: &[(String, String)]) -> (r: Result<MemoryCorpus, CorpusParseError>)
        ensures
            match r {
                Ok(corpus) => corpus.wf() && read_corpus(
                    named_texts(files@),
                    files@.len() as int,
                ) == Ok::<CorpusAbs, CorpusParseErrorAbs>(corpus@),
                Err(error) => read_corpus(named_texts(files@), files@.len() as int) == Err::<
                    CorpusAbs,
                    CorpusParseErrorAbs,
                >(error.abs()),
            },
    {
        let ghost all = named_texts(files@);
        let mut corpus: MemoryCorpus = MemoryCorpus::new();
        let mut i: usize = 0;
        while i < files.len()
            invariant
                i <= files@.len(),
                all == named_texts(files@),
                corpus.wf(),
                read_corpus(all, i as int) == Ok::<CorpusAbs, CorpusParseErrorAbs>(corpus@),
            decreases files@.len() - i,
        {
            let path: &String = &files[i].0;
            let parts: Vec<String> = split(path.as_str(), '/');
            assert(pieces(path@, '/').last() == parts@[parts@.len() - 1]@);
            let slug: String = match strip_suffix(parts[parts.len() - 1].as_str(), ".md") {
                Some(slug) => slug,
                None => String::new(),
            };
            assert(slug@ =~= file_slug(path@));
            match parse_entry(files[i].1.as_str()) {
                Ok(entry) => {
                    if entry.slug != slug {
                        proof {
                            lemma_corpus_fails(all, i + 1, all.len() as int);
                        }
                        return Err(
                            CorpusParseError {
                                path: path.clone(),
                                source: EntryParseError::InvalidSlug(entry.slug.clone()),
                            },
                        );
                    }
                    corpus.insert(entry);
                },
                Err(source) => {
                    proof {
                        lemma_corpus_fails(all, i + 1, all.len() as int);
                    }
                    return Err(CorpusParseError { path: path.clone(), source });
                },
            }
            i += 1;
        }
        Ok(corpus)
    }
}

// ---------------------------------------------------------------------------
// Applying topics
// ---------------------------------------------------------------------------

/// The position of the first claim with that text.
pub open spec fn position_of(claims: Seq<StoredClaimAbs>, text: Seq<char>) -> Option<int>
    decreases claims.len(),
{
    if claims.len() == 0 {
        None
    } else {
        match position_of(claims.drop_last(), text) {
            Some(i) => Some(i),
            None => if claims.last().text == text {
                Some(claims.len() - 1)
            } else {
                None
            },
        }
    }
}

/// A topic that is being applied: its entry, and the entries of the others.
pub struct TopicState {
    pub entry: MemoryEntryAbs,
    pub others: CorpusAbs,
}

/// The entry that a slug names while its topic `own` is being applied.
pub open spec fn entry_under(state: TopicState, own: Seq<char>, slug: Seq<char>) -> Option<
    MemoryEntryAbs,
> {
    if slug == own {
        Some(state.entry)
    } else if state.others.contains_key(slug) {
        Some(state.others[slug])
    } else {
        None
    }
}

/// The slug and the position that a supersession reference names, where a
/// claim is stored there. Same-topic references must point at a claim already
/// stored; cross-topic references must point into an existing entry.
pub open spec fn resolved(state: TopicState, own: Seq<char>, reference: Seq<char>) -> Option<
    (Seq<char>, int),
> {
    match cut(reference, seq!['#']) {
        None => None,
        Some((slug, ordinal)) => match without_prefix(ordinal, "claim-"@) {
            None => None,
            Some(number) => match (number_in(number), entry_under(state, own, slug)) {
                (Some(n), Some(entry)) => if 1 <= n <= entry.claims.len() {
                    Some((slug, n - 1))
                } else {
                    None
                },
                _ => None,
            },
        },
    }
}

/// What all the references name, where each of them names a stored claim.
pub open spec fn all_resolved(
    state: TopicState,
    own: Seq<char>,
    references: Seq<Seq<char>>,
) -> Option<Seq<(Seq<char>, int)>>
    decreases references.len(),
{
    if references.len() == 0 {
        Some(Seq::empty())
    } else {
        match (
            all_resolved(state, own, references.drop_last()),
            resolved(state, own, references.last()),
        ) {
            (Some(targets), Some(target)) => Some(targets.push(target)),
            _ => None,
        }
    }
}

/// An entry with a claim tagged as superseded, unless it is tagged already.
pub open spec fn superseded(entry: MemoryEntryAbs, position: int, by: Seq<char>) -> MemoryEntryAbs {
    let claim = entry.claims[position];
    if claim.superseded_by is None {
        MemoryEntryAbs {
            claims: entry.claims.update(
                position,
                StoredClaimAbs { superseded_by: Some(by), ..claim },
            ),
            ..entry
        }
    } else {
        entry
    }
}

/// An entry of another topic with a claim tagged as superseded; the tag bumps
/// its `updated` run.
pub open spec fn superseded_elsewhere(
    entry: MemoryEntryAbs,
    position: int,
    by: Seq<char>,
    run: Seq<u8>,
) -> MemoryEntryAbs {
    if entry.claims[position].superseded_by is None {
        MemoryEntryAbs { updated: run, ..superseded(entry, position, by) }
    } else {
        entry
    }
}

/// The tag that points at a claim.
pub open spec fn claim_reference(slug: Seq<char>, ordinal: nat) -> Seq<char> {
    slug + "#claim-"@ + decimal(ordinal)
}

/// The claims that the targets name are tagged as superseded.
pub open spec fn all_superseded(
    state: TopicState,
    own: Seq<char>,
    targets: Seq<(Seq<char>, int)>,
    by: Seq<char>,
    run: Seq<u8>,
) -> TopicState
    decreases targets.len(),
{
    if targets.len() == 0 {
        state
    } else {
        let before = all_superseded(state, own, targets.drop_last(), by, run);
        let (slug, position) = targets.last();
        if slug == own {
            TopicState { entry: superseded(before.entry, position, by), ..before }
        } else {
            TopicState {
                others: before.others.insert(
                    slug,
                    superseded_elsewhere(before.others[slug], position, by, run),
                ),
                ..before
            }
        }
    }
}

/// A claim as it is newly stored: file paths without digests.
pub open spec fn newly_stored(claim: MemoryClaimAbs) -> StoredClaimAbs {
    StoredClaimAbs {
        text: claim.text,
        sources: claim.sources,
        files: Seq::new(
            claim.files.len(),
            |i: int| FileSourceAbs { path: claim.files[i], digest: None },
        ),
        status: None,
        superseded_by: None,
    }
}

/// The references of a claim.
pub open spec fn references_of(claim: MemoryClaimAbs) -> Seq<Seq<char>> {
    match claim.supersedes {
        Some(references) => references,
        None => Seq::empty(),
    }
}

/// One claim of a topic is applied: an exact-text duplicate and a refused
/// claim change nothing; any other claim is appended, and what it supersedes
/// is tagged.
pub open spec fn apply_claim(
    state: TopicState,
    own: Seq<char>,
    claim: MemoryClaimAbs,
    run: Seq<u8>,
) -> (TopicState, ClaimApplyOutcome) {
    match position_of(state.entry.claims, claim.text) {
        Some(position) => (
            state,
            ClaimApplyOutcome::Duplicate { ordinal: (position + 1) as usize },
        ),
        None => if claim.sources.len() == 0 && claim.files.len() == 0 {
            (state, ClaimApplyOutcome::Rejected { reason: MemoryClaimRejection::MissingSources })
        } else {
            match all_resolved(state, own, references_of(claim)) {
                None => (
                    state,
                    ClaimApplyOutcome::Rejected {
                        reason: MemoryClaimRejection::InvalidSupersession,
                    },
                ),
                Some(targets) => {
                    let ordinal = state.entry.claims.len() + 1;
                    let tagged = all_superseded(
                        state,
                        own,
                        targets,
                        claim_reference(own, ordinal),
                        run,
                    );
                    (
                        TopicState {
                            entry: MemoryEntryAbs {
                                claims: tagged.entry.claims.push(newly_stored(claim)),
                                updated: run,
                                ..tagged.entry
                            },
                            ..tagged
                        },
                        ClaimApplyOutcome::Appended { ordinal: ordinal as usize },
                    )
                },
            }
        },
    }
}

/// The first `n` claims of a topic are applied, in claim order.
pub open spec fn apply_claims(
    state: TopicState,
    own: Seq<char>,
    claims: Seq<MemoryClaimAbs>,
    run: Seq<u8>,
    n: int,
) -> (TopicState, Seq<ClaimApplyOutcome>)
    decreases n,
{
    if n <= 0 {
        (state, Seq::empty())
    } else {
        let (before, outcomes) = apply_claims(state, own, claims, run, n - 1);
        let (after, outcome) = apply_claim(before, own, claims[n - 1], run);
        (after, outcomes.push(outcome))
    }
}

/// A brand-new entry: created and updated by the run, with the title that the
/// slug gives.
pub open spec fn new_entry(slug: Seq<char>, run: Seq<u8>) -> MemoryEntryAbs {
    MemoryEntryAbs {
        title: slug_title(slug),
        slug,
        created: run,
        updated: run,
        artifact: None,
        claims: Seq::empty(),
    }
}

/// A topic before its claims are applied.
pub open spec fn opened(corpus: CorpusAbs, slug: Seq<char>, run: Seq<u8>) -> TopicState {
    TopicState {
        entry: if corpus.contains_key(slug) {
            corpus[slug]
        } else {
            new_entry(slug, run)
        },
        others: corpus.remove(slug),
    }
}

/// Whether one of the claims was appended.
pub open spec fn any_appended(outcomes: Seq<ClaimApplyOutcome>) -> bool {
    exists|i: int| 0 <= i < outcomes.len() && #[trigger] outcomes[i] is Appended
}

/// The corpus after a topic, and what became of each claim. A brand-new topic
/// is materialized only when at least one claim is appended.
pub open spec fn apply(corpus: CorpusAbs, topic: MemoryTopicAbs, run: Seq<u8>) -> (
    CorpusAbs,
    Seq<ClaimApplyOutcome>,
) {
    if !is_slug(topic.slug) {
        (corpus, all_rejected(topic.claims.len(), MemoryClaimRejection::InvalidSlug))
    } else if !corpus.contains_key(topic.slug) && !has_room(corpus) {
        (corpus, all_rejected(topic.claims.len(), MemoryClaimRejection::IndexCapReached))
    } else {
        let (state, outcomes) = apply_claims(
            opened(corpus, topic.slug, run),
            topic.slug,
            topic.claims,
            run,
            topic.claims.len() as int,
        );
        if corpus.contains_key(topic.slug) || any_appended(outcomes) {
            (state.others.insert(topic.slug, state.entry), outcomes)
        } else {
            (state.others, outcomes)
        }
    }
}

pub open spec fn all_rejected(n: nat, reason: MemoryClaimRejection) -> Seq<ClaimApplyOutcome> {
    Seq::new(n, |i: int| ClaimApplyOutcome::Rejected { reason })
}

fn reject_all(n: usize, reason: MemoryClaimRejection) -> (r: Vec<ClaimApplyOutcome>)
    ensures
        r@ == all_rejected(n as nat, reason),
{
    let mut out: Vec<ClaimApplyOutcome> = Vec::new();
    let mut i: usize = 0;
    while i < n
        invariant
            i <= n,
            out@ == all_rejected(i as nat, reason),
        decreases n - i,
    {
        out.push(ClaimApplyOutcome::Rejected { reason });
        i += 1;
        assert(out@ =~= all_rejected(i as nat, reason));
    }
    out
}

fn find_claim(claims: &Vec<StoredClaim>, text: &String) -> (r: Option<usize>)
    ensures
        match r {
            Some(i) => position_of(contents(claims@), text@) == Some(i as int) && i < claims@.len(),
            None => position_of(contents(claims@), text@) is None,
        },
{
    let ghost all = contents(claims@);
    let mut i: usize = 0;
    assert(all.take(0) =~= Seq::<StoredClaimAbs>::empty());
    while i < claims.len()
        invariant
            i <= claims@.len(),
            all == contents(claims@),
            position_of(all.take(i as int), text@) is None,
        decreases claims@.len() - i,
    {
        assert(all.take(i + 1).drop_last() =~= all.take(i as int));
        assert(all.take(i + 1).last() == claims@[i as int].abs());
        if claims[i].text == *text {
            proof {
                lemma_position_prefix(all, i + 1, text@);
            }
            return Some(i);
        }
        i += 1;
    }
    assert(all.take(i as int) =~= all);
    None
}

proof fn lemma_position_prefix(claims: Seq<StoredClaimAbs>, n: int, text: Seq<char>)
    requires
        0 <= n <= claims.len(),
        position_of(claims.take(n), text) is Some,
    ensures
        position_of(claims, text) == position_of(claims.take(n), text),
    decreases claims.len(),
{
    if n == claims.len() {
        assert(claims.take(n) =~= claims);
    } else {
        assert(claims.drop_last().take(n) =~= claims.take(n));
        lemma_position_prefix(claims.drop_last(), n, text);
    }
}

/// What a position found among claims means.
pub proof fn position_meaning(claims: Seq<StoredClaimAbs>, text: Seq<char>)
    ensures
        match position_of(claims, text) {
            Some(i) => 0 <= i < claims.len() && claims[i].text == text && forall|k: int|
                0 <= k < i ==> (#[trigger] claims[k]).text != text,
            None => forall|k: int| 0 <= k < claims.len() ==> (#[trigger] claims[k]).text != text,
        },
    decreases claims.len(),
{
    if claims.len() > 0 {
        let rest = claims.drop_last();
        position_meaning(rest, text);
        match position_of(rest, text) {
            Some(i) => {
                assert forall|k: int| 0 <= k < i implies (#[trigger] claims[k]).text != text by {
                    assert(rest[k] == claims[k]);
                }
            },
            None => {
                assert forall|k: int| 0 <= k < claims.len() - 1 implies (
                #[trigger] claims[k]).text != text by {
                    assert(rest[k] == claims[k]);
                }
            },
        }
    }
}

/// Tags a claim as superseded, unless it is tagged already; tells whether it
/// did.
fn supersede(entry: &mut MemoryEntry, position: usize, by: &str) -> (changed: bool)
    requires
        position < old(entry).claims@.len(),
    ensures
        final(entry).abs() == superseded(old(entry).abs(), position as int, by@),
        changed == (old(entry).abs().claims[position as int].superseded_by is None),
        final(entry).claims@.len() == old(entry).claims@.len(),
{
    let ghost before = entry.abs();
    let ghost list = entry.claims@;
    assert(before.claims[position as int] == list[position as int].abs());
    if entry.claims[position].superseded_by.is_some() {
        return false;
    }
    let slot: &mut StoredClaim = &mut entry.claims[position];
    slot.superseded_by = Some(by.to_owned());
    assert(contents(entry.claims@) =~= before.claims.update(
        position as int,
        StoredClaimAbs { superseded_by: Some(by@), ..before.claims[position as int] },
    ));
    true
}

/// A claim as it is newly stored.
fn store(claim: &MemoryClaim) -> (r: StoredClaim)
    ensures
        r.abs() == newly_stored(claim.abs()),
{
    let mut files: Vec<FileSource> = Vec::new();
    let mut i: usize = 0;
    while i < claim.files.len()
        invariant
            i <= claim.files@.len(),
            files@.len() == i,
            forall|k: int|
                0 <= k < i ==> (#[trigger] files@[k]).abs() == (FileSourceAbs {
                    path: claim.files@[k]@,
                    digest: None,
                }),
        decreases claim.files@.len() - i,
    {
        files.push(FileSource { path: claim.files[i].clone(), digest: None });
        i += 1;
    }
    let stored: StoredClaim = StoredClaim {
        text: claim.text.clone(),
        sources: claim.sources.duplicate(),
        files,
        status: None,
        superseded_by: None,
    };
    assert(stored.abs().files =~= newly_stored(claim.abs()).files);
    stored
}

spec fn targets_abs(targets: Seq<(String, usize)>) -> Seq<(Seq<char>, int)> {
    Seq::new(targets.len(), |i: int| (targets[i].0@, targets[i].1 as int))
}

/// Every target is a stored claim.
pub open spec fn are_stored(state: TopicState, own: Seq<char>, targets: Seq<(Seq<char>, int)>) -> bool {
    forall|i: int|
        0 <= i < targets.len() ==> {
            let target = #[trigger] targets[i];
            &&& entry_under(state, own, target.0) matches Some(entry)
            &&& 0 <= target.1 < entry.claims.len()
        }
}

/// What a reference resolves to is a stored claim.
pub proof fn resolved_are_stored(
    state: TopicState,
    own: Seq<char>,
    references: Seq<Seq<char>>,
)
    ensures
        all_resolved(state, own, references) matches Some(targets) ==> are_stored(
            state,
            own,
            targets,
        ),
    decreases references.len(),
{
    if references.len() > 0 {
        resolved_are_stored(state, own, references.drop_last());
        if let Some(targets) = all_resolved(state, own, references) {
            let rest = all_resolved(state, own, references.drop_last())->Some_0;
            assert(targets.drop_last() =~= rest);
            assert forall|i: int| 0 <= i < targets.len() implies {
                let target = #[trigger] targets[i];
                &&& entry_under(state, own, target.0) matches Some(entry)
                &&& 0 <= target.1 < entry.claims.len()
            } by {
                if i < rest.len() {
                    assert(rest[i] == targets[i]);
                }
            }
        }
    }
}

proof fn lemma_resolution_fails(
    state: TopicState,
    own: Seq<char>,
    references: Seq<Seq<char>>,
    n: int,
)
    requires
        0 <= n <= references.len(),
        all_resolved(state, own, references.take(n)) is None,
    ensures
        all_resolved(state, own, references) is None,
    decreases references.len(),
{
    if n == references.len() {
        assert(references.take(n) =~= references);
    } else {
        assert(references.drop_last().take(n) =~= references.take(n));
        lemma_resolution_fails(state, own, references.drop_last(), n);
    }
}

impl MemoryCorpus {
    /// The claim that a reference names.
    fn resolve(&self, own: &String, entry: &MemoryEntry, reference: &String) -> (r: Option<
        (String, usize),
    >)
        requires
            self.wf(),
        ensures
            match r {
                Some((slug, position)) => resolved(
                    TopicState { entry: entry.abs(), others: self@ },
                    own@,
                    reference@,
                ) == Some((slug@, position as int)),
                None => resolved(
                    TopicState { entry: entry.abs(), others: self@ },
                    own@,
                    reference@,
                ) is None,
            },
    {
        proof {
            reveal_strlit("#");
            assert("#"@ =~= seq!['#']);
        }
        let (slug, ordinal): (String, String) = match split_once(reference.as_str(), "#") {
            Some(parts) => parts,
            None => {
                return None;
            },
        };
        let number: String = match strip_prefix(ordinal.as_str(), "claim-") {
            Some(number) => number,
            None => {
                return None;
            },
        };
        let n: usize = match parse_number(number.as_str()) {
            Some(n) => n,
            None => {
                return None;
            },
        };
        let count: usize = if slug == *own {
            entry.claims.len()
        } else {
            match self.entry(slug.as_str()) {
                Some(target) => target.claims.len(),
                None => {
                    return None;
                },
            }
        };
        if 1 <= n && n <= count {
            Some((slug, n - 1))
        } else {
            None
        }
    }

    fn resolve_all(
        &self,
        own: &String,
        entry: &MemoryEntry,
        references: &Option<Vec<String>>,
    ) -> (r: Option<Vec<(String, usize)>>)
        requires
            self.wf(),
        ensures
            ({
                let state = TopicState { entry: entry.abs(), others: self@ };
                let wanted = match references {
                    Some(references) => contents(references@),
                    None => Seq::<Seq<char>>::empty(),
                };
                match r {
                    Some(targets) => all_resolved(state, own@, wanted) == Some(
                        targets_abs(targets@),
                    ),
                    None => all_resolved(state, own@, wanted) is None,
                }
            }),
    {
        let ghost state = TopicState { entry: entry.abs(), others: self@ };
        let mut targets: Vec<(String, usize)> = Vec::new();
        assert(targets_abs(targets@) =~= Seq::<(Seq<char>, int)>::empty());
        let list: &Vec<String> = match references {
            Some(list) => list,
            None => {
                return Some(targets);
            },
        };
        let ghost all = contents(list@);
        let mut i: usize = 0;
        assert(all.take(0) =~= Seq::<Seq<char>>::empty());
        while i < list.len()
            invariant
                self.wf(),
                i <= list@.len(),
                all == contents(list@),
                state == (TopicState { entry: entry.abs(), others: self@ }),
                all_resolved(state, own@, all.take(i as int)) == Some(targets_abs(targets@)),
                *references == Some(*list),
            decreases list@.len() - i,
        {
            assert(all.take(i + 1).drop_last() =~= all.take(i as int));
            assert(all.take(i + 1).last() == list@[i as int]@);
            match self.resolve(own, entry, &list[i]) {
                Some(target) => {
                    let ghost before = targets_abs(targets@);
                    targets.push(target);
                    assert(targets_abs(targets@) =~= before.push((target.0@, target.1 as int)));
                },
                None => {
                    proof {
                        lemma_resolution_fails(state, own@, all, i + 1);
                    }
                    return None;
                },
            }
            i += 1;
        }
        assert(all.take(i as int) =~= all);
        Some(targets)
    }

    /// Tags the claims that the targets name.
    fn supersede_all(
        &mut self,
        own: &String,
        entry: &mut MemoryEntry,
        targets: &Vec<(String, usize)>,
        by: &str,
        run: &AgentRunId,
    )
        requires
            old(self).wf(),
            are_stored(
                TopicState { entry: old(entry).abs(), others: old(self)@ },
                own@,
                targets_abs(targets@),
            ),
        ensures
            final(self).wf(),
            (TopicState { entry: final(entry).abs(), others: final(self)@ }) == all_superseded(
                TopicState { entry: old(entry).abs(), others: old(self)@ },
                own@,
                targets_abs(targets@),
                by@,
                run@,
            ),
    {
        let ghost start = TopicState { entry: entry.abs(), others: self@ };
        let ghost all = targets_abs(targets@);
        let mut i: usize = 0;
        assert(all.take(0) =~= Seq::<(Seq<char>, int)>::empty());
        while i < targets.len()
            invariant
                i <= targets@.len(),
                all == targets_abs(targets@),
                are_stored(start, own@, all),
                self.wf(),
                (TopicState { entry: entry.abs(), others: self@ }) == all_superseded(
                    start,
                    own@,
                    all.take(i as int),
                    by@,
                    run@,
                ),
            decreases targets@.len() - i,
        {
            assert(all.take(i + 1).drop_last() =~= all.take(i as int));
            assert(all.take(i + 1).last() == all[i as int]);
            let slug: &String = &targets[i].0;
            let position: usize = targets[i].1;
            proof {
                assert(all[i as int] == (slug@, position as int));
                lemma_superseding_keeps(start, own@, all.take(i as int), by@, run@);
            }
            if *slug == *own {
                assert(entry.abs().claims.len() == entry.claims@.len());
                supersede(entry, position, by);
            } else {
                let ghost before = self@;
                match self.entry_mut(slug.as_str()) {
                    Some(target) => {
                        assert(target.abs().claims.len() == target.claims@.len());
                        if supersede(target, position, by) {
                            target.updated = *run;
                        }
                    },
                    None => {},
                }
                assert(self@ =~= before.insert(
                    slug@,
                    superseded_elsewhere(before[slug@], position as int, by@, run@),
                ));
            }
            i += 1;
        }
        assert(all.take(i as int) =~= all);
    }

    /// Apply the accepted claims of one topic, in claim order:
    ///
    /// - exact-text duplicates are detected and emit no change (no rejection);
    /// - a new topic is refused with `IndexCapReached` when it would push the
    ///   header-inclusive index past `INDEX_MAX_LINES`;
    /// - invalid `supersedes` references (unknown target topic, out-of-range
    ///   ordinal, or a same-topic claim not yet stored) reject the new claim
    ///   without touching any entry; a valid one tags the old claim with
    ///   `[superseded-by: <slug>#claim-<n>]` pointing at the new claim's
    ///   ordinal, preserving the old wording; a cross-topic reference tags the
    ///   target entry's claim in place, without rewriting its wording, and
    ///   bumps the target's `updated` run to the current run;
    /// - appending bumps `updated` to the current run; a brand-new entry takes
    ///   `created == updated` and the slug-derived title.
    ///
    /// Newly stored claims carry file paths without digests; the writer stamps
    /// `@sha256-12` at write time.
    pub fn apply_topic(&mut self, topic: &MemoryTopic, current_run: &AgentRunId) -> (r: Vec<
        ClaimApplyOutcome,
    >)
        requires
            old(self).wf(),
        ensures
            final(self).wf(),
            (final(self)@, r@) == apply(old(self)@, topic.abs(), current_run@),
    {
        let ghost corpus = self@;
        let ghost abs = topic.abs();
        let ghost run = current_run@;
        assert(abs.claims.len() == topic.claims@.len());
        if !is_valid_slug(topic.slug.as_str()) {
            return reject_all(topic.claims.len(), MemoryClaimRejection::InvalidSlug);
        }
        let existing: bool = self.entry(topic.slug.as_str()).is_some();
        if !existing && !self.fits_new_topic() {
            return reject_all(topic.claims.len(), MemoryClaimRejection::IndexCapReached);
        }
        let mut entry: MemoryEntry = match self.remove(topic.slug.as_str()) {
            Some(entry) => entry,
            None => {
                let fresh: MemoryEntry = MemoryEntry {
                    title: title_from_slug(topic.slug.as_str()),
                    slug: topic.slug.clone(),
                    created: *current_run,
                    updated: *current_run,
                    artifact: None,
                    claims: Vec::new(),
                };
                assert(fresh.abs().claims =~= Seq::<StoredClaimAbs>::empty());
                fresh
            },
        };
        let ghost start = opened(corpus, abs.slug, run);
        let mut outcomes: Vec<ClaimApplyOutcome> = Vec::new();
        let mut appended: bool = false;
        let mut i: usize = 0;
        while i < topic.claims.len()
            invariant
                i <= topic.claims@.len(),
                abs == topic.abs(),
                run == current_run@,
                self.wf(),
                start == opened(corpus, abs.slug, run),
                (TopicState { entry: entry.abs(), others: self@ }, outcomes@) == apply_claims(
                    start,
                    abs.slug,
                    abs.claims,
                    run,
                    i as int,
                ),
                appended == any_appended(outcomes@),
            decreases topic.claims@.len() - i,
        {
            let claim: &MemoryClaim = &topic.claims[i];
            assert(abs.claims[i as int] == claim.abs());
            let ghost state = TopicState { entry: entry.abs(), others: self@ };
            let ghost told = outcomes@;
            let count: usize = entry.claims.len();
            if let Some(position) = find_claim(&entry.claims, &claim.text) {
                assert(position < count);
                outcomes.push(ClaimApplyOutcome::Duplicate { ordinal: position + 1 });
                proof {
                    lemma_appended(told, outcomes@.last());
                }
                i += 1;
                continue ;
            }
            if claim.sources.len() == 0 && claim.files.len() == 0 {
                outcomes.push(
                    ClaimApplyOutcome::Rejected { reason: MemoryClaimRejection::MissingSources },
                );
                proof {
                    lemma_appended(told, outcomes@.last());
                }
                i += 1;
                continue ;
            }
            let targets: Vec<(String, usize)> = match self.resolve_all(
                &topic.slug,
                &entry,
                &claim.supersedes,
            ) {
                Some(targets) => targets,
                None => {
                    outcomes.push(
                        ClaimApplyOutcome::Rejected {
                            reason: MemoryClaimRejection::InvalidSupersession,
                        },
                    );
                    proof {
                        lemma_appended(told, outcomes@.last());
                    }
                    i += 1;
                    continue ;
                },
            };
            proof {
                resolved_are_stored(state, abs.slug, references_of(claim.abs()));
                lemma_superseding_keeps(
                    state,
                    abs.slug,
                    targets_abs(targets@),
                    claim_reference(abs.slug, state.entry.claims.len() + 1),
                    run,
                );
            }
            let ghost list = entry.claims@;
            entry.claims.push(store(claim));
            assert(contents(entry.claims@) =~= contents(list).push(newly_stored(claim.abs())));
            let ordinal: usize = entry.claims.len();
            let by: String = topic.slug.clone().concat("#claim-").concat(
                decimal_text(ordinal).as_str(),
            );
            proof {
                lemma_superseding_before_pushing(
                    state,
                    abs.slug,
                    targets_abs(targets@),
                    by@,
                    run,
                    newly_stored(claim.abs()),
                );
            }
            self.supersede_all(&topic.slug, &mut entry, &targets, by.as_str(), current_run);
            entry.updated = *current_run;
            outcomes.push(ClaimApplyOutcome::Appended { ordinal });
            proof {
                lemma_appended(told, outcomes@.last());
            }
            appended = true;
            i += 1;
        }
        if existing || appended {
            self.insert_at(topic.slug.clone(), entry);
        }
        outcomes
    }
}

proof fn lemma_appended(outcomes: Seq<ClaimApplyOutcome>, outcome: ClaimApplyOutcome)
    ensures
        any_appended(outcomes.push(outcome)) == (any_appended(outcomes) || outcome is Appended),
{
    let more = outcomes.push(outcome);
    assert(more[outcomes.len() as int] == outcome);
    if any_appended(outcomes) {
        let i = choose|i: int| 0 <= i < outcomes.len() && #[trigger] outcomes[i] is Appended;
        assert(more[i] is Appended);
    }
    if any_appended(more) && !(outcome is Appended) {
        let i = choose|i: int| 0 <= i < more.len() && #[trigger] more[i] is Appended;
        assert(outcomes[i] is Appended);
    }
}

/// Tagging keeps every entry where it is, with as many claims as it had.
proof fn lemma_superseding_keeps(
    state: TopicState,
    own: Seq<char>,
    targets: Seq<(Seq<char>, int)>,
    by: Seq<char>,
    run: Seq<u8>,
)
    requires
        are_stored(state, own, targets),
    ensures
        all_superseded(state, own, targets, by, run).entry.claims.len() == state.entry.claims.len(),
        all_superseded(state, own, targets, by, run).others.dom() == state.others.dom(),
        forall|slug: Seq<char>|
            state.others.contains_key(slug) ==> (#[trigger] all_superseded(
                state,
                own,
                targets,
                by,
                run,
            ).others[slug]).claims.len() == state.others[slug].claims.len(),
    decreases targets.len(),
{
    if targets.len() > 0 {
        let rest = targets.drop_last();
        assert forall|i: int| 0 <= i < rest.len() implies {
            let target = #[trigger] rest[i];
            &&& entry_under(state, own, target.0) matches Some(entry)
            &&& 0 <= target.1 < entry.claims.len()
        } by {
            assert(rest[i] == targets[i]);
        }
        lemma_superseding_keeps(state, own, rest, by, run);
        let target = targets[targets.len() - 1];
        assert(all_superseded(state, own, targets, by, run).others.dom() =~= state.others.dom());
    }
}

/// Tagging stored claims and appending a claim may be done in either order.
proof fn lemma_superseding_before_pushing(
    state: TopicState,
    own: Seq<char>,
    targets: Seq<(Seq<char>, int)>,
    by: Seq<char>,
    run: Seq<u8>,
    claim: StoredClaimAbs,
)
    requires
        are_stored(state, own, targets),
    ensures
        are_stored(with_claim(state, claim), own, targets),
        all_superseded(with_claim(state, claim), own, targets, by, run) == with_claim(
            all_superseded(state, own, targets, by, run),
            claim,
        ),
    decreases targets.len(),
{
    let more = with_claim(state, claim);
    assert forall|i: int| 0 <= i < targets.len() implies {
        let target = #[trigger] targets[i];
        &&& entry_under(more, own, target.0) matches Some(entry)
        &&& 0 <= target.1 < entry.claims.len()
    } by {
        assert(entry_under(state, own, targets[i].0) is Some);
    }
    if targets.len() > 0 {
        let rest = targets.drop_last();
        assert forall|i: int| 0 <= i < rest.len() implies {
            let target = #[trigger] rest[i];
            &&& entry_under(state, own, target.0) matches Some(entry)
            &&& 0 <= target.1 < entry.claims.len()
        } by {
            assert(rest[i] == targets[i]);
        }
        lemma_superseding_before_pushing(state, own, rest, by, run, claim);
        lemma_superseding_keeps(state, own, rest, by, run);
        let target = targets[targets.len() - 1];
        let before = all_superseded(state, own, rest, by, run);
        if target.0 == own {
            let claims = before.entry.claims;
            let tagged = StoredClaimAbs { superseded_by: Some(by), ..claims[target.1] };
            assert(claims.push(claim).update(target.1, tagged) =~= claims.update(
                target.1,
                tagged,
            ).push(claim));
        }
    }
}

spec fn with_claim(state: TopicState, claim: StoredClaimAbs) -> TopicState {
    TopicState {
        entry: MemoryEntryAbs { claims: state.entry.claims.push(claim), ..state.entry },
        ..state
    }
}

} // verus!
