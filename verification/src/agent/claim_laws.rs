//! What slugs, titles, claims and the lines of an index are.

use vstd::prelude::*;
use vstd::string::*;

use super::compaction_laws::is_among;
use super::memory::{
    claim_outcome, is_memory_path, is_ordinal, is_slug, is_slug_segment, is_supersession,
    MemoryClaim, MemoryClaimRejection, MemoryTopicAbs,
};
use super::memory_corpus::{
    capitalized, enumerates, file_slug, slug_order, slug_title, spaced, CorpusAbs,
};
use super::memory_index::corpus_index;
use super::topic_laws::lemma_hash;
use crate::correlation_id::MessageId;
use crate::text::{
    after, cut, cut_is, find, find_from_meaning, is_whitespace, pieces, pieces_nonempty, precedes,
    without_prefix, without_suffix,
};
use crate::text_laws::{pieces_rebuild_the_text, rejoined};
use crate::value::{contents, Abstract};

verus! {

// ---------------------------------------------------------------------------
// Slugs and titles
// ---------------------------------------------------------------------------

/// Whether a character may stand in a word of a slug.
pub open spec fn is_word_char(c: char) -> bool {
    97 <= c as u32 <= 122 || 48 <= c as u32 <= 57
}

/// Whether a text is words of small letters and digits with one hyphen between
/// them, or begins like that.
spec fn begins_like_a_slug(s: Seq<char>) -> bool {
    &&& forall|i: int| 0 <= i < s.len() ==> is_word_char(#[trigger] s[i]) || s[i] == '-'
    &&& s.len() > 0 ==> s[0] != '-'
    &&& forall|i: int| 0 <= i < s.len() - 1 ==> !(#[trigger] s[i] == '-' && s[i + 1] == '-')
}

spec fn has_words(p: Seq<Seq<char>>) -> bool {
    &&& forall|k: int| 0 <= k < p.len() - 1 ==> is_slug_segment(#[trigger] p[k])
    &&& forall|j: int| 0 <= j < p.last().len() ==> is_word_char(#[trigger] p.last()[j])
}

proof fn lemma_word(p: Seq<Seq<char>>)
    requires
        has_words(p),
        p.last().len() > 0,
    ensures
        is_slug_segment(p.last()),
{
    let word = p.last();
    assert forall|i: int| 0 <= i < word.len() implies (crate::text::is_lower(#[trigger] word[i])
        || crate::text::is_digit(word[i])) by {
        assert(is_word_char(p.last()[i]));
        lemma_word_char(word[i]);
    }
}

proof fn lemma_word_char(c: char)
    ensures
        is_word_char(c) <==> crate::text::is_lower(c) || crate::text::is_digit(c),
{
}

proof fn lemma_words(s: Seq<char>)
    ensures
        has_words(pieces(s, '-')) <==> begins_like_a_slug(s),
        pieces(s, '-').last().len() == 0 <==> s.len() == 0 || s.last() == '-',
    decreases s.len(),
{
    let p = pieces(s, '-');
    if s.len() == 0 {
        assert(p.last().len() == 0);
    } else {
        let less = s.drop_last();
        let q = pieces(less, '-');
        lemma_words(less);
        pieces_nonempty(less, '-');
        let c = s.last();
        if begins_like_a_slug(s) {
            assert forall|i: int| 0 <= i < less.len() implies is_word_char(#[trigger] less[i])
                || less[i] == '-' by {
                assert(s[i] == less[i]);
            }
            assert forall|i: int| 0 <= i < less.len() - 1 implies !(#[trigger] less[i] == '-'
                && less[i + 1] == '-') by {
                assert(s[i] == less[i] && s[i + 1] == less[i + 1]);
            }
            if less.len() > 0 {
                assert(s[0] == less[0]);
            }
            assert(begins_like_a_slug(less));
            assert(has_words(q));
        }
        if c == '-' {
            assert(p.drop_last() =~= q);
            assert(p.last().len() == 0);
            if begins_like_a_slug(s) {
                assert(s[0] != '-');
                assert(less.len() > 0);
                let i = s.len() - 2;
                assert(!(s[i] == '-' && s[i + 1] == '-'));
                assert(less.last() != '-');
                assert(q.last().len() > 0);
                lemma_word(q);
                assert forall|k: int| 0 <= k < p.len() - 1 implies is_slug_segment(
                    #[trigger] p[k],
                ) by {
                    assert(p[k] == q[k]);
                }
            }
            if has_words(p) {
                assert(is_slug_segment(p[p.len() - 2]));
                assert(p[p.len() - 2] == q.last());
                assert forall|k: int| 0 <= k < q.len() - 1 implies is_slug_segment(
                    #[trigger] q[k],
                ) by {
                    assert(p[k] == q[k]);
                }
                assert(has_words(q));
                assert(less.len() > 0 && less.last() != '-');
                assert forall|i: int| 0 <= i < s.len() implies is_word_char(#[trigger] s[i])
                    || s[i] == '-' by {
                    if i < less.len() {
                        assert(s[i] == less[i]);
                    }
                }
                assert forall|i: int| 0 <= i < s.len() - 1 implies !(#[trigger] s[i] == '-' && s[i
                    + 1] == '-') by {
                    assert(s[i] == less[i]);
                    if i + 1 < less.len() {
                        assert(s[i + 1] == less[i + 1]);
                    }
                }
                assert(s[0] == less[0]);
            }
        } else {
            let longer = q.last().push(c);
            assert(p.last() == longer);
            assert(p.drop_last() =~= q.drop_last());
            if begins_like_a_slug(s) {
                assert(s[s.len() - 1] == c);
                assert(is_word_char(c));
                assert forall|k: int| 0 <= k < p.len() - 1 implies is_slug_segment(
                    #[trigger] p[k],
                ) by {
                    assert(p[k] == q[k]);
                }
                assert forall|j: int| 0 <= j < longer.len() implies is_word_char(
                    #[trigger] longer[j],
                ) by {
                    if j < q.last().len() {
                        assert(longer[j] == q.last()[j]);
                    }
                }
            }
            if has_words(p) {
                assert(is_word_char(p.last()[longer.len() - 1]));
                assert forall|k: int| 0 <= k < q.len() - 1 implies is_slug_segment(
                    #[trigger] q[k],
                ) by {
                    assert(p[k] == q[k]);
                }
                assert forall|j: int| 0 <= j < q.last().len() implies is_word_char(
                    #[trigger] q.last()[j],
                ) by {
                    assert(p.last()[j] == q.last()[j]);
                }
                assert(has_words(q));
                assert forall|i: int| 0 <= i < s.len() implies is_word_char(#[trigger] s[i])
                    || s[i] == '-' by {
                    if i < less.len() {
                        assert(s[i] == less[i]);
                    }
                }
                assert forall|i: int| 0 <= i < s.len() - 1 implies !(#[trigger] s[i] == '-' && s[i
                    + 1] == '-') by {
                    assert(s[i] == less[i]);
                    if i + 1 < less.len() {
                        assert(s[i + 1] == less[i + 1]);
                    }
                }
                if less.len() > 0 {
                    assert(s[0] == less[0]);
                }
            }
        }
    }
}

/// A slug is small letters, digits and hyphens; no hyphen stands at an end or
/// next to another.
pub proof fn slugs_are_kebab_case(s: Seq<char>)
    ensures
        is_slug(s) <==> {
            &&& s.len() > 0
            &&& forall|i: int|
                0 <= i < s.len() ==> 97 <= #[trigger] s[i] as u32 <= 122 || 48 <= s[i] as u32 <= 57
                    || s[i] == '-'
            &&& s[0] != '-'
            &&& s.last() != '-'
            &&& forall|i: int| 0 <= i < s.len() - 1 ==> !(#[trigger] s[i] == '-' && s[i + 1] == '-')
        },
{
    let p = pieces(s, '-');
    pieces_nonempty(s, '-');
    lemma_words(s);
    if is_slug(s) {
        assert(is_slug_segment(p[p.len() - 1]));
        assert(has_words(p));
        assert(s.len() > 0 && s.last() != '-');
        assert forall|i: int| 0 <= i < s.len() implies 97 <= #[trigger] s[i] as u32 <= 122 || 48
            <= s[i] as u32 <= 57 || s[i] == '-' by {
            assert(is_word_char(s[i]) || s[i] == '-');
        }
    }
    if s.len() > 0 && s[0] != '-' && s.last() != '-' && (forall|i: int|
        0 <= i < s.len() ==> 97 <= #[trigger] s[i] as u32 <= 122 || 48 <= s[i] as u32 <= 57 || s[i]
            == '-') && (forall|i: int|
        0 <= i < s.len() - 1 ==> !(#[trigger] s[i] == '-' && s[i + 1] == '-')) {
        assert(begins_like_a_slug(s));
        assert(p.last().len() > 0);
        lemma_word(p);
        assert forall|k: int| 0 <= k < p.len() implies is_slug_segment(#[trigger] p[k]) by {
            if k == p.len() - 1 {
                assert(p[k] == p.last());
            }
        }
    }
}

/// A text with spaces in the places of its hyphens.
pub open spec fn unhyphened(s: Seq<char>) -> Seq<char> {
    Seq::new(
        s.len(),
        |i: int|
            if s[i] == '-' {
                ' '
            } else {
                s[i]
            },
    )
}

proof fn lemma_spaced(words: Seq<Seq<char>>)
    requires
        words.len() > 0,
        forall|k: int| 0 <= k < words.len() ==> !(#[trigger] words[k]).contains('-'),
    ensures
        words[0] + spaced(words.drop_first()) == unhyphened(rejoined(words, '-')),
    decreases words.len(),
{
    if words.len() == 1 {
        assert(words.drop_first() =~= Seq::<Seq<char>>::empty());
        assert forall|i: int| 0 <= i < words[0].len() implies words[0][i] != '-' by {
            assert(!words[0].contains('-'));
        }
        assert(words[0] + spaced(words.drop_first()) =~= unhyphened(rejoined(words, '-')));
    } else {
        let less = words.drop_last();
        assert forall|k: int| 0 <= k < less.len() implies !(#[trigger] less[k]).contains('-') by {
            assert(less[k] == words[k]);
        }
        lemma_spaced(less);
        let rest = words.drop_first();
        assert(rest.drop_last() =~= less.drop_first());
        assert(rest.last() == words.last());
        let last = words[words.len() - 1];
        assert(!last.contains('-'));
        assert forall|i: int| 0 <= i < last.len() implies last[i] != '-' by {
            assert(last.contains(last[i]));
        }
        let head = rejoined(less, '-');
        assert(unhyphened(head + seq!['-'] + last) =~= unhyphened(head) + seq![' '] + last);
        assert(words[0] + (spaced(rest.drop_last()) + seq![' '] + last) =~= (words[0] + spaced(
            rest.drop_last(),
        )) + seq![' '] + last);
    }
}

/// The title of a new topic is its slug with spaces in the places of the
/// hyphens and a capital in front.
pub proof fn titles_are_slugs_in_words(slug: Seq<char>, i: int)
    requires
        is_slug(slug),
        0 <= i < slug.len(),
    ensures
        slug_title(slug).len() == slug.len(),
        i == 0 && 97 <= slug[0] as u32 <= 122 ==> slug_title(slug)[0] as u32 == slug[0] as u32 - 32,
        i == 0 && 48 <= slug[0] as u32 <= 57 ==> slug_title(slug)[0] == slug[0],
        i > 0 && slug[i] == '-' ==> slug_title(slug)[i] == ' ',
        i > 0 && slug[i] != '-' ==> slug_title(slug)[i] == slug[i],
{
    let words = pieces(slug, '-');
    pieces_rebuild_the_text(slug, '-');
    slugs_are_kebab_case(slug);
    lemma_spaced(words);
    let plain = words[0] + spaced(words.drop_first());
    assert(plain == unhyphened(slug));
    assert(is_slug_segment(words[0]));
    assert(words[0][0] == plain[0]);
    assert(slug[0] != '-');
    assert(words[0][0] == slug[0]);
    let first = super::memory_corpus::capital(slug[0]);
    assert(first.len() == 1);
    assert(capitalized(words[0]) == first + words[0].drop_first());
    assert(slug_title(slug) =~= first + plain.drop_first());
}

// ---------------------------------------------------------------------------
// Claims
// ---------------------------------------------------------------------------

/// A supersession reference is a slug, `#claim-` and a number without a zero in
/// front.
pub proof fn references_have_their_form(reference: Seq<char>)
    ensures
        is_supersession(reference) <==> exists|slug: Seq<char>, number: Seq<char>|
            is_slug(slug) && is_ordinal(number) && reference == #[trigger] (slug + "#claim-"@
                + number),
{
    let hash = seq!['#'];
    if exists|slug: Seq<char>, number: Seq<char>|
        is_slug(slug) && is_ordinal(number) && reference == #[trigger] (slug + "#claim-"@
            + number) {
        let (slug, number) = choose|slug: Seq<char>, number: Seq<char>|
            is_slug(slug) && is_ordinal(number) && reference == #[trigger] (slug + "#claim-"@
                + number);
        slugs_are_kebab_case(slug);
        assert(!slug.contains('#')) by {
            if slug.contains('#') {
                let k = choose|k: int| 0 <= k < slug.len() && slug[k] == '#';
                assert(97 <= slug[k] as u32 <= 122 || 48 <= slug[k] as u32 <= 57 || slug[k] == '-');
            }
        }
        lemma_hash(slug, number);
        cut_is(slug, hash, "claim-"@ + number);
    }
    if is_supersession(reference) {
        find_from_meaning(reference, hash, 0);
        let i = find(reference, hash)->Some_0;
        let (slug, ordinal) = cut(reference, hash)->Some_0;
        assert(reference.subrange(i, i + 1)[0] == reference[i]);
        let number = without_prefix(ordinal, "claim-"@)->Some_0;
        assert(ordinal =~= "claim-"@ + number) by {
            assert(ordinal =~= ordinal.subrange(0, "claim-"@.len() as int) + after(
                ordinal,
                "claim-"@.len() as int,
            ));
        }
        lemma_hash(slug, number);
        assert(reference =~= slug + hash + ordinal);
        assert(reference == slug + "#claim-"@ + number);
    }
}

/// Whether a file is named by a path that is not empty, does not begin at the
/// root and holds no NUL.
pub open spec fn is_file_name(path: Seq<char>) -> bool {
    path.len() > 0 && path[0] != '/' && forall|i: int|
        0 <= i < path.len() ==> #[trigger] path[i] != '\0'
}

/// Whether a claim is one line that says something.
pub open spec fn says_something(text: Seq<char>) -> bool {
    &&& exists|i: int| 0 <= i < text.len() && !is_whitespace(#[trigger] text[i])
    &&& forall|i: int| 0 <= i < text.len() ==> #[trigger] text[i] != '\n' && text[i] != '\r'
}

/// A claim of a topic is accepted exactly when the topic has a slug, the claim
/// is one line that says something, cites messages of the source or files, and
/// no others, and what it supersedes is named in its form.
pub proof fn accepted_claims_are_sourced(
    claim: MemoryClaim,
    source: Seq<MessageId>,
    topic: MemoryTopicAbs,
    index: int,
)
    requires
        0 <= index < topic.claims.len(),
        topic.claims[index] == claim.abs(),
    ensures
        claim_outcome(topic, contents(source), index) is None <==> {
            &&& is_slug(topic.slug)
            &&& says_something(claim.text@)
            &&& claim.sources@.len() + claim.files@.len() > 0
            &&& forall|i: int|
                0 <= i < claim.sources@.len() ==> is_among(#[trigger] claim.sources@[i], source)
            &&& forall|i: int|
                0 <= i < claim.files@.len() ==> is_file_name((#[trigger] claim.files@[i])@)
            &&& claim.supersedes matches Some(references) ==> forall|i: int|
                0 <= i < references@.len() ==> is_supersession((#[trigger] references@[i])@)
        },
        !is_slug(topic.slug) ==> claim_outcome(topic, contents(source), index) == Some(
            MemoryClaimRejection::InvalidSlug,
        ),
{
    let abs = claim.abs();
    let all = contents(source);
    assert(abs.text == claim.text@);
    assert(abs.sources.len() == claim.sources@.len());
    assert(abs.files.len() == claim.files@.len());
    assert forall|k: int| 0 <= k < claim.sources@.len() implies (all.contains(
        #[trigger] abs.sources[k],
    ) <==> is_among(claim.sources@[k], source)) by {
        assert(abs.sources[k] == claim.sources@[k]@);
        if all.contains(abs.sources[k]) {
            let m = choose|m: int| 0 <= m < all.len() && all[m] == abs.sources[k];
            assert(source[m]@ == claim.sources@[k]@);
        }
        if is_among(claim.sources@[k], source) {
            let m = choose|m: int|
                0 <= m < source.len() && (#[trigger] source[m])@ == claim.sources@[k]@;
            assert(all[m] == abs.sources[k]);
        }
    }
    assert forall|k: int| 0 <= k < claim.files@.len() implies (is_memory_path(
        #[trigger] abs.files[k],
    ) <==> is_file_name(claim.files@[k]@)) by {
        let path = claim.files@[k]@;
        assert(abs.files[k] == path);
        if is_memory_path(path) {
            assert forall|i: int| 0 <= i < path.len() implies #[trigger] path[i] != '\0' by {
                assert(path.contains(path[i]));
            }
        }
    }
    assert(says_something(abs.text) <==> !(crate::text::is_blank(abs.text) || abs.text.contains(
        '\n',
    ) || abs.text.contains('\r'))) by {
        let text = abs.text;
        if says_something(text) {
            let i = choose|i: int| 0 <= i < text.len() && !is_whitespace(#[trigger] text[i]);
            assert(!is_whitespace(text[i]));
        }
        if !(crate::text::is_blank(text) || text.contains('\n') || text.contains('\r')) {
            let i = choose|i: int| 0 <= i < text.len() && !is_whitespace(#[trigger] text[i]);
            assert(!is_whitespace(text[i]));
            assert forall|i: int| 0 <= i < text.len() implies #[trigger] text[i] != '\n' && text[i]
                != '\r' by {
                assert(text.contains(text[i]));
            }
        }
    }
    if let Some(references) = claim.supersedes {
        let named = abs.supersedes->Some_0;
        assert(named.len() == references@.len());
        assert forall|k: int| 0 <= k < references@.len() implies #[trigger] named[k]
            == references@[k]@ by {}
        if forall|i: int|
            0 <= i < references@.len() ==> is_supersession((#[trigger] references@[i])@) {
            assert forall|i: int| 0 <= i < named.len() implies is_supersession(
                #[trigger] named[i],
            ) by {
                assert(is_supersession(references@[i]@));
            }
        }
        if forall|i: int| 0 <= i < named.len() ==> is_supersession(#[trigger] named[i]) {
            assert forall|i: int| 0 <= i < references@.len() implies is_supersession(
                (#[trigger] references@[i])@,
            ) by {
                assert(is_supersession(named[i]));
            }
        }
    }
    if forall|i: int|
        0 <= i < claim.sources@.len() ==> is_among(#[trigger] claim.sources@[i], source) {
        assert forall|k: int| 0 <= k < abs.sources.len() implies all.contains(
            #[trigger] abs.sources[k],
        ) by {
            assert(is_among(claim.sources@[k], source));
        }
    }
    if forall|k: int| 0 <= k < abs.sources.len() ==> all.contains(#[trigger] abs.sources[k]) {
        assert forall|i: int| 0 <= i < claim.sources@.len() implies is_among(
            #[trigger] claim.sources@[i],
            source,
        ) by {
            assert(all.contains(abs.sources[i]));
        }
    }
    if forall|i: int| 0 <= i < claim.files@.len() ==> is_file_name((#[trigger] claim.files@[i])@) {
        assert forall|k: int| 0 <= k < abs.files.len() implies is_memory_path(
            #[trigger] abs.files[k],
        ) by {
            assert(is_file_name(claim.files@[k]@));
        }
    }
    if forall|k: int| 0 <= k < abs.files.len() ==> is_memory_path(#[trigger] abs.files[k]) {
        assert forall|i: int| 0 <= i < claim.files@.len() implies is_file_name(
            (#[trigger] claim.files@[i])@,
        ) by {
            assert(is_memory_path(abs.files[i]));
        }
    }
}

// ---------------------------------------------------------------------------
// The index
// ---------------------------------------------------------------------------

/// The index of a corpus has one line for each entry, in the order of the
/// slugs, with the title, the number of claims and the path of the entry.
pub proof fn the_index_lists_every_entry(corpus: CorpusAbs, slug: Seq<char>)
    requires
        enumerates(slug_order(corpus), corpus.dom()),
        corpus.contains_key(slug),
        corpus[slug].claims.len() <= usize::MAX,
    ensures
        exists|i: int|
            0 <= i < corpus_index(corpus).len() && {
                let line = #[trigger] corpus_index(corpus)[i];
                &&& line.slug == slug
                &&& line.title == corpus[slug].title
                &&& line.claims == corpus[slug].claims.len()
                &&& line.path == "entries/"@ + slug + ".md"@
            },
        forall|i: int|
            0 <= i < corpus_index(corpus).len() ==> corpus.contains_key(
                (#[trigger] corpus_index(corpus)[i]).slug,
            ),
        forall|i: int, j: int|
            0 <= i < j < corpus_index(corpus).len() ==> precedes(
                (#[trigger] corpus_index(corpus)[i]).slug,
                (#[trigger] corpus_index(corpus)[j]).slug,
            ),
{
    let slugs = slug_order(corpus);
    assert(corpus.dom().contains(slug));
    let i = choose|i: int| 0 <= i < slugs.len() && slugs[i] == slug;
    assert(corpus_index(corpus)[i].slug == slug);
    assert forall|k: int| 0 <= k < corpus_index(corpus).len() implies corpus.contains_key(
        (#[trigger] corpus_index(corpus)[k]).slug,
    ) by {
        assert(slugs.contains(slugs[k]));
        assert(corpus.dom().contains(slugs[k]));
    }
}

/// An entry is kept in the file of its slug, in whatever directory.
pub proof fn entries_are_kept_under_their_slug(directory: Seq<char>, slug: Seq<char>)
    requires
        is_slug(slug),
    ensures
        file_slug(directory + seq!['/'] + slug + ".md"@) == slug,
        file_slug(slug + ".md"@) == slug,
{
    reveal_strlit(".md");
    slugs_are_kebab_case(slug);
    let name = slug + ".md"@;
    assert(!name.contains('/')) by {
        if name.contains('/') {
            let k = choose|k: int| 0 <= k < name.len() && name[k] == '/';
            if k < slug.len() {
                assert(name[k] == slug[k]);
            } else {
                assert(name[k] == ".md"@[k - slug.len()]);
            }
        }
    }
    crate::text::pieces_extended(directory + seq!['/'], name, '/');
    assert((directory + seq!['/']).drop_last() =~= directory);
    assert(pieces(directory + seq!['/'], '/').last() =~= Seq::<char>::empty());
    assert(Seq::<char>::empty() + name =~= name);
    assert(directory + seq!['/'] + slug + ".md"@ =~= directory + seq!['/'] + name);
    crate::text::pieces_extended(Seq::empty(), name, '/');
    assert(Seq::<char>::empty() + name =~= name);
    assert(name.subrange(name.len() - 3, name.len() as int) =~= ".md"@);
    assert(name.subrange(0, name.len() - 3) =~= slug);
    assert(without_suffix(name, ".md"@) == Some(slug));
}

} // verus!
