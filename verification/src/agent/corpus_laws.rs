//! What applying a topic does to a corpus: it appends and tags, and changes
//! nothing else.

use vstd::prelude::*;

use super::memory::{is_slug, MemoryClaimAbs, MemoryTopicAbs};
use super::memory_corpus::{
    all_resolved, all_superseded, any_appended, apply, apply_claim, apply_claims, are_stored,
    claim_reference, entry_under, has_room, newly_stored, opened, position_meaning, references_of,
    resolved_are_stored, superseded, CorpusAbs, TopicState,
};
use super::memory_entry::{
    ClaimApplyOutcome, MemoryEntryAbs, StoredClaimAbs, INDEX_MAX_LINES,
};

verus! {

/// The same claim: only a supersession tag may have been added.
pub open spec fn same_claim(before: StoredClaimAbs, after: StoredClaimAbs) -> bool {
    &&& after.text == before.text
    &&& after.sources == before.sources
    &&& after.files == before.files
    &&& after.status == before.status
    &&& before.superseded_by is Some ==> after.superseded_by == before.superseded_by
}

/// An entry with claims appended and tagged, and nothing else changed but the
/// run that updated it.
pub open spec fn grows(before: MemoryEntryAbs, after: MemoryEntryAbs) -> bool {
    &&& after.title == before.title
    &&& after.slug == before.slug
    &&& after.created == before.created
    &&& after.artifact == before.artifact
    &&& before.claims.len() <= after.claims.len()
    &&& forall|i: int|
        0 <= i < before.claims.len() ==> same_claim(
            #[trigger] before.claims[i],
            after.claims[i],
        )
}

/// An entry that grew in a run, or stayed as it was.
pub open spec fn grows_in(before: MemoryEntryAbs, after: MemoryEntryAbs, run: Seq<u8>) -> bool {
    grows(before, after) && (after == before || after.updated == run)
}

/// Entries that grew in a run, or stayed as they were.
pub open spec fn all_grow_in(before: CorpusAbs, after: CorpusAbs, run: Seq<u8>) -> bool {
    &&& before.dom() =~= after.dom()
    &&& forall|slug: Seq<char>| #[trigger]
        before.contains_key(slug) ==> grows_in(before[slug], after[slug], run)
}

proof fn lemma_grows_on(a: MemoryEntryAbs, b: MemoryEntryAbs, c: MemoryEntryAbs)
    requires
        grows(a, b),
        grows(b, c),
    ensures
        grows(a, c),
{
    assert forall|i: int| 0 <= i < a.claims.len() implies same_claim(
        #[trigger] a.claims[i],
        c.claims[i],
    ) by {
        assert(same_claim(a.claims[i], b.claims[i]));
        assert(same_claim(b.claims[i], c.claims[i]));
    }
}

proof fn lemma_superseded_grows(entry: MemoryEntryAbs, position: int, by: Seq<char>)
    requires
        0 <= position < entry.claims.len(),
    ensures
        grows(entry, superseded(entry, position, by)),
        superseded(entry, position, by).claims.len() == entry.claims.len(),
{
}

proof fn lemma_tagging_grows(
    state: TopicState,
    own: Seq<char>,
    targets: Seq<(Seq<char>, int)>,
    by: Seq<char>,
    run: Seq<u8>,
)
    requires
        are_stored(state, own, targets),
    ensures
        ({
            let tagged = all_superseded(state, own, targets, by, run);
            &&& grows(state.entry, tagged.entry)
            &&& tagged.entry.claims.len() == state.entry.claims.len()
            &&& tagged.entry.updated == state.entry.updated
            &&& all_grow_in(state.others, tagged.others, run)
            &&& forall|slug: Seq<char>| #[trigger]
                state.others.contains_key(slug) ==> tagged.others[slug].claims.len()
                    == state.others[slug].claims.len()
        }),
    decreases targets.len(),
{
    if targets.len() > 0 {
        let rest = targets.drop_last();
        assert forall|i: int| 0 <= i < rest.len() implies {
            let target = #[trigger] rest[i];
            &&& entry_under(state, own, target.0) matches Some(entry)
            &&& 0 <= target.1 < entry.claims.len()
        } by {
            assert(rest[i] == targets[i]);
        }
        lemma_tagging_grows(state, own, rest, by, run);
        let before = all_superseded(state, own, rest, by, run);
        let tagged = all_superseded(state, own, targets, by, run);
        let target = targets[targets.len() - 1];
        if target.0 == own {
            lemma_superseded_grows(before.entry, target.1, by);
            lemma_grows_on(state.entry, before.entry, tagged.entry);
        } else {
            let slug = target.0;
            assert(grows_in(state.others[slug], before.others[slug], run));
            lemma_superseded_grows(before.others[slug], target.1, by);
            lemma_grows_on(state.others[slug], before.others[slug], tagged.others[slug]);
            assert forall|key: Seq<char>| #[trigger] state.others.contains_key(key) implies grows_in(
                state.others[key],
                tagged.others[key],
                run,
            ) by {
                if key != slug {
                    assert(tagged.others[key] == before.others[key]);
                }
            }
        }
    }
}

/// A claim that is not appended changes nothing; one that is appended stands
/// at the end, under the ordinal that is told, and is no duplicate.
proof fn lemma_claim_applied(
    state: TopicState,
    own: Seq<char>,
    claim: MemoryClaimAbs,
    run: Seq<u8>,
)
    ensures
        ({
            let (after, outcome) = apply_claim(state, own, claim, run);
            let n = state.entry.claims.len();
            &&& grows(state.entry, after.entry)
            &&& all_grow_in(state.others, after.others, run)
            &&& !(outcome is Appended) ==> after == state
            &&& outcome is Appended ==> {
                &&& outcome->Appended_ordinal == (n + 1) as usize
                &&& after.entry.updated == run
                &&& after.entry.claims.len() == n + 1
                &&& after.entry.claims[n as int] == newly_stored(claim)
                &&& forall|i: int| 0 <= i < n ==> (#[trigger] state.entry.claims[i]).text
                    != claim.text
            }
        }),
{
    let (after, outcome) = apply_claim(state, own, claim, run);
    position_meaning(state.entry.claims, claim.text);
    if outcome is Appended {
        let targets = all_resolved(state, own, references_of(claim))->Some_0;
        let by = claim_reference(own, state.entry.claims.len() + 1);
        resolved_are_stored(state, own, references_of(claim));
        lemma_tagging_grows(state, own, targets, by, run);
        let tagged = all_superseded(state, own, targets, by, run);
        assert(grows(tagged.entry, after.entry));
        lemma_grows_on(state.entry, tagged.entry, after.entry);
    }
}

/// Every text stands in one claim at most.
pub open spec fn texts_are_distinct(claims: Seq<StoredClaimAbs>) -> bool {
    forall|i: int, j: int|
        0 <= i < j < claims.len() ==> (#[trigger] claims[i]).text != (#[trigger] claims[j]).text
}

/// What became of a claim, by the entry after all of them.
spec fn is_told(
    outcome: ClaimApplyOutcome,
    claim: MemoryClaimAbs,
    entry: MemoryEntryAbs,
) -> bool {
    outcome matches ClaimApplyOutcome::Appended { ordinal } ==> {
        &&& 1 <= ordinal <= entry.claims.len()
        &&& same_claim(newly_stored(claim), entry.claims[ordinal - 1])
    }
}

proof fn lemma_claims_applied(
    state: TopicState,
    own: Seq<char>,
    claims: Seq<MemoryClaimAbs>,
    run: Seq<u8>,
    n: int,
)
    requires
        0 <= n <= claims.len(),
    ensures
        ({
            let (after, outcomes) = apply_claims(state, own, claims, run, n);
            &&& outcomes.len() == n
            &&& grows(state.entry, after.entry)
            &&& after.entry == state.entry || after.entry.updated == run
            &&& all_grow_in(state.others, after.others, run)
            &&& !any_appended(outcomes) ==> after == state
            &&& after.entry.claims.len() <= state.entry.claims.len() + n
            &&& texts_are_distinct(state.entry.claims) ==> texts_are_distinct(after.entry.claims)
            &&& state.entry.claims.len() + n <= usize::MAX ==> forall|i: int|
                0 <= i < n ==> is_told(#[trigger] outcomes[i], claims[i], after.entry)
        }),
    decreases n,
{
    if n > 0 {
        lemma_claims_applied(state, own, claims, run, n - 1);
        let (before, told) = apply_claims(state, own, claims, run, n - 1);
        let (after, outcomes) = apply_claims(state, own, claims, run, n);
        let claim = claims[n - 1];
        lemma_claim_applied(before, own, claim, run);
        lemma_grows_on(state.entry, before.entry, after.entry);
        assert forall|slug: Seq<char>| #[trigger]
            state.others.contains_key(slug) implies grows_in(
            state.others[slug],
            after.others[slug],
            run,
        ) by {
            assert(grows_in(state.others[slug], before.others[slug], run));
            assert(before.others.contains_key(slug));
            assert(grows_in(before.others[slug], after.others[slug], run));
            lemma_grows_on(state.others[slug], before.others[slug], after.others[slug]);
        }
        assert(outcomes.drop_last() =~= told);
        if any_appended(told) {
            let i = choose|i: int| 0 <= i < told.len() && #[trigger] told[i] is Appended;
            assert(outcomes[i] is Appended);
        }
        assert(outcomes[n - 1] == apply_claim(before, own, claim, run).1);
        if texts_are_distinct(state.entry.claims) {
            let list = after.entry.claims;
            assert forall|i: int, j: int| 0 <= i < j < list.len() implies (
            #[trigger] list[i]).text != (#[trigger] list[j]).text by {
                assert(same_claim(before.entry.claims[i], list[i]));
                if j < before.entry.claims.len() {
                    assert(same_claim(before.entry.claims[j], list[j]));
                }
            }
        }
        if state.entry.claims.len() + n <= usize::MAX {
            assert forall|i: int| 0 <= i < n implies is_told(
                #[trigger] outcomes[i],
                claims[i],
                after.entry,
            ) by {
                if i < n - 1 {
                    assert(outcomes[i] == told[i]);
                    assert(is_told(told[i], claims[i], before.entry));
                    if let ClaimApplyOutcome::Appended { ordinal } = outcomes[i] {
                        assert(same_claim(
                            before.entry.claims[ordinal - 1],
                            after.entry.claims[ordinal - 1],
                        ));
                    }
                }
            }
        }
    }
}

/// Where no claim is appended, the topic stays as it was.
pub(crate) proof fn nothing_appended(
    state: TopicState,
    own: Seq<char>,
    claims: Seq<MemoryClaimAbs>,
    run: Seq<u8>,
    n: int,
)
    requires
        0 <= n <= claims.len(),
        !any_appended(apply_claims(state, own, claims, run, n).1),
    ensures
        apply_claims(state, own, claims, run, n).0 == state,
{
    lemma_claims_applied(state, own, claims, run, n);
}

/// Applying claims makes and drops no entry of another topic.
pub(crate) proof fn others_stay(
    state: TopicState,
    own: Seq<char>,
    claims: Seq<MemoryClaimAbs>,
    run: Seq<u8>,
    n: int,
)
    requires
        0 <= n <= claims.len(),
    ensures
        apply_claims(state, own, claims, run, n).0.others.dom() == state.others.dom(),
{
    lemma_claims_applied(state, own, claims, run, n);
    assert(apply_claims(state, own, claims, run, n).0.others.dom() =~= state.others.dom());
}

/// Applying a topic never rewrites, reorders or drops a stored claim, and
/// never changes the title, slug, artifact or creating run of an entry; an
/// entry that changed is marked as updated by the run; no entry but that of
/// the topic is new.
pub proof fn applying_only_appends(corpus: CorpusAbs, topic: MemoryTopicAbs, run: Seq<u8>)
    ensures
        ({
            let after = apply(corpus, topic, run).0;
            &&& forall|slug: Seq<char>| #[trigger]
                corpus.contains_key(slug) ==> after.contains_key(slug) && grows_in(
                    corpus[slug],
                    after[slug],
                    run,
                )
            &&& forall|slug: Seq<char>| #[trigger]
                after.contains_key(slug) && !corpus.contains_key(slug) ==> slug == topic.slug
                    && after[slug].created == run && after[slug].updated == run
        }),
{
    let state = opened(corpus, topic.slug, run);
    let n = topic.claims.len() as int;
    lemma_claims_applied(state, topic.slug, topic.claims, run, n);
    let after = apply(corpus, topic, run).0;
    assert forall|slug: Seq<char>| #[trigger] corpus.contains_key(slug) implies after.contains_key(
        slug,
    ) && grows_in(corpus[slug], after[slug], run) by {
        if slug != topic.slug {
            assert(state.others.contains_key(slug));
            assert(state.others[slug] == corpus[slug]);
        }
    }
    assert forall|slug: Seq<char>| #[trigger]
        after.contains_key(slug) && !corpus.contains_key(slug) implies slug == topic.slug
        && after[slug].created == run && after[slug].updated == run by {
        let (last, outcomes) = apply_claims(state, topic.slug, topic.claims, run, n);
        if slug != topic.slug {
            assert(last.others.contains_key(slug));
            assert(state.others.contains_key(slug));
        }
    }
}

/// Where no claim is appended, be they duplicates or refused, the corpus stays
/// as it was. There is one outcome for each claim.
pub proof fn applying_nothing_changes_nothing(
    corpus: CorpusAbs,
    topic: MemoryTopicAbs,
    run: Seq<u8>,
)
    ensures
        apply(corpus, topic, run).1.len() == topic.claims.len(),
        !any_appended(apply(corpus, topic, run).1) ==> apply(corpus, topic, run).0 == corpus,
{
    let state = opened(corpus, topic.slug, run);
    let n = topic.claims.len() as int;
    lemma_claims_applied(state, topic.slug, topic.claims, run, n);
    if !any_appended(apply(corpus, topic, run).1) {
        if corpus.contains_key(topic.slug) {
            assert(corpus.remove(topic.slug).insert(topic.slug, corpus[topic.slug]) =~= corpus);
        } else {
            assert(corpus.remove(topic.slug) =~= corpus);
        }
    }
}

/// An appended claim stands under the ordinal that its outcome tells, with its
/// text and its sources.
pub proof fn appended_claims_are_stored(
    corpus: CorpusAbs,
    topic: MemoryTopicAbs,
    run: Seq<u8>,
    i: int,
)
    requires
        0 <= i < topic.claims.len(),
        corpus.contains_key(topic.slug) ==> corpus[topic.slug].claims.len() + topic.claims.len()
            <= usize::MAX,
        topic.claims.len() <= usize::MAX,
    ensures
        apply(corpus, topic, run).1[i] matches ClaimApplyOutcome::Appended { ordinal } ==> {
            let after = apply(corpus, topic, run).0;
            &&& after.contains_key(topic.slug)
            &&& 1 <= ordinal <= after[topic.slug].claims.len()
            &&& same_claim(newly_stored(topic.claims[i]), after[topic.slug].claims[ordinal - 1])
        },
{
    let state = opened(corpus, topic.slug, run);
    let n = topic.claims.len() as int;
    lemma_claims_applied(state, topic.slug, topic.claims, run, n);
    let outcomes = apply(corpus, topic, run).1;
    if outcomes[i] is Appended {
        assert(any_appended(outcomes));
        let (last, told) = apply_claims(state, topic.slug, topic.claims, run, n);
        assert(is_told(told[i], topic.claims[i], last.entry));
    }
}

/// Applying a topic never stores a text twice in an entry.
pub proof fn applying_keeps_texts_distinct(
    corpus: CorpusAbs,
    topic: MemoryTopicAbs,
    run: Seq<u8>,
    slug: Seq<char>,
)
    requires
        forall|key: Seq<char>| #[trigger]
            corpus.contains_key(key) ==> texts_are_distinct(corpus[key].claims),
        apply(corpus, topic, run).0.contains_key(slug),
    ensures
        texts_are_distinct(apply(corpus, topic, run).0[slug].claims),
{
    let state = opened(corpus, topic.slug, run);
    let n = topic.claims.len() as int;
    lemma_claims_applied(state, topic.slug, topic.claims, run, n);
    lemma_others_distinct(corpus, topic, run, slug);
    assert(corpus.contains_key(topic.slug) ==> texts_are_distinct(corpus[topic.slug].claims));
    assert(texts_are_distinct(state.entry.claims));
}

/// An entry of another topic gains no claim.
proof fn lemma_others_distinct(
    corpus: CorpusAbs,
    topic: MemoryTopicAbs,
    run: Seq<u8>,
    slug: Seq<char>,
)
    ensures
        slug != topic.slug && corpus.contains_key(slug) ==> {
            let after = apply(corpus, topic, run).0;
            after[slug].claims.len() == corpus[slug].claims.len() && (texts_are_distinct(
                corpus[slug].claims,
            ) ==> texts_are_distinct(after[slug].claims))
        },
{
    if slug != topic.slug && corpus.contains_key(slug) {
        applying_only_appends(corpus, topic, run);
        let state = opened(corpus, topic.slug, run);
        let n = topic.claims.len() as int;
        lemma_others_keep_length(state, topic.slug, topic.claims, run, n, slug);
        let after = apply(corpus, topic, run).0;
        assert(grows_in(corpus[slug], after[slug], run));
        if texts_are_distinct(corpus[slug].claims) {
            let list = after[slug].claims;
            assert forall|i: int, j: int| 0 <= i < j < list.len() implies (
            #[trigger] list[i]).text != (#[trigger] list[j]).text by {
                assert(same_claim(corpus[slug].claims[i], list[i]));
                assert(same_claim(corpus[slug].claims[j], list[j]));
            }
        }
    }
}

proof fn lemma_others_keep_length(
    state: TopicState,
    own: Seq<char>,
    claims: Seq<MemoryClaimAbs>,
    run: Seq<u8>,
    n: int,
    slug: Seq<char>,
)
    requires
        0 <= n <= claims.len(),
        state.others.contains_key(slug),
    ensures
        apply_claims(state, own, claims, run, n).0.others.contains_key(slug),
        apply_claims(state, own, claims, run, n).0.others[slug].claims.len()
            == state.others[slug].claims.len(),
    decreases n,
{
    if n > 0 {
        lemma_others_keep_length(state, own, claims, run, n - 1, slug);
        let before = apply_claims(state, own, claims, run, n - 1).0;
        let claim = claims[n - 1];
        if let Some(targets) = all_resolved(before, own, references_of(claim)) {
            let by = claim_reference(own, before.entry.claims.len() + 1);
            resolved_are_stored(before, own, references_of(claim));
            lemma_tagging_grows(before, own, targets, by, run);
        }
    }
}

/// The index never grows past its cap: a corpus that is within it stays within
/// it, whatever topic is applied.
pub proof fn index_cap_is_kept(corpus: CorpusAbs, topic: MemoryTopicAbs, run: Seq<u8>)
    requires
        corpus.dom().finite(),
        corpus.len() + 2 <= INDEX_MAX_LINES,
    ensures
        apply(corpus, topic, run).0.dom().finite(),
        apply(corpus, topic, run).0.len() + 2 <= INDEX_MAX_LINES,
{
    let state = opened(corpus, topic.slug, run);
    let n = topic.claims.len() as int;
    lemma_claims_applied(state, topic.slug, topic.claims, run, n);
    let (last, outcomes) = apply_claims(state, topic.slug, topic.claims, run, n);
    let after = apply(corpus, topic, run).0;
    assert(last.others.dom() =~= corpus.dom().remove(topic.slug));
    if is_slug(topic.slug) && (corpus.contains_key(topic.slug) || has_room(corpus)) {
        assert(last.others.insert(topic.slug, last.entry).dom() =~= corpus.dom().insert(
            topic.slug,
        ));
        if !corpus.contains_key(topic.slug) {
            assert(corpus.dom().remove(topic.slug) =~= corpus.dom());
        } else {
            assert(corpus.dom().insert(topic.slug) =~= corpus.dom());
        }
    }
}

/// Whether none of the claims was refused.
pub open spec fn none_rejected(outcomes: Seq<ClaimApplyOutcome>) -> bool {
    forall|i: int| 0 <= i < outcomes.len() ==> !(#[trigger] outcomes[i] is Rejected)
}

/// Whether every one of the claims was there already.
pub open spec fn all_duplicates(outcomes: Seq<ClaimApplyOutcome>) -> bool {
    forall|i: int| 0 <= i < outcomes.len() ==> #[trigger] outcomes[i] is Duplicate
}

/// Whether a text stands in one of the claims.
spec fn has_text(claims: Seq<StoredClaimAbs>, text: Seq<char>) -> bool {
    exists|i: int| 0 <= i < claims.len() && (#[trigger] claims[i]).text == text
}

/// Claims that were not refused stand in the entry afterwards.
proof fn lemma_accepted_are_stored(
    state: TopicState,
    own: Seq<char>,
    claims: Seq<MemoryClaimAbs>,
    run: Seq<u8>,
    n: int,
)
    requires
        0 <= n <= claims.len(),
        none_rejected(apply_claims(state, own, claims, run, n).1),
    ensures
        forall|i: int|
            0 <= i < n ==> has_text(
                apply_claims(state, own, claims, run, n).0.entry.claims,
                (#[trigger] claims[i]).text,
            ),
    decreases n,
{
    if n > 0 {
        let (before, told) = apply_claims(state, own, claims, run, n - 1);
        let (after, outcomes) = apply_claims(state, own, claims, run, n);
        lemma_claims_applied(state, own, claims, run, n - 1);
        assert forall|i: int| 0 <= i < told.len() implies !(#[trigger] told[i] is Rejected) by {
            assert(outcomes[i] == told[i]);
        }
        lemma_accepted_are_stored(state, own, claims, run, n - 1);
        let claim = claims[n - 1];
        lemma_claim_applied(before, own, claim, run);
        position_meaning(before.entry.claims, claim.text);
        assert(outcomes[n - 1] == apply_claim(before, own, claim, run).1);
        assert forall|i: int| 0 <= i < n implies has_text(
            after.entry.claims,
            (#[trigger] claims[i]).text,
        ) by {
            if i < n - 1 {
                assert(has_text(before.entry.claims, claims[i].text));
                let k = choose|k: int|
                    0 <= k < before.entry.claims.len() && (#[trigger] before.entry.claims[k]).text
                        == claims[i].text;
                assert(same_claim(before.entry.claims[k], after.entry.claims[k]));
            } else if outcomes[n - 1] is Appended {
                assert(after.entry.claims[before.entry.claims.len() as int].text == claim.text);
            }
        }
    }
}

/// Claims whose texts all stand in the entry are duplicates.
proof fn lemma_stored_are_duplicates(
    state: TopicState,
    own: Seq<char>,
    claims: Seq<MemoryClaimAbs>,
    run: Seq<u8>,
    n: int,
)
    requires
        0 <= n <= claims.len(),
        forall|i: int|
            0 <= i < claims.len() ==> has_text(state.entry.claims, (#[trigger] claims[i]).text),
    ensures
        apply_claims(state, own, claims, run, n).0 == state,
        all_duplicates(apply_claims(state, own, claims, run, n).1),
    decreases n,
{
    if n > 0 {
        lemma_stored_are_duplicates(state, own, claims, run, n - 1);
        let claim = claims[n - 1];
        assert(has_text(state.entry.claims, claim.text));
        position_meaning(state.entry.claims, claim.text);
    }
}

/// A topic of which no claim was refused may be applied again, in whatever run:
/// every claim is then a duplicate, and the corpus stays as it was.
pub proof fn applying_again_changes_nothing(
    corpus: CorpusAbs,
    topic: MemoryTopicAbs,
    run: Seq<u8>,
    later: Seq<u8>,
)
    requires
        none_rejected(apply(corpus, topic, run).1),
    ensures
        apply(apply(corpus, topic, run).0, topic, later).0 == apply(corpus, topic, run).0,
        all_duplicates(apply(apply(corpus, topic, run).0, topic, later).1),
{
    let (once, outcomes) = apply(corpus, topic, run);
    let n = topic.claims.len() as int;
    applying_nothing_changes_nothing(corpus, topic, run);
    applying_nothing_changes_nothing(once, topic, later);
    if n > 0 {
        assert(!(outcomes[0] is Rejected));
        let first = opened(corpus, topic.slug, run);
        let (last, told) = apply_claims(first, topic.slug, topic.claims, run, n);
        lemma_claims_applied(first, topic.slug, topic.claims, run, n);
        lemma_accepted_are_stored(first, topic.slug, topic.claims, run, n);
        assert(has_text(last.entry.claims, topic.claims[0].text));
        assert(once == last.others.insert(topic.slug, last.entry));
        let second = opened(once, topic.slug, later);
        assert(second.entry == last.entry);
        lemma_stored_are_duplicates(second, topic.slug, topic.claims, later, n);
    }
}

} // verus!
