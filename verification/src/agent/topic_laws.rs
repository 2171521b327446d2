//! What becomes of each claim of a topic, and what it supersedes.

use vstd::prelude::*;
use vstd::string::*;

use super::memory::{is_slug, MemoryClaimAbs, MemoryClaimRejection, MemoryTopicAbs};
use super::memory_corpus::{
    all_resolved, all_superseded, any_appended, apply, apply_claim, apply_claims, are_stored,
    claim_reference, entry_under, newly_stored, opened, position_meaning, references_of, resolved,
    resolved_are_stored, slug_title, superseded, superseded_elsewhere, CorpusAbs, TopicState,
};
use super::memory_entry::{ClaimApplyOutcome, MemoryEntryAbs, StoredClaimAbs};
use crate::text::{
    after, cut, cut_is, decimal, find, find_from_meaning, number_in, occurs_at, without_prefix,
};

verus! {

// ---------------------------------------------------------------------------
// References
// ---------------------------------------------------------------------------

/// Whether a reference names the claim at an index of an entry: it is the slug
/// of the entry, `#claim-` and the number of the claim, counted from one.
pub open spec fn names(reference: Seq<char>, slug: Seq<char>, index: int) -> bool {
    &&& !slug.contains('#')
    &&& exists|number: Seq<char>| #[trigger]
        number_in(number) matches Some(n) && n == index + 1 && reference == slug + "#claim-"@
            + number
}

/// Whether the claim at an index is stored in the entry under a slug.
pub open spec fn is_stored(state: TopicState, own: Seq<char>, slug: Seq<char>, index: int) -> bool {
    if slug == own {
        0 <= index < state.entry.claims.len()
    } else {
        state.others.contains_key(slug) && 0 <= index < state.others[slug].claims.len()
    }
}

pub(crate) proof fn lemma_hash(slug: Seq<char>, rest: Seq<char>)
    ensures
        slug + "#claim-"@ + rest == slug + seq!['#'] + ("claim-"@ + rest),
        without_prefix("claim-"@ + rest, "claim-"@) == Some(rest),
{
    reveal_strlit("#claim-");
    reveal_strlit("claim-");
    assert(slug + "#claim-"@ + rest =~= slug + seq!['#'] + ("claim-"@ + rest));
    let s = "claim-"@ + rest;
    assert(s.subrange(0, "claim-"@.len() as int) =~= "claim-"@);
    assert(after(s, "claim-"@.len() as int) =~= rest);
}

/// A reference resolves to a claim exactly when it names it and the claim is
/// stored.
pub proof fn references_name_stored_claims(
    state: TopicState,
    own: Seq<char>,
    reference: Seq<char>,
    slug: Seq<char>,
    index: int,
)
    ensures
        resolved(state, own, reference) == Some((slug, index)) <==> names(reference, slug, index)
            && is_stored(state, own, slug, index),
{
    let hash = seq!['#'];
    if names(reference, slug, index) && is_stored(state, own, slug, index) {
        let number = choose|number: Seq<char>| #[trigger]
            number_in(number) matches Some(n) && n == index + 1 && reference == slug + "#claim-"@
                + number;
        lemma_hash(slug, number);
        cut_is(slug, hash, "claim-"@ + number);
        assert(cut(reference, hash) == Some((slug, "claim-"@ + number)));
    }
    if resolved(state, own, reference) == Some((slug, index)) {
        find_from_meaning(reference, hash, 0);
        let i = find(reference, hash)->Some_0;
        let ordinal = after(reference, i + 1);
        assert(reference.subrange(i, i + 1)[0] == reference[i]);
        assert(slug == reference.subrange(0, i));
        assert(!slug.contains('#')) by {
            if slug.contains('#') {
                let k = choose|k: int| 0 <= k < slug.len() && slug[k] == '#';
                assert(reference.subrange(k, k + 1) =~= hash);
                assert(occurs_at(reference, hash, k));
            }
        }
        let number = without_prefix(ordinal, "claim-"@)->Some_0;
        assert(ordinal =~= "claim-"@ + number) by {
            assert(ordinal.subrange(0, "claim-"@.len() as int) == "claim-"@);
            assert(ordinal =~= ordinal.subrange(0, "claim-"@.len() as int) + after(
                ordinal,
                "claim-"@.len() as int,
            ));
        }
        lemma_hash(slug, number);
        assert(reference =~= slug + hash + ordinal);
        assert(number_in(number) is Some);
    }
}

/// `<slug>#claim-<n>` names the claim of that number, counted from one: where
/// it is stored, the reference resolves to the index before the number.
pub proof fn references_count_from_one(
    state: TopicState,
    own: Seq<char>,
    slug: Seq<char>,
    n: usize,
)
    requires
        !slug.contains('#'),
        is_stored(state, own, slug, n - 1),
    ensures
        resolved(state, own, slug + "#claim-"@ + decimal(n as nat)) == Some((slug, n - 1)),
{
    super::memory_laws::number_round_trip(n);
    let number = decimal(n as nat);
    assert(number_in(number) == Some(n));
    assert(names(slug + "#claim-"@ + number, slug, n - 1));
    references_name_stored_claims(state, own, slug + "#claim-"@ + number, slug, n - 1);
}

/// Whether one of some references names a claim.
pub open spec fn is_named(references: Seq<Seq<char>>, slug: Seq<char>, index: int) -> bool {
    exists|i: int| 0 <= i < references.len() && names(#[trigger] references[i], slug, index)
}

/// Whether a reference names a claim that is stored.
pub open spec fn is_valid(state: TopicState, own: Seq<char>, reference: Seq<char>) -> bool {
    exists|slug: Seq<char>, index: int| #[trigger]
        names(reference, slug, index) && is_stored(state, own, slug, index)
}

proof fn lemma_valid(state: TopicState, own: Seq<char>, reference: Seq<char>)
    ensures
        resolved(state, own, reference) is Some <==> is_valid(state, own, reference),
{
    if let Some((slug, index)) = resolved(state, own, reference) {
        references_name_stored_claims(state, own, reference, slug, index);
        assert(names(reference, slug, index));
    }
    if is_valid(state, own, reference) {
        let (slug, index) = choose|slug: Seq<char>, index: int| #[trigger]
            names(reference, slug, index) && is_stored(state, own, slug, index);
        references_name_stored_claims(state, own, reference, slug, index);
    }
}

proof fn lemma_all_valid(state: TopicState, own: Seq<char>, references: Seq<Seq<char>>)
    ensures
        all_resolved(state, own, references) is Some <==> forall|i: int|
            0 <= i < references.len() ==> is_valid(state, own, #[trigger] references[i]),
        all_resolved(state, own, references) matches Some(targets) ==> {
            &&& targets.len() == references.len()
            &&& forall|i: int|
                0 <= i < references.len() ==> resolved(state, own, #[trigger] references[i])
                    == Some(targets[i])
        },
    decreases references.len(),
{
    if references.len() > 0 {
        let rest = references.drop_last();
        lemma_all_valid(state, own, rest);
        lemma_valid(state, own, references.last());
        if all_resolved(state, own, references) is Some {
            let targets = all_resolved(state, own, references)->Some_0;
            assert forall|i: int| 0 <= i < references.len() implies resolved(
                state,
                own,
                #[trigger] references[i],
            ) == Some(targets[i]) by {
                if i < rest.len() {
                    assert(rest[i] == references[i]);
                }
            }
            assert forall|i: int| 0 <= i < references.len() implies is_valid(
                state,
                own,
                #[trigger] references[i],
            ) by {
                if i < rest.len() {
                    assert(rest[i] == references[i]);
                }
            }
        }
        if forall|i: int|
            0 <= i < references.len() ==> is_valid(state, own, #[trigger] references[i]) {
            assert forall|i: int| 0 <= i < rest.len() implies is_valid(
                state,
                own,
                #[trigger] rest[i],
            ) by {
                assert(rest[i] == references[i]);
            }
            assert(is_valid(state, own, references[references.len() - 1]));
        }
    }
}

proof fn lemma_targets(
    state: TopicState,
    own: Seq<char>,
    references: Seq<Seq<char>>,
    slug: Seq<char>,
    index: int,
)
    requires
        all_resolved(state, own, references) is Some,
    ensures
        all_resolved(state, own, references)->Some_0.contains((slug, index)) <==> is_named(
            references,
            slug,
            index,
        ) && is_stored(state, own, slug, index),
{
    lemma_all_valid(state, own, references);
    let targets = all_resolved(state, own, references)->Some_0;
    if targets.contains((slug, index)) {
        let i = choose|i: int| 0 <= i < targets.len() && targets[i] == (slug, index);
        assert(resolved(state, own, references[i]) == Some((slug, index)));
        references_name_stored_claims(state, own, references[i], slug, index);
    }
    if is_named(references, slug, index) && is_stored(state, own, slug, index) {
        let i = choose|i: int|
            0 <= i < references.len() && names(#[trigger] references[i], slug, index);
        references_name_stored_claims(state, own, references[i], slug, index);
        assert(targets[i] == (slug, index));
    }
}

// ---------------------------------------------------------------------------
// Tags
// ---------------------------------------------------------------------------

/// The tag of a claim after others superseded it: the one that it had or,
/// where it had none and is named, the new one.
pub open spec fn tag_after(
    before: Option<Seq<char>>,
    named: bool,
    by: Seq<char>,
) -> Option<Seq<char>> {
    if before is None && named {
        Some(by)
    } else {
        before
    }
}

/// Whether a claim is another one but for its tag.
pub open spec fn differs_by_tag(
    before: StoredClaimAbs,
    after: StoredClaimAbs,
    tag: Option<Seq<char>>,
) -> bool {
    &&& after.text == before.text
    &&& after.sources == before.sources
    &&& after.files == before.files
    &&& after.status == before.status
    &&& after.superseded_by == tag
}

/// Whether claims have their tags after the targets in an entry were tagged.
spec fn are_tagged(
    before: Seq<StoredClaimAbs>,
    after: Seq<StoredClaimAbs>,
    targets: Seq<(Seq<char>, int)>,
    slug: Seq<char>,
    by: Seq<char>,
) -> bool {
    &&& after.len() == before.len()
    &&& forall|m: int|
        0 <= m < before.len() ==> differs_by_tag(
            before[m],
            #[trigger] after[m],
            tag_after(before[m].superseded_by, targets.contains((slug, m)), by),
        )
}

/// Whether a target in an entry has no tag yet.
spec fn has_fresh(
    before: Seq<StoredClaimAbs>,
    targets: Seq<(Seq<char>, int)>,
    slug: Seq<char>,
) -> bool {
    exists|m: int|
        0 <= m < before.len() && (#[trigger] before[m]).superseded_by is None && targets.contains(
            (slug, m),
        )
}

proof fn lemma_tagged(
    state: TopicState,
    own: Seq<char>,
    targets: Seq<(Seq<char>, int)>,
    by: Seq<char>,
    run: Seq<u8>,
    slug: Seq<char>,
)
    requires
        are_stored(state, own, targets),
    ensures
        ({
            let done = all_superseded(state, own, targets, by, run);
            &&& done.others.dom() == state.others.dom()
            &&& are_tagged(state.entry.claims, done.entry.claims, targets, own, by)
            &&& done.entry == (MemoryEntryAbs { claims: done.entry.claims, ..state.entry })
            &&& slug != own && state.others.contains_key(slug) ==> {
                let old_entry = state.others[slug];
                let new_entry = done.others[slug];
                &&& are_tagged(old_entry.claims, new_entry.claims, targets, slug, by)
                &&& new_entry == (MemoryEntryAbs {
                    claims: new_entry.claims,
                    updated: if has_fresh(old_entry.claims, targets, slug) {
                        run
                    } else {
                        old_entry.updated
                    },
                    ..old_entry
                })
            }
        }),
    decreases targets.len(),
{
    if targets.len() == 0 {
        assert(!targets.contains((own, 0)));
    } else {
        let rest = targets.drop_last();
        let last = targets.last();
        assert forall|i: int| 0 <= i < rest.len() implies {
            let target = #[trigger] rest[i];
            &&& entry_under(state, own, target.0) matches Some(entry)
            &&& 0 <= target.1 < entry.claims.len()
        } by {
            assert(rest[i] == targets[i]);
        }
        assert(entry_under(state, own, targets[targets.len() - 1].0) is Some);
        lemma_tagged(state, own, rest, by, run, slug);
        lemma_tagged(state, own, rest, by, run, last.0);
        let before = all_superseded(state, own, rest, by, run);
        let done = all_superseded(state, own, targets, by, run);
        assert forall|key: (Seq<char>, int)| targets.contains(key) <==> (rest.contains(key) || key
            == last) by {
            if targets.contains(key) {
                let i = choose|i: int| 0 <= i < targets.len() && targets[i] == key;
                if i < rest.len() {
                    assert(rest[i] == key);
                }
            }
            if rest.contains(key) {
                let i = choose|i: int| 0 <= i < rest.len() && rest[i] == key;
                assert(targets[i] == key);
            }
            if key == last {
                assert(targets[targets.len() - 1] == key);
            }
        }
        assert(done.others.dom() =~= state.others.dom());
        if last.0 == own {
            assert(0 <= last.1 < state.entry.claims.len());
            assert forall|m: int| 0 <= m < state.entry.claims.len() implies differs_by_tag(
                state.entry.claims[m],
                #[trigger] done.entry.claims[m],
                tag_after(
                    state.entry.claims[m].superseded_by,
                    targets.contains((own, m)),
                    by,
                ),
            ) by {
                assert(differs_by_tag(
                    state.entry.claims[m],
                    before.entry.claims[m],
                    tag_after(state.entry.claims[m].superseded_by, rest.contains((own, m)), by),
                ));
            }
            if slug != own && state.others.contains_key(slug) {
                let old_entry = state.others[slug];
                assert forall|m: int| 0 <= m < old_entry.claims.len() implies differs_by_tag(
                    old_entry.claims[m],
                    #[trigger] done.others[slug].claims[m],
                    tag_after(
                        old_entry.claims[m].superseded_by,
                        targets.contains((slug, m)),
                        by,
                    ),
                ) by {
                    assert(targets.contains((slug, m)) == rest.contains((slug, m)));
                }
                lemma_same_fresh(old_entry.claims, targets, rest, slug);
            }
        } else {
            assert forall|m: int| 0 <= m < state.entry.claims.len() implies differs_by_tag(
                state.entry.claims[m],
                #[trigger] done.entry.claims[m],
                tag_after(
                    state.entry.claims[m].superseded_by,
                    targets.contains((own, m)),
                    by,
                ),
            ) by {
                assert(targets.contains((own, m)) == rest.contains((own, m)));
            }
            if slug != own && state.others.contains_key(slug) {
                let old_entry = state.others[slug];
                if slug != last.0 {
                    assert(done.others[slug] == before.others[slug]);
                    assert forall|m: int| 0 <= m < old_entry.claims.len() implies differs_by_tag(
                        old_entry.claims[m],
                        #[trigger] done.others[slug].claims[m],
                        tag_after(
                            old_entry.claims[m].superseded_by,
                            targets.contains((slug, m)),
                            by,
                        ),
                    ) by {
                        assert(targets.contains((slug, m)) == rest.contains((slug, m)));
                    }
                    lemma_same_fresh(old_entry.claims, targets, rest, slug);
                } else {
                    let middle = before.others[slug];
                    let position = last.1;
                    assert(0 <= position < old_entry.claims.len());
                    assert(differs_by_tag(
                        old_entry.claims[position],
                        middle.claims[position],
                        tag_after(
                            old_entry.claims[position].superseded_by,
                            rest.contains((slug, position)),
                            by,
                        ),
                    ));
                    assert(done.others[slug] == superseded_elsewhere(middle, position, by, run));
                    assert forall|m: int| 0 <= m < old_entry.claims.len() implies differs_by_tag(
                        old_entry.claims[m],
                        #[trigger] done.others[slug].claims[m],
                        tag_after(
                            old_entry.claims[m].superseded_by,
                            targets.contains((slug, m)),
                            by,
                        ),
                    ) by {
                        assert(differs_by_tag(
                            old_entry.claims[m],
                            middle.claims[m],
                            tag_after(
                                old_entry.claims[m].superseded_by,
                                rest.contains((slug, m)),
                                by,
                            ),
                        ));
                    }
                    if middle.claims[position].superseded_by is None {
                        assert(old_entry.claims[position].superseded_by is None);
                        assert(targets.contains((slug, position)));
                        assert(has_fresh(old_entry.claims, targets, slug));
                    } else {
                        if has_fresh(old_entry.claims, targets, slug) {
                            let m = choose|m: int|
                                0 <= m < old_entry.claims.len() && (
                                #[trigger] old_entry.claims[m]).superseded_by is None
                                    && targets.contains((slug, m));
                            assert(rest.contains((slug, m)) || m == position);
                            if m == position {
                                assert(rest.contains((slug, m)));
                            }
                            assert(has_fresh(old_entry.claims, rest, slug));
                        }
                        if has_fresh(old_entry.claims, rest, slug) {
                            let m = choose|m: int|
                                0 <= m < old_entry.claims.len() && (
                                #[trigger] old_entry.claims[m]).superseded_by is None
                                    && rest.contains((slug, m));
                            assert(targets.contains((slug, m)));
                        }
                    }
                }
            }
        }
    }
}

proof fn lemma_same_fresh(
    claims: Seq<StoredClaimAbs>,
    targets: Seq<(Seq<char>, int)>,
    rest: Seq<(Seq<char>, int)>,
    slug: Seq<char>,
)
    requires
        forall|m: int| #[trigger] targets.contains((slug, m)) == rest.contains((slug, m)),
    ensures
        has_fresh(claims, targets, slug) == has_fresh(claims, rest, slug),
{
    if has_fresh(claims, rest, slug) {
        let m = choose|m: int|
            0 <= m < claims.len() && (#[trigger] claims[m]).superseded_by is None && rest.contains(
                (slug, m),
            );
        assert(targets.contains((slug, m)));
    }
}

// ---------------------------------------------------------------------------
// Claims
// ---------------------------------------------------------------------------

/// Whether a corpus holds the claim at an index of the entry under a slug.
pub open spec fn holds_claim(corpus: CorpusAbs, slug: Seq<char>, index: int) -> bool {
    corpus.contains_key(slug) && 0 <= index < corpus[slug].claims.len()
}

/// The claims under a slug; where there is no entry there are none.
pub open spec fn claims_under(corpus: CorpusAbs, slug: Seq<char>) -> Seq<StoredClaimAbs> {
    if corpus.contains_key(slug) {
        corpus[slug].claims
    } else {
        Seq::empty()
    }
}

/// Whether a reference names a claim of the corpus.
pub open spec fn names_a_claim(corpus: CorpusAbs, reference: Seq<char>) -> bool {
    exists|slug: Seq<char>, index: int| #[trigger]
        names(reference, slug, index) && holds_claim(corpus, slug, index)
}

/// Whether every reference of a claim names a claim of the corpus.
pub open spec fn refers_to_claims(corpus: CorpusAbs, claim: MemoryClaimAbs) -> bool {
    claim.supersedes matches Some(references) ==> forall|i: int|
        0 <= i < references.len() ==> names_a_claim(corpus, #[trigger] references[i])
}

/// A topic of one claim.
pub open spec fn single(slug: Seq<char>, claim: MemoryClaimAbs) -> MemoryTopicAbs {
    MemoryTopicAbs { slug, claims: seq![claim] }
}

proof fn lemma_opened(corpus: CorpusAbs, own: Seq<char>, run: Seq<u8>)
    ensures
        opened(corpus, own, run).entry.claims == claims_under(corpus, own),
        forall|slug: Seq<char>, index: int| #[trigger]
            is_stored(opened(corpus, own, run), own, slug, index) == holds_claim(
                corpus,
                slug,
                index,
            ),
{
}

proof fn lemma_single(corpus: CorpusAbs, slug: Seq<char>, claim: MemoryClaimAbs, run: Seq<u8>)
    requires
        is_slug(slug),
        corpus.contains_key(slug) || corpus.len() + 3 <= 40,
    ensures
        ({
            let (after, outcome) = apply_claim(opened(corpus, slug, run), slug, claim, run);
            &&& apply(corpus, single(slug, claim), run).1 == seq![outcome]
            &&& apply(corpus, single(slug, claim), run).0 == if corpus.contains_key(slug)
                || outcome is Appended {
                after.others.insert(slug, after.entry)
            } else {
                after.others
            }
        }),
{
    let claims = seq![claim];
    let state = opened(corpus, slug, run);
    let (after, outcome) = apply_claim(state, slug, claim, run);
    assert(apply_claims(state, slug, claims, run, 0) == (
        state,
        Seq::<ClaimApplyOutcome>::empty(),
    ));
    assert(apply_claims(state, slug, claims, run, 1) == (
        after,
        Seq::<ClaimApplyOutcome>::empty().push(outcome),
    ));
    assert(Seq::<ClaimApplyOutcome>::empty().push(outcome) =~= seq![outcome]);
    if outcome is Appended {
        assert(seq![outcome][0] is Appended);
    }
}

proof fn lemma_refers(corpus: CorpusAbs, own: Seq<char>, claim: MemoryClaimAbs, run: Seq<u8>)
    ensures
        all_resolved(opened(corpus, own, run), own, references_of(claim)) is Some
            <==> refers_to_claims(corpus, claim),
{
    let state = opened(corpus, own, run);
    let references = references_of(claim);
    lemma_all_valid(state, own, references);
    lemma_opened(corpus, own, run);
    if refers_to_claims(corpus, claim) {
        assert forall|i: int| 0 <= i < references.len() implies is_valid(
            state,
            own,
            #[trigger] references[i],
        ) by {
            assert(names_a_claim(corpus, references[i]));
            let (slug, index) = choose|slug: Seq<char>, index: int| #[trigger]
                names(references[i], slug, index) && holds_claim(corpus, slug, index);
            assert(is_stored(state, own, slug, index));
        }
    }
    if all_resolved(state, own, references) is Some {
        assert forall|i: int| 0 <= i < references.len() implies names_a_claim(
            corpus,
            #[trigger] references[i],
        ) by {
            assert(is_valid(state, own, references[i]));
            let (slug, index) = choose|slug: Seq<char>, index: int| #[trigger]
                names(references[i], slug, index) && is_stored(state, own, slug, index);
            assert(is_stored(state, own, slug, index) == holds_claim(corpus, slug, index));
        }
    }
}

/// What becomes of one claim of a topic. It is a duplicate of the first stored
/// claim with its text, where there is one; otherwise it is refused without a
/// source, and refused where it supersedes a claim that is not there; otherwise
/// it is appended under the next number. A claim that is not appended leaves
/// the corpus as it was.
pub proof fn claims_are_judged(
    corpus: CorpusAbs,
    slug: Seq<char>,
    claim: MemoryClaimAbs,
    run: Seq<u8>,
)
    requires
        is_slug(slug),
        corpus.contains_key(slug) || corpus.len() + 3 <= 40,
        claims_under(corpus, slug).len() < usize::MAX,
    ensures
        ({
            let stored = claims_under(corpus, slug);
            let (after, outcomes) = apply(corpus, single(slug, claim), run);
            &&& outcomes.len() == 1
            &&& !(outcomes[0] is Appended) ==> after == corpus
            &&& match outcomes[0] {
                ClaimApplyOutcome::Duplicate { ordinal } => {
                    &&& 1 <= ordinal <= stored.len()
                    &&& stored[ordinal - 1].text == claim.text
                    &&& forall|k: int|
                        0 <= k < ordinal - 1 ==> (#[trigger] stored[k]).text != claim.text
                },
                ClaimApplyOutcome::Rejected { reason } => {
                    &&& forall|k: int|
                        0 <= k < stored.len() ==> (#[trigger] stored[k]).text != claim.text
                    &&& (reason == MemoryClaimRejection::MissingSources && claim.sources.len() == 0
                        && claim.files.len() == 0) || (reason
                        == MemoryClaimRejection::InvalidSupersession && !refers_to_claims(
                        corpus,
                        claim,
                    ) && claim.sources.len() + claim.files.len() > 0)
                },
                ClaimApplyOutcome::Appended { ordinal } => {
                    &&& ordinal == stored.len() + 1
                    &&& forall|k: int|
                        0 <= k < stored.len() ==> (#[trigger] stored[k]).text != claim.text
                    &&& claim.sources.len() + claim.files.len() > 0
                    &&& refers_to_claims(corpus, claim)
                },
            }
        }),
{
    lemma_single(corpus, slug, claim, run);
    lemma_opened(corpus, slug, run);
    lemma_refers(corpus, slug, claim, run);
    position_meaning(claims_under(corpus, slug), claim.text);
    super::corpus_laws::applying_nothing_changes_nothing(corpus, single(slug, claim), run);
}

/// A claim that is appended stands at the end of its entry, as it was given,
/// and the entry is updated by the run; an entry that was not there is new, and
/// has the title of its slug. Of all stored claims, those that it supersedes
/// and that have no tag yet are tagged with it, and nothing else of any claim
/// changes; another entry is updated by the run exactly where one of its
/// claims was tagged.
pub proof fn appended_claims_supersede(
    corpus: CorpusAbs,
    own: Seq<char>,
    claim: MemoryClaimAbs,
    run: Seq<u8>,
    slug: Seq<char>,
    index: int,
)
    requires
        is_slug(own),
        corpus.contains_key(own) || corpus.len() + 3 <= 40,
        apply(corpus, single(own, claim), run).1[0] is Appended,
    ensures
        ({
            let stored = claims_under(corpus, own);
            let references = match claim.supersedes {
                Some(references) => references,
                None => Seq::empty(),
            };
            let by = own + "#claim-"@ + decimal(stored.len() + 1);
            let after = apply(corpus, single(own, claim), run).0;
            &&& after.dom() == corpus.dom().insert(own)
            &&& after[own].claims.len() == stored.len() + 1
            &&& after[own].slug == (if corpus.contains_key(own) {
                corpus[own].slug
            } else {
                own
            })
            &&& after[own].title == (if corpus.contains_key(own) {
                corpus[own].title
            } else {
                slug_title(own)
            })
            &&& after[own].created == (if corpus.contains_key(own) {
                corpus[own].created
            } else {
                run
            })
            &&& after[own].artifact == (if corpus.contains_key(own) {
                corpus[own].artifact
            } else {
                None
            })
            &&& after[own].updated == run
            &&& after[own].claims.last().text == claim.text
            &&& after[own].claims.last().sources == claim.sources
            &&& after[own].claims.last().status is None
            &&& after[own].claims.last().superseded_by is None
            &&& after[own].claims.last().files.len() == claim.files.len()
            &&& forall|k: int|
                0 <= k < claim.files.len() ==> (#[trigger] after[own].claims.last().files[k]).path
                    == claim.files[k] && after[own].claims.last().files[k].digest is None
            &&& holds_claim(corpus, slug, index) ==> holds_claim(after, slug, index)
                && differs_by_tag(
                corpus[slug].claims[index],
                after[slug].claims[index],
                tag_after(
                    corpus[slug].claims[index].superseded_by,
                    is_named(references, slug, index),
                    by,
                ),
            )
            &&& corpus.contains_key(slug) && slug != own ==> {
                let changed = exists|m: int|
                    0 <= m < corpus[slug].claims.len() && (
                    #[trigger] corpus[slug].claims[m]).superseded_by is None && is_named(
                        references,
                        slug,
                        m,
                    );
                &&& after[slug].claims.len() == corpus[slug].claims.len()
                &&& after[slug].title == corpus[slug].title
                &&& after[slug].slug == corpus[slug].slug
                &&& after[slug].created == corpus[slug].created
                &&& after[slug].artifact == corpus[slug].artifact
                &&& after[slug].updated == if changed {
                    run
                } else {
                    corpus[slug].updated
                }
            }
        }),
{
    let state = opened(corpus, own, run);
    let references = references_of(claim);
    lemma_single(corpus, own, claim, run);
    lemma_opened(corpus, own, run);
    let targets = all_resolved(state, own, references)->Some_0;
    let by = claim_reference(own, state.entry.claims.len() + 1);
    resolved_are_stored(state, own, references);
    lemma_tagged(state, own, targets, by, run, slug);
    let done = all_superseded(state, own, targets, by, run);
    let after = apply(corpus, single(own, claim), run).0;
    assert(after[own].claims == done.entry.claims.push(newly_stored(claim)));
    assert(after.dom() =~= corpus.dom().insert(own));
    if holds_claim(corpus, slug, index) {
        lemma_targets(state, own, references, slug, index);
        if slug == own {
            assert(differs_by_tag(
                state.entry.claims[index],
                done.entry.claims[index],
                tag_after(
                    state.entry.claims[index].superseded_by,
                    targets.contains((own, index)),
                    by,
                ),
            ));
            assert(after[own].claims[index] == done.entry.claims[index]);
        } else {
            assert(after[slug] == done.others[slug]);
            assert(differs_by_tag(
                state.others[slug].claims[index],
                done.others[slug].claims[index],
                tag_after(
                    state.others[slug].claims[index].superseded_by,
                    targets.contains((slug, index)),
                    by,
                ),
            ));
        }
    }
    if corpus.contains_key(slug) && slug != own {
        let old_claims = corpus[slug].claims;
        assert(after[slug] == done.others[slug]);
        assert(has_fresh(old_claims, targets, slug) <==> exists|m: int|
            0 <= m < old_claims.len() && (#[trigger] old_claims[m]).superseded_by is None
                && is_named(references, slug, m)) by {
            if has_fresh(old_claims, targets, slug) {
                let m = choose|m: int|
                    0 <= m < old_claims.len() && (#[trigger] old_claims[m]).superseded_by is None
                        && targets.contains((slug, m));
                lemma_targets(state, own, references, slug, m);
                assert(is_named(references, slug, m));
            }
            if exists|m: int|
                0 <= m < old_claims.len() && (#[trigger] old_claims[m]).superseded_by is None
                    && is_named(references, slug, m) {
                let m = choose|m: int|
                    0 <= m < old_claims.len() && (#[trigger] old_claims[m]).superseded_by is None
                        && is_named(references, slug, m);
                lemma_targets(state, own, references, slug, m);
                assert(targets.contains((slug, m)));
            }
        }
    }
}

// ---------------------------------------------------------------------------
// Topics
// ---------------------------------------------------------------------------

/// A topic without a slug is refused claim by claim, and so is a new topic
/// that the index has no line for: its cap is 40 lines, two of them its
/// heading.
pub proof fn topics_need_a_slug_and_a_line(
    corpus: CorpusAbs,
    topic: MemoryTopicAbs,
    run: Seq<u8>,
    i: int,
)
    requires
        0 <= i < topic.claims.len(),
    ensures
        !is_slug(topic.slug) ==> apply(corpus, topic, run).1[i] == (ClaimApplyOutcome::Rejected {
            reason: MemoryClaimRejection::InvalidSlug,
        }),
        is_slug(topic.slug) && !corpus.contains_key(topic.slug) && corpus.len() + 2 >= 40
            ==> apply(corpus, topic, run).1[i] == (ClaimApplyOutcome::Rejected {
            reason: MemoryClaimRejection::IndexCapReached,
        }),
{
}

proof fn lemma_claims_split(
    state: TopicState,
    own: Seq<char>,
    claims: Seq<MemoryClaimAbs>,
    more: Seq<MemoryClaimAbs>,
    run: Seq<u8>,
    n: int,
)
    requires
        0 <= n <= claims.len() <= more.len(),
        forall|i: int| 0 <= i < claims.len() ==> #[trigger] more[i] == claims[i],
    ensures
        apply_claims(state, own, more, run, n) == apply_claims(state, own, claims, run, n),
        apply_claims(state, own, claims, run, n).1.len() == n,
    decreases n,
{
    if n > 0 {
        lemma_claims_split(state, own, claims, more, run, n - 1);
        assert(more[n - 1] == claims[n - 1]);
    }
}

/// The claims of a topic are applied one after the other: a topic with one
/// more claim is the topic without it, and then a topic of that claim alone.
pub proof fn claims_are_applied_in_order(
    corpus: CorpusAbs,
    slug: Seq<char>,
    claims: Seq<MemoryClaimAbs>,
    claim: MemoryClaimAbs,
    run: Seq<u8>,
)
    ensures
        ({
            let (first, told) = apply(corpus, MemoryTopicAbs { slug, claims }, run);
            let (second, last) = apply(first, single(slug, claim), run);
            apply(corpus, MemoryTopicAbs { slug, claims: claims.push(claim) }, run) == (
                second,
                told + last,
            )
        }),
        apply(corpus, MemoryTopicAbs { slug, claims: Seq::empty() }, run) == (
            corpus,
            Seq::<ClaimApplyOutcome>::empty(),
        ),
{
    let topic = MemoryTopicAbs { slug, claims };
    let all = claims.push(claim);
    let longer = MemoryTopicAbs { slug, claims: all };
    let empty = MemoryTopicAbs { slug, claims: Seq::empty() };
    let (first, told) = apply(corpus, topic, run);
    let (second, last) = apply(first, single(slug, claim), run);
    super::corpus_laws::applying_nothing_changes_nothing(corpus, empty, run);
    assert(apply(corpus, empty, run).1 =~= Seq::<ClaimApplyOutcome>::empty());
    assert(!any_appended(apply(corpus, empty, run).1));
    super::corpus_laws::applying_nothing_changes_nothing(corpus, topic, run);
    let room = corpus.contains_key(slug) || super::memory_corpus::has_room(corpus);
    if !is_slug(slug) || !room {
        assert(told + last =~= apply(corpus, longer, run).1);
    } else {
        let n = claims.len() as int;
        let state = opened(corpus, slug, run);
        lemma_claims_split(state, slug, claims, all, run, n);
        let (middle, outcomes) = apply_claims(state, slug, claims, run, n);
        assert(outcomes == told);
        assert(all[n] == claim);
        let (end, outcome) = apply_claim(middle, slug, claim, run);
        assert(apply_claims(state, slug, all, run, n + 1) == (end, outcomes.push(outcome)));
        assert(all.len() == n + 1);
        if corpus.contains_key(slug) || any_appended(told) {
            assert(first == middle.others.insert(slug, middle.entry));
            super::corpus_laws::applying_only_appends(corpus, topic, run);
            assert(!middle.others.contains_key(slug)) by {
                lemma_own_stays_apart(state, slug, claims, run, n);
            }
            assert(opened(first, slug, run).others =~= middle.others);
            assert(opened(first, slug, run) == middle);
        } else {
            assert(first == corpus);
            super::corpus_laws::nothing_appended(state, slug, claims, run, n);
            assert(middle == state);
        }
        lemma_single(first, slug, claim, run);
        assert(last == seq![outcome]);
        assert(told + last =~= outcomes.push(outcome));
        if any_appended(outcomes) {
            let k = choose|k: int| 0 <= k < outcomes.len() && #[trigger] outcomes[k] is Appended;
            assert(outcomes.push(outcome)[k] is Appended);
        }
        if outcome is Appended {
            assert(outcomes.push(outcome)[n] is Appended);
        }
        if any_appended(outcomes.push(outcome)) {
            let k = choose|k: int|
                0 <= k < outcomes.push(outcome).len() && #[trigger] outcomes.push(outcome)[k]
                    is Appended;
            if k < n {
                assert(outcomes[k] is Appended);
            }
        }
    }
}

proof fn lemma_own_stays_apart(
    state: TopicState,
    own: Seq<char>,
    claims: Seq<MemoryClaimAbs>,
    run: Seq<u8>,
    n: int,
)
    requires
        0 <= n <= claims.len(),
        !state.others.contains_key(own),
    ensures
        !apply_claims(state, own, claims, run, n).0.others.contains_key(own),
    decreases n,
{
    super::corpus_laws::others_stay(state, own, claims, run, n);
}

} // verus!
