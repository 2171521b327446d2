//! Sorting by text.

use vstd::multiset::*;
use vstd::prelude::*;
use vstd::relations::*;
use vstd::seq_lib::*;

use crate::text::{
    precedes, precedes_irreflexive, precedes_total, precedes_transitive, same_text, text_before,
};
use crate::value::{contents, Abstract};

verus! {

/// A value whose content is a text.
pub trait Named: Abstract<Abs = Seq<char>> {
    fn name(&self) -> (r: &str)
        ensures
            r@ == self.abs(),
    ;
}

impl Named for String {
    fn name(&self) -> &str {
        self.as_str()
    }
}

/// The order of texts, with equality.
pub open spec fn text_order() -> spec_fn(Seq<char>, Seq<char>) -> bool {
    |a: Seq<char>, b: Seq<char>| !precedes(b, a)
}

/// The texts in order.
pub open spec fn in_order(texts: Seq<Seq<char>>) -> Seq<Seq<char>> {
    texts.sort_by(text_order())
}

/// The order of texts is total.
pub proof fn text_order_is_total()
    ensures
        total_ordering(text_order()),
{
    let leq = text_order();
    assert forall|x: Seq<char>| #[trigger] leq(x, x) by {
        precedes_irreflexive(x);
    }
    assert forall|x: Seq<char>, y: Seq<char>| #[trigger] leq(x, y) && #[trigger] leq(y, x) implies x
        == y by {
        precedes_total(x, y);
    }
    assert forall|x: Seq<char>, y: Seq<char>, z: Seq<char>| #[trigger]
        leq(x, y) && #[trigger] leq(y, z) implies leq(x, z) by {
        precedes_total(x, y);
        precedes_total(y, z);
        precedes_total(x, z);
        if precedes(z, x) {
            if x == y {
            } else if y == z {
            } else {
                precedes_transitive(x, y, z);
            }
        }
    }
    assert forall|x: Seq<char>, y: Seq<char>| #[trigger] leq(x, y) || #[trigger] leq(y, x) by {
        precedes_total(x, y);
    }
}

/// The order in which texts were given makes no difference to their sorted
/// order.
pub proof fn sorting_ignores_order(left: Seq<Seq<char>>, right: Seq<Seq<char>>)
    requires
        left.to_multiset() == right.to_multiset(),
    ensures
        in_order(left) == in_order(right),
{
    text_order_is_total();
    left.lemma_sort_by_ensures(text_order());
    right.lemma_sort_by_ensures(text_order());
    lemma_sorted_unique(in_order(left), in_order(right), text_order());
}

/// Sorts the items by their text.
pub fn sort_by_name<T: Named>(items: Vec<T>) -> (r: Vec<T>)
    ensures
        contents(r@) == in_order(contents(items@)),
{
    let ghost given = contents(items@);
    let mut rest: Vec<T> = items;
    let mut out: Vec<T> = Vec::new();
    proof {
        text_order_is_total();
        assert(contents(out@) =~= Seq::<Seq<char>>::empty());
        assert(contents(out@) + contents(rest@) =~= given);
    }
    while rest.len() > 0
        invariant
            total_ordering(text_order()),
            sorted_by(contents(out@), text_order()),
            (contents(out@) + contents(rest@)).to_multiset() == given.to_multiset(),
        decreases rest@.len(),
    {
        broadcast use group_to_multiset_ensures;

        let ghost before = contents(out@);
        let ghost left = contents(rest@);
        let item: T = match rest.pop() {
            Some(item) => item,
            None => {
                return out;
            },
        };
        let ghost x = item.abs();
        assert(left =~= contents(rest@).push(x));
        let mut i: usize = 0;
        while i < out.len() && !text_before(item.name(), out[i].name())
            invariant
                i <= out@.len(),
                x == item.abs(),
                before == contents(out@),
                forall|k: int| 0 <= k < i ==> !precedes(x, #[trigger] before[k]),
            decreases out@.len() - i,
        {
            i += 1;
        }
        proof {
            let leq = text_order();
            assert(i < before.len() ==> precedes(x, before[i as int]));
            let next = before.insert(i as int, x);
            assert forall|a: int, b: int| 0 <= a < b < next.len() implies #[trigger] leq(
                next[a],
                next[b],
            ) by {
                if a < i && b < i {
                    assert(leq(before[a], before[b]));
                } else if a < i && b == i {
                    assert(!precedes(x, before[a]));
                } else if a < i {
                    assert(leq(before[a], before[b - 1]));
                } else if a == i {
                    precedes_total(x, before[i as int]);
                    assert(leq(x, before[i as int]));
                    if b - 1 > i {
                        assert(leq(before[i as int], before[b - 1]));
                    }
                } else {
                    assert(leq(before[a - 1], before[b - 1]));
                }
            }
            to_multiset_insert(before, i as int, x);
            to_multiset_build(contents(rest@), x);
            lemma_multiset_commutative(next, contents(rest@));
            lemma_multiset_commutative(before, left);
            assert((next + contents(rest@)).to_multiset() =~= (before + left).to_multiset());
        }
        out.insert(i, item);
        assert(contents(out@) =~= before.insert(i as int, x));
    }
    proof {
        assert(contents(out@) + contents(rest@) =~= contents(out@));
        given.lemma_sort_by_ensures(text_order());
        lemma_sorted_unique(contents(out@), in_order(given), text_order());
    }
    out
}

// ---------------------------------------------------------------------------
// Lists without duplicates
// ---------------------------------------------------------------------------

/// The characters of texts.
pub open spec fn texts_of(texts: Seq<&str>) -> Seq<Seq<char>> {
    Seq::new(texts.len(), |i: int| texts[i]@)
}

/// Whether no text occurs twice.
pub open spec fn are_distinct(texts: Seq<Seq<char>>) -> bool {
    forall|i: int, j: int|
        0 <= i < j < texts.len() ==> #[trigger] texts[i] != #[trigger] texts[j]
}

/// Whether every text comes before the next one.
pub open spec fn ascend(texts: Seq<Seq<char>>) -> bool {
    forall|i: int| 0 <= i < texts.len() - 1 ==> precedes(#[trigger] texts[i], texts[i + 1])
}

/// Whether no text occurs twice.
pub fn distinct(texts: &Vec<&str>) -> (b: bool)
    ensures
        b == are_distinct(texts_of(texts@)),
{
    let ghost all = texts_of(texts@);
    let mut i: usize = 0;
    while i < texts.len()
        invariant
            i <= texts@.len(),
            all == texts_of(texts@),
            forall|a: int, c: int|
                0 <= a < c < all.len() && a < i ==> #[trigger] all[a] != #[trigger] all[c],
        decreases texts@.len() - i,
    {
        let mut j: usize = i + 1;
        while j < texts.len()
            invariant
                i < j <= texts@.len(),
                all == texts_of(texts@),
                forall|c: int| i < c < j ==> all[i as int] != #[trigger] all[c],
            decreases texts@.len() - j,
        {
            if same_text(texts[i], texts[j]) {
                assert(all[i as int] == all[j as int]);
                return false;
            }
            assert(all[j as int] == texts@[j as int]@);
            j += 1;
        }
        i += 1;
    }
    true
}

/// Whether every text comes before the next one.
pub fn ascending(texts: &Vec<&str>) -> (b: bool)
    ensures
        b == ascend(texts_of(texts@)),
{
    let ghost all = texts_of(texts@);
    let mut i: usize = 1;
    while i < texts.len()
        invariant
            1 <= i,
            i <= texts@.len() || i == 1,
            all == texts_of(texts@),
            forall|k: int| 0 <= k < i - 1 ==> precedes(#[trigger] all[k], all[k + 1]),
        decreases texts@.len() - i,
    {
        if !text_before(texts[i - 1], texts[i]) {
            assert(!precedes(all[i - 1], all[i - 1 + 1]));
            return false;
        }
        assert(precedes(all[i - 1], all[i - 1 + 1]));
        i += 1;
    }
    true
}

/// Ascending texts are distinct.
pub proof fn ascending_texts_are_distinct(texts: Seq<Seq<char>>)
    requires
        ascend(texts),
    ensures
        are_distinct(texts),
{
    assert forall|i: int, j: int| 0 <= i < j < texts.len() implies #[trigger] texts[i]
        != #[trigger] texts[j] by {
        lemma_ascend(texts, i, j);
        precedes_irreflexive(texts[i]);
    }
}

proof fn lemma_ascend(texts: Seq<Seq<char>>, i: int, j: int)
    requires
        ascend(texts),
        0 <= i < j < texts.len(),
    ensures
        precedes(texts[i], texts[j]),
    decreases j - i,
{
    assert(precedes(texts[j - 1], texts[j - 1 + 1]));
    if i < j - 1 {
        lemma_ascend(texts, i, j - 1);
        precedes_transitive(texts[i], texts[j - 1], texts[j]);
    }
}

/// Whether the text is one of the texts.
pub fn is_among(text: &str, texts: &Vec<&str>) -> (b: bool)
    ensures
        b == texts_of(texts@).contains(text@),
{
    let ghost all = texts_of(texts@);
    let mut i: usize = 0;
    while i < texts.len()
        invariant
            i <= texts@.len(),
            all == texts_of(texts@),
            forall|k: int| 0 <= k < i ==> #[trigger] all[k] != text@,
        decreases texts@.len() - i,
    {
        assert(all[i as int] == texts@[i as int]@);
        if same_text(text, texts[i]) {
            assert(all[i as int] == text@);
            return true;
        }
        i += 1;
    }
    false
}

/// Puts an item in its place among ascending ones, where none of its name
/// stands there already.
pub fn insert_name<T: Named>(items: &mut Vec<T>, item: T)
    requires
        ascend(contents(old(items)@)),
    ensures
        ascend(contents(final(items)@)),
        forall|text: Seq<char>|
            #![trigger contents(final(items)@).contains(text)]
            contents(final(items)@).contains(text) <==> contents(old(items)@).contains(text)
                || item.abs() == text,
{
    let ghost before = contents(items@);
    let ghost name = item.abs();
    let mut i: usize = 0;
    while i < items.len() && text_before(items[i].name(), item.name())
        invariant
            i <= items@.len(),
            items@ == old(items)@,
            before == contents(items@),
            name == item.abs(),
            forall|k: int| 0 <= k < i ==> precedes(#[trigger] before[k], name),
        decreases items@.len() - i,
    {
        assert(before[i as int] == items@[i as int].abs());
        i += 1;
    }
    if i < items.len() && same_text(items[i].name(), item.name()) {
        assert(before[i as int] == name);
        return ;
    }
    proof {
        if i < items@.len() {
            assert(before[i as int] == items@[i as int].abs());
            precedes_total(before[i as int], name);
        }
    }
    items.insert(i, item);
    proof {
        let now = contents(items@);
        assert(now =~= before.insert(i as int, name));
        assert forall|k: int| 0 <= k < now.len() - 1 implies precedes(
            #[trigger] now[k],
            now[k + 1],
        ) by {
            if k < i - 1 {
                assert(precedes(before[k], before[k + 1]));
            } else if k == i - 1 {
                assert(precedes(before[k], name));
            } else if k > i {
                assert(precedes(before[k - 1], before[k - 1 + 1]));
            }
        }
        assert forall|text: Seq<char>|
            #![trigger now.contains(text)]
            now.contains(text) <==> before.contains(text) || name == text by {
            if before.contains(text) {
                let k = choose|k: int| 0 <= k < before.len() && before[k] == text;
                if k < i {
                    assert(now[k] == text);
                } else {
                    assert(now[k + 1] == text);
                }
            }
            if name == text {
                assert(now[i as int] == text);
            }
            if now.contains(text) {
                let k = choose|k: int| 0 <= k < now.len() && now[k] == text;
                if k < i {
                    assert(before[k] == text);
                } else if k > i {
                    assert(before[k - 1] == text);
                }
            }
        }
    }
}

} // verus!
