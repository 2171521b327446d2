//! The order of paths: segment by segment.

use vstd::prelude::*;

use super::repo_path::RepoPath;
use crate::text::{
    precedes, precedes_irreflexive, precedes_total, precedes_transitive, same_text, text_before,
};
use crate::value::contents;

verus! {

/// Whether a path comes before another: by the first segment in which they
/// differ, a path before what lies below it.
pub open spec fn path_precedes(a: Seq<Seq<char>>, b: Seq<Seq<char>>) -> bool
    decreases a.len(),
{
    if b.len() == 0 {
        false
    } else if a.len() == 0 {
        true
    } else if a[0] != b[0] {
        precedes(a[0], b[0])
    } else {
        path_precedes(a.drop_first(), b.drop_first())
    }
}

/// The order is irreflexive.
pub proof fn path_order_is_irreflexive(a: Seq<Seq<char>>)
    ensures
        !path_precedes(a, a),
    decreases a.len(),
{
    if a.len() > 0 {
        path_order_is_irreflexive(a.drop_first());
    }
}

/// The order is transitive.
pub proof fn path_order_is_transitive(a: Seq<Seq<char>>, b: Seq<Seq<char>>, c: Seq<Seq<char>>)
    requires
        path_precedes(a, b),
        path_precedes(b, c),
    ensures
        path_precedes(a, c),
    decreases a.len(),
{
    if a.len() > 0 {
        if a[0] == b[0] && b[0] == c[0] {
            path_order_is_transitive(a.drop_first(), b.drop_first(), c.drop_first());
        } else if a[0] != b[0] && b[0] != c[0] {
            precedes_transitive(a[0], b[0], c[0]);
            precedes_irreflexive(a[0]);
        }
    }
}

/// Of two different paths one comes first.
pub proof fn path_order_is_total(a: Seq<Seq<char>>, b: Seq<Seq<char>>)
    ensures
        a == b || path_precedes(a, b) || path_precedes(b, a),
        !(path_precedes(a, b) && path_precedes(b, a)),
    decreases a.len(),
{
    if a.len() > 0 && b.len() > 0 {
        if a[0] == b[0] {
            path_order_is_total(a.drop_first(), b.drop_first());
            if a.drop_first() == b.drop_first() {
                assert(a =~= seq![a[0]] + a.drop_first());
                assert(b =~= seq![b[0]] + b.drop_first());
            }
        } else {
            precedes_total(a[0], b[0]);
        }
    } else if a.len() == 0 && b.len() == 0 {
        assert(a =~= b);
    }
}

/// Whether the one path comes before the other.
pub fn path_before(left: &RepoPath, right: &RepoPath) -> (r: bool)
    ensures
        r == path_precedes(left@, right@),
{
    let ghost a = left@;
    let ghost b = right@;
    let mut i: usize = 0;
    assert(a.subrange(0, a.len() as int) =~= a);
    assert(b.subrange(0, b.len() as int) =~= b);
    while i < left.segments.len() && i < right.segments.len()
        invariant
            i <= left.segments@.len(),
            i <= right.segments@.len(),
            a == contents(left.segments@),
            b == contents(right.segments@),
            path_precedes(left@, right@) == path_precedes(
                a.subrange(i as int, a.len() as int),
                b.subrange(i as int, b.len() as int),
            ),
        decreases left.segments@.len() - i,
    {
        let ghost rest_a = a.subrange(i as int, a.len() as int);
        let ghost rest_b = b.subrange(i as int, b.len() as int);
        assert(rest_a[0] == left.segments@[i as int]@);
        assert(rest_b[0] == right.segments@[i as int]@);
        if !same_text(left.segments[i].as_str(), right.segments[i].as_str()) {
            return text_before(left.segments[i].as_str(), right.segments[i].as_str());
        }
        assert(rest_a.drop_first() =~= a.subrange(i + 1, a.len() as int));
        assert(rest_b.drop_first() =~= b.subrange(i + 1, b.len() as int));
        i += 1;
    }
    i < right.segments.len()
}

/// The paths by their segments.
pub open spec fn paths_abs(paths: Seq<RepoPath>) -> Seq<Seq<Seq<char>>> {
    Seq::new(paths.len(), |i: int| paths[i]@)
}

/// Whether every path comes before all later ones.
pub open spec fn in_path_order(paths: Seq<Seq<Seq<char>>>) -> bool {
    forall|i: int, j: int|
        0 <= i < j < paths.len() ==> path_precedes(#[trigger] paths[i], #[trigger] paths[j])
}

/// How many of the paths at the beginning come before a path.
pub open spec fn place_of(paths: Seq<Seq<Seq<char>>>, path: Seq<Seq<char>>) -> nat
    decreases paths.len(),
{
    if paths.len() == 0 || !path_precedes(paths[0], path) {
        0
    } else {
        1 + place_of(paths.drop_first(), path)
    }
}

/// Whether a path stands in its place.
pub open spec fn is_placed(paths: Seq<Seq<Seq<char>>>, path: Seq<Seq<char>>) -> bool {
    place_of(paths, path) < paths.len() && paths[place_of(paths, path) as int] == path
}

pub proof fn place_facts(paths: Seq<Seq<Seq<char>>>, path: Seq<Seq<char>>)
    ensures
        ({
            let n = place_of(paths, path) as int;
            &&& n <= paths.len()
            &&& forall|k: int| 0 <= k < n ==> path_precedes(#[trigger] paths[k], path)
            &&& n < paths.len() ==> !path_precedes(paths[n], path)
        }),
    decreases paths.len(),
{
    if paths.len() > 0 && path_precedes(paths[0], path) {
        let rest = paths.drop_first();
        place_facts(rest, path);
        let n = place_of(paths, path) as int;
        assert forall|k: int| 0 <= k < n implies path_precedes(#[trigger] paths[k], path) by {
            if k > 0 {
                assert(rest[k - 1] == paths[k]);
            }
        }
    }
}

pub proof fn place_is(paths: Seq<Seq<Seq<char>>>, path: Seq<Seq<char>>, n: int)
    requires
        0 <= n <= paths.len(),
        forall|k: int| 0 <= k < n ==> path_precedes(#[trigger] paths[k], path),
        n < paths.len() ==> !path_precedes(paths[n], path),
    ensures
        place_of(paths, path) == n,
    decreases paths.len(),
{
    if n > 0 {
        let rest = paths.drop_first();
        assert forall|k: int| 0 <= k < n - 1 implies path_precedes(#[trigger] rest[k], path) by {
            assert(rest[k] == paths[k + 1]);
        }
        place_is(rest, path, n - 1);
    }
}

/// Putting a path in its place keeps the paths in order.
pub proof fn placing_keeps_order(paths: Seq<Seq<Seq<char>>>, path: Seq<Seq<char>>)
    requires
        in_path_order(paths),
        !is_placed(paths, path),
    ensures
        in_path_order(paths.insert(place_of(paths, path) as int, path)),
{
    place_facts(paths, path);
    let i = place_of(paths, path) as int;
    let now = paths.insert(i, path);
    if i < paths.len() {
        path_order_is_total(paths[i], path);
    }
    assert forall|a: int, b: int| 0 <= a < b < now.len() implies path_precedes(
        #[trigger] now[a],
        #[trigger] now[b],
    ) by {
        if b < i {
            assert(path_precedes(paths[a], paths[b]));
        } else if a < i && b == i {
            assert(path_precedes(paths[a], path));
        } else if a < i {
            assert(path_precedes(paths[a], paths[b - 1]));
        } else if a == i {
            if b - 1 > i {
                assert(path_precedes(paths[i], paths[b - 1]));
                path_order_is_transitive(path, paths[i], paths[b - 1]);
            }
        } else {
            assert(path_precedes(paths[a - 1], paths[b - 1]));
        }
    }
}

/// Something that stands under a path.
pub trait Located {
    spec fn at(&self) -> Seq<Seq<char>>;

    fn location(&self) -> (r: &RepoPath)
        ensures
            r@ == self.at(),
    ;
}

impl Located for RepoPath {
    open spec fn at(&self) -> Seq<Seq<char>> {
        self@
    }

    fn location(&self) -> &RepoPath {
        self
    }
}

/// The paths of the items.
pub open spec fn locations<T: Located>(items: Seq<T>) -> Seq<Seq<Seq<char>>> {
    Seq::new(items.len(), |i: int| items[i].at())
}

/// The place of a path among items, and whether an item stands there.
pub fn find_place<T: Located>(items: &Vec<T>, path: &RepoPath) -> (r: (usize, bool))
    ensures
        r.0 == place_of(locations(items@), path@),
        r.0 <= items@.len(),
        r.1 == is_placed(locations(items@), path@),
{
    let ghost all = locations(items@);
    let mut i: usize = 0;
    while i < items.len() && path_before(items[i].location(), path)
        invariant
            i <= items@.len(),
            all == locations(items@),
            forall|k: int| 0 <= k < i ==> path_precedes(#[trigger] all[k], path@),
        decreases items@.len() - i,
    {
        assert(all[i as int] == items@[i as int].at());
        i += 1;
    }
    proof {
        if i < items@.len() {
            assert(all[i as int] == items@[i as int].at());
        }
        place_is(all, path@, i as int);
    }
    let present: bool = i < items.len() && items[i].location().same(path);
    (i, present)
}

/// Puts a path in its place, where it does not stand there already.
pub fn insert_path(paths: &mut Vec<RepoPath>, path: RepoPath)
    requires
        in_path_order(paths_abs(old(paths)@)),
    ensures
        in_path_order(paths_abs(final(paths)@)),
        forall|other: Seq<Seq<char>>|
            #![trigger paths_abs(final(paths)@).contains(other)]
            paths_abs(final(paths)@).contains(other) <==> paths_abs(old(paths)@).contains(other)
                || path@ == other,
{
    let ghost before = paths_abs(paths@);
    let ghost name = path@;
    assert(before =~= locations(paths@));
    let (i, present): (usize, bool) = find_place(paths, &path);
    if present {
        assert(before[i as int] == name);
        return ;
    }
    proof {
        placing_keeps_order(before, name);
    }
    paths.insert(i, path);
    proof {
        let now = paths_abs(paths@);
        assert(now =~= before.insert(i as int, name));
        assert forall|other: Seq<Seq<char>>|
            #![trigger now.contains(other)]
            now.contains(other) <==> before.contains(other) || name == other by {
            if before.contains(other) {
                let k = choose|k: int| 0 <= k < before.len() && before[k] == other;
                if k < i {
                    assert(now[k] == other);
                } else {
                    assert(now[k + 1] == other);
                }
            }
            if name == other {
                assert(now[i as int] == other);
            }
            if now.contains(other) {
                let k = choose|k: int| 0 <= k < now.len() && now[k] == other;
                if k < i {
                    assert(before[k] == other);
                } else if k > i {
                    assert(before[k - 1] == other);
                }
            }
        }
    }
}

} // verus!
