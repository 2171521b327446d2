//! Values that can be duplicated and compared by their mathematical content.

use vstd::prelude::*;

use crate::text::same_text;

verus! {

/// A type whose contents are described by a mathematical value.
///
/// Two executable values that hold the same text in different buffers are
/// different to the solver; `abs` is the content that contracts speak of.
pub trait Abstract: Sized {
    type Abs;

    spec fn abs(&self) -> Self::Abs;

    /// An independent value with the same content.
    fn duplicate(&self) -> (r: Self)
        ensures
            r.abs() == self.abs(),
    ;

    /// Whether the two values have the same content.
    fn same(&self, other: &Self) -> (b: bool)
        ensures
            b == (self.abs() == other.abs()),
    ;
}

impl Abstract for String {
    type Abs = Seq<char>;

    open spec fn abs(&self) -> Seq<char> {
        self@
    }

    fn duplicate(&self) -> String {
        self.clone()
    }

    fn same(&self, other: &String) -> bool {
        *self == *other
    }
}

impl Abstract for bool {
    type Abs = bool;

    open spec fn abs(&self) -> bool {
        *self
    }

    fn duplicate(&self) -> bool {
        *self
    }

    fn same(&self, other: &bool) -> bool {
        *self == *other
    }
}

impl Abstract for u64 {
    type Abs = u64;

    open spec fn abs(&self) -> u64 {
        *self
    }

    fn duplicate(&self) -> u64 {
        *self
    }

    fn same(&self, other: &u64) -> bool {
        *self == *other
    }
}

impl Abstract for u32 {
    type Abs = u32;

    open spec fn abs(&self) -> u32 {
        *self
    }

    fn duplicate(&self) -> u32 {
        *self
    }

    fn same(&self, other: &u32) -> bool {
        *self == *other
    }
}

impl Abstract for i64 {
    type Abs = i64;

    open spec fn abs(&self) -> i64 {
        *self
    }

    fn duplicate(&self) -> i64 {
        *self
    }

    fn same(&self, other: &i64) -> bool {
        *self == *other
    }
}

impl Abstract for usize {
    type Abs = usize;

    open spec fn abs(&self) -> usize {
        *self
    }

    fn duplicate(&self) -> usize {
        *self
    }

    fn same(&self, other: &usize) -> bool {
        *self == *other
    }
}

impl<T: Abstract> Abstract for Option<T> {
    type Abs = Option<T::Abs>;

    open spec fn abs(&self) -> Option<T::Abs> {
        match self {
            Some(x) => Some(x.abs()),
            None => None,
        }
    }

    fn duplicate(&self) -> Option<T> {
        match self {
            Some(x) => Some(x.duplicate()),
            None => None,
        }
    }

    fn same(&self, other: &Option<T>) -> bool {
        match (self, other) {
            (Some(x), Some(y)) => x.same(y),
            (None, None) => true,
            _ => false,
        }
    }
}

impl<T: Abstract> Abstract for Box<T> {
    type Abs = T::Abs;

    open spec fn abs(&self) -> T::Abs {
        (**self).abs()
    }

    fn duplicate(&self) -> Box<T> {
        Box::new((**self).duplicate())
    }

    fn same(&self, other: &Box<T>) -> bool {
        (**self).same(&**other)
    }
}

impl Abstract for &'static str {
    type Abs = Seq<char>;

    open spec fn abs(&self) -> Seq<char> {
        (*self)@
    }

    fn duplicate(&self) -> &'static str {
        *self
    }

    fn same(&self, other: &&'static str) -> bool {
        same_text(*self, *other)
    }
}

/// The content of a result.
pub open spec fn result_abs<T: Abstract, E: Abstract>(r: Result<T, E>) -> Result<T::Abs, E::Abs> {
    match r {
        Ok(value) => Ok(value.abs()),
        Err(error) => Err(error.abs()),
    }
}

/// The contents of a sequence of values, one by one.
pub open spec fn contents<T: Abstract>(items: Seq<T>) -> Seq<T::Abs> {
    Seq::new(items.len(), |i: int| items[i].abs())
}

impl<T: Abstract> Abstract for Vec<T> {
    type Abs = Seq<T::Abs>;

    open spec fn abs(&self) -> Seq<T::Abs> {
        contents(self@)
    }

    fn duplicate(&self) -> Vec<T> {
        let mut out: Vec<T> = Vec::new();
        let mut i: usize = 0;
        while i < self.len()
            invariant
                i <= self.len(),
                out@.len() == i,
                forall|k: int| 0 <= k < i ==> (#[trigger] out@[k]).abs() == self@[k].abs(),
            decreases self.len() - i,
        {
            out.push(self[i].duplicate());
            i += 1;
        }
        assert(out.abs() =~= self.abs());
        out
    }

    fn same(&self, other: &Vec<T>) -> bool {
        same_items(self, other)
    }
}

/// Whether two slices hold the same contents in the same order.
pub fn same_items<T: Abstract>(left: &[T], right: &[T]) -> (b: bool)
    ensures
        b == (contents(left@) == contents(right@)),
{
    if left.len() != right.len() {
        assert(contents(left@).len() != contents(right@).len());
        return false;
    }
    let mut i: usize = 0;
    while i < left.len()
        invariant
            i <= left.len(),
            left@.len() == right@.len(),
            forall|k: int| 0 <= k < i ==> (#[trigger] left@[k]).abs() == right@[k].abs(),
        decreases left.len() - i,
    {
        if !left[i].same(&right[i]) {
            assert(contents(left@)[i as int] != contents(right@)[i as int]);
            return false;
        }
        i += 1;
    }
    assert(contents(left@) =~= contents(right@));
    true
}

/// Whether some item has the content of `wanted`.
pub fn contains_value<T: Abstract>(items: &[T], wanted: &T) -> (b: bool)
    ensures
        b == contents(items@).contains(wanted.abs()),
{
    let mut i: usize = 0;
    while i < items.len()
        invariant
            i <= items.len(),
            forall|k: int| 0 <= k < i ==> (#[trigger] items@[k]).abs() != wanted.abs(),
        decreases items.len() - i,
    {
        if items[i].same(wanted) {
            assert(contents(items@)[i as int] == wanted.abs());
            return true;
        }
        i += 1;
    }
    assert forall|k: int| 0 <= k < contents(items@).len() implies contents(items@)[k]
        != wanted.abs() by {
        assert(contents(items@)[k] == items@[k].abs());
    }
    false
}

/// The contents of a sequence after one more item.
pub broadcast proof fn contents_push<T: Abstract>(items: Seq<T>, item: T)
    ensures
        #[trigger] contents(items.push(item)) == contents(items).push(item.abs()),
{
    assert(contents(items.push(item)) =~= contents(items).push(item.abs()));
}

/// Nothing has no contents.
pub broadcast proof fn contents_empty<T: Abstract>()
    ensures
        #[trigger] contents(Seq::<T>::empty()) == Seq::<T::Abs>::empty(),
{
    assert(contents(Seq::<T>::empty()) =~= Seq::<T::Abs>::empty());
}

/// The contents of two sequences in a row.
pub proof fn contents_add<T: Abstract>(left: Seq<T>, right: Seq<T>)
    ensures
        contents(left + right) == contents(left) + contents(right),
{
    assert(contents(left + right) =~= contents(left) + contents(right));
}

} // verus!
