//! Positive counters.

use vstd::prelude::*;

use crate::value::Abstract;

verus! {

/// A `u32` that is at least one.
#[derive(Clone, Copy, Debug, PartialEq, Eq, PartialOrd, Ord, Hash, Structural)]
pub struct NonZeroU32 {
    value: u32,
}

impl NonZeroU32 {
    #[verifier::type_invariant]
    spec fn positive(self) -> bool {
        self.value > 0
    }

    pub closed spec fn view(&self) -> u32 {
        self.value
    }

    /// The counter with that value, unless the value is zero.
    pub fn new(value: u32) -> (r: Option<NonZeroU32>)
        ensures
            r is Some <==> value > 0,
            r matches Some(n) ==> n@ == value,
    {
        if value == 0 {
            None
        } else {
            Some(NonZeroU32 { value })
        }
    }

    /// The smallest counter, one.
    pub fn min() -> (r: NonZeroU32)
        ensures
            r@ == 1,
    {
        NonZeroU32 { value: 1 }
    }

    pub fn get(self) -> (r: u32)
        ensures
            r == self@,
            r > 0,
    {
        proof {
            use_type_invariant(self);
        }
        self.value
    }

    /// The next counter, unless it would not fit.
    pub fn checked_next(self) -> (r: Option<NonZeroU32>)
        ensures
            r is Some <==> self@ < u32::MAX,
            r matches Some(n) ==> n@ == self@ + 1,
    {
        match self.value.checked_add(1) {
            Some(value) => NonZeroU32::new(value),
            None => None,
        }
    }
}

impl Abstract for NonZeroU32 {
    type Abs = u32;

    open spec fn abs(&self) -> u32 {
        self@
    }

    fn duplicate(&self) -> NonZeroU32 {
        *self
    }

    fn same(&self, other: &NonZeroU32) -> bool {
        self.value == other.value
    }
}

} // verus!
