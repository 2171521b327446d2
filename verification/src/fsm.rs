//! Deterministic state machines.

use vstd::prelude::*;

verus! {

/// A machine that answers an input in a state with a next state and an
/// output, or refuses it.
pub trait Fsm {
    type State;

    type Input;

    type Output;

    type Error;

    fn transition(&self, state: &Self::State, input: Self::Input) -> Result<
        Transition<Self::State, Self::Output>,
        Self::Error,
    >;
}

/// An accepted input: where the machine goes, and what it gives out.
#[derive(Clone, Debug, Eq, PartialEq)]
pub struct Transition<S, O> {
    pub state: S,
    pub output: O,
}

} // verus!
