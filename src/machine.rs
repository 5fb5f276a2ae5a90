//! A machine described by a type of its own: the type holds the state and
//! knows its transition, and running a sequence of inputs is provided.
use vstd::prelude::*;
use vstd::std_specs::iter::IteratorSpec;

verus! {

/// The description of a Finite State Machine.
pub trait FSM: Sized {
    /// The input
    type Domain;

    /// The states
    type States;

    /// The current state. Verified implementations define it; for any
    /// other nothing is known of it.
    closed spec fn current(&self) -> Self::States {
        arbitrary()
    }

    /// The state that `state` moves to on `input`. Verified
    /// implementations define it; for any other nothing is known of it.
    closed spec fn next_state(state: Self::States, input: Self::Domain) -> Self::States {
        arbitrary()
    }

    /// Create a new FSM
    fn new(state: Self::States) -> (r: Self)
        ensures
            r.current() == state,
    ;

    /// Get a reference to the current state
    fn state(&self) -> (r: &Self::States)
        ensures
            *r == self.current(),
    ;

    /// Give an input to the FSM
    fn transform(&mut self, input: &Self::Domain)
        ensures
            final(self).current() == Self::next_state(old(self).current(), *input),
    ;

    /// Give each input of `inputs` to the FSM, in order.
    fn run<I: Iterator<Item = Self::Domain>>(&mut self, inputs: I)
        requires
            inputs.obeys_prophetic_iter_laws(),
            inputs.decrease() is Some,
        ensures
            final(self).current() == run_from(
                |s, d| Self::next_state(s, d),
                old(self).current(),
                inputs.remaining(),
            ),
    {
        let mut rest = inputs;
        loop
            invariant
                rest.obeys_prophetic_iter_laws(),
                rest.decrease() is Some,
                run_from(|s, d| Self::next_state(s, d), self.current(), rest.remaining())
                    == run_from(
                    |s, d| Self::next_state(s, d),
                    old(self).current(),
                    inputs.remaining(),
                ),
            decreases rest.decrease()->0,
        {
            match rest.next() {
                Some(input) => {
                    self.transform(&input);
                },
                None => {
                    return;
                },
            }
        }
    }
}

/// The state reached from `state` when `next_state` is applied to each of
/// `inputs`, left to right.
pub open spec fn run_from<S, D>(next_state: spec_fn(S, D) -> S, state: S, inputs: Seq<D>) -> S
    decreases inputs.len(),
{
    if inputs.len() == 0 {
        state
    } else {
        run_from(next_state, next_state(state, inputs[0]), inputs.drop_first())
    }
}

} // verus!
