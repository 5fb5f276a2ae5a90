use crate::accept_states::AcceptStates;
use crate::transition::{defined_on, fold, is_transition, lemma_next_unique, next, Transition};
use core::marker::PhantomData;
use vstd::prelude::*;
use vstd::std_specs::iter::IteratorSpec;

verus! {

/// A finite state machine: a current state and the transition function
/// that moves it on each input.
///
/// The state is kept in an `Option` so that the in-place step can move it
/// into the transition function; it is `Some` between calls.
#[derive(Copy, Debug)]
pub struct FSM<Domain, States, F> {
    state: Option<States>,
    transform: F,
    domain: PhantomData<Domain>,
}

impl<Domain, States: Clone, F: Clone> Clone for FSM<Domain, States, F> {
    fn clone(&self) -> Self {
        FSM { state: self.state.clone(), transform: self.transform.clone(), domain: PhantomData }
    }
}

impl<Domain, States, F: Transition<States, Domain>> FSM<Domain, States, F> {
    /// The current state.
    pub closed spec fn current(&self) -> States {
        self.state->Some_0
    }

    /// The transition function.
    pub closed spec fn step(&self) -> F {
        self.transform
    }

    /// A state is held and the transition function is total and deterministic.
    pub closed spec fn wf(&self) -> bool {
        self.state is Some && is_transition(self.transform)
    }

    /// Create a new Finite State Machine starting with the `start_state` and with the `transform` function.
    pub fn new(start_state: States, transform: F) -> (r: Self)
        requires
            is_transition(transform),
        ensures
            r.wf(),
            r.current() == start_state,
            r.step() == transform,
    {
        FSM { state: Some(start_state), transform, domain: PhantomData }
    }

    /// Create a new Finite State Machine starting with the default state and with the `transform` function.
    pub fn default_with_transform(transform: F) -> (r: Self) where States: Default
        requires
            is_transition(transform),
        ensures
            r.wf(),
            call_ensures(States::default, (), r.current()),
            r.step() == transform,
    {
        Self::new(States::default(), transform)
    }

    /// Get the current state.
    pub fn state(&self) -> (r: &States)
        requires
            self.wf(),
        ensures
            *r == self.current(),
    {
        self.state.as_ref().unwrap()
    }

    /// Get the transform function.
    pub fn transform_function(&self) -> (r: F) where F: Copy
        ensures
            r == self.step(),
    {
        self.transform
    }

    /// Extract the current state.
    pub fn into_state(self) -> (r: States)
        requires
            self.wf(),
        ensures
            r == self.current(),
    {
        self.state.unwrap()
    }

    /// Returns `true` if the current state is marked as accepted.
    pub fn is_accepted(&self) -> (r: bool) where States: AcceptStates
        requires
            self.wf(),
        ensures
            r == self.current().accepting(),
    {
        self.state().is_accepted()
    }

    /// Apply an input to the Finite State Machine, returning the new state of the machine.
    pub fn apply(self, input: Domain) -> (r: Self)
        requires
            self.wf(),
        ensures
            r.wf(),
            r.step() == self.step(),
            r.current() == next(self.step(), self.current(), input),
            self.step().yields(self.current(), input, r.current()),
    {
        let FSM { state, transform, domain } = self;
        let s = state.unwrap();
        let n = transform.transition(s, input);
        proof {
            lemma_next_unique(transform, s, input, n);
        }
        FSM { state: Some(n), transform, domain }
    }

    /// Apply an input to the Finite State Machine in place.
    pub fn apply_assign(&mut self, input: Domain)
        requires
            old(self).wf(),
        ensures
            final(self).wf(),
            final(self).step() == old(self).step(),
            final(self).current() == next(old(self).step(), old(self).current(), input),
            old(self).step().yields(old(self).current(), input, final(self).current()),
    {
        let s = self.state.take().unwrap();
        let n = self.transform.transition(s, input);
        proof {
            lemma_next_unique(self.transform, s, input, n);
        }
        self.state = Some(n);
    }

    /// Apply a sequence of inputs to the Finite State Machine, returning the new state of the machine.
    pub fn run<I: Iterator<Item = Domain>>(self, inputs: I) -> (r: Self)
        requires
            self.wf(),
            inputs.obeys_prophetic_iter_laws(),
            inputs.decrease() is Some,
        ensures
            r.wf(),
            r.step() == self.step(),
            r.current() == fold(self.step(), self.current(), inputs.remaining()),
            defined_on(self.step(), self.current(), inputs.remaining()),
    {
        let mut machine = self;
        let mut rest = inputs;
        loop
            invariant
                machine.wf(),
                machine.step() == self.step(),
                rest.obeys_prophetic_iter_laws(),
                rest.decrease() is Some,
                fold(machine.step(), machine.current(), rest.remaining()) == fold(
                    self.step(),
                    self.current(),
                    inputs.remaining(),
                ),
                defined_on(machine.step(), machine.current(), rest.remaining()) ==> defined_on(
                    self.step(),
                    self.current(),
                    inputs.remaining(),
                ),
            decreases rest.decrease()->0,
        {
            match rest.next() {
                Some(input) => {
                    machine = machine.apply(input);
                },
                None => {
                    return machine;
                },
            }
        }
    }

    /// Apply a sequence of inputs to the Finite State Machine in place.
    pub fn run_assign<I: Iterator<Item = Domain>>(&mut self, inputs: I)
        requires
            old(self).wf(),
            inputs.obeys_prophetic_iter_laws(),
            inputs.decrease() is Some,
        ensures
            final(self).wf(),
            final(self).step() == old(self).step(),
            final(self).current() == fold(old(self).step(), old(self).current(), inputs.remaining()),
            defined_on(old(self).step(), old(self).current(), inputs.remaining()),
    {
        let mut state = self.state.take().unwrap();
        let mut rest = inputs;
        let ghost f = self.transform;
        loop
            invariant
                self.transform == f,
                f == old(self).transform,
                is_transition(f),
                rest.obeys_prophetic_iter_laws(),
                rest.decrease() is Some,
                fold(f, state, rest.remaining()) == fold(
                    f,
                    old(self).current(),
                    inputs.remaining(),
                ),
                defined_on(f, state, rest.remaining()) ==> defined_on(
                    f,
                    old(self).current(),
                    inputs.remaining(),
                ),
            decreases rest.decrease()->0,
        {
            match rest.next() {
                Some(input) => {
                    let n = self.transform.transition(state, input);
                    proof {
                        lemma_next_unique(f, state, input, n);
                    }
                    state = n;
                },
                None => {
                    self.state = Some(state);
                    return;
                },
            }
        }
    }
}

} // verus!
