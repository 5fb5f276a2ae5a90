//! The union of two machines: both run in lockstep on the same inputs, and
//! the pair accepts where either part accepts.
use crate::accept_states::AcceptStates;
use crate::fsm::FSM;
use crate::transition::{clones_equal, defined_on, fold, is_transition, next, Transition};
use vstd::prelude::*;

verus! {

/// The state of an union machine: the states of its two parts.
/// If both part types implement [`AcceptStates`], it is accepted when either part is.
#[derive(Clone, Copy, Debug, PartialEq, Eq)]
pub struct State<StatesA, StatesB> {
    pub a: StatesA,
    pub b: StatesB,
}

/// The transition function of an union machine that clones each input.
#[derive(Clone, Copy, Debug)]
pub struct Lockstep<FA, FB> {
    pub transform_a: FA,
    pub transform_b: FB,
}

/// The transition function of an union machine that copies each input.
#[derive(Clone, Copy, Debug)]
pub struct LockstepCopy<FA, FB> {
    pub transform_a: FA,
    pub transform_b: FB,
}

impl<D: Clone, A, B, FA: Transition<A, D>, FB: Transition<B, D>> Transition<State<A, B>, D> for Lockstep<FA, FB> {
    open spec fn admits(&self, s: State<A, B>, d: D) -> bool {
        self.transform_a.admits(s.a, d) && self.transform_b.admits(s.b, d) && clones_equal::<D>()
    }

    open spec fn yields(&self, s: State<A, B>, d: D, r: State<A, B>) -> bool {
        self.transform_a.yields(s.a, d, r.a) && self.transform_b.yields(s.b, d, r.b)
    }

    fn transition(&self, s: State<A, B>, d: D) -> (r: State<A, B>) {
        let copy = d.clone();
        State { a: self.transform_a.transition(s.a, copy), b: self.transform_b.transition(s.b, d) }
    }
}

impl<D: Copy, A, B, FA: Transition<A, D>, FB: Transition<B, D>> Transition<State<A, B>, D> for LockstepCopy<FA, FB> {
    open spec fn admits(&self, s: State<A, B>, d: D) -> bool {
        self.transform_a.admits(s.a, d) && self.transform_b.admits(s.b, d)
    }

    open spec fn yields(&self, s: State<A, B>, d: D, r: State<A, B>) -> bool {
        self.transform_a.yields(s.a, d, r.a) && self.transform_b.yields(s.b, d, r.b)
    }

    fn transition(&self, s: State<A, B>, d: D) -> (r: State<A, B>) {
        State { a: self.transform_a.transition(s.a, d), b: self.transform_b.transition(s.b, d) }
    }
}

/// Each result of `g` moves the first part as `transform_a` does and the
/// second as `transform_b` does, on the same input.
pub open spec fn is_lockstep<D, A, B, FA, FB, G>(g: G, transform_a: FA, transform_b: FB) -> bool where
    FA: Transition<A, D>,
    FB: Transition<B, D>,
    G: Transition<State<A, B>, D>,
 {
    forall|s: State<A, B>, d: D, r: State<A, B>|
        #[trigger] g.yields(s, d, r) ==> transform_a.yields(s.a, d, r.a) && transform_b.yields(
            s.b,
            d,
            r.b,
        )
}

/// Create a new union machine.
/// This runs two machines in parallel and is in an accept state if either machine is.
///
/// This variant clones each input. For a version that copies each input, see [`new_copy`].
pub fn new<Domain: Clone, StatesA, StatesB, FA, FB>(
    start_state_a: StatesA,
    start_state_b: StatesB,
    transform_a: FA,
    transform_b: FB,
) -> (r: FSM<Domain, State<StatesA, StatesB>, Lockstep<FA, FB>>) where
    FA: Transition<StatesA, Domain>,
    FB: Transition<StatesB, Domain>,

    requires
        is_transition(transform_a),
        is_transition(transform_b),
        clones_equal::<Domain>(),
    ensures
        r.wf(),
        r.current() == (State { a: start_state_a, b: start_state_b }),
        r.step() == (Lockstep { transform_a, transform_b }),
        is_lockstep(r.step(), transform_a, transform_b),
{
    FSM::new(State { a: start_state_a, b: start_state_b }, Lockstep { transform_a, transform_b })
}

/// Create a new union machine.
/// This runs two machines in parallel and is in an accept state if either machine is.
///
/// This variant copies each input. For a version that clones each input, see [`new`].
pub fn new_copy<Domain: Copy, StatesA, StatesB, FA, FB>(
    start_state_a: StatesA,
    start_state_b: StatesB,
    transform_a: FA,
    transform_b: FB,
) -> (r: FSM<Domain, State<StatesA, StatesB>, LockstepCopy<FA, FB>>) where
    FA: Transition<StatesA, Domain>,
    FB: Transition<StatesB, Domain>,

    requires
        is_transition(transform_a),
        is_transition(transform_b),
    ensures
        r.wf(),
        r.current() == (State { a: start_state_a, b: start_state_b }),
        r.step() == (LockstepCopy { transform_a, transform_b }),
        is_lockstep(r.step(), transform_a, transform_b),
{
    FSM::new(State { a: start_state_a, b: start_state_b }, LockstepCopy { transform_a, transform_b })
}

/// Create a new union machine with default start states.
/// This runs two machines in parallel and is in an accept state if either machine is.
///
/// This variant clones each input. For a version that copies each input, see [`default_with_transforms_copy`].
pub fn default_with_transforms<Domain: Clone, StatesA: Default, StatesB: Default, FA, FB>(
    transform_a: FA,
    transform_b: FB,
) -> (r: FSM<Domain, State<StatesA, StatesB>, Lockstep<FA, FB>>) where
    FA: Transition<StatesA, Domain>,
    FB: Transition<StatesB, Domain>,

    requires
        is_transition(transform_a),
        is_transition(transform_b),
        clones_equal::<Domain>(),
    ensures
        r.wf(),
        call_ensures(StatesA::default, (), r.current().a),
        call_ensures(StatesB::default, (), r.current().b),
        r.step() == (Lockstep { transform_a, transform_b }),
        is_lockstep(r.step(), transform_a, transform_b),
{
    new(StatesA::default(), StatesB::default(), transform_a, transform_b)
}

/// Create a new union machine with default start states.
/// This runs two machines in parallel and is in an accept state if either machine is.
///
/// This variant copies each input. For a version that clones each input, see [`default_with_transforms`].
pub fn default_with_transforms_copy<Domain: Copy, StatesA: Default, StatesB: Default, FA, FB>(
    transform_a: FA,
    transform_b: FB,
) -> (r: FSM<Domain, State<StatesA, StatesB>, LockstepCopy<FA, FB>>) where
    FA: Transition<StatesA, Domain>,
    FB: Transition<StatesB, Domain>,

    requires
        is_transition(transform_a),
        is_transition(transform_b),
    ensures
        r.wf(),
        call_ensures(StatesA::default, (), r.current().a),
        call_ensures(StatesB::default, (), r.current().b),
        r.step() == (LockstepCopy { transform_a, transform_b }),
        is_lockstep(r.step(), transform_a, transform_b),
{
    new_copy(StatesA::default(), StatesB::default(), transform_a, transform_b)
}

/// Union: on every input sequence that the union machine runs through, it
/// ends in the pair of the states that each part reaches alone, and it
/// accepts exactly when at least one part accepts.
pub proof fn lemma_union_run<D, A: AcceptStates, B: AcceptStates, FA, FB, G>(
    g: G,
    transform_a: FA,
    transform_b: FB,
    s: State<A, B>,
    w: Seq<D>,
) where
    FA: Transition<A, D>,
    FB: Transition<B, D>,
    G: Transition<State<A, B>, D>,

    requires
        is_transition(transform_a),
        is_transition(transform_b),
        is_lockstep(g, transform_a, transform_b),
        defined_on(g, s, w),
    ensures
        fold(g, s, w) == (State { a: fold(transform_a, s.a, w), b: fold(transform_b, s.b, w) }),
        fold(g, s, w).accepting() <==> fold(transform_a, s.a, w).accepting() || fold(
            transform_b,
            s.b,
            w,
        ).accepting(),
    decreases w.len(),
{
    if w.len() > 0 {
        let n = next(g, s, w[0]);
        assert(g.yields(s, w[0], n));
        lemma_union_run(g, transform_a, transform_b, n, w.drop_first());
    }
}

impl<StatesA: AcceptStates, StatesB: AcceptStates> AcceptStates for State<StatesA, StatesB> {
    open spec fn accepting(&self) -> bool {
        self.a.accepting() || self.b.accepting()
    }

    fn is_accepted(&self) -> (r: bool) {
        self.a.is_accepted() || self.b.is_accepted()
    }
}

} // verus!
