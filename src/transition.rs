//! The mathematical model of a transition function: a total, deterministic
//! map from a state and an input to the next state, and its fold over a
//! sequence of inputs.
use vstd::prelude::*;

verus! {

/// A transition function: moves a state of type `S` on an input of type `D`.
///
/// Every `Fn(S, D) -> S` is one; composite machines provide their own.
pub trait Transition<S, D> {
    /// The call is allowed on `s` and `d`.
    spec fn admits(&self, s: S, d: D) -> bool;

    /// `r` is a state that the call on `s` and `d` may return.
    spec fn yields(&self, s: S, d: D, r: S) -> bool;

    /// Move `s` on input `d`.
    fn transition(&self, s: S, d: D) -> (r: S)
        requires
            self.admits(s, d),
        ensures
            self.yields(s, d, r),
    ;
}

impl<S, D, F: Fn(S, D) -> S> Transition<S, D> for F {
    open spec fn admits(&self, s: S, d: D) -> bool {
        call_requires(*self, (s, d))
    }

    open spec fn yields(&self, s: S, d: D, r: S) -> bool {
        call_ensures(*self, (s, d), r)
    }

    fn transition(&self, s: S, d: D) -> (r: S) {
        self(s, d)
    }
}

/// `f` may be called on every state and input, and every call on equal
/// arguments returns an equal state.
pub open spec fn is_transition<D, S, F: Transition<S, D>>(f: F) -> bool {
    &&& forall|s: S, d: D| #[trigger] f.admits(s, d)
    &&& forall|s: S, d: D, r1: S, r2: S|
        #![trigger f.yields(s, d, r1), f.yields(s, d, r2)]
        f.yields(s, d, r1) && f.yields(s, d, r2) ==> r1 == r2
}

/// For a function or closure, `admits` is its precondition and `yields`
/// its postcondition.
pub proof fn lemma_fn_transition<S, D, F: Fn(S, D) -> S>(f: F)
    ensures
        forall|s: S, d: D| #[trigger] f.admits(s, d) == call_requires(f, (s, d)),
        forall|s: S, d: D, r: S| #[trigger] f.yields(s, d, r) == call_ensures(f, (s, d), r),
{
}

/// The state that `f` moves `s` to on input `d`.
pub open spec fn next<D, S, F: Transition<S, D>>(f: F, s: S, d: D) -> S {
    choose|r: S| f.yields(s, d, r)
}

/// The state reached from `s` by feeding the inputs `ds` to `f`, left to right.
pub open spec fn fold<D, S, F: Transition<S, D>>(f: F, s: S, ds: Seq<D>) -> S
    decreases ds.len(),
{
    if ds.len() == 0 {
        s
    } else {
        fold(f, next(f, s, ds[0]), ds.drop_first())
    }
}

/// Every step of the fold of `ds` from `s` is a result that `f` returns:
/// the run it describes takes place.
pub open spec fn defined_on<D, S, F: Transition<S, D>>(f: F, s: S, ds: Seq<D>) -> bool
    decreases ds.len(),
{
    ds.len() == 0 || (f.yields(s, ds[0], next(f, s, ds[0])) && defined_on(
        f,
        next(f, s, ds[0]),
        ds.drop_first(),
    ))
}

/// Every clone of a `T` equals the value it was cloned from.
pub open spec fn clones_equal<T: Clone>() -> bool {
    forall|x: T, y: T| #[trigger] call_ensures(T::clone, (&x,), y) ==> x == y
}

/// Determinism: whatever a call of a transition function returns is the one
/// state `next` names, so two calls on equal arguments return equal states.
pub proof fn lemma_next_unique<D, S, F: Transition<S, D>>(f: F, s: S, d: D, r: S)
    requires
        is_transition(f),
        f.yields(s, d, r),
    ensures
        next(f, s, d) == r,
{
}

/// Feeding no input leaves the state as it is.
pub proof fn lemma_fold_empty<D, S, F: Transition<S, D>>(f: F, s: S)
    ensures
        fold(f, s, Seq::<D>::empty()) == s,
{
}

/// Feeding `ds` and then one more input `d` is the same as feeding `ds`
/// and applying `d` to the state reached.
pub proof fn lemma_fold_push<D, S, F: Transition<S, D>>(f: F, s: S, ds: Seq<D>, d: D)
    ensures
        fold(f, s, ds.push(d)) == next(f, fold(f, s, ds), d),
    decreases ds.len(),
{
    if ds.len() > 0 {
        assert(ds.push(d).drop_first() =~= ds.drop_first().push(d));
        lemma_fold_push(f, next(f, s, ds[0]), ds.drop_first(), d);
    } else {
        assert(ds.push(d).drop_first() =~= Seq::<D>::empty());
        reveal_with_fuel(fold, 2);
    }
}

/// Feeding `a ++ b` is the same as feeding `a`, then `b` from where `a` ended.
pub proof fn lemma_fold_append<D, S, F: Transition<S, D>>(f: F, s: S, a: Seq<D>, b: Seq<D>)
    ensures
        fold(f, s, a + b) == fold(f, fold(f, s, a), b),
    decreases a.len(),
{
    if a.len() > 0 {
        assert((a + b).drop_first() =~= a.drop_first() + b);
        lemma_fold_append(f, next(f, s, a[0]), a.drop_first(), b);
    } else {
        assert(a + b =~= b);
    }
}

} // verus!
