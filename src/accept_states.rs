use vstd::prelude::*;

verus! {

/// A state type whose values are each either accepting or not.
pub trait AcceptStates {
    /// Whether this state is an accepting one. Verified implementations
    /// define it; for any other nothing is known of it.
    closed spec fn accepting(&self) -> bool {
        arbitrary()
    }

    /// Returns `true` if the state is marked as accepted.
    fn is_accepted(&self) -> (r: bool)
        ensures
            r == self.accepting(),
    ;
}

} // verus!
