//! The interface of a policy that chooses an action from an observation.
use vstd::prelude::*;

verus! {

/// A policy: it reacts to an observation of type `O` with an action of
/// type `A`.
pub trait Model<O, A>: Send + Sync {
    fn react(&self, observation: &O) -> A;
}

} // verus!
