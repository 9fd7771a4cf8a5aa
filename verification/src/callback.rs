//! The caller-supplied units of logic that adaptors hold and invoke.
//!
//! Each trait carries a spec function giving the callback's mathematical
//! meaning, and an exec method whose contract ties the call's result to it.
//! A callback may mutate its own state on each call, as long as that does
//! not change what the spec function says — so a counter or a cache is fine,
//! while the observers ([`Inspect`], [`Accept`]) record exactly what they
//! were shown.

use vstd::prelude::*;

verus! {

/// A transformation of one value into another, invoked once per qualifying
/// element. Stands in for the mapping callbacks.
pub trait Apply {
    type In;
    type Out;

    /// What the callback computes.
    spec fn apply_spec(&self, x: Self::In) -> Self::Out;

    fn apply(&mut self, x: Self::In) -> (r: Self::Out)
        ensures
            r == old(self).apply_spec(x),
            forall|y: Self::In| #[trigger] final(self).apply_spec(y) == old(self).apply_spec(y),
    ;
}

/// A predicate over borrowed values. Stands in for the filtering callbacks.
pub trait Check {
    type In;

    /// What the predicate holds of.
    spec fn check_spec(&self, x: Self::In) -> bool;

    fn check(&mut self, x: &Self::In) -> (r: bool)
        ensures
            r == old(self).check_spec(*x),
            forall|y: Self::In| #[trigger] final(self).check_spec(y) == old(self).check_spec(y),
    ;
}

/// A predicate that can itself fail: `Ok(true)` keeps the value, `Ok(false)`
/// discards it, `Err` replaces it by that failure.
pub trait TryCheck {
    type In;
    type Err;

    /// The verdict the predicate reaches.
    spec fn verdict_spec(&self, x: Self::In) -> Result<bool, Self::Err>;

    fn verdict(&mut self, x: &Self::In) -> (r: Result<bool, Self::Err>)
        ensures
            r == old(self).verdict_spec(*x),
            forall|y: Self::In| #[trigger] final(self).verdict_spec(y) == old(self).verdict_spec(y),
    ;
}

/// A side effect on a borrowed value: the observer keeps a record of every
/// value it was shown, in order, and the element passes on untouched.
pub trait Inspect {
    type In;

    /// The values this observer has been shown so far, in order.
    spec fn seen(&self) -> Seq<Self::In>;

    fn inspect(&mut self, x: &Self::In)
        ensures
            final(self).seen() == old(self).seen().push(*x),
    ;
}

/// A side effect that consumes its value: the consumer keeps a record of
/// every value handed to it, in order.
pub trait Accept {
    type In;

    /// The values handed to this consumer so far, in order.
    spec fn taken(&self) -> Seq<Self::In>;

    fn accept(&mut self, x: Self::In)
        ensures
            final(self).taken() == old(self).taken().push(x),
    ;
}

/// A zero-argument factory for a default value, invoked when an adaptor must
/// synthesize one.
pub trait Supply {
    type Out;

    /// The value the factory produces.
    spec fn supply_spec(&self) -> Self::Out;

    fn supply(&mut self) -> (r: Self::Out)
        ensures
            r == old(self).supply_spec(),
            final(self).supply_spec() == old(self).supply_spec(),
    ;
}

} // verus!
