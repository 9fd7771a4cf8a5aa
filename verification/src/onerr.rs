//! Side-effect passthrough over failures: every element is re-emitted
//! untouched; an observer is shown each failure on the way through.

use vstd::prelude::*;

use crate::callback::Inspect;
use crate::source::Source;

verus! {

/// Adaptor that shows each failure to an observer and passes every element
/// through unchanged, built by [`OnErrDo::on_err`].
#[must_use]
pub struct OnErr<I, F> {
    iter: I,
    f: F,
}

impl<I, F> OnErr<I, F> {
    /// The observer this adaptor shows each failure to.
    pub closed spec fn observer(&self) -> F {
        self.f
    }
}

/// Extension trait for sources of `Result` elements: observe each failure
/// without changing the sequence.
pub trait OnErrDo<O, E>: Source<Item = Result<O, E>> + Sized {
    /// Apply a side effect to each failure; the sequence of elements is
    /// unchanged.
    fn on_err<F: Inspect<In = E>>(self, f: F) -> (r: OnErr<Self, F>)
        ensures
            r.remaining() == self.remaining(),
            r.observer() == f,
    ;
}

impl<I, O, E> OnErrDo<O, E> for I where I: Source<Item = Result<O, E>> {
    fn on_err<F: Inspect<In = E>>(self, f: F) -> (r: OnErr<Self, F>) {
        OnErr { iter: self, f }
    }
}

impl<I, O, E, F> Source for OnErr<I, F> where
    I: Source<Item = Result<O, E>>,
    F: Inspect<In = E>,
 {
    type Item = Result<O, E>;

    closed spec fn remaining(&self) -> Seq<Result<O, E>> {
        self.iter.remaining()
    }

    fn next(&mut self) -> (r: Option<Result<O, E>>)
        ensures
            match r {
                Some(Err(e)) => final(self).observer().seen() == old(self).observer().seen().push(
                    e,
                ),
                _ => final(self).observer().seen() == old(self).observer().seen(),
            },
    {
        match self.iter.next() {
            Some(Err(e)) => {
                self.f.inspect(&e);
                Some(Err(e))
            },
            Some(Ok(o)) => Some(Ok(o)),
            None => None,
        }
    }

    fn size_hint(&self) -> (r: (usize, Option<usize>)) {
        self.iter.size_hint()
    }
}

} // verus!
