//! Side-effect passthrough over successes: every element is re-emitted
//! untouched; an observer is shown each success on the way through.

use vstd::prelude::*;

use crate::callback::Inspect;
use crate::source::Source;

verus! {

/// Adaptor that shows each success to an observer and passes every element
/// through unchanged, built by [`OnOkDo::on_ok`].
#[must_use]
pub struct OnOk<I, F> {
    iter: I,
    f: F,
}

impl<I, F> OnOk<I, F> {
    /// The observer this adaptor shows each success to.
    pub closed spec fn observer(&self) -> F {
        self.f
    }
}

/// Extension trait for sources of `Result` elements: observe each success
/// without changing the sequence.
pub trait OnOkDo<O, E>: Source<Item = Result<O, E>> + Sized {
    /// Apply a side effect to each success; the sequence of elements is
    /// unchanged.
    fn on_ok<F: Inspect<In = O>>(self, f: F) -> (r: OnOk<Self, F>)
        ensures
            r.remaining() == self.remaining(),
            r.observer() == f,
    ;
}

impl<I, O, E> OnOkDo<O, E> for I where I: Source<Item = Result<O, E>> {
    fn on_ok<F: Inspect<In = O>>(self, f: F) -> (r: OnOk<Self, F>) {
        OnOk { iter: self, f }
    }
}

impl<I, O, E, F> Source for OnOk<I, F> where
    I: Source<Item = Result<O, E>>,
    F: Inspect<In = O>,
 {
    type Item = Result<O, E>;

    closed spec fn remaining(&self) -> Seq<Result<O, E>> {
        self.iter.remaining()
    }

    fn next(&mut self) -> (r: Option<Result<O, E>>)
        ensures
            match r {
                Some(Ok(o)) => final(self).observer().seen() == old(self).observer().seen().push(
                    o,
                ),
                _ => final(self).observer().seen() == old(self).observer().seen(),
            },
    {
        match self.iter.next() {
            Some(Ok(o)) => {
                self.f.inspect(&o);
                Some(Ok(o))
            },
            Some(Err(e)) => Some(Err(e)),
            None => None,
        }
    }

    fn size_hint(&self) -> (r: (usize, Option<usize>)) {
        self.iter.size_hint()
    }
}

} // verus!
