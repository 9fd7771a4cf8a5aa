//! Fallible map adaptors that keep the element type fixed: the callback
//! folds a targeted element back into the same outcome type.

use vstd::prelude::*;

use crate::and_then::{and_then_errs, and_then_oks};
use crate::callback::Apply;
use crate::source::Source;

verus! {

/// Extension trait for sources of `Result` elements: transform one branch
/// with a fallible callback that keeps both payload types unchanged.
pub trait AndThenX<O, E>: Source<Item = Result<O, E>> + Sized {
    /// Replace every success by `f`'s outcome — which may itself be a
    /// failure — while leaving failures as they are.
    fn and_then_ok<F: Apply<In = O, Out = Result<O, E>>>(self, f: F) -> (r: AndThenOk<Self, F>)
        ensures
            r.remaining() == and_then_oks(self.remaining(), |o: O| f.apply_spec(o)),
    ;

    /// Replace every failure by `f`'s outcome — which may itself be a
    /// success — while leaving successes as they are.
    fn and_then_err<F: Apply<In = E, Out = Result<O, E>>>(self, f: F) -> (r: AndThenErr<Self, F>)
        ensures
            r.remaining() == and_then_errs(self.remaining(), |e: E| f.apply_spec(e)),
    ;
}

impl<I, O, E> AndThenX<O, E> for I where I: Source<Item = Result<O, E>> {
    fn and_then_ok<F: Apply<In = O, Out = Result<O, E>>>(self, f: F) -> (r: AndThenOk<Self, F>) {
        AndThenOk { iter: self, f }
    }

    fn and_then_err<F: Apply<In = E, Out = Result<O, E>>>(self, f: F) -> (r: AndThenErr<Self, F>) {
        AndThenErr { iter: self, f }
    }
}

/// Adaptor that maps successes through a fallible, type-preserving callback,
/// built by [`AndThenX::and_then_ok`].
#[must_use]
pub struct AndThenOk<I, F> {
    iter: I,
    f: F,
}

impl<I, O, E, F> Source for AndThenOk<I, F> where
    I: Source<Item = Result<O, E>>,
    F: Apply<In = O, Out = Result<O, E>>,
 {
    type Item = Result<O, E>;

    closed spec fn remaining(&self) -> Seq<Result<O, E>> {
        and_then_oks(self.iter.remaining(), |o: O| self.f.apply_spec(o))
    }

    fn next(&mut self) -> (r: Option<Result<O, E>>) {
        match self.iter.next() {
            Some(Ok(o)) => {
                let out = self.f.apply(o);
                proof {
                    assert(self.remaining() =~= old(self).remaining().drop_first());
                }
                Some(out)
            },
            Some(Err(e)) => {
                proof {
                    assert(self.remaining() =~= old(self).remaining().drop_first());
                }
                Some(Err(e))
            },
            None => None,
        }
    }

    fn size_hint(&self) -> (r: (usize, Option<usize>)) {
        self.iter.size_hint()
    }
}

/// Adaptor that maps failures through a fallible, type-preserving callback,
/// built by [`AndThenX::and_then_err`].
#[must_use]
pub struct AndThenErr<I, F> {
    iter: I,
    f: F,
}

impl<I, O, E, F> Source for AndThenErr<I, F> where
    I: Source<Item = Result<O, E>>,
    F: Apply<In = E, Out = Result<O, E>>,
 {
    type Item = Result<O, E>;

    closed spec fn remaining(&self) -> Seq<Result<O, E>> {
        and_then_errs(self.iter.remaining(), |e: E| self.f.apply_spec(e))
    }

    fn next(&mut self) -> (r: Option<Result<O, E>>) {
        match self.iter.next() {
            Some(Err(e)) => {
                let out = self.f.apply(e);
                proof {
                    assert(self.remaining() =~= old(self).remaining().drop_first());
                }
                Some(out)
            },
            Some(Ok(o)) => {
                proof {
                    assert(self.remaining() =~= old(self).remaining().drop_first());
                }
                Some(Ok(o))
            },
            None => None,
        }
    }

    fn size_hint(&self) -> (r: (usize, Option<usize>)) {
        self.iter.size_hint()
    }
}

} // verus!
