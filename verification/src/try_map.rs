//! Fallible map adaptors under their `try_map` names: as the `and_then`
//! adaptors, each targeted element is replaced by the callback's own
//! outcome.

use vstd::prelude::*;

use crate::and_then::{and_then_errs, and_then_oks};
use crate::callback::Apply;
use crate::source::Source;

verus! {

/// Extension trait for sources of `Result` elements: map one branch with a
/// callback that can itself fail.
pub trait TryMap<O, E>: Source<Item = Result<O, E>> + Sized {
    /// Replace every success by `f`'s outcome — which may itself be a
    /// failure — while leaving failures as they are.
    fn try_map_ok<O2, F: Apply<In = O, Out = Result<O2, E>>>(self, f: F) -> (r: TryMapOk<Self, F>)
        ensures
            r.remaining() == and_then_oks(self.remaining(), |o: O| f.apply_spec(o)),
    ;

    /// Replace every failure by `f`'s outcome — which may itself be a
    /// success, or a failure of another type — while leaving successes as
    /// they are.
    fn try_map_err<E2, F: Apply<In = E, Out = Result<O, E2>>>(self, f: F) -> (r: TryMapErr<
        Self,
        F,
    >)
        ensures
            r.remaining() == and_then_errs(self.remaining(), |e: E| f.apply_spec(e)),
    ;
}

impl<I, O, E> TryMap<O, E> for I where I: Source<Item = Result<O, E>> {
    fn try_map_ok<O2, F: Apply<In = O, Out = Result<O2, E>>>(self, f: F) -> (r: TryMapOk<
        Self,
        F,
    >) {
        TryMapOk { iter: self, f }
    }

    fn try_map_err<E2, F: Apply<In = E, Out = Result<O, E2>>>(self, f: F) -> (r: TryMapErr<
        Self,
        F,
    >) {
        TryMapErr { iter: self, f }
    }
}

/// Adaptor that maps successes through a fallible callback, built by
/// [`TryMap::try_map_ok`].
#[must_use]
pub struct TryMapOk<I, F> {
    iter: I,
    f: F,
}

impl<I, O, E, O2, F> Source for TryMapOk<I, F> where
    I: Source<Item = Result<O, E>>,
    F: Apply<In = O, Out = Result<O2, E>>,
 {
    type Item = Result<O2, E>;

    closed spec fn remaining(&self) -> Seq<Result<O2, E>> {
        and_then_oks(self.iter.remaining(), |o: O| self.f.apply_spec(o))
    }

    fn next(&mut self) -> (r: Option<Result<O2, E>>) {
        match self.iter.next() {
            Some(Ok(o)) => {
                let out = self.f.apply(o);
                proof {
                    assert(self.remaining() =~= old(self).remaining().drop_first());
                }
                Some(out)
            },
            Some(Err(e)) => {
                proof {
                    assert(self.remaining() =~= old(self).remaining().drop_first());
                }
                Some(Err(e))
            },
            None => None,
        }
    }

    fn size_hint(&self) -> (r: (usize, Option<usize>)) {
        self.iter.size_hint()
    }
}

/// Adaptor that maps failures through a fallible callback, built by
/// [`TryMap::try_map_err`].
#[must_use]
pub struct TryMapErr<I, F> {
    iter: I,
    f: F,
}

impl<I, O, E, E2, F> Source for TryMapErr<I, F> where
    I: Source<Item = Result<O, E>>,
    F: Apply<In = E, Out = Result<O, E2>>,
 {
    type Item = Result<O, E2>;

    closed spec fn remaining(&self) -> Seq<Result<O, E2>> {
        and_then_errs(self.iter.remaining(), |e: E| self.f.apply_spec(e))
    }

    fn next(&mut self) -> (r: Option<Result<O, E2>>) {
        match self.iter.next() {
            Some(Err(e)) => {
                let out = self.f.apply(e);
                proof {
                    assert(self.remaining() =~= old(self).remaining().drop_first());
                }
                Some(out)
            },
            Some(Ok(o)) => {
                proof {
                    assert(self.remaining() =~= old(self).remaining().drop_first());
                }
                Some(Ok(o))
            },
            None => None,
        }
    }

    fn size_hint(&self) -> (r: (usize, Option<usize>)) {
        self.iter.size_hint()
    }
}

} // verus!
