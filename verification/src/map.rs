//! Single-branch map adaptors: transform one branch, pass the other through.

use vstd::prelude::*;

use crate::callback::Apply;
use crate::source::Source;

verus! {

/// The sequence `map_ok` produces from upstream sequence `s`: `g` applied to
/// every success, every failure untouched, one output per input.
pub open spec fn map_oks<O, E, O2>(s: Seq<Result<O, E>>, g: spec_fn(O) -> O2) -> Seq<
    Result<O2, E>,
> {
    s.map_values(
        |r: Result<O, E>|
            match r {
                Ok(o) => Ok(g(o)),
                Err(e) => Err(e),
            },
    )
}

/// The sequence `map_err` produces from upstream sequence `s`: `g` applied to
/// every failure, every success untouched, one output per input.
pub open spec fn map_errs<O, E, E2>(s: Seq<Result<O, E>>, g: spec_fn(E) -> E2) -> Seq<
    Result<O, E2>,
> {
    s.map_values(
        |r: Result<O, E>|
            match r {
                Ok(o) => Ok(o),
                Err(e) => Err(g(e)),
            },
    )
}

/// Output length equals input length, and every non-targeted (failure)
/// element is identical to the input at the same position.
pub proof fn lemma_map_oks_preserves_cardinality<O, E, O2>(
    s: Seq<Result<O, E>>,
    g: spec_fn(O) -> O2,
)
    ensures
        map_oks(s, g).len() == s.len(),
        forall|i: int|
            0 <= i < s.len() ==> match #[trigger] s[i] {
                Ok(o) => map_oks(s, g)[i] == Ok::<O2, E>(g(o)),
                Err(e) => map_oks(s, g)[i] == Err::<O2, E>(e),
            },
{
}

/// Output length equals input length, and every non-targeted (success)
/// element is identical to the input at the same position.
pub proof fn lemma_map_errs_preserves_cardinality<O, E, E2>(
    s: Seq<Result<O, E>>,
    g: spec_fn(E) -> E2,
)
    ensures
        map_errs(s, g).len() == s.len(),
        forall|i: int|
            0 <= i < s.len() ==> match #[trigger] s[i] {
                Ok(o) => map_errs(s, g)[i] == Ok::<O, E2>(o),
                Err(e) => map_errs(s, g)[i] == Err::<O, E2>(g(e)),
            },
{
}

/// Extension trait for sources of `Result` elements: selectively transform
/// successes or failures.
pub trait MapExt<O, E>: Source<Item = Result<O, E>> + Sized {
    /// Map every success with `f` while leaving failures as they are.
    fn map_ok<F: Apply<In = O>>(self, f: F) -> (r: MapOk<Self, F>)
        ensures
            r.remaining() == map_oks(self.remaining(), |o: O| f.apply_spec(o)),
    ;

    /// Map every failure with `f` while leaving successes as they are.
    fn map_err<F: Apply<In = E>>(self, f: F) -> (r: MapErr<Self, F>)
        ensures
            r.remaining() == map_errs(self.remaining(), |e: E| f.apply_spec(e)),
    ;
}

impl<I, O, E> MapExt<O, E> for I where I: Source<Item = Result<O, E>> {
    fn map_ok<F: Apply<In = O>>(self, f: F) -> (r: MapOk<Self, F>) {
        MapOk { iter: self, f }
    }

    fn map_err<F: Apply<In = E>>(self, f: F) -> (r: MapErr<Self, F>) {
        MapErr { iter: self, f }
    }
}

/// Adaptor that maps successes, built by [`MapExt::map_ok`].
#[must_use]
pub struct MapOk<I, F> {
    iter: I,
    f: F,
}

impl<I, O, E, F, O2> Source for MapOk<I, F> where
    I: Source<Item = Result<O, E>>,
    F: Apply<In = O, Out = O2>,
 {
    type Item = Result<O2, E>;

    closed spec fn remaining(&self) -> Seq<Result<O2, E>> {
        map_oks(self.iter.remaining(), |o: O| self.f.apply_spec(o))
    }

    fn next(&mut self) -> (r: Option<Result<O2, E>>) {
        match self.iter.next() {
            Some(Ok(o)) => {
                let o2 = self.f.apply(o);
                proof {
                    assert(self.remaining() =~= old(self).remaining().drop_first());
                }
                Some(Ok(o2))
            },
            Some(Err(e)) => {
                proof {
                    assert(self.remaining() =~= old(self).remaining().drop_first());
                }
                Some(Err(e))
            },
            None => None,
        }
    }

    fn size_hint(&self) -> (r: (usize, Option<usize>)) {
        self.iter.size_hint()
    }
}

/// Adaptor that maps failures, built by [`MapExt::map_err`].
#[must_use]
pub struct MapErr<I, F> {
    iter: I,
    f: F,
}

impl<I, O, E, F, E2> Source for MapErr<I, F> where
    I: Source<Item = Result<O, E>>,
    F: Apply<In = E, Out = E2>,
 {
    type Item = Result<O, E2>;

    closed spec fn remaining(&self) -> Seq<Result<O, E2>> {
        map_errs(self.iter.remaining(), |e: E| self.f.apply_spec(e))
    }

    fn next(&mut self) -> (r: Option<Result<O, E2>>) {
        match self.iter.next() {
            Some(Ok(o)) => {
                proof {
                    assert(self.remaining() =~= old(self).remaining().drop_first());
                }
                Some(Ok(o))
            },
            Some(Err(e)) => {
                let e2 = self.f.apply(e);
                proof {
                    assert(self.remaining() =~= old(self).remaining().drop_first());
                }
                Some(Err(e2))
            },
            None => None,
        }
    }

    fn size_hint(&self) -> (r: (usize, Option<usize>)) {
        self.iter.size_hint()
    }
}

} // verus!
