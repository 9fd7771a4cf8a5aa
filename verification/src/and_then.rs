//! Single-branch fallible map adaptors: the callback's own outcome replaces
//! the targeted element, so a success can fold into a failure (or a failure
//! back into a success) without touching the other branch.

use vstd::prelude::*;

use crate::callback::Apply;
use crate::source::Source;

verus! {

/// The sequence a fallible success-map with callback `g` produces from
/// upstream sequence `s`: each success is replaced by `g`'s outcome, each
/// failure passes through, one output per input.
pub open spec fn and_then_oks<O, E, O2>(s: Seq<Result<O, E>>, g: spec_fn(O) -> Result<O2, E>) -> Seq<
    Result<O2, E>,
> {
    s.map_values(
        |r: Result<O, E>|
            match r {
                Ok(o) => g(o),
                Err(e) => Err(e),
            },
    )
}

/// The sequence a fallible failure-map with callback `g` produces from
/// upstream sequence `s`: the mirror image of [`and_then_oks`].
pub open spec fn and_then_errs<O, E, E2>(s: Seq<Result<O, E>>, g: spec_fn(E) -> Result<O, E2>) -> Seq<
    Result<O, E2>,
> {
    s.map_values(
        |r: Result<O, E>|
            match r {
                Ok(o) => Ok(o),
                Err(e) => g(e),
            },
    )
}

/// Output length equals input length; each success becomes exactly the
/// callback's outcome and each failure is identical to the input at the
/// same position.
pub proof fn lemma_and_then_oks_preserves_cardinality<O, E, O2>(
    s: Seq<Result<O, E>>,
    g: spec_fn(O) -> Result<O2, E>,
)
    ensures
        and_then_oks(s, g).len() == s.len(),
        forall|i: int|
            0 <= i < s.len() ==> match #[trigger] s[i] {
                Ok(o) => and_then_oks(s, g)[i] == g(o),
                Err(e) => and_then_oks(s, g)[i] == Err::<O2, E>(e),
            },
{
}

/// Output length equals input length; each failure becomes exactly the
/// callback's outcome and each success is identical to the input at the
/// same position.
pub proof fn lemma_and_then_errs_preserves_cardinality<O, E, E2>(
    s: Seq<Result<O, E>>,
    g: spec_fn(E) -> Result<O, E2>,
)
    ensures
        and_then_errs(s, g).len() == s.len(),
        forall|i: int|
            0 <= i < s.len() ==> match #[trigger] s[i] {
                Ok(o) => and_then_errs(s, g)[i] == Ok::<O, E2>(o),
                Err(e) => and_then_errs(s, g)[i] == g(e),
            },
{
}

/// Extension trait for sources of `Result` elements: selectively transform
/// one branch with a callback whose own outcome replaces the element.
pub trait AndThen<O, E>: Source<Item = Result<O, E>> + Sized {
    /// Replace every success by `f`'s outcome — which may itself be a
    /// failure — while leaving failures as they are.
    fn and_then_ok<O2, F: Apply<In = O, Out = Result<O2, E>>>(self, f: F) -> (r: AndThenOk<
        Self,
        F,
    >)
        ensures
            r.remaining() == and_then_oks(self.remaining(), |o: O| f.apply_spec(o)),
    ;

    /// Replace every failure by `f`'s outcome — which may itself be a
    /// success — while leaving successes as they are.
    fn and_then_err<E2, F: Apply<In = E, Out = Result<O, E2>>>(self, f: F) -> (r: AndThenErr<
        Self,
        F,
    >)
        ensures
            r.remaining() == and_then_errs(self.remaining(), |e: E| f.apply_spec(e)),
    ;
}

impl<I, O, E> AndThen<O, E> for I where I: Source<Item = Result<O, E>> {
    fn and_then_ok<O2, F: Apply<In = O, Out = Result<O2, E>>>(self, f: F) -> (r: AndThenOk<
        Self,
        F,
    >) {
        AndThenOk { iter: self, f }
    }

    fn and_then_err<E2, F: Apply<In = E, Out = Result<O, E2>>>(self, f: F) -> (r: AndThenErr<
        Self,
        F,
    >) {
        AndThenErr { iter: self, f }
    }
}

/// Adaptor that maps successes through a fallible callback, built by
/// [`AndThen::and_then_ok`].
#[must_use]
pub struct AndThenOk<I, F> {
    iter: I,
    f: F,
}

impl<I, O, E, O2, F> Source for AndThenOk<I, F> where
    I: Source<Item = Result<O, E>>,
    F: Apply<In = O, Out = Result<O2, E>>,
 {
    type Item = Result<O2, E>;

    closed spec fn remaining(&self) -> Seq<Result<O2, E>> {
        and_then_oks(self.iter.remaining(), |o: O| self.f.apply_spec(o))
    }

    fn next(&mut self) -> (r: Option<Result<O2, E>>) {
        match self.iter.next() {
            Some(Ok(o)) => {
                let out = self.f.apply(o);
                proof {
                    assert(self.remaining() =~= old(self).remaining().drop_first());
                }
                Some(out)
            },
            Some(Err(e)) => {
                proof {
                    assert(self.remaining() =~= old(self).remaining().drop_first());
                }
                Some(Err(e))
            },
            None => None,
        }
    }

    fn size_hint(&self) -> (r: (usize, Option<usize>)) {
        self.iter.size_hint()
    }
}

/// Adaptor that maps failures through a fallible callback, built by
/// [`AndThen::and_then_err`].
#[must_use]
pub struct AndThenErr<I, F> {
    iter: I,
    f: F,
}

impl<I, O, E, E2, F> Source for AndThenErr<I, F> where
    I: Source<Item = Result<O, E>>,
    F: Apply<In = E, Out = Result<O, E2>>,
 {
    type Item = Result<O, E2>;

    closed spec fn remaining(&self) -> Seq<Result<O, E2>> {
        and_then_errs(self.iter.remaining(), |e: E| self.f.apply_spec(e))
    }

    fn next(&mut self) -> (r: Option<Result<O, E2>>) {
        match self.iter.next() {
            Some(Err(e)) => {
                let out = self.f.apply(e);
                proof {
                    assert(self.remaining() =~= old(self).remaining().drop_first());
                }
                Some(out)
            },
            Some(Ok(o)) => {
                proof {
                    assert(self.remaining() =~= old(self).remaining().drop_first());
                }
                Some(Ok(o))
            },
            None => None,
        }
    }

    fn size_hint(&self) -> (r: (usize, Option<usize>)) {
        self.iter.size_hint()
    }
}

} // verus!
