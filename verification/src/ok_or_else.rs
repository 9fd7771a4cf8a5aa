//! Option-folding: a success that holds nothing is surfaced as a failure
//! supplied by a factory, never silently dropped.

use vstd::prelude::*;

use crate::callback::Supply;
use crate::source::Source;

verus! {

/// The sequence option-folding with default failure `d` produces from
/// upstream sequence `s`: a success holding a value unwraps to that value,
/// a success holding nothing becomes the failure `d`, a failure passes
/// through — one output per input.
pub open spec fn fold_inner_oks<T, E>(s: Seq<Result<Option<T>, E>>, d: E) -> Seq<Result<T, E>> {
    s.map_values(
        |r: Result<Option<T>, E>|
            match r {
                Ok(Some(t)) => Ok(t),
                Ok(None) => Err(d),
                Err(e) => Err(e),
            },
    )
}

/// Output length equals input length; a present value unwraps, emptiness is
/// surfaced as the default failure (never dropped), and failures pass
/// through untouched at the same position.
pub proof fn lemma_fold_inner_oks_surfaces_emptiness<T, E>(s: Seq<Result<Option<T>, E>>, d: E)
    ensures
        fold_inner_oks(s, d).len() == s.len(),
        forall|i: int|
            0 <= i < s.len() ==> match #[trigger] s[i] {
                Ok(Some(t)) => fold_inner_oks(s, d)[i] == Ok::<T, E>(t),
                Ok(None) => fold_inner_oks(s, d)[i] == Err::<T, E>(d),
                Err(e) => fold_inner_oks(s, d)[i] == Err::<T, E>(e),
            },
{
}

/// Extension trait folding `Result<Option<T>, E>` into `Result<T, E>`: a
/// missing value becomes the failure a factory supplies.
pub trait ResultOptionExt<T, E, F: Supply<Out = E>>: Sized {
    /// What the fold gives when the factory would supply `d`.
    spec fn folded_spec(&self, d: E) -> Result<T, E>;

    /// Unwrap the inner option, replacing a missing value by the failure
    /// `f` supplies.
    fn inner_ok_or_else(self, f: F) -> (r: Result<T, E>)
        ensures
            r == self.folded_spec(f.supply_spec()),
    ;
}

impl<T, E, F: Supply<Out = E>> ResultOptionExt<T, E, F> for Result<Option<T>, E> {
    open spec fn folded_spec(&self, d: E) -> Result<T, E> {
        match *self {
            Ok(Some(t)) => Ok(t),
            Ok(None) => Err(d),
            Err(e) => Err(e),
        }
    }

    fn inner_ok_or_else(self, f: F) -> (r: Result<T, E>) {
        let mut factory = f;
        match self {
            Ok(Some(t)) => Ok(t),
            Ok(None) => Err(factory.supply()),
            Err(e) => Err(e),
        }
    }
}

/// Extension trait for sources of `Result<Option<T>, E>` elements: fold
/// each element as [`ResultOptionExt::inner_ok_or_else`] does.
pub trait IterInnerOkOrElse<T, E, F>: Source<Item = Result<Option<T>, E>> + Sized where
    F: Supply<Out = E>,
 {
    /// Unwrap each success's inner option, replacing a missing value by the
    /// failure `f` supplies; failures pass through untouched.
    fn map_inner_ok_or_else(self, f: F) -> (r: IterInnerOkOrElseImpl<Self, F>)
        ensures
            r.remaining() == fold_inner_oks(self.remaining(), f.supply_spec()),
    ;
}

impl<I, T, E, F> IterInnerOkOrElse<T, E, F> for I where
    I: Source<Item = Result<Option<T>, E>>,
    F: Supply<Out = E>,
 {
    fn map_inner_ok_or_else(self, f: F) -> (r: IterInnerOkOrElseImpl<Self, F>) {
        IterInnerOkOrElseImpl { iter: self, f }
    }
}

/// Adaptor that folds the inner option of each success, built by
/// [`IterInnerOkOrElse::map_inner_ok_or_else`].
#[must_use]
pub struct IterInnerOkOrElseImpl<I, F> {
    iter: I,
    f: F,
}

impl<I, T, E, F> Source for IterInnerOkOrElseImpl<I, F> where
    I: Source<Item = Result<Option<T>, E>>,
    F: Supply<Out = E>,
 {
    type Item = Result<T, E>;

    closed spec fn remaining(&self) -> Seq<Result<T, E>> {
        fold_inner_oks(self.iter.remaining(), self.f.supply_spec())
    }

    fn next(&mut self) -> (r: Option<Result<T, E>>) {
        match self.iter.next() {
            Some(Ok(Some(t))) => {
                proof {
                    assert(self.remaining() =~= old(self).remaining().drop_first());
                }
                Some(Ok(t))
            },
            Some(Ok(None)) => {
                let d = self.f.supply();
                proof {
                    assert(self.remaining() =~= old(self).remaining().drop_first());
                }
                Some(Err(d))
            },
            Some(Err(e)) => {
                proof {
                    assert(self.remaining() =~= old(self).remaining().drop_first());
                }
                Some(Err(e))
            },
            None => None,
        }
    }

    fn size_hint(&self) -> (r: (usize, Option<usize>)) {
        self.iter.size_hint()
    }
}

} // verus!
