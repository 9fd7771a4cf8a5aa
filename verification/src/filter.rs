//! Single-branch filter adaptors: keep or drop elements of one branch, pass
//! the other branch through.

use vstd::prelude::*;

use crate::callback::{Check, TryCheck};
use crate::sift::{
    lemma_sift_congruence, lemma_sift_emit, lemma_sift_is_filter, lemma_sift_len, lemma_sift_skip,
    sift,
};
use crate::source::Source;
use crate::try_filter::{try_filter_oks, try_filter_oks_step};

verus! {

/// What one upstream element contributes under a success-filter with
/// predicate `p`: a success is kept only if `p` holds of it; a failure
/// passes through.
pub open spec fn filter_oks_step<O, E>(p: spec_fn(O) -> bool) -> spec_fn(Result<O, E>) -> Option<
    Result<O, E>,
> {
    |r: Result<O, E>|
        match r {
            Ok(o) => if p(o) {
                Some(Ok(o))
            } else {
                None
            },
            Err(e) => Some(Err(e)),
        }
}

/// The sequence a success-filter with predicate `p` produces from upstream
/// sequence `s`.
pub open spec fn filter_oks<O, E>(s: Seq<Result<O, E>>, p: spec_fn(O) -> bool) -> Seq<
    Result<O, E>,
> {
    sift(s, filter_oks_step(p))
}

/// What one upstream element contributes under a failure-filter: the mirror
/// image of [`filter_oks_step`].
pub open spec fn filter_errs_step<O, E>(p: spec_fn(E) -> bool) -> spec_fn(Result<O, E>) -> Option<
    Result<O, E>,
> {
    |r: Result<O, E>|
        match r {
            Ok(o) => Some(Ok(o)),
            Err(e) => if p(e) {
                Some(Err(e))
            } else {
                None
            },
        }
}

/// The sequence a failure-filter with predicate `p` produces from upstream
/// sequence `s`.
pub open spec fn filter_errs<O, E>(s: Seq<Result<O, E>>, p: spec_fn(E) -> bool) -> Seq<
    Result<O, E>,
> {
    sift(s, filter_errs_step(p))
}

/// Filtering successes is exactly `Seq::filter`: the output is the
/// subsequence of survivors in input order, and every success it holds
/// satisfies the predicate.
pub proof fn lemma_filter_oks_sound<O, E>(s: Seq<Result<O, E>>, p: spec_fn(O) -> bool)
    ensures
        filter_oks(s, p) == s.filter(
            |r: Result<O, E>|
                match r {
                    Ok(o) => p(o),
                    Err(_) => true,
                },
        ),
        forall|j: int|
            0 <= j < filter_oks(s, p).len() ==> (#[trigger] filter_oks(s, p)[j] matches Ok(o)
                ==> p(o)),
{
    let keep = |r: Result<O, E>|
        match r {
            Ok(o) => p(o),
            Err(_) => true,
        };
    lemma_sift_is_filter(s, filter_oks_step(p), keep);
    assert forall|j: int| 0 <= j < filter_oks(s, p).len() implies (#[trigger] filter_oks(s, p)[j]
        matches Ok(o) ==> p(o)) by {
        Seq::lemma_filter_pred(s, keep, j);
    }
}

/// Filtering failures is exactly `Seq::filter`: the output is the
/// subsequence of survivors in input order, and every failure it holds
/// satisfies the predicate.
pub proof fn lemma_filter_errs_sound<O, E>(s: Seq<Result<O, E>>, p: spec_fn(E) -> bool)
    ensures
        filter_errs(s, p) == s.filter(
            |r: Result<O, E>|
                match r {
                    Ok(_) => true,
                    Err(e) => p(e),
                },
        ),
        forall|j: int|
            0 <= j < filter_errs(s, p).len() ==> (#[trigger] filter_errs(s, p)[j] matches Err(e)
                ==> p(e)),
{
    let keep = |r: Result<O, E>|
        match r {
            Ok(_) => true,
            Err(e) => p(e),
        };
    lemma_sift_is_filter(s, filter_errs_step(p), keep);
    assert forall|j: int| 0 <= j < filter_errs(s, p).len() implies (#[trigger] filter_errs(s, p)[j]
        matches Err(e) ==> p(e)) by {
        Seq::lemma_filter_pred(s, keep, j);
    }
}

/// Extension trait for sources of `Result` elements: filter one branch while
/// leaving the other as is.
pub trait Filter<O, E>: Source<Item = Result<O, E>> + Sized {
    /// Keep only the successes that satisfy `f`; failures pass through
    /// untouched.
    fn filter_ok<F: Check<In = O>>(self, f: F) -> (r: FilterOk<Self, F>)
        ensures
            r.remaining() == filter_oks(self.remaining(), |o: O| f.check_spec(o)),
    ;

    /// Keep only the failures that satisfy `f`; successes pass through
    /// untouched.
    fn filter_err<F: Check<In = E>>(self, f: F) -> (r: FilterErr<Self, F>)
        ensures
            r.remaining() == filter_errs(self.remaining(), |e: E| f.check_spec(e)),
    ;

    /// Filter the successes with a predicate that can itself fail, leaving
    /// failures as they are: kept on `Ok(true)`, dropped on `Ok(false)`,
    /// replaced by the predicate's failure on `Err`.
    fn filter_ok_and_then<F: TryCheck<In = O, Err = E>>(self, f: F) -> (r: FilterOkAndThenImpl<
        Self,
        F,
    >)
        ensures
            r.remaining() == try_filter_oks(self.remaining(), |o: O| f.verdict_spec(o)),
    ;
}

impl<I, O, E> Filter<O, E> for I where I: Source<Item = Result<O, E>> {
    fn filter_ok<F: Check<In = O>>(self, f: F) -> (r: FilterOk<Self, F>) {
        FilterOk { iter: self, f }
    }

    fn filter_err<F: Check<In = E>>(self, f: F) -> (r: FilterErr<Self, F>) {
        FilterErr { iter: self, f }
    }

    fn filter_ok_and_then<F: TryCheck<In = O, Err = E>>(self, f: F) -> (r: FilterOkAndThenImpl<
        Self,
        F,
    >) {
        FilterOkAndThenImpl { iter: self, f }
    }
}

/// Adaptor that filters successes, built by [`Filter::filter_ok`].
#[must_use]
pub struct FilterOk<I, F> {
    iter: I,
    f: F,
}

impl<I, O, E, F> Source for FilterOk<I, F> where
    I: Source<Item = Result<O, E>>,
    F: Check<In = O>,
 {
    type Item = Result<O, E>;

    closed spec fn remaining(&self) -> Seq<Result<O, E>> {
        filter_oks(self.iter.remaining(), |o: O| self.f.check_spec(o))
    }

    #[verifier::loop_isolation(false)]
    fn next(&mut self) -> (r: Option<Result<O, E>>) {
        loop
            invariant
                filter_oks(self.iter.remaining(), |o: O| self.f.check_spec(o)) == old(
                    self,
                ).remaining(),
            decreases self.iter.remaining().len(),
        {
            let ghost pre = self.iter.remaining();
            let ghost p0 = |o: O| self.f.check_spec(o);
            match self.iter.next() {
                Some(Ok(x)) => {
                    let keep = self.f.check(&x);
                    proof {
                        let p1 = |o: O| self.f.check_spec(o);
                        lemma_sift_congruence(
                            self.iter.remaining(),
                            filter_oks_step(p1),
                            filter_oks_step(p0),
                        );
                    }
                    if keep {
                        proof {
                            lemma_sift_emit(pre, filter_oks_step(p0), Ok(x));
                        }
                        return Some(Ok(x));
                    }
                    proof {
                        lemma_sift_skip(pre, filter_oks_step(p0));
                    }
                },
                Some(Err(e)) => {
                    proof {
                        lemma_sift_emit(pre, filter_oks_step(p0), Err(e));
                    }
                    return Some(Err(e));
                },
                None => {
                    return None;
                },
            }
        }
    }

    fn size_hint(&self) -> (r: (usize, Option<usize>)) {
        let h = self.iter.size_hint();
        proof {
            lemma_sift_len(self.iter.remaining(), filter_oks_step(|o: O| self.f.check_spec(o)));
        }
        (0, h.1)
    }
}

/// Adaptor that filters failures, built by [`Filter::filter_err`].
#[must_use]
pub struct FilterErr<I, F> {
    iter: I,
    f: F,
}

impl<I, O, E, F> Source for FilterErr<I, F> where
    I: Source<Item = Result<O, E>>,
    F: Check<In = E>,
 {
    type Item = Result<O, E>;

    closed spec fn remaining(&self) -> Seq<Result<O, E>> {
        filter_errs(self.iter.remaining(), |e: E| self.f.check_spec(e))
    }

    #[verifier::loop_isolation(false)]
    fn next(&mut self) -> (r: Option<Result<O, E>>) {
        loop
            invariant
                filter_errs(self.iter.remaining(), |e: E| self.f.check_spec(e)) == old(
                    self,
                ).remaining(),
            decreases self.iter.remaining().len(),
        {
            let ghost pre = self.iter.remaining();
            let ghost p0 = |e: E| self.f.check_spec(e);
            match self.iter.next() {
                Some(Err(x)) => {
                    let keep = self.f.check(&x);
                    proof {
                        let p1 = |e: E| self.f.check_spec(e);
                        lemma_sift_congruence(
                            self.iter.remaining(),
                            filter_errs_step(p1),
                            filter_errs_step(p0),
                        );
                    }
                    if keep {
                        proof {
                            lemma_sift_emit(pre, filter_errs_step(p0), Err(x));
                        }
                        return Some(Err(x));
                    }
                    proof {
                        lemma_sift_skip(pre, filter_errs_step(p0));
                    }
                },
                Some(Ok(o)) => {
                    proof {
                        lemma_sift_emit(pre, filter_errs_step(p0), Ok(o));
                    }
                    return Some(Ok(o));
                },
                None => {
                    return None;
                },
            }
        }
    }

    fn size_hint(&self) -> (r: (usize, Option<usize>)) {
        let h = self.iter.size_hint();
        proof {
            lemma_sift_len(self.iter.remaining(), filter_errs_step(|e: E| self.f.check_spec(e)));
        }
        (0, h.1)
    }
}

/// Adaptor that filters successes with a fallible predicate, built by
/// [`Filter::filter_ok_and_then`].
#[must_use]
pub struct FilterOkAndThenImpl<I, F> {
    iter: I,
    f: F,
}

impl<I, O, E, F> Source for FilterOkAndThenImpl<I, F> where
    I: Source<Item = Result<O, E>>,
    F: TryCheck<In = O, Err = E>,
 {
    type Item = Result<O, E>;

    closed spec fn remaining(&self) -> Seq<Result<O, E>> {
        try_filter_oks(self.iter.remaining(), |o: O| self.f.verdict_spec(o))
    }

    #[verifier::loop_isolation(false)]
    fn next(&mut self) -> (r: Option<Result<O, E>>) {
        loop
            invariant
                try_filter_oks(self.iter.remaining(), |o: O| self.f.verdict_spec(o)) == old(
                    self,
                ).remaining(),
            decreases self.iter.remaining().len(),
        {
            let ghost pre = self.iter.remaining();
            let ghost v0 = |o: O| self.f.verdict_spec(o);
            match self.iter.next() {
                Some(Ok(x)) => {
                    let verdict = self.f.verdict(&x);
                    proof {
                        let v1 = |o: O| self.f.verdict_spec(o);
                        lemma_sift_congruence(
                            self.iter.remaining(),
                            try_filter_oks_step(v1),
                            try_filter_oks_step(v0),
                        );
                    }
                    match verdict {
                        Ok(true) => {
                            proof {
                                lemma_sift_emit(pre, try_filter_oks_step(v0), Ok(x));
                            }
                            return Some(Ok(x));
                        },
                        Ok(false) => {
                            proof {
                                lemma_sift_skip(pre, try_filter_oks_step(v0));
                            }
                        },
                        Err(e) => {
                            proof {
                                lemma_sift_emit(pre, try_filter_oks_step(v0), Err(e));
                            }
                            return Some(Err(e));
                        },
                    }
                },
                Some(Err(e)) => {
                    proof {
                        lemma_sift_emit(pre, try_filter_oks_step(v0), Err(e));
                    }
                    return Some(Err(e));
                },
                None => {
                    return None;
                },
            }
        }
    }

    fn size_hint(&self) -> (r: (usize, Option<usize>)) {
        let h = self.iter.size_hint();
        proof {
            lemma_sift_len(
                self.iter.remaining(),
                try_filter_oks_step(|o: O| self.f.verdict_spec(o)),
            );
        }
        (0, h.1)
    }
}

} // verus!
