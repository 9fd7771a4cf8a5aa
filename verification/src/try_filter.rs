//! Fallible filter adaptors: the predicate itself may fail, and its failure
//! replaces the element that was being tested.

use vstd::prelude::*;

use crate::callback::TryCheck;
use crate::sift::{
    lemma_sift_congruence, lemma_sift_emit, lemma_sift_is_filter_map, lemma_sift_len,
    lemma_sift_provenance, lemma_sift_skip, sift,
};
use crate::source::Source;

verus! {

/// What one upstream element contributes under a fallible success-filter
/// with verdict `v`: a success is kept on `Ok(true)`, dropped on
/// `Ok(false)`, replaced by the verdict's failure on `Err`; a failure
/// passes through.
pub open spec fn try_filter_oks_step<O, E>(v: spec_fn(O) -> Result<bool, E>) -> spec_fn(
    Result<O, E>,
) -> Option<Result<O, E>> {
    |r: Result<O, E>|
        match r {
            Ok(o) => match v(o) {
                Ok(true) => Some(Ok(o)),
                Ok(false) => None,
                Err(e) => Some(Err(e)),
            },
            Err(e) => Some(Err(e)),
        }
}

/// The sequence a fallible success-filter with verdict `v` produces from
/// upstream sequence `s`.
pub open spec fn try_filter_oks<O, E>(s: Seq<Result<O, E>>, v: spec_fn(O) -> Result<bool, E>) -> Seq<
    Result<O, E>,
> {
    sift(s, try_filter_oks_step(v))
}

/// What one upstream element contributes under a fallible failure-filter:
/// the mirror image of [`try_filter_oks_step`], with successes passing
/// through.
pub open spec fn try_filter_errs_step<O, E>(v: spec_fn(E) -> Result<bool, E>) -> spec_fn(
    Result<O, E>,
) -> Option<Result<O, E>> {
    |r: Result<O, E>|
        match r {
            Ok(o) => Some(Ok(o)),
            Err(e) => match v(e) {
                Ok(true) => Some(Err(e)),
                Ok(false) => None,
                Err(e2) => Some(Err(e2)),
            },
        }
}

/// The sequence a fallible failure-filter with verdict `v` produces from
/// upstream sequence `s`.
pub open spec fn try_filter_errs<O, E>(s: Seq<Result<O, E>>, v: spec_fn(E) -> Result<bool, E>) -> Seq<
    Result<O, E>,
> {
    sift(s, try_filter_errs_step(v))
}

/// A fallible success-filter never creates elements and keeps input order
/// (it is exactly `Seq::filter_map`); every success it emits is an upstream
/// success that passed its verdict, and every failure it emits is an
/// upstream failure or a verdict's own failure.
pub proof fn lemma_try_filter_oks_sound<O, E>(s: Seq<Result<O, E>>, v: spec_fn(O) -> Result<
    bool,
    E,
>)
    ensures
        try_filter_oks(s, v).len() <= s.len(),
        try_filter_oks(s, v) == s.filter_map(try_filter_oks_step(v)),
        forall|j: int|
            0 <= j < try_filter_oks(s, v).len() ==> (#[trigger] try_filter_oks(s, v)[j] matches Ok(
                o,
            ) ==> v(o) == Ok::<bool, E>(true) && s.contains(Ok(o))),
        forall|j: int|
            0 <= j < try_filter_oks(s, v).len() ==> (#[trigger] try_filter_oks(s, v)[j]
                matches Err(e) ==> s.contains(Err::<O, E>(e)) || exists|o: O|
                s.contains(Ok::<O, E>(o)) && v(o) == Err::<bool, E>(e)),
{
    let step = try_filter_oks_step::<O, E>(v);
    lemma_sift_len(s, step);
    lemma_sift_is_filter_map(s, step);
    lemma_sift_provenance(s, step);
    assert forall|j: int| 0 <= j < try_filter_oks(s, v).len() implies (
    #[trigger] try_filter_oks(s, v)[j] matches Ok(o) ==> v(o) == Ok::<bool, E>(true) && s.contains(
        Ok(o),
    )) by {
        let a = choose|a: Result<O, E>| s.contains(a) && step(a) == Some(sift(s, step)[j]);
        match (try_filter_oks(s, v)[j], a) {
            (Ok(o), Ok(o0)) => {
                assert(o0 == o);
                assert(v(o) == Ok::<bool, E>(true) && s.contains(Ok::<O, E>(o)));
            },
            _ => {},
        }
    }
    assert forall|j: int| 0 <= j < try_filter_oks(s, v).len() implies (
    #[trigger] try_filter_oks(s, v)[j] matches Err(e) ==> s.contains(Err::<O, E>(e)) || exists|
        o: O,
    |
        s.contains(Ok::<O, E>(o)) && v(o) == Err::<bool, E>(e)) by {
        let a = choose|a: Result<O, E>| s.contains(a) && step(a) == Some(sift(s, step)[j]);
        match (try_filter_oks(s, v)[j], a) {
            (Err(e), Ok(o)) => {
                assert(s.contains(Ok::<O, E>(o)) && v(o) == Err::<bool, E>(e));
            },
            (Err(e), Err(e0)) => {
                assert(e0 == e);
                assert(s.contains(Err::<O, E>(e)));
            },
            _ => {},
        }
    }
}

/// A fallible failure-filter never creates elements and keeps input order
/// (it is exactly `Seq::filter_map`); every failure it emits passed its
/// verdict or is a verdict's own failure, and every success it emits is an
/// upstream success.
pub proof fn lemma_try_filter_errs_sound<O, E>(s: Seq<Result<O, E>>, v: spec_fn(E) -> Result<
    bool,
    E,
>)
    ensures
        try_filter_errs(s, v).len() <= s.len(),
        try_filter_errs(s, v) == s.filter_map(try_filter_errs_step(v)),
        forall|j: int|
            0 <= j < try_filter_errs(s, v).len() ==> (#[trigger] try_filter_errs(s, v)[j]
                matches Err(e) ==> (v(e) == Ok::<bool, E>(true) || exists|e0: E|
                s.contains(Err::<O, E>(e0)) && v(e0) == Err::<bool, E>(e))),
        forall|j: int|
            0 <= j < try_filter_errs(s, v).len() ==> (#[trigger] try_filter_errs(s, v)[j]
                matches Ok(o) ==> s.contains(Ok(o))),
    decreases s.len(),
{
    lemma_sift_len(s, try_filter_errs_step(v));
    lemma_sift_is_filter_map(s, try_filter_errs_step(v));
    if s.len() > 0 {
        lemma_try_filter_errs_sound(s.drop_first(), v);
        let rest = s.drop_first();
        assert forall|i: int| 0 <= i < rest.len() implies s.contains(#[trigger] rest[i]) by {
            assert(s[i + 1] == rest[i]);
        }
        match s[0] {
            Ok(o) => {
                assert(s.contains(Ok(o))) by {
                    assert(s[0] == Ok::<O, E>(o));
                }
            },
            Err(e) => {
                assert(s.contains(Err::<O, E>(e))) by {
                    assert(s[0] == Err::<O, E>(e));
                }
            },
        }
    }
}

/// Extension trait for sources of `Result` elements: filter one branch with
/// a predicate that can itself fail.
pub trait TryFilter<O, E>: Source<Item = Result<O, E>> + Sized {
    /// Keep each success whose verdict is `Ok(true)`, drop it on
    /// `Ok(false)`, and emit the verdict's failure in its place on `Err`;
    /// failures pass through untouched.
    fn try_filter_ok<F: TryCheck<In = O, Err = E>>(self, f: F) -> (r: TryFilterOk<Self, F>)
        ensures
            r.remaining() == try_filter_oks(self.remaining(), |o: O| f.verdict_spec(o)),
    ;

    /// Keep each failure whose verdict is `Ok(true)`, drop it on
    /// `Ok(false)`, and emit the verdict's failure in its place on `Err`;
    /// successes pass through untouched.
    fn try_filter_err<F: TryCheck<In = E, Err = E>>(self, f: F) -> (r: TryFilterErr<Self, F>)
        ensures
            r.remaining() == try_filter_errs(self.remaining(), |e: E| f.verdict_spec(e)),
    ;
}

impl<I, O, E> TryFilter<O, E> for I where I: Source<Item = Result<O, E>> {
    fn try_filter_ok<F: TryCheck<In = O, Err = E>>(self, f: F) -> (r: TryFilterOk<Self, F>) {
        TryFilterOk { iter: self, f }
    }

    fn try_filter_err<F: TryCheck<In = E, Err = E>>(self, f: F) -> (r: TryFilterErr<Self, F>) {
        TryFilterErr { iter: self, f }
    }
}

/// Adaptor that filters successes with a fallible predicate, built by
/// [`TryFilter::try_filter_ok`].
#[must_use]
pub struct TryFilterOk<I, F> {
    iter: I,
    f: F,
}

impl<I, O, E, F> Source for TryFilterOk<I, F> where
    I: Source<Item = Result<O, E>>,
    F: TryCheck<In = O, Err = E>,
 {
    type Item = Result<O, E>;

    closed spec fn remaining(&self) -> Seq<Result<O, E>> {
        try_filter_oks(self.iter.remaining(), |o: O| self.f.verdict_spec(o))
    }

    #[verifier::loop_isolation(false)]
    fn next(&mut self) -> (r: Option<Result<O, E>>) {
        loop
            invariant
                try_filter_oks(self.iter.remaining(), |o: O| self.f.verdict_spec(o)) == old(
                    self,
                ).remaining(),
            decreases self.iter.remaining().len(),
        {
            let ghost pre = self.iter.remaining();
            let ghost v0 = |o: O| self.f.verdict_spec(o);
            match self.iter.next() {
                Some(Ok(x)) => {
                    let verdict = self.f.verdict(&x);
                    proof {
                        let v1 = |o: O| self.f.verdict_spec(o);
                        lemma_sift_congruence(
                            self.iter.remaining(),
                            try_filter_oks_step(v1),
                            try_filter_oks_step(v0),
                        );
                    }
                    match verdict {
                        Ok(true) => {
                            proof {
                                lemma_sift_emit(pre, try_filter_oks_step(v0), Ok(x));
                            }
                            return Some(Ok(x));
                        },
                        Ok(false) => {
                            proof {
                                lemma_sift_skip(pre, try_filter_oks_step(v0));
                            }
                        },
                        Err(e) => {
                            proof {
                                lemma_sift_emit(pre, try_filter_oks_step(v0), Err(e));
                            }
                            return Some(Err(e));
                        },
                    }
                },
                Some(Err(e)) => {
                    proof {
                        lemma_sift_emit(pre, try_filter_oks_step(v0), Err(e));
                    }
                    return Some(Err(e));
                },
                None => {
                    return None;
                },
            }
        }
    }

    fn size_hint(&self) -> (r: (usize, Option<usize>)) {
        let h = self.iter.size_hint();
        proof {
            lemma_sift_len(
                self.iter.remaining(),
                try_filter_oks_step(|o: O| self.f.verdict_spec(o)),
            );
        }
        (0, h.1)
    }
}

/// Adaptor that filters failures with a fallible predicate, built by
/// [`TryFilter::try_filter_err`].
#[must_use]
pub struct TryFilterErr<I, F> {
    iter: I,
    f: F,
}

impl<I, O, E, F> Source for TryFilterErr<I, F> where
    I: Source<Item = Result<O, E>>,
    F: TryCheck<In = E, Err = E>,
 {
    type Item = Result<O, E>;

    closed spec fn remaining(&self) -> Seq<Result<O, E>> {
        try_filter_errs(self.iter.remaining(), |e: E| self.f.verdict_spec(e))
    }

    #[verifier::loop_isolation(false)]
    fn next(&mut self) -> (r: Option<Result<O, E>>) {
        loop
            invariant
                try_filter_errs(self.iter.remaining(), |e: E| self.f.verdict_spec(e)) == old(
                    self,
                ).remaining(),
            decreases self.iter.remaining().len(),
        {
            let ghost pre = self.iter.remaining();
            let ghost v0 = |e: E| self.f.verdict_spec(e);
            match self.iter.next() {
                Some(Err(x)) => {
                    let verdict = self.f.verdict(&x);
                    proof {
                        let v1 = |e: E| self.f.verdict_spec(e);
                        lemma_sift_congruence(
                            self.iter.remaining(),
                            try_filter_errs_step(v1),
                            try_filter_errs_step(v0),
                        );
                    }
                    match verdict {
                        Ok(true) => {
                            proof {
                                lemma_sift_emit(pre, try_filter_errs_step(v0), Err(x));
                            }
                            return Some(Err(x));
                        },
                        Ok(false) => {
                            proof {
                                lemma_sift_skip(pre, try_filter_errs_step(v0));
                            }
                        },
                        Err(e) => {
                            proof {
                                lemma_sift_emit(pre, try_filter_errs_step(v0), Err(e));
                            }
                            return Some(Err(e));
                        },
                    }
                },
                Some(Ok(o)) => {
                    proof {
                        lemma_sift_emit(pre, try_filter_errs_step(v0), Ok(o));
                    }
                    return Some(Ok(o));
                },
                None => {
                    return None;
                },
            }
        }
    }

    fn size_hint(&self) -> (r: (usize, Option<usize>)) {
        let h = self.iter.size_hint();
        proof {
            lemma_sift_len(
                self.iter.remaining(),
                try_filter_errs_step(|e: E| self.f.verdict_spec(e)),
            );
        }
        (0, h.1)
    }
}

} // verus!
