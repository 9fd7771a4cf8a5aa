//! Single-branch filter-map adaptors: transform-or-drop elements of one
//! branch, pass the other branch through.

use vstd::prelude::*;

use crate::callback::Apply;
use crate::sift::{
    lemma_sift_congruence, lemma_sift_emit, lemma_sift_is_filter_map, lemma_sift_len,
    lemma_sift_provenance, lemma_sift_skip, sift,
};
use crate::source::Source;

verus! {

/// What one upstream element contributes under a success filter-map with
/// callback `m`: a success is rewritten to `v` when `m` answers `Some(v)`
/// and dropped when it answers `None`; a failure passes through.
pub open spec fn filter_map_oks_step<O, E, O2>(m: spec_fn(O) -> Option<O2>) -> spec_fn(
    Result<O, E>,
) -> Option<Result<O2, E>> {
    |r: Result<O, E>|
        match r {
            Ok(o) => match m(o) {
                Some(v) => Some(Ok(v)),
                None => None,
            },
            Err(e) => Some(Err(e)),
        }
}

/// The sequence a success filter-map with callback `m` produces from
/// upstream sequence `s`.
pub open spec fn filter_map_oks<O, E, O2>(s: Seq<Result<O, E>>, m: spec_fn(O) -> Option<O2>) -> Seq<
    Result<O2, E>,
> {
    sift(s, filter_map_oks_step(m))
}

/// What one upstream element contributes under a failure filter-map: the
/// mirror image of [`filter_map_oks_step`].
pub open spec fn filter_map_errs_step<O, E, E2>(m: spec_fn(E) -> Option<E2>) -> spec_fn(
    Result<O, E>,
) -> Option<Result<O, E2>> {
    |r: Result<O, E>|
        match r {
            Ok(o) => Some(Ok(o)),
            Err(e) => match m(e) {
                Some(v) => Some(Err(v)),
                None => None,
            },
        }
}

/// The sequence a failure filter-map with callback `m` produces from
/// upstream sequence `s`.
pub open spec fn filter_map_errs<O, E, E2>(s: Seq<Result<O, E>>, m: spec_fn(E) -> Option<E2>) -> Seq<
    Result<O, E2>,
> {
    sift(s, filter_map_errs_step(m))
}

/// A success filter-map never creates elements, keeps input order (it is
/// exactly `Seq::filter_map`), emits only successes the callback produced
/// from an upstream success, and hands failures through untouched.
pub proof fn lemma_filter_map_oks_sound<O, E, O2>(
    s: Seq<Result<O, E>>,
    m: spec_fn(O) -> Option<O2>,
)
    ensures
        filter_map_oks(s, m).len() <= s.len(),
        filter_map_oks(s, m) == s.filter_map(filter_map_oks_step(m)),
        forall|j: int|
            0 <= j < filter_map_oks(s, m).len() ==> (#[trigger] filter_map_oks(s, m)[j] matches Ok(
                v,
            ) ==> exists|o: O| s.contains(Ok(o)) && m(o) == Some(v)),
        forall|j: int|
            0 <= j < filter_map_oks(s, m).len() ==> (#[trigger] filter_map_oks(s, m)[j]
                matches Err(e) ==> s.contains(Err(e))),
{
    let step = filter_map_oks_step::<O, E, O2>(m);
    lemma_sift_len(s, step);
    lemma_sift_is_filter_map(s, step);
    lemma_sift_provenance(s, step);
    assert forall|j: int| 0 <= j < filter_map_oks(s, m).len() implies (#[trigger] filter_map_oks(
        s,
        m,
    )[j] matches Ok(v) ==> exists|o: O| s.contains(Ok(o)) && m(o) == Some(v)) by {
        let a = choose|a: Result<O, E>| s.contains(a) && step(a) == Some(sift(s, step)[j]);
        match (filter_map_oks(s, m)[j], a) {
            (Ok(v), Ok(o)) => {
                assert(s.contains(Ok(o)) && m(o) == Some(v));
            },
            _ => {},
        }
    }
    assert forall|j: int| 0 <= j < filter_map_oks(s, m).len() implies (#[trigger] filter_map_oks(
        s,
        m,
    )[j] matches Err(e) ==> s.contains(Err(e))) by {
        let a = choose|a: Result<O, E>| s.contains(a) && step(a) == Some(sift(s, step)[j]);
        match (filter_map_oks(s, m)[j], a) {
            (Err(e), Err(e0)) => {
                assert(e0 == e);
                assert(s.contains(Err(e)));
            },
            _ => {},
        }
    }
}

/// A failure filter-map never creates elements, keeps input order (it is
/// exactly `Seq::filter_map`), emits only failures the callback produced
/// from an upstream failure, and hands successes through untouched.
pub proof fn lemma_filter_map_errs_sound<O, E, E2>(
    s: Seq<Result<O, E>>,
    m: spec_fn(E) -> Option<E2>,
)
    ensures
        filter_map_errs(s, m).len() <= s.len(),
        filter_map_errs(s, m) == s.filter_map(filter_map_errs_step(m)),
        forall|j: int|
            0 <= j < filter_map_errs(s, m).len() ==> (#[trigger] filter_map_errs(s, m)[j]
                matches Err(v) ==> exists|e: E| s.contains(Err(e)) && m(e) == Some(v)),
        forall|j: int|
            0 <= j < filter_map_errs(s, m).len() ==> (#[trigger] filter_map_errs(s, m)[j]
                matches Ok(o) ==> s.contains(Ok(o))),
{
    let step = filter_map_errs_step::<O, E, E2>(m);
    lemma_sift_len(s, step);
    lemma_sift_is_filter_map(s, step);
    lemma_sift_provenance(s, step);
    assert forall|j: int| 0 <= j < filter_map_errs(s, m).len() implies (#[trigger] filter_map_errs(
        s,
        m,
    )[j] matches Err(v) ==> exists|e: E| s.contains(Err(e)) && m(e) == Some(v)) by {
        let a = choose|a: Result<O, E>| s.contains(a) && step(a) == Some(sift(s, step)[j]);
        match (filter_map_errs(s, m)[j], a) {
            (Err(v), Err(e)) => {
                assert(s.contains(Err(e)) && m(e) == Some(v));
            },
            _ => {},
        }
    }
    assert forall|j: int| 0 <= j < filter_map_errs(s, m).len() implies (#[trigger] filter_map_errs(
        s,
        m,
    )[j] matches Ok(o) ==> s.contains(Ok(o))) by {
        let a = choose|a: Result<O, E>| s.contains(a) && step(a) == Some(sift(s, step)[j]);
        match (filter_map_errs(s, m)[j], a) {
            (Ok(o), Ok(o0)) => {
                assert(o0 == o);
                assert(s.contains(Ok(o)));
            },
            _ => {},
        }
    }
}

/// Extension trait for sources of `Result` elements: transform-or-drop one
/// branch while leaving the other as is.
pub trait FilterMap<O, E>: Source<Item = Result<O, E>> + Sized {
    /// Rewrite each success to `f`'s answer when it is `Some`, drop it when
    /// the answer is `None`; failures pass through untouched.
    fn filter_map_ok<O2, F: Apply<In = O, Out = Option<O2>>>(self, f: F) -> (r: FilterMapOk<
        Self,
        F,
    >)
        ensures
            r.remaining() == filter_map_oks(self.remaining(), |o: O| f.apply_spec(o)),
    ;

    /// Rewrite each failure to `f`'s answer when it is `Some`, drop it when
    /// the answer is `None`; successes pass through untouched.
    fn filter_map_err<E2, F: Apply<In = E, Out = Option<E2>>>(self, f: F) -> (r: FilterMapErr<
        Self,
        F,
    >)
        ensures
            r.remaining() == filter_map_errs(self.remaining(), |e: E| f.apply_spec(e)),
    ;
}

impl<I, O, E> FilterMap<O, E> for I where I: Source<Item = Result<O, E>> {
    fn filter_map_ok<O2, F: Apply<In = O, Out = Option<O2>>>(self, f: F) -> (r: FilterMapOk<
        Self,
        F,
    >) {
        FilterMapOk { iter: self, f }
    }

    fn filter_map_err<E2, F: Apply<In = E, Out = Option<E2>>>(self, f: F) -> (r: FilterMapErr<
        Self,
        F,
    >) {
        FilterMapErr { iter: self, f }
    }
}

/// Adaptor that transforms-or-drops successes, built by
/// [`FilterMap::filter_map_ok`].
///
/// Because it can discard elements, its size hint keeps only the upstream
/// upper bound and reports a lower bound of zero.
#[must_use]
pub struct FilterMapOk<I, F> {
    iter: I,
    f: F,
}

impl<I, O, E, O2, F> Source for FilterMapOk<I, F> where
    I: Source<Item = Result<O, E>>,
    F: Apply<In = O, Out = Option<O2>>,
 {
    type Item = Result<O2, E>;

    closed spec fn remaining(&self) -> Seq<Result<O2, E>> {
        filter_map_oks(self.iter.remaining(), |o: O| self.f.apply_spec(o))
    }

    #[verifier::loop_isolation(false)]
    fn next(&mut self) -> (r: Option<Result<O2, E>>) {
        loop
            invariant
                filter_map_oks(self.iter.remaining(), |o: O| self.f.apply_spec(o)) == old(
                    self,
                ).remaining(),
            decreases self.iter.remaining().len(),
        {
            let ghost pre = self.iter.remaining();
            let ghost m0 = |o: O| self.f.apply_spec(o);
            match self.iter.next() {
                Some(Ok(x)) => {
                    let mapped = self.f.apply(x);
                    proof {
                        let m1 = |o: O| self.f.apply_spec(o);
                        lemma_sift_congruence(
                            self.iter.remaining(),
                            filter_map_oks_step(m1),
                            filter_map_oks_step(m0),
                        );
                    }
                    match mapped {
                        Some(v) => {
                            proof {
                                lemma_sift_emit(pre, filter_map_oks_step(m0), Ok(v));
                            }
                            return Some(Ok(v));
                        },
                        None => {
                            proof {
                                lemma_sift_skip(pre, filter_map_oks_step(m0));
                            }
                        },
                    }
                },
                Some(Err(e)) => {
                    proof {
                        lemma_sift_emit(pre, filter_map_oks_step(m0), Err(e));
                    }
                    return Some(Err(e));
                },
                None => {
                    return None;
                },
            }
        }
    }

    fn size_hint(&self) -> (r: (usize, Option<usize>)) {
        let h = self.iter.size_hint();
        proof {
            lemma_sift_len(
                self.iter.remaining(),
                filter_map_oks_step(|o: O| self.f.apply_spec(o)),
            );
        }
        (0, h.1)
    }
}

/// Adaptor that transforms-or-drops failures, built by
/// [`FilterMap::filter_map_err`].
///
/// Because it can discard elements, its size hint keeps only the upstream
/// upper bound and reports a lower bound of zero.
#[must_use]
pub struct FilterMapErr<I, F> {
    iter: I,
    f: F,
}

impl<I, O, E, E2, F> Source for FilterMapErr<I, F> where
    I: Source<Item = Result<O, E>>,
    F: Apply<In = E, Out = Option<E2>>,
 {
    type Item = Result<O, E2>;

    closed spec fn remaining(&self) -> Seq<Result<O, E2>> {
        filter_map_errs(self.iter.remaining(), |e: E| self.f.apply_spec(e))
    }

    #[verifier::loop_isolation(false)]
    fn next(&mut self) -> (r: Option<Result<O, E2>>) {
        loop
            invariant
                filter_map_errs(self.iter.remaining(), |e: E| self.f.apply_spec(e)) == old(
                    self,
                ).remaining(),
            decreases self.iter.remaining().len(),
        {
            let ghost pre = self.iter.remaining();
            let ghost m0 = |e: E| self.f.apply_spec(e);
            match self.iter.next() {
                Some(Err(x)) => {
                    let mapped = self.f.apply(x);
                    proof {
                        let m1 = |e: E| self.f.apply_spec(e);
                        lemma_sift_congruence(
                            self.iter.remaining(),
                            filter_map_errs_step(m1),
                            filter_map_errs_step(m0),
                        );
                    }
                    match mapped {
                        Some(v) => {
                            proof {
                                lemma_sift_emit(pre, filter_map_errs_step(m0), Err(v));
                            }
                            return Some(Err(v));
                        },
                        None => {
                            proof {
                                lemma_sift_skip(pre, filter_map_errs_step(m0));
                            }
                        },
                    }
                },
                Some(Ok(o)) => {
                    proof {
                        lemma_sift_emit(pre, filter_map_errs_step(m0), Ok(o));
                    }
                    return Some(Ok(o));
                },
                None => {
                    return None;
                },
            }
        }
    }

    fn size_hint(&self) -> (r: (usize, Option<usize>)) {
        let h = self.iter.size_hint();
        proof {
            lemma_sift_len(
                self.iter.remaining(),
                filter_map_errs_step(|e: E| self.f.apply_spec(e)),
            );
        }
        (0, h.1)
    }
}

} // verus!
