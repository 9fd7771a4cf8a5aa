//! Fallible filter-map adaptors: the callback may rewrite an element of the
//! targeted branch into either branch, or drop it.

use vstd::prelude::*;

use crate::callback::Apply;
use crate::sift::{
    lemma_sift_congruence, lemma_sift_emit, lemma_sift_is_filter_map, lemma_sift_len,
    lemma_sift_provenance, lemma_sift_skip, sift,
};
use crate::source::Source;

verus! {

/// What one upstream element contributes under a fallible success
/// filter-map with callback `c`: a success becomes whatever outcome `c`
/// answers (or is dropped on `None`); a failure passes through.
pub open spec fn try_filter_map_oks_step<O, E, O2>(
    c: spec_fn(O) -> Option<Result<O2, E>>,
) -> spec_fn(Result<O, E>) -> Option<Result<O2, E>> {
    |r: Result<O, E>|
        match r {
            Ok(o) => c(o),
            Err(e) => Some(Err(e)),
        }
}

/// The sequence a fallible success filter-map with callback `c` produces
/// from upstream sequence `s`.
pub open spec fn try_filter_map_oks<O, E, O2>(
    s: Seq<Result<O, E>>,
    c: spec_fn(O) -> Option<Result<O2, E>>,
) -> Seq<Result<O2, E>> {
    sift(s, try_filter_map_oks_step(c))
}

/// What one upstream element contributes under a fallible failure
/// filter-map: the mirror image of [`try_filter_map_oks_step`].
pub open spec fn try_filter_map_errs_step<O, E>(
    c: spec_fn(E) -> Option<Result<O, E>>,
) -> spec_fn(Result<O, E>) -> Option<Result<O, E>> {
    |r: Result<O, E>|
        match r {
            Ok(o) => Some(Ok(o)),
            Err(e) => c(e),
        }
}

/// The sequence a fallible failure filter-map with callback `c` produces
/// from upstream sequence `s`.
pub open spec fn try_filter_map_errs<O, E>(
    s: Seq<Result<O, E>>,
    c: spec_fn(E) -> Option<Result<O, E>>,
) -> Seq<Result<O, E>> {
    sift(s, try_filter_map_errs_step(c))
}

/// A fallible success filter-map never creates elements, keeps input order
/// (it is exactly `Seq::filter_map`), and every element it emits is either
/// the callback's answer on an upstream success or an upstream failure
/// passed through.
pub proof fn lemma_try_filter_map_oks_sound<O, E, O2>(
    s: Seq<Result<O, E>>,
    c: spec_fn(O) -> Option<Result<O2, E>>,
)
    ensures
        try_filter_map_oks(s, c).len() <= s.len(),
        try_filter_map_oks(s, c) == s.filter_map(try_filter_map_oks_step(c)),
        forall|j: int|
            0 <= j < try_filter_map_oks(s, c).len() ==> (#[trigger] try_filter_map_oks(s, c)[j]
                matches Ok(v) ==> exists|o: O| s.contains(Ok(o)) && c(o) == Some(Ok::<O2, E>(v))),
        forall|j: int|
            0 <= j < try_filter_map_oks(s, c).len() ==> (#[trigger] try_filter_map_oks(s, c)[j]
                matches Err(e) ==> s.contains(Err(e)) || exists|o: O|
                s.contains(Ok(o)) && c(o) == Some(Err::<O2, E>(e))),
{
    let step = try_filter_map_oks_step::<O, E, O2>(c);
    lemma_sift_len(s, step);
    lemma_sift_is_filter_map(s, step);
    lemma_sift_provenance(s, step);
    assert forall|j: int| 0 <= j < try_filter_map_oks(s, c).len() implies (
    #[trigger] try_filter_map_oks(s, c)[j] matches Ok(v) ==> exists|o: O|
        s.contains(Ok(o)) && c(o) == Some(Ok::<O2, E>(v))) by {
        let a = choose|a: Result<O, E>| s.contains(a) && step(a) == Some(sift(s, step)[j]);
        match (try_filter_map_oks(s, c)[j], a) {
            (Ok(v), Ok(o)) => {
                assert(s.contains(Ok(o)) && c(o) == Some(Ok::<O2, E>(v)));
            },
            _ => {},
        }
    }
    assert forall|j: int| 0 <= j < try_filter_map_oks(s, c).len() implies (
    #[trigger] try_filter_map_oks(s, c)[j] matches Err(e) ==> s.contains(Err(e)) || exists|o: O|
        s.contains(Ok(o)) && c(o) == Some(Err::<O2, E>(e))) by {
        let a = choose|a: Result<O, E>| s.contains(a) && step(a) == Some(sift(s, step)[j]);
        match (try_filter_map_oks(s, c)[j], a) {
            (Err(e), Ok(o)) => {
                assert(s.contains(Ok(o)) && c(o) == Some(Err::<O2, E>(e)));
            },
            (Err(e), Err(e0)) => {
                assert(e0 == e);
                assert(s.contains(Err(e)));
            },
            _ => {},
        }
    }
}

/// A fallible failure filter-map never creates elements, keeps input order
/// (it is exactly `Seq::filter_map`), and every element it emits is either
/// the callback's answer on an upstream failure or an upstream success
/// passed through.
pub proof fn lemma_try_filter_map_errs_sound<O, E>(
    s: Seq<Result<O, E>>,
    c: spec_fn(E) -> Option<Result<O, E>>,
)
    ensures
        try_filter_map_errs(s, c).len() <= s.len(),
        try_filter_map_errs(s, c) == s.filter_map(try_filter_map_errs_step(c)),
        forall|j: int|
            0 <= j < try_filter_map_errs(s, c).len() ==> (#[trigger] try_filter_map_errs(s, c)[j]
                matches Err(v) ==> exists|e: E|
                s.contains(Err::<O, E>(e)) && c(e) == Some(Err::<O, E>(v))),
        forall|j: int|
            0 <= j < try_filter_map_errs(s, c).len() ==> (#[trigger] try_filter_map_errs(s, c)[j]
                matches Ok(o) ==> s.contains(Ok(o)) || exists|e: E|
                s.contains(Err::<O, E>(e)) && c(e) == Some(Ok::<O, E>(o))),
{
    let step = try_filter_map_errs_step::<O, E>(c);
    lemma_sift_len(s, step);
    lemma_sift_is_filter_map(s, step);
    lemma_sift_provenance(s, step);
    assert forall|j: int| 0 <= j < try_filter_map_errs(s, c).len() implies (
    #[trigger] try_filter_map_errs(s, c)[j] matches Err(v) ==> exists|e: E|
        s.contains(Err::<O, E>(e)) && c(e) == Some(Err::<O, E>(v))) by {
        let a = choose|a: Result<O, E>| s.contains(a) && step(a) == Some(sift(s, step)[j]);
        match (try_filter_map_errs(s, c)[j], a) {
            (Err(v), Err(e)) => {
                assert(s.contains(Err::<O, E>(e)) && c(e) == Some(Err::<O, E>(v)));
            },
            _ => {},
        }
    }
    assert forall|j: int| 0 <= j < try_filter_map_errs(s, c).len() implies (
    #[trigger] try_filter_map_errs(s, c)[j] matches Ok(o) ==> s.contains(Ok(o)) || exists|e: E|
        s.contains(Err::<O, E>(e)) && c(e) == Some(Ok::<O, E>(o))) by {
        let a = choose|a: Result<O, E>| s.contains(a) && step(a) == Some(sift(s, step)[j]);
        match (try_filter_map_errs(s, c)[j], a) {
            (Ok(o), Err(e)) => {
                assert(s.contains(Err::<O, E>(e)) && c(e) == Some(Ok::<O, E>(o)));
            },
            (Ok(o), Ok(o0)) => {
                assert(o0 == o);
                assert(s.contains(Ok(o)));
            },
            _ => {},
        }
    }
}

/// Extension trait for sources of `Result` elements: transform-or-drop one
/// branch with a callback that can itself answer either branch.
pub trait TryFilterMap<O, E>: Source<Item = Result<O, E>> + Sized {
    /// Replace each success by the outcome `f` answers — which may be a
    /// failure — or drop it when `f` answers `None`; failures pass through
    /// untouched.
    fn try_filter_map_ok<O2, F: Apply<In = O, Out = Option<Result<O2, E>>>>(self, f: F) -> (r:
        TryFilterMapOk<Self, F>)
        ensures
            r.remaining() == try_filter_map_oks(self.remaining(), |o: O| f.apply_spec(o)),
    ;

    /// Replace each failure by the outcome `f` answers — which may be a
    /// success — or drop it when `f` answers `None`; successes pass through
    /// untouched.
    fn try_filter_map_err<F: Apply<In = E, Out = Option<Result<O, E>>>>(self, f: F) -> (r:
        TryFilterMapErr<Self, F>)
        ensures
            r.remaining() == try_filter_map_errs(self.remaining(), |e: E| f.apply_spec(e)),
    ;
}

impl<I, O, E> TryFilterMap<O, E> for I where I: Source<Item = Result<O, E>> {
    fn try_filter_map_ok<O2, F: Apply<In = O, Out = Option<Result<O2, E>>>>(self, f: F) -> (r:
        TryFilterMapOk<Self, F>) {
        TryFilterMapOk { iter: self, f }
    }

    fn try_filter_map_err<F: Apply<In = E, Out = Option<Result<O, E>>>>(self, f: F) -> (r:
        TryFilterMapErr<Self, F>) {
        TryFilterMapErr { iter: self, f }
    }
}

/// Adaptor that transforms-or-drops successes with a fallible callback,
/// built by [`TryFilterMap::try_filter_map_ok`].
///
/// Because it can discard elements, its size hint keeps only the upstream
/// upper bound and reports a lower bound of zero.
#[must_use]
pub struct TryFilterMapOk<I, F> {
    iter: I,
    f: F,
}

impl<I, O, E, O2, F> Source for TryFilterMapOk<I, F> where
    I: Source<Item = Result<O, E>>,
    F: Apply<In = O, Out = Option<Result<O2, E>>>,
 {
    type Item = Result<O2, E>;

    closed spec fn remaining(&self) -> Seq<Result<O2, E>> {
        try_filter_map_oks(self.iter.remaining(), |o: O| self.f.apply_spec(o))
    }

    #[verifier::loop_isolation(false)]
    fn next(&mut self) -> (r: Option<Result<O2, E>>) {
        loop
            invariant
                try_filter_map_oks(self.iter.remaining(), |o: O| self.f.apply_spec(o)) == old(
                    self,
                ).remaining(),
            decreases self.iter.remaining().len(),
        {
            let ghost pre = self.iter.remaining();
            let ghost c0 = |o: O| self.f.apply_spec(o);
            match self.iter.next() {
                Some(Ok(x)) => {
                    let answer = self.f.apply(x);
                    proof {
                        let c1 = |o: O| self.f.apply_spec(o);
                        lemma_sift_congruence(
                            self.iter.remaining(),
                            try_filter_map_oks_step(c1),
                            try_filter_map_oks_step(c0),
                        );
                    }
                    match answer {
                        Some(out) => {
                            proof {
                                lemma_sift_emit(pre, try_filter_map_oks_step(c0), out);
                            }
                            return Some(out);
                        },
                        None => {
                            proof {
                                lemma_sift_skip(pre, try_filter_map_oks_step(c0));
                            }
                        },
                    }
                },
                Some(Err(e)) => {
                    proof {
                        lemma_sift_emit(pre, try_filter_map_oks_step(c0), Err(e));
                    }
                    return Some(Err(e));
                },
                None => {
                    return None;
                },
            }
        }
    }

    fn size_hint(&self) -> (r: (usize, Option<usize>)) {
        let h = self.iter.size_hint();
        proof {
            lemma_sift_len(
                self.iter.remaining(),
                try_filter_map_oks_step(|o: O| self.f.apply_spec(o)),
            );
        }
        (0, h.1)
    }
}

/// Adaptor that transforms-or-drops failures with a fallible callback,
/// built by [`TryFilterMap::try_filter_map_err`].
///
/// Because it can discard elements, its size hint keeps only the upstream
/// upper bound and reports a lower bound of zero.
#[must_use]
pub struct TryFilterMapErr<I, F> {
    iter: I,
    f: F,
}

impl<I, O, E, F> Source for TryFilterMapErr<I, F> where
    I: Source<Item = Result<O, E>>,
    F: Apply<In = E, Out = Option<Result<O, E>>>,
 {
    type Item = Result<O, E>;

    closed spec fn remaining(&self) -> Seq<Result<O, E>> {
        try_filter_map_errs(self.iter.remaining(), |e: E| self.f.apply_spec(e))
    }

    #[verifier::loop_isolation(false)]
    fn next(&mut self) -> (r: Option<Result<O, E>>) {
        loop
            invariant
                try_filter_map_errs(self.iter.remaining(), |e: E| self.f.apply_spec(e)) == old(
                    self,
                ).remaining(),
            decreases self.iter.remaining().len(),
        {
            let ghost pre = self.iter.remaining();
            let ghost c0 = |e: E| self.f.apply_spec(e);
            match self.iter.next() {
                Some(Err(x)) => {
                    let answer = self.f.apply(x);
                    proof {
                        let c1 = |e: E| self.f.apply_spec(e);
                        lemma_sift_congruence(
                            self.iter.remaining(),
                            try_filter_map_errs_step(c1),
                            try_filter_map_errs_step(c0),
                        );
                    }
                    match answer {
                        Some(out) => {
                            proof {
                                lemma_sift_emit(pre, try_filter_map_errs_step(c0), out);
                            }
                            return Some(out);
                        },
                        None => {
                            proof {
                                lemma_sift_skip(pre, try_filter_map_errs_step(c0));
                            }
                        },
                    }
                },
                Some(Ok(o)) => {
                    proof {
                        lemma_sift_emit(pre, try_filter_map_errs_step(c0), Ok(o));
                    }
                    return Some(Ok(o));
                },
                None => {
                    return None;
                },
            }
        }
    }

    fn size_hint(&self) -> (r: (usize, Option<usize>)) {
        let h = self.iter.size_hint();
        proof {
            lemma_sift_len(
                self.iter.remaining(),
                try_filter_map_errs_step(|e: E| self.f.apply_spec(e)),
            );
        }
        (0, h.1)
    }
}

} // verus!
