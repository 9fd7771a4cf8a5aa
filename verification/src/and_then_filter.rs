//! A fallible filter-map over the success branch, under its historical
//! `and_then_filter` name.

use vstd::prelude::*;

use crate::callback::Apply;
use crate::sift::{lemma_sift_congruence, lemma_sift_emit, lemma_sift_len, lemma_sift_skip};
use crate::source::Source;
use crate::try_filter_map::{try_filter_map_oks, try_filter_map_oks_step};

verus! {

/// Extension trait for sources of `Result` elements: filter-and-map the
/// successes with a callback that can itself fail.
pub trait AndThenFilter<O, E>: Source<Item = Result<O, E>> + Sized {
    /// Replace each success by the outcome `f` answers — which may be a
    /// failure — or drop it when `f` answers `None`; failures pass through
    /// untouched.
    fn and_then_filter<O2, F: Apply<In = O, Out = Option<Result<O2, E>>>>(self, f: F) -> (r:
        AndThenFilterOk<Self, F>)
        ensures
            r.remaining() == try_filter_map_oks(self.remaining(), |o: O| f.apply_spec(o)),
    ;
}

impl<I, O, E> AndThenFilter<O, E> for I where I: Source<Item = Result<O, E>> {
    fn and_then_filter<O2, F: Apply<In = O, Out = Option<Result<O2, E>>>>(self, f: F) -> (r:
        AndThenFilterOk<Self, F>) {
        AndThenFilterOk { iter: self, f }
    }
}

/// Adaptor that filter-and-maps successes with a fallible callback, built by
/// [`AndThenFilter::and_then_filter`].
///
/// Because it can discard elements, its size hint keeps only the upstream
/// upper bound and reports a lower bound of zero.
#[must_use]
pub struct AndThenFilterOk<I, F> {
    iter: I,
    f: F,
}

impl<I, O, E, O2, F> Source for AndThenFilterOk<I, F> where
    I: Source<Item = Result<O, E>>,
    F: Apply<In = O, Out = Option<Result<O2, E>>>,
 {
    type Item = Result<O2, E>;

    closed spec fn remaining(&self) -> Seq<Result<O2, E>> {
        try_filter_map_oks(self.iter.remaining(), |o: O| self.f.apply_spec(o))
    }

    #[verifier::loop_isolation(false)]
    fn next(&mut self) -> (r: Option<Result<O2, E>>) {
        loop
            invariant
                try_filter_map_oks(self.iter.remaining(), |o: O| self.f.apply_spec(o)) == old(
                    self,
                ).remaining(),
            decreases self.iter.remaining().len(),
        {
            let ghost pre = self.iter.remaining();
            let ghost c0 = |o: O| self.f.apply_spec(o);
            match self.iter.next() {
                Some(Ok(x)) => {
                    let answer = self.f.apply(x);
                    proof {
                        let c1 = |o: O| self.f.apply_spec(o);
                        lemma_sift_congruence(
                            self.iter.remaining(),
                            try_filter_map_oks_step(c1),
                            try_filter_map_oks_step(c0),
                        );
                    }
                    match answer {
                        Some(out) => {
                            proof {
                                lemma_sift_emit(pre, try_filter_map_oks_step(c0), out);
                            }
                            return Some(out);
                        },
                        None => {
                            proof {
                                lemma_sift_skip(pre, try_filter_map_oks_step(c0));
                            }
                        },
                    }
                },
                Some(Err(e)) => {
                    proof {
                        lemma_sift_emit(pre, try_filter_map_oks_step(c0), Err(e));
                    }
                    return Some(Err(e));
                },
                None => {
                    return None;
                },
            }
        }
    }

    fn size_hint(&self) -> (r: (usize, Option<usize>)) {
        let h = self.iter.size_hint();
        proof {
            lemma_sift_len(
                self.iter.remaining(),
                try_filter_map_oks_step(|o: O| self.f.apply_spec(o)),
            );
        }
        (0, h.1)
    }
}

} // verus!
