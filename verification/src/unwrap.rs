//! Full unwrap: produce bare success values, letting a policy callback
//! substitute or drop each failure.

use vstd::prelude::*;

use crate::callback::Apply;
use crate::oks::{ok_payload, oks_of};
use crate::sift::{lemma_sift_congruence, lemma_sift_emit, lemma_sift_len, lemma_sift_skip, sift};
use crate::source::Source;

verus! {

/// What one upstream element contributes under unwrap-with policy `u`: a
/// success contributes its payload; a failure contributes `u`'s substitute
/// when there is one, or nothing.
pub open spec fn unwrap_with_step<O, E>(u: spec_fn(E) -> Option<O>) -> spec_fn(Result<O, E>) -> Option<
    O,
> {
    |r: Result<O, E>|
        match r {
            Ok(o) => Some(o),
            Err(e) => u(e),
        }
}

/// The sequence of bare values an unwrap with policy `u` produces from
/// upstream sequence `s`.
pub open spec fn unwrap_with_values<O, E>(s: Seq<Result<O, E>>, u: spec_fn(E) -> Option<O>) -> Seq<
    O,
> {
    sift(s, unwrap_with_step(u))
}

/// A policy that drops every failure unwraps to exactly the successes.
pub proof fn lemma_unwrap_with_drop_is_oks<O, E>(s: Seq<Result<O, E>>, u: spec_fn(E) -> Option<O>)
    requires
        forall|e: E| #[trigger] u(e) is None,
    ensures
        unwrap_with_values(s, u) == oks_of(s),
{
    lemma_sift_congruence(s, unwrap_with_step(u), |r: Result<O, E>| ok_payload(r));
}

/// A policy that always substitutes keeps every element: one output per
/// input.
pub proof fn lemma_unwrap_with_substitute_total<O, E>(
    s: Seq<Result<O, E>>,
    u: spec_fn(E) -> Option<O>,
)
    requires
        forall|e: E| #[trigger] u(e) is Some,
    ensures
        unwrap_with_values(s, u).len() == s.len(),
    decreases s.len(),
{
    if s.len() > 0 {
        lemma_unwrap_with_substitute_total(s.drop_first(), u);
    }
}

/// Adaptor that unwraps every element to a bare success value, built by
/// [`UnwrapWithExt::unwrap_with`].
///
/// Because its policy may drop failures, its size hint keeps only the
/// upstream upper bound and reports a lower bound of zero.
#[must_use]
pub struct UnwrapWith<I, F> {
    iter: I,
    f: F,
}

/// Extension trait for sources of `Result` elements: unwrap everything,
/// with a policy for converting or dropping failures.
pub trait UnwrapWithExt<O, E>: Source<Item = Result<O, E>> + Sized {
    /// Produce each success's payload directly; hand each failure to `f`,
    /// emitting the substitute it answers or dropping the failure when it
    /// answers `None`.
    fn unwrap_with<F: Apply<In = E, Out = Option<O>>>(self, f: F) -> (r: UnwrapWith<Self, F>)
        ensures
            r.remaining() == unwrap_with_values(self.remaining(), |e: E| f.apply_spec(e)),
    ;
}

impl<I, O, E> UnwrapWithExt<O, E> for I where I: Source<Item = Result<O, E>> {
    fn unwrap_with<F: Apply<In = E, Out = Option<O>>>(self, f: F) -> (r: UnwrapWith<Self, F>) {
        UnwrapWith { iter: self, f }
    }
}

impl<I, O, E, F> Source for UnwrapWith<I, F> where
    I: Source<Item = Result<O, E>>,
    F: Apply<In = E, Out = Option<O>>,
 {
    type Item = O;

    closed spec fn remaining(&self) -> Seq<O> {
        unwrap_with_values(self.iter.remaining(), |e: E| self.f.apply_spec(e))
    }

    #[verifier::loop_isolation(false)]
    fn next(&mut self) -> (r: Option<O>) {
        loop
            invariant
                unwrap_with_values(self.iter.remaining(), |e: E| self.f.apply_spec(e)) == old(
                    self,
                ).remaining(),
            decreases self.iter.remaining().len(),
        {
            let ghost pre = self.iter.remaining();
            let ghost u0 = |e: E| self.f.apply_spec(e);
            match self.iter.next() {
                Some(Ok(t)) => {
                    proof {
                        lemma_sift_emit(pre, unwrap_with_step(u0), t);
                    }
                    return Some(t);
                },
                Some(Err(e)) => {
                    let substitute = self.f.apply(e);
                    proof {
                        let u1 = |e: E| self.f.apply_spec(e);
                        lemma_sift_congruence(
                            self.iter.remaining(),
                            unwrap_with_step(u1),
                            unwrap_with_step(u0),
                        );
                    }
                    match substitute {
                        Some(t) => {
                            proof {
                                lemma_sift_emit(pre, unwrap_with_step(u0), t);
                            }
                            return Some(t);
                        },
                        None => {
                            proof {
                                lemma_sift_skip(pre, unwrap_with_step(u0));
                            }
                        },
                    }
                },
                None => {
                    return None;
                },
            }
        }
    }

    fn size_hint(&self) -> (r: (usize, Option<usize>)) {
        let h = self.iter.size_hint();
        proof {
            lemma_sift_len(self.iter.remaining(), unwrap_with_step(|e: E| self.f.apply_spec(e)));
        }
        (0, h.1)
    }
}

} // verus!
