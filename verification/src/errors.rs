//! Extraction of failures: project the sequence down to the bare failure
//! payloads, discarding every success.

use vstd::prelude::*;

use crate::oks::oks_of;
use crate::sift::{lemma_sift_emit, lemma_sift_len, lemma_sift_skip, sift};
use crate::source::Source;

verus! {

/// The failure payload of an element, if it has one.
pub open spec fn err_payload<T, E>(r: Result<T, E>) -> Option<E> {
    match r {
        Ok(_) => None,
        Err(e) => Some(e),
    }
}

/// The bare failure payloads of `s`, in order.
pub open spec fn errors_of<T, E>(s: Seq<Result<T, E>>) -> Seq<E> {
    sift(s, |r: Result<T, E>| err_payload(r))
}

/// Every element is either a success or a failure: the two extractions
/// together account for the whole input.
pub proof fn lemma_oks_errors_partition<T, E>(s: Seq<Result<T, E>>)
    ensures
        oks_of(s).len() + errors_of(s).len() == s.len(),
    decreases s.len(),
{
    if s.len() > 0 {
        lemma_oks_errors_partition(s.drop_first());
    }
}

/// Extension trait for sources of `Result` elements: keep only the failure
/// payloads.
pub trait GetErrors<T, E>: Source<Item = Result<T, E>> + Sized {
    /// Produce every failure's payload while dropping every success.
    fn errors(self) -> (r: Errors<Self>)
        ensures
            r.remaining() == errors_of(self.remaining()),
    ;
}

impl<I, T, E> GetErrors<T, E> for I where I: Source<Item = Result<T, E>> {
    fn errors(self) -> (r: Errors<Self>) {
        Errors { iter: self }
    }
}

/// Adaptor that hands out bare failure payloads, built by
/// [`GetErrors::errors`].
///
/// Because it discards successes, its size hint keeps only the upstream
/// upper bound and reports a lower bound of zero.
#[must_use]
pub struct Errors<I> {
    iter: I,
}

impl<I, T, E> Source for Errors<I> where I: Source<Item = Result<T, E>> {
    type Item = E;

    closed spec fn remaining(&self) -> Seq<E> {
        errors_of(self.iter.remaining())
    }

    #[verifier::loop_isolation(false)]
    fn next(&mut self) -> (r: Option<E>) {
        loop
            invariant
                errors_of(self.iter.remaining()) == old(self).remaining(),
            decreases self.iter.remaining().len(),
        {
            let ghost pre = self.iter.remaining();
            match self.iter.next() {
                Some(Err(e)) => {
                    proof {
                        lemma_sift_emit(pre, |r: Result<T, E>| err_payload(r), e);
                    }
                    return Some(e);
                },
                Some(Ok(_)) => {
                    proof {
                        lemma_sift_skip(pre, |r: Result<T, E>| err_payload(r));
                    }
                },
                None => {
                    return None;
                },
            }
        }
    }

    fn size_hint(&self) -> (r: (usize, Option<usize>)) {
        let h = self.iter.size_hint();
        proof {
            lemma_sift_len(self.iter.remaining(), |r: Result<T, E>| err_payload(r));
        }
        (0, h.1)
    }
}

} // verus!
