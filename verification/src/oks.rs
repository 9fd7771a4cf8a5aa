//! Extraction of successes: project the sequence down to the bare success
//! payloads, discarding every failure.

use vstd::prelude::*;

use crate::sift::{lemma_sift_emit, lemma_sift_len, lemma_sift_skip, sift};
use crate::source::Source;

verus! {

/// The success payload of an element, if it has one.
pub open spec fn ok_payload<T, E>(r: Result<T, E>) -> Option<T> {
    match r {
        Ok(o) => Some(o),
        Err(_) => None,
    }
}

/// The bare success payloads of `s`, in order.
pub open spec fn oks_of<T, E>(s: Seq<Result<T, E>>) -> Seq<T> {
    sift(s, |r: Result<T, E>| ok_payload(r))
}

/// A sequence of successes wrapped back up loses nothing: extracting the
/// successes once more returns the same list.
pub proof fn lemma_oks_extraction_idempotent<T, E>(s: Seq<Result<T, E>>)
    ensures
        oks_of(oks_of(s).map_values(|t: T| Ok::<T, E>(t))) == oks_of(s),
{
    lemma_oks_of_successes::<T, E>(oks_of(s));
}

/// Extracting the successes of an all-success sequence is the identity.
pub proof fn lemma_oks_of_successes<T, E>(ts: Seq<T>)
    ensures
        oks_of(ts.map_values(|t: T| Ok::<T, E>(t))) == ts,
    decreases ts.len(),
{
    let wrapped = ts.map_values(|t: T| Ok::<T, E>(t));
    if ts.len() == 0 {
        assert(oks_of(wrapped) =~= ts);
    } else {
        lemma_oks_of_successes::<T, E>(ts.drop_first());
        assert(wrapped.drop_first() =~= ts.drop_first().map_values(|t: T| Ok::<T, E>(t)));
        assert(oks_of(wrapped) =~= ts);
    }
}

/// Extension trait for sources of `Result` elements: keep only the success
/// payloads.
pub trait GetOks<T, E>: Source<Item = Result<T, E>> + Sized {
    /// Produce every success's payload while dropping every failure.
    fn oks(self) -> (r: Oks<Self>)
        ensures
            r.remaining() == oks_of(self.remaining()),
    ;
}

impl<I, T, E> GetOks<T, E> for I where I: Source<Item = Result<T, E>> {
    fn oks(self) -> (r: Oks<Self>) {
        Oks { iter: self }
    }
}

/// Adaptor that hands out bare success payloads, built by [`GetOks::oks`].
///
/// Because it discards failures, its size hint keeps only the upstream
/// upper bound and reports a lower bound of zero.
#[must_use]
pub struct Oks<I> {
    iter: I,
}

impl<I, T, E> Source for Oks<I> where I: Source<Item = Result<T, E>> {
    type Item = T;

    closed spec fn remaining(&self) -> Seq<T> {
        oks_of(self.iter.remaining())
    }

    #[verifier::loop_isolation(false)]
    fn next(&mut self) -> (r: Option<T>) {
        loop
            invariant
                oks_of(self.iter.remaining()) == old(self).remaining(),
            decreases self.iter.remaining().len(),
        {
            let ghost pre = self.iter.remaining();
            match self.iter.next() {
                Some(Ok(t)) => {
                    proof {
                        lemma_sift_emit(pre, |r: Result<T, E>| ok_payload(r), t);
                    }
                    return Some(t);
                },
                Some(Err(_)) => {
                    proof {
                        lemma_sift_skip(pre, |r: Result<T, E>| ok_payload(r));
                    }
                },
                None => {
                    return None;
                },
            }
        }
    }

    fn size_hint(&self) -> (r: (usize, Option<usize>)) {
        let h = self.iter.size_hint();
        proof {
            lemma_sift_len(self.iter.remaining(), |r: Result<T, E>| ok_payload(r));
        }
        (0, h.1)
    }
}

} // verus!
