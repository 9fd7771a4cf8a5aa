//! Flattening adaptors: splice the iterable content of each targeted
//! element into the output, element by element, passing the other branch
//! through in its original position.

use vstd::prelude::*;

use crate::source::{Source, VecSource};

verus! {

/// Walk `s` from the front and concatenate what `step` expands each element
/// into. The flatten and flat-map family of adaptors produces exactly such
/// a sequence.
pub open spec fn expand<A, B>(s: Seq<A>, step: spec_fn(A) -> Seq<B>) -> Seq<B>
    decreases s.len(),
{
    if s.len() == 0 {
        Seq::empty()
    } else {
        step(s[0]) + expand(s.drop_first(), step)
    }
}

/// Steps that agree on every element expand every sequence alike.
pub proof fn lemma_expand_congruence<A, B>(
    s: Seq<A>,
    step1: spec_fn(A) -> Seq<B>,
    step2: spec_fn(A) -> Seq<B>,
)
    requires
        forall|a: A| #[trigger] step1(a) == step2(a),
    ensures
        expand(s, step1) == expand(s, step2),
    decreases s.len(),
{
    if s.len() > 0 {
        lemma_expand_congruence(s.drop_first(), step1, step2);
    }
}

/// What one upstream element contributes under flatten-success: a success
/// spreads into one success per element of its vector (an empty vector
/// contributes nothing); a failure passes through as a single element.
pub open spec fn flatten_oks_step<U, E>(r: Result<Vec<U>, E>) -> Seq<Result<U, E>> {
    match r {
        Ok(v) => v@.map_values(|u: U| Ok(u)),
        Err(e) => seq![Err(e)],
    }
}

/// The sequence flatten-success produces from upstream sequence `s`.
pub open spec fn flatten_oks<U, E>(s: Seq<Result<Vec<U>, E>>) -> Seq<Result<U, E>> {
    expand(s, |r: Result<Vec<U>, E>| flatten_oks_step(r))
}

/// What one upstream element contributes under flatten-failure: the mirror
/// image of [`flatten_oks_step`].
pub open spec fn flatten_errs_step<O, U>(r: Result<O, Vec<U>>) -> Seq<Result<O, U>> {
    match r {
        Ok(o) => seq![Ok(o)],
        Err(v) => v@.map_values(|u: U| Err(u)),
    }
}

/// The sequence flatten-failure produces from upstream sequence `s`.
pub open spec fn flatten_errs<O, U>(s: Seq<Result<O, Vec<U>>>) -> Seq<Result<O, U>> {
    expand(s, |r: Result<O, Vec<U>>| flatten_errs_step(r))
}

/// Extension trait for sources of `Result` elements whose targeted branch
/// carries a vector: splice that vector's elements into the output.
pub trait Flatten: Sized {
    /// Spread each success's vector into one success per element; failures
    /// pass through untouched, in their original position.
    fn flatten_ok<U, E>(self) -> (r: FlattenOk<Self, U>) where
        Self: Source<Item = Result<Vec<U>, E>>,

        ensures
            r.remaining() == flatten_oks(self.remaining()),
    ;

    /// Spread each failure's vector into one failure per element; successes
    /// pass through untouched, in their original position.
    fn flatten_err<O, U>(self) -> (r: FlattenErr<Self, U>) where
        Self: Source<Item = Result<O, Vec<U>>>,

        ensures
            r.remaining() == flatten_errs(self.remaining()),
    ;
}

impl<I> Flatten for I {
    fn flatten_ok<U, E>(self) -> (r: FlattenOk<Self, U>) where
        Self: Source<Item = Result<Vec<U>, E>>,
     {
        let r = FlattenOk { frontiter: None, iter: self };
        proof {
            assert(r.remaining() =~= flatten_oks(self.remaining()));
        }
        r
    }

    fn flatten_err<O, U>(self) -> (r: FlattenErr<Self, U>) where
        Self: Source<Item = Result<O, Vec<U>>>,
     {
        let r = FlattenErr { frontiter: None, iter: self };
        proof {
            assert(r.remaining() =~= flatten_errs(self.remaining()));
        }
        r
    }
}

/// Adaptor that flattens successes, built by [`Flatten::flatten_ok`].
///
/// It is draining while it holds a sub-sequence and idle otherwise; a new
/// sub-sequence is taken from the next targeted upstream element.
///
/// Expansion is unbounded, so the size hint promises only what the current
/// sub-sequence already holds, with an upper bound only once the upstream
/// is known to be exhausted.
#[must_use]
pub struct FlattenOk<I, U> {
    frontiter: Option<VecSource<U>>,
    iter: I,
}

impl<I, U, E> Source for FlattenOk<I, U> where I: Source<Item = Result<Vec<U>, E>> {
    type Item = Result<U, E>;

    closed spec fn remaining(&self) -> Seq<Result<U, E>> {
        (match self.frontiter {
            Some(vs) => vs.remaining().map_values(|u: U| Ok(u)),
            None => Seq::empty(),
        }) + flatten_oks(self.iter.remaining())
    }

    #[verifier::loop_isolation(false)]
    fn next(&mut self) -> (r: Option<Result<U, E>>) {
        loop
            invariant
                self.remaining() == old(self).remaining(),
            decreases
                    self.iter.remaining().len(),
                    (match self.frontiter {
                        Some(vs) => vs.remaining().len() + 1,
                        None => 0,
                    }),
        {
            let ghost pre = self.remaining();
            match self.frontiter.take() {
                Some(mut vs) => {
                    match vs.next() {
                        Some(u) => {
                            self.frontiter = Some(vs);
                            proof {
                                assert(self.remaining() =~= pre.drop_first());
                            }
                            return Some(Ok(u));
                        },
                        None => {
                            self.frontiter = None;
                            proof {
                                assert(self.remaining() =~= pre);
                            }
                        },
                    }
                },
                None => {
                    let ghost up = self.iter.remaining();
                    match self.iter.next() {
                        Some(Ok(v)) => {
                            self.frontiter = Some(VecSource::new(v));
                            proof {
                                assert(self.remaining() =~= pre);
                            }
                        },
                        Some(Err(e)) => {
                            self.frontiter = None;
                            proof {
                                assert(self.remaining() =~= pre.drop_first());
                            }
                            return Some(Err(e));
                        },
                        None => {
                            self.frontiter = None;
                            return None;
                        },
                    }
                },
            }
        }
    }

    fn size_hint(&self) -> (r: (usize, Option<usize>)) {
        let upstream = self.iter.size_hint();
        let drained = match upstream.1 {
            Some(n) => n == 0,
            None => false,
        };
        proof {
            if drained {
                assert(flatten_oks(self.iter.remaining()) =~= Seq::<Result<U, E>>::empty());
            }
        }
        match &self.frontiter {
            Some(vs) => {
                let fh = vs.size_hint();
                (fh.0, if drained {
                    fh.1
                } else {
                    None
                })
            },
            None => {
                (0, if drained {
                    Some(0)
                } else {
                    None
                })
            },
        }
    }
}

/// Adaptor that flattens failures, built by [`Flatten::flatten_err`].
///
/// It is draining while it holds a sub-sequence and idle otherwise; its
/// size hint follows the same rule as [`FlattenOk`]'s.
#[must_use]
pub struct FlattenErr<I, U> {
    frontiter: Option<VecSource<U>>,
    iter: I,
}

impl<I, O, U> Source for FlattenErr<I, U> where I: Source<Item = Result<O, Vec<U>>> {
    type Item = Result<O, U>;

    closed spec fn remaining(&self) -> Seq<Result<O, U>> {
        (match self.frontiter {
            Some(vs) => vs.remaining().map_values(|u: U| Err(u)),
            None => Seq::empty(),
        }) + flatten_errs(self.iter.remaining())
    }

    #[verifier::loop_isolation(false)]
    fn next(&mut self) -> (r: Option<Result<O, U>>) {
        loop
            invariant
                self.remaining() == old(self).remaining(),
            decreases
                    self.iter.remaining().len(),
                    (match self.frontiter {
                        Some(vs) => vs.remaining().len() + 1,
                        None => 0,
                    }),
        {
            let ghost pre = self.remaining();
            match self.frontiter.take() {
                Some(mut vs) => {
                    match vs.next() {
                        Some(u) => {
                            self.frontiter = Some(vs);
                            proof {
                                assert(self.remaining() =~= pre.drop_first());
                            }
                            return Some(Err(u));
                        },
                        None => {
                            self.frontiter = None;
                            proof {
                                assert(self.remaining() =~= pre);
                            }
                        },
                    }
                },
                None => {
                    match self.iter.next() {
                        Some(Err(v)) => {
                            self.frontiter = Some(VecSource::new(v));
                            proof {
                                assert(self.remaining() =~= pre);
                            }
                        },
                        Some(Ok(o)) => {
                            self.frontiter = None;
                            proof {
                                assert(self.remaining() =~= pre.drop_first());
                            }
                            return Some(Ok(o));
                        },
                        None => {
                            self.frontiter = None;
                            return None;
                        },
                    }
                },
            }
        }
    }

    fn size_hint(&self) -> (r: (usize, Option<usize>)) {
        let upstream = self.iter.size_hint();
        let drained = match upstream.1 {
            Some(n) => n == 0,
            None => false,
        };
        proof {
            if drained {
                assert(flatten_errs(self.iter.remaining()) =~= Seq::<Result<O, U>>::empty());
            }
        }
        match &self.frontiter {
            Some(vs) => {
                let fh = vs.size_hint();
                (fh.0, if drained {
                    fh.1
                } else {
                    None
                })
            },
            None => {
                (0, if drained {
                    Some(0)
                } else {
                    None
                })
            },
        }
    }
}

} // verus!
