//! Flat-map adaptors: map each targeted element to a vector, then splice
//! that vector's elements into the output one by one.

use vstd::prelude::*;

use crate::callback::Apply;
use crate::flatten::{expand, flatten_errs, flatten_oks, lemma_expand_congruence};
use crate::map::{map_errs, map_oks};
use crate::source::{Source, VecSource};

verus! {

/// What one upstream element contributes under flat-map-success with
/// callback `g`: a success spreads into one success per element of the
/// vector `g` maps it to; a failure passes through as a single element.
pub open spec fn flat_map_oks_step<O, E, U>(g: spec_fn(O) -> Seq<U>) -> spec_fn(Result<O, E>) -> Seq<
    Result<U, E>,
> {
    |r: Result<O, E>|
        match r {
            Ok(o) => g(o).map_values(|u: U| Ok(u)),
            Err(e) => seq![Err(e)],
        }
}

/// The sequence flat-map-success with callback `g` produces from upstream
/// sequence `s`.
pub open spec fn flat_map_oks<O, E, U>(s: Seq<Result<O, E>>, g: spec_fn(O) -> Seq<U>) -> Seq<
    Result<U, E>,
> {
    expand(s, flat_map_oks_step(g))
}

/// What one upstream element contributes under flat-map-failure: the mirror
/// image of [`flat_map_oks_step`].
pub open spec fn flat_map_errs_step<O, E, U>(g: spec_fn(E) -> Seq<U>) -> spec_fn(
    Result<O, E>,
) -> Seq<Result<O, U>> {
    |r: Result<O, E>|
        match r {
            Ok(o) => seq![Ok(o)],
            Err(e) => g(e).map_values(|u: U| Err(u)),
        }
}

/// The sequence flat-map-failure with callback `g` produces from upstream
/// sequence `s`.
pub open spec fn flat_map_errs<O, E, U>(s: Seq<Result<O, E>>, g: spec_fn(E) -> Seq<U>) -> Seq<
    Result<O, U>,
> {
    expand(s, flat_map_errs_step(g))
}

/// Flat-mapping the successes is mapping each success to its vector and
/// then flattening.
pub proof fn lemma_flat_map_oks_is_map_then_flatten<O, E, U>(
    s: Seq<Result<O, E>>,
    g: spec_fn(O) -> Vec<U>,
)
    ensures
        flat_map_oks(s, |o: O| g(o)@) == flatten_oks(map_oks(s, g)),
    decreases s.len(),
{
    if s.len() == 0 {
        assert(flat_map_oks(s, |o: O| g(o)@) =~= flatten_oks(map_oks(s, g)));
    } else {
        lemma_flat_map_oks_is_map_then_flatten(s.drop_first(), g);
        assert(map_oks(s, g).drop_first() =~= map_oks(s.drop_first(), g));
        assert(flat_map_oks(s, |o: O| g(o)@) =~= flatten_oks(map_oks(s, g)));
    }
}

/// Flat-mapping the failures is mapping each failure to its vector and
/// then flattening.
pub proof fn lemma_flat_map_errs_is_map_then_flatten<O, E, U>(
    s: Seq<Result<O, E>>,
    g: spec_fn(E) -> Vec<U>,
)
    ensures
        flat_map_errs(s, |e: E| g(e)@) == flatten_errs(map_errs(s, g)),
    decreases s.len(),
{
    if s.len() == 0 {
        assert(flat_map_errs(s, |e: E| g(e)@) =~= flatten_errs(map_errs(s, g)));
    } else {
        lemma_flat_map_errs_is_map_then_flatten(s.drop_first(), g);
        assert(map_errs(s, g).drop_first() =~= map_errs(s.drop_first(), g));
        assert(flat_map_errs(s, |e: E| g(e)@) =~= flatten_errs(map_errs(s, g)));
    }
}

/// Extension trait for sources of `Result` elements: map one branch to a
/// vector and splice its elements into the output.
pub trait FlatMap<O, E>: Source<Item = Result<O, E>> + Sized {
    /// Map each success to a vector and spread that vector into one success
    /// per element; failures pass through untouched, in their original
    /// position.
    fn flat_map_ok<U, F: Apply<In = O, Out = Vec<U>>>(self, f: F) -> (r: FlatMapOk<Self, U, F>)
        ensures
            r.remaining() == flat_map_oks(self.remaining(), |o: O| f.apply_spec(o)@),
    ;

    /// Map each failure to a vector and spread that vector into one failure
    /// per element; successes pass through untouched, in their original
    /// position.
    fn flat_map_err<U, F: Apply<In = E, Out = Vec<U>>>(self, f: F) -> (r: FlatMapErr<Self, U, F>)
        ensures
            r.remaining() == flat_map_errs(self.remaining(), |e: E| f.apply_spec(e)@),
    ;
}

impl<I, O, E> FlatMap<O, E> for I where I: Source<Item = Result<O, E>> {
    fn flat_map_ok<U, F: Apply<In = O, Out = Vec<U>>>(self, f: F) -> (r: FlatMapOk<Self, U, F>) {
        let r = FlatMapOk { frontiter: None, iter: self, f };
        proof {
            assert(r.remaining() =~= flat_map_oks(self.remaining(), |o: O| f.apply_spec(o)@));
        }
        r
    }

    fn flat_map_err<U, F: Apply<In = E, Out = Vec<U>>>(self, f: F) -> (r: FlatMapErr<Self, U, F>) {
        let r = FlatMapErr { frontiter: None, iter: self, f };
        proof {
            assert(r.remaining() =~= flat_map_errs(self.remaining(), |e: E| f.apply_spec(e)@));
        }
        r
    }
}

/// Adaptor that flat-maps successes, built by [`FlatMap::flat_map_ok`].
///
/// It is draining while it holds a sub-sequence and idle otherwise.
/// Expansion is unbounded, so the size hint promises only what the current
/// sub-sequence already holds, with an upper bound only once the upstream
/// is known to be exhausted.
#[must_use]
pub struct FlatMapOk<I, U, F> {
    frontiter: Option<VecSource<U>>,
    iter: I,
    f: F,
}

impl<I, O, E, U, F> Source for FlatMapOk<I, U, F> where
    I: Source<Item = Result<O, E>>,
    F: Apply<In = O, Out = Vec<U>>,
 {
    type Item = Result<U, E>;

    closed spec fn remaining(&self) -> Seq<Result<U, E>> {
        (match self.frontiter {
            Some(vs) => vs.remaining().map_values(|u: U| Ok(u)),
            None => Seq::empty(),
        }) + flat_map_oks(self.iter.remaining(), |o: O| self.f.apply_spec(o)@)
    }

    #[verifier::loop_isolation(false)]
    fn next(&mut self) -> (r: Option<Result<U, E>>) {
        loop
            invariant
                self.remaining() == old(self).remaining(),
            decreases
                    self.iter.remaining().len(),
                    (match self.frontiter {
                        Some(vs) => vs.remaining().len() + 1,
                        None => 0,
                    }),
        {
            let ghost pre = self.remaining();
            match self.frontiter.take() {
                Some(mut vs) => {
                    match vs.next() {
                        Some(u) => {
                            self.frontiter = Some(vs);
                            proof {
                                assert(self.remaining() =~= pre.drop_first());
                            }
                            return Some(Ok(u));
                        },
                        None => {
                            self.frontiter = None;
                            proof {
                                assert(self.remaining() =~= pre);
                            }
                        },
                    }
                },
                None => {
                    let ghost g0 = |o: O| self.f.apply_spec(o)@;
                    match self.iter.next() {
                        Some(Ok(x)) => {
                            let v = self.f.apply(x);
                            self.frontiter = Some(VecSource::new(v));
                            proof {
                                let g1 = |o: O| self.f.apply_spec(o)@;
                                lemma_expand_congruence(
                                    self.iter.remaining(),
                                    flat_map_oks_step(g1),
                                    flat_map_oks_step(g0),
                                );
                                assert(self.remaining() =~= pre);
                            }
                        },
                        Some(Err(e)) => {
                            self.frontiter = None;
                            proof {
                                assert(self.remaining() =~= pre.drop_first());
                            }
                            return Some(Err(e));
                        },
                        None => {
                            self.frontiter = None;
                            return None;
                        },
                    }
                },
            }
        }
    }

    fn size_hint(&self) -> (r: (usize, Option<usize>)) {
        let upstream = self.iter.size_hint();
        let drained = match upstream.1 {
            Some(n) => n == 0,
            None => false,
        };
        proof {
            if drained {
                assert(flat_map_oks(self.iter.remaining(), |o: O| self.f.apply_spec(o)@)
                    =~= Seq::<Result<U, E>>::empty());
            }
        }
        match &self.frontiter {
            Some(vs) => {
                let fh = vs.size_hint();
                (fh.0, if drained {
                    fh.1
                } else {
                    None
                })
            },
            None => {
                (0, if drained {
                    Some(0)
                } else {
                    None
                })
            },
        }
    }
}

/// Adaptor that flat-maps failures, built by [`FlatMap::flat_map_err`].
///
/// It is draining while it holds a sub-sequence and idle otherwise; its
/// size hint follows the same rule as [`FlatMapOk`]'s.
#[must_use]
pub struct FlatMapErr<I, U, F> {
    frontiter: Option<VecSource<U>>,
    iter: I,
    f: F,
}

impl<I, O, E, U, F> Source for FlatMapErr<I, U, F> where
    I: Source<Item = Result<O, E>>,
    F: Apply<In = E, Out = Vec<U>>,
 {
    type Item = Result<O, U>;

    closed spec fn remaining(&self) -> Seq<Result<O, U>> {
        (match self.frontiter {
            Some(vs) => vs.remaining().map_values(|u: U| Err(u)),
            None => Seq::empty(),
        }) + flat_map_errs(self.iter.remaining(), |e: E| self.f.apply_spec(e)@)
    }

    #[verifier::loop_isolation(false)]
    fn next(&mut self) -> (r: Option<Result<O, U>>) {
        loop
            invariant
                self.remaining() == old(self).remaining(),
            decreases
                    self.iter.remaining().len(),
                    (match self.frontiter {
                        Some(vs) => vs.remaining().len() + 1,
                        None => 0,
                    }),
        {
            let ghost pre = self.remaining();
            match self.frontiter.take() {
                Some(mut vs) => {
                    match vs.next() {
                        Some(u) => {
                            self.frontiter = Some(vs);
                            proof {
                                assert(self.remaining() =~= pre.drop_first());
                            }
                            return Some(Err(u));
                        },
                        None => {
                            self.frontiter = None;
                            proof {
                                assert(self.remaining() =~= pre);
                            }
                        },
                    }
                },
                None => {
                    let ghost g0 = |e: E| self.f.apply_spec(e)@;
                    match self.iter.next() {
                        Some(Err(x)) => {
                            let v = self.f.apply(x);
                            self.frontiter = Some(VecSource::new(v));
                            proof {
                                let g1 = |e: E| self.f.apply_spec(e)@;
                                lemma_expand_congruence(
                                    self.iter.remaining(),
                                    flat_map_errs_step(g1),
                                    flat_map_errs_step(g0),
                                );
                                assert(self.remaining() =~= pre);
                            }
                        },
                        Some(Ok(o)) => {
                            self.frontiter = None;
                            proof {
                                assert(self.remaining() =~= pre.drop_first());
                            }
                            return Some(Ok(o));
                        },
                        None => {
                            self.frontiter = None;
                            return None;
                        },
                    }
                },
            }
        }
    }

    fn size_hint(&self) -> (r: (usize, Option<usize>)) {
        let upstream = self.iter.size_hint();
        let drained = match upstream.1 {
            Some(n) => n == 0,
            None => false,
        };
        proof {
            if drained {
                assert(flat_map_errs(self.iter.remaining(), |e: E| self.f.apply_spec(e)@)
                    =~= Seq::<Result<O, U>>::empty());
            }
        }
        match &self.frontiter {
            Some(vs) => {
                let fh = vs.size_hint();
                (fh.0, if drained {
                    fh.1
                } else {
                    None
                })
            },
            None => {
                (0, if drained {
                    Some(0)
                } else {
                    None
                })
            },
        }
    }
}

} // verus!
