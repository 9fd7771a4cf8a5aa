//! The lazy-sequence capability every adaptor consumes and re-exposes.

use vstd::prelude::*;

verus! {

/// A pull-based producer of elements.
///
/// `remaining` is the mathematical model: the sequence of elements the
/// source will still produce, in order. `next` either hands out the head of
/// that sequence or signals exhaustion; `size_hint` bounds its length from
/// below and (optionally) from above, and must never claim more than the
/// model allows.
pub trait Source: Sized {
    type Item;

    /// The sequence of elements this source will still produce.
    spec fn remaining(&self) -> Seq<Self::Item>;

    /// Produce the next element, or signal exhaustion.
    fn next(&mut self) -> (r: Option<Self::Item>)
        ensures
            match r {
                Some(t) => {
                    &&& old(self).remaining().len() > 0
                    &&& t == old(self).remaining()[0]
                    &&& final(self).remaining() == old(self).remaining().drop_first()
                },
                None => {
                    &&& old(self).remaining().len() == 0
                    &&& final(self).remaining() == old(self).remaining()
                },
            },
    ;

    /// A lower bound and an optional upper bound on the number of elements
    /// still to come.
    fn size_hint(&self) -> (r: (usize, Option<usize>))
        ensures
            r.0 <= self.remaining().len(),
            match r.1 {
                Some(upper) => self.remaining().len() <= upper,
                None => true,
            },
    ;
}

/// A source that hands out the elements of a vector, front to back.
///
/// This is the plain concrete producer that seeds an adaptor chain, and the
/// sub-sequence state that the flattening adaptors drain.
pub struct VecSource<T> {
    items: Vec<T>,
}

impl<T> VecSource<T> {
    /// Wrap a vector; the source will produce exactly its elements in order.
    pub fn new(items: Vec<T>) -> (r: Self)
        ensures
            r.remaining() == items@,
    {
        VecSource { items }
    }
}

impl<T> Source for VecSource<T> {
    type Item = T;

    closed spec fn remaining(&self) -> Seq<T> {
        self.items@
    }

    fn next(&mut self) -> (r: Option<T>) {
        if self.items.len() == 0 {
            None
        } else {
            let t = self.items.remove(0);
            proof {
                assert(self.items@ =~= old(self).items@.drop_first());
            }
            Some(t)
        }
    }

    fn size_hint(&self) -> (r: (usize, Option<usize>))
        ensures
            r.0 == self.remaining().len(),
            r.1 == Some(self.remaining().len() as usize),
    {
        (self.items.len(), Some(self.items.len()))
    }
}

} // verus!
