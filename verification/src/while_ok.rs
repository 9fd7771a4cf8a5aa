//! Stop-at-first-failure consumption: drive the sequence eagerly, handing
//! each success to a consumer, and return the first failure at once.

use vstd::prelude::*;

use crate::callback::Accept;
use crate::source::Source;

verus! {

/// The successes of `s` that come before its first failure, in order.
pub open spec fn ok_prefix<O, E>(s: Seq<Result<O, E>>) -> Seq<O>
    decreases s.len(),
{
    if s.len() == 0 {
        Seq::empty()
    } else {
        match s[0] {
            Ok(o) => seq![o] + ok_prefix(s.drop_first()),
            Err(_) => Seq::empty(),
        }
    }
}

/// The first failure of `s`, if it holds one.
pub open spec fn first_failure<O, E>(s: Seq<Result<O, E>>) -> Option<E>
    decreases s.len(),
{
    if s.len() == 0 {
        None
    } else {
        match s[0] {
            Ok(_) => first_failure(s.drop_first()),
            Err(e) => Some(e),
        }
    }
}

/// Extension trait for sources of `Result` elements: consume successes
/// eagerly until the first failure.
pub trait WhileOk<O, E>: Source<Item = Result<O, E>> + Sized {
    /// Hand each success to `f`, in order, until the first failure, which
    /// is returned at once; elements after it are never visited. When no
    /// failure occurs the whole sequence is consumed and the result is
    /// `Ok`.
    fn while_ok<F: Accept<In = O>>(self, f: &mut F) -> (r: Result<(), E>)
        ensures
            final(f).taken() == old(f).taken() + ok_prefix(self.remaining()),
            match first_failure(self.remaining()) {
                Some(e) => r == Err::<(), E>(e),
                None => r == Ok::<(), E>(()),
            },
    ;
}

impl<I, O, E> WhileOk<O, E> for I where I: Source<Item = Result<O, E>> {
    #[verifier::loop_isolation(false)]
    fn while_ok<F: Accept<In = O>>(self, f: &mut F) -> (r: Result<(), E>) {
        let ghost orig = self.remaining();
        let mut src = self;
        loop
            invariant
                old(f).taken() + ok_prefix(orig) == f.taken() + ok_prefix(src.remaining()),
                first_failure(orig) == first_failure(src.remaining()),
            decreases src.remaining().len(),
        {
            let ghost pre = src.remaining();
            match src.next() {
                Some(Ok(o)) => {
                    let ghost taken0 = f.taken();
                    f.accept(o);
                    proof {
                        assert(taken0 + (seq![o] + ok_prefix(pre.drop_first())) =~= taken0.push(o)
                            + ok_prefix(pre.drop_first()));
                    }
                },
                Some(Err(e)) => {
                    proof {
                        assert(f.taken() + ok_prefix(pre) =~= f.taken());
                    }
                    return Err(e);
                },
                None => {
                    proof {
                        assert(f.taken() + ok_prefix(pre) =~= f.taken());
                    }
                    return Ok(());
                },
            }
        }
    }
}

} // verus!
