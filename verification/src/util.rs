//! Branch accessors on outcomes, and a fallible for-each over any source.

use vstd::prelude::*;

use crate::callback::Apply;
use crate::source::Source;
use crate::while_ok::first_failure;

verus! {

/// Extract the failure payload of an outcome, if any.
pub trait GetErr<T>: Sized {
    /// The failure payload this value holds, if it holds one.
    spec fn err_value(&self) -> Option<T>;

    /// Hand out the failure payload, or `None` for a success.
    fn get_err(self) -> (r: Option<T>)
        ensures
            r == self.err_value(),
    ;
}

impl<U, T> GetErr<T> for Result<U, T> {
    open spec fn err_value(&self) -> Option<T> {
        match *self {
            Ok(_) => None,
            Err(e) => Some(e),
        }
    }

    fn get_err(self) -> (r: Option<T>) {
        match self {
            Ok(_) => None,
            Err(e) => Some(e),
        }
    }
}

/// Extract the success payload of an outcome, if any.
pub trait GetOk<T>: Sized {
    /// The success payload this value holds, if it holds one.
    spec fn ok_value(&self) -> Option<T>;

    /// Hand out the success payload, or `None` for a failure.
    fn get_ok(self) -> (r: Option<T>)
        ensures
            r == self.ok_value(),
    ;
}

impl<T, E> GetOk<T> for Result<T, E> {
    open spec fn ok_value(&self) -> Option<T> {
        match *self {
            Ok(o) => Some(o),
            Err(_) => None,
        }
    }

    fn get_ok(self) -> (r: Option<T>) {
        match self {
            Ok(o) => Some(o),
            Err(_) => None,
        }
    }
}

/// Extension trait for any source: a fallible for-each.
pub trait Process<T>: Source<Item = T> + Sized {
    /// Hand each element to `f` in order, stopping at the first failure `f`
    /// answers, which is returned at once; when every element is accepted,
    /// a default success value is returned.
    fn process<R: Default, EE, F: Apply<In = T, Out = Result<R, EE>>>(self, f: F) -> (r: Result<
        R,
        EE,
    >)
        ensures
            match first_failure(self.remaining().map_values(|t: T| f.apply_spec(t))) {
                Some(e) => r == Err::<R, EE>(e),
                None => r is Ok,
            },
    ;
}

impl<I, T> Process<T> for I where I: Source<Item = T> {
    #[verifier::loop_isolation(false)]
    fn process<R: Default, EE, F: Apply<In = T, Out = Result<R, EE>>>(self, f: F) -> (r: Result<
        R,
        EE,
    >) {
        let ghost orig = self.remaining();
        let ghost g0 = |t: T| f.apply_spec(t);
        let mut src = self;
        let mut callback = f;
        loop
            invariant
                first_failure(orig.map_values(g0)) == first_failure(
                    src.remaining().map_values(|t: T| callback.apply_spec(t)),
                ),
            decreases src.remaining().len(),
        {
            let ghost pre = src.remaining();
            let ghost g1 = |t: T| callback.apply_spec(t);
            match src.next() {
                Some(t) => {
                    let answer = callback.apply(t);
                    proof {
                        let g2 = |t: T| callback.apply_spec(t);
                        assert(pre.map_values(g1).drop_first() =~= pre.drop_first().map_values(
                            g1,
                        ));
                        assert(pre.drop_first().map_values(g1) =~= pre.drop_first().map_values(
                            g2,
                        ));
                    }
                    match answer {
                        Ok(_) => {
                        },
                        Err(e) => {
                            return Err(e);
                        },
                    }
                },
                None => {
                    return Ok(R::default());
                },
            }
        }
    }
}

} // verus!
