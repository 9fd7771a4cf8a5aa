use resiter::and_then::AndThen;
use resiter::callback::Apply;
use resiter::source::{Source, VecSource};

use std::num::ParseIntError;

struct DoubleOk;

impl Apply for DoubleOk {
    type In = usize;
    type Out = Result<usize, (&'static str, ParseIntError)>;

    fn apply_spec(&self, _x: usize) -> Result<usize, (&'static str, ParseIntError)> {
        unreachable!()
    }

    fn apply(&mut self, x: usize) -> Result<usize, (&'static str, ParseIntError)> {
        Ok(2 * x)
    }
}

struct RecoverA;

impl Apply for RecoverA {
    type In = (&'static str, ParseIntError);
    type Out = Result<usize, ParseIntError>;

    fn apply_spec(&self, _x: (&'static str, ParseIntError)) -> Result<usize, ParseIntError> {
        unreachable!()
    }

    fn apply(&mut self, x: (&'static str, ParseIntError)) -> Result<usize, ParseIntError> {
        if x.0 == "a" {
            Ok(15)
        } else {
            Err(x.1)
        }
    }
}

fn parse_tagged(
    texts: &[&'static str],
) -> Vec<Result<usize, (&'static str, ParseIntError)>> {
    texts
        .iter()
        .map(|t| t.parse::<usize>().map_err(|e| (*t, e)))
        .collect()
}

fn drain<S: Source>(mut s: S) -> Vec<S::Item> {
    let mut out = Vec::new();
    while let Some(item) = s.next() {
        out.push(item);
    }
    out
}

#[test]
fn and_then_ok_maps_successes_through_a_fallible_callback() {
    let mapped = drain(
        VecSource::new(parse_tagged(&["1", "2", "a", "b", "4", "5"])).and_then_ok(DoubleOk),
    );

    assert_eq!(mapped[0], Ok(2));
    assert_eq!(mapped[1], Ok(4));
    assert!(mapped[2].is_err());
    assert!(mapped[3].is_err());
    assert_eq!(mapped[4], Ok(8));
    assert_eq!(mapped[5], Ok(10));
}

#[test]
fn and_then_err_can_recover_chosen_failures() {
    let mapped = drain(
        VecSource::new(parse_tagged(&["1", "2", "a", "b", "4", "5"])).and_then_err(RecoverA),
    );

    assert_eq!(mapped[0], Ok(1));
    assert_eq!(mapped[1], Ok(2));
    assert_eq!(mapped[2], Ok(15));
    assert!(mapped[3].is_err());
    assert_eq!(mapped[4], Ok(4));
    assert_eq!(mapped[5], Ok(5));
}
