use resiter::and_then_x::AndThenX;
use resiter::callback::Apply;
use resiter::source::{Source, VecSource};

use std::num::ParseIntError;

struct DoubleOk;

impl Apply for DoubleOk {
    type In = usize;
    type Out = Result<usize, ParseIntError>;

    fn apply_spec(&self, _x: usize) -> Result<usize, ParseIntError> {
        unreachable!()
    }

    fn apply(&mut self, x: usize) -> Result<usize, ParseIntError> {
        Ok(2 * x)
    }
}

struct Fifteen;

impl Apply for Fifteen {
    type In = ParseIntError;
    type Out = Result<usize, ParseIntError>;

    fn apply_spec(&self, _x: ParseIntError) -> Result<usize, ParseIntError> {
        unreachable!()
    }

    fn apply(&mut self, _x: ParseIntError) -> Result<usize, ParseIntError> {
        Ok(15)
    }
}

fn parse_all(texts: &[&str]) -> Vec<Result<usize, ParseIntError>> {
    texts.iter().map(|t| t.parse::<usize>()).collect()
}

fn drain<S: Source>(mut s: S) -> Vec<S::Item> {
    let mut out = Vec::new();
    while let Some(item) = s.next() {
        out.push(item);
    }
    out
}

#[test]
fn test_and_then_ok() {
    let mapped = drain(
        VecSource::new(parse_all(&["1", "2", "a", "4", "5"]))
            .and_then_ok(DoubleOk)
            .and_then_err(Fifteen),
    );

    assert_eq!(mapped[0], Ok(2));
    assert_eq!(mapped[1], Ok(4));
    assert_eq!(mapped[2], Ok(15));
    assert_eq!(mapped[3], Ok(8));
    assert_eq!(mapped[4], Ok(10));
}
