use resiter::callback::{Check, TryCheck};
use resiter::filter::Filter;
use resiter::source::{Source, VecSource};

use std::num::ParseIntError;

struct IsEven;

impl Check for IsEven {
    type In = usize;

    fn check_spec(&self, _x: usize) -> bool {
        unreachable!()
    }

    fn check(&mut self, x: &usize) -> bool {
        x % 2 == 0
    }
}

struct NoErr;

impl Check for NoErr {
    type In = ParseIntError;

    fn check_spec(&self, _x: ParseIntError) -> bool {
        unreachable!()
    }

    fn check(&mut self, _x: &ParseIntError) -> bool {
        false
    }
}

struct ParseBelowThree;

impl TryCheck for ParseBelowThree {
    type In = &'static str;
    type Err = ParseIntError;

    fn verdict_spec(&self, _x: &'static str) -> Result<bool, ParseIntError> {
        unreachable!()
    }

    fn verdict(&mut self, x: &&'static str) -> Result<bool, ParseIntError> {
        x.parse::<usize>().map(|n| n < 3)
    }
}

fn parse_all(texts: &[&str]) -> Vec<Result<usize, ParseIntError>> {
    texts.iter().map(|t| t.parse::<usize>()).collect()
}

fn drain<S: Source>(mut s: S) -> Vec<S::Item> {
    let mut out = Vec::new();
    while let Some(item) = s.next() {
        out.push(item);
    }
    out
}

#[test]
fn test_filter_ok() {
    let mapped = drain(VecSource::new(parse_all(&["1", "2", "a", "4", "5"])).filter_ok(IsEven));

    assert_eq!(mapped.len(), 3);
    assert_eq!(mapped[0], Ok(2));
    assert_eq!(mapped[2], Ok(4));
}

#[test]
fn test_filter_ok_hint() {
    let hint = VecSource::new(parse_all(&["1", "2", "a", "4", "5"]))
        .filter_ok(IsEven)
        .size_hint();

    assert_eq!(hint, (0, Some(5)));
}

#[test]
fn test_filter_err() {
    let mapped = drain(VecSource::new(parse_all(&["1", "2", "a", "4", "5"])).filter_err(NoErr));

    assert_eq!(mapped, vec![Ok(1), Ok(2), Ok(4), Ok(5)]);
}

#[test]
fn test_filter_err_hint() {
    let hint = VecSource::new(parse_all(&["1", "2", "a", "4", "5"]))
        .filter_err(NoErr)
        .size_hint();

    assert_eq!(hint, (0, Some(5)));
}

#[test]
fn test_filter_ok_and_then() {
    let texts: Vec<Result<&'static str, ParseIntError>> =
        ["1", "2", "a", "4", "5"].iter().map(|t| Ok(*t)).collect();
    let v = drain(VecSource::new(texts).filter_ok_and_then(ParseBelowThree));

    assert_eq!(v.len(), 3);
    assert_eq!(v.iter().filter(|x| x.is_ok()).count(), 2);
    assert_eq!(v.iter().filter(|x| x.is_err()).count(), 1);
}
