use resiter::callback::Apply;
use resiter::map::MapExt;
use resiter::source::{Source, VecSource};

use std::num::ParseIntError;

struct Doubler;

impl Apply for Doubler {
    type In = usize;
    type Out = usize;

    fn apply_spec(&self, _x: usize) -> usize {
        unreachable!()
    }

    fn apply(&mut self, x: usize) -> usize {
        2 * x
    }
}

struct FormatErr;

impl Apply for FormatErr {
    type In = ParseIntError;
    type Out = String;

    fn apply_spec(&self, _x: ParseIntError) -> String {
        unreachable!()
    }

    fn apply(&mut self, x: ParseIntError) -> String {
        format!("{:?}", x)
    }
}

fn parse_all(texts: &[&str]) -> Vec<Result<usize, ParseIntError>> {
    texts.iter().map(|t| t.parse::<usize>()).collect()
}

fn drain<S: Source>(mut s: S) -> Vec<S::Item> {
    let mut out = Vec::new();
    while let Some(item) = s.next() {
        out.push(item);
    }
    out
}

#[test]
fn map_ok_doubles_only_successes() {
    let mapped = drain(VecSource::new(parse_all(&["1", "2", "a", "4", "5"])).map_ok(Doubler));

    assert_eq!(mapped.len(), 5);
    assert_eq!(mapped[0], Ok(2));
    assert_eq!(mapped[1], Ok(4));
    assert!(mapped[2].is_err());
    assert_eq!(mapped[3], Ok(8));
    assert_eq!(mapped[4], Ok(10));
}

#[test]
fn test_map_ok_hint() {
    let hint = VecSource::new(parse_all(&["1", "2", "a", "4", "5"]))
        .map_ok(Doubler)
        .size_hint();

    assert_eq!(hint, (5, Some(5)));
}

#[test]
fn test_map_err_hint() {
    let hint = VecSource::new(parse_all(&["1", "2", "a", "4", "5"]))
        .map_err(FormatErr)
        .size_hint();

    assert_eq!(hint, (5, Some(5)));
}

#[test]
fn map_err_formats_only_failures() {
    let mapped = drain(VecSource::new(parse_all(&["1", "2", "a", "4", "5"])).map_err(FormatErr));

    assert_eq!(mapped.len(), 5);
    assert_eq!(mapped[0], Ok(1));
    assert_eq!(mapped[1], Ok(2));
    assert_eq!(
        mapped[2],
        Err("ParseIntError { kind: InvalidDigit }".to_string())
    );
    assert_eq!(mapped[3], Ok(4));
    assert_eq!(mapped[4], Ok(5));
}
