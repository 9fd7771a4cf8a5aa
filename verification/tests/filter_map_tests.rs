use resiter::callback::Apply;
use resiter::filter_map::FilterMap;
use resiter::source::{Source, VecSource};

use std::num::ParseIntError;

struct ParseToOption;

impl Apply for ParseToOption {
    type In = &'static str;
    type Out = Option<usize>;

    fn apply_spec(&self, _x: &'static str) -> Option<usize> {
        unreachable!()
    }

    fn apply(&mut self, x: &'static str) -> Option<usize> {
        x.parse::<usize>().ok()
    }
}

struct DoubleToOption;

impl Apply for DoubleToOption {
    type In = usize;
    type Out = Option<usize>;

    fn apply_spec(&self, _x: usize) -> Option<usize> {
        unreachable!()
    }

    fn apply(&mut self, x: usize) -> Option<usize> {
        Some(2 * x)
    }
}

struct FormatToOption;

impl Apply for FormatToOption {
    type In = ParseIntError;
    type Out = Option<String>;

    fn apply_spec(&self, _x: ParseIntError) -> Option<String> {
        unreachable!()
    }

    fn apply(&mut self, x: ParseIntError) -> Option<String> {
        Some(format!("{:?}", x))
    }
}

fn mixed() -> Vec<Result<&'static str, &'static str>> {
    vec![
        Ok("1"),
        Err("2"),
        Ok("a"),
        Err("4"),
        Ok("5"),
        Err("b"),
        Err("8"),
    ]
}

fn parse_all(texts: &[&str]) -> Vec<Result<usize, ParseIntError>> {
    texts.iter().map(|t| t.parse::<usize>()).collect()
}

fn drain<S: Source>(mut s: S) -> Vec<S::Item> {
    let mut out = Vec::new();
    while let Some(item) = s.next() {
        out.push(item);
    }
    out
}

#[test]
fn test_filter_map_ok() {
    let filter_mapped = drain(VecSource::new(mixed()).filter_map_ok(ParseToOption));

    assert_eq!(filter_mapped[0], Ok(1));
    assert_eq!(filter_mapped[1], Err("2"));
    assert_eq!(filter_mapped[2], Err("4"));
    assert_eq!(filter_mapped[3], Ok(5));
    assert_eq!(filter_mapped[4], Err("b"));
    assert_eq!(filter_mapped[5], Err("8"));
}

#[test]
fn test_filter_map_err() {
    let filter_mapped = drain(VecSource::new(mixed()).filter_map_err(ParseToOption));

    assert_eq!(filter_mapped[0], Ok("1"));
    assert_eq!(filter_mapped[1], Err(2));
    assert_eq!(filter_mapped[2], Ok("a"));
    assert_eq!(filter_mapped[3], Err(4));
    assert_eq!(filter_mapped[4], Ok("5"));
    assert_eq!(filter_mapped[5], Err(8));
}

#[test]
fn test_filter_map_ok_hint() {
    let hint = VecSource::new(parse_all(&["1", "2", "a", "4", "5"]))
        .filter_map_ok(DoubleToOption)
        .size_hint();

    assert_eq!(hint, (0, Some(5)));
}

#[test]
fn test_filter_map_err_hint() {
    let hint = VecSource::new(parse_all(&["1", "2", "a", "4", "5"]))
        .filter_map_err(FormatToOption)
        .size_hint();

    assert_eq!(hint, (0, Some(5)));
}
