use resiter::errors::GetErrors;
use resiter::oks::GetOks;
use resiter::source::{Source, VecSource};

use std::num::ParseIntError;

fn parse_all(texts: &[&str]) -> Vec<Result<usize, ParseIntError>> {
    texts.iter().map(|t| t.parse::<usize>()).collect()
}

fn drain<S: Source>(mut s: S) -> Vec<S::Item> {
    let mut out = Vec::new();
    while let Some(item) = s.next() {
        out.push(item);
    }
    out
}

#[test]
fn oks_keeps_only_successes() {
    let res = drain(VecSource::new(parse_all(&["1", "2", "3", "a", "4", "5"])).oks());

    assert_eq!(res, vec![1, 2, 3, 4, 5]);
}

#[test]
fn errors_keeps_only_failures() {
    let res = drain(VecSource::new(parse_all(&["1", "2", "a", "4", "b"])).errors());

    assert_eq!(res.len(), 2);
}

#[test]
fn extracting_successes_twice_gives_the_same_list() {
    let input = &["1", "2", "a", "4", "b"];
    let first = drain(VecSource::new(parse_all(input)).oks());
    let again: Vec<Result<usize, ParseIntError>> = first.iter().map(|o| Ok(*o)).collect();
    let second = drain(VecSource::new(again).oks());

    assert_eq!(first, second);
    assert_eq!(first, vec![1, 2, 4]);
}

#[test]
fn oks_and_errors_partition_the_input() {
    let input = &["1", "x", "2", "y", "z", "3"];
    let oks = drain(VecSource::new(parse_all(input)).oks());
    let errors = drain(VecSource::new(parse_all(input)).errors());

    assert_eq!(oks.len() + errors.len(), input.len());
}

#[test]
fn extraction_hints_are_sound() {
    let oks_hint = VecSource::new(parse_all(&["1", "a", "2"])).oks().size_hint();
    let errors_hint = VecSource::new(parse_all(&["1", "a", "2"]))
        .errors()
        .size_hint();

    assert_eq!(oks_hint, (0, Some(3)));
    assert_eq!(errors_hint, (0, Some(3)));
}
