use resiter::callback::Apply;
use resiter::source::{Source, VecSource};
use resiter::unwrap::UnwrapWithExt;

use std::num::ParseIntError;

struct DropErrors;

impl Apply for DropErrors {
    type In = ParseIntError;
    type Out = Option<usize>;

    fn apply_spec(&self, _x: ParseIntError) -> Option<usize> {
        unreachable!()
    }

    fn apply(&mut self, _x: ParseIntError) -> Option<usize> {
        None
    }
}

struct SubstituteEight;

impl Apply for SubstituteEight {
    type In = ParseIntError;
    type Out = Option<usize>;

    fn apply_spec(&self, _x: ParseIntError) -> Option<usize> {
        unreachable!()
    }

    fn apply(&mut self, _x: ParseIntError) -> Option<usize> {
        Some(8)
    }
}

fn parse_all(texts: &[&str]) -> Vec<Result<usize, ParseIntError>> {
    texts.iter().map(|t| t.parse::<usize>()).collect()
}

fn drain<S: Source>(mut s: S) -> Vec<S::Item> {
    let mut out = Vec::new();
    while let Some(item) = s.next() {
        out.push(item);
    }
    out
}

#[test]
fn unwrap_with_drops_failures() {
    let unwrapped = drain(
        VecSource::new(parse_all(&["1", "2", "a", "b", "5"])).unwrap_with(DropErrors),
    );

    assert_eq!(unwrapped, vec![1, 2, 5]);
}

#[test]
fn unwrap_with_substitutes_failures() {
    let unwrapped = drain(
        VecSource::new(parse_all(&["1", "2", "a", "b", "5"])).unwrap_with(SubstituteEight),
    );

    assert_eq!(unwrapped, vec![1, 2, 8, 8, 5]);
}

#[test]
fn unwrap_with_hint_is_sound() {
    let hint = VecSource::new(parse_all(&["1", "2", "a", "b", "5"]))
        .unwrap_with(DropErrors)
        .size_hint();

    assert_eq!(hint, (0, Some(5)));
}
