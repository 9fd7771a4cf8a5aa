use resiter::callback::Apply;
use resiter::flat_map::FlatMap;
use resiter::source::{Source, VecSource};

struct RangeOf;

impl Apply for RangeOf {
    type In = i32;
    type Out = Vec<i32>;

    fn apply_spec(&self, _x: i32) -> Vec<i32> {
        unreachable!()
    }

    fn apply(&mut self, x: i32) -> Vec<i32> {
        (0..x).collect()
    }
}

struct DoubledRangeOf;

impl Apply for DoubledRangeOf {
    type In = i32;
    type Out = Vec<i32>;

    fn apply_spec(&self, _x: i32) -> Vec<i32> {
        unreachable!()
    }

    fn apply(&mut self, x: i32) -> Vec<i32> {
        (0..(x * 2)).collect()
    }
}

fn drain<S: Source>(mut s: S) -> Vec<S::Item> {
    let mut out = Vec::new();
    while let Some(item) = s.next() {
        out.push(item);
    }
    out
}

#[test]
fn test_flat_map_ok() {
    let mapped = drain(
        VecSource::new(vec![Ok(1), Ok(2), Err(2), Err(0), Ok(2)]).flat_map_ok(RangeOf),
    );

    assert_eq!(mapped, [Ok(0), Ok(0), Ok(1), Err(2), Err(0), Ok(0), Ok(1)]);
}

#[test]
fn test_flat_map_err() {
    let mapped = drain(
        VecSource::new(vec![Ok(1), Ok(2), Err(2), Err(0), Ok(2)]).flat_map_err(DoubledRangeOf),
    );

    assert_eq!(mapped, [Ok(1), Ok(2), Err(0), Err(1), Err(2), Err(3), Ok(2)]);
}
