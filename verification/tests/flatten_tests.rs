use resiter::callback::Apply;
use resiter::flatten::Flatten;
use resiter::map::MapExt;
use resiter::source::{Source, VecSource};

struct RangeOf;

impl Apply for RangeOf {
    type In = i32;
    type Out = Vec<i32>;

    fn apply_spec(&self, _x: i32) -> Vec<i32> {
        unreachable!()
    }

    fn apply(&mut self, x: i32) -> Vec<i32> {
        (0..x).collect()
    }
}

struct DoubledRangeOf;

impl Apply for DoubledRangeOf {
    type In = i32;
    type Out = Vec<i32>;

    fn apply_spec(&self, _x: i32) -> Vec<i32> {
        unreachable!()
    }

    fn apply(&mut self, x: i32) -> Vec<i32> {
        (0..(x * 2)).collect()
    }
}

fn drain<S: Source>(mut s: S) -> Vec<S::Item> {
    let mut out = Vec::new();
    while let Some(item) = s.next() {
        out.push(item);
    }
    out
}

#[test]
fn test_flatten_ok() {
    let mapped = drain(
        VecSource::new(vec![Ok(1), Ok(2), Err(2), Err(0), Ok(2)])
            .map_ok(RangeOf)
            .map_err(DoubledRangeOf)
            .flatten_ok()
            .flatten_err(),
    );

    assert_eq!(
        mapped,
        [
            Ok(0),
            Ok(0),
            Ok(1),
            Err(0),
            Err(1),
            Err(2),
            Err(3),
            Ok(0),
            Ok(1)
        ]
    );
}
