use resiter::callback::Supply;
use resiter::ok_or_else::{IterInnerOkOrElse, ResultOptionExt};
use resiter::source::{Source, VecSource};

use std::collections::HashMap;

struct Message(&'static str);

impl Supply for Message {
    type Out = &'static str;

    fn supply_spec(&self) -> &'static str {
        unreachable!()
    }

    fn supply(&mut self) -> &'static str {
        self.0
    }
}

fn try_collect<S, T, E>(mut s: S) -> Result<Vec<T>, E>
where
    S: Source<Item = Result<T, E>>,
{
    let mut out = Vec::new();
    while let Some(item) = s.next() {
        out.push(item?);
    }
    Ok(out)
}

#[test]
fn compile_test_1() {
    let v: Vec<i32> = vec![1, 2, 3, 4, 5, 6, 7, 8, 9, 0];
    let wrapped: Vec<Result<Option<i32>, &'static str>> =
        v.into_iter().map(|i| Ok(Some(i))).collect();
    let _: Result<Vec<i32>, &'static str> =
        try_collect(VecSource::new(wrapped).map_inner_ok_or_else(Message("error message")));
}

#[test]
fn compile_test_2() {
    let v: Vec<Option<i32>> = vec![
        Some(1),
        Some(2),
        Some(3),
        Some(4),
        Some(5),
        Some(6),
        Some(7),
        Some(8),
        Some(9),
        Some(0),
    ];
    let wrapped: Vec<Result<Option<i32>, &'static str>> = v.into_iter().map(Ok).collect();
    let _: Result<Vec<i32>, &'static str> =
        try_collect(VecSource::new(wrapped).map_inner_ok_or_else(Message("error message")));
}

#[test]
fn compile_test_3() {
    let v: Vec<i32> = vec![1, 2, 3, 4, 5, 6, 7, 8, 9, 0];
    let wrapped: Vec<Result<Option<i32>, &'static str>> = v
        .into_iter()
        .map(|i| if i < 5 { Some(i) } else { None })
        .map(Ok)
        .collect();
    let r: Result<Vec<i32>, &'static str> =
        try_collect(VecSource::new(wrapped).map_inner_ok_or_else(Message("less than 5 in list")));

    assert!(r.is_err());
    assert_eq!(r.unwrap_err(), "less than 5 in list");
}

#[test]
fn compile_test_4() {
    let v: Vec<i32> = vec![1, 2, 3, 4, 5, 6, 7, 8, 9, 0];
    let mut h = HashMap::new();
    (0..10).for_each(|e| {
        h.insert(e, e);
    });

    let wrapped: Vec<Result<Option<&i32>, &'static str>> = v
        .iter()
        .chain(std::iter::once(&10))
        .map(|e| Ok(h.get(e)))
        .collect();
    let r: Result<Vec<&i32>, &'static str> = try_collect(
        VecSource::new(wrapped).map_inner_ok_or_else(Message("at least one key missing")),
    );

    assert!(r.is_err());
    assert_eq!(r.unwrap_err(), "at least one key missing");
}

#[test]
fn inner_ok_or_else_folds_a_single_outcome() {
    let present: Result<Option<u32>, &'static str> = Ok(Some(7));
    let missing: Result<Option<u32>, &'static str> = Ok(None);
    let failed: Result<Option<u32>, &'static str> = Err("boom");

    assert_eq!(present.inner_ok_or_else(Message("nothing")), Ok(7));
    assert_eq!(missing.inner_ok_or_else(Message("nothing")), Err("nothing"));
    assert_eq!(failed.inner_ok_or_else(Message("nothing")), Err("boom"));
}

#[test]
fn option_folding_surfaces_emptiness() {
    let input: Vec<Result<Option<u32>, &'static str>> =
        vec![Ok(Some(1)), Err("e"), Ok(None), Ok(Some(4))];
    let mut folded = VecSource::new(input).map_inner_ok_or_else(Message("default"));

    let mut out = Vec::new();
    while let Some(item) = folded.next() {
        out.push(item);
    }
    assert_eq!(out, vec![Ok(1), Err("e"), Err("default"), Ok(4)]);
}
