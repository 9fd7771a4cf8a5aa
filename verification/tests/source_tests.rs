use resiter::flatten::Flatten;
use resiter::source::{Source, VecSource};

fn drain<S: Source>(mut s: S) -> Vec<S::Item> {
    let mut out = Vec::new();
    while let Some(item) = s.next() {
        out.push(item);
    }
    out
}

#[test]
fn vec_source_hands_out_its_elements_in_order() {
    let mut src = VecSource::new(vec![1, 2, 3]);
    assert_eq!(src.size_hint(), (3, Some(3)));
    assert_eq!(src.next(), Some(1));
    assert_eq!(src.size_hint(), (2, Some(2)));
    assert_eq!(src.next(), Some(2));
    assert_eq!(src.next(), Some(3));
    assert_eq!(src.next(), None);
    assert_eq!(src.next(), None);
    assert_eq!(src.size_hint(), (0, Some(0)));
}

#[test]
fn flatten_ok_splices_sub_sequences_in_position() {
    let input: Vec<Result<Vec<u32>, &'static str>> =
        vec![Ok(vec![1, 2]), Err("x"), Ok(vec![])];
    let flattened = drain(VecSource::new(input).flatten_ok());

    assert_eq!(flattened, vec![Ok(1), Ok(2), Err("x")]);
}

#[test]
fn flatten_hint_never_overpromises() {
    let input: Vec<Result<Vec<u32>, &'static str>> =
        vec![Ok(vec![1, 2, 3]), Ok(vec![]), Err("x")];
    let flattened = VecSource::new(input).flatten_ok();

    let (lower, upper) = flattened.size_hint();
    let rest = drain(flattened);
    assert!(lower <= rest.len());
    if let Some(u) = upper {
        assert!(rest.len() <= u);
    }
}

#[test]
fn flatten_ok_of_nothing_is_empty() {
    let input: Vec<Result<Vec<u32>, &'static str>> = vec![];
    let mut flattened = VecSource::new(input).flatten_ok();

    assert_eq!(flattened.next(), None);
}
