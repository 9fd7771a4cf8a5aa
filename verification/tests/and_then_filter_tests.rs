use resiter::and_then_filter::AndThenFilter;
use resiter::callback::Apply;
use resiter::source::{Source, VecSource};

struct KeepSmall;

impl Apply for KeepSmall {
    type In = &'static str;
    type Out = Option<Result<usize, String>>;

    fn apply_spec(&self, _x: &'static str) -> Option<Result<usize, String>> {
        unreachable!()
    }

    fn apply(&mut self, txt: &'static str) -> Option<Result<usize, String>> {
        match txt.parse::<usize>() {
            Err(e) => Some(Err(e.to_string())),
            Ok(u) => {
                if u < 3 {
                    Some(Ok(u))
                } else {
                    None
                }
            }
        }
    }
}

fn drain<S: Source>(mut s: S) -> Vec<S::Item> {
    let mut out = Vec::new();
    while let Some(item) = s.next() {
        out.push(item);
    }
    out
}

#[test]
fn and_then_filter_maps_drops_and_fails() {
    let input: Vec<Result<&'static str, String>> = vec![
        Ok("1"),
        Err("2".to_owned()),
        Ok("a"),
        Err("4".to_owned()),
        Ok("5"),
        Err("b".to_owned()),
        Err("8".to_owned()),
    ];
    let filter_mapped = drain(VecSource::new(input).and_then_filter(KeepSmall));

    assert_eq!(
        filter_mapped,
        [
            Ok(1),
            Err("2".to_owned()),
            Err("invalid digit found in string".to_owned()),
            Err("4".to_owned()),
            Err("b".to_owned()),
            Err("8".to_owned())
        ]
    );
}
