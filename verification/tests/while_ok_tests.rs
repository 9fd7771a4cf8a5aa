use resiter::callback::Accept;
use resiter::source::VecSource;
use resiter::while_ok::WhileOk;

use std::num::ParseIntError;

struct Summer {
    sum: usize,
    visits: usize,
}

impl Accept for Summer {
    type In = usize;

    fn taken(&self) -> vstd::prelude::Seq<usize> {
        unreachable!()
    }

    fn accept(&mut self, x: usize) {
        self.sum += x;
        self.visits += 1;
    }
}

fn parse_all(texts: &[&str]) -> Vec<Result<usize, ParseIntError>> {
    texts.iter().map(|t| t.parse::<usize>()).collect()
}

#[test]
fn while_ok_stops_at_first_failure() {
    let mut summer = Summer { sum: 0, visits: 0 };
    let res = VecSource::new(parse_all(&["1", "2", "a", "4", "5"])).while_ok(&mut summer);

    assert_eq!(summer.sum, 3);
    assert_eq!(summer.visits, 2);
    assert!(res.is_err());
}

#[test]
fn while_ok_consumes_everything_without_failures() {
    let mut summer = Summer { sum: 0, visits: 0 };
    let res = VecSource::new(parse_all(&["1", "2", "3", "4", "5"])).while_ok(&mut summer);

    assert_eq!(summer.sum, 15);
    assert_eq!(summer.visits, 5);
    assert!(res.is_ok());
}

#[test]
fn while_ok_on_empty_input_is_ok() {
    let mut summer = Summer { sum: 0, visits: 0 };
    let res = VecSource::new(parse_all(&[])).while_ok(&mut summer);

    assert_eq!(summer.sum, 0);
    assert_eq!(summer.visits, 0);
    assert_eq!(res, Ok(()));
}
