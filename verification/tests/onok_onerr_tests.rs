use resiter::callback::Inspect;
use resiter::onerr::OnErrDo;
use resiter::onok::OnOkDo;
use resiter::source::{Source, VecSource};

use std::cell::RefCell;
use std::num::ParseIntError;
use std::rc::Rc;

struct Recorder<T> {
    log: Rc<RefCell<Vec<T>>>,
}

impl<T: Clone> Inspect for Recorder<T> {
    type In = T;

    fn seen(&self) -> vstd::prelude::Seq<T> {
        unreachable!()
    }

    fn inspect(&mut self, x: &T) {
        self.log.borrow_mut().push(x.clone());
    }
}

fn parse_all(texts: &[&str]) -> Vec<Result<usize, ParseIntError>> {
    texts.iter().map(|t| t.parse::<usize>()).collect()
}

fn drain<S: Source>(mut s: S) -> Vec<S::Item> {
    let mut out = Vec::new();
    while let Some(item) = s.next() {
        out.push(item);
    }
    out
}

#[test]
fn on_ok_observes_each_success_and_changes_nothing() {
    let log = Rc::new(RefCell::new(Vec::new()));
    let input = parse_all(&["1", "2", "a", "b", "5"]);
    let passed = drain(VecSource::new(input.clone()).on_ok(Recorder { log: log.clone() }));

    assert_eq!(passed, input);
    assert_eq!(*log.borrow(), vec![1, 2, 5]);
}

#[test]
fn on_err_observes_each_failure_and_changes_nothing() {
    let log = Rc::new(RefCell::new(Vec::new()));
    let input = parse_all(&["1", "2", "a", "b", "5"]);
    let passed = drain(VecSource::new(input.clone()).on_err(Recorder { log: log.clone() }));

    assert_eq!(passed, input);
    assert_eq!(log.borrow().len(), 2);
}

#[test]
fn observation_hints_match_upstream() {
    let log = Rc::new(RefCell::new(Vec::new()));
    let hint = VecSource::new(parse_all(&["1", "2", "a"]))
        .on_ok(Recorder { log })
        .size_hint();

    assert_eq!(hint, (3, Some(3)));
}
