use resiter::callback::Apply;
use resiter::source::VecSource;
use resiter::util::{GetErr, GetOk, Process};

struct SmallOnly;

impl Apply for SmallOnly {
    type In = usize;
    type Out = Result<(), String>;

    fn apply_spec(&self, _x: usize) -> Result<(), String> {
        unreachable!()
    }

    fn apply(&mut self, x: usize) -> Result<(), String> {
        if x < 10 {
            Ok(())
        } else {
            Err(format!("{} is too large", x))
        }
    }
}

#[test]
fn get_ok_and_get_err_extract_one_branch() {
    let ok: Result<usize, String> = Ok(3);
    let err: Result<usize, String> = Err("bad".to_owned());

    assert_eq!(ok.clone().get_ok(), Some(3));
    assert_eq!(ok.get_err(), None);
    assert_eq!(err.clone().get_ok(), None);
    assert_eq!(err.get_err(), Some("bad".to_owned()));
}

#[test]
fn process_accepts_every_small_element() {
    let r = VecSource::new(vec![1usize, 2, 3]).process(SmallOnly);
    assert_eq!(r, Ok(()));
}

#[test]
fn process_stops_at_the_first_rejected_element() {
    let r = VecSource::new(vec![1usize, 42, 2, 99]).process(SmallOnly);
    assert_eq!(r, Err("42 is too large".to_owned()));
}
