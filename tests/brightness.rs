use std::cell::{Cell, RefCell};

use pleb_ui::brightness::{clip_outcome, Brightness};

/// A device held in memory, with reads that can be made to fail.
struct Device {
    min: i64,
    max: i64,
    current: Cell<i64>,
    fail_on: Option<&'static str>,
    log: RefCell<Vec<String>>,
}

impl Device {
    fn new(min: i64, max: i64, current: i64) -> Self {
        Device { min, max, current: Cell::new(current), fail_on: None, log: RefCell::new(Vec::new()) }
    }

    fn read(&self, what: &'static str, v: i64) -> Result<i64, String> {
        self.log.borrow_mut().push(what.to_string());
        if self.fail_on == Some(what) {
            Err(format!("{} failed", what))
        } else {
            Ok(v)
        }
    }
}

impl Brightness for Device {
    type E = String;

    fn max(&self) -> Result<i64, String> {
        self.read("max", self.max)
    }

    fn min(&self) -> Result<i64, String> {
        self.read("min", self.min)
    }

    fn current(&self) -> Result<i64, String> {
        self.read("current", self.current.get())
    }

    fn set(&self, value: i64) -> Result<(), String> {
        self.log.borrow_mut().push(format!("set {}", value));
        self.current.set(value);
        Ok(())
    }
}

#[test]
fn down_fifteen_from_forty_of_hundred() {
    let d = Device::new(0, 100, 40);
    assert_eq!(d.change_n_clip(-15), Ok(()));
    assert_eq!(d.current.get(), 25);
    assert_eq!(*d.log.borrow(), vec!["min", "max", "current", "set 25"]);
}

#[test]
fn change_n_clip_clamps_to_live_range() {
    let d = Device::new(10, 90, 85);
    assert_eq!(d.change_n_clip(20), Ok(()));
    assert_eq!(d.current.get(), 90);
    assert_eq!(d.change_n_clip(-200), Ok(()));
    assert_eq!(d.current.get(), 10);
    assert_eq!(d.change_n_clip(0), Ok(()));
    assert_eq!(d.current.get(), 10);
}

#[test]
fn change_n_clip_stops_at_first_failed_read() {
    for (what, reads) in [("min", 1), ("max", 2), ("current", 3)] {
        let mut d = Device::new(0, 100, 40);
        d.fail_on = Some(what);
        assert_eq!(d.change_n_clip(5), Err(format!("{} failed", what)));
        assert_eq!(d.log.borrow().len(), reads);
        assert_eq!(d.current.get(), 40);
    }
}

#[test]
fn clip_outcome_gives_first_error_in_read_order() {
    let e = |s: &str| Err::<i64, String>(s.to_string());
    assert_eq!(clip_outcome(e("min"), None, None, 5), e("min"));
    assert_eq!(clip_outcome(Ok(0), Some(e("max")), None, 5), e("max"));
    assert_eq!(clip_outcome(Ok(0), Some(Ok(100)), Some(e("current")), 5), e("current"));
    assert_eq!(clip_outcome::<String>(Ok(0), Some(Ok(100)), Some(Ok(40)), -15), Ok(25));
    assert_eq!(clip_outcome::<String>(Ok(0), Some(Ok(100)), Some(Ok(95)), 10), Ok(100));
}
