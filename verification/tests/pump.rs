use std::cell::Cell;
use std::rc::Rc;

use spark_core::pump::{Pin, Pump, SETTLE_OFF_TICKS, SETTLE_ON_TICKS};

struct TestPin(Rc<Cell<bool>>);

impl Pin for TestPin {
    fn level(&self) -> bool {
        self.0.get()
    }

    fn set(&mut self, high: bool) {
        self.0.set(high);
    }
}

fn pump() -> (Pump<TestPin>, Rc<Cell<bool>>) {
    let level = Rc::new(Cell::new(false));
    (Pump::new(TestPin(level.clone())), level)
}

#[test]
fn pump_settles_after_on_ticks() {
    let (mut p, level) = pump();
    assert!(p.settled());
    p.set_enable(true);
    assert!(level.get());
    for _ in 0..SETTLE_ON_TICKS {
        assert!(!p.settled());
        p.tick();
    }
    assert!(p.settled());
    p.set_enable(false);
    assert!(!level.get());
    for _ in 0..SETTLE_OFF_TICKS {
        assert!(!p.settled());
        p.tick();
    }
    assert!(p.settled());
}

#[test]
fn pump_override_forces_on() {
    let (mut p, level) = pump();
    p.set_override(true);
    assert!(level.get());
    assert!(p.settled());
    p.set_enable(false);
    assert!(level.get());
    p.set_override(false);
    assert!(!level.get());
    p.set_enable(true);
    p.cancel();
    assert!(!level.get());
    assert!(p.settled());
}
