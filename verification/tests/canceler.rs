use spark_core::canceler::{Canceler, CANCEL_TICKS};

#[test]
fn canceler_window_lasts_cancel_ticks() {
    let mut c = Canceler::new();
    assert!(!c.canceled());
    assert!(!c.active());
    c.cancel();
    for _ in 0..CANCEL_TICKS {
        assert!(c.canceled());
        c.tick();
    }
    assert!(!c.canceled());
    c.tick();
    assert!(!c.canceled());
}

#[test]
fn canceler_watch_sees_cancel() {
    let mut c = Canceler::new();
    let w = c.watch();
    assert!(!w.cancelled(&c));
    c.tick();
    assert!(!w.cancelled(&c));
    c.cancel();
    assert!(w.cancelled(&c));
    let w2 = c.watch();
    assert!(!w2.cancelled(&c));
}

#[test]
fn canceler_fault_latches() {
    let mut c = Canceler::new();
    let w = c.watch();
    assert!(c.enter_fault());
    assert!(c.faulted());
    assert!(c.canceled());
    assert!(w.cancelled(&c));
    let w2 = c.watch();
    assert!(!c.enter_fault());
    assert!(!w2.cancelled(&c));
    for _ in 0..(CANCEL_TICKS as u32 + 5) {
        c.tick();
    }
    c.cancel();
    assert!(c.faulted());
    assert!(c.active());
}

#[test]
fn watcher_fires_only_on_bumps() {
    let mut c = Canceler::new();
    let w = c.watch();
    c.tick();
    assert!(!c.canceled());
    assert!(!w.cancelled(&c));
    assert!(c.enter_fault());
    assert!(w.cancelled(&c));
    let w2 = c.watch();
    assert!(!c.enter_fault());
    c.tick();
    let _ = c.faulted();
    let _ = c.active();
    assert!(!w2.cancelled(&c));
    c.cancel();
    assert!(w2.cancelled(&c));
}
