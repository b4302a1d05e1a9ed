use spark_core::command::{Command, FastKey, Parsed, QuerySignal};
use spark_core::rx::{rx_action, RxAction, RxBatch};

#[test]
fn rx_actions() {
    assert!(matches!(rx_action(Parsed::Cancel, false, true), RxAction::Cancel));
    assert!(matches!(rx_action(Parsed::Cancel, true, true), RxAction::Ignore));
    assert!(matches!(
        rx_action(Parsed::Query(QuerySignal::Pos), true, true),
        RxAction::Query(QuerySignal::Pos)
    ));
    assert!(matches!(
        rx_action(Parsed::FastSet(FastKey::PumpEn(true)), false, false),
        RxAction::FastSet(FastKey::PumpEn(true))
    ));
    assert!(matches!(rx_action(Parsed::FastSet(FastKey::PumpEn(true)), false, true), RxAction::Ignore));
    assert!(matches!(rx_action(Parsed::Command(Command::Get), false, false), RxAction::Enqueue(Command::Get)));
    assert!(matches!(rx_action(Parsed::Command(Command::Get), true, true), RxAction::Ignore));
    assert!(matches!(rx_action(Parsed::Error, false, false), RxAction::SyntaxError));
    assert!(matches!(rx_action(Parsed::Error, false, true), RxAction::Ignore));
}

#[test]
fn chunk_cancel_discards_its_fast_settings() {
    let mut b = RxBatch::new();
    b.take_fastset(FastKey::PumpEn(true));
    b.take_cancel();
    b.take_fastset(FastKey::PumpEn(false));
    b.finish();
    assert!(b.cancel_seen);
    assert_eq!(b.fastsets.len(), 0);

    let mut b = RxBatch::new();
    for i in 0..10 {
        b.take_fastset(FastKey::PumpEn(i % 2 == 0));
    }
    b.finish();
    assert!(!b.cancel_seen);
    assert_eq!(b.fastsets.len(), 8);
    assert_eq!(b.fastsets[0], FastKey::PumpEn(true));
    assert_eq!(b.fastsets[7], FastKey::PumpEn(false));
}
