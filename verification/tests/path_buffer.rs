use spark_core::path_buffer::{MoveError, NotchHistory};

#[test]
fn notch_forward_and_back() {
    let mut h: NotchHistory<10> = NotchHistory::new();
    assert_eq!(h.newest_index(), 0);
    assert_eq!(h.backward_notches(), 0);
    assert_eq!(h.step(3), Ok(3));
    for _ in 0..3 {
        h.push();
    }
    assert_eq!(h.newest_index(), 3);
    assert_eq!(h.cum_notches(), 3);
    assert_eq!(h.backward_notches(), 3);
    assert_eq!(h.step(-2), Ok(0));
    assert_eq!(h.retract_notches(), 2);
    assert_eq!(h.position_index(), 1);
    assert_eq!(h.cum_notches(), 1);
    // advancing first uses up the retraction
    assert_eq!(h.step(3), Ok(1));
    assert_eq!(h.retract_notches(), 0);
    assert_eq!(h.cum_notches(), 3);
    assert_eq!(h.step(0), Ok(0));
}

#[test]
fn notch_retraction_limit() {
    let mut h: NotchHistory<4> = NotchHistory::new();
    assert_eq!(h.step(6), Ok(6));
    for _ in 0..6 {
        h.push();
    }
    // four positions held: three notches of retraction at most
    assert_eq!(h.backward_notches(), 3);
    assert_eq!(h.newest_index(), 2);
    assert_eq!(h.step(-5), Err(MoveError::RetractLimitExceeded));
    assert_eq!(h.retract_notches(), 3);
    assert_eq!(h.cum_notches(), 3);
    assert_eq!(h.position_index(), 3);
}

#[test]
fn notch_retract_then_advance_returns() {
    let mut h: NotchHistory<8> = NotchHistory::new();
    h.step(5).unwrap();
    for _ in 0..5 {
        h.push();
    }
    let before = (h.position_index(), h.cum_notches(), h.retract_notches());
    assert_eq!(h.step(-4), Ok(0));
    assert_eq!(h.step(4), Ok(0));
    assert_eq!((h.position_index(), h.cum_notches(), h.retract_notches()), before);
}
