use spark_core::motion::{
    edm_dispatch, mode_after, mode_name, ready_for_edm, tick_move, tracks_distance, EdmDispatch,
    Mode, TickFeedback, TickMove,
};

fn fb(discharge: bool, open_above: bool, short_above: bool) -> TickFeedback {
    TickFeedback { discharge, open_above, short_above }
}

#[test]
fn motion_tick_moves() {
    assert_eq!(tick_move(Mode::Idle, fb(true, true, true)), TickMove::Hold);
    assert_eq!(tick_move(Mode::Rapid, fb(true, false, false)), TickMove::Feed);
    assert_eq!(tick_move(Mode::Probing, fb(false, false, false)), TickMove::Feed);
    assert_eq!(tick_move(Mode::Probing, fb(true, false, false)), TickMove::Hold);
    assert_eq!(tick_move(Mode::EdmMove, fb(false, true, true)), TickMove::Advance);
    assert_eq!(tick_move(Mode::EdmMove, fb(false, false, true)), TickMove::Retract);
    assert_eq!(tick_move(Mode::EdmMove, fb(true, false, false)), TickMove::Hold);
}

#[test]
fn motion_modes_after_tick() {
    assert_eq!(mode_after(Mode::Rapid, fb(false, false, false), false), Mode::Rapid);
    assert_eq!(mode_after(Mode::Rapid, fb(false, false, false), true), Mode::Idle);
    assert_eq!(mode_after(Mode::Probing, fb(true, false, false), false), Mode::Idle);
    assert_eq!(mode_after(Mode::EdmMove, fb(true, true, false), false), Mode::EdmMove);
    assert_eq!(mode_after(Mode::EdmMove, fb(false, false, false), true), Mode::Idle);
    assert_eq!(mode_after(Mode::Idle, fb(false, false, false), false), Mode::Idle);
    assert!(tracks_distance(Mode::Rapid));
    assert!(!tracks_distance(Mode::Idle));
}

#[test]
fn motion_edm_dispatch() {
    assert!(ready_for_edm(Mode::Idle, false));
    assert!(ready_for_edm(Mode::EdmMove, true));
    assert!(!ready_for_edm(Mode::EdmMove, false));
    assert!(!ready_for_edm(Mode::Rapid, true));
    assert!(!ready_for_edm(Mode::Probing, true));
    assert_eq!(edm_dispatch(Mode::Idle), EdmDispatch::Start);
    assert_eq!(edm_dispatch(Mode::EdmMove), EdmDispatch::Extend);
    assert_eq!(mode_name(Mode::EdmMove), "edm");
    assert_eq!(mode_name(Mode::Probing), "probe");
}

#[test]
fn retraction_moves_backward() {
    assert_eq!(TickMove::Retract.direction(), -1);
    assert_eq!(TickMove::Advance.direction(), 1);
    assert_eq!(TickMove::Feed.direction(), 1);
    assert_eq!(TickMove::Hold.direction(), 0);
    assert_eq!(tick_move(Mode::EdmMove, fb(false, false, true)).direction(), -1);
}
