use spark_core::step_gen::{MotorState, PinWrites};

#[test]
fn step_gen_walks_to_target() {
    let mut m = MotorState::new();
    assert_eq!(m.process(), PinWrites { dir: None, step: None });
    m.set_target(2);
    assert_eq!(m.process(), PinWrites { dir: Some(true), step: Some(true) });
    assert_eq!(m.current(), 0);
    assert_eq!(m.process(), PinWrites { dir: None, step: Some(false) });
    assert_eq!(m.current(), 1);
    assert_eq!(m.process(), PinWrites { dir: None, step: None });
    // second step: direction unchanged, no dir write
    assert_eq!(m.process(), PinWrites { dir: None, step: Some(true) });
    m.process();
    m.process();
    assert_eq!(m.current(), 2);
    assert_eq!(m.process(), PinWrites { dir: None, step: None });
    m.set_target(-1);
    assert_eq!(m.process(), PinWrites { dir: Some(false), step: Some(true) });
    for _ in 0..8 {
        m.process();
    }
    assert_eq!(m.current(), -1);
}
