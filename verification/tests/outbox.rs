use spark_core::outbox::{DrainState, OutputBuf};
use spark_core::pstate::{Line, PsType};

#[test]
fn outbox_stages_lines_with_lf() {
    let mut b: OutputBuf<64> = OutputBuf::new();
    b.push(Line::new(PsType::Sys).str_val("ev", "boot"));
    b.push_error("queue full");
    assert!(!b.overflowed());
    assert_eq!(b.take(), b"sys ev:\"boot\"\nerror < msg:\"queue full\" >\n".to_vec());
    assert_eq!(b.take(), Vec::<u8>::new());
}

#[test]
fn outbox_drops_line_that_does_not_fit() {
    let mut b: OutputBuf<8> = OutputBuf::new();
    b.push(Line::new(PsType::Sys)); // 4 bytes with LF
    b.push(Line::new(PsType::Pos)); // 4 more: exactly full
    assert!(!b.overflowed());
    b.push(Line::new(PsType::Edm));
    assert!(b.overflowed());
    assert_eq!(b.take(), b"sys\npos\n".to_vec());
    assert!(!b.overflowed());
}

#[test]
fn outbox_drain_state() {
    let mut d = DrainState::new();
    assert!(d.is_drained());
    d.refill(b"hello");
    assert!(!d.is_drained());
    assert_eq!(d.pending(), b"hello");
    d.consume(2);
    assert_eq!(d.pending(), b"llo");
    d.consume(3);
    assert!(d.is_drained());
}
