use spark_core::pulser::{
    decode_res_cut, decode_res_probe, energize_writes, CutResult, PulserState, PulserStep,
    Request, REG_CTRL, REG_CURR, REG_DUR, REG_DUTY, REG_MODE,
};

#[test]
fn pulser_decode_results() {
    assert_eq!(
        decode_res_cut(0b1001_0011, 42),
        Some(CutResult { fault: true, open_sevenths: 2, short_sevenths: 3, num_good: 42 })
    );
    assert_eq!(decode_res_cut(0b0010_0100, 0), None);
    assert_eq!(
        decode_res_cut(0b0011_1000, 1),
        Some(CutResult { fault: false, open_sevenths: 7, short_sevenths: 0, num_good: 1 })
    );
    assert_eq!(decode_res_probe(0x81), (true, true));
    assert_eq!(decode_res_probe(0x02), (false, false));
}

#[test]
fn pulser_energize_sequence() {
    assert_eq!(
        energize_writes(Request::Cut, 1, 0x53, 0x3f),
        vec![(REG_MODE, 1), (REG_CURR, 1), (REG_DUR, 0x53), (REG_DUTY, 0x3f), (REG_CTRL, 1)]
    );
    assert_eq!(energize_writes(Request::Probe, 9, 9, 9), vec![(REG_MODE, 0), (REG_CTRL, 1)]);
}

#[test]
fn pulser_state_machine() {
    let mut p = PulserState::new();
    assert!(p.fault());
    p.init_done(0b10);
    assert!(!p.fault());
    assert_eq!(p.next_step(), PulserStep::Idle);
    assert!(p.settled());
    p.request_probe();
    assert!(!p.settled());
    assert_eq!(p.next_step(), PulserStep::Energize(Request::Probe));
    p.record_write(true);
    p.record_write(true);
    p.energize_done();
    assert!(p.settled());
    assert_eq!(p.next_step(), PulserStep::Poll(Request::Probe));
    p.probe_polled(Some((false, false)));
    assert!(!p.probe_contact());
    p.probe_polled(Some((false, true)));
    p.probe_polled(Some((false, false)));
    assert!(p.probe_contact());
    p.probe_polled(None);
    p.request_deenergize();
    assert!(!p.probe_contact());
    assert_eq!(p.next_step(), PulserStep::Deenergize);
    p.record_write(false);
    assert!(p.fault());
    p.deenergize_done();
    assert!(p.settled());
    let s = p.read_stat();
    assert!(s.fault);
    assert!(!s.energized);
    assert_eq!((s.i2c_write, s.i2c_write_fail, s.i2c_read, s.i2c_read_fail), (3, 1, 4, 1));
    p.request_cut();
    p.cut_polled(Some(CutResult { fault: false, open_sevenths: 0, short_sevenths: 0, num_good: 0 }));
    assert!(p.fault());
}
