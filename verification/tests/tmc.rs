use spark_core::tmc2209::{
    chopconf_with_microstep, crc, microstep_supported, encode_read, encode_write, gconf_with_mstep_reg, ihold_irun,
    parse_reply, tcoolthrs_value, write_confirmed, Error, RegWrite, WriteAction, WriteEvent, REG_GCONF,
    REG_IFCNT,
};

#[test]
fn tmc_crc_known_values() {
    assert_eq!(crc(&[]), 0);
    assert_eq!(crc(&[0x05, 0x00, 0x00]), 0x48);
    assert_eq!(crc(&[0x05, 0x00, 0x02]), 0x8f);
}

#[test]
fn tmc_encode() {
    assert_eq!(encode_read(REG_GCONF), [0x05, 0x00, 0x00, 0x48]);
    assert_eq!(encode_read(REG_IFCNT), [0x05, 0x00, 0x02, 0x8f]);
    assert_eq!(encode_read(0x82), [0x05, 0x00, 0x02, 0x8f]);
    assert_eq!(
        encode_write(0x10, 0x0001_1f10),
        [0x05, 0x00, 0x90, 0x00, 0x01, 0x1f, 0x10, 0xdf]
    );
}

#[test]
fn tmc_parse_reply() {
    let good = [0x05, 0xff, 0x02, 0x00, 0x00, 0x00, 0x07, 0xe2];
    assert!(matches!(parse_reply::<()>(&good, REG_IFCNT), Ok(7)));
    let mut bad = good;
    bad[0] = 0x55;
    assert!(matches!(parse_reply::<()>(&bad, REG_IFCNT), Err(Error::ReplyBadSync)));
    let mut bad = good;
    bad[1] = 0x00;
    assert!(matches!(parse_reply::<()>(&bad, REG_IFCNT), Err(Error::ReplyBadMaster)));
    assert!(matches!(parse_reply::<()>(&good, REG_GCONF), Err(Error::ReplyRegMismatch)));
    let mut bad = good;
    bad[7] ^= 1;
    assert!(matches!(parse_reply::<()>(&bad, REG_IFCNT), Err(Error::ReplyCrc)));
}

#[test]
fn tmc_reply_roundtrip() {
    for &(reg, val) in &[(0x00u8, 0u32), (0x6c, 0x1000_0053), (0x41, 0xffff_ffff)] {
        let mut f = [0x05u8, 0xff, reg & 0x7f, 0, 0, 0, 0, 0];
        f[3..7].copy_from_slice(&val.to_be_bytes());
        f[7] = crc(&f[..7]);
        assert!(matches!(parse_reply::<()>(&f, reg), Ok(v) if v == val));
    }
}

#[test]
fn tmc_register_values() {
    assert_eq!(ihold_irun(50, 20), 0x000A_1006);
    assert_eq!(ihold_irun(100, 100), 0x000A_1F1F);
    assert_eq!(ihold_irun(0, 0), 0x000A_0000);
    assert_eq!(ihold_irun(150, 0), 0x000A_2F00);
    assert_eq!(chopconf_with_microstep(0x1000_0053, 256), 0x1000_0053);
    assert_eq!(chopconf_with_microstep(0x1000_0053, 32), 0x1300_0053);
    assert_eq!(chopconf_with_microstep(0xffff_ffff, 1), 0xf8ff_ffff);
    assert_eq!(chopconf_with_microstep(0, 3), 0x0800_0000);
    assert_eq!(chopconf_with_microstep(0, 24), 0x0500_0000);
    assert!(microstep_supported(256));
    assert!(microstep_supported(1));
    assert!(!microstep_supported(512));
    assert!(!microstep_supported(0));
    assert_eq!(gconf_with_mstep_reg(0x41), 0xc1);
    assert_eq!(tcoolthrs_value(0xfff0_0001), 0x0000_0001);
    assert!(write_confirmed(4, 5));
    assert!(write_confirmed(255, 0));
    assert!(!write_confirmed(4, 4));
}

#[test]
fn confirmed_write_runs_read_send_read() {
    use_write_sequence(0x6c, 0x1234_5678, 0x0000_0107, 0x0000_0108, true);
    use_write_sequence(0x6c, 7, 0x0000_00ff, 0x0000_0100, true);
    use_write_sequence(0x6c, 7, 5, 5, false);
    use_write_sequence(0x10, 0, 5, 7, false);
}

fn use_write_sequence(reg: u8, val: u32, before: u32, after: u32, confirmed: bool) {
    let (mut w, a) = RegWrite::start(reg, val);
    assert!(matches!(a, WriteAction::ReadCounter));
    match w.step(WriteEvent::Counter(before)) {
        WriteAction::Send(f) => assert_eq!(f, encode_write(reg, val)),
        _ => panic!("expected a send"),
    }
    assert!(matches!(w.step(WriteEvent::Sent), WriteAction::ReadCounter));
    match w.step(WriteEvent::Counter(after)) {
        WriteAction::Finish(ok) => assert_eq!(ok, confirmed),
        _ => panic!("expected the end"),
    }
}
