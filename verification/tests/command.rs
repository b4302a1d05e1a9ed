use spark_core::command::{parse, Command, FastKey, Parsed, QuerySignal};
use spark_core::gcode;

fn w(s: &str) -> Vec<u8> {
    s.as_bytes().to_vec()
}

fn key(s: &str) -> heapless::String<20> {
    heapless::String::try_from(s).unwrap()
}

#[test]
fn fset_pump_en() {
    assert_eq!(parse(b"fset ov.pump_en true"), Parsed::FastSet(FastKey::PumpEn(true)));
    assert_eq!(parse(b"fset ov.pump_en false"), Parsed::FastSet(FastKey::PumpEn(false)));
}

#[test]
fn fset_edm_accepts_none() {
    assert_eq!(
        parse(b"fset ov.edm.retr_thresh none"),
        Parsed::FastSet(FastKey::EdmRetrThresh(None))
    );
    assert_eq!(
        parse(b"fset ov.edm.adv_speed none"),
        Parsed::FastSet(FastKey::EdmAdvSpeed(None))
    );
}

#[test]
fn fset_edm_values_are_kept_as_written() {
    assert_eq!(
        parse(b"fset ov.edm.retr_thresh 0.25"),
        Parsed::FastSet(FastKey::EdmRetrThresh(Some(w("0.25"))))
    );
    assert_eq!(
        parse(b"fset ov.edm.adv_thresh 0.5"),
        Parsed::FastSet(FastKey::EdmAdvThresh(Some(w("0.5"))))
    );
    assert_eq!(
        parse(b"fset ov.edm.retr_speed 3"),
        Parsed::FastSet(FastKey::EdmRetrSpeed(Some(w("3"))))
    );
}

#[test]
fn fset_rejects_bad_forms() {
    assert_eq!(parse(b"fset ov.pump_en yes"), Parsed::Error);
    assert_eq!(parse(b"fset ov.pump_en"), Parsed::Error);
    assert_eq!(parse(b"fset ov.pump_en true extra"), Parsed::Error);
    assert_eq!(parse(b"fset ov.unknown 1"), Parsed::Error);
    assert_eq!(parse(b"fset"), Parsed::Error);
}

#[test]
fn signals() {
    assert_eq!(parse(b"!"), Parsed::Cancel);
    assert_eq!(parse(b"?queue"), Parsed::Query(QuerySignal::Queue));
    assert_eq!(parse(b"?pos"), Parsed::Query(QuerySignal::Pos));
    assert_eq!(parse(b"?edm"), Parsed::Query(QuerySignal::Edm));
    assert_eq!(parse(b"?what"), Parsed::Query(QuerySignal::Unknown));
    assert_eq!(parse(b"!!"), Parsed::Query(QuerySignal::Unknown));
}

#[test]
fn gcode_lines() {
    assert_eq!(parse(b"M8"), Parsed::Command(Command::Gcode(gcode::Parsed::PumpOn)));
    assert_eq!(parse(b"G0"), Parsed::Error);
    assert_eq!(parse(b"M99"), Parsed::Error);
}

#[test]
fn text_commands() {
    assert_eq!(
        parse(b"set m.0.current 40"),
        Parsed::Command(Command::SetValue(key("m.0.current"), w("40")))
    );
    assert_eq!(parse(b"  get  "), Parsed::Command(Command::Get));
    assert_eq!(parse(b"stat"), Parsed::Command(Command::Stat));
    assert_eq!(parse(b"get x"), Parsed::Error);
    assert_eq!(parse(b"set m.0.current"), Parsed::Error);
    assert_eq!(parse(b"set k 1 2"), Parsed::Error);
    assert_eq!(parse(b"set abcdefghijklmnopqrstu 1"), Parsed::Error);
    assert_eq!(
        parse(b"set abcdefghijklmnopqrst 1"),
        Parsed::Command(Command::SetValue(key("abcdefghijklmnopqrst"), w("1")))
    );
    assert_eq!(parse(b"hello"), Parsed::Error);
    assert_eq!(parse(b""), Parsed::Error);
}

#[test]
fn invalid_utf8_text_is_an_error() {
    assert_eq!(parse(b"set k\xff 1"), Parsed::Error);
    assert_eq!(parse(b"get \xc0"), Parsed::Error);
    assert_eq!(
        parse("set \u{e9} 1".as_bytes()),
        Parsed::Command(Command::SetValue(key("\u{e9}"), w("1")))
    );
}

#[test]
fn set_key_limit_counts_bytes() {
    let ten = "\u{e9}".repeat(10);
    let eleven = "\u{e9}".repeat(11);
    assert_eq!(
        parse(format!("set {} 1", ten).as_bytes()),
        Parsed::Command(Command::SetValue(key(&ten), w("1")))
    );
    assert_eq!(parse(format!("set {} 1", eleven).as_bytes()), Parsed::Error);
}

#[test]
fn write_commands() {
    assert!(!Command::Get.is_write());
    assert!(!Command::Stat.is_write());
    assert!(Command::SetValue(key("k"), w("1")).is_write());
    assert!(Command::Gcode(gcode::Parsed::PumpOff).is_write());
}

#[test]
fn fset_edm_rejects_thresh_outofrange() {
    assert_eq!(parse(b"fset ov.edm.retr_thresh 50"), Parsed::Error);
    assert_eq!(parse(b"fset ov.edm.adv_thresh 50"), Parsed::Error);
}

#[test]
fn fset_edm_rejects_speed_outofrange() {
    assert_eq!(parse(b"fset ov.edm.retr_speed 0"), Parsed::Error);
    assert_eq!(parse(b"fset ov.edm.retr_speed -1"), Parsed::Error);
    assert_eq!(parse(b"fset ov.edm.adv_speed 0"), Parsed::Error);
    assert_eq!(parse(b"fset ov.edm.adv_speed -1"), Parsed::Error);
}

#[test]
fn fset_edm_range_edges() {
    assert_eq!(
        parse(b"fset ov.edm.retr_thresh 1"),
        Parsed::FastSet(FastKey::EdmRetrThresh(Some(w("1"))))
    );
    assert_eq!(
        parse(b"fset ov.edm.adv_thresh -0"),
        Parsed::FastSet(FastKey::EdmAdvThresh(Some(w("-0"))))
    );
    assert_eq!(
        parse(b"fset ov.edm.adv_thresh 0"),
        Parsed::FastSet(FastKey::EdmAdvThresh(Some(w("0"))))
    );
    assert_eq!(parse(b"fset ov.edm.adv_thresh 1.01"), Parsed::Error);
    assert_eq!(parse(b"fset ov.edm.adv_thresh -0.001"), Parsed::Error);
    assert_eq!(parse(b"fset ov.edm.adv_thresh nan"), Parsed::Error);
    assert_eq!(parse(b"fset ov.edm.adv_thresh x"), Parsed::Error);
    assert_eq!(
        parse(b"fset ov.edm.adv_speed 1e-3"),
        Parsed::FastSet(FastKey::EdmAdvSpeed(Some(w("1e-3"))))
    );
    assert_eq!(parse(b"fset ov.edm.adv_speed 1e-50"), Parsed::Error);
    assert_eq!(parse(b"fset ov.edm.adv_speed inf"), Parsed::Error);
    assert_eq!(parse(b"fset ov.edm.adv_speed 1e39"), Parsed::Error);
}

#[test]
fn set_value_must_be_finite() {
    assert_eq!(
        parse(b"set k 3.14"),
        Parsed::Command(Command::SetValue(key("k"), w("3.14")))
    );
    assert_eq!(
        parse(b"set k -2E+3"),
        Parsed::Command(Command::SetValue(key("k"), w("-2E+3")))
    );
    assert_eq!(parse(b"set k NaN"), Parsed::Error);
    assert_eq!(parse(b"set k inf"), Parsed::Error);
    assert_eq!(parse(b"set k 1e39"), Parsed::Error);
    assert_eq!(parse(b"set k 1x"), Parsed::Error);
    assert_eq!(parse(b"set k ."), Parsed::Error);
}
