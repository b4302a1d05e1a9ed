use spark_core::coords::{Axis, CoordSys};
use spark_core::gcode::{parse, Decimal, HomeSpec, MoveSpec, Parsed, PulserSpec};

fn num(d: &Option<Decimal>) -> Option<f32> {
    d.as_ref()
        .map(|d| std::str::from_utf8(&d.text).unwrap().parse::<f32>().unwrap())
}

fn axes(m: &MoveSpec) -> [Option<f32>; 4] {
    [num(&m.x), num(&m.y), num(&m.z), num(&m.c)]
}

fn pulser(p: &PulserSpec) -> (bool, Option<f32>, Option<f32>, Option<f32>) {
    (p.tool_negative, num(&p.pulse_us), num(&p.current_a), num(&p.duty_pct))
}

fn dec(s: &str) -> Decimal {
    Decimal { text: s.as_bytes().to_vec() }
}

#[test]
fn dispatch_moves() {
    match parse(b"G0 X12.3") {
        Some(Parsed::Rapid(m)) => assert_eq!(axes(&m), [Some(12.3), None, None, None]),
        other => panic!("{:?}", other),
    }
    match parse(b"G1 X10 Y20") {
        Some(Parsed::Feed(m)) => assert_eq!(axes(&m), [Some(10.0), Some(20.0), None, None]),
        other => panic!("{:?}", other),
    }
    match parse(b"G38.3 X10 Y3.5") {
        Some(Parsed::Probe(m)) => assert_eq!(axes(&m), [Some(10.0), Some(3.5), None, None]),
        other => panic!("{:?}", other),
    }
}

#[test]
fn dispatch_home() {
    assert_eq!(parse(b"G28"), Some(Parsed::Home(HomeSpec::All)));
    assert_eq!(parse(b"G28 X"), Some(Parsed::Home(HomeSpec::One(Axis::X))));
}

#[test]
fn dispatch_coord_select() {
    assert_eq!(parse(b"G53"), Some(Parsed::SelectCoordSys(CoordSys::Machine)));
    assert_eq!(parse(b"G54"), Some(Parsed::SelectCoordSys(CoordSys::Grinder)));
    assert_eq!(parse(b"G55"), Some(Parsed::SelectCoordSys(CoordSys::Work)));
}

#[test]
fn dispatch_pulser() {
    match parse(b"M3") {
        Some(Parsed::Pulser(p)) => assert_eq!(pulser(&p), (true, None, None, None)),
        other => panic!("{:?}", other),
    }
    match parse(b"M4 P1000 Q0.8") {
        Some(Parsed::Pulser(p)) => assert_eq!(pulser(&p), (false, Some(1000.0), Some(0.8), None)),
        other => panic!("{:?}", other),
    }
}

#[test]
fn dispatch_pump() {
    assert_eq!(parse(b"M8"), Some(Parsed::PumpOn));
    assert_eq!(parse(b"M9"), Some(Parsed::PumpOff));
}

#[test]
fn dispatch_wirefeed() {
    match parse(b"M10 R120") {
        Some(Parsed::WirefeedStart(d)) => assert_eq!(num(&Some(d)), Some(120.0)),
        other => panic!("{:?}", other),
    }
    assert_eq!(parse(b"M11"), Some(Parsed::WirefeedStop));
}

#[test]
fn pulser_omitted_params_stay_none() {
    match parse(b"M3 R30 Q2.0") {
        Some(Parsed::Pulser(p)) => assert_eq!(pulser(&p), (true, None, Some(2.0), Some(30.0))),
        other => panic!("{:?}", other),
    }
}

#[test]
fn rejects_bare_move() {
    assert_eq!(parse(b"G0"), None);
    assert_eq!(parse(b"G1"), None);
    assert_eq!(parse(b"G38.3"), None);
}

#[test]
fn rejects_lowercase() {
    assert_eq!(parse(b"g0 X10"), None);
    assert_eq!(parse(b"G0 x10"), None);
}

#[test]
fn requires_whitespace_between_tokens() {
    assert_eq!(parse(b"G0X1Y2"), None);
}

#[test]
fn subcode_must_match_exactly() {
    assert_eq!(parse(b"G38.2"), None);
    assert_eq!(parse(b"G38"), None);
}

#[test]
fn rejects_malformed_subcode() {
    assert_eq!(parse(b"G38."), None);
}

#[test]
fn rejects_unknown_param() {
    assert_eq!(parse(b"G0 S5"), None);
    assert_eq!(parse(b"M3 P500 S100"), None);
}

#[test]
fn rejects_bare_param() {
    assert_eq!(parse(b"G0 X"), None);
    assert_eq!(parse(b"M3 P"), None);
}

#[test]
fn no_param_command_rejects_args() {
    assert_eq!(parse(b"M8 X1"), None);
}

#[test]
fn m10_requires_r() {
    assert_eq!(parse(b"M10"), None);
    assert_eq!(parse(b"M10 P5"), None);
}

#[test]
fn g28_at_most_one_axis() {
    assert_eq!(parse(b"G28 X Y"), None);
}

#[test]
fn g28_rejects_value() {
    assert_eq!(parse(b"G28 X10"), None);
}

#[test]
fn g28_rejects_non_homeable_axis() {
    assert_eq!(parse(b"G28 C"), None);
}

#[test]
fn rejects_leading_zero() {
    assert_eq!(parse(b"G0 X05"), None);
}

#[test]
fn rejects_malformed_number() {
    assert_eq!(parse(b"G0 X10.5.2"), None);
}

#[test]
fn rejects_garbage_after_command() {
    assert_eq!(parse(b"G0abc X10"), None);
}

#[test]
fn rejects_empty_and_whitespace() {
    assert_eq!(parse(b""), None);
    assert_eq!(parse(b"   "), None);
}

// --- Further cases ---

#[test]
fn move_keeps_number_text() {
    assert_eq!(
        parse(b"G0 X-.5 Z+3. C90"),
        Some(Parsed::Rapid(MoveSpec {
            x: Some(dec("-.5")),
            y: None,
            z: Some(dec("+3.")),
            c: Some(dec("90")),
        }))
    );
}

#[test]
fn move_order_and_spacing_do_not_matter() {
    let a = parse(b"G0 X1.5 Y-2 Z3 C45");
    let b = parse(b"G0\tC45   Z3 Y-2  X1.5");
    assert!(a.is_some());
    assert_eq!(a, b);
    let p = parse(b"M4 Q2 P300 R40");
    let q = parse(b"M4   R40 P300\tQ2");
    assert!(p.is_some());
    assert_eq!(p, q);
}

#[test]
fn later_word_overrides_earlier() {
    match parse(b"G1 X1 X2") {
        Some(Parsed::Feed(m)) => assert_eq!(axes(&m), [Some(2.0), None, None, None]),
        other => panic!("{:?}", other),
    }
}

#[test]
fn leading_and_trailing_blanks_are_ignored() {
    assert_eq!(parse(b"  M8  "), Some(Parsed::PumpOn));
    assert_eq!(parse(b"\tG28 Z\t"), Some(Parsed::Home(HomeSpec::One(Axis::Z))));
}

#[test]
fn zero_and_decimal_zero_are_numbers() {
    match parse(b"G0 X0 Y0.5") {
        Some(Parsed::Rapid(m)) => assert_eq!(axes(&m), [Some(0.0), Some(0.5), None, None]),
        other => panic!("{:?}", other),
    }
    assert_eq!(parse(b"G0 X-"), None);
    assert_eq!(parse(b"G0 X."), None);
    assert_eq!(parse(b"G0 X+-1"), None);
}

#[test]
fn unknown_codes_and_letters_are_rejected() {
    assert_eq!(parse(b"G2 X1"), None);
    assert_eq!(parse(b"G56"), None);
    assert_eq!(parse(b"M5"), None);
    assert_eq!(parse(b"T1"), None);
    assert_eq!(parse(b"G99999999999999999999 X1"), None);
    assert_eq!(parse(b"G53 X1"), None);
    assert_eq!(parse(b"M10 R1 R2"), None);
}
