use spark_core::pstate::{error_msg, Line, PsType, LINE_CAP};

#[test]
fn pstate_tags_and_values() {
    let l = Line::new(PsType::Sys).str_val("ev", "boot");
    assert_eq!(l.as_bytes(), b"sys ev:\"boot\"");
    let l = Line::new(PsType::Queue).integer("cap", 64).integer("num", -3);
    assert_eq!(l.as_bytes(), b"queue cap:64 num:-3");
    let l = Line::new(PsType::Stat).bool("a", true).bool("b", false);
    assert_eq!(l.as_bytes(), b"stat a:true b:false");
    let l = Line::new(PsType::Edm).integer("min", i32::MIN).integer("zero", 0);
    assert_eq!(l.as_bytes(), b"edm min:-2147483648 zero:0");
}

#[test]
fn pstate_hex32_pads_to_eight_digits() {
    let l = Line::new(PsType::Stat).hex32("r", 0xabcd).hex32("s", 0xdead_beef);
    assert_eq!(l.as_bytes(), b"stat r:0x0000abcd s:0xdeadbeef");
    let l = Line::new(PsType::Stat).hex32("z", 0);
    assert_eq!(l.as_bytes(), b"stat z:0x00000000");
}

#[test]
fn pstate_escapes_quotes_and_backslashes() {
    let l = Line::new(PsType::Pos).str_val("k", "a\"b\\c");
    assert_eq!(l.as_bytes(), b"pos k:\"a\\\"b\\\\c\"");
}

#[test]
fn pstate_body_and_number_text() {
    let l = Line::new(PsType::Settings).begin().number_text("m.0.current", b"30").end();
    assert_eq!(l.as_bytes(), b"stg < m.0.current:30 >");
    assert!(!l.overflowed());
}

#[test]
fn pstate_error_line() {
    let l = error_msg("queue full");
    assert_eq!(l.as_bytes(), b"error < msg:\"queue full\" >");
}

#[test]
fn pstate_overflow_drops_and_reports() {
    let big = "x".repeat(LINE_CAP);
    let mut l = Line::new(PsType::Sys);
    l.write_str(&big);
    assert!(l.overflowed());
    assert_eq!(l.as_bytes(), b"sys");
    // once overflowed, later pieces are dropped too
    let l = l.bool("k", true);
    assert_eq!(l.as_bytes(), b"sys");
    assert!(l.overflowed());
    // exactly full is fine
    let mut l = Line::new(PsType::Sys);
    l.write_str(&"y".repeat(LINE_CAP - 3));
    assert!(!l.overflowed());
    assert_eq!(l.as_bytes().len(), LINE_CAP);
}

/// A reader of quoted values: up to the first bare quote, backslash escapes the next byte.
fn read_quoted(e: &[u8]) -> Vec<u8> {
    let mut out = Vec::new();
    let mut i = 0;
    while i < e.len() {
        match e[i] {
            b'"' => break,
            b'\\' if i + 1 < e.len() => {
                out.push(e[i + 1]);
                i += 2;
            }
            b => {
                out.push(b);
                i += 1;
            }
        }
    }
    out
}

#[test]
fn pstate_quoted_value_reads_back() {
    for v in ["plain", "a\"b", "back\\slash\\", "\"\"", ""] {
        let l = Line::new(PsType::Sys).str_val("k", v).bool("after", true);
        let bytes = l.as_bytes();
        let start = b"sys k:\"".len();
        assert_eq!(read_quoted(&bytes[start..]), v.as_bytes());
    }
}
