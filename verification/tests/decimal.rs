use spark_core::decimal::{is_finite_word, is_positive_word, is_unit_word};

/// What `str::parse::<f32>` and the range checks on its result say of a word.
fn reference(word: &str) -> (bool, bool, bool) {
    match word.parse::<f32>() {
        Ok(v) if v.is_finite() => (true, (0.0..=1.0).contains(&v), v > 0.0),
        _ => (false, false, false),
    }
}

fn words() -> Vec<String> {
    let mut out: Vec<String> = [
        "0", "-0", "+0", "1", "-1", "+1", "0.5", ".5", "5.", ".", "-.", "+", "-", "", "e5", "1e",
        "1e+", "1e-", "1e5", "1E5", "1e+5", "1e-5", "1.5e2", "-1.5E-2", "00012", "000.000",
        "1.2.3", "1e2e3", "1e2.5", "+-1", "--1", "inf", "-inf", "infinity", "NaN", "nan", "0x10",
        "1_0", " 1", "1 ", "1,5", "0.9999999", "1.00000001", "1.0000000596046448",
        "1.0000000596046447", "1.0000000596046449", "1.00000006", "1.0000001", "340282356779733661637539395458142568448",
        "340282356779733661637539395458142568447", "3.4028235677973366e38", "3.4028234e38",
        "3.5e38", "1e38", "1e39", "-1e39", "1e-45", "1e-46", "7e-46", "7.006492321624085e-46",
        "7.006492321624086e-46", "7.0064923216240854e-46", "-7e-46", "-1e-45", "-1e-46", "1e-400",
        "0e999999", "1e999999999999999999999999", "1e-999999999999999999999999", "0.0000e-99999999999999999999",
        "123456789012345678901234567890", "+.5", ".e1", "1.e1", "E1", "1e1.0", "\u{661}",
        "1e-0", "-0e0", "0.0e+0", "1E-45", "00.5", "-.5e-0", "5e-324", "1e+38", "+inf", "Infinity",
        "1e0000000000000000000000000005", "0.000000000000000000000000000000000000000000001401298464324817",
    ]
    .iter()
    .map(|s| s.to_string())
    .collect();
    out.push(format!("0.{}1", "0".repeat(44)));
    out.push(format!("1{}", "0".repeat(38)));
    out.push(format!("{}e-40", "1".repeat(50)));
    out.push(format!("0.{}1e70", "0".repeat(69)));
    out.push(format!("0.{}1e-10", "0".repeat(300)));
    out
}

#[test]
fn decimal_words_read_as_f32_parse_reads_them() {
    for word in words() {
        let b = word.as_bytes();
        let (finite, unit, positive) = reference(&word);
        assert_eq!(is_finite_word(b), finite, "finite {:?}", word);
        assert_eq!(is_unit_word(b), unit, "unit {:?}", word);
        assert_eq!(is_positive_word(b), positive, "positive {:?}", word);
    }
}

#[test]
fn decimal_bounds_are_exact() {
    assert!(is_unit_word(b"1.000000059604644775390625"));
    assert!(!is_unit_word(b"1.000000059604644775390626"));
    assert!(is_finite_word(b"340282356779733661637539395458142568447.9"));
    assert!(!is_finite_word(b"340282356779733661637539395458142568448"));
    let half_tiny = format!("0.{}{}", "0".repeat(45), "700649232162408535461864791644958065640130970938257885878534141944895541342930300743319094181060791015625");
    assert!(!is_positive_word(half_tiny.as_bytes()));
    assert!(is_unit_word(format!("-{}", half_tiny).as_bytes()));
    let above = format!("{}1", half_tiny);
    assert!(is_positive_word(above.as_bytes()));
    assert!(!is_unit_word(format!("-{}", above).as_bytes()));
}
