use daly_bms::bms::state::trimmed_decimal;

/// The float part of the formatting (special values, six decimals) stays
/// with the caller; the library shortens the text.
fn fmt_val(v: f64) -> String {
    if v.is_nan() {
        return "NaN".into();
    }
    if v.is_infinite() {
        return if v > 0.0 { "+Inf".into() } else { "-Inf".into() };
    }
    trimmed_decimal(&format!("{v:.6}"))
}

#[test]
fn formats_typical_values() {
    assert_eq!(fmt_val(53.9), "53.9");
    assert_eq!(fmt_val(53.900001525878906), "53.900002");
    assert_eq!(fmt_val(0.0), "0");
    assert_eq!(fmt_val(-12.34), "-12.34");
    assert_eq!(fmt_val(100.0), "100");
}

#[test]
fn formats_special_values() {
    assert_eq!(fmt_val(f64::NAN), "NaN");
    assert_eq!(fmt_val(f64::INFINITY), "+Inf");
    assert_eq!(fmt_val(f64::NEG_INFINITY), "-Inf");
}

#[test]
fn trims_decimal_text() {
    assert_eq!(trimmed_decimal("-0.000000"), "-0");
    assert_eq!(trimmed_decimal("-.000000"), "0");
    assert_eq!(trimmed_decimal(""), "0");
    assert_eq!(trimmed_decimal("10.500000"), "10.5");
    assert_eq!(trimmed_decimal("7"), "7");
}
