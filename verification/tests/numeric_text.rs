use toli::numeric::{bool_text, float_text, integer_text};

fn chars(s: &str) -> Vec<char> {
    s.chars().collect()
}

#[test]
fn integers_in_decimal() {
    assert_eq!(integer_text(&chars("42"), true), Some(42));
    assert_eq!(integer_text(&chars("+42"), false), Some(42));
    assert_eq!(integer_text(&chars("-42"), true), Some(-42));
    assert_eq!(integer_text(&chars("007"), false), Some(7));
    assert_eq!(integer_text(&chars("-0"), true), Some(0));
}

#[test]
fn integers_rejected() {
    assert_eq!(integer_text(&chars(""), true), None);
    assert_eq!(integer_text(&chars("+"), true), None);
    assert_eq!(integer_text(&chars("-"), true), None);
    assert_eq!(integer_text(&chars("-5"), false), None);
    assert_eq!(integer_text(&chars(" 5"), true), None);
    assert_eq!(integer_text(&chars("5 "), true), None);
    assert_eq!(integer_text(&chars("1_000"), true), None);
    assert_eq!(integer_text(&chars("0x10"), true), None);
    assert_eq!(integer_text(&chars("++1"), true), None);
}

#[test]
fn huge_integers_are_held_at_the_limit() {
    let limit: i128 = 1 << 64;
    assert_eq!(integer_text(&chars("18446744073709551615"), false), Some(18446744073709551615));
    assert_eq!(integer_text(&chars("99999999999999999999999"), false), Some(limit));
    assert_eq!(integer_text(&chars("-99999999999999999999999"), true), Some(-limit));
}

#[test]
fn booleans() {
    assert_eq!(bool_text(&chars("true")), Some(true));
    assert_eq!(bool_text(&chars("false")), Some(false));
    assert_eq!(bool_text(&chars("True")), None);
    assert_eq!(bool_text(&chars("1")), None);
    assert_eq!(bool_text(&chars("")), None);
}

#[test]
fn float_texts_as_f64_reads_them() {
    for s in [
        "3.14", "-3.14", "2.5E10", "2.5e-10", "5.", ".5", "0.5", "inf", "-inf", "+infinity",
        "NaN", "Infinity", "1e400", "7", "+.5e+3",
    ] {
        assert!(float_text(&chars(s)), "{}", s);
        assert!(s.parse::<f64>().is_ok(), "{}", s);
    }
    for s in [".", "", "+", "e5", "1e", "1e+", "1.2.3", " 1", "1 ", "infin", "nan1", "0x1", "1_0", "--1"] {
        assert!(!float_text(&chars(s)), "{}", s);
        assert!(s.parse::<f64>().is_err(), "{}", s);
    }
}
