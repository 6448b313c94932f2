use hardware_comm::text::{
    is_float_text, parse_u32, seconds_text, split_char, str_eq, u64_to_dec,
};

#[test]
fn str_eq_compares_contents() {
    assert!(str_eq("abc", "abc"));
    assert!(!str_eq("abc", "abd"));
    assert!(!str_eq("abc", "ab"));
    assert!(str_eq("", ""));
}

#[test]
fn split_on_tabs() {
    let parts = split_char("a\tbb\t\tc", '\t');
    assert_eq!(parts, vec!["a", "bb", "", "c"]);
}

#[test]
fn split_empty_text_is_one_empty_piece() {
    assert_eq!(split_char("", '\t'), vec![""]);
}

#[test]
fn split_only_separators() {
    assert_eq!(split_char("\t\t", '\t'), vec!["", "", ""]);
}

#[test]
fn parse_u32_plain_and_signed() {
    assert_eq!(parse_u32("0"), Some(0));
    assert_eq!(parse_u32("007"), Some(7));
    assert_eq!(parse_u32("+42"), Some(42));
    assert_eq!(parse_u32("4294967295"), Some(u32::MAX));
}

#[test]
fn parse_u32_rejections() {
    assert_eq!(parse_u32(""), None);
    assert_eq!(parse_u32("+"), None);
    assert_eq!(parse_u32("-1"), None);
    assert_eq!(parse_u32("12a"), None);
    assert_eq!(parse_u32(" 12"), None);
    assert_eq!(parse_u32("4294967296"), None);
    assert_eq!(parse_u32("99999999999999999999"), None);
}

#[test]
fn parse_u32_agrees_with_std() {
    for s in ["0", "007", "+42", "4294967295", "4294967296", "", "12a", "1.0"] {
        assert_eq!(parse_u32(s), s.parse::<u32>().ok(), "input {:?}", s);
    }
}

#[test]
fn float_text_accepts_number_forms() {
    for s in [
        "0", "1.5", "1.", ".5", "-3", "+3.25", "2e3", "1.5e-7", "1E+10", ".5e2", "inf", "-inf",
        "+Infinity", "nan", "NaN",
    ] {
        assert!(is_float_text(s), "should accept {:?}", s);
    }
}

#[test]
fn float_text_rejects_other_forms() {
    for s in [
        "", ".", "-", "e5", "1e", "1e+", "1.2.3", "+-3", "abc", "1 ", " 1", "0x10", "1,5", "infx",
        "nan2",
    ] {
        assert!(!is_float_text(s), "should reject {:?}", s);
    }
}

#[test]
fn float_text_agrees_with_std() {
    for s in [
        "0", "1.5", "1.", ".5", "-3", "+3.25", "2e3", "1.5e-7", "1E+10", "inf", "-Infinity",
        "nan", "", ".", "e5", "1e", "1.2.3", "1 ", "0x10",
    ] {
        assert_eq!(is_float_text(s), s.parse::<f64>().is_ok(), "input {:?}", s);
    }
}

#[test]
fn decimal_rendering() {
    assert_eq!(u64_to_dec(0), "0");
    assert_eq!(u64_to_dec(7), "7");
    assert_eq!(u64_to_dec(1234567890), "1234567890");
}

#[test]
fn seconds_rendering() {
    assert_eq!(seconds_text(0), "0.000");
    assert_eq!(seconds_text(7), "0.007");
    assert_eq!(seconds_text(85), "0.085");
    assert_eq!(seconds_text(999), "0.999");
    assert_eq!(seconds_text(1000), "1.000");
    assert_eq!(seconds_text(12345), "12.345");
    assert_eq!(seconds_text(1002003), "1002.003");
}

#[test]
fn seconds_rendering_reads_as_float() {
    for ms in [0u64, 7, 85, 999, 1000, 12345, 1002003] {
        assert!(is_float_text(&seconds_text(ms)));
    }
}
