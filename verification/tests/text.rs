use workshop_hub::text::{chars_of, join, format_i32, format_i64, parse_i64, parse_u64, same_text, starts_with, string_from_chars};

#[test]
fn format_i64_writes_decimal() {
    assert_eq!(format_i64(0), "0");
    assert_eq!(format_i64(1700000000), "1700000000");
    assert_eq!(format_i64(-42), "-42");
    assert_eq!(format_i64(i64::MIN), "-9223372036854775808");
    assert_eq!(format_i64(i64::MAX), "9223372036854775807");
    assert_eq!(format_i32(9000), "9000");
}

#[test]
fn parse_i64_follows_std() {
    for s in ["0", "+7", "-7", "007", "9223372036854775807", "-9223372036854775808", "9223372036854775808", "", "-", "+", "1a", " 1", "--1", "12 "] {
        assert_eq!(parse_i64(s), s.parse::<i64>().ok(), "input {:?}", s);
    }
}

#[test]
fn parse_u64_follows_std() {
    for s in ["0", "+7", "-7", "18446744073709551615", "18446744073709551616", "", "+", "x"] {
        assert_eq!(parse_u64(s), s.parse::<u64>().ok(), "input {:?}", s);
    }
}

#[test]
fn decimal_roundtrip_on_samples() {
    for n in [0i64, 1, -1, 59, 1_700_000_000, i64::MIN, i64::MAX] {
        assert_eq!(parse_i64(&format_i64(n)), Some(n));
    }
}

#[test]
fn string_helpers() {
    assert!(same_text("ab", "ab"));
    assert!(!same_text("ab", "abc"));
    assert!(starts_with("/public/x.css", "/public"));
    assert!(!starts_with("/pub", "/public"));
    assert_eq!(join("a", "é"), "aé");
    let cs = chars_of("héllo");
    assert_eq!(cs, vec!['h', 'é', 'l', 'l', 'o']);
    assert_eq!(string_from_chars(&cs, 1, 3), "él");
}
