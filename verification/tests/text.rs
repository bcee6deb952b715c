use mira::text::{distinct_strings, i64_to_decimal, i64_zero_pad2, parse_i64, parse_u64, u64_to_decimal};

#[test]
fn decimal_rendering() {
    assert_eq!(u64_to_decimal(0), "0");
    assert_eq!(u64_to_decimal(1234567890), "1234567890");
    assert_eq!(u64_to_decimal(u64::MAX), u64::MAX.to_string());
    assert_eq!(i64_to_decimal(-42), "-42");
    assert_eq!(i64_to_decimal(i64::MIN), i64::MIN.to_string());
    assert_eq!(i64_zero_pad2(7), "07");
    assert_eq!(i64_zero_pad2(-7), "-7");
    assert_eq!(i64_zero_pad2(42), "42");
}

#[test]
fn parsing_matches_std() {
    for s in ["0", "12", "+12", "-12", "", "+", "-", "1a", "9223372036854775807", "9223372036854775808",
              "-9223372036854775808", "-9223372036854775809", "007", " 1"] {
        assert_eq!(parse_i64(s), s.parse::<i64>().ok(), "i64 {:?}", s);
        assert_eq!(parse_u64(s), s.parse::<u64>().ok(), "u64 {:?}", s);
    }
    assert_eq!(parse_u64("18446744073709551615"), Some(u64::MAX));
    assert_eq!(parse_u64("18446744073709551616"), None);
}

#[test]
fn distinct_keeps_each_string_once() {
    let v: Vec<String> = ["a", "b", "a", "c", "b"].iter().map(|s| s.to_string()).collect();
    assert_eq!(distinct_strings(&v), vec!["a".to_string(), "b".to_string(), "c".to_string()]);
}
