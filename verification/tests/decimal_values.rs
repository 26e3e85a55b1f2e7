use retch_cli::number::{parse_u64, parse_usize};

#[test]
fn parse_u64_plain_values() {
    assert_eq!(parse_u64("0"), Some(0));
    assert_eq!(parse_u64("5"), Some(5));
    assert_eq!(parse_u64("30"), Some(30));
    assert_eq!(parse_u64("1234567890"), Some(1234567890));
}

#[test]
fn parse_u64_leading_zeros() {
    assert_eq!(parse_u64("007"), Some(7));
    assert_eq!(parse_u64("000"), Some(0));
}

#[test]
fn parse_u64_largest_value() {
    assert_eq!(parse_u64("18446744073709551615"), Some(u64::MAX));
}

#[test]
fn parse_u64_overflow_is_rejected() {
    assert_eq!(parse_u64("18446744073709551616"), None);
    assert_eq!(parse_u64("99999999999999999999999"), None);
}

#[test]
fn parse_u64_rejects_non_digits() {
    assert_eq!(parse_u64(""), None);
    assert_eq!(parse_u64("12a"), None);
    assert_eq!(parse_u64("a12"), None);
    assert_eq!(parse_u64("+5"), None);
    assert_eq!(parse_u64("-1"), None);
    assert_eq!(parse_u64(" 5"), None);
    assert_eq!(parse_u64("5 "), None);
}

#[test]
fn parse_usize_plain_values() {
    assert_eq!(parse_usize("50"), Some(50));
    assert_eq!(parse_usize("0"), Some(0));
}

#[test]
fn parse_usize_rejects_overflow_and_junk() {
    assert_eq!(parse_usize("99999999999999999999999"), None);
    assert_eq!(parse_usize("fifty"), None);
    assert_eq!(parse_usize(""), None);
}
