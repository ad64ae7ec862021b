use keygen::decimal::{format_u64, parse_u64};

#[test]
fn formats_exact_digit_strings() {
    assert_eq!(format_u64(0), b"0".to_vec());
    assert_eq!(format_u64(7), b"7".to_vec());
    assert_eq!(format_u64(4096), b"4096".to_vec());
    assert_eq!(format_u64(1_731_628_800), b"1731628800".to_vec());
    assert_eq!(format_u64(u64::MAX), b"18446744073709551615".to_vec());
}

#[test]
fn parses_digit_strings() {
    assert_eq!(parse_u64(b"0"), Some(0));
    assert_eq!(parse_u64(b"4096"), Some(4096));
    assert_eq!(parse_u64(b"007"), Some(7));
    assert_eq!(parse_u64(b"18446744073709551615"), Some(u64::MAX));
}

#[test]
fn rejects_non_numbers_and_overflow() {
    assert_eq!(parse_u64(b""), None);
    assert_eq!(parse_u64(b"40x6"), None);
    assert_eq!(parse_u64(b"-1"), None);
    assert_eq!(parse_u64(b" 1"), None);
    assert_eq!(parse_u64(b"18446744073709551616"), None);
    assert_eq!(parse_u64(b"99999999999999999999999"), None);
}

#[test]
fn format_then_parse_is_identity() {
    for n in [0u64, 1, 9, 10, 42, 3072, 4096, 31_622_400, u64::MAX - 1, u64::MAX] {
        assert_eq!(parse_u64(&format_u64(n)), Some(n));
    }
}
