use caltui::numbers::{decimal_string, parse_u64};

#[test]
fn decimal_text_of_numbers() {
    assert_eq!(decimal_string(0), "0");
    assert_eq!(decimal_string(7), "7");
    assert_eq!(decimal_string(1234567890), "1234567890");
    assert_eq!(decimal_string(u64::MAX), "18446744073709551615");
}

#[test]
fn parse_accepts_what_std_accepts() {
    assert_eq!(parse_u64("15"), Some(15));
    assert_eq!(parse_u64("+15"), Some(15));
    assert_eq!(parse_u64("0015"), Some(15));
    assert_eq!(parse_u64("18446744073709551615"), Some(u64::MAX));
    assert_eq!(parse_u64("18446744073709551616"), None);
    assert_eq!(parse_u64(""), None);
    assert_eq!(parse_u64("+"), None);
    assert_eq!(parse_u64("-1"), None);
    assert_eq!(parse_u64("1 5"), None);
    assert_eq!(parse_u64("ten"), None);
}

#[test]
fn parse_reads_back_decimal_text() {
    for n in [0u64, 1, 9, 10, 99, 100, 65535, 1_000_000_007, u64::MAX] {
        assert_eq!(parse_u64(&decimal_string(n)), Some(n));
        assert_eq!(parse_u64(&decimal_string(n)), n.to_string().parse::<u64>().ok());
    }
}
