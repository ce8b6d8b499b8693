use live_panel::textfmt::{footer_text, format_fixed5, u64_to_dec};

#[test]
fn decimal_digits() {
    assert_eq!(u64_to_dec(0), "0");
    assert_eq!(u64_to_dec(7), "7");
    assert_eq!(u64_to_dec(42), "42");
    assert_eq!(u64_to_dec(10050), "10050");
    assert_eq!(u64_to_dec(u64::MAX), "18446744073709551615");
}

#[test]
fn fixed_point_five_decimals() {
    assert_eq!(format_fixed5(5_000_010_000), "50000.10000");
    assert_eq!(format_fixed5(300_020_000), "3000.20000");
    assert_eq!(format_fixed5(10_030_000), "100.30000");
    assert_eq!(format_fixed5(0), "0.00000");
    assert_eq!(format_fixed5(123), "0.00123");
    assert_eq!(format_fixed5(100_000), "1.00000");
    assert_eq!(format_fixed5(99_999), "0.99999");
}

#[test]
fn footer_line() {
    assert_eq!(footer_text(0), "updated 0 seconds ago");
    assert_eq!(footer_text(7), "updated 7 seconds ago");
    assert_eq!(footer_text(125), "updated 125 seconds ago");
}
