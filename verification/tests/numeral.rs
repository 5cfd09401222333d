use workspace_capsules::numeral::parse_i32;
use workspace_capsules::numeral::to_decimal;

#[test]
fn decimal_of_small_numbers() {
    assert_eq!(to_decimal(0), "0");
    assert_eq!(to_decimal(7), "7");
    assert_eq!(to_decimal(10), "10");
}

#[test]
fn decimal_of_larger_numbers() {
    assert_eq!(to_decimal(123), "123");
    assert_eq!(to_decimal(1000), "1000");
    assert_eq!(to_decimal(2147483647), "2147483647");
}

#[test]
fn parse_plain_ordinals() {
    assert_eq!(parse_i32("1"), Some(1));
    assert_eq!(parse_i32("42"), Some(42));
    assert_eq!(parse_i32("007"), Some(7));
}

#[test]
fn parse_signs() {
    assert_eq!(parse_i32("+5"), Some(5));
    assert_eq!(parse_i32("-3"), Some(-3));
    assert_eq!(parse_i32("-0"), Some(0));
}

#[test]
fn parse_rejects_non_numerals() {
    assert_eq!(parse_i32("abc"), None);
    assert_eq!(parse_i32(""), None);
    assert_eq!(parse_i32("+"), None);
    assert_eq!(parse_i32("-"), None);
    assert_eq!(parse_i32("10abc"), None);
    assert_eq!(parse_i32(" 1"), None);
    assert_eq!(parse_i32("1 "), None);
    assert_eq!(parse_i32("\u{e0bc}"), None);
}

#[test]
fn parse_at_the_range_edges() {
    assert_eq!(parse_i32("2147483647"), Some(2147483647));
    assert_eq!(parse_i32("2147483648"), None);
    assert_eq!(parse_i32("-2147483648"), Some(-2147483648));
    assert_eq!(parse_i32("-2147483649"), None);
    assert_eq!(parse_i32("99999999999999999999"), None);
}

#[test]
fn parse_inverts_decimal_rendering() {
    for n in [0, 1, 9, 10, 99, 100, 12345, 2147483647] {
        assert_eq!(parse_i32(&to_decimal(n)), Some(n));
    }
}
