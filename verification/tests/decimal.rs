use kitty_graphics_protocol::decimal::{parse_number, push_decimal, push_digits};

fn digits_of(n: u64) -> String {
    let mut out = Vec::new();
    push_digits(&mut out, n);
    String::from_utf8(out).unwrap()
}

fn decimal_of(n: i64) -> String {
    let mut out = b"x=".to_vec();
    push_decimal(&mut out, n);
    String::from_utf8(out).unwrap()
}

#[test]
fn digits_are_written_without_leading_zeros() {
    assert_eq!(digits_of(0), "0");
    assert_eq!(digits_of(9), "9");
    assert_eq!(digits_of(10), "10");
    assert_eq!(digits_of(4096), "4096");
    assert_eq!(digits_of(u64::MAX), "18446744073709551615");
}

#[test]
fn negative_numbers_get_a_minus_sign() {
    assert_eq!(decimal_of(0), "x=0");
    assert_eq!(decimal_of(-1), "x=-1");
    assert_eq!(decimal_of(123), "x=123");
    assert_eq!(decimal_of(i64::MIN), "x=-9223372036854775808");
    assert_eq!(decimal_of(i64::MAX), "x=9223372036854775807");
}

#[test]
fn numbers_are_read_as_std_reads_them() {
    for text in ["0", "7", "+7", "007", "4294967295", "4294967296", "", "+", "-", "-0", "++1",
        "1+", "1 ", " 1", "12a", "99999999999999999999999999", "0x10", "+0000000000000000001"]
    {
        let expected = text.parse::<u32>().ok().map(u64::from);
        assert_eq!(parse_number(text.as_bytes(), 0xffff_ffff), expected, "{text:?}");
        let expected = text.parse::<u16>().ok().map(u64::from);
        assert_eq!(parse_number(text.as_bytes(), 0xffff), expected, "{text:?}");
    }
    assert_eq!(parse_number(b"65535", 0xffff), Some(65535));
    assert_eq!(parse_number(b"65536", 0xffff), None);
    assert_eq!(parse_number(b"5", 4), None);
    assert_eq!(parse_number(b"4", 4), Some(4));
}
