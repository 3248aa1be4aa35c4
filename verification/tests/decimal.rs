use screen_watch::decimal::{parse_decimal, push_decimal, to_decimal};

#[test]
fn numbers_have_no_leading_zeros() {
    assert_eq!(to_decimal(0), "0");
    assert_eq!(to_decimal(7), "7");
    assert_eq!(to_decimal(10), "10");
    assert_eq!(to_decimal(13587), "13587");
    assert_eq!(to_decimal(u64::MAX), "18446744073709551615");
}

#[test]
fn digits_are_appended() {
    let mut s = String::from("n=");
    push_decimal(&mut s, 305);
    assert_eq!(s, "n=305");
}

#[test]
fn text_with_digits_is_a_number() {
    assert_eq!(parse_decimal("500", u64::MAX), Some(500));
    assert_eq!(parse_decimal("+500", u64::MAX), Some(500));
    assert_eq!(parse_decimal("000000000000000000000000007", u64::MAX), Some(7));
    assert_eq!(parse_decimal("18446744073709551615", u64::MAX), Some(u64::MAX));
    assert_eq!(parse_decimal("65535", 65535), Some(65535));
    assert_eq!(parse_decimal("0", 0), Some(0));
}

#[test]
fn other_text_is_no_number() {
    for text in ["", "+", "-1", "-0", " 5", "5 ", "++5", "5+", "1.5", "0x10", "五", "٥"] {
        assert_eq!(parse_decimal(text, u64::MAX), None);
    }
}

#[test]
fn numbers_out_of_range_are_refused() {
    assert_eq!(parse_decimal("65536", 65535), None);
    assert_eq!(parse_decimal("18446744073709551616", u64::MAX), None);
    assert_eq!(parse_decimal("99999999999999999999999", u64::MAX), None);
    assert_eq!(parse_decimal("7", 6), None);
}

#[test]
fn parsing_agrees_with_the_standard_library() {
    for text in ["", "+", "0", "+0", "13587", "65535", "65536", "+65535", "00065535", "6553x", "-3"] {
        assert_eq!(parse_decimal(text, 65535), text.parse::<u16>().ok().map(|n| n as u64));
        assert_eq!(parse_decimal(text, u64::MAX), text.parse::<u64>().ok());
    }
}

#[test]
fn numbers_are_read_back() {
    for n in [0u64, 1, 9, 10, 99, 100, 5000, 65535, 1_000_000_007, u64::MAX] {
        assert_eq!(parse_decimal(&to_decimal(n), u64::MAX), Some(n));
        assert_eq!(to_decimal(n), n.to_string());
    }
}
