use mcexport::number::{read_isize, read_unsigned, to_decimal};

#[test]
fn decimal_texts() {
    assert_eq!(to_decimal(0), "0");
    assert_eq!(to_decimal(7), "7");
    assert_eq!(to_decimal(25565), "25565");
    assert_eq!(to_decimal(u64::MAX), "18446744073709551615");
}

#[test]
fn unsigned_numbers() {
    assert_eq!(read_unsigned("0", 10), Some(0));
    assert_eq!(read_unsigned("+10", 10), Some(10));
    assert_eq!(read_unsigned("0010", 10), Some(10));
    assert_eq!(read_unsigned("11", 10), None);
    assert_eq!(read_unsigned("", 10), None);
    assert_eq!(read_unsigned("+", 10), None);
    assert_eq!(read_unsigned("-1", 10), None);
    assert_eq!(read_unsigned("-0", 10), None);
    assert_eq!(read_unsigned("1x", 10), None);
    assert_eq!(read_unsigned("٣", 10), None);
    assert_eq!(read_unsigned("18446744073709551615", u64::MAX), Some(u64::MAX));
    assert_eq!(read_unsigned("18446744073709551616", u64::MAX), None);
    assert_eq!(read_unsigned("99999999999999999999999999999999999999999999", u64::MAX), None);
}

#[test]
fn signed_numbers() {
    for text in ["0", "-0", "+5", "-5", "769", "-1", "++1", "+-1", "", "-", "+", "1.5", " 1", "abc"] {
        assert_eq!(read_isize(text), text.parse::<isize>().ok(), "{}", text);
    }
    for number in [isize::MIN, isize::MIN + 1, -769, 0, 769, isize::MAX] {
        assert_eq!(read_isize(&number.to_string()), Some(number));
    }
    assert_eq!(read_isize("9223372036854775808"), None);
    assert_eq!(read_isize("-9223372036854775809"), None);
}

#[test]
fn decimal_round_trip() {
    for number in [0u64, 9, 10, 99, 100, 65535, u64::MAX] {
        assert_eq!(read_unsigned(&to_decimal(number), u64::MAX), Some(number));
    }
}
