use base_convert::digits::{
    format_bits, format_decimal, format_radix, parse_i64, parse_u8, push_digits, to_digit,
};
use base_convert::ParseFailure;
use std::num::IntErrorKind;

fn failure_of(kind: &IntErrorKind) -> ParseFailure {
    match kind {
        IntErrorKind::Empty => ParseFailure::Empty,
        IntErrorKind::InvalidDigit => ParseFailure::InvalidDigit,
        IntErrorKind::PosOverflow => ParseFailure::PosOverflow,
        IntErrorKind::NegOverflow => ParseFailure::NegOverflow,
        other => panic!("unexpected kind {other:?}"),
    }
}

fn samples() -> Vec<String> {
    let mut all: Vec<String> = vec![
        "", "+", "-", "0", "-0", "+0", "00", "7", "10", "ff", "FF", "fF", "zz", "ZZ", "g", "z",
        "9223372036854775807", "9223372036854775808", "-9223372036854775808",
        "-9223372036854775809", "+9223372036854775807", "99999999999999999999x", "9x", "x9",
        "+-1", "-+1", "--1", "++1", "1-", "1+", " 1", "1 ", "1_000", "1.0", "0x10", "0b1",
        "7fffffffffffffff", "8000000000000000", "-8000000000000000", "-8000000000000001",
        "ffffffffffffffff", "777777777777777777777", "1000000000000000000000",
        "-1000000000000000000000", "-1000000000000000000001",
        "111111111111111111111111111111111111111111111111111111111111111",
        "1000000000000000000000000000000000000000000000000000000000000000",
        "-1000000000000000000000000000000000000000000000000000000000000000",
        "-1000000000000000000000000000000000000000000000000000000000000001",
        "1y2p0ij32e8e7", "1y2p0ij32e8e8", "-1y2p0ij32e8e8", "-1y2p0ij32e8e9", "zzzzzzzzzzzzzz",
        "000000000000000000000000000000000000000000000000000000000000000000000001",
        "１２", "é", "1é", "٣", "255", "256", "+255", "-255", "036", "a\u{0}", "\u{7f}",
        "/", ":", "@", "[", "`", "{", "G", "a", "A", "9", "8", "2", "1",
    ]
    .into_iter()
    .map(String::from)
    .collect();
    let mut value: i64 = 1;
    while value < i64::MAX / 7 {
        all.push(value.to_string());
        all.push((-value).to_string());
        all.push(format!("{value:x}"));
        all.push(format!("{value:o}"));
        all.push(format!("-{value:b}"));
        value = value * 7 + 3;
    }
    all
}

#[test]
fn parse_i64_agrees_with_the_standard_library() {
    for text in samples() {
        let mut radix: u32 = 2;
        while radix <= 36 {
            let expected = i64::from_str_radix(&text, radix).map_err(|e| failure_of(e.kind()));
            assert_eq!(parse_i64(&text, radix), expected, "text {text:?} radix {radix}");
            radix += 1;
        }
    }
}

#[test]
fn parse_u8_agrees_with_the_standard_library() {
    for text in samples() {
        let expected = text.parse::<u8>().map_err(|e| failure_of(e.kind()));
        assert_eq!(parse_u8(&text), expected, "text {text:?}");
    }
    let mut value: u32 = 0;
    while value < 300 {
        let text = value.to_string();
        let expected = text.parse::<u8>().map_err(|e| failure_of(e.kind()));
        assert_eq!(parse_u8(&text), expected, "text {text:?}");
        value += 1;
    }
}

#[test]
fn to_digit_agrees_with_the_standard_library() {
    let mut code: u32 = 0;
    while code < 0x400 {
        if let Some(c) = char::from_u32(code) {
            let mut radix: u32 = 2;
            while radix <= 36 {
                assert_eq!(to_digit(c, radix), c.to_digit(radix), "char {c:?} radix {radix}");
                radix += 1;
            }
        }
        code += 1;
    }
    assert_eq!(to_digit('７', 10), None);
    assert_eq!(to_digit('\u{10ffff}', 36), None);
}

#[test]
fn to_digit_values() {
    assert_eq!(to_digit('0', 2), Some(0));
    assert_eq!(to_digit('1', 2), Some(1));
    assert_eq!(to_digit('2', 2), None);
    assert_eq!(to_digit('9', 10), Some(9));
    assert_eq!(to_digit('a', 10), None);
    assert_eq!(to_digit('a', 11), Some(10));
    assert_eq!(to_digit('A', 11), Some(10));
    assert_eq!(to_digit('f', 16), Some(15));
    assert_eq!(to_digit('g', 16), None);
    assert_eq!(to_digit('z', 36), Some(35));
    assert_eq!(to_digit('Z', 36), Some(35));
    assert_eq!(to_digit('z', 35), None);
}

#[test]
fn parse_i64_values() {
    assert_eq!(parse_i64("255", 10), Ok(255));
    assert_eq!(parse_i64("ff", 16), Ok(255));
    assert_eq!(parse_i64("FF", 16), Ok(255));
    assert_eq!(parse_i64("377", 8), Ok(255));
    assert_eq!(parse_i64("11111111", 2), Ok(255));
    assert_eq!(parse_i64("-ff", 16), Ok(-255));
    assert_eq!(parse_i64("+ff", 16), Ok(255));
    assert_eq!(parse_i64("", 10), Err(ParseFailure::Empty));
    assert_eq!(parse_i64("+", 10), Err(ParseFailure::InvalidDigit));
    assert_eq!(parse_i64("-", 10), Err(ParseFailure::InvalidDigit));
    assert_eq!(parse_i64("12a", 10), Err(ParseFailure::InvalidDigit));
    assert_eq!(parse_i64("9223372036854775807", 10), Ok(i64::MAX));
    assert_eq!(parse_i64("9223372036854775808", 10), Err(ParseFailure::PosOverflow));
    assert_eq!(parse_i64("-9223372036854775808", 10), Ok(i64::MIN));
    assert_eq!(parse_i64("-9223372036854775809", 10), Err(ParseFailure::NegOverflow));
}

#[test]
fn the_first_thing_that_goes_wrong_decides() {
    // The digits leave the range before the letter is met.
    assert_eq!(parse_i64("99999999999999999999x", 10), Err(ParseFailure::PosOverflow));
    assert_eq!(parse_i64("-99999999999999999999x", 10), Err(ParseFailure::NegOverflow));
    // The letter is met while the digits are within the range.
    assert_eq!(parse_i64("9x99999999999999999999", 10), Err(ParseFailure::InvalidDigit));
    assert_eq!(parse_i64("922337203685477580x", 10), Err(ParseFailure::InvalidDigit));
    assert_eq!(parse_i64("9223372036854775807x", 10), Err(ParseFailure::InvalidDigit));
    assert_eq!(parse_i64("9223372036854775808x", 10), Err(ParseFailure::PosOverflow));
    assert_eq!(parse_u8("25x"), Err(ParseFailure::InvalidDigit));
    assert_eq!(parse_u8("256x"), Err(ParseFailure::PosOverflow));
}

#[test]
fn parse_u8_values() {
    assert_eq!(parse_u8("0"), Ok(0));
    assert_eq!(parse_u8("17"), Ok(17));
    assert_eq!(parse_u8("+17"), Ok(17));
    assert_eq!(parse_u8("255"), Ok(255));
    assert_eq!(parse_u8("256"), Err(ParseFailure::PosOverflow));
    assert_eq!(parse_u8("-1"), Err(ParseFailure::InvalidDigit));
    assert_eq!(parse_u8("-0"), Err(ParseFailure::InvalidDigit));
    assert_eq!(parse_u8("-"), Err(ParseFailure::InvalidDigit));
    assert_eq!(parse_u8(""), Err(ParseFailure::Empty));
    assert_eq!(parse_u8("1f"), Err(ParseFailure::InvalidDigit));
}

#[test]
fn format_radix_values() {
    assert_eq!(format_radix(0, 2), "0");
    assert_eq!(format_radix(0, 16), "0");
    assert_eq!(format_radix(1, 2), "1");
    assert_eq!(format_radix(2, 2), "10");
    assert_eq!(format_radix(255, 2), "11111111");
    assert_eq!(format_radix(255, 8), "377");
    assert_eq!(format_radix(255, 10), "255");
    assert_eq!(format_radix(255, 16), "ff");
    assert_eq!(format_radix(255, 3), "100110");
    assert_eq!(format_radix(35, 36), "z");
    assert_eq!(format_radix(1295, 36), "zz");
    assert_eq!(format_radix(1_299_629, 36), "rust");
    assert_eq!(format_radix(u64::MAX, 16), "ffffffffffffffff");
    assert_eq!(format_radix(u64::MAX, 10), "18446744073709551615");
}

#[test]
fn push_digits_appends() {
    let mut text = String::from("n = ");
    push_digits(&mut text, 1295, 10);
    assert_eq!(text, "n = 1295");
    push_digits(&mut text, 0, 2);
    assert_eq!(text, "n = 12950");
}

#[test]
fn format_bits_and_decimal_agree_with_the_standard_library() {
    let mut values: Vec<i64> =
        vec![0, 1, -1, 2, -2, 7, 8, 9, 10, 15, 16, 255, -255, i64::MAX, i64::MIN];
    let mut value: i64 = 1;
    while value < i64::MAX / 5 {
        values.push(value);
        values.push(-value);
        values.push(value - 1);
        value = value * 5 + 1;
    }
    for value in values {
        assert_eq!(format_bits(value, 2), format!("{value:b}"));
        assert_eq!(format_bits(value, 8), format!("{value:o}"));
        assert_eq!(format_bits(value, 16), format!("{value:x}"));
        assert_eq!(format_decimal(value), format!("{value}"));
    }
}

#[test]
fn what_is_written_reads_back() {
    let mut value: u64 = 0;
    while value < 5000 {
        let mut radix: u32 = 2;
        while radix <= 36 {
            let text = format_radix(value, radix);
            assert_eq!(parse_i64(&text, radix), Ok(value as i64), "value {value} radix {radix}");
            radix += 1;
        }
        value += 1;
    }
}
