use ghmd::text::{
    char_to_digit, chars_of, find_from, matches_at, parse_number, push_all, push_decimal,
    push_range, push_str, text_eq, NumberFault,
};
use std::num::IntErrorKind;

fn parse(text: &str, max: u64) -> Result<u64, NumberFault> {
    let chars = chars_of(text);
    let len = chars.len();
    parse_number(&chars, 0, len, max)
}

fn fault_of(kind: &IntErrorKind) -> NumberFault {
    match kind {
        IntErrorKind::Empty => NumberFault::Empty,
        IntErrorKind::InvalidDigit => NumberFault::InvalidDigit,
        IntErrorKind::PosOverflow => NumberFault::Overflow,
        other => panic!("unexpected kind {:?}", other),
    }
}

fn string_of(chars: &[char]) -> String {
    chars.iter().collect()
}

fn decimal_of(n: u64) -> String {
    let mut out = Vec::new();
    push_decimal(&mut out, n);
    string_of(&out)
}

#[test]
fn a_text_is_taken_apart_into_its_characters() {
    assert_eq!(chars_of("héllo"), vec!['h', 'é', 'l', 'l', 'o']);
    assert_eq!(chars_of(""), Vec::<char>::new());
    assert_eq!(chars_of("a\r\n"), vec!['a', '\r', '\n']);
}

#[test]
fn buffers_are_appended_to() {
    let mut out = vec!['a'];
    push_str(&mut out, "bc");
    push_all(&mut out, &vec!['d']);
    push_range(&mut out, &chars_of("0123456"), 2, 5);
    push_range(&mut out, &chars_of("0123456"), 3, 3);
    assert_eq!(string_of(&out), "abcd234");
}

#[test]
fn decimal_notation() {
    assert_eq!(decimal_of(0), "0");
    assert_eq!(decimal_of(7), "7");
    assert_eq!(decimal_of(10), "10");
    assert_eq!(decimal_of(60), "60");
    assert_eq!(decimal_of(1234567890), "1234567890");
    assert_eq!(decimal_of(u64::MAX), "18446744073709551615");
}

#[test]
fn digits_have_values() {
    assert_eq!(char_to_digit('0'), Some(0));
    assert_eq!(char_to_digit('9'), Some(9));
    assert_eq!(char_to_digit('a'), None);
    assert_eq!(char_to_digit('٣'), None);
}

#[test]
fn numbers_are_parsed() {
    assert_eq!(parse("0", 10), Ok(0));
    assert_eq!(parse("60", u32::MAX as u64), Ok(60));
    assert_eq!(parse("007", 10), Ok(7));
    assert_eq!(parse("+5", 10), Ok(5));
    assert_eq!(parse("4294967295", u32::MAX as u64), Ok(4294967295));
    assert_eq!(parse("18446744073709551615", u64::MAX), Ok(u64::MAX));
}

#[test]
fn each_number_fault_has_an_input() {
    assert_eq!(parse("", 10), Err(NumberFault::Empty));
    assert_eq!(parse("+", 10), Err(NumberFault::InvalidDigit));
    assert_eq!(parse("-", 10), Err(NumberFault::InvalidDigit));
    assert_eq!(parse("-5", 10), Err(NumberFault::InvalidDigit));
    assert_eq!(parse("1 ", 10), Err(NumberFault::InvalidDigit));
    assert_eq!(parse("11", 10), Err(NumberFault::Overflow));
    assert_eq!(parse("4294967296", u32::MAX as u64), Err(NumberFault::Overflow));
    assert_eq!(parse("18446744073709551616", u64::MAX), Err(NumberFault::Overflow));
}

#[test]
fn the_first_character_that_cannot_be_taken_decides() {
    assert_eq!(parse("4294967296x", u32::MAX as u64), Err(NumberFault::Overflow));
    assert_eq!(parse("429496729x6", u32::MAX as u64), Err(NumberFault::InvalidDigit));
    assert_eq!(parse("x4294967296", u32::MAX as u64), Err(NumberFault::InvalidDigit));
}

#[test]
fn numbers_are_read_as_the_standard_library_reads_them() {
    let texts = [
        "", "0", "00", "007", "+5", "+", "-", "-5", "-0", "++1", "+-1", "1+", " 1", "1 ", "1_000",
        "12a", "a12", "٣", "4294967295", "4294967296", "42949672950", "99999999999x",
        "4294967296x", "429496729x", "+4294967295", "+4294967296", "000000000000000000001",
        "18446744073709551615", "18446744073709551616", "184467440737095516150",
        "99999999999999999999999999", "0x10", "1e3", "1.0",
    ];
    for text in texts {
        let narrow = match text.parse::<u32>() {
            Ok(n) => Ok(n as u64),
            Err(e) => Err(fault_of(e.kind())),
        };
        assert_eq!(parse(text, u32::MAX as u64), narrow, "u32 from {:?}", text);
        let wide = match text.parse::<u64>() {
            Ok(n) => Ok(n),
            Err(e) => Err(fault_of(e.kind())),
        };
        assert_eq!(parse(text, u64::MAX), wide, "u64 from {:?}", text);
    }
}

#[test]
fn a_number_can_be_parsed_from_the_middle() {
    let chars = chars_of("ab123cd");
    assert_eq!(parse_number(&chars, 2, 5, 1000), Ok(123));
    assert_eq!(parse_number(&chars, 2, 6, 1000), Err(NumberFault::InvalidDigit));
    assert_eq!(parse_number(&chars, 3, 3, 1000), Err(NumberFault::Empty));
}

#[test]
fn decimal_notation_parses_back() {
    for n in [0u64, 1, 9, 10, 99, 100, 4294967295, 4294967296, u64::MAX] {
        assert_eq!(parse(&decimal_of(n), u64::MAX), Ok(n));
    }
}

#[test]
fn patterns_are_found() {
    let text = chars_of("a__b__OCTICON__");
    let pattern = chars_of("__");
    assert!(matches_at(&text, &pattern, 1));
    assert!(!matches_at(&text, &pattern, 2));
    assert!(!matches_at(&text, &pattern, 14));
    assert!(!matches_at(&text, &pattern, 99));
    assert_eq!(find_from(&text, &pattern, 0), 1);
    assert_eq!(find_from(&text, &pattern, 2), 4);
    assert_eq!(find_from(&text, &pattern, 5), 13);
    assert_eq!(find_from(&text, &pattern, 14), 15);
    assert_eq!(find_from(&text, &chars_of("zz"), 0), 15);
    assert_eq!(find_from(&chars_of(""), &pattern, 0), 0);
}

#[test]
fn texts_are_compared_by_their_characters() {
    assert!(text_eq("", ""));
    assert!(text_eq("text/event-stream", "text/event-stream"));
    assert!(!text_eq("text/event-stream", "text/event-stream "));
    assert!(!text_eq("a", "b"));
    assert!(!text_eq("ab", "a"));
}
