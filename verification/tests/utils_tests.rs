use chatbix::error::ChatError;
use chatbix::utils::{parse_i32, parse_i64, timestamp_parse};

#[test]
fn parse_i64_plain_values() {
    assert_eq!(parse_i64("0"), Some(0));
    assert_eq!(parse_i64("123"), Some(123));
    assert_eq!(parse_i64("-123"), Some(-123));
    assert_eq!(parse_i64("+5"), Some(5));
    assert_eq!(parse_i64("007"), Some(7));
}

#[test]
fn parse_i64_rejects_bad_shapes() {
    assert_eq!(parse_i64(""), None);
    assert_eq!(parse_i64("-"), None);
    assert_eq!(parse_i64("+"), None);
    assert_eq!(parse_i64("12a"), None);
    assert_eq!(parse_i64("a12"), None);
    assert_eq!(parse_i64("1 2"), None);
    assert_eq!(parse_i64("--1"), None);
    assert_eq!(parse_i64("1.5"), None);
}

#[test]
fn parse_i64_range_edges() {
    assert_eq!(parse_i64("9223372036854775807"), Some(i64::MAX));
    assert_eq!(parse_i64("-9223372036854775808"), Some(i64::MIN));
    assert_eq!(parse_i64("9223372036854775808"), None);
    assert_eq!(parse_i64("-9223372036854775809"), None);
    assert_eq!(parse_i64("99999999999999999999999999"), None);
}

#[test]
fn parse_i64_agrees_with_std() {
    for s in [
        "0", "42", "-42", "+0", "", "-", "+", "x", "123x", "9223372036854775807",
        "-9223372036854775808", "9223372036854775808", "0000000000000000000042",
    ] {
        assert_eq!(parse_i64(s), s.parse::<i64>().ok(), "input {:?}", s);
    }
}

#[test]
fn parse_i32_range_edges() {
    assert_eq!(parse_i32("2147483647"), Some(i32::MAX));
    assert_eq!(parse_i32("-2147483648"), Some(i32::MIN));
    assert_eq!(parse_i32("2147483648"), None);
    assert_eq!(parse_i32("-2147483649"), None);
    assert_eq!(parse_i32("17"), Some(17));
}

#[test]
fn timestamp_parse_accepts_calendar_notation() {
    assert_eq!(timestamp_parse("2017-01-19T22:56:16"), Ok(1484866576));
    assert_eq!(timestamp_parse("1970-01-01T00:00:00"), Ok(0));
}

#[test]
fn timestamp_parse_accepts_epoch_seconds() {
    assert_eq!(timestamp_parse("1485357232"), Ok(1485357232));
    assert_eq!(timestamp_parse("-1"), Ok(-1));
}

#[test]
fn timestamp_parse_rejects_garbage() {
    assert_eq!(timestamp_parse("not-a-time"), Err(ChatError::MalformedInput));
    assert_eq!(timestamp_parse(""), Err(ChatError::MalformedInput));
}
