use co2_sensor::decimal::{decimal_string, parse_reading, MAX_READING};
use co2_sensor::error::ParseError;

#[test]
fn digits_are_read_as_a_number() {
    assert_eq!(parse_reading("415"), Ok(415));
    assert_eq!(parse_reading("0"), Ok(0));
    assert_eq!(parse_reading("7"), Ok(7));
}

#[test]
fn the_largest_reading_is_read_and_the_next_number_is_not() {
    assert_eq!(parse_reading("65535"), Ok(MAX_READING));
    assert_eq!(parse_reading("65536"), Err(ParseError::Numeric));
    assert_eq!(parse_reading("99999999999999999999"), Err(ParseError::Numeric));
}

#[test]
fn leading_zeros_and_a_plus_sign_are_accepted() {
    assert_eq!(parse_reading("0042"), Ok(42));
    assert_eq!(parse_reading("+7"), Ok(7));
    assert_eq!(parse_reading("0000000000065535"), Ok(65535));
}

#[test]
fn what_is_no_number_is_refused() {
    assert_eq!(parse_reading("abc"), Err(ParseError::Numeric));
    assert_eq!(parse_reading(""), Err(ParseError::Numeric));
    assert_eq!(parse_reading("+"), Err(ParseError::Numeric));
    assert_eq!(parse_reading("-1"), Err(ParseError::Numeric));
    assert_eq!(parse_reading("++1"), Err(ParseError::Numeric));
    assert_eq!(parse_reading(" 415"), Err(ParseError::Numeric));
    assert_eq!(parse_reading("415 "), Err(ParseError::Numeric));
    assert_eq!(parse_reading("4.15"), Err(ParseError::Numeric));
    assert_eq!(parse_reading("41\u{663}"), Err(ParseError::Numeric));
}

#[test]
fn parsing_agrees_with_the_standard_parser() {
    let texts = ["415", "0", "65535", "65536", "", "+", "+0", "-0", "007", "1e3", "0x10", "12a", "a12"];
    for text in texts {
        assert_eq!(parse_reading(text).ok(), text.parse::<u16>().ok());
    }
}

#[test]
fn readings_are_written_without_leading_zeros() {
    assert_eq!(decimal_string(0), "0");
    assert_eq!(decimal_string(7), "7");
    assert_eq!(decimal_string(10), "10");
    assert_eq!(decimal_string(415), "415");
    assert_eq!(decimal_string(1000), "1000");
    assert_eq!(decimal_string(65535), "65535");
}

#[test]
fn what_is_written_is_read_back() {
    let mut value: u16 = 0;
    loop {
        assert_eq!(parse_reading(&decimal_string(value)), Ok(value));
        assert_eq!(decimal_string(value), value.to_string());
        if value == u16::MAX {
            break;
        }
        value += 1;
    }
}
