use cef_screens::error::Error;
use cef_screens::parse::{parse_fx, parse_time, parse_u64};

const F: i64 = 65536;

#[test]
fn time_plain_seconds() {
    assert_eq!(parse_time(b"90"), Ok(90));
}

#[test]
fn time_minutes_and_seconds() {
    assert_eq!(parse_time(b"1:30"), Ok(90));
}

#[test]
fn time_hours_minutes_seconds() {
    assert_eq!(parse_time(b"1:01:30"), Ok(3690));
}

#[test]
fn time_four_fields_is_a_format_error() {
    assert_eq!(parse_time(b"1:2:3:4"), Err(Error::FormatError));
}

#[test]
fn time_rejects_junk() {
    assert_eq!(parse_time(b""), Err(Error::FormatError));
    assert_eq!(parse_time(b"abc"), Err(Error::FormatError));
    assert_eq!(parse_time(b":30"), Err(Error::FormatError));
    assert_eq!(parse_time(b"1:"), Err(Error::FormatError));
}

#[test]
fn u64_parses_digits_only() {
    assert_eq!(parse_u64(b"0"), Ok(0));
    assert_eq!(parse_u64(b"18446744073709551615"), Ok(u64::MAX));
    assert_eq!(parse_u64(b"18446744073709551616"), Err(Error::FormatError));
    assert_eq!(parse_u64(b"12a"), Err(Error::FormatError));
    assert_eq!(parse_u64(b""), Err(Error::FormatError));
}

#[test]
fn fixed_point_decimals() {
    assert_eq!(parse_fx(b"2"), Ok(2 * F));
    assert_eq!(parse_fx(b"1.5"), Ok(F + F / 2));
    assert_eq!(parse_fx(b"-2"), Ok(-2 * F));
    assert_eq!(parse_fx(b"0.25"), Ok(F / 4));
}

#[test]
fn fixed_point_rejects_malformed_shapes() {
    assert_eq!(parse_fx(b""), Err(Error::FormatError));
    assert_eq!(parse_fx(b"1.2.3"), Err(Error::FormatError));
    assert_eq!(parse_fx(b"."), Err(Error::FormatError));
    assert_eq!(parse_fx(b"--1"), Err(Error::FormatError));
    assert_eq!(parse_fx(b"x"), Err(Error::FormatError));
}
