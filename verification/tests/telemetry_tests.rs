use practice_tracker::telemetry::{parse_bpm, DecodeError};

#[test]
fn whole_numbers_decode() {
    assert_eq!(parse_bpm(b"120"), Ok(120));
    assert_eq!(parse_bpm(b"0"), Ok(0));
    assert_eq!(parse_bpm(b"+87"), Ok(87));
    assert_eq!(parse_bpm(b"-87"), Ok(-87));
    assert_eq!(parse_bpm(b"-0"), Ok(0));
    assert_eq!(parse_bpm(b"007"), Ok(7));
}

#[test]
fn the_bounds_of_64_bits_decode() {
    assert_eq!(parse_bpm(b"9223372036854775807"), Ok(i64::MAX));
    assert_eq!(parse_bpm(b"-9223372036854775808"), Ok(i64::MIN));
    assert_eq!(parse_bpm(b"+0000000000000000000009223372036854775807"), Ok(i64::MAX));
}

#[test]
fn numbers_beyond_64_bits_are_no_numbers() {
    assert_eq!(parse_bpm(b"9223372036854775808"), Err(DecodeError::NotANumber));
    assert_eq!(parse_bpm(b"-9223372036854775809"), Err(DecodeError::NotANumber));
    assert_eq!(parse_bpm(b"99999999999999999999999999"), Err(DecodeError::NotANumber));
    assert_eq!(parse_bpm(b"92233720368547758070"), Err(DecodeError::NotANumber));
}

#[test]
fn other_text_is_no_number() {
    assert_eq!(parse_bpm(b""), Err(DecodeError::NotANumber));
    assert_eq!(parse_bpm(b"+"), Err(DecodeError::NotANumber));
    assert_eq!(parse_bpm(b"-"), Err(DecodeError::NotANumber));
    assert_eq!(parse_bpm(b"fast"), Err(DecodeError::NotANumber));
    assert_eq!(parse_bpm(b"120.5"), Err(DecodeError::NotANumber));
    assert_eq!(parse_bpm(b"1e3"), Err(DecodeError::NotANumber));
    assert_eq!(parse_bpm(b" 120"), Err(DecodeError::NotANumber));
    assert_eq!(parse_bpm(b"120\n"), Err(DecodeError::NotANumber));
    assert_eq!(parse_bpm(b"12 0"), Err(DecodeError::NotANumber));
    assert_eq!(parse_bpm(b"--5"), Err(DecodeError::NotANumber));
    assert_eq!(parse_bpm(b"5-"), Err(DecodeError::NotANumber));
    assert_eq!(parse_bpm(b"1_000"), Err(DecodeError::NotANumber));
    assert_eq!(parse_bpm("١٢٠".as_bytes()), Err(DecodeError::NotANumber));
}

#[test]
fn bytes_that_are_no_text_are_told_apart() {
    assert_eq!(parse_bpm(&[0xff, 0xfe]), Err(DecodeError::NotText));
    assert_eq!(parse_bpm(&[0x31, 0x32, 0x80]), Err(DecodeError::NotText));
    assert_eq!(parse_bpm(&[0xc3]), Err(DecodeError::NotText));
    assert_eq!(parse_bpm(&[0xed, 0xa0, 0x80]), Err(DecodeError::NotText));
}

#[test]
fn decoding_agrees_with_the_standard_parser() {
    let samples: [&str; 24] = [
        "",
        "0",
        "-0",
        "+0",
        "+",
        "-",
        "+-1",
        "42",
        "0042",
        "-0042",
        "9223372036854775807",
        "9223372036854775808",
        "-9223372036854775808",
        "-9223372036854775809",
        "18446744073709551616",
        "1.0",
        "0x10",
        "12a",
        "a12",
        " 1",
        "1 ",
        "１２",
        "120\r\n",
        "1e2",
    ];
    for text in samples {
        let expected: Result<i64, DecodeError> = match text.parse::<i64>() {
            Ok(v) => Ok(v),
            Err(_) => Err(DecodeError::NotANumber),
        };
        assert_eq!(parse_bpm(text.as_bytes()), expected, "{:?}", text);
    }
}
