use tailtrans::position::{encode_position, initial_cursor, parse_position};

#[test]
fn encode_zero() {
    assert_eq!(encode_position(0), b"0".to_vec());
}

#[test]
fn encode_small() {
    assert_eq!(encode_position(5), b"5".to_vec());
}

#[test]
fn encode_multi_digit() {
    assert_eq!(encode_position(1234567890), b"1234567890".to_vec());
}

#[test]
fn encode_largest() {
    assert_eq!(encode_position(u64::MAX), b"18446744073709551615".to_vec());
}

#[test]
fn parse_plain() {
    assert_eq!(parse_position(b"42"), 42);
}

#[test]
fn parse_leading_zeros() {
    assert_eq!(parse_position(b"007"), 7);
}

#[test]
fn parse_plus_sign() {
    assert_eq!(parse_position(b"+42"), 42);
}

#[test]
fn parse_empty_is_zero() {
    assert_eq!(parse_position(b""), 0);
}

#[test]
fn parse_lone_plus_is_zero() {
    assert_eq!(parse_position(b"+"), 0);
}

#[test]
fn parse_garbage_is_zero() {
    assert_eq!(parse_position(b"abc"), 0);
    assert_eq!(parse_position(b"12x"), 0);
    assert_eq!(parse_position(b"-3"), 0);
    assert_eq!(parse_position(b"42\n"), 0);
}

#[test]
fn parse_largest() {
    assert_eq!(parse_position(b"18446744073709551615"), u64::MAX);
}

#[test]
fn parse_overflow_is_zero() {
    assert_eq!(parse_position(b"18446744073709551616"), 0);
    assert_eq!(parse_position(b"99999999999999999999999"), 0);
}

#[test]
fn round_trip() {
    for v in [0u64, 1, 9, 10, 99, 1000, 65535, 4294967296, u64::MAX] {
        assert_eq!(parse_position(&encode_position(v)), v);
    }
}

#[test]
fn cursor_from_missing_record() {
    assert_eq!(initial_cursor(&None), 0);
}

#[test]
fn cursor_from_record() {
    assert_eq!(initial_cursor(&Some(b"37".to_vec())), 37);
}

#[test]
fn cursor_from_corrupt_record() {
    assert_eq!(initial_cursor(&Some(b"not a number".to_vec())), 0);
}
