use tailtrans::config::{derive_position_file_name, parse_level_filter, LevelFilter};
use tailtrans::encoding::{Decoder, EncodingError};

#[test]
fn resolve_known_labels() {
    assert!(Decoder::resolve("utf-8").is_ok());
    assert!(Decoder::resolve("UTF-8").is_ok());
    assert!(Decoder::resolve("windows-1252").is_ok());
    assert!(Decoder::resolve("latin1").is_ok());
    assert!(Decoder::resolve("shift_jis").is_ok());
}

#[test]
fn resolve_unknown_label_is_rejected() {
    match Decoder::resolve("no-such-encoding") {
        Err(EncodingError::UnsupportedEncoding) => {}
        Ok(_) => panic!("an unknown label must be rejected"),
    }
}

#[test]
fn decode_replaces_malformed_sequences() {
    // 0xFF alone is malformed UTF-8; decoding must not fail but produce the
    // replacement character U+FFFD (EF BF BD).
    let decoder = Decoder::resolve("utf-8").unwrap();
    let out = decoder.decode(&[0xFF]);
    assert_eq!(out, vec![0xEF, 0xBF, 0xBD]);
}

#[test]
fn decode_empty_is_empty() {
    let decoder = Decoder::resolve("windows-1252").unwrap();
    assert_eq!(decoder.decode(&[]), Vec::<u8>::new());
}

#[test]
fn level_names_parse() {
    assert_eq!(parse_level_filter("off"), LevelFilter::Off);
    assert_eq!(parse_level_filter("error"), LevelFilter::Error);
    assert_eq!(parse_level_filter("warn"), LevelFilter::Warn);
    assert_eq!(parse_level_filter("info"), LevelFilter::Info);
    assert_eq!(parse_level_filter("debug"), LevelFilter::Debug);
    assert_eq!(parse_level_filter("trace"), LevelFilter::Trace);
}

#[test]
fn level_names_ignore_ascii_case() {
    assert_eq!(parse_level_filter("OFF"), LevelFilter::Off);
    assert_eq!(parse_level_filter("Error"), LevelFilter::Error);
    assert_eq!(parse_level_filter("TrAcE"), LevelFilter::Trace);
}

#[test]
fn unknown_level_defaults_to_info() {
    assert_eq!(parse_level_filter(""), LevelFilter::Info);
    assert_eq!(parse_level_filter("verbose"), LevelFilter::Info);
    assert_eq!(parse_level_filter("off "), LevelFilter::Info);
}

#[test]
fn position_file_name_normalizes_separators() {
    assert_eq!(derive_position_file_name("a:b", b'/'), b"a/b".to_vec());
    assert_eq!(
        derive_position_file_name("C:/logs/app.log", b'/'),
        b"C//logs/app.log".to_vec()
    );
    assert_eq!(derive_position_file_name("plain", b'/'), b"plain".to_vec());
}
