use tailtrans::encoding::Decoder;
use tailtrans::engine::{Action, Engine, ReadOutcome};
use tailtrans::position::encode_position;

fn engine_for(label: &str, start: u64) -> Engine {
    let decoder = Decoder::resolve(label).expect("label must resolve");
    Engine::new(decoder, start)
}

#[test]
fn poll_without_truncation_changes_nothing() {
    let mut engine = engine_for("utf-8", 10);
    let reset = engine.on_poll(10);
    assert!(!reset);
    assert_eq!(engine.position(), 10);
    let reset = engine.on_poll(25);
    assert!(!reset);
    assert_eq!(engine.position(), 10);
}

#[test]
fn poll_detects_truncation_and_resets() {
    // The input shrank below the cursor: the cursor must reset to 0 and
    // never point past the new end.
    let mut engine = engine_for("utf-8", 100);
    let reset = engine.on_poll(40);
    assert!(reset);
    assert_eq!(engine.position(), 0);
}

#[test]
fn idle_cycle_sleeps_and_mutates_nothing() {
    // No new bytes: the engine only sleeps; cursor (and hence the record)
    // stays as it was.
    let mut engine = engine_for("utf-8", 7);
    let act = engine.on_read(ReadOutcome::EndOfData);
    assert!(matches!(act, Action::Sleep));
    assert_eq!(engine.position(), 7);
}

#[test]
fn read_fault_retries_without_advancing() {
    let mut engine = engine_for("utf-8", 7);
    let act = engine.on_read(ReadOutcome::Failed);
    assert!(matches!(act, Action::Retry));
    assert_eq!(engine.position(), 7);
}

#[test]
fn draining_decodes_advances_and_persists_in_order() {
    let mut engine = engine_for("utf-8", 3);
    let act = engine.on_read(ReadOutcome::Data(b"abc".to_vec()));
    match act {
        Action::Append(cmd) => {
            assert_eq!(cmd.text, b"abc".to_vec());
            assert_eq!(cmd.new_cursor, 6);
            assert_eq!(engine.position(), 6);
        }
        _ => panic!("new bytes must produce an append"),
    }
}

#[test]
fn resumed_session_appends_only_the_new_bytes() {
    // First run consumes the whole input; a restart from the persisted
    // cursor must decode exactly the appended bytes, and the old text must
    // not reappear.
    let whole: &[u8] = b"hello world";
    let first = &whole[..6];

    let mut engine = engine_for("utf-8", 0);
    let act = engine.on_read(ReadOutcome::Data(first.to_vec()));
    let persisted = match act {
        Action::Append(cmd) => {
            assert_eq!(cmd.text, b"hello ".to_vec());
            cmd.new_cursor
        }
        _ => panic!("new bytes must produce an append"),
    };
    assert_eq!(persisted, 6);

    // Restart: a new engine at the persisted cursor sees only the tail.
    let mut engine = engine_for("utf-8", persisted);
    assert!(!engine.on_poll(whole.len() as u64));
    let tail = &whole[persisted as usize..];
    let act = engine.on_read(ReadOutcome::Data(tail.to_vec()));
    match act {
        Action::Append(cmd) => {
            assert_eq!(cmd.text, b"world".to_vec());
            assert_eq!(cmd.new_cursor, whole.len() as u64);
        }
        _ => panic!("new bytes must produce an append"),
    }
}

#[test]
fn transcoded_example_cycle() {
    // Bytes that decode to "hello" under a legacy single-byte encoding: one
    // cycle appends the UTF-8 bytes of "hello" and persists the input byte
    // count.
    let mut engine = engine_for("windows-1252", 0);
    let act = engine.on_read(ReadOutcome::Data(b"hello".to_vec()));
    match act {
        Action::Append(cmd) => {
            assert_eq!(cmd.text, "hello".as_bytes().to_vec());
            assert_eq!(cmd.new_cursor, 5);
            assert_eq!(encode_position(cmd.new_cursor), b"5".to_vec());
        }
        _ => panic!("new bytes must produce an append"),
    }
}

#[test]
fn transcoded_non_ascii_bytes() {
    // windows-1252 0xE9 is "é", U+00E9, whose UTF-8 form is C3 A9.
    let mut engine = engine_for("windows-1252", 0);
    let act = engine.on_read(ReadOutcome::Data(vec![0xE9, 0x21]));
    match act {
        Action::Append(cmd) => {
            assert_eq!(cmd.text, vec![0xC3, 0xA9, 0x21]);
            assert_eq!(cmd.new_cursor, 2);
        }
        _ => panic!("new bytes must produce an append"),
    }
}
