use tailtrans::config::{fingerprint, fingerprint_input, Config};
use tailtrans::startup::{exit_code, StartAction, StartEvent, Startup};

fn config_with(input: &str, encoding: &str) -> Config {
    Config {
        input: input.to_string(),
        output: "out.txt".to_string(),
        encoding: encoding.to_string(),
        position: 0,
        position_path: None,
        log_level: "info".to_string(),
    }
}

#[test]
fn startup_happy_path_reaches_the_engine() {
    let mut startup = Startup::new(config_with("in.log", "utf-8"));
    assert!(matches!(startup.first_action(), StartAction::CheckGuard));
    let a = startup.on_event(StartEvent::GuardChecked(true));
    assert!(matches!(a, StartAction::OpenInput));
    let a = startup.on_event(StartEvent::InputOpened(true));
    assert!(matches!(a, StartAction::ReadPositionRecord));
    let a = startup.on_event(StartEvent::PositionRecord(Some(b"12".to_vec())));
    assert!(matches!(a, StartAction::OpenOutput));
    let a = startup.on_event(StartEvent::OutputOpened(true));
    assert!(matches!(a, StartAction::BeginTailing));
    let engine = startup.into_engine();
    assert_eq!(engine.position(), 12);
}

#[test]
fn duplicate_instance_stops_with_distinguished_status() {
    let mut startup = Startup::new(config_with("in.log", "utf-8"));
    let a = startup.on_event(StartEvent::GuardChecked(false));
    match a {
        StartAction::Terminate(reason) => {
            let code = exit_code(&reason);
            assert_eq!(code, 2);
        }
        _ => panic!("a duplicate instance must terminate startup"),
    }
}

#[test]
fn unknown_encoding_stops_before_output_is_touched() {
    // The rejection happens at the guard-and-resolve step: the machine never
    // returns OpenOutput, so no output file is opened and no directory is
    // created.
    let mut startup = Startup::new(config_with("in.log", "no-such-encoding"));
    let a = startup.on_event(StartEvent::GuardChecked(true));
    match a {
        StartAction::Terminate(reason) => {
            let code = exit_code(&reason);
            assert_eq!(code, 1);
        }
        _ => panic!("an unknown encoding must terminate startup"),
    }
}

#[test]
fn input_and_output_failures_are_fatal() {
    let mut startup = Startup::new(config_with("in.log", "utf-8"));
    startup.on_event(StartEvent::GuardChecked(true));
    let a = startup.on_event(StartEvent::InputOpened(false));
    assert!(matches!(a, StartAction::Terminate(_)));

    let mut startup = Startup::new(config_with("in.log", "utf-8"));
    startup.on_event(StartEvent::GuardChecked(true));
    startup.on_event(StartEvent::InputOpened(true));
    startup.on_event(StartEvent::PositionRecord(None));
    let a = startup.on_event(StartEvent::OutputOpened(false));
    assert!(matches!(a, StartAction::Terminate(_)));
}

#[test]
fn missing_record_starts_from_zero() {
    let mut startup = Startup::new(config_with("in.log", "utf-8"));
    startup.on_event(StartEvent::GuardChecked(true));
    startup.on_event(StartEvent::InputOpened(true));
    startup.on_event(StartEvent::PositionRecord(None));
    startup.on_event(StartEvent::OutputOpened(true));
    assert_eq!(startup.into_engine().position(), 0);
}

#[test]
fn identical_configurations_share_a_fingerprint() {
    let a = config_with("in.log", "utf-8");
    let b = config_with("in.log", "utf-8");
    assert_eq!(fingerprint_input(&a), fingerprint_input(&b));
    assert_eq!(fingerprint(&a), fingerprint(&b));
}

#[test]
fn different_inputs_give_different_fingerprints() {
    let a = config_with("one.log", "utf-8");
    let b = config_with("two.log", "utf-8");
    assert_ne!(fingerprint_input(&a), fingerprint_input(&b));
    assert_ne!(fingerprint(&a), fingerprint(&b));
}

#[test]
fn fingerprint_exact_value() {
    // The preimage is each field framed as "<len>:<bytes>" with a presence
    // tag for the optional path; the fingerprint is its SHA-256 hex digest.
    let cfg = config_with("in.log", "utf-8");
    assert_eq!(
        fingerprint_input(&cfg),
        b"6:in.log7:out.txt5:utf-81:004:info".to_vec()
    );
    assert_eq!(
        fingerprint(&cfg),
        "42c2192511d3430b0f526d86f057a44583b5f218e8e779e114159af11d2709db"
    );
}

#[test]
fn field_boundaries_do_not_blur() {
    // The preimage frames every field, so shifting text between fields
    // changes the fingerprint.
    let mut a = config_with("ab", "utf-8");
    a.output = "c".to_string();
    let mut b = config_with("a", "utf-8");
    b.output = "bc".to_string();
    assert_ne!(fingerprint_input(&a), fingerprint_input(&b));
}
