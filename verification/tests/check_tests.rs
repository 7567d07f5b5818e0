use serial_unit_testing::check::{
    check_read_events, check_step, read_min_events, CheckError, CheckSettings, ReadEvent,
    StepVerdict,
};
use serial_unit_testing::codec::TextFormat;
use serial_unit_testing::model::TestCaseSettings;

fn data(text: &str) -> ReadEvent {
    ReadEvent::Data(text.as_bytes().to_vec())
}

#[test]
fn check_matches_exact_response() {
    let events = vec![data("OK"), ReadEvent::TimedOut];
    let settings = CheckSettings::default();
    let result = check_read_events("OK", &settings, &events).unwrap();
    assert_eq!(result.0, true);
    assert_eq!(result.1, "OK");
}

#[test]
fn check_accumulates_chunks_until_match() {
    let events = vec![data("O"), data("K"), ReadEvent::TimedOut];
    let settings = CheckSettings::default();
    let result = check_read_events("OK", &settings, &events).unwrap();
    assert_eq!(result, (true, "OK".to_string()));
}

#[test]
fn check_stops_on_prefix_mismatch_without_reading_on() {
    let events = vec![data("ER"), data("R")];
    let settings = CheckSettings::default();
    let result = check_read_events("OK", &settings, &events).unwrap();
    assert_eq!(result.0, false);
    assert_eq!(result.1, "ER");
}

#[test]
fn check_timeout_with_no_data_is_distinguished_error() {
    let events = vec![ReadEvent::TimedOut];
    let settings = CheckSettings::default();
    let err = check_read_events("OK", &settings, &events).unwrap_err();
    assert_eq!(err, CheckError::Timeout);
}

#[test]
fn check_timeout_after_partial_data_returns_mismatch() {
    let events = vec![data("O"), ReadEvent::TimedOut];
    let settings = CheckSettings::default();
    let result = check_read_events("OK", &settings, &events).unwrap();
    assert_eq!(result, (false, "O".to_string()));
}

#[test]
fn check_connection_error_is_fatal() {
    let events = vec![data("O"), ReadEvent::Failed];
    let settings = CheckSettings::default();
    let err = check_read_events("OK", &settings, &events).unwrap_err();
    assert_eq!(err, CheckError::Connection);
}

#[test]
fn check_ignore_case_lowers_response() {
    let events = vec![data("OK"), ReadEvent::TimedOut];
    let settings = CheckSettings {
        ignore_case: true,
        input_format: TextFormat::Text,
        output_format: TextFormat::Text,
    };
    let result = check_read_events("ok", &settings, &events).unwrap();
    assert_eq!(result, (true, "ok".to_string()));
}

#[test]
fn check_hex_output_format_renders_bytes() {
    let events = vec![ReadEvent::Data(vec![0x4f, 0x4b]), ReadEvent::TimedOut];
    let settings = CheckSettings {
        ignore_case: false,
        input_format: TextFormat::Hex,
        output_format: TextFormat::Hex,
    };
    let result = check_read_events("4f4b", &settings, &events).unwrap();
    assert_eq!(result, (true, "4f4b".to_string()));
}

#[test]
fn check_empty_desired_with_data_mismatches() {
    let events = vec![data("x")];
    let settings = CheckSettings::default();
    let result = check_read_events("", &settings, &events).unwrap();
    assert_eq!(result, (false, "x".to_string()));
}

#[test]
fn check_empty_desired_with_timeout_is_timeout_error() {
    let events = vec![ReadEvent::TimedOut];
    let settings = CheckSettings::default();
    let err = check_read_events("", &settings, &events).unwrap_err();
    assert_eq!(err, CheckError::Timeout);
}

#[test]
fn check_step_verdicts() {
    let settings = CheckSettings::default();
    let mut response = String::new();
    let verdict = check_step(&mut response, "OK", &settings, &data("O"));
    assert_eq!(verdict, StepVerdict::Continue);
    assert_eq!(response, "O");
    let verdict = check_step(&mut response, "OK", &settings, &data("K"));
    assert_eq!(verdict, StepVerdict::Finished);
    assert_eq!(response, "OK");
    let verdict = check_step(&mut response, "OK", &settings, &ReadEvent::TimedOut);
    assert_eq!(verdict, StepVerdict::Finished);
    let mut empty = String::new();
    let verdict = check_step(&mut empty, "OK", &settings, &ReadEvent::TimedOut);
    assert_eq!(verdict, StepVerdict::TimeoutError);
    let verdict = check_step(&mut empty, "OK", &settings, &ReadEvent::Failed);
    assert_eq!(verdict, StepVerdict::ConnectionError);
}

#[test]
fn check_settings_from_test_settings() {
    let test_settings = TestCaseSettings {
        ignore_case: true,
        input_format: TextFormat::Hex,
        output_format: TextFormat::Binary,
        delay: Some(5),
        timeout: 42,
        repeat: 2,
    };
    let settings = CheckSettings::from_test_settings(&test_settings);
    assert_eq!(settings.ignore_case, true);
    assert_eq!(settings.input_format, TextFormat::Hex);
    assert_eq!(settings.output_format, TextFormat::Binary);
}

#[test]
fn read_min_collects_until_length() {
    let events = vec![data("ab"), data("cd"), data("ef")];
    let result = read_min_events(4, TextFormat::Text, &events).unwrap();
    assert_eq!(result, "abcd");
}

#[test]
fn read_min_timeout_with_no_data_is_error() {
    let events = vec![ReadEvent::TimedOut];
    let err = read_min_events(4, TextFormat::Text, &events).unwrap_err();
    assert_eq!(err, CheckError::Timeout);
}

#[test]
fn read_min_timeout_after_data_returns_what_arrived() {
    let events = vec![data("ab"), ReadEvent::TimedOut];
    let result = read_min_events(4, TextFormat::Text, &events).unwrap();
    assert_eq!(result, "ab");
}

#[test]
fn read_min_failure_is_fatal() {
    let events = vec![ReadEvent::Failed];
    let err = read_min_events(4, TextFormat::Text, &events).unwrap_err();
    assert_eq!(err, CheckError::Connection);
}
