use serial_unit_testing::analyzer::parse;
use serial_unit_testing::codec::TextFormat;
use serial_unit_testing::error::Error;
use serial_unit_testing::model::{TestCase, TestCaseSettings, TestSuite};

#[test]
fn parse_empty_source_yields_empty_suite_list() {
    let suites = parse("").unwrap();
    assert_eq!(suites.len(), 0);
}

#[test]
fn parse_blank_source_yields_empty_suite_list() {
    let suites = parse("   \n\t\n  \r\n").unwrap();
    assert_eq!(suites.len(), 0);
}

#[test]
fn group_header_and_test_line() {
    let suites = parse("[ Foo ]\n\"a\" -> \"b\"").unwrap();
    assert_eq!(suites.len(), 1);
    assert_eq!(suites[0].name, "Foo");
    assert_eq!(suites[0].tests.len(), 1);
    let test = &suites[0].tests[0];
    assert_eq!(test.name, "");
    assert_eq!(test.input, "a");
    assert_eq!(test.output, "b");
    assert_eq!(test.settings.ignore_case, false);
    assert_eq!(test.settings.input_format, TextFormat::Text);
    assert_eq!(test.settings.output_format, TextFormat::Text);
    assert_eq!(test.settings.delay, None);
    assert_eq!(test.settings.timeout, 1000);
    assert_eq!(test.settings.repeat, 1);
}

#[test]
fn named_test_without_group_gets_implicit_suite() {
    let suites = parse("( T1 ) \"ping\" -> \"pong\"").unwrap();
    assert_eq!(suites.len(), 1);
    assert_eq!(suites[0].name, "");
    assert_eq!(suites[0].tests.len(), 1);
    let test = &suites[0].tests[0];
    assert_eq!(test.name, "T1");
    assert_eq!(test.input, "ping");
    assert_eq!(test.output, "pong");
}

#[test]
fn options_and_hex_formats() {
    let suites = parse("( T2, repeat=3, timeout=200ms ) h\"41\" -> h\"4f4b\"").unwrap();
    assert_eq!(suites.len(), 1);
    let test = &suites[0].tests[0];
    assert_eq!(test.name, "T2");
    assert_eq!(test.input, "41");
    assert_eq!(test.output, "4f4b");
    assert_eq!(test.settings.input_format, TextFormat::Hex);
    assert_eq!(test.settings.output_format, TextFormat::Hex);
    assert_eq!(test.settings.repeat, 3);
    assert_eq!(test.settings.timeout, 200);
}

#[test]
fn ignore_case_and_delay_options() {
    let suites = parse("( T, ignore-case=yes, delay=2s ) \"a\" -> \"b\"").unwrap();
    let test = &suites[0].tests[0];
    assert_eq!(test.settings.ignore_case, true);
    assert_eq!(test.settings.delay, Some(2000));
}

#[test]
fn suite_and_test_order_follows_source_lines() {
    let src = "( A1 ) \"1\" -> \"1\"\n[ G1 ]\n( B1 ) \"2\" -> \"2\"\n( B2 ) \"3\" -> \"3\"\n[ G2 ]\n( C1 ) \"4\" -> \"4\"";
    let suites = parse(src).unwrap();
    assert_eq!(suites.len(), 3);
    assert_eq!(suites[0].name, "");
    assert_eq!(suites[1].name, "G1");
    assert_eq!(suites[2].name, "G2");
    assert_eq!(suites[0].tests.len(), 1);
    assert_eq!(suites[0].tests[0].name, "A1");
    assert_eq!(suites[1].tests.len(), 2);
    assert_eq!(suites[1].tests[0].name, "B1");
    assert_eq!(suites[1].tests[1].name, "B2");
    assert_eq!(suites[2].tests.len(), 1);
    assert_eq!(suites[2].tests[0].name, "C1");
}

#[test]
fn missing_closing_parenthesis_on_test_header() {
    let err = parse("( T3 \"x\" -> \"y\"").unwrap_err();
    match err {
        Error::MissingClosingParenthesis(expected, line, column) => {
            assert_eq!(expected, ")");
            assert_eq!(line, 1);
            assert_eq!(column, 6);
        },
        other => panic!("unexpected error {:?}", other),
    }
}

#[test]
fn missing_test_identifier_when_name_is_absent() {
    let err = parse("( , ignore-case=maybe ) \"x\" -> \"y\"").unwrap_err();
    match err {
        Error::MissingTestIdentifier(line, column) => {
            assert_eq!(line, 1);
            assert_eq!(column, 3);
        },
        other => panic!("unexpected error {:?}", other),
    }
}

#[test]
fn invalid_boolean_option_value() {
    let err = parse("( T, ignore-case=maybe ) \"x\" -> \"y\"").unwrap_err();
    match err {
        Error::InvalidOptionValue(expected, line, column) => {
            assert_eq!(expected, "boolean");
            assert_eq!(line, 1);
            assert_eq!(column, 18);
        },
        other => panic!("unexpected error {:?}", other),
    }
}

#[test]
fn invalid_time_option_value() {
    let err = parse("( T, timeout=soon ) \"x\" -> \"y\"").unwrap_err();
    match err {
        Error::InvalidOptionValue(expected, _, _) => assert_eq!(expected, "time"),
        other => panic!("unexpected error {:?}", other),
    }
}

#[test]
fn invalid_number_option_value() {
    let err = parse("( T, repeat=many ) \"x\" -> \"y\"").unwrap_err();
    match err {
        Error::InvalidOptionValue(expected, _, _) => assert_eq!(expected, "number"),
        other => panic!("unexpected error {:?}", other),
    }
}

#[test]
fn unknown_test_option() {
    let err = parse("( T, color=red ) \"x\" -> \"y\"").unwrap_err();
    match err {
        Error::UnknownTestOption(name, line, column) => {
            assert_eq!(name, "color");
            assert_eq!(line, 1);
            assert_eq!(column, 6);
        },
        other => panic!("unexpected error {:?}", other),
    }
}

#[test]
fn missing_group_identifier() {
    let err = parse("[ ]").unwrap_err();
    match err {
        Error::MissingGroupIdentifier(line, column) => {
            assert_eq!(line, 1);
            assert_eq!(column, 3);
        },
        other => panic!("unexpected error {:?}", other),
    }
}

#[test]
fn missing_group_closing_parenthesis() {
    let err = parse("[ Foo Bar ]").unwrap_err();
    match err {
        Error::MissingClosingParenthesis(expected, line, column) => {
            assert_eq!(expected, "]");
            assert_eq!(line, 1);
            assert_eq!(column, 7);
        },
        other => panic!("unexpected error {:?}", other),
    }
}

#[test]
fn missing_direction_separator() {
    let err = parse("\"a\" \"b\"").unwrap_err();
    match err {
        Error::MissingDirectionSeparator(line, column) => {
            assert_eq!(line, 1);
            assert_eq!(column, 5);
        },
        other => panic!("unexpected error {:?}", other),
    }
}

#[test]
fn missing_input_content() {
    let err = parse("( T ) -> \"y\"").unwrap_err();
    match err {
        Error::MissingContent(which, _, _) => assert_eq!(which, "input"),
        other => panic!("unexpected error {:?}", other),
    }
}

#[test]
fn missing_output_content() {
    let err = parse("\"a\" ->").unwrap_err();
    match err {
        Error::MissingContent(which, _, _) => assert_eq!(which, "output"),
        other => panic!("unexpected error {:?}", other),
    }
}

#[test]
fn illegal_token_aborts_parse() {
    let err = parse("[ Foo ]\n%").unwrap_err();
    match err {
        Error::IllegalToken(text, line, column) => {
            assert_eq!(text, "%");
            assert_eq!(line, 2);
            assert_eq!(column, 1);
        },
        other => panic!("unexpected error {:?}", other),
    }
}

#[test]
fn unterminated_content_is_illegal() {
    let err = parse("\"abc").unwrap_err();
    match err {
        Error::IllegalToken(text, line, column) => {
            assert_eq!(text, "\"abc");
            assert_eq!(line, 1);
            assert_eq!(column, 1);
        },
        other => panic!("unexpected error {:?}", other),
    }
}

#[test]
fn invalid_line_start() {
    let err = parse("] oops").unwrap_err();
    match err {
        Error::InvalidLineStart(line, column) => {
            assert_eq!(line, 1);
            assert_eq!(column, 1);
        },
        other => panic!("unexpected error {:?}", other),
    }
}

#[test]
fn error_description_strings() {
    let err = parse("] x").unwrap_err();
    assert_eq!(err.description(), "Invalid line start");
    assert_eq!(err.position(), Some((1, 1)));
    let err = parse("\"a\" \"b\"").unwrap_err();
    assert_eq!(err.description(), "Missing direction separator");
}

#[test]
fn error_messages_carry_positions() {
    let err = parse("( T3 \"x\" -> \"y\"").unwrap_err();
    assert_eq!(err.message(), "Missing closing parenthesis ) at 1:6");
    let err = parse("( T ) -> \"y\"").unwrap_err();
    assert_eq!(err.message(), "Missing input content at 1:7");
    let err = parse("[ Foo ]\n%").unwrap_err();
    assert_eq!(err.message(), "Illegal token % at 2:1");
    let err = parse("( T, repeat=many ) \"x\" -> \"y\"").unwrap_err();
    assert_eq!(err.message(), "Invalid number option value at 1:13");
    let err = parse("( T, color=red ) \"x\" -> \"y\"").unwrap_err();
    assert_eq!(err.message(), "Unknown test option color at 1:6");
}

#[test]
fn model_constructors_and_defaults() {
    let settings = TestCaseSettings::default();
    assert_eq!(settings.ignore_case, false);
    assert_eq!(settings.input_format, TextFormat::Text);
    assert_eq!(settings.output_format, TextFormat::Text);
    assert_eq!(settings.delay, None);
    assert_eq!(settings.timeout, 1000);
    assert_eq!(settings.repeat, 1);

    let test = TestCase::new("t".to_string(), "in".to_string(), "out".to_string());
    assert_eq!(test.name, "t");
    assert_eq!(test.input, "in");
    assert_eq!(test.output, "out");
    assert_eq!(test.settings.timeout, 1000);

    let mut suite = TestSuite::new("S".to_string());
    assert_eq!(suite.name, "S");
    assert_eq!(suite.tests.len(), 0);
    suite.push(test);
    assert_eq!(suite.tests.len(), 1);
    assert_eq!(suite.tests[0].name, "t");
}

#[test]
fn parse_stops_at_first_error_without_suites() {
    let err = parse("[ G1 ]\n\"a\" -> \"b\"\n] bad line").unwrap_err();
    assert!(matches!(err, Error::InvalidLineStart(3, 1)));
}
