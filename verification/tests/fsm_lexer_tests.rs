use serial_unit_testing::grammar::{group_state_machine, test_state_machine};
use serial_unit_testing::lexer::get_tokens;
use serial_unit_testing::token::{Token, TokenKind};

fn token(kind: TokenKind, value: &str) -> Token {
    Token { kind, value: value.to_string(), line: 1, column: 1 }
}

#[test]
fn fsm_accepts_group_header() {
    let tokens = vec![
        token(TokenKind::LeftGroupParenthesis, "["),
        token(TokenKind::Identifier, "Foo"),
        token(TokenKind::RightGroupParenthesis, "]"),
    ];
    let machine = group_state_machine();
    assert!(machine.run(&tokens).is_ok());
}

#[test]
fn fsm_reports_state_before_rejecting_transition() {
    let tokens = vec![
        token(TokenKind::LeftGroupParenthesis, "["),
        token(TokenKind::RightGroupParenthesis, "]"),
    ];
    let machine = group_state_machine();
    let (state, failing) = machine.run(&tokens).unwrap_err();
    assert_eq!(state, 2);
    assert_eq!(failing.kind, TokenKind::RightGroupParenthesis);
}

#[test]
fn fsm_rejects_exhausted_input_in_non_accepting_state() {
    let tokens = vec![
        token(TokenKind::LeftGroupParenthesis, "["),
        token(TokenKind::Identifier, "Foo"),
    ];
    let machine = group_state_machine();
    let (state, failing) = machine.run(&tokens).unwrap_err();
    assert_eq!(state, 3);
    assert_eq!(failing.kind, TokenKind::Identifier);
}

#[test]
fn fsm_run_is_deterministic() {
    let tokens = vec![
        token(TokenKind::LeftTestParenthesis, "("),
        token(TokenKind::Identifier, "T"),
        token(TokenKind::Content, "x"),
    ];
    let machine = test_state_machine();
    let first = machine.run(&tokens);
    let second = machine.run(&tokens);
    match (first, second) {
        (Err((s1, t1)), Err((s2, t2))) => {
            assert_eq!(s1, s2);
            assert_eq!(t1.kind, t2.kind);
            assert_eq!(t1.value, t2.value);
            assert_eq!(t1.line, t2.line);
            assert_eq!(t1.column, t2.column);
        },
        (Ok(()), Ok(())) => {},
        _ => panic!("the two runs disagree"),
    }
    let accepted = vec![
        token(TokenKind::Content, "a"),
        token(TokenKind::DirectionSeparator, "->"),
        token(TokenKind::Content, "b"),
    ];
    assert!(machine.run(&accepted).is_ok());
    assert!(machine.run(&accepted).is_ok());
}

#[test]
fn lexer_tracks_lines_and_columns() {
    let tokens = get_tokens("[ Foo ]\n( T1 ) \"a\" -> b\"01\"");
    let expected: Vec<(TokenKind, &str, u32, u32)> = vec![
        (TokenKind::LeftGroupParenthesis, "[", 1, 1),
        (TokenKind::Identifier, "Foo", 1, 3),
        (TokenKind::RightGroupParenthesis, "]", 1, 7),
        (TokenKind::Newline, "\n", 1, 8),
        (TokenKind::LeftTestParenthesis, "(", 2, 1),
        (TokenKind::Identifier, "T1", 2, 3),
        (TokenKind::RightTestParenthesis, ")", 2, 6),
        (TokenKind::Content, "a", 2, 8),
        (TokenKind::DirectionSeparator, "->", 2, 12),
        (TokenKind::FormatSpecifier, "b", 2, 15),
        (TokenKind::Content, "01", 2, 16),
    ];
    assert_eq!(tokens.len(), expected.len());
    for (tok, (kind, value, line, column)) in tokens.iter().zip(expected.iter()) {
        assert_eq!(tok.kind, *kind);
        assert_eq!(tok.value, *value);
        assert_eq!(tok.line, *line);
        assert_eq!(tok.column, *column);
    }
}

#[test]
fn lexer_classifies_option_tokens() {
    let tokens = get_tokens("( T, ignore-case=true )");
    let kinds: Vec<TokenKind> = tokens.iter().map(|t| t.kind).collect();
    assert_eq!(
        kinds,
        vec![
            TokenKind::LeftTestParenthesis,
            TokenKind::Identifier,
            TokenKind::ContentSeparator,
            TokenKind::Identifier,
            TokenKind::OptionSeparator,
            TokenKind::Identifier,
            TokenKind::RightTestParenthesis,
        ]
    );
    assert_eq!(tokens[3].value, "ignore-case");
    assert_eq!(tokens[5].value, "true");
}

#[test]
fn lexer_marks_unknown_text_illegal_and_goes_on() {
    let tokens = get_tokens("% ok");
    assert_eq!(tokens[0].kind, TokenKind::Illegal);
    assert_eq!(tokens[0].value, "%");
    assert_eq!(tokens[1].kind, TokenKind::Identifier);
    assert_eq!(tokens[1].value, "ok");
}

#[test]
fn lexer_handles_unterminated_quote() {
    let tokens = get_tokens("\"abc\ndef");
    assert_eq!(tokens[0].kind, TokenKind::Illegal);
    assert_eq!(tokens[0].value, "\"abc");
    assert_eq!(tokens[0].line, 1);
    assert_eq!(tokens[0].column, 1);
    assert_eq!(tokens[1].kind, TokenKind::Newline);
    assert_eq!(tokens[2].kind, TokenKind::Identifier);
    assert_eq!(tokens[2].value, "def");
    assert_eq!(tokens[2].line, 2);
}

#[test]
fn lexer_letter_before_quote_is_format_specifier() {
    let tokens = get_tokens("baud h\"41\"");
    assert_eq!(tokens[0].kind, TokenKind::Identifier);
    assert_eq!(tokens[0].value, "baud");
    assert_eq!(tokens[1].kind, TokenKind::FormatSpecifier);
    assert_eq!(tokens[1].value, "h");
    assert_eq!(tokens[2].kind, TokenKind::Content);
    assert_eq!(tokens[2].value, "41");
}

#[test]
fn lexer_lone_dash_is_illegal() {
    let tokens = get_tokens("- >");
    assert_eq!(tokens[0].kind, TokenKind::Illegal);
    assert_eq!(tokens[0].value, "-");
    assert_eq!(tokens[1].kind, TokenKind::Illegal);
    assert_eq!(tokens[1].value, ">");
}
