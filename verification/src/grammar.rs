//! The two concrete grammars of the test-definition language, as explicit
//! state tables driven by the finite-state-machine engine, together with
//! each grammar's mapping from a failing state to its diagnostic.
//!
//! Group-header grammar: `[ Identifier ]`.
//! Test-case grammar:
//! `( Identifier ( , Identifier = Identifier )* )` — the whole header
//! optional — then an optional format specifier, the input content, `->`,
//! an optional format specifier, and the output content.

use vstd::prelude::*;
use crate::error::{Error, ErrorView};
use crate::fsm::FiniteStateMachine;
use crate::token::TokenKind;

verus! {

/// Which grammar's transition table the engine is driving.
#[derive(Clone, Copy, PartialEq, Eq, Structural, Debug)]
pub enum Grammar {
    /// The group-header grammar `[ Identifier ]`.
    Group,
    /// The test-case grammar.
    Test,
}

/// The transition tables of both grammars. `0` is the reject sentinel.
pub open spec fn transition_table(g: Grammar, state: u32, kind: TokenKind) -> u32 {
    match g {
        Grammar::Group => {
            match (state, kind) {
                (1u32, TokenKind::LeftGroupParenthesis) => 2,
                (2u32, TokenKind::Identifier) => 3,
                (3u32, TokenKind::RightGroupParenthesis) => 4,
                _ => 0,
            }
        },
        Grammar::Test => {
            match (state, kind) {
                (1u32, TokenKind::LeftTestParenthesis) => 2,
                (1u32, TokenKind::FormatSpecifier) => 5,
                (1u32, TokenKind::Content) => 6,
                (2u32, TokenKind::Identifier) => 3,
                (3u32, TokenKind::RightTestParenthesis) => 4,
                (3u32, TokenKind::ContentSeparator) => 10,
                (4u32, TokenKind::FormatSpecifier) => 5,
                (4u32, TokenKind::Content) => 6,
                (5u32, TokenKind::Content) => 6,
                (6u32, TokenKind::DirectionSeparator) => 7,
                (7u32, TokenKind::FormatSpecifier) => 8,
                (7u32, TokenKind::Content) => 9,
                (8u32, TokenKind::Content) => 9,
                (10u32, TokenKind::Identifier) => 11,
                (11u32, TokenKind::OptionSeparator) => 12,
                (12u32, TokenKind::Identifier) => 13,
                (13u32, TokenKind::RightTestParenthesis) => 4,
                (13u32, TokenKind::ContentSeparator) => 10,
                _ => 0,
            }
        },
    }
}

/// The transition function handed to the engine.
#[verifier::when_used_as_spec(transition_table)]
pub fn transition(g: Grammar, state: u32, kind: TokenKind) -> (r: u32)
    ensures
        r == transition_table(g, state, kind),
{
    match g {
        Grammar::Group => {
            match (state, kind) {
                (1u32, TokenKind::LeftGroupParenthesis) => 2,
                (2u32, TokenKind::Identifier) => 3,
                (3u32, TokenKind::RightGroupParenthesis) => 4,
                _ => 0,
            }
        },
        Grammar::Test => {
            match (state, kind) {
                (1u32, TokenKind::LeftTestParenthesis) => 2,
                (1u32, TokenKind::FormatSpecifier) => 5,
                (1u32, TokenKind::Content) => 6,
                (2u32, TokenKind::Identifier) => 3,
                (3u32, TokenKind::RightTestParenthesis) => 4,
                (3u32, TokenKind::ContentSeparator) => 10,
                (4u32, TokenKind::FormatSpecifier) => 5,
                (4u32, TokenKind::Content) => 6,
                (5u32, TokenKind::Content) => 6,
                (6u32, TokenKind::DirectionSeparator) => 7,
                (7u32, TokenKind::FormatSpecifier) => 8,
                (7u32, TokenKind::Content) => 9,
                (8u32, TokenKind::Content) => 9,
                (10u32, TokenKind::Identifier) => 11,
                (11u32, TokenKind::OptionSeparator) => 12,
                (12u32, TokenKind::Identifier) => 13,
                (13u32, TokenKind::RightTestParenthesis) => 4,
                (13u32, TokenKind::ContentSeparator) => 10,
                _ => 0,
            }
        },
    }
}

/// The machine for group-header lines: start state 1, state 4 accepting.
pub fn group_state_machine() -> (fsm: FiniteStateMachine)
    ensures
        fsm.grammar == Grammar::Group,
        fsm.start_state == 1,
        fsm.accept_states@ =~= seq![4u32],
{
    FiniteStateMachine { start_state: 1, accept_states: vec![4], grammar: Grammar::Group }
}

/// The machine for test-case lines: start state 1, state 9 accepting.
pub fn test_state_machine() -> (fsm: FiniteStateMachine)
    ensures
        fsm.grammar == Grammar::Test,
        fsm.start_state == 1,
        fsm.accept_states@ =~= seq![9u32],
{
    FiniteStateMachine { start_state: 1, accept_states: vec![9], grammar: Grammar::Test }
}

/// The diagnostic each failing state of the group-header grammar maps to.
pub open spec fn group_failure_error(state: u32, line: u32, column: u32) -> ErrorView {
    if state == 2 {
        ErrorView::MissingGroupIdentifier(line, column)
    } else if state == 3 {
        ErrorView::MissingClosingParenthesis("]"@, line, column)
    } else {
        ErrorView::UnknownError(line, column)
    }
}

/// Maps a group-header grammar failure to its diagnostic, at the position
/// of the token that caused it.
pub fn map_group_failure(state: u32, line: u32, column: u32) -> (r: Error)
    ensures
        r@ == group_failure_error(state, line, column),
{
    if state == 2 {
        Error::MissingGroupIdentifier(line, column)
    } else if state == 3 {
        Error::MissingClosingParenthesis("]".to_owned(), line, column)
    } else {
        Error::UnknownError(line, column)
    }
}

/// The diagnostic each failing state of the test-case grammar maps to.
pub open spec fn test_failure_error(state: u32, line: u32, column: u32) -> ErrorView {
    if state == 2 {
        ErrorView::MissingTestIdentifier(line, column)
    } else if state == 3 {
        ErrorView::MissingClosingParenthesis(")"@, line, column)
    } else if state == 4 || state == 5 {
        ErrorView::MissingContent("input"@, line, column)
    } else if state == 6 {
        ErrorView::MissingDirectionSeparator(line, column)
    } else if state == 7 || state == 8 {
        ErrorView::MissingContent("output"@, line, column)
    } else {
        ErrorView::UnknownError(line, column)
    }
}

/// Maps a test-case grammar failure to its diagnostic, at the position of
/// the token that caused it.
pub fn map_test_failure(state: u32, line: u32, column: u32) -> (r: Error)
    ensures
        r@ == test_failure_error(state, line, column),
{
    if state == 2 {
        Error::MissingTestIdentifier(line, column)
    } else if state == 3 {
        Error::MissingClosingParenthesis(")".to_owned(), line, column)
    } else if state == 4 || state == 5 {
        Error::MissingContent("input".to_owned(), line, column)
    } else if state == 6 {
        Error::MissingDirectionSeparator(line, column)
    } else if state == 7 || state == 8 {
        Error::MissingContent("output".to_owned(), line, column)
    } else {
        Error::UnknownError(line, column)
    }
}

} // verus!
