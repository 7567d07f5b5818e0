//! A test-automation library for serial devices: a position-tracking lexer for
//! a small test-definition language, grammar validation through a reusable
//! finite-state-machine engine, a semantic analyzer that builds structured
//! test suites, and the response-matching logic that drives a test against a
//! byte-oriented connection.

pub mod analyzer;
pub mod check;
pub mod codec;
pub mod error;
pub mod fsm;
pub mod grammar;
pub mod lexer;
pub mod model;
pub mod string_util;
pub mod token;
