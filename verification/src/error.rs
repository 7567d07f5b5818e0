//! The parser's error type: one variant per distinguishable diagnostic, each
//! carrying exactly the text and 1-based source position needed to render
//! its message.

use vstd::prelude::*;
use vstd::string::StringExecFns;
use crate::codec::{digit_char, digit_char_of, push_char};

verus! {

/// The decimal digits of a number, most significant first.
pub open spec fn dec_string_of(n: nat) -> Seq<char>
    decreases n,
{
    if n < 10 {
        seq![digit_char(n)]
    } else {
        dec_string_of(n / 10) + seq![digit_char(n % 10)]
    }
}

/// Renders a number as its decimal digits.
pub fn u32_string(n: u32) -> (s: String)
    ensures
        s@ == dec_string_of(n as nat),
    decreases n,
{
    if n < 10 {
        let mut s = String::new();
        push_char(&mut s, digit_char_of(n as u8));
        s
    } else {
        let mut s = u32_string(n / 10);
        push_char(&mut s, digit_char_of((n % 10) as u8));
        s
    }
}

/// Why a parse failed. Every position is the `(line, column)` of the token
/// the diagnostic points at.
#[derive(Debug)]
pub enum Error {
    /// A grammar rejected a line in a state no specific diagnostic covers.
    UnknownError(u32, u32),
    /// The source could not be read at all.
    ReadFileError,
    /// Text the lexer could not classify, with the offending text.
    IllegalToken(String, u32, u32),
    /// A group or test header is not closed; carries the expected character.
    MissingClosingParenthesis(String, u32, u32),
    /// A test line lacks the `->` between input and output.
    MissingDirectionSeparator(u32, u32),
    /// A group header `[` is not followed by a name.
    MissingGroupIdentifier(u32, u32),
    /// A test header `(` is not followed by a name.
    MissingTestIdentifier(u32, u32),
    /// A test line lacks a content literal; carries which side is missing.
    MissingContent(String, u32, u32),
    /// A line begins with a token no line form accepts.
    InvalidLineStart(u32, u32),
    /// An option value does not parse; carries the expected kind of value.
    InvalidOptionValue(String, u32, u32),
    /// An option name outside the fixed option set; carries the name.
    UnknownTestOption(String, u32, u32),
}

/// The mathematical content of an `Error`, with text as character
/// sequences.
pub enum ErrorView {
    UnknownError(u32, u32),
    ReadFileError,
    IllegalToken(Seq<char>, u32, u32),
    MissingClosingParenthesis(Seq<char>, u32, u32),
    MissingDirectionSeparator(u32, u32),
    MissingGroupIdentifier(u32, u32),
    MissingTestIdentifier(u32, u32),
    MissingContent(Seq<char>, u32, u32),
    InvalidLineStart(u32, u32),
    InvalidOptionValue(Seq<char>, u32, u32),
    UnknownTestOption(Seq<char>, u32, u32),
}

impl View for Error {
    type V = ErrorView;

    open spec fn view(&self) -> ErrorView {
        match self {
            Error::UnknownError(l, c) => ErrorView::UnknownError(*l, *c),
            Error::ReadFileError => ErrorView::ReadFileError,
            Error::IllegalToken(t, l, c) => ErrorView::IllegalToken(t@, *l, *c),
            Error::MissingClosingParenthesis(t, l, c) => ErrorView::MissingClosingParenthesis(
                t@,
                *l,
                *c,
            ),
            Error::MissingDirectionSeparator(l, c) => ErrorView::MissingDirectionSeparator(*l, *c),
            Error::MissingGroupIdentifier(l, c) => ErrorView::MissingGroupIdentifier(*l, *c),
            Error::MissingTestIdentifier(l, c) => ErrorView::MissingTestIdentifier(*l, *c),
            Error::MissingContent(t, l, c) => ErrorView::MissingContent(t@, *l, *c),
            Error::InvalidLineStart(l, c) => ErrorView::InvalidLineStart(*l, *c),
            Error::InvalidOptionValue(t, l, c) => ErrorView::InvalidOptionValue(t@, *l, *c),
            Error::UnknownTestOption(t, l, c) => ErrorView::UnknownTestOption(t@, *l, *c),
        }
    }
}

/// The short message each kind of error describes itself with.
pub open spec fn description_of(e: ErrorView) -> Seq<char> {
    match e {
        ErrorView::UnknownError(_, _) => "Unknown error"@,
        ErrorView::ReadFileError => "Unable to read file"@,
        ErrorView::IllegalToken(_, _, _) => "Illegal token"@,
        ErrorView::MissingClosingParenthesis(_, _, _) => "Missing closing parenthesis"@,
        ErrorView::MissingDirectionSeparator(_, _) => "Missing direction separator"@,
        ErrorView::MissingGroupIdentifier(_, _) => "Missing group identifier"@,
        ErrorView::MissingTestIdentifier(_, _) => "Missing test identifier"@,
        ErrorView::MissingContent(_, _, _) => "Missing content"@,
        ErrorView::InvalidLineStart(_, _) => "Invalid line start"@,
        ErrorView::InvalidOptionValue(_, _, _) => "Invalid option value"@,
        ErrorView::UnknownTestOption(_, _, _) => "Unknown test option"@,
    }
}

impl Error {
    /// A short, human-readable description of the kind of error.
    pub fn description(&self) -> (r: String)
        ensures
            r@ == description_of(self@),
    {
        match self {
            Error::UnknownError(_, _) => "Unknown error".to_owned(),
            Error::ReadFileError => "Unable to read file".to_owned(),
            Error::IllegalToken(_, _, _) => "Illegal token".to_owned(),
            Error::MissingClosingParenthesis(_, _, _) => "Missing closing parenthesis".to_owned(),
            Error::MissingDirectionSeparator(_, _) => "Missing direction separator".to_owned(),
            Error::MissingGroupIdentifier(_, _) => "Missing group identifier".to_owned(),
            Error::MissingTestIdentifier(_, _) => "Missing test identifier".to_owned(),
            Error::MissingContent(_, _, _) => "Missing content".to_owned(),
            Error::InvalidLineStart(_, _) => "Invalid line start".to_owned(),
            Error::InvalidOptionValue(_, _, _) => "Invalid option value".to_owned(),
            Error::UnknownTestOption(_, _, _) => "Unknown test option".to_owned(),
        }
    }

    /// The source position the error points at, when it carries one.
    pub fn position(&self) -> (r: Option<(u32, u32)>)
        ensures
            r == position_of(self@),
    {
        match self {
            Error::UnknownError(l, c) => Some((*l, *c)),
            Error::ReadFileError => None,
            Error::IllegalToken(_, l, c) => Some((*l, *c)),
            Error::MissingClosingParenthesis(_, l, c) => Some((*l, *c)),
            Error::MissingDirectionSeparator(l, c) => Some((*l, *c)),
            Error::MissingGroupIdentifier(l, c) => Some((*l, *c)),
            Error::MissingTestIdentifier(l, c) => Some((*l, *c)),
            Error::MissingContent(_, l, c) => Some((*l, *c)),
            Error::InvalidLineStart(l, c) => Some((*l, *c)),
            Error::InvalidOptionValue(_, l, c) => Some((*l, *c)),
            Error::UnknownTestOption(_, l, c) => Some((*l, *c)),
        }
    }
}

/// The position suffix of a message: ` at <line>:<column>`.
pub open spec fn at_position(line: u32, column: u32) -> Seq<char> {
    " at "@ + dec_string_of(line as nat) + ":"@ + dec_string_of(column as nat)
}

/// The full message each error renders itself as, position included.
pub open spec fn message_of(e: ErrorView) -> Seq<char> {
    match e {
        ErrorView::UnknownError(l, c) => "Unknown error"@ + at_position(l, c),
        ErrorView::ReadFileError => "Unable to read file"@,
        ErrorView::IllegalToken(t, l, c) => "Illegal token "@ + t + at_position(l, c),
        ErrorView::MissingClosingParenthesis(t, l, c) => "Missing closing parenthesis "@ + t
            + at_position(l, c),
        ErrorView::MissingDirectionSeparator(l, c) => "Missing direction separator"@ + at_position(
            l,
            c,
        ),
        ErrorView::MissingGroupIdentifier(l, c) => "Missing group identifier"@ + at_position(l, c),
        ErrorView::MissingTestIdentifier(l, c) => "Missing test identifier"@ + at_position(l, c),
        ErrorView::MissingContent(t, l, c) => "Missing "@ + t + " content"@ + at_position(l, c),
        ErrorView::InvalidLineStart(l, c) => "Invalid line start"@ + at_position(l, c),
        ErrorView::InvalidOptionValue(t, l, c) => "Invalid "@ + t + " option value"@ + at_position(
            l,
            c,
        ),
        ErrorView::UnknownTestOption(t, l, c) => "Unknown test option "@ + t + at_position(l, c),
    }
}

/// Appends ` at <line>:<column>` to a message.
fn push_position(s: &mut String, line: u32, column: u32)
    ensures
        final(s)@ == old(s)@ + at_position(line, column),
{
    s.append(" at ");
    let l = u32_string(line);
    s.append(l.as_str());
    s.append(":");
    let c = u32_string(column);
    s.append(c.as_str());
}

impl Error {
    /// The full, human-readable message of the error, with its source
    /// position where it carries one.
    pub fn message(&self) -> (r: String)
        ensures
            r@ == message_of(self@),
    {
        match self {
            Error::UnknownError(l, c) => {
                let mut s = "Unknown error".to_owned();
                push_position(&mut s, *l, *c);
                s
            },
            Error::ReadFileError => "Unable to read file".to_owned(),
            Error::IllegalToken(t, l, c) => {
                let mut s = "Illegal token ".to_owned();
                s.append(t.as_str());
                push_position(&mut s, *l, *c);
                s
            },
            Error::MissingClosingParenthesis(t, l, c) => {
                let mut s = "Missing closing parenthesis ".to_owned();
                s.append(t.as_str());
                push_position(&mut s, *l, *c);
                s
            },
            Error::MissingDirectionSeparator(l, c) => {
                let mut s = "Missing direction separator".to_owned();
                push_position(&mut s, *l, *c);
                s
            },
            Error::MissingGroupIdentifier(l, c) => {
                let mut s = "Missing group identifier".to_owned();
                push_position(&mut s, *l, *c);
                s
            },
            Error::MissingTestIdentifier(l, c) => {
                let mut s = "Missing test identifier".to_owned();
                push_position(&mut s, *l, *c);
                s
            },
            Error::MissingContent(t, l, c) => {
                let mut s = "Missing ".to_owned();
                s.append(t.as_str());
                s.append(" content");
                push_position(&mut s, *l, *c);
                s
            },
            Error::InvalidLineStart(l, c) => {
                let mut s = "Invalid line start".to_owned();
                push_position(&mut s, *l, *c);
                s
            },
            Error::InvalidOptionValue(t, l, c) => {
                let mut s = "Invalid ".to_owned();
                s.append(t.as_str());
                s.append(" option value");
                push_position(&mut s, *l, *c);
                s
            },
            Error::UnknownTestOption(t, l, c) => {
                let mut s = "Unknown test option ".to_owned();
                s.append(t.as_str());
                push_position(&mut s, *l, *c);
                s
            },
        }
    }
}

/// The source position an error points at, when it carries one.
pub open spec fn position_of(e: ErrorView) -> Option<(u32, u32)> {
    match e {
        ErrorView::UnknownError(l, c) => Some((l, c)),
        ErrorView::ReadFileError => None,
        ErrorView::IllegalToken(_, l, c) => Some((l, c)),
        ErrorView::MissingClosingParenthesis(_, l, c) => Some((l, c)),
        ErrorView::MissingDirectionSeparator(l, c) => Some((l, c)),
        ErrorView::MissingGroupIdentifier(l, c) => Some((l, c)),
        ErrorView::MissingTestIdentifier(l, c) => Some((l, c)),
        ErrorView::MissingContent(_, l, c) => Some((l, c)),
        ErrorView::InvalidLineStart(l, c) => Some((l, c)),
        ErrorView::InvalidOptionValue(_, l, c) => Some((l, c)),
        ErrorView::UnknownTestOption(_, l, c) => Some((l, c)),
    }
}

} // verus!
