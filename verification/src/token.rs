//! The token model of the test-definition language: the closed set of token
//! kinds and the located-token value type shared by the lexer, the grammars
//! and the analyzer.

use vstd::prelude::*;

verus! {

/// The closed set of lexical units of the test-definition language.
#[derive(Clone, Copy, PartialEq, Eq, Structural, Debug)]
pub enum TokenKind {
    /// A bare word: a test or group name, an option name or an option value.
    Identifier,
    /// `[`, opening a group header.
    LeftGroupParenthesis,
    /// `]`, closing a group header.
    RightGroupParenthesis,
    /// `(`, opening a test header.
    LeftTestParenthesis,
    /// `)`, closing a test header.
    RightTestParenthesis,
    /// `,`, separating the test name and its options.
    ContentSeparator,
    /// `=`, separating an option name from its value.
    OptionSeparator,
    /// `->`, separating the input content from the expected output.
    DirectionSeparator,
    /// One of `b`, `o`, `d`, `h` directly before a quoted content literal.
    FormatSpecifier,
    /// A quoted literal, carrying the text between the quotes.
    Content,
    /// A line break.
    Newline,
    /// Text that fits no other kind; it aborts analysis when scanned.
    Illegal,
}

/// A classified, positioned lexical unit. `line` and `column` are the
/// 1-based source position of the token's first character, used verbatim in
/// every diagnostic.
#[derive(Debug)]
pub struct Token {
    pub kind: TokenKind,
    pub value: String,
    pub line: u32,
    pub column: u32,
}

/// The mathematical content of a token, with its text as a character
/// sequence.
pub struct TokenView {
    pub kind: TokenKind,
    pub value: Seq<char>,
    pub line: u32,
    pub column: u32,
}

impl View for Token {
    type V = TokenView;

    open spec fn view(&self) -> TokenView {
        TokenView { kind: self.kind, value: self.value@, line: self.line, column: self.column }
    }
}

impl Clone for Token {
    fn clone(&self) -> (r: Token)
        ensures
            r@ == self@,
    {
        Token { kind: self.kind, value: self.value.clone(), line: self.line, column: self.column }
    }
}

/// The kinds of a token sequence, in order; all the grammars look at.
pub open spec fn kinds_of(tokens: Seq<Token>) -> Seq<TokenKind> {
    Seq::new(tokens.len(), |i: int| tokens[i].kind)
}

/// The views of a token sequence, in order.
pub open spec fn views_of(tokens: Seq<Token>) -> Seq<TokenView> {
    Seq::new(tokens.len(), |i: int| tokens[i]@)
}

/// The kinds of a sequence of token views, in order.
pub open spec fn view_kinds(tokens: Seq<TokenView>) -> Seq<TokenKind> {
    Seq::new(tokens.len(), |i: int| tokens[i].kind)
}

/// Appending a token appends its view.
pub proof fn lemma_views_push(tokens: Seq<Token>, t: Token)
    ensures
        views_of(tokens.push(t)) =~= views_of(tokens) + seq![t@],
{
}

} // verus!
