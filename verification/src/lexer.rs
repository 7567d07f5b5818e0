//! The position-tracking lexer: converts raw source text into the ordered
//! token sequence, counting 1-based lines and columns per consumed
//! character. Whitespace other than line breaks separates tokens and is
//! never emitted; text that fits no token kind becomes a single `Illegal`
//! token carrying the offending text and its position, and lexing then
//! goes on, so analysis can point at the first bad token.
//!
//! A quoted content literal runs to the matching quote on the same line;
//! one that is still open at the line break or at the end of the input is
//! an `Illegal` token reported at the opening quote. A format specifier is
//! one of `b`, `o`, `d`, `h` standing directly before a quote. An
//! identifier starts with an ASCII letter, digit or `_` and goes on with
//! those or `-`; `-` directly before `>` is the direction separator.

use vstd::prelude::*;
use vstd::string::StrSliceExecFns;
use crate::token::{Token, TokenKind, TokenView, views_of, lemma_views_push};

verus! {

/// Whether `c` may start an identifier.
pub open spec fn spec_is_ident_start(c: char) -> bool {
    ('a' <= c && c <= 'z') || ('A' <= c && c <= 'Z') || ('0' <= c && c <= '9') || c == '_'
}

/// Whether `c` may continue an identifier.
pub open spec fn spec_is_ident_continue(c: char) -> bool {
    spec_is_ident_start(c) || c == '-'
}

#[verifier::when_used_as_spec(spec_is_ident_start)]
fn is_ident_start(c: char) -> (r: bool)
    ensures
        r == spec_is_ident_start(c),
{
    ('a' <= c && c <= 'z') || ('A' <= c && c <= 'Z') || ('0' <= c && c <= '9') || c == '_'
}

#[verifier::when_used_as_spec(spec_is_ident_continue)]
fn is_ident_continue(c: char) -> (r: bool)
    ensures
        r == spec_is_ident_continue(c),
{
    is_ident_start(c) || c == '-'
}

/// Whether `c` is insignificant whitespace (a line break is not).
pub open spec fn spec_is_blank(c: char) -> bool {
    c == ' ' || c == '\t' || c == '\r'
}

/// The end of an identifier that is still running at `j`: the first
/// position at or after `j` whose character no longer continues it.
pub open spec fn ident_end(s: Seq<char>, j: int) -> int
    decreases s.len() - j,
{
    if j < 0 || j >= s.len() || !spec_is_ident_continue(s[j]) {
        j
    } else {
        ident_end(s, j + 1)
    }
}

proof fn lemma_ident_end_bounds(s: Seq<char>, j: int)
    requires
        0 <= j <= s.len(),
    ensures
        j <= ident_end(s, j) <= s.len(),
    decreases s.len() - j,
{
    if j < s.len() && spec_is_ident_continue(s[j]) {
        lemma_ident_end_bounds(s, j + 1);
    }
}

/// The end of a content literal whose opening quote stands before `j`: the
/// first position at or after `j` holding the closing quote or a line
/// break, or the end of the input.
pub open spec fn content_end(s: Seq<char>, j: int) -> int
    decreases s.len() - j,
{
    if j < 0 || j >= s.len() || s[j] == '"' || s[j] == '\n' {
        j
    } else {
        content_end(s, j + 1)
    }
}

proof fn lemma_content_end_bounds(s: Seq<char>, j: int)
    requires
        0 <= j <= s.len(),
    ensures
        j <= content_end(s, j) <= s.len(),
    decreases s.len() - j,
{
    if j < s.len() && s[j] != '"' && s[j] != '\n' {
        lemma_content_end_bounds(s, j + 1);
    }
}

/// One token view, as the lexer emits it.
pub open spec fn tok(kind: TokenKind, value: Seq<char>, line: int, col: int) -> TokenView {
    TokenView { kind, value, line: line as u32, column: col as u32 }
}

/// The tokens lexed from `s` starting at position `i`, which source
/// position `(line, col)` points at.
pub open spec fn lex_from(s: Seq<char>, i: int, line: int, col: int) -> Seq<TokenView>
    decreases s.len() - i,
        via lex_from_dec
{
    if i < 0 || i >= s.len() {
        seq![]
    } else {
        let c = s[i];
        if c == '\n' {
            seq![tok(TokenKind::Newline, s.subrange(i, i + 1), line, col)] + lex_from(
                s,
                i + 1,
                line + 1,
                1,
            )
        } else if spec_is_blank(c) {
            lex_from(s, i + 1, line, col + 1)
        } else if c == '[' {
            seq![tok(TokenKind::LeftGroupParenthesis, s.subrange(i, i + 1), line, col)] + lex_from(
                s,
                i + 1,
                line,
                col + 1,
            )
        } else if c == ']' {
            seq![tok(TokenKind::RightGroupParenthesis, s.subrange(i, i + 1), line, col)] + lex_from(
                s,
                i + 1,
                line,
                col + 1,
            )
        } else if c == '(' {
            seq![tok(TokenKind::LeftTestParenthesis, s.subrange(i, i + 1), line, col)] + lex_from(
                s,
                i + 1,
                line,
                col + 1,
            )
        } else if c == ')' {
            seq![tok(TokenKind::RightTestParenthesis, s.subrange(i, i + 1), line, col)] + lex_from(
                s,
                i + 1,
                line,
                col + 1,
            )
        } else if c == ',' {
            seq![tok(TokenKind::ContentSeparator, s.subrange(i, i + 1), line, col)] + lex_from(
                s,
                i + 1,
                line,
                col + 1,
            )
        } else if c == '=' {
            seq![tok(TokenKind::OptionSeparator, s.subrange(i, i + 1), line, col)] + lex_from(
                s,
                i + 1,
                line,
                col + 1,
            )
        } else if c == '-' {
            if i + 1 < s.len() && s[i + 1] == '>' {
                seq![tok(TokenKind::DirectionSeparator, s.subrange(i, i + 2), line, col)]
                    + lex_from(s, i + 2, line, col + 2)
            } else {
                seq![tok(TokenKind::Illegal, s.subrange(i, i + 1), line, col)] + lex_from(
                    s,
                    i + 1,
                    line,
                    col + 1,
                )
            }
        } else if c == '"' {
            let j = content_end(s, i + 1);
            if j < s.len() && s[j] == '"' {
                seq![tok(TokenKind::Content, s.subrange(i + 1, j), line, col)] + lex_from(
                    s,
                    j + 1,
                    line,
                    col + (j + 1 - i),
                )
            } else {
                seq![tok(TokenKind::Illegal, s.subrange(i, j), line, col)] + lex_from(
                    s,
                    j,
                    line,
                    col + (j - i),
                )
            }
        } else if (c == 'b' || c == 'o' || c == 'd' || c == 'h') && i + 1 < s.len() && s[i + 1]
            == '"' {
            seq![tok(TokenKind::FormatSpecifier, s.subrange(i, i + 1), line, col)] + lex_from(
                s,
                i + 1,
                line,
                col + 1,
            )
        } else if spec_is_ident_start(c) {
            let j = ident_end(s, i + 1);
            seq![tok(TokenKind::Identifier, s.subrange(i, j), line, col)] + lex_from(
                s,
                j,
                line,
                col + (j - i),
            )
        } else {
            seq![tok(TokenKind::Illegal, s.subrange(i, i + 1), line, col)] + lex_from(
                s,
                i + 1,
                line,
                col + 1,
            )
        }
    }
}

#[via_fn]
proof fn lex_from_dec(s: Seq<char>, i: int, line: int, col: int) {
    if 0 <= i < s.len() {
        lemma_content_end_bounds(s, i + 1);
        lemma_ident_end_bounds(s, i + 1);
    }
}

/// The tokens of a whole source text, from its first character at line 1,
/// column 1.
pub open spec fn lex(s: Seq<char>) -> Seq<TokenView> {
    lex_from(s, 0, 1, 1)
}

/// Lexes the whole source text into its token sequence.
pub fn get_tokens(source: &str) -> (tokens: Vec<Token>)
    requires
        source@.len() + 2 <= u32::MAX,
    ensures
        views_of(tokens@) == lex(source@),
{
    let ghost s = source@;
    let len = source.unicode_len();
    let mut tokens: Vec<Token> = Vec::new();
    let mut i: usize = 0;
    let mut line: u32 = 1;
    let mut col: u32 = 1;
    while i < len
        invariant
            i <= len,
            len == s.len(),
            s == source@,
            s.len() + 2 <= u32::MAX,
            1 <= line,
            1 <= col,
            line + col <= i + 2,
            lex(s) =~= views_of(tokens@) + lex_from(s, i as int, line as int, col as int),
        decreases len - i,
    {
        let ghost tokens_before = tokens@;
        let ghost i0 = i as int;
        let ghost line0 = line as int;
        let ghost col0 = col as int;
        let c = source.get_char(i);
        if c == '\n' {
            let value = source.substring_char(i, i + 1).to_owned();
            let t = Token { kind: TokenKind::Newline, value, line, column: col };
            tokens.push(t);
            i = i + 1;
            line = line + 1;
            col = 1;
        } else if c == ' ' || c == '\t' || c == '\r' {
            i = i + 1;
            col = col + 1;
        } else if c == '[' || c == ']' || c == '(' || c == ')' || c == ',' || c == '=' {
            let kind = if c == '[' {
                TokenKind::LeftGroupParenthesis
            } else if c == ']' {
                TokenKind::RightGroupParenthesis
            } else if c == '(' {
                TokenKind::LeftTestParenthesis
            } else if c == ')' {
                TokenKind::RightTestParenthesis
            } else if c == ',' {
                TokenKind::ContentSeparator
            } else {
                TokenKind::OptionSeparator
            };
            let value = source.substring_char(i, i + 1).to_owned();
            let t = Token { kind, value, line, column: col };
            tokens.push(t);
            i = i + 1;
            col = col + 1;
        } else if c == '-' {
            if i + 1 < len && source.get_char(i + 1) == '>' {
                let value = source.substring_char(i, i + 2).to_owned();
                let t = Token { kind: TokenKind::DirectionSeparator, value, line, column: col };
                tokens.push(t);
                i = i + 2;
                col = col + 2;
            } else {
                let value = source.substring_char(i, i + 1).to_owned();
                let t = Token { kind: TokenKind::Illegal, value, line, column: col };
                tokens.push(t);
                i = i + 1;
                col = col + 1;
            }
        } else if c == '"' {
            let mut j: usize = i + 1;
            while j < len && source.get_char(j) != '"' && source.get_char(j) != '\n'
                invariant
                    i + 1 <= j <= len,
                    len == s.len(),
                    s == source@,
                    content_end(s, i0 + 1) == content_end(s, j as int),
                decreases len - j,
            {
                j = j + 1;
            }
            proof {
                assert(content_end(s, j as int) == j as int);
            }
            if j < len {
                let quote_end = source.get_char(j);
                if quote_end == '"' {
                    let value = source.substring_char(i + 1, j).to_owned();
                    let t = Token { kind: TokenKind::Content, value, line, column: col };
                    tokens.push(t);
                    proof {
                        assert(j - i <= len);
                    }
                    col = col + ((j + 1 - i) as u32);
                    i = j + 1;
                } else {
                    let value = source.substring_char(i, j).to_owned();
                    let t = Token { kind: TokenKind::Illegal, value, line, column: col };
                    tokens.push(t);
                    col = col + ((j - i) as u32);
                    i = j;
                }
            } else {
                let value = source.substring_char(i, j).to_owned();
                let t = Token { kind: TokenKind::Illegal, value, line, column: col };
                tokens.push(t);
                col = col + ((j - i) as u32);
                i = j;
            }
        } else if (c == 'b' || c == 'o' || c == 'd' || c == 'h') && i + 1 < len && source.get_char(
            i + 1,
        ) == '"' {
            let value = source.substring_char(i, i + 1).to_owned();
            let t = Token { kind: TokenKind::FormatSpecifier, value, line, column: col };
            tokens.push(t);
            i = i + 1;
            col = col + 1;
        } else if is_ident_start(c) {
            let mut j: usize = i + 1;
            while j < len && is_ident_continue(source.get_char(j))
                invariant
                    i + 1 <= j <= len,
                    len == s.len(),
                    s == source@,
                    ident_end(s, i0 + 1) == ident_end(s, j as int),
                decreases len - j,
            {
                j = j + 1;
            }
            proof {
                assert(ident_end(s, j as int) == j as int);
            }
            let value = source.substring_char(i, j).to_owned();
            let t = Token { kind: TokenKind::Identifier, value, line, column: col };
            tokens.push(t);
            col = col + ((j - i) as u32);
            i = j;
        } else {
            let value = source.substring_char(i, i + 1).to_owned();
            let t = Token { kind: TokenKind::Illegal, value, line, column: col };
            tokens.push(t);
            i = i + 1;
            col = col + 1;
        }
        proof {
            if tokens@.len() > tokens_before.len() {
                lemma_views_push(tokens_before, tokens@.last());
            }
            assert(views_of(tokens@) + lex_from(s, i as int, line as int, col as int) =~= views_of(
                tokens_before,
            ) + lex_from(s, i0, line0, col0));
        }
    }
    proof {
        assert(lex_from(s, len as int, line as int, col as int) =~= Seq::<TokenView>::empty());
        assert(views_of(tokens@) =~= lex(s));
    }
    tokens
}

} // verus!
