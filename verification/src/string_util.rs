//! Small string utilities: character-wise comparison helpers and the lexical
//! forms of option values (boolean literals, decimal integers and suffixed
//! time durations such as `500ms` or `2s`).

use vstd::prelude::*;
use vstd::string::StrSliceExecFns;
use crate::codec::push_char;

verus! {

/// The character a backslash escape stands for, where one is defined.
pub open spec fn escape_char(c: char) -> Option<char> {
    if c == 'n' {
        Some('\n')
    } else if c == 'r' {
        Some('\r')
    } else if c == 't' {
        Some('\t')
    } else if c == '0' {
        Some('\0')
    } else if c == '\\' {
        Some('\\')
    } else if c == '"' {
        Some('"')
    } else {
        None
    }
}

/// The text with its backslash escapes replaced, from `i` on: a defined
/// escape becomes its character, an undefined one and a trailing
/// backslash stay as they are.
pub open spec fn escaped_text(s: Seq<char>, i: int) -> Seq<char>
    decreases s.len() - i,
{
    if i < 0 || i >= s.len() {
        seq![]
    } else if s[i] == '\\' && i + 1 < s.len() && escape_char(s[i + 1]) is Some {
        seq![escape_char(s[i + 1])->0] + escaped_text(s, i + 2)
    } else {
        seq![s[i]] + escaped_text(s, i + 1)
    }
}

/// Replaces the backslash escapes `\n`, `\r`, `\t`, `\0`, `\\` and `\"`
/// in the text by the characters they stand for.
pub fn escape_text(text: &str) -> (r: String)
    ensures
        r@ == escaped_text(text@, 0),
{
    let len = text.unicode_len();
    let mut out = String::new();
    let mut i: usize = 0;
    while i < len
        invariant
            i <= len,
            len == text@.len(),
            escaped_text(text@, 0) =~= out@ + escaped_text(text@, i as int),
        decreases len - i,
    {
        let c = text.get_char(i);
        if c == '\\' && i + 1 < len {
            let next = text.get_char(i + 1);
            let replacement = if next == 'n' {
                Some('\n')
            } else if next == 'r' {
                Some('\r')
            } else if next == 't' {
                Some('\t')
            } else if next == '0' {
                Some('\0')
            } else if next == '\\' {
                Some('\\')
            } else if next == '"' {
                Some('"')
            } else {
                None
            };
            match replacement {
                Some(rc) => {
                    push_char(&mut out, rc);
                    i = i + 2;
                },
                None => {
                    push_char(&mut out, c);
                    i = i + 1;
                },
            }
        } else {
            push_char(&mut out, c);
            i = i + 1;
        }
    }
    out
}

/// Character-wise equality of two string slices.
pub fn str_eq(a: &str, b: &str) -> (r: bool)
    ensures
        r == (a@ == b@),
{
    let a_len = a.unicode_len();
    let b_len = b.unicode_len();
    if a_len != b_len {
        return false;
    }
    let mut i: usize = 0;
    while i < a_len
        invariant
            i <= a_len,
            a_len == a@.len(),
            b_len == b@.len(),
            a_len == b_len,
            forall|j: int| 0 <= j < i ==> a@[j] == b@[j],
        decreases a_len - i,
    {
        if a.get_char(i) != b.get_char(i) {
            return false;
        }
        i += 1;
    }
    proof {
        assert(a@ =~= b@);
    }
    true
}

/// Whether `p` is a prefix of `s`, compared character by character.
pub fn str_starts_with(s: &str, p: &str) -> (r: bool)
    ensures
        r == p@.is_prefix_of(s@),
{
    let s_len = s.unicode_len();
    let p_len = p.unicode_len();
    if p_len > s_len {
        proof {
            assert(!p@.is_prefix_of(s@));
        }
        return false;
    }
    let mut i: usize = 0;
    while i < p_len
        invariant
            i <= p_len,
            s_len == s@.len(),
            p_len == p@.len(),
            p_len <= s_len,
            forall|j: int| 0 <= j < i ==> p@[j] == s@[j],
        decreases p_len - i,
    {
        if p.get_char(i) != s.get_char(i) {
            proof {
                assert(p@ != s@.subrange(0, p@.len() as int));
            }
            return false;
        }
        i += 1;
    }
    proof {
        assert(p@ =~= s@.subrange(0, p@.len() as int));
    }
    true
}

/// Whether `c` is an ASCII decimal digit.
pub open spec fn is_dec_digit(c: char) -> bool {
    '0' <= c && c <= '9'
}

/// Numeric value of an ASCII decimal digit.
pub open spec fn dec_digit_value(c: char) -> nat
    recommends
        is_dec_digit(c),
{
    (c as nat - '0' as nat) as nat
}

/// Whether every character of `s` is an ASCII decimal digit.
pub open spec fn all_dec_digits(s: Seq<char>) -> bool {
    forall|i: int| 0 <= i < s.len() ==> is_dec_digit(#[trigger] s[i])
}

/// The value of a string of decimal digits, most significant digit first.
pub open spec fn dec_value(s: Seq<char>) -> nat
    decreases s.len(),
{
    if s.len() == 0 {
        0
    } else {
        dec_value(s.drop_last()) * 10 + dec_digit_value(s.last())
    }
}

/// A digit string's value never shrinks when more digits are appended.
proof fn lemma_dec_value_prefix_le(s: Seq<char>, i: int)
    requires
        0 <= i <= s.len(),
    ensures
        dec_value(s.subrange(0, i)) <= dec_value(s),
    decreases s.len() - i,
{
    if i < s.len() {
        lemma_dec_value_prefix_le(s, i + 1);
        let a = s.subrange(0, i);
        let b = s.subrange(0, i + 1);
        assert(b.drop_last() =~= a);
    } else {
        assert(s.subrange(0, i) =~= s);
    }
}

/// The meaning of a whole string as an unsigned number: defined exactly when
/// the string is non-empty, all digits, and its value fits in a `u64`.
pub open spec fn parsed_u64(s: Seq<char>) -> Option<u64> {
    if s.len() > 0 && all_dec_digits(s) && dec_value(s) <= u64::MAX {
        Some(dec_value(s) as u64)
    } else {
        None
    }
}

/// Parses a non-empty, all-digit string into a `u64`; `None` on any other
/// input, including values too large for a `u64`.
pub fn get_u64_value(s: &str) -> (r: Option<u64>)
    ensures
        r == parsed_u64(s@),
{
    let len = s.unicode_len();
    if len == 0 {
        return None;
    }
    let mut acc: u128 = 0;
    let mut i: usize = 0;
    while i < len
        invariant
            i <= len,
            len == s@.len(),
            all_dec_digits(s@.subrange(0, i as int)),
            acc == dec_value(s@.subrange(0, i as int)),
            acc <= u64::MAX,
        decreases len - i,
    {
        let c = s.get_char(i);
        if c < '0' || c > '9' {
            proof {
                assert(!all_dec_digits(s@));
            }
            return None;
        }
        let d: u128 = (c as u32 - '0' as u32) as u128;
        acc = acc * 10 + d;
        proof {
            assert(s@.subrange(0, i + 1 as int).drop_last() =~= s@.subrange(0, i as int));
        }
        i += 1;
        if acc > u64::MAX as u128 {
            proof {
                lemma_dec_value_prefix_le(s@, i as int);
            }
            return None;
        }
    }
    proof {
        assert(s@.subrange(0, len as int) =~= s@);
    }
    Some(acc as u64)
}

/// The meaning of a string as a `u32` count, as used by the `repeat` option.
pub open spec fn parsed_u32(s: Seq<char>) -> Option<u32> {
    if s.len() > 0 && all_dec_digits(s) && dec_value(s) <= u32::MAX {
        Some(dec_value(s) as u32)
    } else {
        None
    }
}

/// Parses a non-empty, all-digit string into a `u32`; `None` otherwise.
pub fn get_u32_value(s: &str) -> (r: Option<u32>)
    ensures
        r == parsed_u32(s@),
{
    match get_u64_value(s) {
        Some(n) => {
            if n <= u32::MAX as u64 {
                Some(n as u32)
            } else {
                None
            }
        },
        None => None,
    }
}

/// The meaning of a boolean option literal: `true`, `yes` and `1` stand for
/// true; `false`, `no` and `0` for false; anything else has no meaning.
pub open spec fn parsed_boolean(s: Seq<char>) -> Option<bool> {
    if s == "true"@ || s == "yes"@ || s == "1"@ {
        Some(true)
    } else if s == "false"@ || s == "no"@ || s == "0"@ {
        Some(false)
    } else {
        None
    }
}

/// Parses a boolean option literal.
pub fn get_boolean_value(s: &str) -> (r: Option<bool>)
    ensures
        r == parsed_boolean(s@),
{
    if str_eq(s, "true") || str_eq(s, "yes") || str_eq(s, "1") {
        Some(true)
    } else if str_eq(s, "false") || str_eq(s, "no") || str_eq(s, "0") {
        Some(false)
    } else {
        None
    }
}

/// The meaning of a time literal, in milliseconds: a digit string with an
/// optional `ms` or `s` suffix (`500ms`, `2s`, `750`); a bare number counts
/// milliseconds and a value whose milliseconds overflow a `u64` has none.
pub open spec fn parsed_time(s: Seq<char>) -> Option<u64> {
    if s.len() >= 2 && s.subrange(s.len() - 2, s.len() as int) == "ms"@ {
        parsed_u64(s.subrange(0, s.len() - 2))
    } else if s.len() >= 1 && s.last() == 's' {
        match parsed_u64(s.drop_last()) {
            Some(n) => if n <= u64::MAX / 1000 {
                Some((n * 1000) as u64)
            } else {
                None
            },
            None => None,
        }
    } else {
        parsed_u64(s)
    }
}

/// Parses a time literal into milliseconds.
pub fn get_time_value(s: &str) -> (r: Option<u64>)
    ensures
        r == parsed_time(s@),
{
    let len = s.unicode_len();
    if len >= 2 && s.get_char(len - 2) == 'm' && s.get_char(len - 1) == 's' {
        proof {
            reveal_strlit("ms");
            assert(s@.subrange(len - 2, len as int) =~= "ms"@);
        }
        let digits = s.substring_char(0, len - 2);
        get_u64_value(digits)
    } else if len >= 1 && s.get_char(len - 1) == 's' {
        proof {
            reveal_strlit("ms");
            if len >= 2 {
                assert(s@.subrange(len - 2, len as int)[0] == s@[len - 2]);
                assert(s@.subrange(len - 2, len as int) != "ms"@);
            }
            assert(s@.drop_last() =~= s@.subrange(0, len - 1));
        }
        let digits = s.substring_char(0, len - 1);
        match get_u64_value(digits) {
            Some(n) => {
                if n <= u64::MAX / 1000 {
                    Some(n * 1000)
                } else {
                    None
                }
            },
            None => None,
        }
    } else {
        proof {
            reveal_strlit("ms");
            if len >= 2 && s@.subrange(len - 2, len as int) == "ms"@ {
                assert(s@.subrange(len - 2, len as int)[1] == s@[len - 1]);
                assert(s@[len - 1] == 's');
            }
        }
        get_u64_value(s)
    }
}

} // verus!
