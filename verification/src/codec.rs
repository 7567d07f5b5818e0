//! The codec: how literal content is turned into bytes before sending, and
//! how received bytes are rendered back into text. Text content is UTF-8;
//! the radix formats render each byte at a fixed width (binary 8 digits,
//! octal 3, decimal 3, hex 2 lowercase digits) and parse the same digit
//! strings back into bytes.

use vstd::prelude::*;
use vstd::string::StrSliceExecFns;
use vstd::utf8::{decode_utf8, encode_utf8, valid_utf8};

verus! {

/// How a content literal is decoded to bytes, and bytes back to text.
#[derive(Clone, Copy, PartialEq, Eq, Structural, Debug)]
pub enum TextFormat {
    Text,
    Binary,
    Octal,
    Decimal,
    Hex,
}

/// Whether `c` is an ASCII hexadecimal digit, either case.
pub open spec fn is_hex_digit(c: char) -> bool {
    ('0' <= c && c <= '9') || ('a' <= c && c <= 'f') || ('A' <= c && c <= 'F')
}

/// Numeric value of a hexadecimal digit.
pub open spec fn hex_digit_value(c: char) -> nat
    recommends
        is_hex_digit(c),
{
    if '0' <= c && c <= '9' {
        (c as nat - '0' as nat) as nat
    } else if 'a' <= c && c <= 'f' {
        (c as nat - 'a' as nat + 10) as nat
    } else {
        (c as nat - 'A' as nat + 10) as nat
    }
}

/// A hex content literal: pairs of hexadecimal digits, two per byte.
pub open spec fn valid_hex_string(s: Seq<char>) -> bool {
    &&& s.len() % 2 == 0
    &&& forall|i: int| 0 <= i < s.len() ==> is_hex_digit(#[trigger] s[i])
}

/// The bytes a hex content literal stands for.
pub open spec fn hex_bytes(s: Seq<char>) -> Seq<u8>
    decreases s.len(),
{
    if s.len() < 2 {
        seq![]
    } else {
        hex_bytes(s.subrange(0, s.len() - 2)) + seq![
            (hex_digit_value(s[s.len() - 2]) * 16 + hex_digit_value(s[s.len() - 1])) as u8,
        ]
    }
}

/// Whether `c` is a binary digit.
pub open spec fn is_bin_digit(c: char) -> bool {
    c == '0' || c == '1'
}

/// The bit a binary digit stands for.
pub open spec fn bit_value(c: char) -> nat {
    if c == '1' {
        1
    } else {
        0
    }
}

/// A binary content literal: eight binary digits per byte.
pub open spec fn valid_binary_string(s: Seq<char>) -> bool {
    &&& s.len() % 8 == 0
    &&& forall|i: int| 0 <= i < s.len() ==> is_bin_digit(#[trigger] s[i])
}

/// The value of the eight binary digits ending at `end` (exclusive).
pub open spec fn bin_byte_value(s: Seq<char>, end: int) -> nat
    recommends
        8 <= end <= s.len(),
{
    bit_value(s[end - 8]) * 128 + bit_value(s[end - 7]) * 64 + bit_value(s[end - 6]) * 32
        + bit_value(s[end - 5]) * 16 + bit_value(s[end - 4]) * 8 + bit_value(s[end - 3]) * 4
        + bit_value(s[end - 2]) * 2 + bit_value(s[end - 1])
}

/// The bytes a binary content literal stands for.
pub open spec fn binary_bytes(s: Seq<char>) -> Seq<u8>
    decreases s.len(),
{
    if s.len() < 8 {
        seq![]
    } else {
        binary_bytes(s.subrange(0, s.len() - 8)) + seq![bin_byte_value(s, s.len() as int) as u8]
    }
}

/// Whether a content literal can be encoded under `format`: the radix
/// formats constrain the digit string, text never fails.
pub open spec fn encodable(s: Seq<char>, format: TextFormat) -> bool {
    match format {
        TextFormat::Binary => valid_binary_string(s),
        TextFormat::Hex => valid_hex_string(s),
        _ => true,
    }
}

/// The bytes sent for a content literal under `format`: parsed digits for
/// binary and hex, the UTF-8 encoding otherwise.
pub open spec fn encoded_bytes(s: Seq<char>, format: TextFormat) -> Seq<u8> {
    match format {
        TextFormat::Binary => binary_bytes(s),
        TextFormat::Hex => hex_bytes(s),
        _ => encode_utf8(s),
    }
}

/// Parses a string of hexadecimal digit pairs into bytes; `None` when the
/// string is not a valid hex literal.
pub fn bytes_from_hex_string(text: &str) -> (r: Option<Vec<u8>>)
    ensures
        match r {
            Some(bytes) => valid_hex_string(text@) && bytes@ == hex_bytes(text@),
            None => !valid_hex_string(text@),
        },
{
    let len = text.unicode_len();
    if len % 2 != 0 {
        return None;
    }
    let mut bytes: Vec<u8> = Vec::new();
    let mut i: usize = 0;
    while i < len
        invariant
            i <= len,
            i % 2 == 0,
            len % 2 == 0,
            len == text@.len(),
            forall|j: int| 0 <= j < i ==> is_hex_digit(#[trigger] text@[j]),
            bytes@ == hex_bytes(text@.subrange(0, i as int)),
        decreases len - i,
    {
        let hi = match hex_value(text.get_char(i)) {
            Some(v) => v,
            None => {
                return None;
            },
        };
        let lo = match hex_value(text.get_char(i + 1)) {
            Some(v) => v,
            None => {
                return None;
            },
        };
        bytes.push(hi * 16 + lo);
        proof {
            let pre = text@.subrange(0, i + 2);
            assert(pre.subrange(0, i as int) =~= text@.subrange(0, i as int));
            assert(bytes@ =~= hex_bytes(pre));
        }
        i += 2;
    }
    proof {
        assert(text@.subrange(0, len as int) =~= text@);
    }
    Some(bytes)
}

/// Numeric value of a hexadecimal digit character; `None` for any other
/// character.
pub fn hex_value(c: char) -> (r: Option<u8>)
    ensures
        match r {
            Some(v) => is_hex_digit(c) && v == hex_digit_value(c),
            None => !is_hex_digit(c),
        },
{
    if '0' <= c && c <= '9' {
        Some((c as u32 - '0' as u32) as u8)
    } else if 'a' <= c && c <= 'f' {
        Some((c as u32 - 'a' as u32 + 10) as u8)
    } else if 'A' <= c && c <= 'F' {
        Some((c as u32 - 'A' as u32 + 10) as u8)
    } else {
        None
    }
}

/// Parses a string of binary digits, eight per byte, into bytes; `None`
/// when the string is not a valid binary literal.
pub fn bytes_from_binary_string(text: &str) -> (r: Option<Vec<u8>>)
    ensures
        match r {
            Some(bytes) => valid_binary_string(text@) && bytes@ == binary_bytes(text@),
            None => !valid_binary_string(text@),
        },
{
    let len = text.unicode_len();
    if len % 8 != 0 {
        return None;
    }
    let mut bytes: Vec<u8> = Vec::new();
    let mut i: usize = 0;
    while i < len
        invariant
            i <= len,
            i % 8 == 0,
            len % 8 == 0,
            len == text@.len(),
            forall|j: int| 0 <= j < i ==> is_bin_digit(#[trigger] text@[j]),
            bytes@ == binary_bytes(text@.subrange(0, i as int)),
        decreases len - i,
    {
        let mut value: u8 = 0;
        let mut k: usize = 0;
        while k < 8
            invariant
                k <= 8,
                i + 8 <= len,
                len == text@.len(),
                forall|j: int| i <= j < i + k ==> is_bin_digit(#[trigger] text@[j]),
                value < 256,
                value == bin_partial(text@, i as int, k as int),
            decreases 8 - k,
        {
            let c = text.get_char(i + k);
            if c != '0' && c != '1' {
                return None;
            }
            let b: u8 = if c == '1' {
                1
            } else {
                0
            };
            proof {
                lemma_bin_partial_bound(text@, i as int, k as int);
            }
            value = value * 2 + b;
            k += 1;
        }
        bytes.push(value);
        proof {
            let pre = text@.subrange(0, i + 8);
            assert(pre.subrange(0, i as int) =~= text@.subrange(0, i as int));
            lemma_bin_partial_is_byte(text@, i as int);
            assert(forall|j: int| 0 <= j < 8 ==> #[trigger] pre[i + j] == text@[i + j]);
            assert(bin_byte_value(pre, i + 8) == bin_byte_value(text@, i + 8));
            assert(bytes@ =~= binary_bytes(pre));
        }
        i += 8;
    }
    proof {
        assert(text@.subrange(0, len as int) =~= text@);
    }
    Some(bytes)
}

/// The value of the first `k` of eight binary digits starting at `lo`.
pub open spec fn bin_partial(s: Seq<char>, lo: int, k: int) -> nat
    decreases k,
{
    if k <= 0 {
        0
    } else {
        bin_partial(s, lo, k - 1) * 2 + bit_value(s[lo + k - 1])
    }
}

proof fn lemma_bin_partial_bound(s: Seq<char>, lo: int, k: int)
    requires
        0 <= k <= 8,
    ensures
        bin_partial(s, lo, k) < (if k == 0 {
            1nat
        } else if k == 1 {
            2nat
        } else if k == 2 {
            4nat
        } else if k == 3 {
            8nat
        } else if k == 4 {
            16nat
        } else if k == 5 {
            32nat
        } else if k == 6 {
            64nat
        } else if k == 7 {
            128nat
        } else {
            256nat
        }),
    decreases k,
{
    if k > 0 {
        lemma_bin_partial_bound(s, lo, k - 1);
    }
}

proof fn lemma_bin_partial_is_byte(s: Seq<char>, lo: int)
    requires
        0 <= lo,
        lo + 8 <= s.len(),
    ensures
        bin_partial(s, lo, 8) == bin_byte_value(s, lo + 8),
{
    reveal_with_fuel(bin_partial, 9);
}

/// The bytes written for `text` under `format`, when `text` is encodable
/// under it.
pub fn encode_content(text: &str, format: TextFormat) -> (r: Option<Vec<u8>>)
    ensures
        match r {
            Some(bytes) => encodable(text@, format) && bytes@ == encoded_bytes(text@, format),
            None => !encodable(text@, format),
        },
{
    match format {
        TextFormat::Binary => bytes_from_binary_string(text),
        TextFormat::Hex => bytes_from_hex_string(text),
        _ => Some(text.as_bytes_vec()),
    }
}

/// The lowercase digit character for a value below 16.
pub open spec fn digit_char(d: nat) -> char {
    if d == 0 {
        '0'
    } else if d == 1 {
        '1'
    } else if d == 2 {
        '2'
    } else if d == 3 {
        '3'
    } else if d == 4 {
        '4'
    } else if d == 5 {
        '5'
    } else if d == 6 {
        '6'
    } else if d == 7 {
        '7'
    } else if d == 8 {
        '8'
    } else if d == 9 {
        '9'
    } else if d == 10 {
        'a'
    } else if d == 11 {
        'b'
    } else if d == 12 {
        'c'
    } else if d == 13 {
        'd'
    } else if d == 14 {
        'e'
    } else {
        'f'
    }
}

/// The characters one byte is rendered as under a radix format.
pub open spec fn byte_chars(b: u8, format: TextFormat) -> Seq<char> {
    match format {
        TextFormat::Binary => seq![
            digit_char((b / 128) as nat),
            digit_char(((b / 64) % 2) as nat),
            digit_char(((b / 32) % 2) as nat),
            digit_char(((b / 16) % 2) as nat),
            digit_char(((b / 8) % 2) as nat),
            digit_char(((b / 4) % 2) as nat),
            digit_char(((b / 2) % 2) as nat),
            digit_char((b % 2) as nat),
        ],
        TextFormat::Octal => seq![
            digit_char((b / 64) as nat),
            digit_char(((b / 8) % 8) as nat),
            digit_char((b % 8) as nat),
        ],
        TextFormat::Decimal => seq![
            digit_char((b / 100) as nat),
            digit_char(((b / 10) % 10) as nat),
            digit_char((b % 10) as nat),
        ],
        _ => seq![digit_char((b / 16) as nat), digit_char((b % 16) as nat)],
    }
}

/// The text a byte sequence is rendered as under a radix format, byte by
/// byte in order.
pub open spec fn radix_chars(bytes: Seq<u8>, format: TextFormat) -> Seq<char>
    decreases bytes.len(),
{
    if bytes.len() == 0 {
        seq![]
    } else {
        radix_chars(bytes.drop_last(), format) + byte_chars(bytes.last(), format)
    }
}

/// What received bytes read as under `format`: the radix rendering, or the
/// lossy UTF-8 decoding for plain text.
pub open spec fn decoded_chunk(bytes: Seq<u8>, format: TextFormat) -> Seq<char> {
    match format {
        TextFormat::Text => utf8_lossy_of(bytes),
        _ => radix_chars(bytes, format),
    }
}

pub uninterp spec fn utf8_lossy_of(bytes: Seq<u8>) -> Seq<char>;

/// Relies on String::from_utf8_lossy: the result depends on the bytes
/// alone, and valid UTF-8 input decodes unchanged.
#[verifier::external_body]
fn utf8_lossy(bytes: &[u8]) -> (r: String)
    ensures
        r@ == utf8_lossy_of(bytes@),
        valid_utf8(bytes@) ==> r@ == decode_utf8(bytes@),
{
    String::from_utf8_lossy(bytes).into_owned()
}

/// Relies on String::push: it appends exactly the given character.
#[verifier::external_body]
pub(crate) fn push_char(s: &mut String, c: char)
    ensures
        final(s)@ == old(s)@ + seq![c],
{
    s.push(c);
}

/// The digit character for a value below 16, as executable code.
pub fn digit_char_of(d: u8) -> (c: char)
    requires
        d < 16,
    ensures
        c == digit_char(d as nat),
{
    if d == 0 {
        '0'
    } else if d == 1 {
        '1'
    } else if d == 2 {
        '2'
    } else if d == 3 {
        '3'
    } else if d == 4 {
        '4'
    } else if d == 5 {
        '5'
    } else if d == 6 {
        '6'
    } else if d == 7 {
        '7'
    } else if d == 8 {
        '8'
    } else if d == 9 {
        '9'
    } else if d == 10 {
        'a'
    } else if d == 11 {
        'b'
    } else if d == 12 {
        'c'
    } else if d == 13 {
        'd'
    } else if d == 14 {
        'e'
    } else {
        'f'
    }
}

/// Renders received bytes as text under `format`.
pub fn radix_string(data: &[u8], format: TextFormat) -> (r: String)
    ensures
        r@ == decoded_chunk(data@, format),
{
    if let TextFormat::Text = format {
        return utf8_lossy(data);
    }
    let mut out = String::new();
    let mut i: usize = 0;
    while i < data.len()
        invariant
            i <= data@.len(),
            !(format is Text),
            out@ == radix_chars(data@.subrange(0, i as int), format),
        decreases data@.len() - i,
    {
        let b = data[i];
        match format {
            TextFormat::Binary => {
                push_char(&mut out, digit_char_of(b / 128));
                push_char(&mut out, digit_char_of((b / 64) % 2));
                push_char(&mut out, digit_char_of((b / 32) % 2));
                push_char(&mut out, digit_char_of((b / 16) % 2));
                push_char(&mut out, digit_char_of((b / 8) % 2));
                push_char(&mut out, digit_char_of((b / 4) % 2));
                push_char(&mut out, digit_char_of((b / 2) % 2));
                push_char(&mut out, digit_char_of(b % 2));
            },
            TextFormat::Octal => {
                push_char(&mut out, digit_char_of(b / 64));
                push_char(&mut out, digit_char_of((b / 8) % 8));
                push_char(&mut out, digit_char_of(b % 8));
            },
            TextFormat::Decimal => {
                push_char(&mut out, digit_char_of(b / 100));
                push_char(&mut out, digit_char_of((b / 10) % 10));
                push_char(&mut out, digit_char_of(b % 10));
            },
            _ => {
                push_char(&mut out, digit_char_of(b / 16));
                push_char(&mut out, digit_char_of(b % 16));
            },
        }
        proof {
            let pre = data@.subrange(0, i + 1);
            assert(pre.drop_last() =~= data@.subrange(0, i as int));
            assert(pre.last() == data@[i as int]);
            assert(out@ =~= radix_chars(pre, format));
        }
        i += 1;
    }
    proof {
        assert(data@.subrange(0, data@.len() as int) =~= data@);
    }
    out
}

pub uninterp spec fn lower_of(s: Seq<char>) -> Seq<char>;

/// Relies on str::to_lowercase: the mapping depends on the characters alone.
#[verifier::external_body]
pub(crate) fn to_lowercase_string(s: &str) -> (r: String)
    ensures
        r@ == lower_of(s@),
{
    s.to_lowercase()
}

} // verus!
