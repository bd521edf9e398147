//! Key text: validation, cleaning and conversion to key bytes.
use vstd::prelude::*;

use crate::error::DiscError;

verus! {

/// Number of hexadecimal digits in a key.
pub const KEY_HEX_DIGITS: usize = 32;

/// Number of bytes in a key.
pub const KEY_BYTES: usize = 16;

/// The characters with the Unicode White_Space property.
pub open spec fn is_white_space(c: char) -> bool {
    ||| ('\u{9}' <= c && c <= '\u{d}')
    ||| c == ' '
    ||| c == '\u{85}'
    ||| c == '\u{a0}'
    ||| c == '\u{1680}'
    ||| ('\u{2000}' <= c && c <= '\u{200a}')
    ||| c == '\u{2028}'
    ||| c == '\u{2029}'
    ||| c == '\u{202f}'
    ||| c == '\u{205f}'
    ||| c == '\u{3000}'
}

/// The characters of the Unicode general category Cc (control codes).
pub open spec fn is_control_char(c: char) -> bool {
    c <= '\u{1f}' || ('\u{7f}' <= c && c <= '\u{9f}')
}

/// ASCII hexadecimal digits, in either case.
pub open spec fn is_hex_digit(c: char) -> bool {
    ('0' <= c && c <= '9') || ('a' <= c && c <= 'f') || ('A' <= c && c <= 'F')
}

/// The value of a hexadecimal digit.
pub open spec fn hex_value(c: char) -> int {
    if '0' <= c && c <= '9' {
        c as int - '0' as int
    } else if 'a' <= c && c <= 'f' {
        c as int - 'a' as int + 10
    } else {
        c as int - 'A' as int + 10
    }
}

/// `s` with its whitespace removed.
pub open spec fn strip_whitespace(s: Seq<char>) -> Seq<char> {
    s.filter(|c: char| !is_white_space(c))
}

/// `s` with its control characters (carriage return and line feed among them)
/// removed.
pub open spec fn strip_control(s: Seq<char>) -> Seq<char> {
    s.filter(|c: char| !is_control_char(c))
}

/// A key is valid when, whitespace removed, it is exactly 32 hexadecimal digits.
pub open spec fn key_is_valid(s: Seq<char>) -> bool {
    let t = strip_whitespace(s);
    t.len() == KEY_HEX_DIGITS && forall|i: int| 0 <= i < t.len() ==> is_hex_digit(#[trigger] t[i])
}

/// The 16 bytes that 32 hexadecimal digits spell, two digits per byte, high
/// digit first.
pub open spec fn key_bytes_of(t: Seq<char>) -> Seq<u8> {
    Seq::new(
        KEY_BYTES as nat,
        |i: int| (hex_value(t[2 * i]) * 16 + hex_value(t[2 * i + 1])) as u8,
    )
}

/// Relies on char::is_whitespace: true exactly for the characters with the
/// Unicode White_Space property.
#[verifier::external_body]
fn char_is_whitespace(c: char) -> (r: bool)
    ensures
        r == is_white_space(c),
{
    c.is_whitespace()
}

/// Relies on char::is_control: true exactly for the characters of the general
/// category Cc.
#[verifier::external_body]
fn char_is_control(c: char) -> (r: bool)
    ensures
        r == is_control_char(c),
{
    c.is_control()
}

/// Relies on String's FromIterator<char>: the string holds the characters in order.
#[verifier::external_body]
fn string_from_chars(chars: &Vec<char>) -> (r: String)
    ensures
        r@ == chars@,
{
    chars.iter().collect()
}

fn hex_digit(c: char) -> (r: bool)
    ensures
        r == is_hex_digit(c),
{
    ('0' <= c && c <= '9') || ('a' <= c && c <= 'f') || ('A' <= c && c <= 'F')
}

fn hex_digit_value(c: char) -> (v: u8)
    requires
        is_hex_digit(c),
    ensures
        v as int == hex_value(c),
        v < 16,
{
    if '0' <= c && c <= '9' {
        (c as u32 - '0' as u32) as u8
    } else if 'a' <= c && c <= 'f' {
        (c as u32 - 'a' as u32 + 10) as u8
    } else {
        (c as u32 - 'A' as u32 + 10) as u8
    }
}

/// The characters of `key` that are not whitespace, in order.
fn non_whitespace_chars(key: &str) -> (r: Vec<char>)
    ensures
        r@ == strip_whitespace(key@),
{
    let n = key.unicode_len();
    let mut out: Vec<char> = Vec::new();
    let mut i: usize = 0;
    while i < n
        invariant
            n == key@.len(),
            i <= n,
            out@ == strip_whitespace(key@.subrange(0, i as int)),
        decreases n - i,
    {
        let c = key.get_char(i);
        proof {
            let pre = key@.subrange(0, i as int + 1);
            assert(pre.drop_last() =~= key@.subrange(0, i as int));
            assert(pre.last() == c);
            reveal(Seq::filter);
        }
        if !char_is_whitespace(c) {
            out.push(c);
        }
        i = i + 1;
    }
    assert(key@.subrange(0, n as int) =~= key@);
    out
}

/// Whether `key` is a usable key: 32 hexadecimal digits once all whitespace
/// is removed.
pub fn key_validation(key: &str) -> (r: bool)
    ensures
        r == key_is_valid(key@),
{
    let digits = non_whitespace_chars(key);
    if digits.len() != KEY_HEX_DIGITS {
        return false;
    }
    let mut i: usize = 0;
    while i < digits.len()
        invariant
            i <= digits@.len(),
            digits@ == strip_whitespace(key@),
            digits@.len() == KEY_HEX_DIGITS,
            forall|j: int| 0 <= j < i ==> is_hex_digit(#[trigger] digits@[j]),
        decreases digits@.len() - i,
    {
        if !hex_digit(digits[i]) {
            assert(!is_hex_digit(strip_whitespace(key@)[i as int]));
            return false;
        }
        i = i + 1;
    }
    true
}

/// Turns a valid key string into the 16 key bytes it spells; any other
/// string is refused.
pub fn parse_key(key: &str) -> (r: Result<[u8; 16], DiscError>)
    ensures
        r is Ok <==> key_is_valid(key@),
        r matches Ok(b) ==> b@ == key_bytes_of(strip_whitespace(key@)),
        r matches Err(e) ==> e == DiscError::InvalidKeyFormat,
{
    if !key_validation(key) {
        return Err(DiscError::InvalidKeyFormat);
    }
    let digits = non_whitespace_chars(key);
    let mut bytes: [u8; 16] = [0u8; 16];
    let mut i: usize = 0;
    while i < KEY_BYTES
        invariant
            digits@ == strip_whitespace(key@),
            key_is_valid(key@),
            i <= KEY_BYTES,
            bytes@.len() == KEY_BYTES,
            forall|j: int| 0 <= j < i ==> bytes@[j] == #[trigger] key_bytes_of(digits@)[j],
        decreases KEY_BYTES - i,
    {
        let hi = hex_digit_value(digits[2 * i]);
        let lo = hex_digit_value(digits[2 * i + 1]);
        bytes[i] = hi * 16 + lo;
        i = i + 1;
    }
    assert(bytes@ =~= key_bytes_of(digits@));
    Ok(bytes)
}

/// The text of a key file with its control characters (carriage returns and
/// line feeds among them) removed.
pub fn clean_key_text(raw: &str) -> (r: String)
    ensures
        r@ == strip_control(raw@),
{
    let n = raw.unicode_len();
    let mut out: Vec<char> = Vec::new();
    let mut i: usize = 0;
    while i < n
        invariant
            n == raw@.len(),
            i <= n,
            out@ == strip_control(raw@.subrange(0, i as int)),
        decreases n - i,
    {
        let c = raw.get_char(i);
        proof {
            let pre = raw@.subrange(0, i as int + 1);
            assert(pre.drop_last() =~= raw@.subrange(0, i as int));
            assert(pre.last() == c);
            reveal(Seq::filter);
        }
        if !char_is_control(c) {
            out.push(c);
        }
        i = i + 1;
    }
    assert(raw@.subrange(0, n as int) =~= raw@);
    string_from_chars(&out)
}

} // verus!
