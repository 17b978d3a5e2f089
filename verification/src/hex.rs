//! Hexadecimal input: bytes written as pairs of hex digits, and offsets
//! written in decimal or, after `0x`, in hexadecimal.
//!
//! Numbers are read as the standard library reads them: one `+` may stand
//! before the digits, and nothing else but digits may follow.

use crate::render::{hex_digit, hex_of};
use vstd::prelude::*;
use vstd::utf8::{encode_utf8, is_ascii_chars, is_ascii_chars_encode_utf8};

verus! {

/// The value of an ASCII digit in a radix of at most 16, if it is one:
/// `0-9`, then `a-f` or `A-F` for ten to fifteen.
pub open spec fn digit_value(c: u8, radix: u8) -> Option<u8> {
    if 0x30 <= c && c <= 0x39 && c - 0x30 < radix {
        Some((c - 0x30) as u8)
    } else if 0x61 <= c && c <= 0x66 && c - 0x61 + 10 < radix {
        Some((c - 0x61 + 10) as u8)
    } else if 0x41 <= c && c <= 0x46 && c - 0x41 + 10 < radix {
        Some((c - 0x41 + 10) as u8)
    } else {
        None
    }
}

/// The byte that a pair of characters stands for: two hex digits, or a `+`
/// and one hex digit.
pub open spec fn pair_value(first: u8, second: u8) -> Option<u8> {
    match digit_value(second, 16) {
        None => None,
        Some(low) => match digit_value(first, 16) {
            Some(high) => Some((16 * high + low) as u8),
            None => if first == 0x2B {
                Some(low)
            } else {
                None
            },
        },
    }
}

/// The byte that the `k`-th pair of `text` stands for.
pub open spec fn pair_at(text: Seq<u8>, k: int) -> Option<u8> {
    pair_value(text[2 * k], text[2 * k + 1])
}

/// Whether `text` is a sequence of pairs that each stand for a byte.
pub open spec fn is_hex_text(text: Seq<u8>) -> bool {
    text.len() % 2 == 0 && forall|k: int| 0 <= k < text.len() / 2 ==> pair_at(text, k) is Some
}

/// Whether `bytes` is what `text` stands for, pair by pair.
pub open spec fn decodes_to(text: Seq<u8>, bytes: Seq<u8>) -> bool {
    text.len() == 2 * bytes.len() && forall|k: int|
        0 <= k < bytes.len() ==> pair_at(text, k) == Some(bytes[k])
}

/// Why a text is no sequence of hex pairs.
#[derive(Clone, Copy, Debug, PartialEq, Eq, Structural)]
pub enum HexError {
    /// The number of bytes is odd.
    OddLength,
    /// The pair that starts at this byte stands for no byte.
    InvalidDigit { position: usize },
}

/// Why a text is no offset.
#[derive(Clone, Copy, Debug, PartialEq, Eq, Structural)]
pub enum OffsetError {
    /// What follows `0x` is no hexadecimal number that fits in 64 bits.
    InvalidHex,
    /// The text is no decimal number that fits in 64 bits.
    InvalidDecimal,
}

/// The value of an ASCII digit in `radix`, if it is one.
fn digit_of(c: u8, radix: u8) -> (digit: Option<u8>)
    requires
        radix <= 16,
    ensures
        digit == digit_value(c, radix),
{
    if 0x30 <= c && c <= 0x39 && c - 0x30 < radix {
        Some(c - 0x30)
    } else if 0x61 <= c && c <= 0x66 && c - 0x61 + 10 < radix {
        Some(c - 0x61 + 10)
    } else if 0x41 <= c && c <= 0x46 && c - 0x41 + 10 < radix {
        Some(c - 0x41 + 10)
    } else {
        None
    }
}

/// The byte that a pair of characters stands for, if any.
fn pair_of(first: u8, second: u8) -> (byte: Option<u8>)
    ensures
        byte == pair_value(first, second),
{
    match digit_of(second, 16) {
        None => None,
        Some(low) => match digit_of(first, 16) {
            Some(high) => Some(16 * high + low),
            None => if first == 0x2B {
                Some(low)
            } else {
                None
            },
        },
    }
}

/// Reads bytes written as pairs of hex digits.
///
/// Succeeds exactly on the texts whose every pair stands for a byte. On a
/// text of odd length it fails at once; otherwise it fails at the first pair
/// that stands for no byte. A pair that holds a part of a character of more
/// than one byte is such a pair.
pub fn hex_to_bytes(hex: &str) -> (result: Result<Vec<u8>, HexError>)
    ensures
        result is Ok <==> is_hex_text(encode_utf8(hex@)),
        match result {
            Ok(bytes) => decodes_to(encode_utf8(hex@), bytes@),
            Err(HexError::OddLength) => encode_utf8(hex@).len() % 2 == 1,
            Err(HexError::InvalidDigit { position }) => {
                &&& encode_utf8(hex@).len() % 2 == 0
                &&& position % 2 == 0
                &&& position < encode_utf8(hex@).len()
                &&& pair_at(encode_utf8(hex@), position as int / 2) is None
                &&& forall|k: int|
                    0 <= k < position as int / 2 ==> pair_at(encode_utf8(hex@), k) is Some
            },
        },
{
    let text = hex.as_bytes();
    if text.len() % 2 != 0 {
        return Err(HexError::OddLength);
    }
    let mut bytes: Vec<u8> = Vec::with_capacity(text.len() / 2);
    let mut i: usize = 0;
    while i < text.len()
        invariant
            text@ == encode_utf8(hex@),
            text@.len() % 2 == 0,
            i % 2 == 0,
            i <= text@.len(),
            bytes@.len() * 2 == i,
            forall|k: int| 0 <= k < bytes@.len() ==> pair_at(text@, k) == Some(bytes@[k]),
        decreases text@.len() - i,
    {
        match pair_of(text[i], text[i + 1]) {
            Some(byte) => {
                bytes.push(byte);
            },
            None => {
                assert(pair_at(text@, i as int / 2) is None);
                return Err(HexError::InvalidDigit { position: i });
            },
        }
        i += 2;
    }
    Ok(bytes)
}

/// The number that a sequence of digits stands for in `radix`, the most
/// significant digit first. A character that is no digit counts as 0 here;
/// `all_digits` says whether there is one.
pub open spec fn number_value(digits: Seq<u8>, radix: u8) -> nat
    decreases digits.len(),
{
    if digits.len() == 0 {
        0
    } else {
        number_value(digits.drop_last(), radix) * (radix as nat) + (match digit_value(
            digits.last(),
            radix,
        ) {
            Some(digit) => digit as nat,
            None => 0,
        })
    }
}

/// Whether every character is a digit in `radix`.
pub open spec fn all_digits(digits: Seq<u8>, radix: u8) -> bool {
    forall|i: int| 0 <= i < digits.len() ==> digit_value(#[trigger] digits[i], radix) is Some
}

/// The text without the `+` that may stand at its start.
pub open spec fn without_sign(text: Seq<u8>) -> Seq<u8> {
    if text.len() > 0 && text[0] == 0x2B {
        text.skip(1)
    } else {
        text
    }
}

/// The number that `text` stands for in `radix`: an optional `+`, then at
/// least one digit and nothing but digits, with a value that fits in 64
/// bits.
pub open spec fn number_of(text: Seq<u8>, radix: u8) -> Option<u64> {
    let digits = without_sign(text);
    if digits.len() > 0 && all_digits(digits, radix) && number_value(digits, radix) <= u64::MAX {
        Some(number_value(digits, radix) as u64)
    } else {
        None
    }
}

/// Whether `text` starts with `0x` or `0X`.
pub open spec fn has_hex_prefix(text: Seq<u8>) -> bool {
    text.len() >= 2 && text[0] == 0x30 && (text[1] == 0x78 || text[1] == 0x58)
}

/// The offset that `text` stands for: hexadecimal after `0x` or `0X`,
/// decimal otherwise.
pub open spec fn offset_of(text: Seq<u8>) -> Result<u64, OffsetError> {
    if has_hex_prefix(text) {
        match number_of(text.skip(2), 16) {
            Some(value) => Ok(value),
            None => Err(OffsetError::InvalidHex),
        }
    } else {
        match number_of(text, 10) {
            Some(value) => Ok(value),
            None => Err(OffsetError::InvalidDecimal),
        }
    }
}

/// One more digit multiplies the value so far by the radix and adds the
/// digit.
proof fn lemma_number_value_step(digits: Seq<u8>, n: int, radix: u8)
    requires
        0 <= n < digits.len(),
    ensures
        number_value(digits.take(n + 1), radix) == number_value(digits.take(n), radix) * (
        radix as nat) + (match digit_value(digits[n], radix) {
            Some(digit) => digit as nat,
            None => 0,
        }),
{
    assert(digits.take(n + 1).drop_last() =~= digits.take(n));
    assert(digits.take(n + 1).last() == digits[n]);
}

/// More digits never make a number smaller.
proof fn lemma_number_value_grows(digits: Seq<u8>, n: int, radix: u8)
    requires
        0 <= n <= digits.len(),
        radix >= 1,
    ensures
        number_value(digits.take(n), radix) <= number_value(digits, radix),
    decreases digits.len() - n,
{
    if n == digits.len() {
        assert(digits.take(n) =~= digits);
    } else {
        lemma_number_value_step(digits, n, radix);
        lemma_number_value_grows(digits, n + 1, radix);
        let shorter = number_value(digits.take(n), radix);
        assert(shorter <= shorter * (radix as nat)) by (nonlinear_arith)
            requires
                radix >= 1,
        ;
    }
}

/// Reads the number that stands in `text` from `start` on.
fn parse_number(text: &[u8], start: usize, radix: u8) -> (value: Option<u64>)
    requires
        start <= text@.len(),
        1 <= radix <= 16,
    ensures
        value == number_of(text@.skip(start as int), radix),
{
    let mut i: usize = start;
    if i < text.len() && text[i] == 0x2B {
        i += 1;
    }
    let first: usize = i;
    let ghost digits = text@.skip(first as int);
    assert(digits =~= without_sign(text@.skip(start as int)));
    if i == text.len() {
        return None;
    }
    let mut value: u64 = 0;
    assert(digits.take(0) =~= Seq::<u8>::empty());
    while i < text.len()
        invariant
            1 <= radix <= 16,
            first <= i <= text@.len(),
            digits == text@.skip(first as int),
            digits == without_sign(text@.skip(start as int)),
            value == number_value(digits.take(i - first), radix),
            all_digits(digits.take(i - first), radix),
        decreases text@.len() - i,
    {
        proof {
            lemma_number_value_step(digits, i - first, radix);
            lemma_number_value_grows(digits, i - first + 1, radix);
            assert(digits[i - first] == text@[i as int]);
        }
        let digit = match digit_of(text[i], radix) {
            Some(digit) => digit,
            None => {
                return None;
            },
        };
        let scaled = match value.checked_mul(radix as u64) {
            Some(scaled) => scaled,
            None => {
                return None;
            },
        };
        value = match scaled.checked_add(digit as u64) {
            Some(sum) => sum,
            None => {
                return None;
            },
        };
        i += 1;
    }
    assert(digits.take(i - first) =~= digits);
    Some(value)
}

/// Reads an offset: a hexadecimal number after `0x` or `0X`, a decimal
/// number otherwise.
pub fn parse_offset(src: &str) -> (result: Result<u64, OffsetError>)
    ensures
        result == offset_of(encode_utf8(src@)),
{
    let text = src.as_bytes();
    if text.len() >= 2 && text[0] == 0x30 && (text[1] == 0x78 || text[1] == 0x58) {
        match parse_number(text, 2, 16) {
            Some(value) => Ok(value),
            None => Err(OffsetError::InvalidHex),
        }
    } else {
        assert(text@.skip(0) =~= text@);
        match parse_number(text, 0, 10) {
            Some(value) => Ok(value),
            None => Err(OffsetError::InvalidDecimal),
        }
    }
}

/// A hex digit, read back, is the value it was written for.
proof fn lemma_digit_round_trip(nibble: u8)
    requires
        nibble < 16,
    ensures
        '\0' <= hex_digit(nibble) <= '\u{7f}',
        digit_value(hex_digit(nibble) as u8, 16) == Some(nibble),
{
}

/// Reading undoes writing: the lower-case hexadecimal text of any bytes
/// reads back as those bytes.
pub proof fn lemma_hex_round_trip(bytes: Seq<u8>)
    ensures
        is_hex_text(encode_utf8(hex_of(bytes))),
        decodes_to(encode_utf8(hex_of(bytes)), bytes),
{
    let chars = hex_of(bytes);
    assert forall|i: int| 0 <= i < chars.len() implies '\0' <= #[trigger] chars[i]
        <= '\u{7f}' by {
        let byte = bytes[i / 2];
        lemma_digit_round_trip(byte / 16);
        lemma_digit_round_trip(byte % 16);
    }
    assert(is_ascii_chars(chars));
    is_ascii_chars_encode_utf8(chars);
    let text = encode_utf8(chars);
    assert forall|k: int| 0 <= k < bytes.len() implies pair_at(text, k) == Some(bytes[k]) by {
        let byte = bytes[k];
        lemma_digit_round_trip(byte / 16);
        lemma_digit_round_trip(byte % 16);
        assert((2 * k) / 2 == k && (2 * k) % 2 == 0);
        assert((2 * k + 1) / 2 == k && (2 * k + 1) % 2 == 1);
        assert(chars[2 * k] == hex_digit(byte / 16));
        assert(chars[2 * k + 1] == hex_digit(byte % 16));
        assert(text[2 * k] == chars[2 * k] as u8);
        assert(text[2 * k + 1] == chars[2 * k + 1] as u8);
        assert(16 * (byte / 16) + byte % 16 == byte);
    }
}

} // verus!
