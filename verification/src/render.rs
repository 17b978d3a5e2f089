//! Rendering of bytes for the operator: lower-case hexadecimal, and text in
//! which every byte outside printable ASCII shows as a dot.

use vstd::prelude::*;

verus! {

/// Whether `byte` is a printable ASCII character, the space included.
pub fn is_printable_ascii(byte: u8) -> (printable: bool)
    ensures
        printable == (0x20 <= byte && byte <= 0x7E),
{
    byte >= 0x20 && byte <= 0x7E
}

/// The lower-case hexadecimal digit of a value below 16.
pub open spec fn hex_digit(nibble: u8) -> char
    recommends
        nibble < 16,
{
    if nibble < 10 {
        (0x30 + nibble) as char
    } else {
        (0x57 + nibble) as char
    }
}

/// Two lower-case hexadecimal digits for each byte, the high digit first.
pub open spec fn hex_of(bytes: Seq<u8>) -> Seq<char> {
    Seq::new(
        2 * bytes.len(),
        |i: int|
            if i % 2 == 0 {
                hex_digit(bytes[i / 2] / 16)
            } else {
                hex_digit(bytes[i / 2] % 16)
            },
    )
}

/// The character that shows for a byte: itself if it is printable ASCII, a
/// dot if it is not.
pub open spec fn shown_char(byte: u8) -> char {
    if 0x20 <= byte && byte <= 0x7E {
        byte as char
    } else {
        '.'
    }
}

/// One character for each byte, as `shown_char` gives it.
pub open spec fn shown_of(bytes: Seq<u8>) -> Seq<char> {
    Seq::new(bytes.len(), |i: int| shown_char(bytes[i]))
}

/// Appends one character to a string with `String::push` of the standard
/// library: the string afterwards is the string before, followed by `c`.
#[verifier::external_body]
fn push_char(text: &mut String, c: char)
    ensures
        final(text)@ == old(text)@.push(c),
{
    text.push(c);
}

/// The lower-case hexadecimal digit of a value below 16.
fn hex_digit_char(nibble: u8) -> (digit: char)
    requires
        nibble < 16,
    ensures
        digit == hex_digit(nibble),
{
    if nibble < 10 {
        (0x30 + nibble) as char
    } else {
        (0x57 + nibble) as char
    }
}

/// Renders `bytes` as lower-case hexadecimal, two digits a byte, with
/// nothing between the bytes.
pub fn hex_string(bytes: &[u8]) -> (text: String)
    ensures
        text@ == hex_of(bytes@),
{
    let mut text = String::new();
    let mut i: usize = 0;
    while i < bytes.len()
        invariant
            i <= bytes@.len(),
            text@ == hex_of(bytes@.take(i as int)),
        decreases bytes@.len() - i,
    {
        let byte = bytes[i];
        push_char(&mut text, hex_digit_char(byte / 16));
        push_char(&mut text, hex_digit_char(byte % 16));
        i += 1;
        assert(text@ =~= hex_of(bytes@.take(i as int)));
    }
    assert(bytes@.take(i as int) =~= bytes@);
    text
}

/// Renders `bytes` as text: printable ASCII as it is, every other byte as a
/// dot.
pub fn printable_text(bytes: &[u8]) -> (text: String)
    ensures
        text@ == shown_of(bytes@),
{
    let mut text = String::new();
    let mut i: usize = 0;
    while i < bytes.len()
        invariant
            i <= bytes@.len(),
            text@ == shown_of(bytes@.take(i as int)),
        decreases bytes@.len() - i,
    {
        let byte = bytes[i];
        let shown = if is_printable_ascii(byte) {
            byte as char
        } else {
            '.'
        };
        push_char(&mut text, shown);
        i += 1;
        assert(text@ =~= shown_of(bytes@.take(i as int)));
    }
    assert(bytes@.take(i as int) =~= bytes@);
    text
}

} // verus!
