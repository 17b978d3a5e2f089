use streamchat::hex::{hex_to_bytes, parse_offset, HexError, OffsetError};
use streamchat::render::hex_string;

#[test]
fn pairs_of_digits_are_bytes() {
    assert_eq!(hex_to_bytes("48656c6c6f"), Ok(b"Hello".to_vec()));
    assert_eq!(hex_to_bytes("00ff"), Ok(vec![0x00, 0xff]));
    assert_eq!(hex_to_bytes("DEADbeef"), Ok(vec![0xde, 0xad, 0xbe, 0xef]));
    assert_eq!(hex_to_bytes("0123456789abcdefABCDEF"), Ok(vec![
        0x01, 0x23, 0x45, 0x67, 0x89, 0xab, 0xcd, 0xef, 0xab, 0xcd, 0xef
    ]));
}

#[test]
fn the_empty_text_is_no_bytes() {
    assert_eq!(hex_to_bytes(""), Ok(Vec::new()));
}

#[test]
fn an_odd_length_is_refused() {
    assert_eq!(hex_to_bytes("a"), Err(HexError::OddLength));
    assert_eq!(hex_to_bytes("abc"), Err(HexError::OddLength));
    assert_eq!(hex_to_bytes("zzz"), Err(HexError::OddLength));
}

#[test]
fn the_first_bad_pair_is_reported() {
    assert_eq!(hex_to_bytes("zz"), Err(HexError::InvalidDigit { position: 0 }));
    assert_eq!(hex_to_bytes("00g0"), Err(HexError::InvalidDigit { position: 2 }));
    assert_eq!(hex_to_bytes("000g"), Err(HexError::InvalidDigit { position: 2 }));
    assert_eq!(hex_to_bytes("0011xx22yy"), Err(HexError::InvalidDigit { position: 4 }));
    assert_eq!(hex_to_bytes("12 4"), Err(HexError::InvalidDigit { position: 2 }));
    assert_eq!(hex_to_bytes("0x12"), Err(HexError::InvalidDigit { position: 0 }));
    assert_eq!(hex_to_bytes("-1"), Err(HexError::InvalidDigit { position: 0 }));
    assert_eq!(hex_to_bytes("1+"), Err(HexError::InvalidDigit { position: 0 }));
    assert_eq!(hex_to_bytes("++"), Err(HexError::InvalidDigit { position: 0 }));
}

#[test]
fn a_plus_may_stand_for_the_high_digit() {
    assert_eq!(hex_to_bytes("+f"), Ok(vec![0x0f]));
    assert_eq!(hex_to_bytes("10+a"), Ok(vec![0x10, 0x0a]));
    assert_eq!(u8::from_str_radix("+f", 16), Ok(0x0f));
}

#[test]
fn pairs_agree_with_the_standard_parser() {
    let alphabet = ['0', '9', 'a', 'f', 'g', 'A', 'F', 'G', '+', '-', ' ', '/', ':', '@', '`'];
    for first in alphabet {
        for second in alphabet {
            let text: String = [first, second].iter().collect();
            let expected = u8::from_str_radix(&text, 16).ok();
            assert_eq!(hex_to_bytes(&text).ok(), expected.map(|byte| vec![byte]));
        }
    }
}

#[test]
fn characters_of_several_bytes_are_no_digits() {
    assert_eq!(hex_to_bytes("\u{e9}"), Err(HexError::InvalidDigit { position: 0 }));
    assert_eq!(hex_to_bytes("00\u{e9}"), Err(HexError::InvalidDigit { position: 2 }));
    assert_eq!(hex_to_bytes("a\u{e9}1"), Err(HexError::InvalidDigit { position: 0 }));
}

#[test]
fn reading_undoes_writing() {
    let all: Vec<u8> = (0..=255u8).collect();
    assert_eq!(hex_to_bytes(&hex_string(&all)), Ok(all));
}

#[test]
fn decimal_offsets() {
    assert_eq!(parse_offset("0"), Ok(0));
    assert_eq!(parse_offset("42"), Ok(42));
    assert_eq!(parse_offset("007"), Ok(7));
    assert_eq!(parse_offset("+5"), Ok(5));
    assert_eq!(parse_offset("18446744073709551615"), Ok(u64::MAX));
}

#[test]
fn hexadecimal_offsets() {
    assert_eq!(parse_offset("0x0"), Ok(0));
    assert_eq!(parse_offset("0x1F"), Ok(31));
    assert_eq!(parse_offset("0XfF"), Ok(255));
    assert_eq!(parse_offset("0x+ff"), Ok(255));
    assert_eq!(parse_offset("0x00000010"), Ok(16));
    assert_eq!(parse_offset("0xFFFFFFFFFFFFFFFF"), Ok(u64::MAX));
    assert_eq!(parse_offset("0x0000000000000000000001"), Ok(1));
}

#[test]
fn offsets_that_are_no_decimal_numbers() {
    for text in ["", "+", "abc", "12a", "-1", " 1", "1 ", "1_000", "++1", "1+", "x10", "1x0",
        "18446744073709551616", "99999999999999999999999", "\u{e9}"]
    {
        assert_eq!(parse_offset(text), Err(OffsetError::InvalidDecimal));
        assert_eq!(text.parse::<u64>().is_err(), true);
    }
}

#[test]
fn offsets_that_are_no_hexadecimal_numbers() {
    for text in ["0x", "0X", "0x+", "0xg", "0x1g", "0x-1", "0x 1", "0x0x1", "0x10000000000000000",
        "0xFFFFFFFFFFFFFFFFF", "0x\u{e9}"]
    {
        assert_eq!(parse_offset(text), Err(OffsetError::InvalidHex));
        assert_eq!(u64::from_str_radix(&text[2..], 16).is_err(), true);
    }
}

#[test]
fn offsets_agree_with_the_standard_parser() {
    for text in ["0", "9", "10", "0x10", "0Xa", "a", "0xa", "00x1", "+0x1", "0x+0", "1e3",
        "4294967296", "0x100000000"]
    {
        let expected = if text.starts_with("0x") || text.starts_with("0X") {
            u64::from_str_radix(&text[2..], 16).ok()
        } else {
            text.parse::<u64>().ok()
        };
        assert_eq!(parse_offset(text).ok(), expected);
    }
}
