use streamchat::render::{hex_string, is_printable_ascii, printable_text};

#[test]
fn printable_ascii_runs_from_space_to_tilde() {
    assert_eq!(is_printable_ascii(0x1f), false);
    assert_eq!(is_printable_ascii(0x20), true);
    assert_eq!(is_printable_ascii(b'A'), true);
    assert_eq!(is_printable_ascii(0x7e), true);
    assert_eq!(is_printable_ascii(0x7f), false);
    assert_eq!(is_printable_ascii(0), false);
    assert_eq!(is_printable_ascii(0xff), false);
    assert_eq!(is_printable_ascii(b'\n'), false);
}

#[test]
fn printable_ascii_counts_95_bytes() {
    let mut count = 0;
    for byte in 0..=255u8 {
        if is_printable_ascii(byte) {
            count += 1;
        }
    }
    assert_eq!(count, 95);
}

#[test]
fn hex_is_lower_case_two_digits_a_byte() {
    assert_eq!(hex_string(&[]), "");
    assert_eq!(hex_string(&[0]), "00");
    assert_eq!(hex_string(&[0x0a]), "0a");
    assert_eq!(hex_string(&[0xa0]), "a0");
    assert_eq!(hex_string(&[0x54, 0xa0, 0x76, 0x27, 0x47]), "54a0762747");
    assert_eq!(hex_string(&[0x01, 0x23, 0x45, 0x67, 0x89, 0xab, 0xcd, 0xef]), "0123456789abcdef");
    assert_eq!(hex_string(&[0xff, 0x09, 0x9f, 0xf9]), "ff099ff9");
}

#[test]
fn hex_agrees_with_the_standard_formatting() {
    for byte in 0..=255u8 {
        assert_eq!(hex_string(&[byte]), format!("{:02x}", byte));
    }
}

#[test]
fn bytes_outside_printable_ascii_show_as_dots() {
    assert_eq!(printable_text(&[]), "");
    assert_eq!(printable_text(b"hello"), "hello");
    assert_eq!(printable_text(b"a\nb"), "a.b");
    assert_eq!(printable_text(&[0x00, 0x1f, 0x20, 0x7e, 0x7f, 0x80, 0xff]), ".. ~...");
    assert_eq!(printable_text(&[0x68, 0xc3, 0xa9]), "h..");
}
