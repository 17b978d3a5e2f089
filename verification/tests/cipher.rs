use streamchat::cipher::{xor_cipher, CipherSession};
use streamchat::keystream::lcg_keystream;

#[test]
fn xor_with_key_byte_5a() {
    let mut keystream = lcg_keystream(5);
    let (cipher, key) = xor_cipher(&[0x41], &mut keystream, 0);
    assert_eq!(key, vec![0x5a]);
    assert_eq!(cipher, vec![0x1b]);

    let mut again = lcg_keystream(5);
    let (plain, key) = xor_cipher(&cipher, &mut again, 0);
    assert_eq!(key, vec![0x5a]);
    assert_eq!(plain, vec![0x41]);
}

#[test]
fn xor_cipher_reports_the_key_bytes_it_used() {
    let mut keystream = lcg_keystream(47);
    let (cipher, key) = xor_cipher(b"hello", &mut keystream, 0);
    assert_eq!(key, vec![0x3c, 0xc5, 0x1a, 0x4b, 0x28]);
    assert_eq!(cipher, vec![0x54, 0xa0, 0x76, 0x27, 0x47]);
}

#[test]
fn xor_cipher_goes_by_the_generator_not_by_the_cursor() {
    let mut keystream = lcg_keystream(47);
    let _ = keystream.take(5);
    let (cipher, key) = xor_cipher(b"hi!", &mut keystream, 0);
    assert_eq!(key, vec![0x41, 0xe6, 0x27]);
    assert_eq!(cipher, vec![0x29, 0x8f, 0x06]);
}

#[test]
fn xor_cipher_of_nothing_uses_no_key() {
    let mut keystream = lcg_keystream(47);
    let (cipher, key) = xor_cipher(&[], &mut keystream, 0);
    assert_eq!(cipher, Vec::<u8>::new());
    assert_eq!(key, Vec::<u8>::new());
    assert_eq!(keystream.next(), 0x3c);
}

#[test]
fn a_new_session_stands_at_zero() {
    let session = CipherSession::new(47);
    assert_eq!(session.position_value(), 0);
    assert_eq!(session.seed_value(), 47);
}

#[test]
fn successive_messages_use_adjacent_key_ranges() {
    let mut session = CipherSession::new(47);
    let (first_cipher, first_key) = session.encrypt(b"hello");
    assert_eq!(session.position_value(), 5);
    let (second_cipher, second_key) = session.encrypt(b"hi!");
    assert_eq!(session.position_value(), 8);

    let stream = lcg_keystream(47).take(8);
    assert_eq!(first_key[..], stream[..5]);
    assert_eq!(second_key[..], stream[5..]);
    assert_eq!(first_cipher, vec![0x54, 0xa0, 0x76, 0x27, 0x47]);
    assert_eq!(second_cipher, vec![0x29, 0x8f, 0x06]);

    let mut joined = CipherSession::new(47);
    let (cipher, key) = joined.encrypt(b"hellohi!");
    assert_eq!(cipher, [first_cipher, second_cipher].concat());
    assert_eq!(key, [first_key, second_key].concat());
}

#[test]
fn decrypt_undoes_encrypt_at_the_same_position() {
    let mut sender = CipherSession::new(0xC7EC_BC12_064E_3747);
    let mut receiver = CipherSession::new(0xC7EC_BC12_064E_3747);
    for message in [&b"first"[..], &b""[..], &b"second message"[..], &[0u8, 255, 128, 7][..]] {
        let (cipher, sent_key) = sender.encrypt(message);
        let (plain, received_key) = receiver.decrypt(&cipher);
        assert_eq!(plain, message);
        assert_eq!(sent_key, received_key);
        assert_eq!(sender.position_value(), receiver.position_value());
    }
    assert_eq!(sender.position_value(), 23);
}

#[test]
fn the_two_directions_move_on_their_own() {
    let mut send = CipherSession::new(47);
    let mut receive = CipherSession::new(47);
    let _ = send.encrypt(b"hello");
    let (_, key) = receive.decrypt(&[0x54]);
    assert_eq!(key, vec![0x3c]);
    assert_eq!(send.position_value(), 5);
    assert_eq!(receive.position_value(), 1);
    assert_eq!(send.seed_value(), receive.seed_value());
}

#[test]
fn an_empty_message_leaves_the_cursor() {
    let mut session = CipherSession::new(47);
    let (cipher, key) = session.encrypt(&[]);
    assert_eq!(cipher.len(), 0);
    assert_eq!(key.len(), 0);
    assert_eq!(session.position_value(), 0);
}
