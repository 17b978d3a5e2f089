//! XOR cipher sessions: a keystream generator with a cursor that only moves
//! forward, one session for each direction of a conversation.

use crate::keystream::{
    keystream, keystream_byte, lemma_keystream_ranges_adjoin, KeystreamGenerator,
};
use vstd::prelude::*;

verus! {

/// Byte-wise XOR of `data` with the key bytes at the same positions.
pub open spec fn xor_bytes(data: Seq<u8>, key: Seq<u8>) -> Seq<u8>
    recommends
        data.len() == key.len(),
{
    Seq::new(data.len(), |i: int| data[i] ^ key[i])
}

/// What `data` becomes under the keystream of `seed` from `position` on.
/// Encryption and decryption are this one function.
pub open spec fn cipher_text(seed: u64, position: nat, data: Seq<u8>) -> Seq<u8> {
    xor_bytes(data, keystream(seed, position, data.len()))
}

/// XORs `data` with the next bytes of `keystream` and returns the result
/// together with the key bytes used, in order.
///
/// The cursor is the caller's to keep: the stream cannot be rewound, so the
/// key bytes are the ones at which the generator stands, whatever
/// `keystream_pos` says.
#[allow(unused_variables)]
pub fn xor_cipher(data: &[u8], keystream: &mut KeystreamGenerator, keystream_pos: usize) -> (out: (
    Vec<u8>,
    Vec<u8>,
))
    ensures
        final(keystream).wf(),
        final(keystream).seed() == old(keystream).seed(),
        final(keystream).produced() == old(keystream).produced() + data@.len(),
        out.1@ == self::keystream(
            old(keystream).seed(),
            old(keystream).produced(),
            data@.len(),
        ),
        out.0@ == xor_bytes(data@, out.1@),
{
    let ghost seed = keystream.seed();
    let ghost start = keystream.produced();
    let mut key_bytes: Vec<u8> = Vec::with_capacity(data.len());
    let mut cipher_bytes: Vec<u8> = Vec::with_capacity(data.len());
    let mut i: usize = 0;
    while i < data.len()
        invariant
            i <= data@.len(),
            keystream.seed() == seed,
            keystream.produced() == start + i,
            key_bytes@.len() == i,
            cipher_bytes@.len() == i,
            forall|j: int| 0 <= j < i ==> key_bytes@[j] == keystream_byte(seed, (start + j) as nat),
            forall|j: int| 0 <= j < i ==> cipher_bytes@[j] == data@[j] ^ key_bytes@[j],
        decreases data@.len() - i,
    {
        let key_byte = keystream.next();
        key_bytes.push(key_byte);
        cipher_bytes.push(data[i] ^ key_byte);
        i += 1;
    }
    proof {
        use_type_invariant(&*keystream);
        assert(key_bytes@ =~= self::keystream(seed, start, data@.len()));
        assert(cipher_bytes@ =~= xor_bytes(data@, key_bytes@));
    }
    (cipher_bytes, key_bytes)
}

/// One direction of a conversation: a keystream generator and the number of
/// keystream bytes consumed so far.
pub struct CipherSession {
    generator: KeystreamGenerator,
    position: usize,
}

impl CipherSession {
    /// The seed of the session's keystream.
    pub closed spec fn seed(&self) -> u64 {
        self.generator.seed()
    }

    /// The number of keystream bytes consumed so far.
    pub closed spec fn position(&self) -> nat {
        self.position as nat
    }

    /// The generator stands exactly at the session's position.
    #[verifier::type_invariant]
    pub closed spec fn wf(&self) -> bool {
        self.generator.wf() && self.generator.produced() == self.position
    }

    /// A session at position 0 of the keystream of `seed`.
    pub fn new(seed: u64) -> (session: Self)
        ensures
            session.wf(),
            session.seed() == seed,
            session.position() == 0,
    {
        CipherSession { generator: KeystreamGenerator::new(seed), position: 0 }
    }

    /// XORs `data` with the keystream bytes at the cursor and moves the
    /// cursor past them. Returns the result and the key bytes used.
    fn combine(&mut self, data: &[u8]) -> (out: (Vec<u8>, Vec<u8>))
        requires
            old(self).position() + data@.len() <= usize::MAX,
        ensures
            final(self).wf(),
            final(self).seed() == old(self).seed(),
            final(self).position() == old(self).position() + data@.len(),
            out.1@ == keystream(old(self).seed(), old(self).position(), data@.len()),
            out.0@ == cipher_text(old(self).seed(), old(self).position(), data@),
    {
        proof {
            use_type_invariant(&*self);
        }
        let mut generator = self.generator.fork();
        let out = xor_cipher(data, &mut generator, self.position);
        *self = CipherSession { generator, position: self.position + data.len() };
        out
    }

    /// Encrypts `plaintext` with the keystream bytes at the cursor. Returns
    /// the ciphertext and the key bytes used; the cursor moves past them.
    pub fn encrypt(&mut self, plaintext: &[u8]) -> (out: (Vec<u8>, Vec<u8>))
        requires
            old(self).position() + plaintext@.len() <= usize::MAX,
        ensures
            final(self).wf(),
            final(self).seed() == old(self).seed(),
            final(self).position() == old(self).position() + plaintext@.len(),
            out.1@ == keystream(old(self).seed(), old(self).position(), plaintext@.len()),
            out.0@ == cipher_text(old(self).seed(), old(self).position(), plaintext@),
    {
        self.combine(plaintext)
    }

    /// Decrypts `ciphertext` with the keystream bytes at the cursor. Returns
    /// the plaintext and the key bytes used; the cursor moves past them.
    pub fn decrypt(&mut self, ciphertext: &[u8]) -> (out: (Vec<u8>, Vec<u8>))
        requires
            old(self).position() + ciphertext@.len() <= usize::MAX,
        ensures
            final(self).wf(),
            final(self).seed() == old(self).seed(),
            final(self).position() == old(self).position() + ciphertext@.len(),
            out.1@ == keystream(old(self).seed(), old(self).position(), ciphertext@.len()),
            out.0@ == cipher_text(old(self).seed(), old(self).position(), ciphertext@),
    {
        self.combine(ciphertext)
    }

    /// The number of keystream bytes consumed so far.
    pub fn position_value(&self) -> (position: usize)
        ensures
            position == self.position(),
    {
        self.position
    }

    /// The seed of the session's keystream.
    pub fn seed_value(&self) -> (seed: u64)
        ensures
            seed == self.seed(),
    {
        self.generator.seed_value()
    }
}

/// XOR with a key byte undoes itself.
pub proof fn lemma_xor_round_trip(message: u8, key: u8)
    ensures
        (message ^ key) ^ key == message,
{
    assert((message ^ key) ^ key == message) by (bit_vector);
}

/// XOR with a key of the data's length undoes itself, byte by byte.
pub proof fn lemma_xor_bytes_round_trip(data: Seq<u8>, key: Seq<u8>)
    requires
        data.len() == key.len(),
    ensures
        xor_bytes(xor_bytes(data, key), key) == data,
{
    assert forall|i: int| 0 <= i < data.len() implies xor_bytes(xor_bytes(data, key), key)[i]
        == data[i] by {
        lemma_xor_round_trip(data[i], key[i]);
    }
    assert(xor_bytes(xor_bytes(data, key), key) =~= data);
}

/// What one session encrypts, a session with the same seed at the same
/// position decrypts.
pub proof fn lemma_cipher_round_trip(seed: u64, position: nat, data: Seq<u8>)
    ensures
        cipher_text(seed, position, cipher_text(seed, position, data)) == data,
{
    let key = keystream(seed, position, data.len());
    assert(cipher_text(seed, position, data).len() == data.len());
    lemma_xor_bytes_round_trip(data, key);
}

/// No key reuse: two messages encrypted one after the other from `position`
/// consume the keystream ranges `[position, position + |first|)` and
/// `[position + |first|, position + |first| + |second|)`, so that the two
/// ciphertexts together are the ciphertext of the joined message.
pub proof fn lemma_successive_messages(seed: u64, position: nat, first: Seq<u8>, second: Seq<u8>)
    ensures
        keystream(seed, position, first.len()) + keystream(
            seed,
            position + first.len(),
            second.len(),
        ) == keystream(seed, position, first.len() + second.len()),
        cipher_text(seed, position, first) + cipher_text(seed, position + first.len(), second)
            == cipher_text(seed, position, first + second),
{
    lemma_keystream_ranges_adjoin(seed, position, first.len(), second.len());
    assert(cipher_text(seed, position, first) + cipher_text(seed, position + first.len(), second)
        =~= cipher_text(seed, position, first + second));
}

} // verus!
