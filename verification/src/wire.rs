//! The handshake's wire format: one unsigned 64-bit integer as 8 bytes, the
//! most significant byte first.

use vstd::prelude::*;

verus! {

/// Number of bytes of an encoded public value.
pub const PUBLIC_VALUE_LEN: usize = 8;

/// The 8 big-endian bytes of `value`.
pub open spec fn be_bytes(value: u64) -> Seq<u8> {
    seq![
        ((value / 0x100_0000_0000_0000) % 0x100) as u8,
        ((value / 0x1_0000_0000_0000) % 0x100) as u8,
        ((value / 0x100_0000_0000) % 0x100) as u8,
        ((value / 0x1_0000_0000) % 0x100) as u8,
        ((value / 0x100_0000) % 0x100) as u8,
        ((value / 0x1_0000) % 0x100) as u8,
        ((value / 0x100) % 0x100) as u8,
        (value % 0x100) as u8,
    ]
}

/// The integer that 8 bytes stand for, the most significant byte first.
pub open spec fn be_value(bytes: Seq<u8>) -> nat
    recommends
        bytes.len() == 8,
{
    (bytes[0] * 0x100_0000_0000_0000 + bytes[1] * 0x1_0000_0000_0000 + bytes[2] * 0x100_0000_0000
        + bytes[3] * 0x1_0000_0000 + bytes[4] * 0x100_0000 + bytes[5] * 0x1_0000 + bytes[6] * 0x100
        + bytes[7]) as nat
}

/// Encodes a public value for the wire.
pub fn encode_public(value: u64) -> (bytes: [u8; 8])
    ensures
        bytes@ == be_bytes(value),
{
    let bytes: [u8; 8] = [
        ((value >> 56) & 0xFF) as u8,
        ((value >> 48) & 0xFF) as u8,
        ((value >> 40) & 0xFF) as u8,
        ((value >> 32) & 0xFF) as u8,
        ((value >> 24) & 0xFF) as u8,
        ((value >> 16) & 0xFF) as u8,
        ((value >> 8) & 0xFF) as u8,
        (value & 0xFF) as u8,
    ];
    proof {
        assert((value >> 56) & 0xFF == (value / 0x100_0000_0000_0000) % 0x100) by (bit_vector);
        assert((value >> 48) & 0xFF == (value / 0x1_0000_0000_0000) % 0x100) by (bit_vector);
        assert((value >> 40) & 0xFF == (value / 0x100_0000_0000) % 0x100) by (bit_vector);
        assert((value >> 32) & 0xFF == (value / 0x1_0000_0000) % 0x100) by (bit_vector);
        assert((value >> 24) & 0xFF == (value / 0x100_0000) % 0x100) by (bit_vector);
        assert((value >> 16) & 0xFF == (value / 0x1_0000) % 0x100) by (bit_vector);
        assert((value >> 8) & 0xFF == (value / 0x100) % 0x100) by (bit_vector);
        assert(value & 0xFF == value % 0x100) by (bit_vector);
        assert(bytes@ =~= be_bytes(value));
    }
    bytes
}

/// Decodes a public value from the wire.
pub fn decode_public(bytes: &[u8; 8]) -> (value: u64)
    ensures
        value == be_value(bytes@),
{
    let b0: u64 = bytes[0] as u64;
    let b1: u64 = bytes[1] as u64;
    let b2: u64 = bytes[2] as u64;
    let b3: u64 = bytes[3] as u64;
    let b4: u64 = bytes[4] as u64;
    let b5: u64 = bytes[5] as u64;
    let b6: u64 = bytes[6] as u64;
    let b7: u64 = bytes[7] as u64;
    proof {
        assert((b0 << 56) | (b1 << 48) | (b2 << 40) | (b3 << 32) | (b4 << 24) | (b5 << 16) | (b6
            << 8) | b7 == b0 * 0x100_0000_0000_0000 + b1 * 0x1_0000_0000_0000 + b2 * 0x100_0000_0000
            + b3 * 0x1_0000_0000 + b4 * 0x100_0000 + b5 * 0x1_0000 + b6 * 0x100 + b7)
            by (bit_vector)
            requires
                b0 < 0x100,
                b1 < 0x100,
                b2 < 0x100,
                b3 < 0x100,
                b4 < 0x100,
                b5 < 0x100,
                b6 < 0x100,
                b7 < 0x100,
        ;
    }
    (b0 << 56) | (b1 << 48) | (b2 << 40) | (b3 << 32) | (b4 << 24) | (b5 << 16) | (b6 << 8) | b7
}

/// Decoding undoes encoding: every value survives the wire.
pub proof fn lemma_decode_encode(value: u64)
    ensures
        be_bytes(value).len() == 8,
        be_value(be_bytes(value)) == value,
{
    assert(((value / 0x100_0000_0000_0000) % 0x100) * 0x100_0000_0000_0000 + ((value
        / 0x1_0000_0000_0000) % 0x100) * 0x1_0000_0000_0000 + ((value / 0x100_0000_0000) % 0x100)
        * 0x100_0000_0000 + ((value / 0x1_0000_0000) % 0x100) * 0x1_0000_0000 + ((value
        / 0x100_0000) % 0x100) * 0x100_0000 + ((value / 0x1_0000) % 0x100) * 0x1_0000 + ((value
        / 0x100) % 0x100) * 0x100 + value % 0x100 == value) by (bit_vector);
}

/// Encoding undoes decoding: 8 bytes stand for one value only.
pub proof fn lemma_encode_decode(bytes: Seq<u8>)
    requires
        bytes.len() == 8,
    ensures
        be_value(bytes) <= u64::MAX,
        be_bytes(be_value(bytes) as u64) == bytes,
{
    let b0 = bytes[0];
    let b1 = bytes[1];
    let b2 = bytes[2];
    let b3 = bytes[3];
    let b4 = bytes[4];
    let b5 = bytes[5];
    let b6 = bytes[6];
    let b7 = bytes[7];
    let value: u64 = be_value(bytes) as u64;
    assert(be_value(bytes) <= u64::MAX);
    assert((value / 0x100_0000_0000_0000) % 0x100 == b0 && (value / 0x1_0000_0000_0000) % 0x100
        == b1 && (value / 0x100_0000_0000) % 0x100 == b2 && (value / 0x1_0000_0000) % 0x100 == b3
        && (value / 0x100_0000) % 0x100 == b4 && (value / 0x1_0000) % 0x100 == b5 && (value
        / 0x100) % 0x100 == b6 && value % 0x100 == b7) by (bit_vector)
        requires
            value == b0 * 0x100_0000_0000_0000 + b1 * 0x1_0000_0000_0000 + b2 * 0x100_0000_0000
                + b3 * 0x1_0000_0000 + b4 * 0x100_0000 + b5 * 0x1_0000 + b6 * 0x100 + b7,
    ;
    assert(be_bytes(value) =~= bytes);
}

} // verus!
