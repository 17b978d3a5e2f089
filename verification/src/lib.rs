//! A peer-to-peer stream-cipher chat session: a Diffie-Hellman style key
//! agreement, a linear congruential keystream, XOR cipher sessions with
//! forward-only cursors, and the session's state machine.
//!
//! Everything here is pure logic on plain values. Sockets, the console and
//! threads belong to the program that drives these functions.

pub mod chat;
pub mod cipher;
pub mod handshake;
pub mod hex;
pub mod keystream;
pub mod modular;
pub mod render;
pub mod session;
pub mod wire;
