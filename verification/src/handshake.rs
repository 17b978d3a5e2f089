//! The key agreement: each side draws a private exponent, sends `g^private`
//! and raises what it receives to its own private exponent.
//!
//! The exchange runs over one duplex connection, so the two sides must not
//! both wait for the other: the initiator sends first, the responder receives
//! first. `Handshake` holds that order as a state machine. It performs no
//! I/O: it says what to do next and is told what happened.

use crate::modular::{
    lemma_power_mod_commutes, lemma_power_mod_is_reduced_power, mod_pow, power_mod,
};
use crate::wire::{be_bytes, be_value, decode_public, encode_public, lemma_decode_encode};
use vstd::prelude::*;

verus! {

/// The modulus that both sides use.
pub const P: u64 = 0xD87F_AE3E_291B_4C7F;

/// The generator that both sides use.
pub const G: u64 = 2;

/// The public value that belongs to a private exponent: `g^private mod p`.
pub open spec fn public_of(private: u64) -> u64 {
    power_mod(G as nat, private as nat, P as nat) as u64
}

/// The secret that a side derives from the peer's public value and its own
/// private exponent: `peer_public^private mod p`.
pub open spec fn secret_of(peer_public: u64, private: u64) -> u64 {
    power_mod(peer_public as nat, private as nat, P as nat) as u64
}

/// Which side of the exchange a party plays. It decides who sends first.
#[derive(Clone, Copy, Debug, PartialEq, Eq, Structural)]
pub enum Role {
    /// Sends its public value, then receives the peer's.
    Initiator,
    /// Receives the peer's public value, then sends its own.
    Responder,
}

/// Draws 64 random bits from the thread-local generator of the `rand` crate
/// (`rand::thread_rng()`, sampled with `Rng::gen`). Nothing is claimed of the
/// value: every `u64` may come back. The generator seeds itself from the
/// operating system on first use and panics if that source cannot be read.
#[verifier::external_body]
fn random_u64() -> (value: u64) {
    rand::Rng::gen::<u64>(&mut rand::thread_rng())
}

/// A private exponent and the public value that belongs to it.
#[derive(Clone, Copy)]
pub struct KeyPair {
    private: u64,
    public: u64,
}

impl KeyPair {
    /// The private exponent.
    pub closed spec fn private(&self) -> u64 {
        self.private
    }

    /// The public value.
    pub closed spec fn public(&self) -> u64 {
        self.public
    }

    /// The public value is the generator raised to the private exponent.
    #[verifier::type_invariant]
    pub open spec fn wf(&self) -> bool {
        self.public() == public_of(self.private())
    }

    /// The key pair of a given private exponent.
    pub fn from_private(private: u64) -> (keys: Self)
        ensures
            keys.wf(),
            keys.private() == private,
            keys.public() == public_of(private),
    {
        KeyPair { private, public: mod_pow(G, private, P) }
    }

    /// A key pair with a private exponent drawn at random from the whole
    /// 64-bit range.
    pub fn generate() -> (keys: Self)
        ensures
            keys.wf(),
    {
        KeyPair::from_private(random_u64())
    }

    /// The private exponent.
    pub fn private_value(&self) -> (private: u64)
        ensures
            private == self.private(),
    {
        self.private
    }

    /// The public value.
    pub fn public_value(&self) -> (public: u64)
        ensures
            public == self.public(),
            public == public_of(self.private()),
    {
        proof {
            use_type_invariant(self);
        }
        self.public
    }

    /// The secret shared with the peer whose public value is `peer_public`.
    pub fn shared_secret(&self, peer_public: u64) -> (secret: u64)
        ensures
            secret == secret_of(peer_public, self.private()),
    {
        mod_pow(peer_public, self.private, P)
    }
}

/// Where an exchange stands.
#[derive(Clone, Copy, Debug, PartialEq, Eq, Structural)]
pub enum Phase {
    /// The own public value is to be written to the connection.
    Sending,
    /// The peer's public value is to be read from the connection.
    Receiving,
    /// Both values have crossed; the secret is known.
    Established,
    /// The connection failed or the driver broke the order. Final.
    Failed,
}

/// What the driver reports to the exchange.
#[derive(Clone, Copy, Debug, PartialEq, Eq)]
pub enum HandshakeEvent {
    /// The 8 bytes handed out for sending were written in full.
    Sent,
    /// These 8 bytes were read from the peer.
    Received([u8; 8]),
    /// The connection closed or failed during a write or a read.
    IoFailed,
}

/// What the exchange asks of the driver.
#[derive(Clone, Copy, Debug, PartialEq, Eq)]
pub enum HandshakeAction {
    /// Write these 8 bytes to the connection.
    Send([u8; 8]),
    /// Read exactly 8 bytes from the connection.
    Receive,
    /// The exchange is complete: this is the shared secret.
    Finish(u64),
    /// The exchange failed; there is no retry.
    Abort,
}

/// The state of an exchange as a plain value.
pub struct HandshakeView {
    pub role: Role,
    pub private: u64,
    pub phase: Phase,
    pub peer_public: Option<u64>,
}

impl HandshakeView {
    /// The peer's value is known exactly from the moment it was received: in
    /// `Established`, and while the responder is sending.
    pub open spec fn wf(self) -> bool {
        match self.phase {
            Phase::Sending => (self.peer_public is Some) == (self.role == Role::Responder),
            Phase::Receiving => self.peer_public is None,
            Phase::Established => self.peer_public is Some,
            Phase::Failed => true,
        }
    }
}

/// The state in which an exchange starts: the initiator is to send, the
/// responder is to receive.
pub open spec fn opening(role: Role, private: u64) -> HandshakeView {
    HandshakeView {
        role,
        private,
        phase: match role {
            Role::Initiator => Phase::Sending,
            Role::Responder => Phase::Receiving,
        },
        peer_public: None,
    }
}

/// The state that follows `state` on `event`.
///
/// A pending send is answered by `Sent`, a pending receive by `Received`.
/// Anything else fails the exchange. `Established` and `Failed` are final.
pub open spec fn step(state: HandshakeView, event: HandshakeEvent) -> HandshakeView {
    match (state.phase, event) {
        (Phase::Sending, HandshakeEvent::Sent) => HandshakeView {
            phase: match state.role {
                Role::Initiator => Phase::Receiving,
                Role::Responder => Phase::Established,
            },
            ..state
        },
        (Phase::Receiving, HandshakeEvent::Received(bytes)) => HandshakeView {
            phase: match state.role {
                Role::Initiator => Phase::Established,
                Role::Responder => Phase::Sending,
            },
            peer_public: Some(be_value(bytes@) as u64),
            ..state
        },
        (Phase::Established, _) => state,
        (Phase::Failed, _) => state,
        _ => HandshakeView { phase: Phase::Failed, ..state },
    }
}

/// Whether `action` is what `state` asks of the driver. Each state asks for
/// exactly one action.
pub open spec fn asks(state: HandshakeView, action: HandshakeAction) -> bool {
    match action {
        HandshakeAction::Send(bytes) => state.phase == Phase::Sending && bytes@ == be_bytes(
            public_of(state.private),
        ),
        HandshakeAction::Receive => state.phase == Phase::Receiving,
        HandshakeAction::Finish(secret) => state.phase == Phase::Established && secret
            == secret_of(state.peer_public.unwrap(), state.private),
        HandshakeAction::Abort => state.phase == Phase::Failed,
    }
}

/// One side of a key exchange.
pub struct Handshake {
    role: Role,
    keys: KeyPair,
    phase: Phase,
    peer_public: Option<u64>,
}

impl View for Handshake {
    type V = HandshakeView;

    closed spec fn view(&self) -> HandshakeView {
        HandshakeView {
            role: self.role,
            private: self.keys.private(),
            phase: self.phase,
            peer_public: self.peer_public,
        }
    }
}

impl Handshake {
    #[verifier::type_invariant]
    closed spec fn inv(&self) -> bool {
        self.keys.wf() && self@.wf()
    }

    /// An exchange in its opening state, with the given keys.
    pub fn new(role: Role, keys: KeyPair) -> (handshake: Self)
        ensures
            handshake@ == opening(role, keys.private()),
    {
        proof {
            use_type_invariant(&keys);
        }
        let phase = match role {
            Role::Initiator => Phase::Sending,
            Role::Responder => Phase::Receiving,
        };
        Handshake { role, keys, phase, peer_public: None }
    }

    /// An exchange in its opening state, with a private exponent drawn at
    /// random.
    pub fn begin(role: Role) -> (handshake: Self)
        ensures
            handshake@ == opening(role, handshake@.private),
    {
        Handshake::new(role, KeyPair::generate())
    }

    /// What the driver has to do next.
    pub fn pending(&self) -> (action: HandshakeAction)
        ensures
            self@.wf(),
            asks(self@, action),
    {
        proof {
            use_type_invariant(self);
        }
        match self.phase {
            Phase::Sending => HandshakeAction::Send(encode_public(self.keys.public_value())),
            Phase::Receiving => HandshakeAction::Receive,
            Phase::Established => {
                let peer_public = match self.peer_public {
                    Some(value) => value,
                    None => 0,
                };
                HandshakeAction::Finish(self.keys.shared_secret(peer_public))
            },
            Phase::Failed => HandshakeAction::Abort,
        }
    }

    /// Takes note of what the driver reports and moves to the next state.
    pub fn advance(&mut self, event: HandshakeEvent)
        ensures
            final(self)@ == step(old(self)@, event),
            final(self)@.wf(),
    {
        proof {
            use_type_invariant(&*self);
        }
        let role = self.role;
        let keys = self.keys;
        let (phase, peer_public) = match (self.phase, event) {
            (Phase::Sending, HandshakeEvent::Sent) => {
                let next = match role {
                    Role::Initiator => Phase::Receiving,
                    Role::Responder => Phase::Established,
                };
                (next, self.peer_public)
            },
            (Phase::Receiving, HandshakeEvent::Received(bytes)) => {
                let next = match role {
                    Role::Initiator => Phase::Established,
                    Role::Responder => Phase::Sending,
                };
                (next, Some(decode_public(&bytes)))
            },
            (Phase::Established, _) => (Phase::Established, self.peer_public),
            (Phase::Failed, _) => (Phase::Failed, self.peer_public),
            _ => (Phase::Failed, self.peer_public),
        };
        *self = Handshake { role, keys, phase, peer_public };
    }

    /// The side that this exchange plays.
    pub fn role(&self) -> (role: Role)
        ensures
            role == self@.role,
    {
        self.role
    }

    /// Where the exchange stands.
    pub fn phase(&self) -> (phase: Phase)
        ensures
            phase == self@.phase,
    {
        self.phase
    }

    /// The own public value.
    pub fn public_value(&self) -> (public: u64)
        ensures
            public == public_of(self@.private),
    {
        self.keys.public_value()
    }

    /// The shared secret, once the exchange is established.
    pub fn shared_secret(&self) -> (secret: Option<u64>)
        ensures
            self@.wf(),
            secret is Some <==> self@.phase == Phase::Established,
            secret is Some ==> secret == Some(
                secret_of(self@.peer_public.unwrap(), self@.private),
            ),
    {
        proof {
            use_type_invariant(self);
        }
        match (self.phase, self.peer_public) {
            (Phase::Established, Some(peer_public)) => Some(self.keys.shared_secret(peer_public)),
            _ => None,
        }
    }
}

/// Agreement: for every pair of private exponents, the secret that one side
/// derives from the other's public value is the secret that the other side
/// derives from the first's.
pub proof fn lemma_shared_secret_agrees(a: u64, b: u64)
    ensures
        secret_of(public_of(b), a) == secret_of(public_of(a), b),
{
    lemma_power_mod_is_reduced_power(G as nat, a as nat, P as nat);
    lemma_power_mod_is_reduced_power(G as nat, b as nat, P as nat);
    lemma_power_mod_commutes(G as nat, a as nat, b as nat, P as nat);
}

/// A state asks for one action only: two actions that it asks for are the
/// same action.
pub proof fn lemma_action_is_unique(
    state: HandshakeView,
    first: HandshakeAction,
    second: HandshakeAction,
)
    requires
        asks(state, first),
        asks(state, second),
    ensures
        first == second,
{
    match (first, second) {
        (HandshakeAction::Send(a), HandshakeAction::Send(b)) => {
            assert(a@ =~= b@);
            assert(a == b);
        },
        _ => {},
    }
}

/// Every step leads from a well-formed state to a well-formed state, and
/// keeps the role and the private exponent.
pub proof fn lemma_step_preserves_wf(state: HandshakeView, event: HandshakeEvent)
    requires
        state.wf(),
    ensures
        step(state, event).wf(),
        step(state, event).role == state.role,
        step(state, event).private == state.private,
{
}

/// `Established` and `Failed` are final: no event leads out of them.
pub proof fn lemma_final_phases_absorb(state: HandshakeView, event: HandshakeEvent)
    requires
        state.phase == Phase::Established || state.phase == Phase::Failed,
    ensures
        step(state, event) == state,
{
}

/// A failure of the connection is fatal in every phase that still waits for
/// the connection.
pub proof fn lemma_io_failure_is_fatal(state: HandshakeView)
    requires
        state.phase == Phase::Sending || state.phase == Phase::Receiving,
    ensures
        step(state, HandshakeEvent::IoFailed).phase == Phase::Failed,
{
}

/// The initiator sends, then receives, then knows the secret.
pub proof fn lemma_initiator_sends_first(private: u64, peer: [u8; 8])
    ensures
        ({
            let start = opening(Role::Initiator, private);
            let sent = step(start, HandshakeEvent::Sent);
            let done = step(sent, HandshakeEvent::Received(peer));
            &&& start.phase == Phase::Sending
            &&& sent.phase == Phase::Receiving
            &&& done.phase == Phase::Established
            &&& done.peer_public == Some(be_value(peer@) as u64)
            &&& step(start, HandshakeEvent::Received(peer)).phase == Phase::Failed
        }),
{
}

/// The responder receives, then sends, then knows the secret.
pub proof fn lemma_responder_receives_first(private: u64, peer: [u8; 8])
    ensures
        ({
            let start = opening(Role::Responder, private);
            let received = step(start, HandshakeEvent::Received(peer));
            let done = step(received, HandshakeEvent::Sent);
            &&& start.phase == Phase::Receiving
            &&& received.phase == Phase::Sending
            &&& received.peer_public == Some(be_value(peer@) as u64)
            &&& done.phase == Phase::Established
            &&& done.peer_public == Some(be_value(peer@) as u64)
            &&& step(start, HandshakeEvent::Sent).phase == Phase::Failed
        }),
{
}

/// Two sides that play opposite roles and receive what the other sent end
/// with the same secret, whatever their private exponents are.
pub proof fn lemma_exchange_agrees(a: u64, b: u64, from_a: [u8; 8], from_b: [u8; 8])
    requires
        asks(opening(Role::Initiator, a), HandshakeAction::Send(from_a)),
        asks(
            step(opening(Role::Responder, b), HandshakeEvent::Received(from_a)),
            HandshakeAction::Send(from_b),
        ),
    ensures
        ({
            let initiator = step(
                step(opening(Role::Initiator, a), HandshakeEvent::Sent),
                HandshakeEvent::Received(from_b),
            );
            let responder = step(
                step(opening(Role::Responder, b), HandshakeEvent::Received(from_a)),
                HandshakeEvent::Sent,
            );
            &&& asks(initiator, HandshakeAction::Finish(secret_of(public_of(b), a)))
            &&& asks(responder, HandshakeAction::Finish(secret_of(public_of(a), b)))
            &&& secret_of(public_of(b), a) == secret_of(public_of(a), b)
        }),
{
    lemma_decode_encode(public_of(a));
    lemma_decode_encode(public_of(b));
    lemma_shared_secret_agrees(a, b);
}

} // verus!
