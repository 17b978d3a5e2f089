//! The two paths of a chat: what to do with a line from the console, and
//! what to do with a chunk from the connection.
//!
//! Each path owns the cipher session of its direction, so the two can run
//! side by side without sharing state. A path does no I/O: it is handed what
//! was read and answers with what to write or show.

use crate::cipher::{cipher_text, lemma_cipher_round_trip, CipherSession};
use crate::handshake::Role;
use crate::keystream::keystream;
use vstd::prelude::*;
use vstd::slice::slice_to_vec;
use vstd::utf8::encode_utf8;

verus! {

/// The largest chunk that the receive loop reads from the connection at once.
pub const BUFFER_SIZE: usize = 1024;

/// What `str::trim` of the standard library returns for a text: the text
/// without its leading and trailing whitespace, in Unicode's sense of the
/// word.
pub uninterp spec fn trimmed(text: Seq<char>) -> Seq<char>;

/// What `String::from_utf8_lossy` of the standard library returns for a
/// sequence of bytes: the text they encode in UTF-8, with a replacement
/// character for each part that is not valid.
pub uninterp spec fn lossy_text(bytes: Seq<u8>) -> Seq<char>;

/// Removes leading and trailing whitespace with `str::trim`. The result is
/// named, not described: it is `trimmed` of the text.
#[verifier::external_body]
fn trim_text(text: &str) -> (out: &str)
    ensures
        out@ == trimmed(text@),
{
    text.trim()
}

/// Decodes bytes as UTF-8 with `String::from_utf8_lossy`. The result is
/// named, not described: it is `lossy_text` of the bytes.
#[verifier::external_body]
fn decode_lossy(bytes: &[u8]) -> (text: String)
    ensures
        text@ == lossy_text(bytes@),
{
    String::from_utf8_lossy(bytes).into_owned()
}

/// The word that ends the chat.
pub open spec fn quit_word() -> Seq<char> {
    seq!['q', 'u', 'i', 't']
}

/// What a line from the console, trimmed, asks for.
#[derive(Clone, Copy, Debug, PartialEq, Eq, Structural)]
pub enum Command {
    /// The line is empty: nothing happens.
    Skip,
    /// The line is exactly the quit word: the chat ends.
    Quit,
    /// Anything else is a message for the peer.
    Message,
}

/// The command that a trimmed line stands for.
pub open spec fn command_of(message: Seq<char>) -> Command {
    if message.len() == 0 {
        Command::Skip
    } else if message == quit_word() {
        Command::Quit
    } else {
        Command::Message
    }
}

/// Tells what a trimmed line asks for.
pub fn classify(message: &str) -> (command: Command)
    ensures
        command == command_of(message@),
{
    proof {
        reveal_strlit("quit");
        assert("quit"@ =~= quit_word());
    }
    if message.is_empty() {
        Command::Skip
    } else if message.to_owned() == "quit".to_owned() {
        Command::Quit
    } else {
        Command::Message
    }
}

/// The name under which a side logs what it receives.
pub fn log_prefix(role: Role) -> (prefix: &'static str)
    ensures
        prefix@ == (match role {
            Role::Initiator => "SERVER"@,
            Role::Responder => "CLIENT"@,
        }),
{
    match role {
        Role::Initiator => "SERVER",
        Role::Responder => "CLIENT",
    }
}

/// The text to show for a decrypted chunk: the bytes decoded as UTF-8,
/// leniently, and trimmed.
pub fn display_text(plaintext: &[u8]) -> (text: String)
    ensures
        text@ == trimmed(lossy_text(plaintext@)),
{
    let decoded = decode_lossy(plaintext);
    trim_text(decoded.as_str()).to_owned()
}

/// One message as it crossed the cipher: where in the keystream it stands,
/// and its three byte strings, all of one length.
#[derive(Debug, PartialEq, Eq)]
pub struct Frame {
    /// The keystream position of the first byte.
    pub position: usize,
    /// The message in the clear.
    pub plaintext: Vec<u8>,
    /// The keystream bytes used, in order.
    pub key: Vec<u8>,
    /// The message as it travels.
    pub ciphertext: Vec<u8>,
}

impl Frame {
    /// The frame is what a session of `seed` at `position` makes of the
    /// plaintext `plaintext`.
    pub open spec fn seals(self, seed: u64, position: nat, plaintext: Seq<u8>) -> bool {
        &&& self.position == position
        &&& self.plaintext@ == plaintext
        &&& self.key@ == keystream(seed, position, plaintext.len())
        &&& self.ciphertext@ == cipher_text(seed, position, plaintext)
    }

    /// The frame is what a session of `seed` at `position` makes of the
    /// ciphertext `ciphertext`.
    pub open spec fn opens(self, seed: u64, position: nat, ciphertext: Seq<u8>) -> bool {
        &&& self.position == position
        &&& self.ciphertext@ == ciphertext
        &&& self.key@ == keystream(seed, position, ciphertext.len())
        &&& self.plaintext@ == cipher_text(seed, position, ciphertext)
    }
}

/// A path as a plain value: the seed of its keystream, its position in it,
/// and whether it has ended.
pub struct PathView {
    pub seed: u64,
    pub position: nat,
    pub closed: bool,
}

/// What the send path asks of its driver.
#[derive(Debug, PartialEq, Eq)]
pub enum SendStep {
    /// Nothing to do: read the next line.
    Skip,
    /// Write the frame's ciphertext to the connection.
    Transmit(Frame),
    /// The path has ended: leave the loop and shut the connection down.
    Stop,
}

/// What the receive path asks of its driver.
#[derive(Debug, PartialEq, Eq)]
pub enum ReceiveStep {
    /// Show the frame's plaintext to the operator.
    Deliver(Frame),
    /// The path has ended: leave the loop.
    Stop,
}

/// Whether the send path can take `message`: a message needs room for its
/// bytes between the cursor and the largest position.
pub open spec fn has_room(path: PathView, message: Seq<char>) -> bool {
    path.closed || command_of(message) != Command::Message || path.position + encode_utf8(
        message,
    ).len() <= usize::MAX
}

/// The send path after a trimmed line.
///
/// A closed path stays as it is. An empty line changes nothing. The quit
/// word closes the path and consumes no keystream. A message moves the
/// cursor by the number of its bytes.
pub open spec fn after_message(path: PathView, message: Seq<char>) -> PathView {
    if path.closed {
        path
    } else {
        match command_of(message) {
            Command::Skip => path,
            Command::Quit => PathView { closed: true, ..path },
            Command::Message => PathView {
                position: path.position + encode_utf8(message).len(),
                ..path
            },
        }
    }
}

/// Whether `step` is the answer of the send path `path` to a trimmed line.
pub open spec fn answers_message(path: PathView, message: Seq<char>, step: SendStep) -> bool {
    match step {
        SendStep::Skip => !path.closed && command_of(message) == Command::Skip,
        SendStep::Transmit(frame) => !path.closed && command_of(message) == Command::Message
            && frame.seals(path.seed, path.position, encode_utf8(message)),
        SendStep::Stop => path.closed || command_of(message) == Command::Quit,
    }
}

/// The receive path after a chunk.
///
/// A closed path stays as it is. An empty chunk means that the peer closed
/// the connection, and closes the path. Any other chunk moves the cursor by
/// its length.
pub open spec fn after_chunk(path: PathView, chunk: Seq<u8>) -> PathView {
    if path.closed {
        path
    } else if chunk.len() == 0 {
        PathView { closed: true, ..path }
    } else {
        PathView { position: path.position + chunk.len(), ..path }
    }
}

/// Whether `step` is the answer of the receive path `path` to a chunk.
pub open spec fn answers_chunk(path: PathView, chunk: Seq<u8>, step: ReceiveStep) -> bool {
    match step {
        ReceiveStep::Deliver(frame) => !path.closed && chunk.len() > 0 && frame.opens(
            path.seed,
            path.position,
            chunk,
        ),
        ReceiveStep::Stop => path.closed || chunk.len() == 0,
    }
}

/// The sending side of a chat: it turns lines from the console into
/// ciphertext.
pub struct SendPath {
    cipher: CipherSession,
    closed: bool,
}

impl View for SendPath {
    type V = PathView;

    closed spec fn view(&self) -> PathView {
        PathView {
            seed: self.cipher.seed(),
            position: self.cipher.position(),
            closed: self.closed,
        }
    }
}

impl SendPath {
    /// An open path at the start of the keystream of `shared_secret`.
    pub fn new(shared_secret: u64) -> (path: Self)
        ensures
            path@ == (PathView { seed: shared_secret, position: 0, closed: false }),
    {
        SendPath { cipher: CipherSession::new(shared_secret), closed: false }
    }

    /// Takes a line that was trimmed already and says what to do with it.
    pub fn send_message(&mut self, message: &str) -> (step: SendStep)
        requires
            has_room(old(self)@, message@),
        ensures
            final(self)@ == after_message(old(self)@, message@),
            answers_message(old(self)@, message@, step),
    {
        if self.closed {
            return SendStep::Stop;
        }
        match classify(message) {
            Command::Skip => SendStep::Skip,
            Command::Quit => {
                self.closed = true;
                SendStep::Stop
            },
            Command::Message => {
                let position = self.cipher.position_value();
                let plaintext = slice_to_vec(message.as_bytes());
                let (ciphertext, key) = self.cipher.encrypt(plaintext.as_slice());
                SendStep::Transmit(Frame { position, plaintext, key, ciphertext })
            },
        }
    }

    /// Takes a line as it was read from the console, trims it and says what
    /// to do with it. Answers `None`, and changes nothing, if the line is a
    /// message that the cursor has no room for.
    pub fn handle_line(&mut self, line: &str) -> (step: Option<SendStep>)
        ensures
            step is Some <==> has_room(old(self)@, trimmed(line@)),
            step is None ==> final(self)@ == old(self)@,
            step is Some ==> final(self)@ == after_message(old(self)@, trimmed(line@)),
            step is Some ==> answers_message(old(self)@, trimmed(line@), step.unwrap()),
    {
        let message = trim_text(line);
        if !self.closed && message.as_bytes().len() > usize::MAX - self.cipher.position_value() {
            match classify(message) {
                Command::Message => {
                    return None;
                },
                _ => {},
            }
        }
        Some(self.send_message(message))
    }

    /// Takes note that a write to the connection failed: the path ends.
    pub fn write_failed(&mut self)
        ensures
            final(self)@ == (PathView { closed: true, ..old(self)@ }),
    {
        self.closed = true;
    }

    /// Whether the path has ended.
    pub fn is_closed(&self) -> (closed: bool)
        ensures
            closed == self@.closed,
    {
        self.closed
    }

    /// The number of keystream bytes used so far.
    pub fn position(&self) -> (position: usize)
        ensures
            position == self@.position,
    {
        self.cipher.position_value()
    }
}

/// The receiving side of a chat: it turns chunks from the connection into
/// plaintext.
pub struct ReceivePath {
    cipher: CipherSession,
    closed: bool,
}

impl View for ReceivePath {
    type V = PathView;

    closed spec fn view(&self) -> PathView {
        PathView {
            seed: self.cipher.seed(),
            position: self.cipher.position(),
            closed: self.closed,
        }
    }
}

impl ReceivePath {
    /// An open path at the start of the keystream of `shared_secret`.
    pub fn new(shared_secret: u64) -> (path: Self)
        ensures
            path@ == (PathView { seed: shared_secret, position: 0, closed: false }),
    {
        ReceivePath { cipher: CipherSession::new(shared_secret), closed: false }
    }

    /// Takes a chunk as it was read from the connection and says what to do
    /// with it. An empty chunk is the peer's way of closing.
    pub fn handle_chunk(&mut self, chunk: &[u8]) -> (step: ReceiveStep)
        requires
            old(self)@.closed || old(self)@.position + chunk@.len() <= usize::MAX,
        ensures
            final(self)@ == after_chunk(old(self)@, chunk@),
            answers_chunk(old(self)@, chunk@, step),
    {
        if self.closed {
            return ReceiveStep::Stop;
        }
        if chunk.len() == 0 {
            self.closed = true;
            return ReceiveStep::Stop;
        }
        let position = self.cipher.position_value();
        let (plaintext, key) = self.cipher.decrypt(chunk);
        ReceiveStep::Deliver(Frame { position, plaintext, key, ciphertext: slice_to_vec(chunk) })
    }

    /// Takes note that a read from the connection failed: the path ends.
    pub fn read_failed(&mut self)
        ensures
            final(self)@ == (PathView { closed: true, ..old(self)@ }),
    {
        self.closed = true;
    }

    /// Whether the path has ended.
    pub fn is_closed(&self) -> (closed: bool)
        ensures
            closed == self@.closed,
    {
        self.closed
    }

    /// The number of keystream bytes used so far.
    pub fn position(&self) -> (position: usize)
        ensures
            position == self@.position,
    {
        self.cipher.position_value()
    }
}

/// What one side seals, the other opens: a receive path that stands at the
/// position and seed at which the frame was sealed recovers the plaintext,
/// with the same key bytes.
pub proof fn lemma_sealed_frame_opens(
    sent: Frame,
    received: Frame,
    seed: u64,
    position: nat,
    plaintext: Seq<u8>,
)
    requires
        sent.seals(seed, position, plaintext),
        received.opens(seed, position, sent.ciphertext@),
    ensures
        received.plaintext@ == plaintext,
        received.key@ == sent.key@,
        received.ciphertext@ == sent.ciphertext@,
{
    lemma_cipher_round_trip(seed, position, plaintext);
}

} // verus!
