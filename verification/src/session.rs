//! The life of a session: connecting, exchanging keys, chatting, closed.
//!
//! The orchestrator is a state machine from state and event to next state
//! and action. The program around it performs the actions (connect, run the
//! handshake, run the two loops, shut the connection down and join the
//! receiver) and reports what happened.

use crate::chat::{
    after_chunk, after_message, answers_chunk, answers_message, command_of, quit_word, Command,
    PathView, ReceivePath, ReceiveStep, SendPath, SendStep,
};
use crate::handshake::Role;
use vstd::prelude::*;

verus! {

/// Where a session stands.
#[derive(Clone, Copy, Debug, PartialEq, Eq, Structural)]
pub enum SessionState {
    /// No connection yet.
    Connecting,
    /// Connected; the key exchange is running.
    Exchanging,
    /// The secret is known; the two loops are running.
    Chatting,
    /// Over. No reconnection is attempted.
    Closed,
}

/// What the program reports to the orchestrator.
#[derive(Clone, Copy, Debug, PartialEq, Eq, Structural)]
pub enum SessionEvent {
    /// A connection exists: accepted or connected.
    Connected,
    /// Binding or connecting failed.
    ConnectFailed,
    /// The key exchange finished with a shared secret.
    HandshakeDone,
    /// The connection failed during the key exchange.
    HandshakeFailed,
    /// The send loop ended: the operator quit, or a write failed.
    SendLoopEnded,
    /// The receive loop ended: the peer closed, or a read failed.
    ReceiveLoopEnded,
}

/// What the orchestrator asks of the program.
#[derive(Clone, Copy, Debug, PartialEq, Eq, Structural)]
pub enum SessionAction {
    /// Run the key exchange over the new connection.
    StartHandshake,
    /// Start the send loop and the receive loop.
    StartChat,
    /// Shut down both directions of the connection, so that the loop that is
    /// still blocked wakes up, and wait for the receive loop to finish.
    ShutdownAndJoin,
    /// Report the failure to the operator; the session never chats.
    ReportFailure,
    /// Nothing to do.
    Nothing,
}

/// The state that follows `state` on `event`. An event that has no meaning
/// in a state leaves the state as it is.
pub open spec fn next_state(state: SessionState, event: SessionEvent) -> SessionState {
    match (state, event) {
        (SessionState::Connecting, SessionEvent::Connected) => SessionState::Exchanging,
        (SessionState::Connecting, SessionEvent::ConnectFailed) => SessionState::Closed,
        (SessionState::Exchanging, SessionEvent::HandshakeDone) => SessionState::Chatting,
        (SessionState::Exchanging, SessionEvent::HandshakeFailed) => SessionState::Closed,
        (SessionState::Chatting, SessionEvent::SendLoopEnded) => SessionState::Closed,
        (SessionState::Chatting, SessionEvent::ReceiveLoopEnded) => SessionState::Closed,
        _ => state,
    }
}

/// The action that `event` calls for in `state`.
pub open spec fn action_on(state: SessionState, event: SessionEvent) -> SessionAction {
    match (state, event) {
        (SessionState::Connecting, SessionEvent::Connected) => SessionAction::StartHandshake,
        (SessionState::Connecting, SessionEvent::ConnectFailed) => SessionAction::ReportFailure,
        (SessionState::Exchanging, SessionEvent::HandshakeDone) => SessionAction::StartChat,
        (SessionState::Exchanging, SessionEvent::HandshakeFailed) => SessionAction::ReportFailure,
        (SessionState::Chatting, SessionEvent::SendLoopEnded) => SessionAction::ShutdownAndJoin,
        (SessionState::Chatting, SessionEvent::ReceiveLoopEnded) => SessionAction::ShutdownAndJoin,
        _ => SessionAction::Nothing,
    }
}

/// How far a session has come: states are only ever left for later ones.
pub open spec fn progress(state: SessionState) -> nat {
    match state {
        SessionState::Connecting => 0,
        SessionState::Exchanging => 1,
        SessionState::Chatting => 2,
        SessionState::Closed => 3,
    }
}

/// Moves a session from `state` on `event`, and says what to do.
pub fn transition(state: SessionState, event: SessionEvent) -> (out: (SessionState, SessionAction))
    ensures
        out.0 == next_state(state, event),
        out.1 == action_on(state, event),
{
    match (state, event) {
        (SessionState::Connecting, SessionEvent::Connected) => (
            SessionState::Exchanging,
            SessionAction::StartHandshake,
        ),
        (SessionState::Connecting, SessionEvent::ConnectFailed) => (
            SessionState::Closed,
            SessionAction::ReportFailure,
        ),
        (SessionState::Exchanging, SessionEvent::HandshakeDone) => (
            SessionState::Chatting,
            SessionAction::StartChat,
        ),
        (SessionState::Exchanging, SessionEvent::HandshakeFailed) => (
            SessionState::Closed,
            SessionAction::ReportFailure,
        ),
        (SessionState::Chatting, SessionEvent::SendLoopEnded) => (
            SessionState::Closed,
            SessionAction::ShutdownAndJoin,
        ),
        (SessionState::Chatting, SessionEvent::ReceiveLoopEnded) => (
            SessionState::Closed,
            SessionAction::ShutdownAndJoin,
        ),
        _ => (state, SessionAction::Nothing),
    }
}

/// A chat after the handshake: the role, and one path for each direction.
/// Both paths start at position 0 of the keystream of the shared secret and
/// move on their own from there.
pub struct ChatSession {
    role: Role,
    send: SendPath,
    receive: ReceivePath,
}

impl ChatSession {
    /// The side that this session plays.
    pub closed spec fn role(&self) -> Role {
        self.role
    }

    /// The sending path.
    pub closed spec fn send(&self) -> PathView {
        self.send@
    }

    /// The receiving path.
    pub closed spec fn receive(&self) -> PathView {
        self.receive@
    }

    /// A session for `role`, both directions seeded with `shared_secret`.
    pub fn new(role: Role, shared_secret: u64) -> (session: Self)
        ensures
            session.role() == role,
            session.send() == (PathView { seed: shared_secret, position: 0, closed: false }),
            session.receive() == (PathView { seed: shared_secret, position: 0, closed: false }),
    {
        ChatSession {
            role,
            send: SendPath::new(shared_secret),
            receive: ReceivePath::new(shared_secret),
        }
    }

    /// The side that this session plays.
    pub fn role_value(&self) -> (role: Role)
        ensures
            role == self.role(),
    {
        self.role
    }

    /// Parts the session into its two paths, one for each loop.
    pub fn split(self) -> (paths: (SendPath, ReceivePath))
        ensures
            paths.0@ == self.send(),
            paths.1@ == self.receive(),
    {
        (self.send, self.receive)
    }
}

/// `Closed` is final: no event leads out of it, and none calls for action.
pub proof fn lemma_closed_is_final(event: SessionEvent)
    ensures
        next_state(SessionState::Closed, event) == SessionState::Closed,
        action_on(SessionState::Closed, event) == SessionAction::Nothing,
{
}

/// A session never goes back, and moves by one state at a time unless it
/// closes.
pub proof fn lemma_sessions_only_advance(state: SessionState, event: SessionEvent)
    ensures
        progress(state) <= progress(next_state(state, event)),
        next_state(state, event) == state || next_state(state, event) == SessionState::Closed
            || progress(next_state(state, event)) == progress(state) + 1,
{
}

/// The only way into `Chatting` is a completed handshake.
pub proof fn lemma_chat_follows_handshake(state: SessionState, event: SessionEvent)
    requires
        state != SessionState::Chatting,
        next_state(state, event) == SessionState::Chatting,
    ensures
        state == SessionState::Exchanging,
        event == SessionEvent::HandshakeDone,
{
}

/// A failure never starts a chat: it is either reported, and then the
/// session is closed, or it has no meaning in the state and changes nothing.
pub proof fn lemma_failures_close(state: SessionState, event: SessionEvent)
    requires
        event == SessionEvent::ConnectFailed || event == SessionEvent::HandshakeFailed,
    ensures
        action_on(state, event) == SessionAction::ReportFailure ==> next_state(state, event)
            == SessionState::Closed,
        action_on(state, event) != SessionAction::ReportFailure ==> next_state(state, event)
            == state && action_on(state, event) == SessionAction::Nothing,
        action_on(SessionState::Connecting, SessionEvent::ConnectFailed)
            == SessionAction::ReportFailure,
        action_on(SessionState::Exchanging, SessionEvent::HandshakeFailed)
            == SessionAction::ReportFailure,
{
}

/// Quit: on an open send path the quit word ends the path, consumes no
/// keystream and yields nothing to write.
pub proof fn lemma_quit_writes_nothing(path: PathView, step: SendStep)
    requires
        !path.closed,
        answers_message(path, quit_word(), step),
    ensures
        step == SendStep::Stop,
        after_message(path, quit_word()).closed,
        after_message(path, quit_word()).position == path.position,
        after_message(path, quit_word()).seed == path.seed,
{
    assert(quit_word().len() == 4);
    assert(command_of(quit_word()) == Command::Quit);
}

/// Shutdown propagates: when the peer closes, which the receive path sees as
/// an empty chunk, the receive path ends, and the end of either loop takes
/// a chatting session to `Closed` in one step, with the order to shut the
/// connection down and join the receiver. A closed path answers every later
/// input with `Stop` and stays as it is.
pub proof fn lemma_peer_close_ends_session(
    path: PathView,
    step: ReceiveStep,
    later: Seq<u8>,
    later_step: ReceiveStep,
)
    requires
        !path.closed,
        answers_chunk(path, Seq::<u8>::empty(), step),
        answers_chunk(after_chunk(path, Seq::<u8>::empty()), later, later_step),
    ensures
        step == ReceiveStep::Stop,
        after_chunk(path, Seq::<u8>::empty()) == (PathView { closed: true, ..path }),
        later_step == ReceiveStep::Stop,
        after_chunk(after_chunk(path, Seq::<u8>::empty()), later) == after_chunk(
            path,
            Seq::<u8>::empty(),
        ),
        next_state(SessionState::Chatting, SessionEvent::ReceiveLoopEnded) == SessionState::Closed,
        action_on(SessionState::Chatting, SessionEvent::ReceiveLoopEnded)
            == SessionAction::ShutdownAndJoin,
        next_state(SessionState::Chatting, SessionEvent::SendLoopEnded) == SessionState::Closed,
        action_on(SessionState::Chatting, SessionEvent::SendLoopEnded)
            == SessionAction::ShutdownAndJoin,
{
}

} // verus!
