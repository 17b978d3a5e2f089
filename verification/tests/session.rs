use streamchat::chat::{ReceiveStep, SendStep};
use streamchat::handshake::Role;
use streamchat::session::{transition, ChatSession, SessionAction, SessionEvent, SessionState};

const STATES: [SessionState; 4] = [
    SessionState::Connecting,
    SessionState::Exchanging,
    SessionState::Chatting,
    SessionState::Closed,
];

const EVENTS: [SessionEvent; 6] = [
    SessionEvent::Connected,
    SessionEvent::ConnectFailed,
    SessionEvent::HandshakeDone,
    SessionEvent::HandshakeFailed,
    SessionEvent::SendLoopEnded,
    SessionEvent::ReceiveLoopEnded,
];

#[test]
fn a_session_runs_from_connecting_to_closed() {
    let (state, action) = transition(SessionState::Connecting, SessionEvent::Connected);
    assert_eq!((state, action), (SessionState::Exchanging, SessionAction::StartHandshake));
    let (state, action) = transition(state, SessionEvent::HandshakeDone);
    assert_eq!((state, action), (SessionState::Chatting, SessionAction::StartChat));
    let (state, action) = transition(state, SessionEvent::SendLoopEnded);
    assert_eq!((state, action), (SessionState::Closed, SessionAction::ShutdownAndJoin));
}

#[test]
fn the_peer_closing_shuts_the_session_down() {
    assert_eq!(
        transition(SessionState::Chatting, SessionEvent::ReceiveLoopEnded),
        (SessionState::Closed, SessionAction::ShutdownAndJoin)
    );
}

#[test]
fn a_failed_connection_is_reported() {
    assert_eq!(
        transition(SessionState::Connecting, SessionEvent::ConnectFailed),
        (SessionState::Closed, SessionAction::ReportFailure)
    );
}

#[test]
fn a_failed_handshake_never_chats() {
    assert_eq!(
        transition(SessionState::Exchanging, SessionEvent::HandshakeFailed),
        (SessionState::Closed, SessionAction::ReportFailure)
    );
}

#[test]
fn closed_is_final() {
    for event in EVENTS {
        assert_eq!(
            transition(SessionState::Closed, event),
            (SessionState::Closed, SessionAction::Nothing)
        );
    }
}

#[test]
fn events_out_of_place_change_nothing() {
    for event in [
        SessionEvent::HandshakeDone,
        SessionEvent::HandshakeFailed,
        SessionEvent::SendLoopEnded,
        SessionEvent::ReceiveLoopEnded,
    ] {
        assert_eq!(
            transition(SessionState::Connecting, event),
            (SessionState::Connecting, SessionAction::Nothing)
        );
    }
    for event in [
        SessionEvent::Connected,
        SessionEvent::ConnectFailed,
        SessionEvent::SendLoopEnded,
        SessionEvent::ReceiveLoopEnded,
    ] {
        assert_eq!(
            transition(SessionState::Exchanging, event),
            (SessionState::Exchanging, SessionAction::Nothing)
        );
    }
    for event in [
        SessionEvent::Connected,
        SessionEvent::ConnectFailed,
        SessionEvent::HandshakeDone,
        SessionEvent::HandshakeFailed,
    ] {
        assert_eq!(
            transition(SessionState::Chatting, event),
            (SessionState::Chatting, SessionAction::Nothing)
        );
    }
}

#[test]
fn chatting_is_entered_only_after_the_handshake() {
    for state in STATES {
        for event in EVENTS {
            let (next, _) = transition(state, event);
            if next == SessionState::Chatting && state != SessionState::Chatting {
                assert_eq!(state, SessionState::Exchanging);
                assert_eq!(event, SessionEvent::HandshakeDone);
            }
        }
    }
}

#[test]
fn a_session_starts_both_directions_at_zero() {
    let session = ChatSession::new(Role::Responder, 47);
    assert_eq!(session.role_value(), Role::Responder);
    let (send, receive) = session.split();
    assert_eq!(send.position(), 0);
    assert_eq!(receive.position(), 0);
    assert_eq!(send.is_closed(), false);
    assert_eq!(receive.is_closed(), false);
}

#[test]
fn both_directions_are_seeded_with_the_secret() {
    let (mut send, mut receive) = ChatSession::new(Role::Initiator, 47).split();
    let sent = match send.send_message("hello") {
        SendStep::Transmit(frame) => frame,
        other => panic!("{:?}", other),
    };
    assert_eq!(sent.key, vec![0x3c, 0xc5, 0x1a, 0x4b, 0x28]);
    let received = match receive.handle_chunk(&[0, 0, 0, 0, 0]) {
        ReceiveStep::Deliver(frame) => frame,
        other => panic!("{:?}", other),
    };
    assert_eq!(received.key, sent.key);
    assert_eq!(received.plaintext, sent.key);
}

#[test]
fn a_zero_length_read_closes_the_session() {
    let (_, mut receive) = ChatSession::new(Role::Initiator, 47).split();
    let state = SessionState::Chatting;
    assert_eq!(receive.handle_chunk(&[]), ReceiveStep::Stop);
    let (state, action) = transition(state, SessionEvent::ReceiveLoopEnded);
    assert_eq!(state, SessionState::Closed);
    assert_eq!(action, SessionAction::ShutdownAndJoin);
    assert_eq!(
        transition(state, SessionEvent::SendLoopEnded),
        (SessionState::Closed, SessionAction::Nothing)
    );
}
