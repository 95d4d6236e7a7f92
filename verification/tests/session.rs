use ws::handshake::HandshakeContext;
use ws::message::{Binary, BinaryOp, CloseOp, ContinuationOp, Empty, Message, PingOp, PongOp, Text,
    TextOp};
use ws::session::{Action, HandshakeStep, Session, SessionState};

fn upgrade_request() -> HandshakeContext {
    HandshakeContext {
        method: String::from("GET"),
        upgrade: Some(String::from("websocket")),
        key: Some(String::from("dGhlIHNhbXBsZSBub25jZQ==")),
    }
}

fn plain_request() -> HandshakeContext {
    HandshakeContext { method: String::from("GET"), upgrade: None, key: None }
}

fn open_session() -> Session {
    let mut session = Session::new();
    session.on_request(&upgrade_request(), false);
    assert_eq!(session.state(), SessionState::Open);
    session
}

fn closing_session() -> Session {
    let mut session = open_session();
    session.on_outbound(Message { payload: Empty, opcode: CloseOp });
    assert_eq!(session.state(), SessionState::Closing);
    session
}

fn text(s: &str) -> Message {
    Message { payload: Text(String::from(s)), opcode: TextOp }
}

#[test]
fn starts_handshaking() {
    let session = Session::new();
    assert_eq!(session.state(), SessionState::Handshaking);
    assert!(!session.is_live());
}

#[test]
fn upgrade_opens() {
    let mut session = Session::new();
    let step = session.on_request(&upgrade_request(), false);
    match step {
        HandshakeStep::Upgrade(response) => {
            assert_eq!(response.status, 101);
            assert_eq!(response.upgrade, "websocket");
            assert_eq!(response.connection, "Upgrade");
            assert_eq!(response.content_length, 0);
            assert_eq!(response.sec_websocket_accept, "s3pPLMBiTxaQ9kYGzzhZRbK+xOo=");
        },
        other => panic!("not upgraded: {:?}", other),
    }
    assert_eq!(session.state(), SessionState::Open);
    assert!(session.is_live());
}

#[test]
fn upgrade_opens_even_if_asked_to_close() {
    let mut session = Session::new();
    let step = session.on_request(&upgrade_request(), true);
    assert!(matches!(step, HandshakeStep::Upgrade(_)));
    assert_eq!(session.state(), SessionState::Open);
}

#[test]
fn plain_request_keeps_handshaking() {
    let mut session = Session::new();
    assert_eq!(session.on_request(&plain_request(), false), HandshakeStep::PlainHttp);
    assert_eq!(session.state(), SessionState::Handshaking);
    let post = HandshakeContext {
        method: String::from("POST"),
        upgrade: Some(String::from("websocket")),
        key: Some(String::from("k")),
    };
    assert_eq!(session.on_request(&post, false), HandshakeStep::PlainHttp);
    assert_eq!(session.state(), SessionState::Handshaking);
    assert!(matches!(session.on_request(&upgrade_request(), false), HandshakeStep::Upgrade(_)));
    assert_eq!(session.state(), SessionState::Open);
}

#[test]
fn plain_request_that_closes() {
    let mut session = Session::new();
    assert_eq!(session.on_request(&plain_request(), true), HandshakeStep::PlainHttp);
    assert_eq!(session.state(), SessionState::Closed);
}

#[test]
fn upgrade_without_key_is_rejected() {
    let mut session = Session::new();
    let request = HandshakeContext {
        method: String::from("GET"),
        upgrade: Some(String::from("WebSocket")),
        key: None,
    };
    assert_eq!(session.on_request(&request, false), HandshakeStep::Reject);
    assert_eq!(session.state(), SessionState::Closed);
}

#[test]
fn requests_after_the_handshake_are_rejected() {
    let mut session = open_session();
    assert_eq!(session.on_request(&upgrade_request(), false), HandshakeStep::Reject);
    assert_eq!(session.state(), SessionState::Open);
    let mut session = closing_session();
    assert_eq!(session.on_request(&plain_request(), true), HandshakeStep::Reject);
    assert_eq!(session.state(), SessionState::Closing);
}

#[test]
fn text_and_binary_are_delivered() {
    let mut session = open_session();
    assert_eq!(session.on_message(text("hello")), vec![Action::Deliver(text("hello"))]);
    let binary = Message { payload: Binary(vec![1, 2, 3]), opcode: BinaryOp };
    assert_eq!(session.on_message(binary.clone()), vec![Action::Deliver(binary)]);
    assert_eq!(session.state(), SessionState::Open);
}

#[test]
fn ping_hi_is_answered_with_pong_hi() {
    let mut session = open_session();
    let ping = Message { payload: Binary(b"hi".to_vec()), opcode: PingOp };
    let actions = session.on_message(ping);
    assert_eq!(
        actions,
        vec![Action::Send(Message { payload: Binary(b"hi".to_vec()), opcode: PongOp })]
    );
    assert_eq!(session.state(), SessionState::Open);
    let mut wire = Vec::new();
    match &actions[0] {
        Action::Send(pong) => pong.send(&mut wire),
        other => panic!("not a send: {:?}", other),
    }
    assert_eq!(wire, vec![0x8A, 0x02, b'h', b'i']);
}

#[test]
fn ping_from_the_wire_is_answered_before_later_messages() {
    let mut session = open_session();
    let mut wire = vec![0x89u8, 0x82, 1, 2, 3, 4, b'h' ^ 1, b'i' ^ 2];
    wire.extend_from_slice(&[0x81, 0x01, b'x']);
    let (ping, used) = Message::load(&wire).unwrap();
    let first = session.on_message(*ping);
    assert_eq!(
        first,
        vec![Action::Send(Message { payload: Binary(b"hi".to_vec()), opcode: PongOp })]
    );
    let (next, _) = Message::load(&wire[used..]).unwrap();
    assert_eq!(session.on_message(*next), vec![Action::Deliver(text("x"))]);
}

#[test]
fn pong_is_dropped() {
    let mut session = open_session();
    let pong = Message { payload: Binary(b"hi".to_vec()), opcode: PongOp };
    assert_eq!(session.on_message(pong), vec![]);
    assert_eq!(session.state(), SessionState::Open);
}

#[test]
fn continuation_is_dropped() {
    let mut session = open_session();
    let message = Message { payload: Binary(vec![1]), opcode: ContinuationOp };
    assert_eq!(session.on_message(message), vec![]);
    assert_eq!(session.state(), SessionState::Open);
}

#[test]
fn close_is_echoed_then_write_then_read_shut_down() {
    let mut session = open_session();
    let close = Message { payload: Empty, opcode: CloseOp };
    let actions = session.on_message(close.clone());
    assert_eq!(actions, vec![Action::Send(close), Action::ShutdownWrite, Action::ShutdownRead]);
    assert_eq!(session.state(), SessionState::Closed);
    assert!(!session.is_live());
}

#[test]
fn nothing_is_read_after_close() {
    let mut session = open_session();
    session.on_message(Message { payload: Empty, opcode: CloseOp });
    assert_eq!(session.on_message(text("late")), vec![]);
    let ping = Message { payload: Binary(vec![]), opcode: PingOp };
    assert_eq!(session.on_message(ping), vec![]);
    assert_eq!(session.on_message(Message { payload: Empty, opcode: CloseOp }), vec![]);
    assert_eq!(session.on_outbound(text("late")), vec![]);
    assert_eq!(session.on_failure(), vec![]);
    assert_eq!(session.state(), SessionState::Closed);
}

#[test]
fn close_from_the_wire() {
    let mut session = open_session();
    let (close, used) = Message::load(&[0x88, 0x80, 9, 9, 9, 9]).unwrap();
    assert_eq!(used, 6);
    let actions = session.on_message(*close);
    let mut wire = Vec::new();
    match &actions[0] {
        Action::Send(echo) => echo.send(&mut wire),
        other => panic!("not a send: {:?}", other),
    }
    assert_eq!(wire, vec![0x88, 0x00]);
    assert_eq!(actions[1..], [Action::ShutdownWrite, Action::ShutdownRead]);
}

#[test]
fn outbound_messages_are_sent() {
    let mut session = open_session();
    assert_eq!(session.on_outbound(text("out")), vec![Action::Send(text("out"))]);
    let binary = Message { payload: Binary(vec![9]), opcode: BinaryOp };
    assert_eq!(session.on_outbound(binary.clone()), vec![Action::Send(binary)]);
    assert_eq!(session.state(), SessionState::Open);
}

#[test]
fn outbound_close_starts_closing() {
    let mut session = open_session();
    let close = Message { payload: Empty, opcode: CloseOp };
    assert_eq!(session.on_outbound(close.clone()), vec![Action::Send(close)]);
    assert_eq!(session.state(), SessionState::Closing);
    assert!(session.is_live());
}

#[test]
fn closing_still_reads_and_writes() {
    let mut session = closing_session();
    assert_eq!(session.on_message(text("in")), vec![Action::Deliver(text("in"))]);
    assert_eq!(session.on_outbound(text("out")), vec![Action::Send(text("out"))]);
    assert_eq!(session.state(), SessionState::Closing);
    let close = Message { payload: Empty, opcode: CloseOp };
    assert_eq!(
        session.on_message(close.clone()),
        vec![Action::Send(close), Action::ShutdownWrite, Action::ShutdownRead]
    );
    assert_eq!(session.state(), SessionState::Closed);
}

#[test]
fn nothing_flows_while_handshaking() {
    let mut session = Session::new();
    assert_eq!(session.on_message(text("early")), vec![]);
    assert_eq!(session.on_outbound(text("early")), vec![]);
    assert_eq!(session.on_message(Message { payload: Empty, opcode: CloseOp }), vec![]);
    assert_eq!(session.state(), SessionState::Handshaking);
}

#[test]
fn failure_releases_the_socket() {
    let mut session = open_session();
    assert_eq!(session.on_failure(), vec![Action::ShutdownWrite, Action::ShutdownRead]);
    assert_eq!(session.state(), SessionState::Closed);
    let mut session = closing_session();
    assert_eq!(session.on_failure(), vec![Action::ShutdownWrite, Action::ShutdownRead]);
    assert_eq!(session.state(), SessionState::Closed);
}

#[test]
fn failure_while_handshaking_closes() {
    let mut session = Session::new();
    assert_eq!(session.on_failure(), vec![]);
    assert_eq!(session.state(), SessionState::Closed);
    assert_eq!(session.on_request(&upgrade_request(), false), HandshakeStep::Reject);
    assert_eq!(session.state(), SessionState::Closed);
}

#[test]
fn echo_end_to_end() {
    let mut session = open_session();
    let key = [0x12u8, 0x34, 0x56, 0x78];
    let mut from_client = vec![0x81u8, 0x84];
    from_client.extend_from_slice(&key);
    for (i, byte) in b"ping".iter().enumerate() {
        from_client.push(byte ^ key[i % 4]);
    }
    let (message, used) = Message::load(&from_client).unwrap();
    assert_eq!(used, from_client.len());
    let mut inbound = Vec::new();
    for action in session.on_message(*message) {
        match action {
            Action::Deliver(message) => inbound.push(message),
            other => panic!("not delivered: {:?}", other),
        }
    }
    assert_eq!(inbound, vec![text("ping")]);
    let mut to_client = Vec::new();
    for message in inbound {
        for action in session.on_outbound(message) {
            match action {
                Action::Send(message) => message.send(&mut to_client),
                other => panic!("not sent: {:?}", other),
            }
        }
    }
    assert_eq!(to_client, vec![0x81, 0x04, b'p', b'i', b'n', b'g']);
    assert_eq!(to_client[1] & 0x80, 0);
}
