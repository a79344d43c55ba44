use bytes::BytesMut;
use messenger::{dispatch, pack_str, packed_heartbeat, Action, ClientHandler, Command, DecodeError, Event, Message, Termination};

fn control(topic: &str, arg: &str) -> Message {
    let mut payload = BytesMut::new();
    pack_str(arg, &mut payload);
    Message { name: topic.to_string(), data: payload.to_vec() }
}

fn msg(topic: &str, data: &[u8]) -> Message {
    Message { name: topic.to_string(), data: data.to_vec() }
}

#[test]
fn heartbeat_is_echoed() {
    let mut h = ClientHandler::new();
    match h.step(Event::Received(msg("_Heartbeat", b"ignored"))) {
        Action::Write(b) => assert_eq!(&b[..], &[0u8, 10, b'_', b'H', b'e', b'a', b'r', b't', b'b', b'e', b'a', b't', 0, 0, 0, 0][..]),
        _ => panic!("expected a write"),
    }
    assert_eq!(&packed_heartbeat()[..], &[0u8, 10, b'_', b'H', b'e', b'a', b'r', b't', b'b', b'e', b'a', b't', 0, 0, 0, 0][..]);
}

#[test]
fn listen_then_fan_out() {
    let mut a = ClientHandler::new();
    let mut b = ClientHandler::new();
    assert!(matches!(a.step(Event::Received(control("_Listen", "*sys"))), Action::Continue));
    let published = match b.step(Event::Received(msg("sys.alert", b"boom"))) {
        Action::Publish(m) => m,
        _ => panic!("expected a publish"),
    };
    assert_eq!(published.name, "sys.alert");
    match a.step(Event::Delivered(published.clone())) {
        Action::Write(bytes) => assert_eq!(bytes, published.clone().pack()),
        _ => panic!("expected a write"),
    }
    assert!(matches!(b.step(Event::Delivered(published)), Action::Continue));
}

#[test]
fn unlisten_stops_delivery() {
    let mut a = ClientHandler::new();
    a.step(Event::Received(control("_Listen", "news")));
    assert!(a.is_listening(&"news".to_string()));
    a.step(Event::Received(control("_Unlisten", "news")));
    assert!(matches!(a.step(Event::Delivered(msg("news", b"x"))), Action::Continue));
}

#[test]
fn malformed_listen_payload_is_ignored() {
    let mut a = ClientHandler::new();
    assert!(matches!(a.step(Event::Received(msg("_Listen", &[0, 9, b'a']))), Action::Continue));
    assert!(!a.is_listening(&"a".to_string()));
}

#[test]
fn idle_connection_times_out() {
    let mut a = ClientHandler::new();
    assert!(matches!(a.step(Event::TimedOut), Action::Close(Termination::TimedOut)));
}

#[test]
fn disconnect_is_graceful() {
    let mut a = ClientHandler::new();
    assert!(matches!(a.step(Event::Received(msg("_Disconnect", b""))), Action::Close(Termination::Disconnected)));
}

#[test]
fn lag_is_not_fatal() {
    let mut a = ClientHandler::new();
    a.step(Event::Received(control("_Listen", "t")));
    assert!(matches!(a.step(Event::Lagged), Action::Continue));
    assert!(matches!(a.step(Event::Delivered(msg("t", b"1"))), Action::Write(_)));
}

#[test]
fn other_terminations() {
    let mut a = ClientHandler::new();
    assert!(matches!(a.step(Event::BusClosed), Action::Close(Termination::BusClosed)));
    assert!(matches!(a.step(Event::StreamEnded), Action::Close(Termination::StreamEnded)));
    assert!(matches!(
        a.step(Event::Malformed(DecodeError::InvalidUtf8)),
        Action::Close(Termination::Protocol(DecodeError::InvalidUtf8))
    ));
}

#[test]
fn dispatch_by_topic() {
    assert!(matches!(dispatch(msg("_Heartbeat", b"")), Command::Heartbeat));
    assert!(matches!(dispatch(control("_Listen", "x")), Command::Listen(Some(ref t)) if t == "x"));
    assert!(matches!(dispatch(control("_Unlisten", "*y")), Command::Unlisten(Some(ref t)) if t == "*y"));
    assert!(matches!(dispatch(msg("_Disconnect", b"")), Command::Disconnect));
    assert!(matches!(dispatch(msg("_heartbeat", b"")), Command::Publish(_)));
}

#[test]
fn oversized_topic_is_not_delivered() {
    let mut a = ClientHandler::new();
    a.step(Event::Received(control("_Listen", "*")));
    let big = msg(&"t".repeat(0x10000), b"");
    assert!(!messenger::handler::fits(&big));
    assert!(matches!(a.step(Event::Delivered(big)), Action::Continue));
    assert!(messenger::handler::fits(&msg("t", b"")));
}
