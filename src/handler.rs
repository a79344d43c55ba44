//! The decisions of a connection handler. The handler races three sources
//! (a delivery from the bus, a frame from the client, the idle timer); each
//! outcome is an [`Event`], and [`ClientHandler::step`] says what to do next.
use bytes::BytesMut;
use vstd::prelude::*;
use vstd::utf8::{is_ascii_chars, is_ascii_chars_encode_utf8};
use crate::buffer::buffer_contents;
use crate::codec::{frame, unpack_string, unpacked, DecodeError, Message, MAX_PAYLOAD_BYTES, MAX_TOPIC_BYTES};
use crate::registry::{listen_spec, listening_spec, unlisten_spec, HandlerSet, Interest};

verus! {

/// Seconds without any event after which a connection is closed.
pub const IDLE_TIMEOUT_SECS: u64 = 5;

/// How many messages the bus queues for each subscriber.
pub const MAX_QUEUED_MESSAGES: usize = 256;

/// The reserved topic of the liveness echo.
pub open spec fn heartbeat_topic() -> Seq<char> {
    "_Heartbeat"@
}

/// The reserved topic of a subscription request.
pub open spec fn listen_topic() -> Seq<char> {
    "_Listen"@
}

/// The reserved topic of an unsubscription request.
pub open spec fn unlisten_topic() -> Seq<char> {
    "_Unlisten"@
}

/// The reserved topic of a graceful close.
pub open spec fn disconnect_topic() -> Seq<char> {
    "_Disconnect"@
}

/// The characters of an optional string.
pub open spec fn opt_chars(t: Option<String>) -> Option<Seq<char>> {
    match t {
        Some(s) => Some(s@),
        None => None,
    }
}

/// What a message from a client asks for.
pub enum Command {
    /// Echo a heartbeat.
    Heartbeat,
    /// Subscribe; `None` when the payload does not hold a topic.
    Listen(Option<String>),
    /// Unsubscribe; `None` when the payload does not hold a topic.
    Unlisten(Option<String>),
    /// Close the connection gracefully.
    Disconnect,
    /// Publish the message on the bus.
    Publish(Message),
}

/// Decides once, by topic, what a message from a client asks for.
pub fn dispatch(msg: Message) -> (r: Command)
    ensures
        msg.name@ == heartbeat_topic() ==> r is Heartbeat,
        msg.name@ == listen_topic() ==> (r matches Command::Listen(t) && opt_chars(t) == unpacked(
            msg.data@,
        )),
        msg.name@ == unlisten_topic() ==> (r matches Command::Unlisten(t) && opt_chars(t)
            == unpacked(msg.data@)),
        msg.name@ == disconnect_topic() ==> r is Disconnect,
        msg.name@ != heartbeat_topic() && msg.name@ != listen_topic() && msg.name@
            != unlisten_topic() && msg.name@ != disconnect_topic() ==> r == Command::Publish(msg),
{
    proof {
        reveal_strlit("_Heartbeat");
        reveal_strlit("_Listen");
        reveal_strlit("_Unlisten");
        reveal_strlit("_Disconnect");
        assert(heartbeat_topic().len() == 10 && listen_topic().len() == 7);
        assert(unlisten_topic().len() == 9 && disconnect_topic().len() == 11);
    }
    if msg.name == "_Heartbeat".to_string() {
        Command::Heartbeat
    } else if msg.name == "_Listen".to_string() {
        Command::Listen(unpack_string(msg.data.as_slice()))
    } else if msg.name == "_Unlisten".to_string() {
        Command::Unlisten(unpack_string(msg.data.as_slice()))
    } else if msg.name == "_Disconnect".to_string() {
        Command::Disconnect
    } else {
        Command::Publish(msg)
    }
}

/// The frame of an empty heartbeat.
pub fn packed_heartbeat() -> (r: BytesMut)
    ensures
        buffer_contents(r) == frame(heartbeat_topic(), Seq::<u8>::empty()),
{
    let m = Message { name: "_Heartbeat".to_string(), data: Vec::new() };
    proof {
        reveal_strlit("_Heartbeat");
        assert(is_ascii_chars(m.name@));
        is_ascii_chars_encode_utf8(m.name@);
        assert(m.data@ =~= Seq::<u8>::empty());
    }
    m.pack()
}

/// Whether a message fits a frame, so that it can be packed.
pub fn fits(msg: &Message) -> (r: bool)
    ensures
        r == msg.fits(),
{
    msg.name.as_str().as_bytes().len() <= MAX_TOPIC_BYTES && msg.data.len() <= MAX_PAYLOAD_BYTES
}

/// What the handler learned while racing its sources.
pub enum Event {
    /// The bus delivered a message.
    Delivered(Message),
    /// This connection fell behind and the bus dropped messages for it.
    Lagged,
    /// The bus is closed.
    BusClosed,
    /// A whole frame arrived from the client.
    Received(Message),
    /// The client's bytes did not decode.
    Malformed(DecodeError),
    /// The client's stream ended.
    StreamEnded,
    /// The idle window passed with no event.
    TimedOut,
}

/// Why a connection ends.
#[derive(Clone, Copy, Debug, PartialEq, Eq, Structural)]
pub enum Termination {
    /// The client asked to disconnect: not an error.
    Disconnected,
    /// Nothing happened within the idle window.
    TimedOut,
    /// The client's stream ended.
    StreamEnded,
    /// The client sent bytes that do not decode.
    Protocol(DecodeError),
    /// The bus is closed.
    BusClosed,
}

/// What the handler does next.
pub enum Action {
    /// Nothing: race the sources again.
    Continue,
    /// Write these bytes to the client, then race again.
    Write(BytesMut),
    /// Publish this message on the bus, then race again.
    Publish(Message),
    /// Close the connection.
    Close(Termination),
}

/// The state of one connection once the client has announced its name.
pub struct ClientHandler {
    handlers: HandlerSet,
}

impl ClientHandler {
    /// The connection's subscriptions.
    pub closed spec fn interest(&self) -> Interest {
        self.handlers@
    }

    pub closed spec fn wf(&self) -> bool {
        self.handlers.wf()
    }

    /// A connection with no subscriptions.
    pub fn new() -> (r: Self)
        ensures
            r.wf(),
            r.interest() == (Set::<Seq<char>>::empty(), Set::<Seq<char>>::empty()),
    {
        ClientHandler { handlers: HandlerSet::new() }
    }

    /// Whether a message on `topic` would be delivered to this connection.
    pub fn is_listening(&self, topic: &String) -> (r: bool)
        ensures
            r == listening_spec(self.interest(), topic@),
    {
        self.handlers.is_listening(topic)
    }

    /// Decides what to do about one event.
    pub fn step(&mut self, event: Event) -> (r: Action)
        requires
            old(self).wf(),
        ensures
            final(self).wf(),
            match event {
                Event::Delivered(m) => {
                    &&& final(self).interest() == old(self).interest()
                    &&& if m.fits() && listening_spec(old(self).interest(), m.name@) {
                        r matches Action::Write(b) && buffer_contents(b) == frame(m.name@, m.data@)
                    } else {
                        r is Continue
                    }
                },
                Event::Lagged => r is Continue && final(self).interest() == old(self).interest(),
                Event::BusClosed => r == Action::Close(Termination::BusClosed),
                Event::Received(m) => {
                    if m.name@ == heartbeat_topic() {
                        &&& r matches Action::Write(b) && buffer_contents(b) == frame(
                            heartbeat_topic(),
                            Seq::<u8>::empty(),
                        )
                        &&& final(self).interest() == old(self).interest()
                    } else if m.name@ == listen_topic() {
                        &&& r is Continue
                        &&& final(self).interest() == match unpacked(m.data@) {
                            Some(t) => listen_spec(old(self).interest(), t),
                            None => old(self).interest(),
                        }
                    } else if m.name@ == unlisten_topic() {
                        &&& r is Continue
                        &&& final(self).interest() == match unpacked(m.data@) {
                            Some(t) => unlisten_spec(old(self).interest(), t),
                            None => old(self).interest(),
                        }
                    } else if m.name@ == disconnect_topic() {
                        r == Action::Close(Termination::Disconnected)
                    } else {
                        r == Action::Publish(m) && final(self).interest() == old(self).interest()
                    }
                },
                Event::Malformed(e) => r == Action::Close(Termination::Protocol(e)),
                Event::StreamEnded => r == Action::Close(Termination::StreamEnded),
                Event::TimedOut => r == Action::Close(Termination::TimedOut),
            },
    {
        match event {
            Event::Delivered(m) => {
                if fits(&m) && self.handlers.is_listening(&m.name) {
                    Action::Write(m.pack())
                } else {
                    Action::Continue
                }
            },
            Event::Lagged => Action::Continue,
            Event::BusClosed => Action::Close(Termination::BusClosed),
            Event::Received(m) => match dispatch(m) {
                Command::Heartbeat => Action::Write(packed_heartbeat()),
                Command::Listen(Some(t)) => {
                    self.handlers.listen(t);
                    Action::Continue
                },
                Command::Unlisten(Some(t)) => {
                    self.handlers.unlisten(t);
                    Action::Continue
                },
                Command::Listen(None) | Command::Unlisten(None) => Action::Continue,
                Command::Disconnect => Action::Close(Termination::Disconnected),
                Command::Publish(m) => Action::Publish(m),
            },
            Event::Malformed(e) => Action::Close(Termination::Protocol(e)),
            Event::StreamEnded => Action::Close(Termination::StreamEnded),
            Event::TimedOut => Action::Close(Termination::TimedOut),
        }
    }
}

} // verus!
