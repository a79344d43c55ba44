//! A topic-based publish/subscribe broker: its wire codec, the per-connection
//! subscription registry, and the decisions of a connection handler.
pub mod buffer;
pub mod client;
pub mod codec;
pub mod handler;
pub mod registry;

pub use client::MessengerClient;
pub use codec::{pack_str, unpack_string, DecodeError, Message, MessageDecoder};
pub use handler::{dispatch, packed_heartbeat, Action, ClientHandler, Command, Event, Termination};
pub use registry::HandlerSet;
