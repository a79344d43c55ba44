//! The client side's handle on a broker: where to reach it, the name to
//! announce, and the connection once there is one.
use vstd::prelude::*;

verus! {

/// An open connection to the broker.
struct Connection {}

/// A client of the broker at address `A`.
pub struct MessengerClient<A> {
    addr: A,
    name: String,
    conn: Option<Connection>,
}

impl<A> MessengerClient<A> {
    /// The address the client reaches the broker at.
    pub closed spec fn address(&self) -> A {
        self.addr
    }

    /// The name the client announces.
    pub closed spec fn client_name(&self) -> Seq<char> {
        self.name@
    }

    /// The client holds an open connection.
    pub closed spec fn connected(&self) -> bool {
        self.conn is Some
    }

    /// A client for the broker at `addr`, not yet connected.
    pub fn new(addr: A, name: String) -> (r: Self)
        ensures
            r.address() == addr,
            r.client_name() == name@,
            !r.connected(),
    {
        MessengerClient { addr, name, conn: None }
    }

    /// Whether the client holds an open connection.
    pub fn is_connected(&self) -> (r: bool)
        ensures
            r == self.connected(),
    {
        self.conn.is_some()
    }
}

} // verus!
