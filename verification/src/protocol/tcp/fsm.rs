//! Connections that carry their state in their type.

use vstd::prelude::*;

verus! {

pub struct TcpConnection<S> {
    pub id: u16,
    pub state: S,
}

pub struct Closed {
    pub socket: u16,
}

impl Closed {
    fn new(sock: u16) -> (r: Self)
        ensures
            r == (Closed { socket: sock }),
    {
        Closed { socket: sock }
    }
}

impl TcpConnection<Closed> {
    /// A connection that is closed.
    pub fn new(sock: u16) -> (r: Self)
        ensures
            r == (TcpConnection { id: sock, state: Closed { socket: sock } }),
    {
        TcpConnection { id: sock, state: Closed::new(sock) }
    }
}

} // verus!
