//! Changes of state that a socket is asked for.

use crate::protocol::tcp::conn::TcpConn;
use vstd::prelude::*;
use vstd::std_specs::convert::FromSpecImpl;

verus! {

#[allow(non_camel_case_types)]
#[derive(Debug, PartialEq, Eq, Structural, Clone, Copy)]
pub enum StateTransition {
    toSynSent,
    toEstablished,
    toClosed,
    toSynReceived,
}

#[derive(Debug, PartialEq, Eq, Structural, Clone, Copy)]
pub struct Closed {
    pub port: u16,
}

pub struct Listen {
    pub port: u16,
}

pub struct SynSent {
    /// The connection, once there is one.
    pub conn: Option<TcpConn>,
}

pub struct SynReceive {}

pub struct Established {
    pub conn: TcpConn,
}

impl FromSpecImpl<Closed> for SynSent {
    open spec fn obeys_from_spec() -> bool {
        true
    }

    open spec fn from_spec(closed: Closed) -> Self {
        SynSent { conn: None }
    }
}

impl From<Closed> for SynSent {
    fn from(closed: Closed) -> (r: Self) {
        SynSent { conn: None }
    }
}

impl FromSpecImpl<Listen> for SynReceive {
    open spec fn obeys_from_spec() -> bool {
        true
    }

    open spec fn from_spec(listen: Listen) -> Self {
        SynReceive {  }
    }
}

impl From<Listen> for SynReceive {
    fn from(listen: Listen) -> (r: Self) {
        SynReceive {  }
    }
}

impl SynSent {
    /// The state once the connection is there.
    pub fn establish(self) -> (r: Established)
        requires
            self.conn is Some,
        ensures
            r.conn == self.conn->0,
    {
        Established { conn: self.conn.unwrap() }
    }
}

impl Closed {
    pub fn new(port: u16) -> (r: Self)
        ensures
            r == (Closed { port }),
    {
        Closed { port }
    }

    /// A closed socket can only ask for a connection.
    pub fn transition(&mut self, event: StateTransition) -> (r: Option<SynSent>)
        ensures
            *final(self) == *old(self),
            r == (if event == StateTransition::toSynSent {
                Some(SynSent { conn: None })
            } else {
                None
            }),
    {
        match event {
            StateTransition::toSynSent => Some(SynSent::from(*self)),
            _ => None,
        }
    }
}

} // verus!
