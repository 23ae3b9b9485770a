//! The transmission control protocol.

use crate::addr::Ipv4Addr;
use crate::protocol::tcp::prelude::Remote;
use vstd::prelude::*;

pub mod ack_policy;
pub mod buf;
pub mod conn;
pub mod fsm;
pub mod handshake;
pub mod lifecycle;
pub mod prelude;
pub mod ring;
pub mod socket;
pub mod stack;
pub mod stream;
pub mod traffic;
pub mod transfer;
pub mod transport;
pub mod tsm;

verus! {

/// The size of send and receive buffers, and so the window that a connection starts with.
pub const TCP_DEFAULT_WINDOW_SZ: usize = 65536;

/// What the window field of a header says of a window: its size, or the most that the field holds.
pub open spec fn window_field(window: int) -> u16 {
    if window < 0xffff {
        window as u16
    } else {
        0xffff
    }
}

/// The window field of a header for a window of the given size.
pub(crate) fn to_window_field(window: usize) -> (r: u16)
    ensures
        r == window_field(window as int),
{
    if window < 0xffff {
        window as u16
    } else {
        0xffff
    }
}

/// How many bytes a segment carries at most.
pub const MAX_SEGMENT_SZ: usize = 1024;

#[derive(Debug, Copy, Clone, PartialEq, Eq, Structural)]
pub enum TransportError {
    DestUnreachable(Ipv4Addr),
}

#[derive(Debug, Copy, Clone, PartialEq, Eq, Structural)]
pub enum ListenTransitionError {
    // Errs when attempting to transition into Listen state from a state that's
    // not Closed.
    NotFromClosed,
}

#[derive(Debug, Copy, Clone, PartialEq, Eq, Structural)]
pub enum TcpConnError {
    Timeout,
    Transport(TransportError),
    ConnectionExists(Remote),
}

#[derive(Debug, Copy, Clone, PartialEq, Eq, Structural)]
pub enum TcpListenError {
    Transition(ListenTransitionError),
}

#[derive(Debug, Copy, Clone, PartialEq, Eq, Structural)]
pub enum TcpAcceptError {
    ListenSocketClosed,
}

#[derive(Debug, Copy, Clone, PartialEq, Eq, Structural)]
pub enum TcpSendError {
    ConnClosed,
    ConnNotEstablished,
}

#[derive(Debug, Copy, Clone, PartialEq, Eq, Structural)]
pub enum TcpReadError {
    /// The connection was closed after so many bytes.
    Closed(usize),
    ConnNotEstablished,
}

#[derive(Debug, Copy, Clone, PartialEq, Eq, Structural)]
pub enum TcpCloseError {
    AlreadyClosed,
}

} // verus!
