//! The network layer.

use crate::net::vtlink::link::Error;
use vstd::prelude::*;

pub mod vtlink;

verus! {

#[derive(Debug, Clone, Copy, PartialEq, Eq, Structural)]
pub enum SendError {
    NoForwardingEntry,
    Unreachable,
    NoLink,
    Transport(Error),
}

} // verus!
