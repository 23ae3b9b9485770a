//! The protocols carried inside IPv4 packets.

use crate::text::{bounded_number, decimal, law_number_round_trip, parse_u8};
use vstd::prelude::*;
use vstd::std_specs::convert::{FromSpecImpl, TryFromSpecImpl};

pub mod rip;
pub mod tcp;
pub mod test;

verus! {

#[derive(PartialEq, Eq, Structural, Hash, Debug, Clone, Copy)]
pub enum Protocol {
    Rip,
    Test,
    Tcp,
}

#[derive(PartialEq, Eq, Structural, Debug)]
pub enum ParseProtocolError {
    Unsupported,
}

/// The number of a protocol in an IPv4 header.
pub open spec fn protocol_number(protocol: Protocol) -> u8 {
    match protocol {
        Protocol::Rip => 200,
        Protocol::Test => 0,
        Protocol::Tcp => 6,
    }
}

/// The protocol with a number.
pub open spec fn protocol_of(number: u8) -> Result<Protocol, ParseProtocolError> {
    if number == 0 {
        Ok(Protocol::Test)
    } else if number == 6 {
        Ok(Protocol::Tcp)
    } else if number == 200 {
        Ok(Protocol::Rip)
    } else {
        Err(ParseProtocolError::Unsupported)
    }
}

/// The protocol whose number a text writes.
pub open spec fn protocol_named(s: Seq<char>) -> Result<Protocol, ParseProtocolError> {
    match bounded_number(s, u8::MAX as nat) {
        Some(n) => protocol_of(n as u8),
        None => Err(ParseProtocolError::Unsupported),
    }
}

impl TryFromSpecImpl<u8> for Protocol {
    open spec fn obeys_try_from_spec() -> bool {
        true
    }

    open spec fn try_from_spec(value: u8) -> Result<Self, ParseProtocolError> {
        protocol_of(value)
    }
}

impl TryFrom<u8> for Protocol {
    type Error = ParseProtocolError;

    fn try_from(value: u8) -> (r: Result<Self, ParseProtocolError>) {
        match value {
            0 => Ok(Protocol::Test),
            6 => Ok(Protocol::Tcp),
            200 => Ok(Protocol::Rip),
            _ => Err(ParseProtocolError::Unsupported),
        }
    }
}

impl<'a> TryFromSpecImpl<&'a str> for Protocol {
    open spec fn obeys_try_from_spec() -> bool {
        true
    }

    open spec fn try_from_spec(value: &'a str) -> Result<Self, ParseProtocolError> {
        protocol_named(value@)
    }
}

impl<'a> TryFrom<&'a str> for Protocol {
    type Error = ParseProtocolError;

    fn try_from(value: &'a str) -> (r: Result<Self, ParseProtocolError>) {
        match parse_u8(value) {
            Some(number) => Protocol::try_from(number),
            None => Err(ParseProtocolError::Unsupported),
        }
    }
}

impl FromSpecImpl<Protocol> for u8 {
    open spec fn obeys_from_spec() -> bool {
        true
    }

    open spec fn from_spec(protocol: Protocol) -> u8 {
        protocol_number(protocol)
    }
}

impl From<Protocol> for u8 {
    fn from(protocol: Protocol) -> (r: u8) {
        match protocol {
            Protocol::Rip => 200,
            Protocol::Test => 0,
            Protocol::Tcp => 6,
        }
    }
}

/// A protocol is the one with its number.
pub proof fn law_protocol_number_round_trip(protocol: Protocol)
    ensures
        protocol_of(protocol_number(protocol)) == Ok::<Protocol, ParseProtocolError>(protocol),
{
}

/// Test messages have number 0, TCP has 6 and RIP 200. No other number is that of a protocol, and
/// the number can be given as text.
pub proof fn law_protocols_have_their_numbers(number: u8, text: Seq<char>)
    ensures
        protocol_of(number) == Ok::<Protocol, ParseProtocolError>(Protocol::Test) <==> number == 0,
        protocol_of(number) == Ok::<Protocol, ParseProtocolError>(Protocol::Tcp) <==> number == 6,
        protocol_of(number) == Ok::<Protocol, ParseProtocolError>(Protocol::Rip) <==> number
            == 200,
        protocol_number(Protocol::Test) == 0,
        protocol_number(Protocol::Tcp) == 6,
        protocol_number(Protocol::Rip) == 200,
        protocol_named(decimal(number as nat)) == protocol_of(number),
        protocol_named(text) is Ok ==> bounded_number(text, 255) is Some && protocol_named(text)
            == protocol_of(bounded_number(text, 255)->0 as u8),
{
    law_number_round_trip(number as nat);
}

} // verus!
