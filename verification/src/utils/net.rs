//! Building IPv4 packets.

use crate::addr::Ipv4Addr;
use crate::header::{ipv4_header, write_ipv4_header};
use crate::net::vtlink::link::Link;
use vstd::prelude::*;

verus! {

/// Collects the parts of an IPv4 packet.
#[derive(Copy, Clone)]
pub struct Ipv4PacketBuilder<'a> {
    pub payload: Option<&'a [u8]>,
    pub ttl: Option<u8>,
    pub protocol: Option<u8>,
    pub src: Option<Ipv4Addr>,
    pub dst: Option<Ipv4Addr>,
}

#[derive(Debug, PartialEq, Eq, Structural)]
pub enum BuildError {
    NoPayload,
    NoProtocol,
    NoSourceAddress,
    NoDestinationAddress,
    PayloadTooLong,
}

/// The time to live of a packet for which none was chosen.
pub open spec fn default_ttl() -> u8 {
    15
}

/// The bytes of an IPv4 packet.
pub open spec fn ipv4_packet(
    src: Ipv4Addr,
    dst: Ipv4Addr,
    protocol: u8,
    ttl: u8,
    payload: Seq<u8>,
) -> Seq<u8> {
    ipv4_header(payload.len() as u16, ttl, protocol, src, dst) + payload
}

impl<'a> Default for Ipv4PacketBuilder<'a> {
    fn default() -> (r: Self)
        ensures
            r == (Ipv4PacketBuilder {
                payload: None,
                ttl: None,
                protocol: None,
                src: None,
                dst: None,
            }),
    {
        Ipv4PacketBuilder { payload: None, ttl: None, protocol: None, src: None, dst: None }
    }
}

impl<'a> Ipv4PacketBuilder<'a> {
    pub fn with_payload(&mut self, payload: &'a [u8]) -> (r: &mut Self)
        ensures
            *r == (Ipv4PacketBuilder { payload: Some(payload), ..*old(self) }),
            *final(self) == *final(r),
    {
        self.payload = Some(payload);
        self
    }

    pub fn with_ttl(&mut self, ttl: u8) -> (r: &mut Self)
        ensures
            *r == (Ipv4PacketBuilder { ttl: Some(ttl), ..*old(self) }),
            *final(self) == *final(r),
    {
        self.ttl = Some(ttl);
        self
    }

    pub fn with_protocol(&mut self, protocol: u8) -> (r: &mut Self)
        ensures
            *r == (Ipv4PacketBuilder { protocol: Some(protocol), ..*old(self) }),
            *final(self) == *final(r),
    {
        self.protocol = Some(protocol);
        self
    }

    pub fn with_src(&mut self, src: Ipv4Addr) -> (r: &mut Self)
        ensures
            *r == (Ipv4PacketBuilder { src: Some(src), ..*old(self) }),
            *final(self) == *final(r),
    {
        self.src = Some(src);
        self
    }

    pub fn with_dst(&mut self, dst: Ipv4Addr) -> (r: &mut Self)
        ensures
            *r == (Ipv4PacketBuilder { dst: Some(dst), ..*old(self) }),
            *final(self) == *final(r),
    {
        self.dst = Some(dst);
        self
    }

    /// Addresses the packet from one end of a link to the other.
    pub fn using_link(&mut self, link: &Link) -> (r: &mut Self)
        ensures
            *r == (Ipv4PacketBuilder {
                src: Some(link.src_virtual_ip),
                dst: Some(link.dest_virtual_ip),
                ..*old(self)
            }),
            *final(self) == *final(r),
    {
        self.src = Some(link.source());
        self.dst = Some(link.dest());
        self
    }

    /// Whether everything but the time to live has been given.
    pub open spec fn complete(self) -> bool {
        self.payload is Some && self.protocol is Some && self.src is Some && self.dst is Some
    }

    /// Builds the packet. What is missing is reported in the order payload, length of the
    /// payload, protocol, source and destination.
    ///
    /// A payload that fits in sixteen bits, but not together with the header, has no packet.
    pub fn build(self) -> (r: Result<Vec<u8>, BuildError>)
        requires
            self.complete() ==> !(65515 < self.payload->0@.len() <= 65535),
        ensures
            match r {
                Ok(packet) => {
                    &&& self.complete()
                    &&& self.payload->0@.len() <= 65515
                    &&& packet@ == ipv4_packet(
                        self.src->0,
                        self.dst->0,
                        self.protocol->0,
                        match self.ttl {
                            Some(ttl) => ttl,
                            None => default_ttl(),
                        },
                        self.payload->0@,
                    )
                },
                Err(BuildError::NoPayload) => self.payload is None,
                Err(BuildError::PayloadTooLong) => self.payload is Some && self.payload->0@.len()
                    > 65535,
                Err(BuildError::NoProtocol) => {
                    &&& self.payload is Some
                    &&& self.payload->0@.len() <= 65535
                    &&& self.protocol is None
                },
                Err(BuildError::NoSourceAddress) => {
                    &&& self.payload is Some
                    &&& self.payload->0@.len() <= 65535
                    &&& self.protocol is Some
                    &&& self.src is None
                },
                Err(BuildError::NoDestinationAddress) => {
                    &&& self.payload is Some
                    &&& self.payload->0@.len() <= 65535
                    &&& self.protocol is Some
                    &&& self.src is Some
                    &&& self.dst is None
                },
            },
    {
        let payload = match self.payload {
            Some(payload) => payload,
            None => return Err(BuildError::NoPayload),
        };
        if payload.len() > 65535 {
            return Err(BuildError::PayloadTooLong);
        }
        let payload_len: u16 = payload.len() as u16;
        let protocol: u8 = match self.protocol {
            Some(protocol) => protocol,
            None => return Err(BuildError::NoProtocol),
        };
        let src = match self.src {
            Some(src) => src,
            None => return Err(BuildError::NoSourceAddress),
        };
        let dst = match self.dst {
            Some(dst) => dst,
            None => return Err(BuildError::NoDestinationAddress),
        };
        let ttl: u8 = match self.ttl {
            Some(ttl) => ttl,
            None => Ipv4PacketBuilder::default_ttl(),
        };
        let mut buf = write_ipv4_header(payload_len, ttl, protocol, src, dst);
        buf.extend_from_slice(payload);
        assert(buf@ =~= ipv4_packet(src, dst, protocol, ttl, payload@));
        Ok(buf)
    }

    fn default_ttl() -> (r: u8)
        ensures
            r == default_ttl(),
    {
        15
    }
}

} // verus!
