//! A protocol that shows the packets it receives.

use crate::addr::Ipv4Addr;
use crate::header::{is_ipv4_header, lemma_written_header_layout, Ipv4Header};
use crate::message::Message;
use crate::net::vtlink::laws::lemma_packet;
use crate::text::{decimal, dotted, show_ipv4, show_number};
use crate::utils::net::ipv4_packet;
use vstd::prelude::*;
use vstd::utf8::{decode_utf8, encode_utf8, valid_utf8};

verus! {

/// What `String::from_utf8_lossy` makes of the bytes: a text in which invalid parts are replaced.
pub uninterp spec fn utf8_lossy(bytes: Seq<u8>) -> Seq<char>;

/// `String::from_utf8_lossy`: the bytes as a text. Bytes that are valid UTF-8 are not changed.
#[verifier::external_body]
fn show_bytes(bytes: &[u8]) -> (r: String)
    ensures
        r@ == utf8_lossy(bytes@),
        valid_utf8(bytes@) ==> r@ == decode_utf8(bytes@),
{
    String::from_utf8_lossy(bytes).into_owned()
}

/// The length of a text in bytes, modulo the numbers of sixteen bits.
fn truncated_len(len: usize) -> (r: u16)
    ensures
        r == len as u16,
{
    #[verifier::truncate]
    let r: u16 = len as u16;
    r
}

pub struct TestHandler {}

impl Default for TestHandler {
    fn default() -> (r: Self)
        ensures
            r == (TestHandler {  }),
    {
        TestHandler {  }
    }
}

/// A packet as it is shown.
pub struct TestMessage {
    pub payload_len: u16,
    pub ttl: u8,
    pub protocol: u8,
    pub source: Ipv4Addr,
    pub destination: Ipv4Addr,
    pub payload: Vec<u8>,
}

/// Whether a message says what a packet does, with one hop less to live, where it has any left.
pub open spec fn shows_packet(message: TestMessage, header: Ipv4Header, payload: Seq<u8>) -> bool {
    &&& message.payload_len == header.payload_len
    &&& message.ttl == if header.ttl > 0 {
        header.ttl - 1
    } else {
        0
    }
    &&& message.protocol == header.protocol
    &&& message.source == header.source
    &&& message.destination == header.destination
    &&& message.payload@ == payload
}

/// How a packet is shown, with the text of its payload.
pub open spec fn shown(
    source: Ipv4Addr,
    destination: Ipv4Addr,
    protocol: u8,
    payload_len: u16,
    payload: Seq<char>,
) -> Seq<char> {
    "---Node received packet!---\n\tsource IP\t:\t"@ + dotted(source)
        + "\n\tdestination IP\t:\t"@ + dotted(destination) + "\n\tprotocol\t:\t"@ + decimal(
        protocol as nat,
    ) + "\n\tpayload length\t:\t"@ + decimal(payload_len as nat) + "\n\tpayload\t\t:\t"@ + payload
        + "\n---------------------------\n        "@
}

impl TestMessage {
    /// The message that a packet carries.
    pub fn from_packet(header: &Ipv4Header, payload: &[u8]) -> (r: Self)
        ensures
            shows_packet(r, *header, payload@),
    {
        let mut bytes: Vec<u8> = Vec::new();
        bytes.extend_from_slice(payload);
        assert(bytes@ =~= payload@);
        Self {
            payload_len: header.payload_len,
            // A packet for this host is shown even if it has no hops left.
            ttl: if header.ttl > 0 {
                header.ttl - 1
            } else {
                0
            },
            protocol: header.protocol,
            source: header.source,
            destination: header.destination,
            payload: bytes,
        }
    }

    /// A message with the given text, from nowhere to nowhere.
    pub fn from_payload(payload: String) -> (r: Self)
        ensures
            r.payload@ == encode_utf8(payload@),
            r.payload_len == encode_utf8(payload@).len() as u16,
            r.ttl == 15,
            r.protocol == 0,
            r.source == (Ipv4Addr { a: 0, b: 0, c: 0, d: 0 }),
            r.destination == (Ipv4Addr { a: 0, b: 0, c: 0, d: 0 }),
    {
        let source = Ipv4Addr::new(0, 0, 0, 0);
        let mut bytes: Vec<u8> = Vec::new();
        bytes.extend_from_slice(payload.as_str().as_bytes());
        assert(bytes@ =~= encode_utf8(payload@));
        let payload_len: u16 = truncated_len(bytes.len());
        Self {
            payload_len,
            ttl: 15,
            protocol: 0,
            source,
            destination: source,
            payload: bytes,
        }
    }

    /// How a packet is shown, where `payload` is the text of its payload.
    pub fn show_with(&self, payload: &str) -> (r: String)
        ensures
            r@ == shown(
                self.source,
                self.destination,
                self.protocol,
                self.payload_len,
                payload@,
            ),
    {
        let mut r = String::from_str("---Node received packet!---\n\tsource IP\t:\t");
        r.append(show_ipv4(self.source).as_str());
        r.append("\n\tdestination IP\t:\t");
        r.append(show_ipv4(self.destination).as_str());
        r.append("\n\tprotocol\t:\t");
        r.append(show_number(self.protocol as u64).as_str());
        r.append("\n\tpayload length\t:\t");
        r.append(show_number(self.payload_len as u64).as_str());
        r.append("\n\tpayload\t\t:\t");
        r.append(payload);
        r.append("\n---------------------------\n        ");
        r
    }

    /// How a packet is shown.
    pub fn to_text(&self) -> (r: String)
        ensures
            r@ == shown(
                self.source,
                self.destination,
                self.protocol,
                self.payload_len,
                utf8_lossy(self.payload@),
            ),
            valid_utf8(self.payload@) ==> r@ == shown(
                self.source,
                self.destination,
                self.protocol,
                self.payload_len,
                decode_utf8(self.payload@),
            ),
    {
        let payload = show_bytes(self.payload.as_slice());
        self.show_with(payload.as_str())
    }
}

impl Message for TestMessage {
    open spec fn can_encode(&self) -> bool {
        true
    }

    open spec fn encoded(&self) -> Seq<u8> {
        self.payload@
    }

    /// A packet holds a message where it starts with a header.
    open spec fn can_decode(bytes: Seq<u8>) -> bool {
        is_ipv4_header(bytes)
    }

    open spec fn decodes(bytes: Seq<u8>, message: Self) -> bool {
        exists|header: Ipv4Header| #[trigger]
            header.reads(bytes) && shows_packet(
                message,
                header,
                bytes.skip(header.slice@.len() as int),
            )
    }

    fn into_bytes(self) -> (r: Vec<u8>) {
        self.payload
    }

    fn from_bytes(bytes: &[u8]) -> (r: Self) {
        match Ipv4Header::from_slice(bytes) {
            Some(header) => {
                let n: usize = header.slice.len();
                let payload = &bytes[n..bytes.len()];
                assert(payload@ =~= bytes@.skip(n as int));
                Self::from_packet(&header, payload)
            },
            None => Self::from_payload(String::new()),
        }
    }
}

impl TestHandler {
    /// What is shown of a packet.
    pub fn handle_packet(&self, header: &Ipv4Header, payload: &[u8]) -> (r: String)
        ensures
            r@ == shown(
                header.source,
                header.destination,
                header.protocol,
                header.payload_len,
                utf8_lossy(payload@),
            ),
            valid_utf8(payload@) ==> r@ == shown(
                header.source,
                header.destination,
                header.protocol,
                header.payload_len,
                decode_utf8(payload@),
            ),
    {
        TestMessage::from_packet(header, payload).to_text()
    }
}

/// A message that is read from a packet has the payload, the ends and the protocol of the packet, and
/// one hop less to live, where there is one left.
pub proof fn law_packets_are_read_as_messages(
    src: Ipv4Addr,
    dst: Ipv4Addr,
    protocol: u8,
    ttl: u8,
    payload: Seq<u8>,
    message: TestMessage,
)
    requires
        payload.len() <= 65515,
        TestMessage::decodes(ipv4_packet(src, dst, protocol, ttl, payload), message),
    ensures
        message.payload@ == payload,
        message.payload_len == payload.len(),
        message.source == src,
        message.destination == dst,
        message.protocol == protocol,
        ttl > 0 ==> message.ttl + 1 == ttl,
        ttl == 0 ==> message.ttl == 0,
{
    let bytes = ipv4_packet(src, dst, protocol, ttl, payload);
    let header = choose|header: Ipv4Header| #[trigger]
        header.reads(bytes) && shows_packet(
            message,
            header,
            bytes.skip(header.slice@.len() as int),
        );
    lemma_packet(src, dst, protocol, ttl, payload, header);
    lemma_written_header_layout(payload.len() as u16, ttl, protocol, src, dst, payload);
    assert(header.slice@.len() == 20);
}

} // verus!
