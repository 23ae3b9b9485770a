//! IPv4 and TCP headers, as bytes and as fields.

use crate::addr::Ipv4Addr;
use rand::Rng;
use vstd::prelude::*;

verus! {

/// The number that two bytes write in big-endian order.
pub open spec fn be16(hi: u8, lo: u8) -> int {
    hi * 0x100 + lo
}

/// The number that four bytes write in big-endian order.
pub open spec fn be32(b: Seq<u8>) -> int {
    b[0] * 0x100_0000 + b[1] * 0x1_0000 + b[2] * 0x100 + b[3]
}

/// The two bytes of a number in big-endian order.
pub open spec fn be16_bytes(n: u16) -> Seq<u8> {
    seq![(n / 0x100) as u8, (n % 0x100) as u8]
}

/// The four bytes of a number in big-endian order.
pub open spec fn be32_bytes(n: u32) -> Seq<u8> {
    seq![
        (n / 0x100_0000) as u8,
        (n / 0x1_0000 % 0x100) as u8,
        (n / 0x100 % 0x100) as u8,
        (n % 0x100) as u8,
    ]
}

/// Two bytes write the number that they were made of.
pub proof fn lemma_be16_round_trip(n: u16)
    ensures
        be16_bytes(n).len() == 2,
        be16(be16_bytes(n)[0], be16_bytes(n)[1]) == n,
{
}

/// Four bytes write the number that they were made of.
pub proof fn lemma_be32_round_trip(n: u32)
    ensures
        be32_bytes(n).len() == 4,
        be32(be32_bytes(n)) == n,
{
}

/// Reads a big-endian number of two bytes.
pub fn read_be16(hi: u8, lo: u8) -> (r: u16)
    ensures
        r == be16(hi, lo),
{
    hi as u16 * 0x100 + lo as u16
}

/// Reads a big-endian number of four bytes.
pub fn read_be32(b0: u8, b1: u8, b2: u8, b3: u8) -> (r: u32)
    ensures
        r == be32(seq![b0, b1, b2, b3]),
{
    b0 as u32 * 0x100_0000 + b1 as u32 * 0x1_0000 + b2 as u32 * 0x100 + b3 as u32
}

/// Appends a number of two bytes in big-endian order.
pub fn push_be16(v: &mut Vec<u8>, n: u16)
    ensures
        final(v)@ == old(v)@ + be16_bytes(n),
{
    v.push((n / 0x100) as u8);
    v.push((n % 0x100) as u8);
    assert(v@ =~= old(v)@ + be16_bytes(n));
}

/// Appends a number of four bytes in big-endian order.
pub fn push_be32(v: &mut Vec<u8>, n: u32)
    ensures
        final(v)@ == old(v)@ + be32_bytes(n),
{
    v.push((n / 0x100_0000) as u8);
    v.push((n / 0x1_0000 % 0x100) as u8);
    v.push((n / 0x100 % 0x100) as u8);
    v.push((n % 0x100) as u8);
    assert(v@ =~= old(v)@ + be32_bytes(n));
}

/// Appends the octets of an address.
pub fn push_addr(v: &mut Vec<u8>, addr: Ipv4Addr)
    ensures
        final(v)@ == old(v)@ + addr@,
{
    v.push(addr.a);
    v.push(addr.b);
    v.push(addr.c);
    v.push(addr.d);
    assert(v@ =~= old(v)@ + addr@);
}

/// The length in bytes of the IPv4 header that starts with the byte `first`.
pub open spec fn ipv4_header_len(first: u8) -> int {
    (first % 16) * 4
}

/// Whether `b` starts with an IPv4 header whose lengths are in order.
pub open spec fn is_ipv4_header(b: Seq<u8>) -> bool {
    &&& b.len() >= 20
    &&& b[0] / 16 == 4
    &&& ipv4_header_len(b[0]) >= 20
    &&& b.len() >= ipv4_header_len(b[0])
    &&& be16(b[2], b[3]) >= ipv4_header_len(b[0])
}

/// An IPv4 header that was read from bytes.
pub struct Ipv4Header {
    pub payload_len: u16,
    pub ttl: u8,
    pub protocol: u8,
    pub header_checksum: u16,
    pub source: Ipv4Addr,
    pub destination: Ipv4Addr,
    /// The bytes of the header.
    pub slice: Vec<u8>,
}

impl Ipv4Header {
    /// Whether the fields are those of the header that `b` starts with.
    pub open spec fn reads(self, b: Seq<u8>) -> bool {
        &&& is_ipv4_header(b)
        &&& self.payload_len == be16(b[2], b[3]) - ipv4_header_len(b[0])
        &&& self.ttl == b[8]
        &&& self.protocol == b[9]
        &&& self.header_checksum == be16(b[10], b[11])
        &&& self.source@ == b.subrange(12, 16)
        &&& self.destination@ == b.subrange(16, 20)
        &&& self.slice@ == b.subrange(0, ipv4_header_len(b[0]))
    }

    /// The fields are those that the bytes of the header hold.
    pub open spec fn wf(self) -> bool {
        self.reads(self.slice@)
    }

    /// Reads the header at the start of `bytes`, where there is one.
    pub fn from_slice(bytes: &[u8]) -> (r: Option<Ipv4Header>)
        ensures
            match r {
                Some(h) => h.reads(bytes@) && h.wf(),
                None => !is_ipv4_header(bytes@),
            },
    {
        let r = read_ipv4_header(bytes);
        proof {
            if r is Some {
                let s = r->0.slice@;
                assert(s.subrange(12, 16) =~= bytes@.subrange(12, 16));
                assert(s.subrange(16, 20) =~= bytes@.subrange(16, 20));
                assert(s.subrange(0, ipv4_header_len(s[0])) =~= s);
            }
        }
        r
    }
}

/// `etherparse::Ipv4HeaderSlice::from_slice`, with the getters `payload_len`, `ttl`,
/// `protocol`, `header_checksum`, `source`, `destination` and `slice` of its result.
/// It succeeds on a version 4 header of at least five words that the bytes hold
/// whole and that is no longer than its total length, and the getters read the
/// fields at their offsets in network order.
#[verifier::external_body]
fn read_ipv4_header(bytes: &[u8]) -> (r: Option<Ipv4Header>)
    ensures
        match r {
            Some(h) => h.reads(bytes@),
            None => !is_ipv4_header(bytes@),
        },
{
    let h = etherparse::Ipv4HeaderSlice::from_slice(bytes).ok()?;
    let [a, b, c, d] = h.source();
    let source = Ipv4Addr { a, b, c, d };
    let [a, b, c, d] = h.destination();
    Some(Ipv4Header {
        payload_len: h.payload_len(),
        ttl: h.ttl(),
        protocol: h.protocol(),
        header_checksum: h.header_checksum(),
        source,
        destination: Ipv4Addr { a, b, c, d },
        slice: h.slice().to_vec(),
    })
}

/// The sum of the big-endian words of two bytes that `b` is made of. A last byte without another
/// is followed by a zero.
pub open spec fn words_sum(b: Seq<u8>) -> int
    decreases b.len(),
{
    if b.len() == 0 {
        0
    } else if b.len() == 1 {
        be16(b[0], 0)
    } else {
        be16(b[0], b[1]) + words_sum(b.skip(2))
    }
}

/// The checksum of words with the given sum, which is more than zero: the complement of their
/// one's complement sum, in which what is carried out of the highest bit is added to the lowest.
pub open spec fn internet_checksum(sum: int) -> u16 {
    (0xffff - ((sum - 1) % 0xffff + 1)) as u16
}

/// A header with zeros in the place of its checksum.
pub open spec fn without_checksum(header: Seq<u8>) -> Seq<u8> {
    header.update(10, 0).update(11, 0)
}

/// The checksum of an IPv4 header whose bytes hold zeros in the place of the checksum. The
/// highest bit of the seventh byte, which is reserved, is not summed.
pub open spec fn ipv4_checksum(header: Seq<u8>) -> u16 {
    internet_checksum(words_sum(header.update(6, (header[6] % 128) as u8)))
}

/// `etherparse::Ipv4Header::calc_header_checksum`, on the header that
/// `Ipv4HeaderSlice::to_header` gives for these bytes. It adds up the words of the header other
/// than the checksum, with their carries, and returns the complement. The header that
/// `to_header` gives has no reserved flag. A header that was read is in the ranges that the
/// function checks, so it does not fail.
#[verifier::external_body]
fn calc_ipv4_checksum(header: &[u8]) -> (r: Option<u16>)
    requires
        is_ipv4_header(header@),
        header@.len() == ipv4_header_len(header@[0]),
    ensures
        r == Some(ipv4_checksum(without_checksum(header@))),
{
    etherparse::Ipv4HeaderSlice::from_slice(header).ok()?.to_header().calc_header_checksum().ok()
}

/// Whether a header holds the checksum of its other fields.
pub open spec fn checksum_holds(header: Ipv4Header) -> bool {
    header.header_checksum == ipv4_checksum(without_checksum(header.slice@))
}

/// Whether the checksum of a header is that of its other fields.
pub fn verify_header_checksum(header: &Ipv4Header) -> (r: bool)
    requires
        header.wf(),
    ensures
        r == checksum_holds(*header),
{
    match calc_ipv4_checksum(header.slice.as_slice()) {
        Some(expected_checksum) => expected_checksum == header.header_checksum,
        None => false,
    }
}

/// The bytes of an IPv4 header without options, with the given checksum.
pub open spec fn ipv4_header_bytes(
    payload_len: u16,
    ttl: u8,
    protocol: u8,
    checksum: u16,
    src: Ipv4Addr,
    dst: Ipv4Addr,
) -> Seq<u8> {
    seq![0x45u8, 0u8] + be16_bytes((payload_len + 20) as u16) + seq![0u8, 0u8, 0x40u8, 0u8, ttl,
        protocol] + be16_bytes(checksum) + src@ + dst@
}

/// The bytes of an IPv4 header without options, with its own checksum.
pub open spec fn ipv4_header(
    payload_len: u16,
    ttl: u8,
    protocol: u8,
    src: Ipv4Addr,
    dst: Ipv4Addr,
) -> Seq<u8> {
    ipv4_header_bytes(
        payload_len,
        ttl,
        protocol,
        ipv4_checksum(ipv4_header_bytes(payload_len, ttl, protocol, 0, src, dst)),
        src,
        dst,
    )
}

/// `etherparse::Ipv4Header::new` and `etherparse::Ipv4Header::write`, into a `Vec`. A
/// header made by `new` has no options, allows no fragmentation and has zeros in
/// the remaining fields. `write` emits the twenty bytes of the header with the checksum that
/// `calc_header_checksum` gives for it, and fails only where the payload length is
/// out of range.
#[verifier::external_body]
pub(crate) fn write_ipv4_header(
    payload_len: u16,
    ttl: u8,
    protocol: u8,
    src: Ipv4Addr,
    dst: Ipv4Addr,
) -> (r: Vec<u8>)
    requires
        payload_len <= 65515,
    ensures
        r@ == ipv4_header(payload_len, ttl, protocol, src, dst),
{
    let mut buf = Vec::new();
    let src = [src.a, src.b, src.c, src.d];
    let dst = [dst.a, dst.b, dst.c, dst.d];
    etherparse::Ipv4Header::new(payload_len, ttl, protocol, src, dst)
        .write(&mut buf)
        .expect("IP header serialization error");
    buf
}

/// A header that was written reads back with the fields that it was written with,
/// and its checksum holds.
pub proof fn law_written_header_reads_back(
    payload_len: u16,
    ttl: u8,
    protocol: u8,
    src: Ipv4Addr,
    dst: Ipv4Addr,
    rest: Seq<u8>,
    header: Ipv4Header,
)
    requires
        payload_len <= 65515,
        header.reads(ipv4_header(payload_len, ttl, protocol, src, dst) + rest),
    ensures
        header.payload_len == payload_len,
        header.ttl == ttl,
        header.protocol == protocol,
        header.source == src,
        header.destination == dst,
        header.slice@ == ipv4_header(payload_len, ttl, protocol, src, dst),
        checksum_holds(header),
{
    let zero = ipv4_header_bytes(payload_len, ttl, protocol, 0, src, dst);
    let h = ipv4_header(payload_len, ttl, protocol, src, dst);
    let b = h + rest;
    lemma_written_header_layout(payload_len, ttl, protocol, src, dst, rest);
    assert(header.source@ =~= src@);
    assert(header.destination@ =~= dst@);
    crate::addr::lemma_same_octets(header.source, src);
    crate::addr::lemma_same_octets(header.destination, dst);
    assert(b.subrange(0, 20) =~= h);
    assert(without_checksum(h) =~= zero);
}

/// Where the fields of a written header lie.
pub proof fn lemma_written_header_layout(
    payload_len: u16,
    ttl: u8,
    protocol: u8,
    src: Ipv4Addr,
    dst: Ipv4Addr,
    rest: Seq<u8>,
)
    requires
        payload_len <= 65515,
    ensures
        ({
            let h = ipv4_header(payload_len, ttl, protocol, src, dst);
            let b = h + rest;
            let sum = ipv4_checksum(ipv4_header_bytes(payload_len, ttl, protocol, 0, src, dst));
            &&& h.len() == 20
            &&& is_ipv4_header(b)
            &&& ipv4_header_len(b[0]) == 20
            &&& be16(b[2], b[3]) == payload_len + 20
            &&& b[8] == ttl
            &&& b[9] == protocol
            &&& be16(b[10], b[11]) == sum
            &&& b.subrange(12, 16) == src@
            &&& b.subrange(16, 20) == dst@
        }),
{
    let h = ipv4_header(payload_len, ttl, protocol, src, dst);
    let b = h + rest;
    assert(b.subrange(12, 16) =~= src@);
    assert(b.subrange(16, 20) =~= dst@);
}

/// The fields of a TCP header that this stack sets and reads. A header that is
/// written has no options and no other flags.
#[derive(Clone, Copy, Debug, PartialEq, Eq, Structural)]
pub struct TcpHeader {
    pub source_port: u16,
    pub destination_port: u16,
    pub sequence_number: u32,
    pub acknowledgment_number: u32,
    pub fin: bool,
    pub syn: bool,
    pub ack: bool,
    pub window_size: u16,
    pub checksum: u16,
}

/// One where a flag is set, and zero where it is not.
pub open spec fn bit(flag: bool) -> int {
    if flag {
        1
    } else {
        0
    }
}

impl TcpHeader {
    /// The header with the given ports, sequence number and window, no flags and zeros
    /// elsewhere.
    pub open spec fn plain(
        source_port: u16,
        destination_port: u16,
        sequence_number: u32,
        window_size: u16,
    ) -> TcpHeader {
        TcpHeader {
            source_port,
            destination_port,
            sequence_number,
            acknowledgment_number: 0,
            fin: false,
            syn: false,
            ack: false,
            window_size,
            checksum: 0,
        }
    }

    /// The twenty bytes of the header.
    pub open spec fn bytes(self) -> Seq<u8> {
        be16_bytes(self.source_port) + be16_bytes(self.destination_port) + be32_bytes(
            self.sequence_number,
        ) + be32_bytes(self.acknowledgment_number) + seq![
            0x50u8,
            (bit(self.fin) + bit(self.syn) * 2 + bit(self.ack) * 16) as u8,
        ] + be16_bytes(self.window_size) + be16_bytes(self.checksum) + seq![0u8, 0u8]
    }

    /// Whether the fields are those of the TCP header that `b` starts with.
    pub open spec fn reads(self, b: Seq<u8>) -> bool {
        &&& is_tcp_header(b)
        &&& self.source_port == be16(b[0], b[1])
        &&& self.destination_port == be16(b[2], b[3])
        &&& self.sequence_number == be32(b.subrange(4, 8))
        &&& self.acknowledgment_number == be32(b.subrange(8, 12))
        &&& self.fin == (b[13] % 2 == 1)
        &&& self.syn == (b[13] / 2 % 2 == 1)
        &&& self.ack == (b[13] / 16 % 2 == 1)
        &&& self.window_size == be16(b[14], b[15])
        &&& self.checksum == be16(b[16], b[17])
    }

    /// A header with the given ports, sequence number and window.
    pub fn new(
        source_port: u16,
        destination_port: u16,
        sequence_number: u32,
        window_size: u16,
    ) -> (r: TcpHeader)
        ensures
            r == TcpHeader::plain(source_port, destination_port, sequence_number, window_size),
    {
        TcpHeader {
            source_port,
            destination_port,
            sequence_number,
            acknowledgment_number: 0,
            fin: false,
            syn: false,
            ack: false,
            window_size,
            checksum: 0,
        }
    }

    /// Reads the header at the start of `bytes`, and its length, where there is one.
    pub fn from_slice(bytes: &[u8]) -> (r: Option<(TcpHeader, usize)>)
        ensures
            match r {
                Some((h, len)) => h.reads(bytes@) && len == tcp_header_len(bytes@[12]),
                None => !is_tcp_header(bytes@),
            },
    {
        read_tcp_header(bytes)
    }
}

/// The length in bytes of the TCP header whose thirteenth byte is `offset`.
pub open spec fn tcp_header_len(offset: u8) -> int {
    (offset / 16) * 4
}

/// Whether `b` starts with a TCP header that it holds whole.
pub open spec fn is_tcp_header(b: Seq<u8>) -> bool {
    &&& b.len() >= 20
    &&& tcp_header_len(b[12]) >= 20
    &&& b.len() >= tcp_header_len(b[12])
}

/// `etherparse::TcpHeaderSlice::from_slice`, with the getters for the fields of
/// `TcpHeader` and `slice` for the length. It succeeds on a header of at least five words
/// that the bytes hold whole, and the getters read the fields at their offsets in network
/// order.
#[verifier::external_body]
fn read_tcp_header(bytes: &[u8]) -> (r: Option<(TcpHeader, usize)>)
    ensures
        match r {
            Some((h, len)) => h.reads(bytes@) && len == tcp_header_len(bytes@[12]),
            None => !is_tcp_header(bytes@),
        },
{
    let h = etherparse::TcpHeaderSlice::from_slice(bytes).ok()?;
    let header = TcpHeader {
        source_port: h.source_port(),
        destination_port: h.destination_port(),
        sequence_number: h.sequence_number(),
        acknowledgment_number: h.acknowledgment_number(),
        fin: h.fin(),
        syn: h.syn(),
        ack: h.ack(),
        window_size: h.window_size(),
        checksum: h.checksum(),
    };
    Some((header, h.slice().len()))
}

/// The checksum of a segment from `src` to `dst` whose header has these bytes, which hold zeros in
/// the place of the checksum. It is that of the addresses, the protocol, the length of the
/// segment, the header and the payload.
pub open spec fn tcp_checksum(
    header: Seq<u8>,
    src: Seq<u8>,
    dst: Seq<u8>,
    payload: Seq<u8>,
) -> u16 {
    internet_checksum(
        words_sum(src) + words_sum(dst) + 6 + (header.len() + payload.len()) + words_sum(header)
            + words_sum(payload),
    )
}

/// The checksum of a header that is sent from `src` to `dst` in front of `payload`.
pub open spec fn tcp_sum(
    header: TcpHeader,
    src: Ipv4Addr,
    dst: Ipv4Addr,
    payload: Seq<u8>,
) -> u16 {
    tcp_checksum((TcpHeader { checksum: 0, ..header }).bytes(), src@, dst@, payload)
}

/// `etherparse::TcpHeader::calc_checksum_ipv4_raw`, on a header without options and
/// with the fields of `header`. It adds up the words of the addresses, the protocol, the length,
/// the fields other than the checksum and the payload, with their carries, and returns the
/// complement. It fails where the segment is longer than 65535 bytes.
#[verifier::external_body]
fn calc_tcp_checksum(header: TcpHeader, src: [u8; 4], dst: [u8; 4], payload: &[u8]) -> (r: Option<
    u16,
>)
    ensures
        match r {
            Some(sum) => 20 + payload@.len() <= 65535 && sum == tcp_checksum(
                (TcpHeader { checksum: 0, ..header }).bytes(),
                src@,
                dst@,
                payload@,
            ),
            None => 20 + payload@.len() > 65535,
        },
{
    let (sport, dport) = (header.source_port, header.destination_port);
    let mut h =
        etherparse::TcpHeader::new(sport, dport, header.sequence_number, header.window_size);
    h.acknowledgment_number = header.acknowledgment_number;
    h.fin = header.fin;
    h.syn = header.syn;
    h.ack = header.ack;
    h.calc_checksum_ipv4_raw(src, dst, payload).ok()
}

/// `etherparse::TcpHeader::new` and `etherparse::TcpHeader::write`, into a `Vec`. A
/// header made by `new` has no options, no flags and zeros in the remaining
/// fields, and `write` emits its twenty bytes as they are, the checksum too.
#[verifier::external_body]
fn write_tcp_header(header: TcpHeader) -> (r: Vec<u8>)
    ensures
        r@ == header.bytes(),
{
    let (sport, dport) = (header.source_port, header.destination_port);
    let mut h =
        etherparse::TcpHeader::new(sport, dport, header.sequence_number, header.window_size);
    h.acknowledgment_number = header.acknowledgment_number;
    h.fin = header.fin;
    h.syn = header.syn;
    h.ack = header.ack;
    h.checksum = header.checksum;
    let mut bytes = Vec::new();
    h.write(&mut bytes).unwrap();
    bytes
}

/// The bytes of a segment: the header with its checksum, and the payload.
pub open spec fn tcp_segment(
    header: TcpHeader,
    src: Ipv4Addr,
    dst: Ipv4Addr,
    payload: Seq<u8>,
) -> Seq<u8> {
    (TcpHeader { checksum: tcp_sum(header, src, dst, payload), ..header }).bytes() + payload
}

/// Writes a segment, with its checksum.
pub fn write_segment(header: TcpHeader, src: Ipv4Addr, dst: Ipv4Addr, payload: &[u8]) -> (r: Vec<
    u8,
>)
    requires
        20 + payload@.len() <= 65535,
    ensures
        r@ == tcp_segment(header, src, dst, payload@),
{
    let mut header = header;
    let ghost plain = header;
    match calc_tcp_checksum(header, src.octets(), dst.octets(), payload) {
        Some(checksum) => {
            header.checksum = checksum;
        },
        None => {},
    }
    let mut bytes = write_tcp_header(header);
    bytes.extend_from_slice(payload);
    assert(bytes@ =~= tcp_segment(plain, src, dst, payload@));
    bytes
}

/// A segment that was written reads back with the fields that it was written with, its checksum
/// and its payload.
pub proof fn law_written_segment_reads_back(
    sent: TcpHeader,
    src: Ipv4Addr,
    dst: Ipv4Addr,
    payload: Seq<u8>,
    received: TcpHeader,
)
    requires
        received.reads(tcp_segment(sent, src, dst, payload)),
    ensures
        received == (TcpHeader { checksum: tcp_sum(sent, src, dst, payload), ..sent }),
        tcp_segment(sent, src, dst, payload).skip(
            tcp_header_len(tcp_segment(sent, src, dst, payload)[12]),
        ) == payload,
{
    let h = TcpHeader { checksum: tcp_sum(sent, src, dst, payload), ..sent };
    let b = tcp_segment(sent, src, dst, payload);
    lemma_be32_round_trip(h.sequence_number);
    lemma_be32_round_trip(h.acknowledgment_number);
    assert(h.bytes().len() == 20);
    assert(b.subrange(4, 8) =~= be32_bytes(h.sequence_number));
    assert(b.subrange(8, 12) =~= be32_bytes(h.acknowledgment_number));
    assert(b[12] == 0x50u8);
    assert(b[13] == (bit(h.fin) + bit(h.syn) * 2 + bit(h.ack) * 16) as u8);
    assert(b.skip(20) =~= payload);
}

/// The checksum of a segment from `src` to `dst` whose header is the one that `header` starts
/// with, where the segment is not too long to have one.
pub open spec fn tcp_slice_checksum(
    header: Seq<u8>,
    src: Seq<u8>,
    dst: Seq<u8>,
    payload: Seq<u8>,
) -> Option<u16> {
    let bytes = header.take(tcp_header_len(header[12]));
    if bytes.len() + payload.len() <= 65535 {
        Some(tcp_checksum(bytes.update(16, 0).update(17, 0), src, dst, payload))
    } else {
        None
    }
}

/// `etherparse::TcpHeaderSlice::calc_checksum_ipv4_raw`, on the header that `header` starts
/// with. It adds up the words of the addresses, the protocol, the length, the header without the
/// checksum and the payload, with their carries, and returns the complement; or `None`, where it
/// fails: the header and the payload are longer than 65535 bytes.
#[verifier::external_body]
pub(crate) fn calc_tcp_slice_checksum(
    header: &[u8],
    src: [u8; 4],
    dst: [u8; 4],
    payload: &[u8],
) -> (r: Option<u16>)
    requires
        is_tcp_header(header@),
    ensures
        r == tcp_slice_checksum(header@, src@, dst@, payload@),
{
    let h = etherparse::TcpHeaderSlice::from_slice(header).ok()?;
    h.calc_checksum_ipv4_raw(src, dst, payload).ok()
}

/// The checksum of a segment that was written is the one that is computed of its bytes.
pub proof fn law_written_segment_has_its_checksum(
    header: TcpHeader,
    src: Ipv4Addr,
    dst: Ipv4Addr,
    payload: Seq<u8>,
)
    requires
        20 + payload.len() <= 65535,
    ensures
        ({
            let b = tcp_segment(header, src, dst, payload);
            &&& is_tcp_header(b)
            &&& tcp_header_len(b[12]) == 20
            &&& tcp_slice_checksum(b, src@, dst@, b.skip(20)) == Some(
                be16(b[16], b[17]) as u16,
            )
        }),
{
    let sum = tcp_sum(header, src, dst, payload);
    let b = tcp_segment(header, src, dst, payload);
    assert(b[12] == 0x50u8);
    assert(b.skip(20) =~= payload);
    assert(b.take(20).update(16, 0).update(17, 0) =~= (TcpHeader {
        checksum: 0,
        ..header
    }).bytes());
    assert(b[16] == be16_bytes(sum)[0] && b[17] == be16_bytes(sum)[1]);
    lemma_be16_round_trip(sum);
}

/// `rand::Rng::gen_range` over `low..high` on `rand::thread_rng`: a number of the range, which
/// must not be empty. Which one is left to chance.
#[verifier::external_body]
pub(crate) fn gen_range(low: u16, high: u16) -> (r: u16)
    requires
        low < high,
    ensures
        low <= r < high,
{
    rand::thread_rng().gen_range(low..high)
}

} // verus!
