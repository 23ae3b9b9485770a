//! What a transport promises of the segments that it sends.

use crate::addr::Ipv4Addr;
use crate::drop_policy::DropPolicy;
use crate::header::{
    checksum_holds, law_written_segment_has_its_checksum, law_written_segment_reads_back,
    tcp_segment, tcp_slice_checksum, Ipv4Header, TcpHeader,
};
use crate::net::vtlink::fwd::law_first_route_is_taken;
use crate::net::vtlink::laws::{is_first_link, is_first_route, lemma_first_link, lemma_packet};
use crate::net::vtlink::link::Datagram;
use crate::net::vtlink::{datagram, outbound_link, VtLinkNet};
use crate::net::SendError;
use crate::protocol::tcp::buf::{RecvBuf, SendBuf, SendBufView};
use crate::protocol::tcp::stream::sends;
use crate::protocol::tcp::transport::{data_header, TcpTransport, TransportEvent};
use crate::protocol::tcp::window_field;
use crate::time::Duration;
use crate::utils::net::ipv4_packet;
use vstd::prelude::*;

verus! {

/// Whether a host can send to an address: the first route to it leads over the place `i` of the
/// table, does not count as unreachable, and the first link to its next hop, at place `k`, is turned
/// on.
pub open spec fn can_reach<DP: DropPolicy>(
    net: VtLinkNet<DP>,
    addr: Ipv4Addr,
    i: int,
    k: int,
) -> bool {
    &&& is_first_route(net.table(), addr, i)
    &&& net.table()[i].cost < 16
    &&& is_first_link(net.links@, net.table()[i].next_hop, k)
    &&& net.links@[k].activated
}

/// What can be sent is sent.
proof fn lemma_can_reach<const BUF_SZ: usize, DP: DropPolicy>(
    t: TcpTransport<BUF_SZ>,
    net: VtLinkNet<DP>,
    recv_buf: RecvBuf<BUF_SZ>,
    seq_no: int,
    payload: Seq<u8>,
    i: int,
    k: int,
)
    requires
        can_reach(net, t.remote.addr, i, k),
    ensures
        t.outgoing(net, recv_buf, seq_no, payload) is Ok,
{
    law_first_route_is_taken(net.table(), t.remote.addr, i);
    lemma_first_link(net.links@, net.table()[i].next_hop, k);
}

/// How the packet of a segment reads.
proof fn lemma_segment_packet(
    sent: TcpHeader,
    src: Ipv4Addr,
    dst: Ipv4Addr,
    payload: Seq<u8>,
    ip_header: Ipv4Header,
    header: TcpHeader,
)
    requires
        payload.len() <= 1024,
        ip_header.reads(ipv4_packet(src, dst, 6, 15, tcp_segment(sent, src, dst, payload))),
        header.reads(
            ipv4_packet(src, dst, 6, 15, tcp_segment(sent, src, dst, payload)).skip(20),
        ),
    ensures
        ({
            let b = ipv4_packet(src, dst, 6, 15, tcp_segment(sent, src, dst, payload));
            &&& b.skip(40) == payload
            &&& header == (TcpHeader { checksum: header.checksum, ..sent })
            &&& tcp_slice_checksum(b.skip(20), src@, dst@, b.skip(40)) == Some(header.checksum)
            &&& ip_header.source == src
            &&& ip_header.destination == dst
            &&& ip_header.protocol == 6
            &&& ip_header.ttl == 15
            &&& checksum_holds(ip_header)
        }),
{
    let segment = tcp_segment(sent, src, dst, payload);
    let b = ipv4_packet(src, dst, 6, 15, segment);
    assert(segment.len() == 20 + payload.len());
    lemma_packet(src, dst, 6, 15, segment, ip_header);
    law_written_segment_reads_back(sent, src, dst, payload, header);
    law_written_segment_has_its_checksum(sent, src, dst, payload);
    assert(b.skip(40) =~= segment.skip(20));
}

/// How a segment reads that was sent.
proof fn lemma_segment_sent<const BUF_SZ: usize, DP: DropPolicy>(
    t: TcpTransport<BUF_SZ>,
    net: VtLinkNet<DP>,
    recv_buf: RecvBuf<BUF_SZ>,
    seq_no: int,
    payload: Seq<u8>,
    d: Datagram,
    ip_header: Ipv4Header,
    header: TcpHeader,
)
    requires
        t.can_make(net, recv_buf, seq_no),
        0 <= seq_no,
        payload.len() <= 1024,
        t.outgoing(net, recv_buf, seq_no, payload) == Ok::<(u16, Seq<u8>), SendError>(datagram(d)),
        ip_header.reads(d.bytes@),
        header.reads(d.bytes@.skip(20)),
    ensures
        d.bytes@.skip(40) == payload,
        header.sequence_number == seq_no,
        addressed(t, net, recv_buf, d, ip_header, header),
{
    recv_buf.inner.lemma_wf();
    let (src, dst) = (
        outbound_link(net.table(), net.links@, t.remote.addr)->0.src_virtual_ip,
        t.remote.addr,
    );
    let window = BUF_SZ - recv_buf.inner@.readable().len();
    let sent = data_header(t.local_port, t.remote.port, seq_no, window, recv_buf.inner@.head);
    assert(d.bytes@ == ipv4_packet(src, dst, 6, 15, tcp_segment(sent, src, dst, payload)));
    lemma_segment_packet(sent, src, dst, payload, ip_header, header);
    assert(header.window_size == window_field(window));
}

/// The part of the stream that a transport sends upon an event.
proof fn lemma_payload_sent<const BUF_SZ: usize, DP: DropPolicy>(
    before: TcpTransport<BUF_SZ>,
    after: TcpTransport<BUF_SZ>,
    net: VtLinkNet<DP>,
    send_buf: SendBuf<BUF_SZ>,
    recv_buf: RecvBuf<BUF_SZ>,
    event: TransportEvent,
    lasts: bool,
    d: Datagram,
) -> (payload: Seq<u8>)
    requires
        before.segment_sz <= 1024,
        send_buf.inner.wf(),
        before.handled(after, net, send_buf, recv_buf, event, lasts, Some(d)),
    ensures
        payload.len() <= 1024,
        before.outgoing(net, recv_buf, before.seq_no as int, payload) == Ok::<
            (u16, Seq<u8>),
            SendError,
        >(datagram(d)),
        is_part_of(send_buf.inner@.data, before.seq_no - send_buf.inner@.tail, payload),
{
    let send = send_buf.inner@;
    let from = before.seq_no - send.tail;
    match event {
        TransportEvent::NewData => {
            let size = before.next_size();
            let start = TcpTransport { segment_sz: size as usize, ..before };
            let payload = send.data.subrange(from, from + size);
            assert(start.outgoing(net, recv_buf, before.seq_no as int, payload) == before.outgoing(
                net,
                recv_buf,
                before.seq_no as int,
                payload,
            ));
            payload
        },
        TransportEvent::ZeroWindowProbeTick => send.data.subrange(from, from + 1),
        _ => Seq::empty(),
    }
}

/// Whether a datagram is an intact segment from this end of a connection to the other, which tells
/// what is expected of the other end and how much room there is for it, or 65535 where there is
/// more.
pub open spec fn addressed<const BUF_SZ: usize, DP: DropPolicy>(
    t: TcpTransport<BUF_SZ>,
    net: VtLinkNet<DP>,
    recv_buf: RecvBuf<BUF_SZ>,
    d: Datagram,
    ip_header: Ipv4Header,
    header: TcpHeader,
) -> bool {
    let room = BUF_SZ - (recv_buf.inner@.head - recv_buf.inner@.tail);
    &&& ip_header.destination == t.remote.addr
    &&& ip_header.protocol == 6
    &&& ip_header.ttl == 15
    &&& checksum_holds(ip_header)
    &&& header.source_port == t.local_port.0
    &&& header.destination_port == t.remote.port.0
    &&& header.ack
    &&& !header.syn
    &&& !header.fin
    &&& header.acknowledgment_number == recv_buf.inner@.head
    &&& header.window_size == if room < 65535 {
        room
    } else {
        65535
    }
    &&& tcp_slice_checksum(
        d.bytes@.skip(20),
        ip_header.source@,
        ip_header.destination@,
        d.bytes@.skip(40),
    ) == Some(header.checksum)
}

/// Whether `part` is what `all` holds from the place `at` on.
pub open spec fn is_part_of(all: Seq<u8>, at: int, part: Seq<u8>) -> bool {
    &&& part.len() > 0 ==> 0 <= at && at + part.len() <= all.len()
    &&& forall|k: int| 0 <= k < part.len() ==> #[trigger] part[k] == all[at + k]
}

/// What is cut from a send buffer is part of the stream.
proof fn lemma_on_stream(
    send: SendBufView,
    initial: int,
    written: Seq<u8>,
    seq_no: int,
    payload: Seq<u8>,
)
    requires
        sends(send, initial, written),
        is_part_of(send.data, seq_no - send.tail, payload),
    ensures
        is_part_of(written, seq_no - initial, payload),
{
    assert forall|k: int| 0 <= k < payload.len() implies #[trigger] payload[k] == written[seq_no
        - initial + k] by {
        assert(send.data[seq_no - send.tail + k] == written[seq_no - initial + k]);
    }
}

/// Whatever a transport sends upon an event, data, probe or acknowledgement, is a segment of the
/// stream that was written: it starts at the next sequence number of the transport, and each
/// byte of it is the byte of the stream at its sequence number. It is addressed to the other end, and
/// tells that end what is expected of it.
pub proof fn law_segments_carry_the_stream<const BUF_SZ: usize, DP: DropPolicy>(
    before: TcpTransport<BUF_SZ>,
    after: TcpTransport<BUF_SZ>,
    net: VtLinkNet<DP>,
    send_buf: SendBuf<BUF_SZ>,
    recv_buf: RecvBuf<BUF_SZ>,
    event: TransportEvent,
    lasts: bool,
    d: Datagram,
    initial: int,
    written: Seq<u8>,
    ip_header: Ipv4Header,
    header: TcpHeader,
)
    requires
        before.can_make(net, recv_buf, before.seq_no as int),
        before.segment_sz <= 1024,
        send_buf.inner.wf(),
        sends(send_buf.inner@, initial, written),
        before.handled(after, net, send_buf, recv_buf, event, lasts, Some(d)),
        ip_header.reads(d.bytes@),
        header.reads(d.bytes@.skip(20)),
    ensures
        ({
            let payload = d.bytes@.skip(40);
            &&& header.sequence_number == before.seq_no
            &&& payload.len() <= 1024
            &&& is_part_of(written, header.sequence_number - initial, payload)
        }),
        addressed(before, net, recv_buf, d, ip_header, header),
{
    let payload = lemma_payload_sent(before, after, net, send_buf, recv_buf, event, lasts, d);
    lemma_segment_sent(
        before,
        net,
        recv_buf,
        before.seq_no as int,
        payload,
        d,
        ip_header,
        header,
    );
    lemma_on_stream(send_buf.inner@, initial, written, before.seq_no as int, payload);
}

/// What is sent again is a whole segment of the stream, from the byte on that the other end has
/// said it expects.
pub proof fn law_retransmissions_carry_the_stream<const BUF_SZ: usize, DP: DropPolicy>(
    before: TcpTransport<BUF_SZ>,
    after: TcpTransport<BUF_SZ>,
    net: VtLinkNet<DP>,
    send_buf: SendBuf<BUF_SZ>,
    recv_buf: RecvBuf<BUF_SZ>,
    d: Datagram,
    initial: int,
    written: Seq<u8>,
    ip_header: Ipv4Header,
    header: TcpHeader,
)
    requires
        before.can_make(net, recv_buf, before.last_acked as int),
        send_buf.inner.wf(),
        sends(send_buf.inner@, initial, written),
        before.retransmitted(after, net, send_buf, recv_buf, Some(Ok(d))),
        ip_header.reads(d.bytes@),
        header.reads(d.bytes@.skip(20)),
    ensures
        ({
            let payload = d.bytes@.skip(40);
            &&& header.sequence_number == before.last_acked
            &&& payload.len() == 1024
            &&& is_part_of(written, header.sequence_number - initial, payload)
        }),
        addressed(before, net, recv_buf, d, ip_header, header),
        after.seq_no == before.seq_no,
        after.remaining_window_sz == before.remaining_window_sz,
        after.last_acked == before.last_acked,
        after.last_ack_transmitted == recv_buf.inner@.head,
{
    recv_buf.inner.lemma_wf();
    let send = send_buf.inner@;
    let from = before.last_acked - send.tail;
    let payload = send.data.subrange(from, from + 1024);
    lemma_segment_sent(
        before,
        net,
        recv_buf,
        before.last_acked as int,
        payload,
        d,
        ip_header,
        header,
    );
    lemma_on_stream(send, initial, written, before.last_acked as int, payload);
}

/// Where a whole segment of 1024 bytes has not been acknowledged and the other end can be reached,
/// it is sent again; where there is no such segment, nothing is.
pub proof fn law_lost_segments_are_sent_again<const BUF_SZ: usize, DP: DropPolicy>(
    before: TcpTransport<BUF_SZ>,
    after: TcpTransport<BUF_SZ>,
    net: VtLinkNet<DP>,
    send_buf: SendBuf<BUF_SZ>,
    recv_buf: RecvBuf<BUF_SZ>,
    sent: Option<Result<Datagram, SendError>>,
    i: int,
    k: int,
)
    requires
        before.retransmitted(after, net, send_buf, recv_buf, sent),
        can_reach(net, before.remote.addr, i, k),
    ensures
        send_buf.inner@.tail <= before.last_acked && before.last_acked + 1024
            <= send_buf.inner@.head() <==> sent is Some,
        sent matches Some(sent) ==> sent is Ok && sent->Ok_0.port == net.links@[k].dest_port,
        sent is None ==> after == before,
{
    let send = send_buf.inner@;
    let from = before.last_acked - send.tail;
    let payload = send.data.subrange(from, from + 1024);
    lemma_can_reach(before, net, recv_buf, before.last_acked as int, payload, i, k);
    law_first_route_is_taken(net.table(), before.remote.addr, i);
    lemma_first_link(net.links@, net.table()[i].next_hop, k);
}

/// Where the window of the other end is used up, the next byte that has not been sent is, where
/// there is one and the other end can be reached. The byte does not count as sent, so it is
/// sent again once there is room. Where there is room, there is no probe.
pub proof fn law_used_up_window_is_probed<const BUF_SZ: usize, DP: DropPolicy>(
    before: TcpTransport<BUF_SZ>,
    after: TcpTransport<BUF_SZ>,
    net: VtLinkNet<DP>,
    send_buf: SendBuf<BUF_SZ>,
    recv_buf: RecvBuf<BUF_SZ>,
    lasts: bool,
    sent: Option<Datagram>,
    i: int,
    k: int,
)
    requires
        before.handled(
            after,
            net,
            send_buf,
            recv_buf,
            TransportEvent::ZeroWindowProbeTick,
            lasts,
            sent,
        ),
        can_reach(net, before.remote.addr, i, k),
    ensures
        sent is Some <==> before.remaining_window_sz == 0 && send_buf.inner@.tail <= before.seq_no
            < send_buf.inner@.head(),
        sent matches Some(d) ==> d.port == net.links@[k].dest_port && d.bytes@.len() == 41
            && d.bytes@[40] == send_buf.inner@.data[before.seq_no - send_buf.inner@.tail],
        after.seq_no == before.seq_no,
        after.remaining_window_sz == before.remaining_window_sz,
        after.last_acked == before.last_acked,
        after.segment_sz == before.segment_sz,
        lasts,
{
    let send = send_buf.inner@;
    let from = before.seq_no - send.tail;
    let payload = send.data.subrange(from, from + 1);
    lemma_can_reach(before, net, recv_buf, before.seq_no as int, payload, i, k);
    law_first_route_is_taken(net.table(), before.remote.addr, i);
    lemma_first_link(net.links@, net.table()[i].next_hop, k);
    if before.remaining_window_sz == 0 && send.tail <= before.seq_no < send.head() {
        lemma_datagram_len(before, net, recv_buf, before.seq_no as int, payload);
        assert(payload[0] == send.data[from]);
        assert(sent->0.bytes@.skip(40)[0] == sent->0.bytes@[40]);
    }
}

/// How long a segment is that is sent, and where its data lies.
proof fn lemma_datagram_len<const BUF_SZ: usize, DP: DropPolicy>(
    t: TcpTransport<BUF_SZ>,
    net: VtLinkNet<DP>,
    recv_buf: RecvBuf<BUF_SZ>,
    seq_no: int,
    payload: Seq<u8>,
)
    requires
        t.outgoing(net, recv_buf, seq_no, payload) is Ok,
        payload.len() <= 1024,
    ensures
        (t.outgoing(net, recv_buf, seq_no, payload)->Ok_0).1.len() == 40 + payload.len(),
        (t.outgoing(net, recv_buf, seq_no, payload)->Ok_0).1.skip(40) == payload,
{
    let segment = t.segment(net, recv_buf, seq_no, payload);
    assert(segment.len() == 20 + payload.len());
    assert((t.outgoing(net, recv_buf, seq_no, payload)->Ok_0).1.skip(40) =~= payload);
}

/// Upon new data no more is sent than there is and than the other end has room for, and no more than
/// 1024 bytes at once. What is sent counts against the room, and sending goes on behind it. Where
/// nothing is sent, the room stays as it is.
pub proof fn law_new_data_is_sent_in_order<const BUF_SZ: usize, DP: DropPolicy>(
    before: TcpTransport<BUF_SZ>,
    after: TcpTransport<BUF_SZ>,
    net: VtLinkNet<DP>,
    send_buf: SendBuf<BUF_SZ>,
    recv_buf: RecvBuf<BUF_SZ>,
    lasts: bool,
    sent: Option<Datagram>,
)
    requires
        send_buf.inner.wf(),
        before.segment_sz <= 1024,
        before.handled(after, net, send_buf, recv_buf, TransportEvent::NewData, lasts, sent),
    ensures
        sent matches Some(d) ==> {
            let len = d.bytes@.len() - 40;
            &&& 0 < len <= 1024
            &&& len <= before.remaining_window_sz
            &&& send_buf.inner@.tail <= before.seq_no
            &&& before.seq_no + len <= send_buf.inner@.head()
            &&& after.seq_no == before.seq_no + len
            &&& after.remaining_window_sz == before.remaining_window_sz - len
            &&& after.last_ack_transmitted == recv_buf.inner@.head as usize
            &&& lasts
        },
        sent is None ==> {
            &&& after.remaining_window_sz == before.remaining_window_sz
            &&& after.last_ack_transmitted == before.last_ack_transmitted
            &&& after.last_transmitted == before.last_transmitted
            &&& after.seq_no == before.seq_no || before.seq_no < send_buf.inner@.tail
                && after.seq_no == send_buf.inner@.tail
        },
        after.last_acked == before.last_acked,
        after.remote == before.remote,
        after.local_port == before.local_port,
        after.segment_sz <= 1024,
        before.remaining_window_sz == 0 ==> sent is None && lasts,
{
    send_buf.inner.lemma_wf();
    let send = send_buf.inner@;
    let size = before.next_size();
    let start = TcpTransport { segment_sz: size as usize, ..before };
    if send.tail <= before.seq_no && before.seq_no + size <= send.head() && size > 0 {
        let from = before.seq_no - send.tail;
        let payload = send.data.subrange(from, from + size);
        if start.outgoing(net, recv_buf, before.seq_no as int, payload) is Ok {
            lemma_datagram_len(start, net, recv_buf, before.seq_no as int, payload);
        }
    }
}

/// A segment carries as many bytes as were planned, as far as the other end has room, and where none
/// were planned as many as it has room for, up to 1024. The next one is then planned to carry all
/// that is left, as far as there is room and up to 1024 bytes. A segment that could not be sent is
/// planned again.
pub proof fn law_segments_are_as_large_as_can_be<const BUF_SZ: usize, DP: DropPolicy>(
    before: TcpTransport<BUF_SZ>,
    after: TcpTransport<BUF_SZ>,
    net: VtLinkNet<DP>,
    send_buf: SendBuf<BUF_SZ>,
    recv_buf: RecvBuf<BUF_SZ>,
    lasts: bool,
    sent: Option<Datagram>,
    n: int,
)
    requires
        send_buf.inner.wf(),
        before.segment_sz <= 1024,
        before.remaining_window_sz > 0,
        before.handled(after, net, send_buf, recv_buf, TransportEvent::NewData, lasts, sent),
        n == (if before.segment_sz == 0 && before.remaining_window_sz > 1024 {
            1024
        } else if before.segment_sz == 0 || before.segment_sz > before.remaining_window_sz {
            before.remaining_window_sz as int
        } else {
            before.segment_sz as int
        }),
    ensures
        sent matches Some(d) ==> {
            let (room, left) = (
                after.remaining_window_sz,
                send_buf.inner@.head() - after.seq_no,
            );
            &&& d.bytes@.len() - 40 == n
            &&& after.segment_sz <= 1024 && after.segment_sz <= room && after.segment_sz <= left
            &&& after.segment_sz == 1024 || after.segment_sz == room || after.segment_sz == left
        },
        sent is None && send_buf.inner@.tail <= before.seq_no && before.seq_no + n
            <= send_buf.inner@.head() ==> after.segment_sz == n && after.seq_no == before.seq_no,
{
    send_buf.inner.lemma_wf();
    let send = send_buf.inner@;
    let start = TcpTransport { segment_sz: n as usize, ..before };
    assert(before.next_size() == n);
    if send.tail <= before.seq_no && before.seq_no + n <= send.head() {
        let from = before.seq_no - send.tail;
        let payload = send.data.subrange(from, from + n);
        if start.outgoing(net, recv_buf, before.seq_no as int, payload) is Ok {
            lemma_datagram_len(start, net, recv_buf, before.seq_no as int, payload);
        }
    }
}

/// Data that waits is sent: where there are bytes that have not been sent, the other end has room
/// and can be reached, the first or the second try sends a segment. The first may find that
/// there is less than a whole segment, and leave it to the second to send what there is.
pub proof fn law_waiting_data_is_sent<const BUF_SZ: usize, DP: DropPolicy>(
    before: TcpTransport<BUF_SZ>,
    mid: TcpTransport<BUF_SZ>,
    after: TcpTransport<BUF_SZ>,
    net: VtLinkNet<DP>,
    send_buf: SendBuf<BUF_SZ>,
    recv_buf: RecvBuf<BUF_SZ>,
    first: Option<Datagram>,
    second: Option<Datagram>,
    lasts_first: bool,
    lasts_second: bool,
    i: int,
    k: int,
)
    requires
        send_buf.inner.wf(),
        before.segment_sz <= 1024,
        before.remaining_window_sz > 0,
        send_buf.inner@.tail <= before.seq_no < send_buf.inner@.head(),
        can_reach(net, before.remote.addr, i, k),
        before.handled(mid, net, send_buf, recv_buf, TransportEvent::NewData, lasts_first, first),
        mid.handled(after, net, send_buf, recv_buf, TransportEvent::NewData, lasts_second, second),
    ensures
        first is Some || second is Some,
        lasts_first,
        first is None ==> lasts_second,
        first matches Some(d) ==> d.port == net.links@[k].dest_port,
{
    send_buf.inner.lemma_wf();
    let send = send_buf.inner@;
    let from = before.seq_no - send.tail;
    let size = before.next_size();
    let start = TcpTransport { segment_sz: size as usize, ..before };
    law_first_route_is_taken(net.table(), before.remote.addr, i);
    lemma_first_link(net.links@, net.table()[i].next_hop, k);
    if before.seq_no + size <= send.head() {
        let payload = send.data.subrange(from, from + size);
        lemma_can_reach(start, net, recv_buf, before.seq_no as int, payload, i, k);
    } else {
        let again = mid.next_size();
        let restart = TcpTransport { segment_sz: again as usize, ..mid };
        assert(mid.seq_no == before.seq_no);
        let payload = send.data.subrange(from, from + again);
        lemma_can_reach(restart, net, recv_buf, before.seq_no as int, payload, i, k);
    }
}

/// A connection lasts until it is gone, or until it is closed and all data has been sent.
pub proof fn law_connection_lasts_while_there_is_data<const BUF_SZ: usize, DP: DropPolicy>(
    before: TcpTransport<BUF_SZ>,
    after: TcpTransport<BUF_SZ>,
    net: VtLinkNet<DP>,
    send_buf: SendBuf<BUF_SZ>,
    recv_buf: RecvBuf<BUF_SZ>,
    event: TransportEvent,
    lasts: bool,
    sent: Option<Datagram>,
)
    requires
        before.handled(after, net, send_buf, recv_buf, event, lasts, sent),
    ensures
        !lasts ==> event == TransportEvent::AckRequestsClosed || event == TransportEvent::NewData
            && !send_buf.open && before.seq_no >= send_buf.inner@.head(),
        event == TransportEvent::AckRequestsClosed ==> !lasts && sent is None && after == before,
        event == TransportEvent::NewData && !send_buf.open && before.seq_no
            == send_buf.inner@.head() && before.remaining_window_sz > 0 && before.segment_sz <= 1024
            && send_buf.inner.wf() ==> !lasts,
{
    if event == TransportEvent::NewData && send_buf.inner.wf() {
        send_buf.inner.lemma_wf();
    }
}

/// A packet that is to be acknowledged is, at once, by a segment without data, where the other end
/// can be reached.
pub proof fn law_requested_acknowledgement_is_sent<const BUF_SZ: usize, DP: DropPolicy>(
    before: TcpTransport<BUF_SZ>,
    after: TcpTransport<BUF_SZ>,
    net: VtLinkNet<DP>,
    send_buf: SendBuf<BUF_SZ>,
    recv_buf: RecvBuf<BUF_SZ>,
    lasts: bool,
    sent: Option<Datagram>,
    i: int,
    k: int,
)
    requires
        before.handled(
            after,
            net,
            send_buf,
            recv_buf,
            TransportEvent::AckRequested,
            lasts,
            sent,
        ),
        can_reach(net, before.remote.addr, i, k),
    ensures
        lasts,
        sent matches Some(d) && d.port == net.links@[k].dest_port && d.bytes@.len() == 40,
        after.last_ack_transmitted == recv_buf.inner@.head as usize,
        after.seq_no == before.seq_no,
        after.remaining_window_sz == before.remaining_window_sz,
{
    lemma_can_reach(before, net, recv_buf, before.seq_no as int, Seq::empty(), i, k);
    lemma_datagram_len(before, net, recv_buf, before.seq_no as int, Seq::empty());
    law_first_route_is_taken(net.table(), before.remote.addr, i);
    lemma_first_link(net.links@, net.table()[i].next_hop, k);
}

/// An acknowledgement is put off for no longer than it may be: once more time has passed since the
/// last segment, it is sent where the other end has not been told what is expected of it and
/// can be reached. It is not sent before, and not twice.
pub proof fn law_late_acknowledgement_is_sent<const BUF_SZ: usize, DP: DropPolicy>(
    before: TcpTransport<BUF_SZ>,
    after: TcpTransport<BUF_SZ>,
    net: VtLinkNet<DP>,
    recv_buf: RecvBuf<BUF_SZ>,
    elapsed: Duration,
    sent: Option<Datagram>,
    i: int,
    k: int,
)
    requires
        recv_buf.inner.wf(),
        before.acked_late(after, net, recv_buf, elapsed, sent),
        can_reach(net, before.remote.addr, i, k),
    ensures
        sent is Some <==> elapsed.nanos > before.ack_batch_timeout.nanos && recv_buf.inner@.head
            != before.last_ack_transmitted,
        sent matches Some(d) ==> d.bytes@.len() == 40 && d.port == net.links@[k].dest_port,
        sent is Some ==> after.last_ack_transmitted == recv_buf.inner@.head,
        sent is None ==> after == before,
        after.seq_no == before.seq_no,
        after.remaining_window_sz == before.remaining_window_sz,
{
    recv_buf.inner.lemma_wf();
    lemma_can_reach(before, net, recv_buf, before.seq_no as int, Seq::empty(), i, k);
    lemma_datagram_len(before, net, recv_buf, before.seq_no as int, Seq::empty());
    law_first_route_is_taken(net.table(), before.remote.addr, i);
    lemma_first_link(net.links@, net.table()[i].next_hop, k);
}

/// The window and the acknowledgement that the other end sends are remembered, and change nothing
/// else of the transport.
pub proof fn law_news_of_the_remote_are_remembered<const BUF_SZ: usize, DP: DropPolicy>(
    before: TcpTransport<BUF_SZ>,
    after: TcpTransport<BUF_SZ>,
    net: VtLinkNet<DP>,
    send_buf: SendBuf<BUF_SZ>,
    recv_buf: RecvBuf<BUF_SZ>,
    event: TransportEvent,
    lasts: bool,
    sent: Option<Datagram>,
)
    requires
        before.handled(after, net, send_buf, recv_buf, event, lasts, sent),
        event is WindowUpdated || event is LastByteAcked,
    ensures
        lasts,
        sent is None,
        event matches TransportEvent::WindowUpdated(window) ==> after.remaining_window_sz == window
            && after.last_acked == before.last_acked,
        event matches TransportEvent::LastByteAcked(seq_no) ==> after.last_acked == seq_no
            && after.remaining_window_sz == before.remaining_window_sz,
        after.seq_no == before.seq_no,
        after.segment_sz == before.segment_sz,
        after.last_ack_transmitted == before.last_ack_transmitted,
        after.last_transmitted == before.last_transmitted,
        after.remote == before.remote,
        after.local_port == before.local_port,
{
}

} // verus!
