//! What packets do to the two ends of a connection, from its first segment to its last.

use crate::addr::Ipv4Addr;
use crate::header::{
    is_tcp_header, law_written_segment_has_its_checksum, law_written_segment_reads_back,
    tcp_slice_checksum, Ipv4Header, TcpHeader,
};
use crate::protocol::tcp::buf::{covered, RecvBufView, SendBufView};
use crate::protocol::tcp::conn::{Delivery, TcpConn};
use crate::protocol::tcp::prelude::{Port, Remote, SocketId};
use crate::protocol::tcp::socket::{
    control_segment, FinWait1, Segment, Socket, TcpState, Update, UpdateAction,
};
use crate::protocol::tcp::stream::law_everything_contiguous_is_readable;
use vstd::prelude::*;

verus! {

/// Whether a socket is in a state in which it takes in data, and a packet is one that may carry
/// data: the connection is established, or only this end has closed it, and the packet neither
/// closes the other end nor acknowledges that this one is closed.
pub open spec fn takes_data(socket: Socket, header: TcpHeader) -> bool {
    &&& !header.fin
    &&& match socket.state {
        TcpState::Established(_) | TcpState::FinWait2(_) => true,
        TcpState::FinWait1(s) => s.fin_seq_no matches Some(seq_no)
            ==> header.acknowledgment_number <= seq_no,
        _ => false,
    }
}

/// What has arrived at a socket.
pub open spec fn recv_of(socket: Socket) -> RecvBufView {
    socket.conn->0.inner.recv_buf.inner@
}

/// What a socket has to send.
pub open spec fn send_of(socket: Socket) -> SendBufView {
    socket.conn->0.inner.send_buf.inner@
}

/// Data that arrives in order can be read, whether or not this end has closed its half of the
/// connection: a payload that starts at the next expected sequence number and for which there
/// is room is readable behind what was readable before, with whatever has arrived early
/// behind it. It is acknowledged at once, and the state stays.
pub proof fn law_data_in_order_can_be_read(
    before: Socket,
    after: Socket,
    ip_header: Ipv4Header,
    header: TcpHeader,
    payload: Seq<u8>,
    src_ip: Ipv4Addr,
    update: Update,
)
    requires
        before.wf(),
        before.accepts(header, payload),
        before.steps(after, ip_header, header, payload, src_ip, update),
        takes_data(before, header),
        payload.len() > 0,
        header.sequence_number == recv_of(before).head,
        recv_of(before).head + payload.len() <= recv_of(before).tail + recv_of(before).window.len(),
    ensures
        after.conn is Some,
        after.state == before.state,
        ({
            let (old_recv, new_recv) = (recv_of(before), recv_of(after));
            let n = old_recv.head - old_recv.tail;
            &&& new_recv.tail == old_recv.tail
            &&& new_recv.head >= old_recv.head + payload.len()
            &&& new_recv.window.subrange(0, n + payload.len()) == old_recv.window.subrange(0, n)
                + payload
            &&& forall|p: int|
                old_recv.head + payload.len() <= p < new_recv.head ==> covered(old_recv.early, p)
                    && #[trigger] new_recv.window[p - new_recv.tail] == old_recv.window[p
                    - old_recv.tail]
            &&& !covered(old_recv.early, new_recv.head)
        }),
        update.delivery == Some(Delivery::Done(1)),
        update.segment is None,
        update.action is None,
{
    let recv = recv_of(before);
    before.conn->0.inner.recv_buf.inner.lemma_wf();
    law_everything_contiguous_is_readable(recv, recv.head as usize, payload);
    let new_recv = recv_of(after);
    let n = recv.head - recv.tail;
    assert(new_recv == recv.write(header.sequence_number as usize, payload));
    assert(new_recv.window.subrange(0, n + payload.len()) =~= recv.window.subrange(0, n) + payload);
}

/// Data that arrives before the data in front of it is kept for later, where there is room: nothing
/// more can be read yet, and every byte of it is held at its sequence number.
pub proof fn law_early_data_is_kept(
    before: Socket,
    after: Socket,
    ip_header: Ipv4Header,
    header: TcpHeader,
    payload: Seq<u8>,
    src_ip: Ipv4Addr,
    update: Update,
    p: int,
)
    requires
        before.wf(),
        before.accepts(header, payload),
        before.steps(after, ip_header, header, payload, src_ip, update),
        takes_data(before, header),
        payload.len() > 0,
        header.sequence_number > recv_of(before).head,
        header.sequence_number + payload.len() <= recv_of(before).tail
            + recv_of(before).window.len(),
    ensures
        after.conn is Some,
        after.state == before.state,
        ({
            let (old_recv, new_recv) = (recv_of(before), recv_of(after));
            &&& new_recv.tail == old_recv.tail
            &&& new_recv.head == old_recv.head
            &&& covered(old_recv.early, p) ==> covered(new_recv.early, p)
            &&& header.sequence_number <= p < header.sequence_number + payload.len() ==> {
                &&& covered(new_recv.early, p)
                &&& new_recv.window[p - new_recv.tail] == payload[p - header.sequence_number]
            }
            &&& old_recv.tail <= p < header.sequence_number || header.sequence_number
                + payload.len() <= p < old_recv.tail + old_recv.window.len()
                ==> new_recv.window[p - new_recv.tail] == old_recv.window[p - old_recv.tail]
        }),
        update.delivery == Some(Delivery::Done(1)),
{
    let recv = recv_of(before);
    let new_recv = recv_of(after);
    let segment = crate::protocol::tcp::buf::SegmentMeta {
        seq_no: header.sequence_number as usize,
        size: payload.len() as usize,
    };
    before.conn->0.inner.recv_buf.inner.lemma_wf();
    assert(new_recv == recv.write(header.sequence_number as usize, payload));
    assert(new_recv.early.contains(segment));
    if covered(recv.early, p) {
        let s = choose|s: crate::protocol::tcp::buf::SegmentMeta| #[trigger]
            recv.early.contains(s) && s.covers(p);
        assert(new_recv.early.contains(s) && s.covers(p));
    }
    if header.sequence_number <= p < header.sequence_number + payload.len() {
        assert(segment.covers(p));
    }
}

/// Data that has arrived before changes nothing, and is acknowledged once more, so that the other
/// end learns what is expected of it. Data for which there is no room yet is held back, and
/// not acknowledged.
pub proof fn law_other_data_is_refused(
    before: Socket,
    after: Socket,
    ip_header: Ipv4Header,
    header: TcpHeader,
    payload: Seq<u8>,
    src_ip: Ipv4Addr,
    update: Update,
)
    requires
        before.wf(),
        before.accepts(header, payload),
        before.steps(after, ip_header, header, payload, src_ip, update),
        takes_data(before, header),
    ensures
        after.conn is Some,
        after.state == before.state,
        payload.len() > 0 && header.sequence_number < recv_of(before).head ==> recv_of(after)
            == recv_of(before) && update.delivery == Some(Delivery::Done(2)),
        payload.len() > 0 && header.sequence_number >= recv_of(before).head
            && header.sequence_number + payload.len() > recv_of(before).tail + recv_of(
            before,
        ).window.len() ==> recv_of(after) == recv_of(before) && update.delivery == Some(
            Delivery::Blocked,
        ),
        payload.len() == 0 ==> recv_of(after) == recv_of(before) && update.delivery == Some(
            Delivery::Done(1),
        ),
        after.conn->0.inner.recv_buf.open == before.conn->0.inner.recv_buf.open,
{
}

/// Every segment of a connection tells which bytes have arrived at the other end, and how much room
/// there is for more. What has arrived need not be kept to be sent again; what has not is
/// kept as it is. An acknowledgement of bytes that were never written, or lower than an
/// earlier one, is ignored.
pub proof fn law_acknowledged_bytes_are_discarded(
    before: Socket,
    after: Socket,
    ip_header: Ipv4Header,
    header: TcpHeader,
    payload: Seq<u8>,
    src_ip: Ipv4Addr,
    update: Update,
)
    requires
        before.wf(),
        before.steps(after, ip_header, header, payload, src_ip, update),
        takes_data(before, header) || before.state is CloseWait,
    ensures
        after.conn is Some,
        after.conn->0.inner.send_buf.window_size == header.window_size,
        after.conn->0.inner.send_buf.open == before.conn->0.inner.send_buf.open,
        ({
            let (old_send, new_send) = (send_of(before), send_of(after));
            let ack = header.acknowledgment_number;
            if old_send.tail <= ack <= old_send.tail + old_send.data.len() {
                &&& new_send.tail == ack
                &&& new_send.data == old_send.data.subrange(
                    ack - old_send.tail,
                    old_send.data.len() as int,
                )
            } else {
                new_send == old_send
            }
        }),
        after.conn->0.socket_id == before.conn->0.socket_id,
        after.conn->0.inner.remote == before.conn->0.inner.remote,
        after.conn->0.inner.local_port == before.conn->0.inner.local_port,
{
}

/// Once the other end has closed, what it still sends is not kept.
pub proof fn law_nothing_arrives_after_the_end(
    before: Socket,
    after: Socket,
    ip_header: Ipv4Header,
    header: TcpHeader,
    payload: Seq<u8>,
    src_ip: Ipv4Addr,
    update: Update,
)
    requires
        before.wf(),
        before.steps(after, ip_header, header, payload, src_ip, update),
        before.state is CloseWait,
    ensures
        after.state == before.state,
        recv_of(after) == recv_of(before),
{
}

/// Whether a segment is an intact answer to a packet from this end of a connection to the other,
/// which acknowledges that packet and has neither data nor the given flags beside.
pub open spec fn acknowledges(
    segment: Segment,
    local_port: Port,
    remote_port: Port,
    src: Ipv4Addr,
    dst: Ipv4Addr,
    packet: TcpHeader,
    answer: TcpHeader,
) -> bool {
    &&& segment.bytes@.len() == 20
    &&& is_tcp_header(segment.bytes@)
    &&& answer.reads(segment.bytes@) ==> {
        &&& answer.ack
        &&& !answer.fin
        &&& answer.acknowledgment_number == packet.sequence_number + 1
        &&& answer.source_port == local_port.0
        &&& answer.destination_port == remote_port.0
        &&& answer.window_size == 65535
        &&& tcp_slice_checksum(segment.bytes@, src@, dst@, Seq::empty()) == Some(answer.checksum)
    }
}

/// How a segment without data reads.
pub(crate) proof fn lemma_control_segment(
    sent: TcpHeader,
    src: Ipv4Addr,
    dst: Ipv4Addr,
    received: TcpHeader,
)
    ensures
        ({
            let b = control_segment(sent, src, dst);
            &&& b.len() == 20
            &&& is_tcp_header(b)
            &&& received.reads(b) ==> {
                &&& received == (TcpHeader { checksum: received.checksum, ..sent })
                &&& tcp_slice_checksum(b, src@, dst@, Seq::empty()) == Some(received.checksum)
            }
        }),
{
    let b = control_segment(sent, src, dst);
    law_written_segment_has_its_checksum(sent, src, dst, Seq::empty());
    assert(b.skip(20) =~= Seq::<u8>::empty());
    if received.reads(b) {
        law_written_segment_reads_back(sent, src, dst, Seq::empty(), received);
    }
}

/// Where the other end closes an established connection, this end acknowledges that, and nothing
/// more can be read than has arrived. It can still be written to, and what was written is
/// still sent.
pub proof fn law_close_of_the_remote_is_acknowledged(
    before: Socket,
    after: Socket,
    ip_header: Ipv4Header,
    header: TcpHeader,
    payload: Seq<u8>,
    src_ip: Ipv4Addr,
    update: Update,
    answer: TcpHeader,
)
    requires
        before.wf(),
        before.accepts(header, payload),
        before.steps(after, ip_header, header, payload, src_ip, update),
        before.state is Established,
        header.fin,
    ensures
        after.state is CloseWait,
        after.conn is Some,
        !after.conn->0.inner.recv_buf.open,
        after.conn->0.inner.recv_buf.inner == before.conn->0.inner.recv_buf.inner,
        after.conn->0.inner.send_buf == before.conn->0.inner.send_buf,
        update.segment matches Some(segment) && segment.dest == before.state->Established_0.remote_ip
            && acknowledges(
            segment,
            before.state->Established_0.local_port,
            before.state->Established_0.remote_port,
            src_ip,
            before.state->Established_0.remote_ip,
            header,
            answer,
        ) && (answer.reads(segment.bytes@) ==> !answer.syn && answer.sequence_number
            == header.acknowledgment_number),
        after.state->CloseWait_0.last_seq == before.state->Established_0.last_seq,
        !update.established,
        !update.fin_acked,
        update.action is None,
{
    let s = before.state->Established_0;
    lemma_control_segment(s.handshake_ack_header(header), src_ip, s.remote_ip, answer);
}

/// Where this end has closed and the other end closes too, this end acknowledges that, and what
/// has arrived can still be read. The connection is over once the other end has acknowledged
/// that this one closed, be it by the same packet, by an earlier one or by a later one.
pub proof fn law_close_of_both_ends_is_acknowledged(
    before: Socket,
    after: Socket,
    ip_header: Ipv4Header,
    header: TcpHeader,
    payload: Seq<u8>,
    src_ip: Ipv4Addr,
    update: Update,
    answer: TcpHeader,
)
    requires
        before.wf(),
        before.accepts(header, payload),
        before.steps(after, ip_header, header, payload, src_ip, update),
        before.state is FinWait1 || before.state is FinWait2,
        header.fin,
    ensures
        after.conn == before.conn,
        before.state is FinWait2 ==> after.state is TimeWait && update.action == Some(
            UpdateAction::CloseSocket(before.id),
        ),
        before.state is FinWait1 && header.ack ==> after.state is TimeWait,
        before.state is FinWait1 && !header.ack ==> after.state is Closing,
        before.state matches TcpState::FinWait1(s) ==> update.action is None && (update.fin_acked
            <==> header.ack && s.fin_seq_no is Some && header.acknowledgment_number
            > s.fin_seq_no->0),
        before.state matches TcpState::FinWait1(s) ==> update.segment matches Some(segment)
            && segment.dest == s.remote_ip && acknowledges(
            segment,
            s.local_port,
            s.remote_port,
            ip_header.destination,
            ip_header.source,
            header,
            answer,
        ) && (answer.reads(segment.bytes@) ==> !answer.syn && answer.sequence_number
            == header.acknowledgment_number),
        before.state matches TcpState::FinWait2(s) ==> update.segment matches Some(segment)
            && segment.dest == s.remote_ip && acknowledges(
            segment,
            s.local_port,
            s.remote_port,
            ip_header.destination,
            ip_header.source,
            header,
            answer,
        ) && (answer.reads(segment.bytes@) ==> !answer.syn && answer.sequence_number
            == header.acknowledgment_number),
{
    let sent = match before.state {
        TcpState::FinWait1(s) => crate::protocol::tcp::socket::ack_header(
            s.local_port,
            s.remote_port,
            header.acknowledgment_number,
            header.sequence_number,
        ),
        TcpState::FinWait2(s) => crate::protocol::tcp::socket::ack_header(
            s.local_port,
            s.remote_port,
            header.acknowledgment_number,
            header.sequence_number,
        ),
        _ => header,
    };
    lemma_control_segment(sent, ip_header.destination, ip_header.source, answer);
}

/// An end that has closed learns that the other end knows by an acknowledgement beyond the segment
/// by which it closed, and by nothing else. Then it waits for the other end to close.
pub proof fn law_acknowledged_close_waits_for_the_remote(
    before: Socket,
    after: Socket,
    ip_header: Ipv4Header,
    header: TcpHeader,
    payload: Seq<u8>,
    src_ip: Ipv4Addr,
    update: Update,
    s: FinWait1,
)
    requires
        before.steps(after, ip_header, header, payload, src_ip, update),
        before.state == TcpState::FinWait1(s),
        !header.fin,
    ensures
        after.state is FinWait2 <==> s.fin_seq_no is Some && header.acknowledgment_number
            > s.fin_seq_no->0,
        update.fin_acked <==> after.state is FinWait2,
        after.state matches TcpState::FinWait2(t) ==> {
            &&& t.local_port == s.local_port
            &&& t.remote_ip == s.remote_ip
            &&& t.remote_port == s.remote_port
            &&& after.conn == before.conn
            &&& update.segment is None
            &&& update.action is None
        },
        !(after.state is FinWait2) ==> after.state == before.state,
{
}

/// The last acknowledgement ends the wait of an end that closed at the same time as the other one.
/// What arrives after the end of a connection is ignored.
pub proof fn law_last_packets_end_the_connection(
    before: Socket,
    after: Socket,
    ip_header: Ipv4Header,
    header: TcpHeader,
    payload: Seq<u8>,
    src_ip: Ipv4Addr,
    update: Update,
)
    requires
        before.steps(after, ip_header, header, payload, src_ip, update),
    ensures
        before.state is Closing && header.ack ==> after.state is TimeWait && update.fin_acked,
        before.state is Closing && !header.ack ==> after.state == before.state
            && !update.fin_acked,
        before.state is Closing ==> after.conn == before.conn,
        before.state is TimeWait ==> after == before,
        before.state is LastAck ==> after.state is Closed && after.conn == before.conn,
        before.state is Closing || before.state is TimeWait || before.state is LastAck
            ==> update.segment is None && update.action is None && update.delivery is None,
        after.id == before.id,
        after.descriptor == before.descriptor,
{
}

/// A socket that listens answers every packet that asks for a connection: the new socket names the
/// one who asked, the answer accepts and acknowledges what was asked, and starts this end's
/// stream in front of the sequence number from which the new socket will send. The socket
/// goes on listening. All other packets are ignored.
pub proof fn law_listening_socket_answers(
    before: Socket,
    after: Socket,
    ip_header: Ipv4Header,
    header: TcpHeader,
    payload: Seq<u8>,
    src_ip: Ipv4Addr,
    update: Update,
    answer: TcpHeader,
)
    requires
        before.wf(),
        before.accepts(header, payload),
        before.steps(after, ip_header, header, payload, src_ip, update),
        before.state is Listen,
    ensures
        after == before,
        !header.syn ==> update.segment is None && update.action is None && update.delivery is None,
        header.syn ==> {
            let s = before.state->Listen_0;
            &&& update.segment is None
            &&& update.action matches Some(UpdateAction::NewSynReceivedSocket(new, segment))
            &&& new.local_port == s.port
            &&& new.remote_ip == ip_header.source
            &&& new.remote_port.0 == header.source_port
            &&& new.seq_no == s.seq_no + 1
            &&& segment.dest == ip_header.source
            &&& acknowledges(
                segment,
                s.port,
                Port(header.source_port),
                ip_header.destination,
                ip_header.source,
                header,
                answer,
            )
            &&& answer.reads(segment.bytes@) ==> answer.syn && answer.sequence_number == s.seq_no
        },
{
    let s = before.state->Listen_0;
    lemma_control_segment(
        s.syn_ack_header(header),
        ip_header.destination,
        ip_header.source,
        answer,
    );
}

/// Whether a connection is new: nothing has been written or has arrived, both ends are open, and
/// each direction starts at the given sequence number, with room for 65536 bytes.
pub open spec fn is_new(conn: TcpConn, id: SocketId, send_start: int, recv_start: int) -> bool {
    let send = conn.inner.send_buf;
    let recv = conn.inner.recv_buf;
    &&& conn.socket_id == id
    &&& conn.inner.remote == id.remote
    &&& conn.inner.local_port == id.local_port
    &&& send.open
    &&& send.inner@.tail == send_start
    &&& send.inner@.data.len() == 0
    &&& send.window_size == 65535
    &&& recv.open
    &&& recv.inner@.tail == recv_start
    &&& recv.inner@.head == recv_start
    &&& recv.inner@.window.len() == 65536
    &&& forall|p: int| !covered(recv.inner@.early, p)
}

/// An end that has asked for a connection is connected by the answer, which it acknowledges. It
/// sends from the sequence number that the answer expects, and expects the one behind the
/// answer's.
pub proof fn law_answer_establishes_the_connection(
    before: Socket,
    after: Socket,
    ip_header: Ipv4Header,
    header: TcpHeader,
    payload: Seq<u8>,
    src_ip: Ipv4Addr,
    update: Update,
    answer: TcpHeader,
)
    requires
        before.wf(),
        before.accepts(header, payload),
        before.steps(after, ip_header, header, payload, src_ip, update),
        before.state is SynSent,
    ensures
        ({
            let s = before.state->SynSent_0;
            let id = SocketId {
                remote: Remote { addr: s.dest_ip, port: s.dest_port },
                local_port: s.src_port,
            };
            &&& header.syn && header.ack && header.acknowledgment_number == s.seq_no
            &&& after.state matches TcpState::Established(t)
            &&& t.local_port == s.src_port
            &&& t.remote_ip == s.dest_ip
            &&& t.remote_port == s.dest_port
            &&& t.last_seq == s.seq_no + 1
            &&& after.conn is Some
            &&& is_new(
                after.conn->0,
                id,
                header.acknowledgment_number as int,
                header.sequence_number + 1,
            )
            &&& update.established
            &&& update.segment matches Some(segment)
            &&& segment.dest == s.dest_ip
            &&& acknowledges(segment, s.src_port, s.dest_port, src_ip, s.dest_ip, header, answer)
            &&& answer.reads(segment.bytes@) ==> !answer.syn && answer.sequence_number
                == header.acknowledgment_number
        }),
{
    let s = before.state->SynSent_0;
    lemma_control_segment(
        crate::protocol::tcp::socket::ack_header(
            s.src_port,
            s.dest_port,
            s.seq_no,
            header.sequence_number,
        ),
        src_ip,
        s.dest_ip,
        answer,
    );
}

/// The end that has answered is connected by the acknowledgement of its answer, and by nothing else.
/// It sends from the sequence number that the acknowledgement expects, and expects the
/// acknowledgement's own.
pub proof fn law_acknowledged_answer_establishes_the_connection(
    before: Socket,
    after: Socket,
    ip_header: Ipv4Header,
    header: TcpHeader,
    payload: Seq<u8>,
    src_ip: Ipv4Addr,
    update: Update,
)
    requires
        before.steps(after, ip_header, header, payload, src_ip, update),
        before.state is SynReceived,
    ensures
        ({
            let s = before.state->SynReceived_0;
            let id = SocketId {
                remote: Remote { addr: s.remote_ip, port: s.remote_port },
                local_port: s.local_port,
            };
            if header.acknowledgment_number == s.seq_no {
                &&& after.state matches TcpState::Established(t)
                &&& t.local_port == s.local_port
                &&& t.remote_ip == s.remote_ip
                &&& t.remote_port == s.remote_port
                &&& t.last_seq == s.seq_no
                &&& after.conn is Some
                &&& is_new(
                    after.conn->0,
                    id,
                    header.acknowledgment_number as int,
                    header.sequence_number as int,
                )
                &&& update.established
            } else {
                after == before && !update.established
            }
        }),
        update.segment is None,
        update.action is None,
{
}

/// A connection that works is ready for every packet of the other end: for one that acknowledges,
/// whatever it carries, and for one that closes, as long as sequence numbers do not overflow. It is
/// ready for no packet that does neither. An end that asked for a connection is ready for the answer, and one that answered for the
/// acknowledgement.
pub proof fn law_sockets_are_ready_for_their_packets(
    socket: Socket,
    header: TcpHeader,
    payload: Seq<u8>,
)
    requires
        socket.wf(),
    ensures
        (socket.state is Established || socket.state is FinWait1 || socket.state is FinWait2)
            && header.fin && header.sequence_number < u32::MAX ==> socket.accepts(header, payload),
        (socket.state is Established || socket.state is FinWait1 || socket.state is FinWait2)
            && !header.fin && header.ack && socket.conn->0.inner.recv_buf.ready()
            && header.sequence_number + payload.len() <= usize::MAX ==> socket.accepts(
            header,
            payload,
        ),
        socket.state is CloseWait && header.ack && socket.conn->0.inner.recv_buf.ready()
            && header.sequence_number <= usize::MAX ==> socket.accepts(header, payload),
        (socket.state is Established || socket.state is FinWait1 || socket.state is FinWait2)
            && !header.fin && !header.ack ==> !socket.accepts(header, payload),
        socket.state is CloseWait && !header.ack ==> !socket.accepts(header, payload),
        socket.state matches TcpState::SynSent(s) ==> (socket.accepts(header, payload)
            <==> header.syn && header.ack && header.acknowledgment_number == s.seq_no
            && header.sequence_number < u32::MAX),
        socket.state is SynReceived && header.ack ==> socket.accepts(header, payload),
        socket.state is Listen && header.sequence_number < u32::MAX ==> socket.accepts(
            header,
            payload,
        ),
        socket.state is Closing || socket.state is TimeWait || socket.state is LastAck
            ==> socket.accepts(header, payload),
        socket.state is Closed ==> !socket.accepts(header, payload),
{
}

/// Closing the write end of a connection keeps what was written and what has arrived, but lets
/// nothing more be written. An established connection then waits for the other end to know, and
/// one that the other end has closed for its last acknowledgement. Nothing else can be closed.
pub proof fn law_closing_keeps_the_data(before: Socket, src_ip: Ipv4Addr)
    requires
        before.wf(),
    ensures
        before.after_close(src_ip) is Some <==> before.state is Established
            || before.state is CloseWait,
        before.after_close_rw(src_ip) is Some <==> before.state is Established,
        before.after_close_read() is Some <==> before.state is Established,
        before.after_close(src_ip) matches Some(after) ==> {
            &&& after.id == before.id && after.descriptor == before.descriptor
            &&& after.conn is Some
            &&& !after.conn->0.inner.send_buf.open
            &&& after.conn->0.inner.send_buf.inner == before.conn->0.inner.send_buf.inner
            &&& after.conn->0.inner.recv_buf == before.conn->0.inner.recv_buf
            &&& before.state is CloseWait ==> after.state is LastAck
            &&& before.state matches TcpState::Established(s) ==> {
                &&& after.state matches TcpState::FinWait1(t)
                &&& t.local_port == s.local_port
                &&& t.remote_ip == s.remote_ip
                &&& t.remote_port == s.remote_port
                &&& t.src_ip == src_ip
                &&& t.fin_seq_no is None
            }
        },
        before.after_close_rw(src_ip) matches Some(after) ==> {
            &&& after.id == before.id && after.descriptor == before.descriptor
            &&& after.conn is Some
            &&& !after.conn->0.inner.send_buf.open
            &&& !after.conn->0.inner.recv_buf.open
            &&& after.conn->0.inner.send_buf.inner == before.conn->0.inner.send_buf.inner
            &&& after.conn->0.inner.recv_buf.inner == before.conn->0.inner.recv_buf.inner
            &&& after.state matches TcpState::FinWait1(t)
            &&& t.local_port == before.state->Established_0.local_port
            &&& t.remote_ip == before.state->Established_0.remote_ip
            &&& t.remote_port == before.state->Established_0.remote_port
            &&& t.src_ip == src_ip
            &&& t.fin_seq_no is None
        },
        before.after_close_read() matches Some(after) ==> {
            &&& after.id == before.id && after.descriptor == before.descriptor
            &&& after.state == before.state
            &&& after.conn is Some
            &&& !after.conn->0.inner.recv_buf.open
            &&& after.conn->0.inner.recv_buf.inner == before.conn->0.inner.recv_buf.inner
            &&& after.conn->0.inner.send_buf == before.conn->0.inner.send_buf
        },
{
}

} // verus!
