//! What the users of sockets write and read.

use crate::addr::Ipv4Addr;
use crate::drop_policy::DropPolicy;
use crate::header::{tcp_slice_checksum, Ipv4Header, TcpHeader};
use crate::net::vtlink::link::Datagram;
use crate::net::vtlink::VtLinkNet;
use crate::net::SendError;
use crate::protocol::tcp::ack_policy::AckPolicy;
use crate::protocol::tcp::buf::covered;
use crate::protocol::tcp::conn::{
    delivers, reads_on, sends_on, sends_until_acked, Delivery, InnerTcpConn, Sending, TcpConn,
};
use crate::protocol::tcp::lifecycle::lemma_control_segment;
use crate::protocol::tcp::prelude::{listen_socket, Port, SocketDescriptor, SocketId};
use crate::protocol::tcp::socket::{
    fin_header, Closed, Segment, Socket, SynReceived, TcpState,
};
use crate::protocol::tcp::stack::{
    connection_of, connects, law_segment_has_one_receiver, listens, unnamed, Handled, Tcp,
};
use crate::protocol::tcp::stream::law_everything_contiguous_is_readable;
use crate::protocol::tcp::transport::SingleMessageTransport;
use crate::protocol::tcp::{TcpReadError, TcpSendError};
use vstd::prelude::*;

verus! {

/// Bytes are written in order, each of them once, and as far as there is room: what the send buffer
/// holds grows by the next of them, until it holds 65536 bytes or there are no more. The
/// sending remembers how many were written and the sequence numbers that they have.
pub proof fn law_bytes_are_written_in_order(
    before: TcpConn,
    after: TcpConn,
    bytes: Seq<u8>,
    sending: Sending,
    r: Result<Option<Sending>, TcpSendError>,
)
    requires
        before.wf(),
        sends_until_acked(before, after, bytes, sending, r),
        before.inner.send_buf.open,
        sending.written < bytes.len() <= usize::MAX,
        before.inner.send_buf.inner@.tail + 65536 <= usize::MAX,
    ensures
        r matches Ok(Some(next)) && {
            let (old_send, new_send) = (
                before.inner.send_buf.inner@,
                after.inner.send_buf.inner@,
            );
            let n = next.written - sending.written;
            &&& 0 <= n
            &&& next.written <= bytes.len()
            &&& new_send.tail == old_send.tail
            &&& new_send.data.len() == old_send.data.len() + n
            &&& forall|k: int|
                0 <= k < old_send.data.len() ==> #[trigger] new_send.data[k] == old_send.data[k]
            &&& forall|k: int|
                0 <= k < n ==> #[trigger] new_send.data[old_send.data.len() + k]
                    == bytes[sending.written + k]
            &&& next.written == bytes.len() || new_send.data.len() == 65536
            &&& next.end == new_send.tail + new_send.data.len()
            &&& sending.written == 0 ==> next.end - next.start == next.written
            &&& sending.written > 0 ==> next.start == sending.start
        },
        after.socket_id == before.socket_id,
        after.inner.recv_buf == before.inner.recv_buf,
        after.inner.send_buf.open,
        after.inner.send_buf.window_size == before.inner.send_buf.window_size,
{
    before.inner.send_buf.inner.lemma_wf();
}

/// A sending ends just when the remote has acknowledged all bytes, and goes on unchanged until
/// then.
pub proof fn law_sending_ends_once_acknowledged(
    before: TcpConn,
    after: TcpConn,
    bytes: Seq<u8>,
    sending: Sending,
    r: Result<Option<Sending>, TcpSendError>,
)
    requires
        sends_until_acked(before, after, bytes, sending, r),
        sending.written <= bytes.len(),
    ensures
        r == Ok::<Option<Sending>, TcpSendError>(None) <==> sending.written == bytes.len() && (
        bytes.len() == 0 || sending.end <= before.inner.send_buf.inner@.tail),
        sending.written == bytes.len() ==> after == before && (r == Ok::<
            Option<Sending>,
            TcpSendError,
        >(None) || r == Ok::<Option<Sending>, TcpSendError>(Some(sending))),
{
}

/// Nothing can be written to a connection that this end has closed.
pub proof fn law_nothing_is_written_after_closing(
    before: TcpConn,
    after: TcpConn,
    bytes: Seq<u8>,
    sending: Sending,
    r: Result<Option<Sending>, TcpSendError>,
)
    requires
        sends_until_acked(before, after, bytes, sending, r),
        sending.written < bytes.len(),
    ensures
        r is Err <==> !before.inner.send_buf.open,
        r is Err ==> r->Err_0 == TcpSendError::ConnClosed && after == before,
{
}

/// What goes for a connection goes for its buffers: bytes are written in order and as far as there
/// is room, the result says where to go on, and nothing can be written once this end has
/// closed.
pub proof fn law_buffers_take_bytes_in_order<const BUF_SZ: usize, A: AckPolicy>(
    before: InnerTcpConn<BUF_SZ, A>,
    after: InnerTcpConn<BUF_SZ, A>,
    bytes: Seq<u8>,
    curr: int,
    r: Result<Option<usize>, TcpSendError>,
)
    requires
        before.wf(),
        sends_on(before, after, bytes, curr, r),
        0 <= curr <= bytes.len() <= usize::MAX,
        bytes.len() > 0,
    ensures
        r is Err <==> !before.send_buf.open,
        r is Err ==> r->Err_0 == TcpSendError::ConnClosed && after == before,
        r is Ok ==> {
            let (old_send, new_send) = (before.send_buf.inner@, after.send_buf.inner@);
            let end = match r->Ok_0 {
                Some(end) => end as int,
                None => bytes.len() as int,
            };
            &&& curr <= end <= bytes.len()
            &&& r->Ok_0 is Some ==> end < bytes.len() && new_send.data.len() == BUF_SZ
            &&& new_send.tail == old_send.tail
            &&& new_send.data.len() == old_send.data.len() + (end - curr)
            &&& forall|k: int|
                0 <= k < old_send.data.len() ==> #[trigger] new_send.data[k] == old_send.data[k]
            &&& forall|k: int|
                0 <= k < end - curr ==> #[trigger] new_send.data[old_send.data.len() + k]
                    == bytes[curr + k]
            &&& after.recv_buf == before.recv_buf
            &&& after.send_buf.open
        },
{
    before.send_buf.inner.lemma_wf();
}

/// Bytes are read in order, each of them once, and as far as they have arrived: the buffer is
/// filled with the first of those that can be read, and they can then be read no more, while
/// all that follow them still can. What was filled before stays. Reading ends once the buffer
/// is full. Where it is not, reading goes on until the remote has closed.
pub proof fn law_bytes_are_read_in_order<const BUF_SZ: usize, A: AckPolicy>(
    before: InnerTcpConn<BUF_SZ, A>,
    after: InnerTcpConn<BUF_SZ, A>,
    buffer: Seq<u8>,
    filled: Seq<u8>,
    curr: int,
    r: Result<Option<usize>, TcpReadError>,
)
    requires
        before.wf(),
        reads_on(before, after, buffer, filled, curr, r),
        0 <= curr <= buffer.len() <= usize::MAX,
    ensures
        ({
            let (old_recv, new_recv) = (before.recv_buf.inner@, after.recv_buf.inner@);
            let n = new_recv.tail - old_recv.tail;
            &&& 0 <= n
            &&& filled.len() == buffer.len()
            &&& forall|k: int| 0 <= k < curr ==> #[trigger] filled[k] == buffer[k]
            &&& forall|k: int|
                curr <= k < curr + n ==> #[trigger] filled[k] == old_recv.window[k - curr]
            &&& forall|k: int|
                curr + n <= k < buffer.len() ==> #[trigger] filled[k] == buffer[k]
            &&& curr + n == buffer.len() || n == old_recv.head - old_recv.tail
            &&& new_recv.tail <= new_recv.head
            &&& new_recv.head == old_recv.head
            &&& new_recv.early == old_recv.early
            &&& new_recv.window.len() == old_recv.window.len()
            &&& forall|k: int|
                0 <= k < old_recv.window.len() - n ==> #[trigger] new_recv.window[k]
                    == old_recv.window[k + n]
            &&& r == (if curr + n == buffer.len() {
                Ok::<Option<usize>, TcpReadError>(None)
            } else if before.recv_buf.open {
                Ok(Some((curr + n) as usize))
            } else {
                Err(TcpReadError::Closed((curr + n) as usize))
            })
        }),
        after.send_buf == before.send_buf,
        after.recv_buf.open == before.recv_buf.open,
{
    before.recv_buf.inner.lemma_wf();
}

/// A payload waits just where it is new and there is no room for it, and nothing changes while it
/// waits. One that starts at the next expected sequence number can be read, with whatever has
/// arrived early behind it. One that starts below it was received before: it changes
/// nothing, and is acknowledged once more.
pub proof fn law_payloads_wait_for_room<const BUF_SZ: usize, A: AckPolicy>(
    before: InnerTcpConn<BUF_SZ, A>,
    after: InnerTcpConn<BUF_SZ, A>,
    header: TcpHeader,
    payload: Seq<u8>,
    r: Delivery,
)
    requires
        before.wf(),
        delivers(before, after, header, payload, r),
        payload.len() > 0,
    ensures
        ({
            let (old_recv, new_recv) = (before.recv_buf.inner@, after.recv_buf.inner@);
            let seq_no = header.sequence_number;
            let limit = old_recv.tail + old_recv.window.len();
            &&& r is Blocked <==> old_recv.head <= seq_no && limit < seq_no + payload.len()
            &&& r is Blocked ==> after.recv_buf == before.recv_buf && after.ack_policy
                == before.ack_policy
            &&& r is Done ==> after.ack_policy == before.ack_policy.decided(header)
            &&& seq_no < old_recv.head ==> new_recv == old_recv && r == Delivery::Done(
                if before.ack_policy.acks(header) {
                    2
                } else {
                    1
                },
            )
            &&& old_recv.head <= seq_no && r is Done ==> r == Delivery::Done(
                if before.ack_policy.acks(header) {
                    1
                } else {
                    0
                },
            )
            &&& old_recv.head == seq_no && r is Done ==> {
                &&& new_recv.tail == old_recv.tail
                &&& new_recv.head >= old_recv.head + payload.len()
                &&& !covered(old_recv.early, new_recv.head)
                &&& forall|p: int|
                    old_recv.tail <= p < new_recv.head ==> #[trigger] new_recv.window[p
                        - new_recv.tail] == if seq_no <= p < seq_no + payload.len() {
                        payload[p - seq_no]
                    } else {
                        old_recv.window[p - old_recv.tail]
                    }
            }
        }),
        after.recv_buf.open == before.recv_buf.open,
{
    before.recv_buf.inner.lemma_wf();
    let recv = before.recv_buf.inner@;
    if r is Done && recv.head == header.sequence_number {
        law_everything_contiguous_is_readable(recv, header.sequence_number as usize, payload);
    }
}

/// A segment is for the socket whose remote has its source address and port and whose local port is
/// its destination port, be there a socket that listens at that port or not. That socket alone
/// can change, and it goes through a step just where it is ready for the segment.
pub proof fn law_segments_reach_their_connection(
    before: Tcp,
    after: Tcp,
    ip_header: Ipv4Header,
    header: TcpHeader,
    payload: Seq<u8>,
    src_ip: Ipv4Addr,
    handled: Handled,
    i: int,
)
    requires
        before.wf(),
        before.passed(after, ip_header, header, payload, src_ip, handled),
        0 <= i < before.sockets@.len(),
        before.sockets@[i].id.remote.addr == ip_header.source,
        before.sockets@[i].id.remote.port.0 == header.source_port,
        before.sockets@[i].id.local_port.0 == header.destination_port,
    ensures
        after.sockets@.len() == before.sockets@.len(),
        forall|j: int|
            0 <= j < before.sockets@.len() && j != i ==> #[trigger] after.sockets@[j]
                == before.sockets@[j],
        !before.sockets@[i].accepts(header, payload) ==> handled == Handled::NotReady(i as usize)
            && after.sockets@[i] == before.sockets@[i],
        before.sockets@[i].accepts(header, payload) ==> (handled matches Handled::Updated(
            at,
            update,
        ) && at == i && before.sockets@[i].steps(
            after.sockets@[i],
            ip_header,
            header,
            payload,
            src_ip,
            update,
        )),
        after.next_descriptor == before.next_descriptor,
{
    let sockets = before.sockets@;
    let conn = sockets[i].id;
    assert(conn == connection_of(ip_header.source, header));
    assert(!unnamed(sockets, conn));
    assert(before.is_receiver(ip_header.source, header, i));
    match handled {
        Handled::NoSocket => {},
        Handled::NotReady(at) => {
            law_segment_has_one_receiver(before, ip_header.source, header, at as int, i);
        },
        Handled::Updated(at, _) => {
            law_segment_has_one_receiver(before, ip_header.source, header, at as int, i);
        },
    }
}

/// A segment of no connection is for the socket that listens at its destination port. That socket
/// has no remote: its address is zero, and so is its port.
pub proof fn law_other_segments_reach_the_listener(
    before: Tcp,
    after: Tcp,
    ip_header: Ipv4Header,
    header: TcpHeader,
    payload: Seq<u8>,
    src_ip: Ipv4Addr,
    handled: Handled,
    i: int,
)
    requires
        before.wf(),
        before.passed(after, ip_header, header, payload, src_ip, handled),
        forall|j: int|
            0 <= j < before.sockets@.len() ==> !((#[trigger] before.sockets@[j]).id.remote.addr
                == ip_header.source && before.sockets@[j].id.remote.port.0 == header.source_port
                && before.sockets@[j].id.local_port.0 == header.destination_port),
        0 <= i < before.sockets@.len(),
        before.sockets@[i].id.remote.addr == (Ipv4Addr { a: 0, b: 0, c: 0, d: 0 }),
        before.sockets@[i].id.remote.port.0 == 0,
        before.sockets@[i].id.local_port.0 == header.destination_port,
    ensures
        after.sockets@.len() == before.sockets@.len(),
        forall|j: int|
            0 <= j < before.sockets@.len() && j != i ==> #[trigger] after.sockets@[j]
                == before.sockets@[j],
        !before.sockets@[i].accepts(header, payload) ==> handled == Handled::NotReady(i as usize)
            && after.sockets@[i] == before.sockets@[i],
        before.sockets@[i].accepts(header, payload) ==> (handled matches Handled::Updated(
            at,
            update,
        ) && at == i && before.sockets@[i].steps(
            after.sockets@[i],
            ip_header,
            header,
            payload,
            src_ip,
            update,
        )),
        after.next_descriptor == before.next_descriptor,
{
    assert(before.is_receiver(ip_header.source, header, i));
    match handled {
        Handled::NoSocket => {},
        Handled::NotReady(at) => {
            law_segment_has_one_receiver(before, ip_header.source, header, at as int, i);
        },
        Handled::Updated(at, _) => {
            law_segment_has_one_receiver(before, ip_header.source, header, at as int, i);
        },
    }
}

/// A segment changes nothing where there is neither a socket of its connection nor one that listens
/// at its destination port, and only there is it for no socket.
pub proof fn law_stray_segments_change_nothing(
    before: Tcp,
    after: Tcp,
    ip_header: Ipv4Header,
    header: TcpHeader,
    payload: Seq<u8>,
    src_ip: Ipv4Addr,
    handled: Handled,
)
    requires
        before.passed(after, ip_header, header, payload, src_ip, handled),
    ensures
        handled is NoSocket <==> forall|j: int|
            0 <= j < before.sockets@.len() ==> {
                let id = (#[trigger] before.sockets@[j]).id;
                ||| id.local_port.0 != header.destination_port
                ||| {
                    &&& id.remote.addr != ip_header.source || id.remote.port.0
                        != header.source_port
                    &&& id.remote.addr != (Ipv4Addr { a: 0, b: 0, c: 0, d: 0 })
                        || id.remote.port.0 != 0
                }
            },
        handled is NoSocket ==> after.sockets@ == before.sockets@,
{
    let conn = connection_of(ip_header.source, header);
    let listener = listen_socket(Port(header.destination_port));
    if handled is NoSocket {
        assert forall|j: int| 0 <= j < before.sockets@.len() implies {
            let id = (#[trigger] before.sockets@[j]).id;
            id != conn && id != listener
        } by {}
    }
}

/// A socket that is opened has a descriptor of its own, and no other socket changes. It takes the
/// next descriptor, or that of a closed socket with the same name, whose place it takes.
pub proof fn law_opened_sockets_have_their_own_descriptor(
    before: Tcp,
    after: Seq<Socket>,
    id: SocketId,
    d: SocketDescriptor,
    i: int,
)
    requires
        before.wf(),
        before.opened(after, id, d, i),
    ensures
        0 <= i < after.len(),
        after[i].id == id,
        after[i].descriptor == d,
        forall|j: int|
            0 <= j < after.len() && j != i ==> (#[trigger] after[j]).id != id
                && after[j].descriptor != d && j < before.sockets@.len() && after[j]
                == before.sockets@[j],
        i == before.sockets@.len() ==> after.len() == before.sockets@.len() + 1 && d.0
            == before.next_descriptor && before.following(id) == before.next_descriptor + 1,
        i < before.sockets@.len() ==> after.len() == before.sockets@.len()
            && before.sockets@[i].id == id && before.sockets@[i].descriptor == d
            && before.sockets@[i].state is Closed && before.following(id)
            == before.next_descriptor,
        i <= before.sockets@.len(),
{
    if unnamed(before.sockets@, id) {
        assert forall|j: int| 0 <= j < after.len() && j != i implies (#[trigger] after[j]).id != id
            && after[j].descriptor != d && j < before.sockets@.len() && after[j]
            == before.sockets@[j] by {
            assert(after[j] == before.sockets@[j]);
        }
    } else {
        assert forall|j: int| 0 <= j < after.len() && j != i implies (#[trigger] after[j]).id != id
            && after[j].descriptor != d && j < before.sockets@.len() && after[j]
            == before.sockets@[j] by {
            assert(after[j] == before.sockets@[j]);
            if j < i {
                assert(before.sockets@[j].id != before.sockets@[i].id);
                assert(before.sockets@[j].descriptor != before.sockets@[i].descriptor);
            } else {
                assert(before.sockets@[i].id != before.sockets@[j].id);
                assert(before.sockets@[i].descriptor != before.sockets@[j].descriptor);
            }
        }
    }
}

/// To listen opens a socket without a remote, which listens at the port.
pub proof fn law_listening_opens_a_socket(
    before: Tcp,
    after: Seq<Socket>,
    port: Port,
    d: SocketDescriptor,
) -> (i: int)
    requires
        before.listening(after, port, d),
    ensures
        0 <= i < after.len(),
        after[i].descriptor == d,
        after[i].id.local_port == port,
        after[i].id.remote.addr == (Ipv4Addr { a: 0, b: 0, c: 0, d: 0 }),
        after[i].id.remote.port.0 == 0,
        before.opened(after, after[i].id, d, i),
        after[i].state matches TcpState::Listen(s) && s.port == port,
{
    choose|i: int| #[trigger]
        before.opened(after, listen_socket(port), d, i) && listens(after[i].state, port)
}

/// To connect opens a socket with the given ends, and asks the remote for a connection: the segment
/// goes from the local port to that of the remote, is intact, carries no data, sets no flag
/// but the one that asks, and takes up the sequence number in front of the one that the socket
/// will go on with.
pub proof fn law_connecting_asks_for_a_connection(
    before: Tcp,
    after: Seq<Socket>,
    id: SocketId,
    src_ip: Ipv4Addr,
    d: SocketDescriptor,
    segment: Seq<u8>,
    header: TcpHeader,
) -> (i: int)
    requires
        before.connecting(after, id, src_ip, d, segment),
        header.reads(segment),
    ensures
        0 <= i < after.len(),
        before.opened(after, id, d, i),
        after[i].state matches TcpState::SynSent(s) && {
            &&& s.src_port == id.local_port
            &&& s.dest_ip == id.remote.addr
            &&& s.dest_port == id.remote.port
            &&& 0 < s.seq_no ==> header.sequence_number == s.seq_no - 1
        },
        segment.len() == 20,
        header.source_port == id.local_port.0,
        header.destination_port == id.remote.port.0,
        header.syn,
        !header.ack,
        !header.fin,
        header.window_size == 65535,
        tcp_slice_checksum(segment, src_ip@, id.remote.addr@, Seq::empty()) == Some(
            header.checksum,
        ),
{
    let i = choose|i: int| #[trigger]
        before.opened(after, id, d, i) && connects(after[i].state, id, src_ip, segment);
    let s = after[i].state->SynSent_0;
    lemma_control_segment(
        (Closed { seq_no: (s.seq_no - 1) as u32 }).syn_header(id.local_port, id.remote.port),
        src_ip,
        id.remote.addr,
        header,
    );
    i
}

/// A user can send over an established connection only. Before it is established the socket says
/// that it is not, and afterwards that it is closed. Nothing but the connection changes.
pub proof fn law_sending_takes_an_established_connection(
    before: Socket,
    after: Socket,
    bytes: Seq<u8>,
    sending: Sending,
    r: Result<Option<Sending>, TcpSendError>,
)
    requires
        before.sends(after, bytes, sending, r),
    ensures
        before.state is Established ==> after.conn is Some && sends_until_acked(
            before.conn->0,
            after.conn->0,
            bytes,
            sending,
            r,
        ),
        before.state is Listen || before.state is SynSent || before.state is SynReceived ==> r
            == Err::<Option<Sending>, TcpSendError>(TcpSendError::ConnNotEstablished),
        before.state is Closed || before.state is FinWait1 || before.state is FinWait2
            || before.state is Closing || before.state is TimeWait || before.state is CloseWait
            || before.state is LastAck ==> r == Err::<Option<Sending>, TcpSendError>(
            TcpSendError::ConnClosed,
        ),
        !(before.state is Established) ==> after == before,
        after.state == before.state,
        after.id == before.id,
        after.descriptor == before.descriptor,
{
}

/// A user can read from an established connection only. Before it is established the socket says
/// that it is not, and afterwards that it is closed. Nothing but the connection and the buffer
/// changes.
pub proof fn law_reading_takes_an_established_connection(
    before: Socket,
    after: Socket,
    buffer: Seq<u8>,
    filled: Seq<u8>,
    curr: int,
    r: Result<Option<usize>, TcpReadError>,
)
    requires
        before.fills(after, buffer, filled, curr, r),
    ensures
        before.state is Established ==> after.conn is Some && reads_on(
            before.conn->0.inner,
            after.conn->0.inner,
            buffer,
            filled,
            curr,
            r,
        ),
        before.state is Listen || before.state is SynSent || before.state is SynReceived ==> r
            == Err::<Option<usize>, TcpReadError>(TcpReadError::ConnNotEstablished),
        before.state is Closed || before.state is FinWait1 || before.state is FinWait2
            || before.state is Closing || before.state is TimeWait || before.state is CloseWait
            || before.state is LastAck ==> r == Err::<Option<usize>, TcpReadError>(
            TcpReadError::Closed(0),
        ),
        !(before.state is Established) ==> after == before && filled == buffer,
        after.state == before.state,
        after.id == before.id,
        after.descriptor == before.descriptor,
{
}

/// The segment that ends a connection is made once, and only once this end has closed and all data
/// has been acknowledged. It goes to the remote, is intact, carries no data, says that this end
/// is closed, and takes up the sequence number behind the data, which the socket remembers.
pub proof fn law_the_end_follows_the_data(
    before: Socket,
    after: Socket,
    r: Option<Segment>,
    header: TcpHeader,
)
    requires
        before.wf(),
        before.ends(after, r),
        before.state is FinWait1 ==> before.conn->0.inner.send_buf.inner@.tail <= u32::MAX,
    ensures
        r is Some <==> before.state is FinWait1 && before.state->FinWait1_0.fin_seq_no is None
            && before.conn->0.inner.send_buf.inner@.data.len() == 0,
        r is None ==> after == before,
        after.conn == before.conn,
        r matches Some(segment) ==> {
            let s = before.state->FinWait1_0;
            let tail = before.conn->0.inner.send_buf.inner@.tail;
            &&& segment.dest == s.remote_ip
            &&& segment.bytes@.len() == 20
            &&& after.state matches TcpState::FinWait1(t)
            &&& t.fin_seq_no matches Some(seq_no)
            &&& seq_no == tail
            &&& t.local_port == s.local_port
            &&& t.remote_ip == s.remote_ip
            &&& t.remote_port == s.remote_port
            &&& t.src_ip == s.src_ip
            &&& header.reads(segment.bytes@) ==> {
                &&& header.fin
                &&& !header.syn
                &&& header.source_port == s.local_port.0
                &&& header.destination_port == s.remote_port.0
                &&& header.sequence_number == tail
                &&& tcp_slice_checksum(
                    segment.bytes@,
                    s.src_ip@,
                    s.remote_ip@,
                    Seq::empty(),
                ) == Some(header.checksum)
            }
        },
{
    if r is Some {
        let s = before.state->FinWait1_0;
        let tail = before.conn->0.inner.send_buf.inner@.tail;
        before.conn->0.inner.send_buf.inner.lemma_wf();
        lemma_control_segment(
            fin_header(s.local_port, s.remote_port, tail as u32),
            s.src_ip,
            s.remote_ip,
            header,
        );
    }
}

/// A message is sent again until it is acknowledged, to the remote and as a segment. Only what could
/// not be sent counts, and once that has happened as often as is allowed the sending is given
/// up.
pub proof fn law_messages_are_sent_until_failures_exceed<DP: DropPolicy>(
    before: SingleMessageTransport,
    after: SingleMessageTransport,
    net: VtLinkNet<DP>,
    r: (bool, Option<Datagram>),
)
    requires
        before.transmitted(after, net, r),
        before.retried < usize::MAX,
    ensures
        r.1 matches Some(d) ==> net.outgoing(before.payload@, 6, before.remote.addr) == Ok::<
            (u16, Seq<u8>),
            SendError,
        >((d.port, d.bytes@)),
        r.1 is None <==> net.outgoing(before.payload@, 6, before.remote.addr) is Err,
        r.1 is Some ==> r.0 && after.retried == before.retried,
        r.1 is None ==> after.retried == before.retried + 1,
        r.1 is None ==> (r.0 <==> after.retried < before.rtx_cfg.max_err_retries),
        after.payload == before.payload,
        after.remote == before.remote,
        after.rtx_cfg == before.rtx_cfg,
{
}

/// A connection that a listening socket took gets a socket of its own, with the next descriptor,
/// unless there is one with the same ends already. No other socket changes.
pub proof fn law_taken_connections_get_a_socket(
    before: Tcp,
    after: Tcp,
    new: SynReceived,
    r: Option<SocketDescriptor>,
)
    requires
        before.wf(),
        before.took(after, new, r),
    ensures
        r is None <==> exists|i: int|
            0 <= i < before.sockets@.len() && (#[trigger] before.sockets@[i]).id.local_port
                == new.local_port && before.sockets@[i].id.remote.addr == new.remote_ip
                && before.sockets@[i].id.remote.port == new.remote_port,
        r is None ==> after == before,
        r matches Some(d) ==> {
            let n = before.sockets@.len() as int;
            &&& d.0 == before.next_descriptor
            &&& after.next_descriptor == before.next_descriptor + 1
            &&& after.sockets@.len() == n + 1
            &&& forall|j: int| 0 <= j < n ==> #[trigger] after.sockets@[j] == before.sockets@[j]
            &&& after.sockets@[n].descriptor == d
            &&& after.sockets@[n].id.local_port == new.local_port
            &&& after.sockets@[n].id.remote.addr == new.remote_ip
            &&& after.sockets@[n].id.remote.port == new.remote_port
            &&& after.sockets@[n].state == TcpState::SynReceived(new)
            &&& after.sockets@[n].conn is None
        },
{
    if r is None {
        let i = choose|i: int|
            0 <= i < before.sockets@.len() && (#[trigger] before.sockets@[i]).id
                == new.socket_id();
        assert(before.sockets@[i].id.local_port == new.local_port);
    }
}

} // verus!
