//! What the buffers promise of the byte stream that goes through them.

use crate::header::{law_written_segment_reads_back, tcp_segment, TcpHeader};
use crate::protocol::tcp::ack_policy::AckPolicy;
use crate::protocol::tcp::buf::{
    covered, frontier, is_frontier, lemma_frontier_unique, RecvBufView, SegmentMeta, SendBufView,
};
use crate::protocol::tcp::conn::{delivers, Delivery, InnerTcpConn};
use crate::protocol::tcp::prelude::Remote;
use crate::protocol::tcp::transport::data_header;
use vstd::prelude::*;

verus! {

/// Whether `buf` is what is left of a buffer that started at sequence number
/// `initial` and has accepted the bytes `written` so far.
pub open spec fn sends(buf: SendBufView, initial: int, written: Seq<u8>) -> bool {
    &&& initial <= buf.tail
    &&& buf.head() == initial + written.len()
    &&& buf.data == written.subrange(buf.tail - initial, written.len() as int)
}

/// A new send buffer has accepted nothing.
pub proof fn law_new_send_buffer_is_empty(initial: int)
    ensures
        sends(SendBufView { tail: initial, data: Seq::empty() }, initial, Seq::empty()),
{
    assert(Seq::<u8>::empty() =~= Seq::<u8>::empty().subrange(0, 0));
}

/// Bytes are kept in the order in which they were written.
pub proof fn law_write_appends_to_stream(
    buf: SendBufView,
    initial: int,
    written: Seq<u8>,
    bytes: Seq<u8>,
)
    requires
        sends(buf, initial, written),
    ensures
        sends(buf.push(bytes), initial, written + bytes),
{
    assert(buf.push(bytes).data =~= (written + bytes).subrange(
        buf.tail - initial,
        (written + bytes).len() as int,
    ));
}

/// An acknowledgement discards bytes, and changes none that stay.
pub proof fn law_acknowledgement_keeps_stream(
    buf: SendBufView,
    initial: int,
    written: Seq<u8>,
    seq_no: int,
)
    requires
        sends(buf, initial, written),
        buf.tail <= seq_no <= buf.head(),
    ensures
        sends(buf.advance(seq_no), initial, written),
{
    assert(buf.advance(seq_no).data =~= written.subrange(
        seq_no - initial,
        written.len() as int,
    ));
}

/// Once everything has been acknowledged, the buffer is empty.
pub proof fn law_acknowledging_all_empties(buf: SendBufView)
    ensures
        buf.advance(buf.head()).data == Seq::<u8>::empty(),
{
    assert(buf.advance(buf.head()).data =~= Seq::<u8>::empty());
}

/// Whether everything that `buf` has received is what `stream` holds at the same
/// sequence number.
pub open spec fn receives(buf: RecvBufView, stream: spec_fn(int) -> u8) -> bool {
    forall|p: int|
        buf.tail <= p < buf.head || covered(buf.early, p) ==> #[trigger] buf.at(p) == stream(p)
}

/// Whether `bytes` is what `stream` holds from `seq_no` on.
pub open spec fn segment_of(stream: spec_fn(int) -> u8, seq_no: int, bytes: Seq<u8>) -> bool {
    forall|k: int| 0 <= k < bytes.len() ==> #[trigger] bytes[k] == stream(seq_no + k)
}

/// Where early segments end below `limit`, a frontier exists.
proof fn lemma_frontier_exists(early: Set<SegmentMeta>, from: int, limit: int)
    requires
        from <= limit,
        forall|s: SegmentMeta| #[trigger] early.contains(s) ==> s.seq_no + s.size <= limit,
    ensures
        is_frontier(early, from, frontier(early, from)),
        frontier(early, from) <= limit,
    decreases limit - from,
{
    if covered(early, from) {
        let s = choose|s: SegmentMeta| #[trigger] early.contains(s) && s.covers(from);
        assert(early.contains(s));
        lemma_frontier_exists(early, from + 1, limit);
        let h = frontier(early, from + 1);
        assert(is_frontier(early, from, h));
        lemma_frontier_unique(early, from, h);
    } else {
        assert(is_frontier(early, from, from));
        lemma_frontier_unique(early, from, from);
    }
}

/// A segment that arrives at the head moves the head by at least its size, and
/// any other segment leaves the head where it is.
pub proof fn law_segment_moves_head(buf: RecvBufView, seq_no: usize, bytes: Seq<u8>)
    requires
        buf.wf(),
        buf.writable(seq_no as int, bytes.len() as int),
        bytes.len() <= usize::MAX,
    ensures
        buf.write(seq_no, bytes).wf(),
        seq_no == buf.head ==> buf.write(seq_no, bytes).head >= buf.head + bytes.len(),
        seq_no != buf.head ==> buf.write(seq_no, bytes).head == buf.head,
{
    let after = buf.write(seq_no, bytes);
    if seq_no == buf.head {
        lemma_frontier_exists(buf.early, buf.head + bytes.len(), buf.limit());
        assert forall|s: SegmentMeta| #[trigger] after.early.contains(s) implies after.head
            < s.seq_no && s.seq_no + s.size <= after.limit() by {
            assert(buf.early.contains(s));
        }
    } else {
        assert forall|s: SegmentMeta| #[trigger] after.early.contains(s) implies after.head
            < s.seq_no && s.seq_no + s.size <= after.limit() by {
            if buf.early.contains(s) {
            }
        }
    }
}

/// A segment at the head is stored where its sequence number says. Afterwards the head is behind the
/// segment and behind whatever has arrived early right behind it, so that everything contiguous
/// can be read.
pub proof fn law_everything_contiguous_is_readable(buf: RecvBufView, seq_no: usize, bytes: Seq<u8>)
    requires
        buf.wf(),
        bytes.len() > 0,
        seq_no == buf.head,
        buf.writable(seq_no as int, bytes.len() as int),
    ensures
        ({
            let after = buf.write(seq_no, bytes);
            &&& after.tail == buf.tail
            &&& after.head >= buf.head + bytes.len()
            &&& after.window.len() == buf.window.len()
            &&& forall|p: int|
                buf.tail <= p < buf.tail + buf.window.len() ==> #[trigger] after.window[p
                    - after.tail] == if buf.head <= p < buf.head + bytes.len() {
                    bytes[p - buf.head]
                } else {
                    buf.window[p - buf.tail]
                }
            &&& forall|p: int|
                buf.head + bytes.len() <= p < after.head ==> #[trigger] covered(buf.early, p)
            &&& !covered(buf.early, after.head)
            &&& after.head <= buf.tail + buf.window.len()
        }),
{
    lemma_frontier_exists(buf.early, buf.head + bytes.len(), buf.limit());
}

/// What has arrived stays until it is consumed: no segment drops a byte that can be read or that
/// has arrived early, and every byte of the segment itself can be read or counts as early.
pub proof fn law_received_bytes_stay(buf: RecvBufView, seq_no: usize, bytes: Seq<u8>, p: int)
    requires
        buf.wf(),
        buf.writable(seq_no as int, bytes.len() as int),
        bytes.len() <= usize::MAX,
    ensures
        ({
            let after = buf.write(seq_no, bytes);
            &&& after.tail == buf.tail
            &&& after.head >= buf.head
            &&& buf.tail <= p < buf.head || covered(buf.early, p) || seq_no <= p < seq_no
                + bytes.len() ==> buf.tail <= p < after.head || covered(after.early, p)
            &&& covered(after.early, p) ==> covered(buf.early, p) || seq_no <= p < seq_no
                + bytes.len()
        }),
{
    let after = buf.write(seq_no, bytes);
    law_segment_moves_head(buf, seq_no, bytes);
    if covered(buf.early, p) {
        let s = choose|s: SegmentMeta| #[trigger] buf.early.contains(s) && s.covers(p);
        if bytes.len() > 0 && seq_no == buf.head {
            lemma_frontier_exists(buf.early, buf.head + bytes.len(), buf.limit());
            if s.seq_no > after.head {
                assert(after.early.contains(s));
            } else {
                if p >= after.head {
                    assert(s.covers(after.head));
                    assert(covered(buf.early, after.head));
                }
            }
        } else {
            assert(after.early.contains(s));
        }
    }
    if bytes.len() > 0 && seq_no != buf.head {
        let new = SegmentMeta { seq_no, size: bytes.len() as usize };
        assert(after.early.contains(new));
        if seq_no <= p < seq_no + bytes.len() {
            assert(new.covers(p));
        }
    }
    if covered(after.early, p) {
        let s = choose|s: SegmentMeta| #[trigger] after.early.contains(s) && s.covers(p);
        if buf.early.contains(s) {
        }
    }
}

/// Consuming takes the first bytes that can be read, and leaves the others readable and what has
/// arrived early where it is.
pub proof fn law_consuming_takes_the_first_bytes(buf: RecvBufView, n: int)
    requires
        buf.wf(),
        0 <= n <= buf.readable().len(),
    ensures
        buf.consume(n).tail == buf.tail + n,
        buf.consume(n).head == buf.head,
        buf.consume(n).early == buf.early,
        buf.consume(n).window.len() == buf.window.len(),
        buf.readable() == buf.readable().subrange(0, n) + buf.consume(n).readable(),
        buf.readable().len() == buf.head - buf.tail,
        forall|k: int|
            0 <= k < buf.head - buf.tail ==> #[trigger] buf.readable()[k] == buf.window[k],
{
    assert(buf.readable() =~= buf.readable().subrange(0, n) + buf.consume(n).readable());
}

/// Whatever the order in which the segments of a stream arrive, the buffer holds
/// nothing but that stream.
pub proof fn law_segments_reassemble_stream(
    buf: RecvBufView,
    stream: spec_fn(int) -> u8,
    seq_no: usize,
    bytes: Seq<u8>,
)
    requires
        buf.wf(),
        receives(buf, stream),
        buf.writable(seq_no as int, bytes.len() as int),
        bytes.len() <= usize::MAX,
        segment_of(stream, seq_no as int, bytes),
    ensures
        receives(buf.write(seq_no, bytes), stream),
{
    let after = buf.write(seq_no, bytes);
    law_segment_moves_head(buf, seq_no, bytes);
    if seq_no == buf.head {
        lemma_frontier_exists(buf.early, buf.head + bytes.len(), buf.limit());
    }
    assert forall|p: int|
        after.tail <= p < after.head || covered(after.early, p) implies #[trigger] after.at(p)
        == stream(p) by {
        if seq_no <= p < seq_no + bytes.len() {
            assert(after.at(p) == bytes[p - seq_no]);
        } else {
            if covered(after.early, p) {
                let s = choose|s: SegmentMeta| #[trigger] after.early.contains(s) && s.covers(p);
                if buf.early.contains(s) {
                    assert(covered(buf.early, p));
                }
            } else if p >= buf.head {
                assert(covered(buf.early, p));
            }
            if covered(buf.early, p) {
                let s = choose|s: SegmentMeta| #[trigger] buf.early.contains(s) && s.covers(p);
                assert(buf.early.contains(s));
            }
            assert(buf.at(p) == stream(p));
            assert(after.at(p) == buf.at(p));
        }
    }
}

/// Consuming bytes leaves the rest of the stream as it was.
pub proof fn law_consuming_keeps_stream(buf: RecvBufView, stream: spec_fn(int) -> u8, n: int)
    requires
        buf.wf(),
        receives(buf, stream),
        0 <= n <= buf.readable().len(),
    ensures
        buf.consume(n).wf(),
        receives(buf.consume(n), stream),
{
    let after = buf.consume(n);
    assert(after.window.len() == buf.window.len());
    assert forall|p: int|
        after.tail <= p < after.head || covered(after.early, p) implies #[trigger] after.at(p)
        == stream(p) by {
        if covered(after.early, p) {
            let s = choose|s: SegmentMeta| #[trigger] after.early.contains(s) && s.covers(p);
            assert(buf.early.contains(s));
        }
        assert(buf.at(p) == stream(p));
    }
}

/// What is read is the stream, from the tail on and without gaps.
pub proof fn law_readable_is_stream(buf: RecvBufView, stream: spec_fn(int) -> u8)
    requires
        buf.wf(),
        receives(buf, stream),
    ensures
        buf.readable() == Seq::new(
            (buf.head - buf.tail) as nat,
            |k: int| stream(buf.tail + k),
        ),
{
    assert forall|k: int| 0 <= k < buf.head - buf.tail implies buf.readable()[k] == stream(
        buf.tail + k,
    ) by {
        assert(buf.at(buf.tail + k) == stream(buf.tail + k));
    }
    assert(buf.readable() =~= Seq::new(
        (buf.head - buf.tail) as nat,
        |k: int| stream(buf.tail + k),
    ));
}

/// A new receive buffer holds no byte of any stream.
pub proof fn law_new_receive_buffer_is_empty(initial: int, size: nat, stream: spec_fn(int) -> u8)
    requires
        0 <= initial,
    ensures
        ({
            let buf = RecvBufView {
                tail: initial,
                head: initial,
                window: Seq::new(size, |k: int| 0u8),
                early: Set::empty(),
            };
            buf.wf() && receives(buf, stream)
        }),
{
}

/// What a sender has written and not yet discarded reaches the receiver
/// unchanged: a segment cut from the send buffer at any place, and written at
/// its sequence number, keeps the receiver on the sender's stream.
pub proof fn law_transfer_keeps_stream(
    send: SendBufView,
    initial: int,
    written: Seq<u8>,
    recv: RecvBufView,
    seq_no: usize,
    len: int,
)
    requires
        sends(send, initial, written),
        send.tail <= seq_no,
        0 <= len <= usize::MAX,
        seq_no + len <= send.head(),
        recv.wf(),
        recv.writable(seq_no as int, len),
        receives(recv, |p: int| written[p - initial]),
    ensures
        receives(
            recv.write(seq_no, send.data.subrange(seq_no - send.tail, seq_no - send.tail + len)),
            |p: int| written[p - initial],
        ),
{
    let stream = |p: int| written[p - initial];
    let bytes = send.data.subrange(seq_no - send.tail, seq_no - send.tail + len);
    assert(segment_of(stream, seq_no as int, bytes));
    law_segments_reassemble_stream(recv, stream, seq_no, bytes);
}

/// A segment that one end sends keeps the other end on the stream that was written: it is cut from
/// the send buffer, made into bytes, read from these bytes again and delivered, and afterwards the
/// receive buffer still holds nothing but that stream.
pub proof fn law_sent_segment_keeps_stream<const BUF_SZ: usize, A: AckPolicy>(
    send: SendBufView,
    initial: int,
    written: Seq<u8>,
    seq_no: u32,
    len: int,
    window: int,
    ack: int,
    local: Remote,
    remote: Remote,
    header: TcpHeader,
    before: InnerTcpConn<BUF_SZ, A>,
    after: InnerTcpConn<BUF_SZ, A>,
    delivery: Delivery,
)
    requires
        sends(send, initial, written),
        send.tail <= seq_no,
        0 <= len <= usize::MAX,
        seq_no + len <= send.head(),
        before.wf(),
        receives(before.recv_buf.inner@, |p: int| written[p - initial]),
        ({
            let payload = send.data.subrange(seq_no - send.tail, seq_no - send.tail + len);
            let sent = data_header(local.port, remote.port, seq_no as int, window, ack);
            &&& header.reads(tcp_segment(sent, local.addr, remote.addr, payload))
            &&& delivers(before, after, header, payload, delivery)
        }),
    ensures
        receives(after.recv_buf.inner@, |p: int| written[p - initial]),
{
    let payload = send.data.subrange(seq_no - send.tail, seq_no - send.tail + len);
    let sent = data_header(local.port, remote.port, seq_no as int, window, ack);
    law_written_segment_reads_back(sent, local.addr, remote.addr, payload, header);
    let recv = before.recv_buf.inner@;
    before.recv_buf.inner.lemma_wf();
    if len > 0 && seq_no >= recv.head && !(delivery is Blocked) {
        law_transfer_keeps_stream(send, initial, written, recv, seq_no as usize, len);
    }
}

} // verus!
