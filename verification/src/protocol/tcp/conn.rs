//! Connections.

use crate::header::{bit, TcpHeader};
use crate::protocol::tcp::ack_policy::{AckPolicy, AlwaysAck};
use crate::protocol::tcp::buf::{smaller, FillError, RecvBuf, RecvBufView, SendBuf, SendBufView};
use crate::protocol::tcp::prelude::{Port, Remote, SocketId};
use crate::protocol::tcp::{
    window_field, TcpCloseError, TcpReadError, TcpSendError, TCP_DEFAULT_WINDOW_SZ,
};
use crate::time::clock_read;
use vstd::prelude::*;

verus! {

/// What became of the payload of a packet.
#[derive(Debug, PartialEq, Eq, Structural, Clone, Copy)]
pub enum Delivery {
    /// It was written or refused, and so many acknowledgements are due at once.
    Done(usize),
    /// There is no room for it yet. It is to be delivered again once the application has read.
    Blocked,
}

/// A send buffer once the remote has acknowledged what is below `ack`. An acknowledgement that
/// is lower than an earlier one, or higher than all that was written, is ignored.
pub open spec fn after_ack(send: SendBufView, ack: u32) -> SendBufView {
    if send.tail <= ack <= send.head() {
        send.advance(ack as int)
    } else {
        send
    }
}

/// A receive buffer once a payload that fits has arrived. What was received before is ignored.
pub open spec fn after_payload(recv: RecvBufView, seq_no: u32, payload: Seq<u8>) -> RecvBufView {
    if payload.len() > 0 && seq_no >= recv.head {
        recv.write(seq_no as usize, payload)
    } else {
        recv
    }
}

/// Whether there is no room for a payload yet.
pub open spec fn must_wait(recv: RecvBufView, seq_no: u32, payload: Seq<u8>) -> bool {
    payload.len() > 0 && seq_no >= recv.head && seq_no + payload.len() > recv.limit()
}

/// Whether `after` is what a connection becomes when bytes are sent on from `curr`, and `r` says
/// how far that came.
pub open spec fn sends_on<const BUF_SZ: usize, A: AckPolicy>(
    before: InnerTcpConn<BUF_SZ, A>,
    after: InnerTcpConn<BUF_SZ, A>,
    bytes: Seq<u8>,
    curr: int,
    r: Result<Option<usize>, TcpSendError>,
) -> bool {
    &&& after == (InnerTcpConn { send_buf: after.send_buf, ..before })
    &&& after.send_buf.window_size == before.send_buf.window_size
    &&& after.send_buf.open == before.send_buf.open
    &&& before.send_buf.inner.times_tail(after.send_buf.inner)
    &&& match r {
        Ok(rest) => {
            let end = curr + smaller(BUF_SZ - before.send_buf.inner@.data.len(), bytes.len() - curr);
            if bytes.len() == 0 {
                rest is None && after == before
            } else {
                &&& before.send_buf.open
                &&& after.send_buf.inner@ == before.send_buf.inner@.push(bytes.subrange(curr, end))
                &&& rest == (if end < bytes.len() {
                    Some(end as usize)
                } else {
                    None
                })
            }
        },
        Err(e) => {
            &&& e == TcpSendError::ConnClosed
            &&& bytes.len() > 0
            &&& !before.send_buf.open
            &&& after == before
        },
    }
}

/// How far the sending of bytes over a connection came.
#[derive(Debug, PartialEq, Eq, Structural, Clone, Copy)]
pub struct Sending {
    /// How many of the bytes have been written to the send buffer.
    pub written: usize,
    /// The sequence number of the first of them.
    pub start: usize,
    /// The sequence number behind the last of them.
    pub end: usize,
}

impl Sending {
    /// The sending of bytes none of which has been written.
    pub fn new() -> (r: Self)
        ensures
            r == (Sending { written: 0, start: 0, end: 0 }),
    {
        Sending { written: 0, start: 0, end: 0 }
    }

    /// Whether the bytes that have been written went through a send buffer: their sequence numbers
    /// are below its head.
    pub open spec fn went_through(self, send: SendBufView) -> bool {
        self.written > 0 ==> self.start + self.written <= self.end <= send.head()
    }

    /// The sending once `n` more bytes were written.
    pub open spec fn wrote(self, send: SendBufView, n: int) -> Sending {
        Sending {
            written: (self.written + n) as usize,
            start: if self.written == 0 {
                send.head() as usize
            } else {
                self.start
            },
            end: (send.head() + n) as usize,
        }
    }
}

/// Whether `after` is what a connection becomes when the sending of bytes goes on, and `r` says how
/// far that came. Bytes are written as far as there is room. Once all are, the sending ends when
/// the remote has acknowledged the last of them.
pub open spec fn sends_until_acked(
    before: TcpConn,
    after: TcpConn,
    bytes: Seq<u8>,
    sending: Sending,
    r: Result<Option<Sending>, TcpSendError>,
) -> bool {
    let send = before.inner.send_buf.inner@;
    let n = smaller(TCP_DEFAULT_WINDOW_SZ - send.data.len(), bytes.len() - sending.written);
    &&& after.socket_id == before.socket_id
    &&& after.inner == (InnerTcpConn { send_buf: after.inner.send_buf, ..before.inner })
    &&& after.inner.send_buf.window_size == before.inner.send_buf.window_size
    &&& after.inner.send_buf.open == before.inner.send_buf.open
    &&& before.inner.send_buf.inner.times_tail(after.inner.send_buf.inner)
    &&& if sending.written == bytes.len() {
        &&& after == before
        &&& r == Ok::<Option<Sending>, TcpSendError>(
            if bytes.len() == 0 || send.tail >= sending.end {
                None
            } else {
                Some(sending)
            },
        )
    } else if before.inner.send_buf.open {
        &&& after.inner.send_buf.inner@ == send.push(
            bytes.subrange(sending.written as int, sending.written + n),
        )
        &&& r == Ok::<Option<Sending>, TcpSendError>(Some(sending.wrote(send, n)))
    } else {
        &&& after == before
        &&& r == Err::<Option<Sending>, TcpSendError>(TcpSendError::ConnClosed)
    }
}

/// The sequence numbers of bytes that have been written are those of the send buffer, whatever
/// else is written to it and whatever the remote acknowledges.
pub proof fn law_sending_goes_on(send: SendBufView, sending: Sending, bytes: Seq<u8>, ack: u32)
    requires
        sending.went_through(send),
    ensures
        sending.went_through(send.push(bytes)),
        sending.went_through(after_ack(send, ack)),
{
}

/// Whether `after` is what a connection becomes when a buffer is filled on from `curr`, `filled` is
/// what the buffer becomes, and `r` says how far that came.
pub open spec fn reads_on<const BUF_SZ: usize, A: AckPolicy>(
    before: InnerTcpConn<BUF_SZ, A>,
    after: InnerTcpConn<BUF_SZ, A>,
    buffer: Seq<u8>,
    filled: Seq<u8>,
    curr: int,
    r: Result<Option<usize>, TcpReadError>,
) -> bool {
    let readable = before.recv_buf.inner@.readable();
    let n = smaller(readable.len() as int, buffer.len() - curr);
    &&& after == (InnerTcpConn { recv_buf: after.recv_buf, ..before })
    &&& after.recv_buf.open == before.recv_buf.open
    &&& after.recv_buf.inner@ == before.recv_buf.inner@.consume(n)
    &&& filled == buffer.subrange(0, curr) + readable.subrange(0, n) + buffer.subrange(
        curr + n,
        buffer.len() as int,
    )
    &&& match r {
        Ok(None) => curr + n == buffer.len(),
        Ok(Some(end)) => end == curr + n && end < buffer.len() && before.recv_buf.open,
        Err(e) => e == TcpReadError::Closed((curr + n) as usize) && curr + n < buffer.len()
            && !before.recv_buf.open,
    }
}

/// The buffers of a connection.
#[derive(Debug)]
pub struct InnerTcpConn<const BUF_SZ: usize, A: AckPolicy> {
    pub send_buf: SendBuf<BUF_SZ>,
    pub recv_buf: RecvBuf<BUF_SZ>,
    pub remote: Remote,
    pub local_port: Port,
    pub ack_policy: A,
}

impl<const BUF_SZ: usize, A: AckPolicy> InnerTcpConn<BUF_SZ, A> {
    /// The buffers are in order.
    pub open spec fn wf(self) -> bool {
        &&& 0 < BUF_SZ
        &&& self.send_buf.inner.wf()
        &&& self.recv_buf.inner.wf()
    }

    /// A connection whose first bytes in either direction have the given sequence numbers.
    pub fn new(
        remote: Remote,
        local_port: Port,
        start_seq_no: usize,
        start_ack_no: usize,
        ack_policy: A,
    ) -> (r: Self)
        requires
            0 < BUF_SZ,
        ensures
            r.wf(),
            r.send_buf.inner@ == (SendBufView { tail: start_seq_no as int, data: Seq::empty() }),
            clock_read(r.send_buf.inner.tail_moved_at()),
            r.send_buf.window_size == window_field(BUF_SZ as int),
            r.send_buf.open,
            r.recv_buf.inner@ == (RecvBufView {
                tail: start_ack_no as int,
                head: start_ack_no as int,
                window: Seq::new(BUF_SZ as nat, |k: int| 0u8),
                early: Set::empty(),
            }),
            r.recv_buf.open,
            r.remote == remote,
            r.local_port == local_port,
            r.ack_policy == ack_policy,
    {
        Self {
            send_buf: SendBuf::new(start_seq_no),
            recv_buf: RecvBuf::new(start_ack_no),
            remote,
            local_port,
            ack_policy,
        }
    }

    /// Ends writing. A connection is closed once.
    pub fn close(&mut self) -> (r: Result<(), TcpCloseError>)
        requires
            old(self).send_buf.open,
        ensures
            r is Ok,
            *final(self) == (InnerTcpConn {
                send_buf: SendBuf { open: false, ..old(self).send_buf },
                ..*old(self)
            }),
    {
        match self.send_buf.close() {
            Ok(_) => Ok(()),
            Err(_) => Err(TcpCloseError::AlreadyClosed),
        }
    }

    /// Ends reading.
    pub fn close_read(&mut self) -> (r: Result<(), TcpCloseError>)
        ensures
            match r {
                Ok(_) => old(self).recv_buf.open,
                Err(e) => !old(self).recv_buf.open && e == TcpCloseError::AlreadyClosed,
            },
            *final(self) == (InnerTcpConn {
                recv_buf: RecvBuf { open: false, ..old(self).recv_buf },
                ..*old(self)
            }),
    {
        match self.recv_buf.close() {
            Ok(_) => Ok(()),
            Err(_) => Err(TcpCloseError::AlreadyClosed),
        }
    }

    /// Sends bytes on from `curr`, as far as there is room for them. The result is how far this
    /// came, where bytes are left, and to go on takes another call once there is room; or
    /// nothing, where all are on their way.
    pub fn send_all(&mut self, bytes: &[u8], curr: usize) -> (r: Result<
        Option<usize>,
        TcpSendError,
    >)
        requires
            old(self).send_buf.ready(),
            curr <= bytes@.len(),
        ensures
            final(self).send_buf.inner.wf(),
            sends_on(*old(self), *final(self), bytes@, curr as int, r),
    {
        match self.send_buf.write_all(bytes, curr) {
            Ok(rest) => Ok(rest),
            Err(_) => Err(TcpSendError::ConnClosed),
        }
    }

    /// Reads into `out_buffer` on from `curr`, what has arrived. The result is how far this came,
    /// where the buffer is not full yet, and to go on takes another call once more has arrived;
    /// or nothing, where it is full.
    pub fn read_all(&mut self, out_buffer: &mut [u8], curr: usize) -> (r: Result<
        Option<usize>,
        TcpReadError,
    >)
        requires
            old(self).recv_buf.inner.wf(),
            curr <= old(out_buffer)@.len(),
        ensures
            final(self).recv_buf.inner.wf(),
            reads_on(
                *old(self),
                *final(self),
                old(out_buffer)@,
                final(out_buffer)@,
                curr as int,
                r,
            ),
    {
        match self.recv_buf.fill(out_buffer, curr) {
            Ok(rest) => Ok(rest),
            Err(FillError::Closed(filled_bytes)) => Err(TcpReadError::Closed(filled_bytes)),
        }
    }

    /// Appends to `out` what has arrived. The result is whether that is all, as the connection
    /// has been closed.
    pub fn read_till_closed(&mut self, out: &mut Vec<u8>) -> (r: bool)
        requires
            old(self).recv_buf.inner.wf(),
        ensures
            final(self).recv_buf.inner.wf(),
            *final(self) == (InnerTcpConn { recv_buf: final(self).recv_buf, ..*old(self) }),
            r == !old(self).recv_buf.open,
            final(self).recv_buf.open == old(self).recv_buf.open,
            final(out)@ == old(out)@ + old(self).recv_buf.inner@.readable(),
            final(self).recv_buf.inner@ == old(self).recv_buf.inner@.consume(
                old(self).recv_buf.inner@.readable().len() as int,
            ),
    {
        proof {
            self.recv_buf.inner.lemma_wf();
        }
        let n: usize = self.recv_buf.inner.read_remaining_size();
        let mut read_buf: Vec<u8> = vec![0; n];
        let consumed = self.recv_buf.inner.try_fill(read_buf.as_mut_slice());
        out.extend_from_slice(consumed);
        proof {
            let readable = old(self).recv_buf.inner@.readable();
            assert(readable.subrange(0, readable.len() as int) =~= readable);
            assert(out@ =~= old(out)@ + readable);
        }
        !self.recv_buf.open
    }

    pub fn is_read_closed(&self) -> (r: bool)
        ensures
            r == !self.recv_buf.open,
    {
        self.recv_buf.closed()
    }

    /// Takes in a packet: the window and the acknowledgement of the remote, and the payload.
    pub fn handle_packet(&mut self, tcp_header: &TcpHeader, payload: &[u8]) -> (r: Delivery)
        requires
            tcp_header.ack,
            old(self).wf(),
            old(self).recv_buf.ready(),
            tcp_header.sequence_number + payload@.len() <= usize::MAX,
        ensures
            final(self).wf(),
            final(self).remote == old(self).remote,
            final(self).local_port == old(self).local_port,
            final(self).send_buf.window_size == tcp_header.window_size,
            final(self).send_buf.open == old(self).send_buf.open,
            final(self).send_buf.inner@ == after_ack(
                old(self).send_buf.inner@,
                tcp_header.acknowledgment_number,
            ),
            old(self).send_buf.inner.times_tail(final(self).send_buf.inner),
            delivers(
                *old(self),
                *final(self),
                *tcp_header,
                payload@,
                r,
            ),
    {
        self.send_buf.set_window_size(tcp_header.window_size);
        self.update_last_acked_byte(tcp_header.acknowledgment_number);
        self.deliver(tcp_header, payload)
    }

    /// Takes in the payload of a packet.
    pub fn deliver(&mut self, tcp_header: &TcpHeader, payload: &[u8]) -> (r: Delivery)
        requires
            old(self).wf(),
            old(self).recv_buf.ready(),
            tcp_header.sequence_number + payload@.len() <= usize::MAX,
        ensures
            final(self).wf(),
            final(self).send_buf == old(self).send_buf,
            final(self).remote == old(self).remote,
            final(self).local_port == old(self).local_port,
            delivers(*old(self), *final(self), *tcp_header, payload@, r),
    {
        let mut acks: usize = 0;
        if payload.len() > 0 {
            match self.recv_buf.write(tcp_header.sequence_number as usize, payload) {
                Ok(true) => {},
                Ok(false) => return Delivery::Blocked,
                Err(_) => {
                    // The packet was delayed: the remote is told what is expected.
                    acks = acks + 1;
                },
            }
        }
        if self.ack_policy.should_ack(tcp_header) {
            acks = acks + 1;
        }
        Delivery::Done(acks)
    }

    fn update_last_acked_byte(&mut self, ack: u32)
        requires
            old(self).wf(),
        ensures
            final(self).wf(),
            *final(self) == (InnerTcpConn { send_buf: final(self).send_buf, ..*old(self) }),
            final(self).send_buf.window_size == old(self).send_buf.window_size,
            final(self).send_buf.open == old(self).send_buf.open,
            final(self).send_buf.inner@ == after_ack(old(self).send_buf.inner@, ack),
            old(self).send_buf.inner.times_tail(final(self).send_buf.inner),
    {
        let _ = self.send_buf.set_tail(ack as usize);
    }

    /// Once a connection has been closed, the sequence number behind its last byte, or nothing
    /// where bytes are left that the remote has not acknowledged.
    pub fn drain_content_on_close(&self) -> (r: Option<usize>)
        requires
            self.send_buf.inner.wf(),
            !self.send_buf.open,
        ensures
            r == (if self.send_buf.inner@.data.len() == 0 {
                Some(self.send_buf.inner@.tail as usize)
            } else {
                None
            }),
    {
        self.send_buf.wait_for_empty()
    }

    pub fn local_window_sz(&self) -> (r: usize)
        requires
            self.recv_buf.inner.wf(),
            self.recv_buf.inner@.tail + BUF_SZ <= usize::MAX,
        ensures
            r == BUF_SZ - self.recv_buf.inner@.readable().len(),
    {
        self.recv_buf.window_size()
    }

    pub fn remote_window_sz(&self) -> (r: usize)
        ensures
            r == self.send_buf.window_size,
    {
        self.send_buf.window_size() as usize
    }
}

/// Whether `after` is what a connection becomes when a payload is delivered, and `r` says so.
pub open spec fn delivers<const BUF_SZ: usize, A: AckPolicy>(
    before: InnerTcpConn<BUF_SZ, A>,
    after: InnerTcpConn<BUF_SZ, A>,
    header: TcpHeader,
    payload: Seq<u8>,
    r: Delivery,
) -> bool {
    let recv = before.recv_buf.inner@;
    let seq_no = header.sequence_number;
    &&& after.recv_buf.open == before.recv_buf.open
    &&& match r {
        Delivery::Blocked => {
            &&& must_wait(recv, seq_no, payload)
            &&& after.recv_buf == before.recv_buf
            &&& after.ack_policy == before.ack_policy
        },
        Delivery::Done(acks) => {
            &&& !must_wait(recv, seq_no, payload)
            &&& after.recv_buf.inner@ == after_payload(recv, seq_no, payload)
            &&& after.ack_policy == before.ack_policy.decided(header)
            &&& acks == bit(payload.len() > 0 && seq_no < recv.head) + bit(
                before.ack_policy.acks(header),
            )
        },
    }
}

/// A connection as users see it.
#[derive(Debug)]
pub struct TcpConn {
    pub inner: InnerTcpConn<TCP_DEFAULT_WINDOW_SZ, AlwaysAck>,
    pub socket_id: SocketId,
}

impl TcpConn {
    /// The buffers are in order.
    pub open spec fn wf(self) -> bool {
        self.inner.wf()
    }

    /// The connection has just been established.
    pub open spec fn fresh(
        self,
        socket_id: SocketId,
        start_seq_no: int,
        start_ack_no: int,
    ) -> bool {
        &&& self.wf()
        &&& self.socket_id == socket_id
        &&& self.inner.remote == socket_id.remote
        &&& self.inner.local_port == socket_id.local_port
        &&& self.inner.send_buf.inner@ == (SendBufView { tail: start_seq_no, data: Seq::empty() })
        &&& clock_read(self.inner.send_buf.inner.tail_moved_at())
        &&& self.inner.send_buf.window_size == window_field(TCP_DEFAULT_WINDOW_SZ as int)
        &&& self.inner.send_buf.open
        &&& self.inner.recv_buf.inner@ == (RecvBufView {
            tail: start_ack_no,
            head: start_ack_no,
            window: Seq::new(TCP_DEFAULT_WINDOW_SZ as nat, |k: int| 0u8),
            early: Set::empty(),
        })
        &&& self.inner.recv_buf.open
    }

    /// A connection whose first bytes in either direction have the given sequence numbers.
    pub fn new(
        socket_id: SocketId,
        remote: Remote,
        local_port: Port,
        start_seq_no: usize,
        start_ack_no: usize,
    ) -> (r: Self)
        requires
            remote == socket_id.remote,
            local_port == socket_id.local_port,
        ensures
            r.fresh(socket_id, start_seq_no as int, start_ack_no as int),
    {
        Self {
            socket_id,
            inner: InnerTcpConn::new(remote, local_port, start_seq_no, start_ack_no, AlwaysAck),
        }
    }

    /// Whether the other end has acknowledged all that is below a sequence number.
    pub fn is_acknowledged(&self, end: usize) -> (r: bool)
        ensures
            r == (self.inner.send_buf.inner@.tail >= end),
    {
        self.inner.send_buf.tail() >= end
    }

    /// Sends bytes over a connection, on from where `sending` is.
    ///
    /// Lasts until all bytes have been acknowledged by the other end: calls that follow one
    /// another each say how far they came, and each is followed by another once there is room or
    /// the other end has acknowledged more, until nothing is left.
    pub fn send_all(&mut self, bytes: &[u8], sending: Sending) -> (r: Result<
        Option<Sending>,
        TcpSendError,
    >)
        requires
            old(self).wf(),
            old(self).inner.send_buf.ready(),
            sending.written <= bytes@.len(),
        ensures
            final(self).wf(),
            sends_until_acked(*old(self), *final(self), bytes@, sending, r),
            sending.went_through(old(self).inner.send_buf.inner@) ==> match r {
                Ok(Some(rest)) => rest.went_through(final(self).inner.send_buf.inner@)
                    && rest.written <= bytes@.len(),
                Ok(None) => bytes@.len() > 0 ==> final(self).inner.send_buf.inner@.tail
                    >= sending.start + bytes@.len(),
                Err(_) => true,
            },
    {
        if sending.written == bytes.len() {
            return if bytes.len() == 0 || self.is_acknowledged(sending.end) {
                Ok(None)
            } else {
                Ok(Some(sending))
            };
        }
        let head: usize = self.inner.send_buf.head();
        match self.inner.send_all(bytes, sending.written) {
            Ok(rest) => {
                let written: usize = match rest {
                    Some(curr) => curr,
                    None => bytes.len(),
                };
                let start: usize = if sending.written == 0 {
                    head
                } else {
                    sending.start
                };
                proof {
                    self.inner.send_buf.inner.lemma_wf();
                }
                let end: usize = self.inner.send_buf.head();
                Ok(Some(Sending { written, start, end }))
            },
            Err(e) => Err(e),
        }
    }

    /// Reads N bytes from the connection, where N is `out_buffer`'s size, on from `curr`.
    ///
    /// Calls that follow one another fill the buffer: each says how far it came, and is followed by
    /// another once more has arrived, until it is full.
    pub fn read_all(&mut self, out_buffer: &mut [u8], curr: usize) -> (r: Result<
        Option<usize>,
        TcpReadError,
    >)
        requires
            old(self).wf(),
            curr <= old(out_buffer)@.len(),
        ensures
            final(self).wf(),
            final(self).socket_id == old(self).socket_id,
            reads_on(
                old(self).inner,
                final(self).inner,
                old(out_buffer)@,
                final(out_buffer)@,
                curr as int,
                r,
            ),
    {
        self.inner.read_all(out_buffer, curr)
    }

    /// Read all bytes from the connection until it is closed.
    ///
    /// Appends to `out` what has arrived. The result is whether that is all, as the connection
    /// has been closed.
    pub fn read_till_closed(&mut self, out: &mut Vec<u8>) -> (r: bool)
        requires
            old(self).wf(),
        ensures
            final(self).wf(),
            final(self).socket_id == old(self).socket_id,
            final(self).inner == (InnerTcpConn {
                recv_buf: final(self).inner.recv_buf,
                ..old(self).inner
            }),
            r == !old(self).inner.recv_buf.open,
            final(self).inner.recv_buf.open == old(self).inner.recv_buf.open,
            final(out)@ == old(out)@ + old(self).inner.recv_buf.inner@.readable(),
            final(self).inner.recv_buf.inner@ == old(self).inner.recv_buf.inner@.consume(
                old(self).inner.recv_buf.inner@.readable().len() as int,
            ),
    {
        self.inner.read_till_closed(out)
    }

    pub fn socket_id(&self) -> (r: SocketId)
        ensures
            r == self.socket_id,
    {
        self.socket_id
    }

    pub fn remote(&self) -> (r: &Remote)
        ensures
            *r == self.inner.remote,
    {
        &self.inner.remote
    }

    pub fn local_port(&self) -> (r: Port)
        ensures
            r == self.inner.local_port,
    {
        self.inner.local_port
    }

    pub fn is_read_closed(&self) -> (r: bool)
        ensures
            r == !self.inner.recv_buf.open,
    {
        self.inner.is_read_closed()
    }

    /// Close the write-end of the socket.
    pub(crate) fn close(&mut self)
        requires
            old(self).inner.send_buf.open,
        ensures
            *final(self) == (TcpConn {
                inner: InnerTcpConn {
                    send_buf: SendBuf { open: false, ..old(self).inner.send_buf },
                    ..old(self).inner
                },
                ..*old(self)
            }),
    {
        let _ = self.inner.close();
    }

    /// Close the read-end of the socket.
    pub(crate) fn close_read(&mut self)
        ensures
            *final(self) == (TcpConn {
                inner: InnerTcpConn {
                    recv_buf: RecvBuf { open: false, ..old(self).inner.recv_buf },
                    ..old(self).inner
                },
                ..*old(self)
            }),
    {
        let _ = self.inner.close_read();
    }
}

} // verus!
