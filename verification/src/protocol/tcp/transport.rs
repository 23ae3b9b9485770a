//! When segments are sent, and when they are sent again.

use crate::addr::Ipv4Addr;
use crate::drop_policy::DropPolicy;
use crate::header::{tcp_segment, write_segment, TcpHeader};
use crate::net::vtlink::link::Datagram;
use crate::net::vtlink::{datagram, outbound_link, VtLinkNet};
use crate::net::SendError;
use crate::protocol::tcp::buf::{smaller, RecvBuf, SendBuf, SliceError};
use crate::protocol::tcp::prelude::{Port, Remote};
use crate::protocol::tcp::{
    to_window_field, window_field, MAX_SEGMENT_SZ, TCP_DEFAULT_WINDOW_SZ,
};
use crate::protocol::Protocol;
use crate::time::{clock_measured, clock_read, elapsed_since, Duration};
use std::time::Instant;
use vstd::prelude::*;

verus! {

/// What has been sent of a connection, and what may be.
pub struct TcpTransport<const BUF_SZ: usize> {
    pub remote: Remote,
    pub local_port: Port,
    /// The sequence number of the next segment.
    pub seq_no: usize,
    pub last_transmitted: Instant,
    pub ack_batch_timeout: Duration,
    /// The last acknowledgement of the remote.
    pub last_acked: usize,
    pub zero_window_probe_interval: Duration,
    /// The last acknowledgement that was sent to the remote.
    pub last_ack_transmitted: usize,
    /// How much the remote still has room for.
    pub remaining_window_sz: usize,
    /// How many bytes the next segment is to carry.
    pub segment_sz: usize,
}

#[derive(Debug, PartialEq, Eq, Structural, Clone, Copy)]
pub enum NextSendDecision {
    NextSegmentSize(usize),
    SendBufClosed,
}

/// What a transport waits for, beside the time to send segments again.
#[derive(Debug, PartialEq, Eq, Structural, Clone, Copy)]
pub enum TransportEvent {
    /// There is data that has not been sent.
    NewData,
    /// The remote has told how much room it has.
    WindowUpdated(u16),
    /// The remote has told which byte it expects.
    LastByteAcked(usize),
    ZeroWindowProbeTick,
    TransmitAckTick,
    /// A packet is to be acknowledged.
    AckRequested,
    /// The connection is gone.
    AckRequestsClosed,
}

/// The header of a segment that carries data.
pub open spec fn data_header(
    local_port: Port,
    remote_port: Port,
    seq_no: int,
    window: int,
    ack: int,
) -> TcpHeader {
    TcpHeader {
        ack: true,
        acknowledgment_number: ack as u32,
        ..TcpHeader::plain(local_port.0, remote_port.0, seq_no as u32, window_field(window))
    }
}

fn less(a: usize, b: usize) -> (r: usize)
    ensures
        r == smaller(a as int, b as int),
{
    if a < b {
        a
    } else {
        b
    }
}

impl<const BUF_SZ: usize> TcpTransport<BUF_SZ> {
    /// The transport of a new connection.
    pub fn init(send_buf: &SendBuf<BUF_SZ>, remote: Remote, local_port: Port) -> (r: Self)
        ensures
            r.remote == remote,
            r.local_port == local_port,
            r.seq_no == send_buf.inner@.tail,
            clock_read(r.last_transmitted),
            r.ack_batch_timeout.nanos == 1_000_000,
            r.last_acked == 0,
            r.zero_window_probe_interval.nanos == 1_000_000,
            r.last_ack_transmitted == 0,
            r.remaining_window_sz == TCP_DEFAULT_WINDOW_SZ,
            r.segment_sz == MAX_SEGMENT_SZ,
    {
        Self {
            remote,
            local_port,
            seq_no: send_buf.tail(),
            last_transmitted: Instant::now(),
            ack_batch_timeout: Duration::from_millis(1),
            last_acked: 0,
            zero_window_probe_interval: Duration::from_millis(1),
            last_ack_transmitted: 0,
            remaining_window_sz: TCP_DEFAULT_WINDOW_SZ,
            segment_sz: MAX_SEGMENT_SZ,
        }
    }

    /// The bytes of a segment to the remote.
    pub open spec fn segment<DP: DropPolicy>(
        self,
        net: VtLinkNet<DP>,
        recv_buf: RecvBuf<BUF_SZ>,
        seq_no: int,
        payload: Seq<u8>,
    ) -> Seq<u8> {
        tcp_segment(
            data_header(
                self.local_port,
                self.remote.port,
                seq_no,
                BUF_SZ - recv_buf.inner@.readable().len(),
                recv_buf.inner@.head,
            ),
            outbound_link(net.table(), net.links@, self.remote.addr)->0.src_virtual_ip,
            self.remote.addr,
            payload,
        )
    }

    /// What a segment to the remote becomes.
    pub open spec fn outgoing<DP: DropPolicy>(
        self,
        net: VtLinkNet<DP>,
        recv_buf: RecvBuf<BUF_SZ>,
        seq_no: int,
        payload: Seq<u8>,
    ) -> Result<(u16, Seq<u8>), SendError> {
        net.outgoing(self.segment(net, recv_buf, seq_no, payload), 6, self.remote.addr)
    }

    /// Whether a segment can be made: the remote is known to the network, and sequence numbers
    /// fit in a header.
    pub open spec fn can_make<DP: DropPolicy>(
        self,
        net: VtLinkNet<DP>,
        recv_buf: RecvBuf<BUF_SZ>,
        seq_no: int,
    ) -> bool {
        &&& outbound_link(net.table(), net.links@, self.remote.addr) is Some
        &&& recv_buf.ready()
        &&& recv_buf.inner@.head <= u32::MAX
        &&& seq_no <= u32::MAX
    }

    /// Whether `after` is the transport once a segment was sent, or failed to be.
    pub open spec fn sent(self, after: Self, ack: int, ok: bool) -> bool {
        if ok {
            &&& clock_read(after.last_transmitted)
            &&& after == (TcpTransport {
                last_transmitted: after.last_transmitted,
                last_ack_transmitted: ack as usize,
                ..self
            })
        } else {
            after == self
        }
    }

    /// Makes a segment. The result is what has to be sent to the next hop.
    fn send<DP: DropPolicy>(
        &mut self,
        net: &VtLinkNet<DP>,
        recv_buf: &RecvBuf<BUF_SZ>,
        seq_no: usize,
        payload: &[u8],
    ) -> (r: Result<Datagram, SendError>)
        requires
            old(self).can_make(*net, *recv_buf, seq_no as int),
            20 + payload@.len() <= 65515,
        ensures
            match r {
                Ok(d) => old(self).outgoing(*net, *recv_buf, seq_no as int, payload@) == Ok::<
                    (u16, Seq<u8>),
                    SendError,
                >(datagram(d)),
                Err(e) => old(self).outgoing(*net, *recv_buf, seq_no as int, payload@) == Err::<
                    (u16, Seq<u8>),
                    SendError,
                >(e),
            },
            old(self).sent(*final(self), recv_buf.inner@.head, r is Ok),
    {
        proof {
            recv_buf.inner.lemma_wf();
        }
        let header = self.prepare_tcp_packet(recv_buf, seq_no);
        let src_ip = match net.get_outbound_ip(self.remote.ip()) {
            Some(ip) => ip,
            None => Ipv4Addr::new(0, 0, 0, 0),
        };
        let ack: u32 = header.acknowledgment_number;
        let bytes = write_segment(header, src_ip, self.remote.ip(), payload);
        match net.send(bytes.as_slice(), u8::from(Protocol::Tcp), self.remote.ip()) {
            Ok(d) => {
                self.last_transmitted = Instant::now();
                self.last_ack_transmitted = ack as usize;
                Ok(d)
            },
            Err(e) => Err(e),
        }
    }

    fn prepare_tcp_packet(&self, recv_buf: &RecvBuf<BUF_SZ>, seq_no: usize) -> (r: TcpHeader)
        requires
            recv_buf.ready(),
            recv_buf.inner@.head <= u32::MAX,
            seq_no <= u32::MAX,
        ensures
            r == data_header(
                self.local_port,
                self.remote.port,
                seq_no as int,
                BUF_SZ - recv_buf.inner@.readable().len(),
                recv_buf.inner@.head,
            ),
    {
        let src_port: u16 = self.local_port.0;
        let dst_port: u16 = self.remote.port().0;
        let window_sz: u16 = to_window_field(recv_buf.window_size());
        let mut header = TcpHeader::new(src_port, dst_port, seq_no as u32, window_sz);
        header.ack = true;
        header.acknowledgment_number = recv_buf.head() as u32;
        header
    }

    /// Sends the next segment, of `len` bytes, where there are so many. The result is how large the
    /// next one is to be, and what has to be sent.
    pub fn try_consume_and_send<DP: DropPolicy>(
        &mut self,
        net: &VtLinkNet<DP>,
        send_buf: &SendBuf<BUF_SZ>,
        recv_buf: &RecvBuf<BUF_SZ>,
        len: usize,
    ) -> (r: (NextSendDecision, Option<Datagram>))
        requires
            old(self).can_make(*net, *recv_buf, old(self).seq_no as int),
            send_buf.inner.wf(),
            len <= old(self).remaining_window_sz,
            len <= MAX_SEGMENT_SZ,
        ensures
            old(self).consumed(*final(self), *net, *send_buf, *recv_buf, len as int, r.0, r.1),
    {
        let mut buf: Vec<u8> = vec![0; len];
        match send_buf.try_slice(self.seq_no, buf.as_mut_slice()) {
            Ok(bytes_readable) => match self.send(net, recv_buf, self.seq_no, buf.as_slice()) {
                Ok(d) => {
                    proof {
                        send_buf.inner.lemma_wf();
                    }
                    self.seq_no = self.seq_no + len;
                    self.remaining_window_sz = self.remaining_window_sz - len;
                    let next_seg_sz: usize = less(
                        MAX_SEGMENT_SZ,
                        less(self.remaining_window_sz, bytes_readable),
                    );
                    (NextSendDecision::NextSegmentSize(next_seg_sz), Some(d))
                },
                Err(_) => (NextSendDecision::NextSegmentSize(len), None),
            },
            Err(SliceError::OutOfRange(unconsumed_sz)) => {
                if unconsumed_sz == 0 && send_buf.closed() {
                    return (NextSendDecision::SendBufClosed, None);
                }
                (
                    NextSendDecision::NextSegmentSize(
                        less(unconsumed_sz, self.remaining_window_sz),
                    ),
                    None,
                )
            },
            Err(SliceError::StartSeqTooLow(next_seq_no)) => {
                // SendBuf's tail has been advanced due to zero probing.
                self.seq_no = next_seq_no;
                (
                    NextSendDecision::NextSegmentSize(
                        less(self.remaining_window_sz, MAX_SEGMENT_SZ),
                    ),
                    None,
                )
            },
        }
    }

    /// Whether `after` is the transport once it tried to send a segment of `len` bytes.
    ///
    /// Where the buffer holds them, they are sent, and count against the window of the remote; where
    /// that fails, they are to be sent again. Where it holds fewer, the next segment is to
    /// be smaller, and where it holds none and is closed, nothing is left to do. Where the
    /// remote has already acknowledged beyond what was sent, sending goes on from there.
    pub open spec fn consumed<DP: DropPolicy>(
        self,
        after: Self,
        net: VtLinkNet<DP>,
        send_buf: SendBuf<BUF_SZ>,
        recv_buf: RecvBuf<BUF_SZ>,
        len: int,
        decision: NextSendDecision,
        sent: Option<Datagram>,
    ) -> bool {
        let send = send_buf.inner@;
        let room = self.remaining_window_sz as int;
        if self.seq_no < send.tail {
            &&& after == (TcpTransport { seq_no: send.tail as usize, ..self })
            &&& decision == NextSendDecision::NextSegmentSize(
                smaller(room, MAX_SEGMENT_SZ as int) as usize,
            )
            &&& sent is None
        } else if self.seq_no + len <= send.head() {
            let from = self.seq_no - send.tail;
            let payload = send.data.subrange(from, from + len);
            match self.outgoing(net, recv_buf, self.seq_no as int, payload) {
                Ok(out) => {
                    &&& sent matches Some(d)
                    &&& datagram(d) == out
                    &&& clock_read(after.last_transmitted)
                    &&& after == (TcpTransport {
                        last_transmitted: after.last_transmitted,
                        last_ack_transmitted: recv_buf.inner@.head as usize,
                        seq_no: (self.seq_no + len) as usize,
                        remaining_window_sz: (room - len) as usize,
                        ..self
                    })
                    &&& decision == NextSendDecision::NextSegmentSize(
                        smaller(
                            MAX_SEGMENT_SZ as int,
                            smaller(room - len, send.head() - self.seq_no - len),
                        ) as usize,
                    )
                },
                Err(_) => {
                    &&& sent is None
                    &&& after == self
                    &&& decision == NextSendDecision::NextSegmentSize(len as usize)
                },
            }
        } else {
            let left = if self.seq_no > send.head() {
                0
            } else {
                send.head() - self.seq_no
            };
            &&& sent is None
            &&& after == self
            &&& decision == (if left == 0 && !send_buf.open {
                NextSendDecision::SendBufClosed
            } else {
                NextSendDecision::NextSegmentSize(smaller(left, room) as usize)
            })
        }
    }

    /// How large the next segment is: as was decided after the last one, but no larger than the
    /// window of the remote; or, once that came to nothing, as large as the window allows.
    pub open spec fn next_size(self) -> int {
        let wanted = smaller(self.segment_sz as int, self.remaining_window_sz as int);
        if wanted == 0 {
            smaller(self.remaining_window_sz as int, MAX_SEGMENT_SZ as int)
        } else {
            wanted
        }
    }

    /// Whether `after` is the transport once there was data, `lasts` says whether the connection
    /// goes on, and `sent` is what was sent.
    pub open spec fn fed<DP: DropPolicy>(
        self,
        after: Self,
        net: VtLinkNet<DP>,
        send_buf: SendBuf<BUF_SZ>,
        recv_buf: RecvBuf<BUF_SZ>,
        lasts: bool,
        sent: Option<Datagram>,
    ) -> bool {
        let size = self.next_size();
        let start = TcpTransport { segment_sz: size as usize, ..self };
        if size == 0 {
            after == start && lasts && sent is None
        } else {
            exists|mid: Self, decision: NextSendDecision| #[trigger]
                start.consumed(mid, net, send_buf, recv_buf, size, decision, sent)
                    && match decision {
                    NextSendDecision::NextSegmentSize(sz) => lasts && after == (TcpTransport {
                        segment_sz: sz,
                        ..mid
                    }),
                    NextSendDecision::SendBufClosed => !lasts && after == mid,
                }
        }
    }

    /// Sends a segment once there is data, where the window of the remote is not used up. The
    /// result is whether the connection still lasts, and what has to be sent.
    pub fn on_new_data<DP: DropPolicy>(
        &mut self,
        net: &VtLinkNet<DP>,
        send_buf: &SendBuf<BUF_SZ>,
        recv_buf: &RecvBuf<BUF_SZ>,
    ) -> (r: (bool, Option<Datagram>))
        requires
            old(self).can_make(*net, *recv_buf, old(self).seq_no as int),
            send_buf.inner.wf(),
            old(self).segment_sz <= MAX_SEGMENT_SZ,
        ensures
            final(self).segment_sz <= MAX_SEGMENT_SZ,
            old(self).fed(*final(self), *net, *send_buf, *recv_buf, r.0, r.1),
    {
        let mut segment_sz: usize = less(self.segment_sz, self.remaining_window_sz);
        if segment_sz == 0 {
            segment_sz = less(self.remaining_window_sz, MAX_SEGMENT_SZ);
        }
        self.segment_sz = segment_sz;
        if segment_sz == 0 {
            return (true, None);
        }
        let ghost start = *self;
        let (decision, sent) = self.try_consume_and_send(net, send_buf, recv_buf, segment_sz);
        let ghost mid = *self;
        assert(start.consumed(mid, *net, *send_buf, *recv_buf, segment_sz as int, decision, sent));
        match decision {
            NextSendDecision::NextSegmentSize(sz) => {
                self.segment_sz = sz;
                (true, sent)
            },
            NextSendDecision::SendBufClosed => (false, sent),
        }
    }

    /// Takes in the window that the remote has sent.
    pub fn on_window_updated(&mut self, window_sz: u16)
        ensures
            *final(self) == (TcpTransport {
                remaining_window_sz: window_sz as usize,
                ..*old(self)
            }),
    {
        self.remaining_window_sz = window_sz as usize;
    }

    /// Takes in an acknowledgement of the remote.
    pub fn on_last_byte_acked_updated(&mut self, next_expected_seq_no: usize)
        ensures
            *final(self) == (TcpTransport { last_acked: next_expected_seq_no, ..*old(self) }),
    {
        self.last_acked = next_expected_seq_no;
    }

    /// Sends one byte where the window of the remote is used up, so that the remote tells when it
    /// has room again.
    pub fn check_and_zero_window_probe<DP: DropPolicy>(
        &mut self,
        net: &VtLinkNet<DP>,
        send_buf: &SendBuf<BUF_SZ>,
        recv_buf: &RecvBuf<BUF_SZ>,
    ) -> (r: Option<Datagram>)
        requires
            old(self).can_make(*net, *recv_buf, old(self).seq_no as int),
            send_buf.inner.wf(),
        ensures
            old(self).remaining_window_sz != 0 ==> r is None && *final(self) == *old(self),
            old(self).remaining_window_sz == 0 ==> old(self).sent_slice(
                *final(self),
                *net,
                *send_buf,
                *recv_buf,
                old(self).seq_no as int,
                1,
                r,
            ),
    {
        if self.remaining_window_sz == 0 {
            self.zero_window_probe(net, send_buf, recv_buf)
        } else {
            None
        }
    }

    /// Whether `after` is the transport once it tried to send `len` bytes on from `seq_no`, where
    /// the buffer holds them.
    pub open spec fn sent_slice<DP: DropPolicy>(
        self,
        after: Self,
        net: VtLinkNet<DP>,
        send_buf: SendBuf<BUF_SZ>,
        recv_buf: RecvBuf<BUF_SZ>,
        seq_no: int,
        len: int,
        sent: Option<Datagram>,
    ) -> bool {
        let send = send_buf.inner@;
        if send.tail <= seq_no && seq_no + len <= send.head() {
            let payload = send.data.subrange(seq_no - send.tail, seq_no - send.tail + len);
            match self.outgoing(net, recv_buf, seq_no, payload) {
                Ok(out) => {
                    &&& sent matches Some(d)
                    &&& datagram(d) == out
                    &&& self.sent(after, recv_buf.inner@.head, true)
                },
                Err(_) => sent is None && after == self,
            }
        } else {
            sent is None && after == self
        }
    }

    fn zero_window_probe<DP: DropPolicy>(
        &mut self,
        net: &VtLinkNet<DP>,
        send_buf: &SendBuf<BUF_SZ>,
        recv_buf: &RecvBuf<BUF_SZ>,
    ) -> (r: Option<Datagram>)
        requires
            old(self).can_make(*net, *recv_buf, old(self).seq_no as int),
            send_buf.inner.wf(),
        ensures
            old(self).sent_slice(
                *final(self),
                *net,
                *send_buf,
                *recv_buf,
                old(self).seq_no as int,
                1,
                r,
            ),
    {
        let mut buf: Vec<u8> = vec![0; 1];
        match send_buf.try_slice(self.seq_no, buf.as_mut_slice()) {
            Ok(_) => match self.send(net, recv_buf, self.seq_no, buf.as_slice()) {
                Ok(d) => Some(d),
                Err(_) => None,
            },
            Err(_) => None,
        }
    }

    /// Sends an acknowledgement, where `elapsed` since the last segment is more than the
    /// acknowledgement may be put off for, and what is expected of the remote has changed.
    pub fn retransmit_ack<DP: DropPolicy>(
        &mut self,
        net: &VtLinkNet<DP>,
        recv_buf: &RecvBuf<BUF_SZ>,
        elapsed: Duration,
    ) -> (r: Option<Datagram>)
        requires
            old(self).can_make(*net, *recv_buf, old(self).seq_no as int),
        ensures
            old(self).acked_late(*final(self), *net, *recv_buf, elapsed, r),
    {
        if elapsed.nanos > self.ack_batch_timeout.nanos {
            let curr_ack: usize = recv_buf.head();
            if curr_ack != self.last_ack_transmitted {
                return match self.send_ack(net, recv_buf) {
                    Ok(d) => Some(d),
                    Err(_) => None,
                };
            }
        }
        None
    }

    /// Whether `after` is the transport once it decided whether to acknowledge.
    pub open spec fn acked_late<DP: DropPolicy>(
        self,
        after: Self,
        net: VtLinkNet<DP>,
        recv_buf: RecvBuf<BUF_SZ>,
        elapsed: Duration,
        sent: Option<Datagram>,
    ) -> bool {
        if elapsed.nanos > self.ack_batch_timeout.nanos && recv_buf.inner@.head
            != self.last_ack_transmitted {
            match self.outgoing(net, recv_buf, self.seq_no as int, Seq::empty()) {
                Ok(out) => {
                    &&& sent matches Some(d)
                    &&& datagram(d) == out
                    &&& self.sent(after, recv_buf.inner@.head, true)
                },
                Err(_) => sent is None && after == self,
            }
        } else {
            sent is None && after == self
        }
    }

    /// Sends an acknowledgement, where it has been put off for too long.
    pub fn check_and_retransmit_ack<DP: DropPolicy>(
        &mut self,
        net: &VtLinkNet<DP>,
        recv_buf: &RecvBuf<BUF_SZ>,
    ) -> (r: Option<Datagram>)
        requires
            old(self).can_make(*net, *recv_buf, old(self).seq_no as int),
        ensures
            exists|elapsed: Duration|
                clock_measured(old(self).last_transmitted, elapsed) && #[trigger] old(
                    self,
                ).acked_late(*final(self), *net, *recv_buf, elapsed, r),
    {
        let elapsed = elapsed_since(&self.last_transmitted);
        self.retransmit_ack(net, recv_buf, elapsed)
    }

    /// Whether `after` is the transport once it looked for a whole segment that the remote has not
    /// acknowledged, and sent that again, or failed to.
    pub open spec fn retransmitted<DP: DropPolicy>(
        self,
        after: Self,
        net: VtLinkNet<DP>,
        send_buf: SendBuf<BUF_SZ>,
        recv_buf: RecvBuf<BUF_SZ>,
        sent: Option<Result<Datagram, SendError>>,
    ) -> bool {
        let send = send_buf.inner@;
        let from = self.last_acked - send.tail;
        let payload = send.data.subrange(from, from + MAX_SEGMENT_SZ);
        if 0 <= from && from + MAX_SEGMENT_SZ <= send.data.len() {
            let out = self.outgoing(net, recv_buf, self.last_acked as int, payload);
            &&& sent matches Some(sent)
            &&& self.sent(after, recv_buf.inner@.head, sent is Ok)
            &&& match sent {
                Ok(d) => out == Ok::<(u16, Seq<u8>), SendError>(datagram(d)),
                Err(e) => out == Err::<(u16, Seq<u8>), SendError>(e),
            }
        } else {
            sent is None && after == self
        }
    }

    /// Sends a whole segment again that the remote has not acknowledged, where there is one. The
    /// result is what has to be sent, or why it cannot be.
    pub fn check_retransmission<DP: DropPolicy>(
        &mut self,
        net: &VtLinkNet<DP>,
        send_buf: &SendBuf<BUF_SZ>,
        recv_buf: &RecvBuf<BUF_SZ>,
    ) -> (r: Option<Result<Datagram, SendError>>)
        requires
            old(self).can_make(*net, *recv_buf, old(self).last_acked as int),
            send_buf.inner.wf(),
        ensures
            old(self).retransmitted(*final(self), *net, *send_buf, *recv_buf, r),
    {
        let mut segment_buf: Vec<u8> = vec![0; MAX_SEGMENT_SZ];
        match send_buf.try_slice(self.last_acked, segment_buf.as_mut_slice()) {
            Ok(_) => Some(self.send(net, recv_buf, self.last_acked, segment_buf.as_slice())),
            Err(_) => None,
        }
    }

    /// Sends an acknowledgement. The result is what has to be sent, or why it cannot be.
    pub fn send_ack<DP: DropPolicy>(
        &mut self,
        net: &VtLinkNet<DP>,
        recv_buf: &RecvBuf<BUF_SZ>,
    ) -> (r: Result<Datagram, SendError>)
        requires
            old(self).can_make(*net, *recv_buf, old(self).seq_no as int),
        ensures
            match r {
                Ok(d) => old(self).outgoing(
                    *net,
                    *recv_buf,
                    old(self).seq_no as int,
                    Seq::empty(),
                ) == Ok::<(u16, Seq<u8>), SendError>(datagram(d)),
                Err(e) => old(self).outgoing(
                    *net,
                    *recv_buf,
                    old(self).seq_no as int,
                    Seq::empty(),
                ) == Err::<(u16, Seq<u8>), SendError>(e),
            },
            old(self).sent(*final(self), recv_buf.inner@.head, r is Ok),
    {
        // The empty-payload packet's main purpose is to update the remote
        // about our latest ACK sequence number.
        let nothing: Vec<u8> = Vec::new();
        assert(nothing@ =~= Seq::empty());
        self.send(net, recv_buf, self.seq_no, nothing.as_slice())
    }

    /// Whether `after` is the transport once an event was handled, `lasts` says whether the
    /// connection goes on, and `sent` is what was sent.
    pub open spec fn handled<DP: DropPolicy>(
        self,
        after: Self,
        net: VtLinkNet<DP>,
        send_buf: SendBuf<BUF_SZ>,
        recv_buf: RecvBuf<BUF_SZ>,
        event: TransportEvent,
        lasts: bool,
        sent: Option<Datagram>,
    ) -> bool {
        match event {
            TransportEvent::NewData => self.fed(after, net, send_buf, recv_buf, lasts, sent),
            TransportEvent::WindowUpdated(window_sz) => {
                &&& lasts
                &&& sent is None
                &&& after == (TcpTransport { remaining_window_sz: window_sz as usize, ..self })
            },
            TransportEvent::LastByteAcked(seq_no) => {
                &&& lasts
                &&& sent is None
                &&& after == (TcpTransport { last_acked: seq_no, ..self })
            },
            TransportEvent::ZeroWindowProbeTick => {
                &&& lasts
                &&& if self.remaining_window_sz == 0 {
                    self.sent_slice(after, net, send_buf, recv_buf, self.seq_no as int, 1, sent)
                } else {
                    sent is None && after == self
                }
            },
            TransportEvent::TransmitAckTick => {
                &&& lasts
                &&& exists|elapsed: Duration|
                    clock_measured(self.last_transmitted, elapsed) && #[trigger] self.acked_late(
                        after,
                        net,
                        recv_buf,
                        elapsed,
                        sent,
                    )
            },
            TransportEvent::AckRequested => {
                &&& lasts
                &&& match self.outgoing(net, recv_buf, self.seq_no as int, Seq::empty()) {
                    Ok(out) => {
                        &&& sent matches Some(d)
                        &&& datagram(d) == out
                        &&& self.sent(after, recv_buf.inner@.head, true)
                    },
                    Err(_) => sent is None && after == self,
                }
            },
            TransportEvent::AckRequestsClosed => !lasts && sent is None && after == self,
        }
    }

    /// Handles an event. The result is whether the connection goes on, and what has to be sent.
    pub fn on_event<DP: DropPolicy>(
        &mut self,
        net: &VtLinkNet<DP>,
        send_buf: &SendBuf<BUF_SZ>,
        recv_buf: &RecvBuf<BUF_SZ>,
        event: TransportEvent,
    ) -> (r: (bool, Option<Datagram>))
        requires
            old(self).can_make(*net, *recv_buf, old(self).seq_no as int),
            send_buf.inner.wf(),
            old(self).segment_sz <= MAX_SEGMENT_SZ,
        ensures
            final(self).segment_sz <= MAX_SEGMENT_SZ,
            old(self).handled(*final(self), *net, *send_buf, *recv_buf, event, r.0, r.1),
    {
        match event {
            TransportEvent::NewData => self.on_new_data(net, send_buf, recv_buf),
            TransportEvent::WindowUpdated(window_sz) => {
                self.on_window_updated(window_sz);
                (true, None)
            },
            TransportEvent::LastByteAcked(next_expected_seq_no) => {
                self.on_last_byte_acked_updated(next_expected_seq_no);
                (true, None)
            },
            TransportEvent::ZeroWindowProbeTick => {
                (true, self.check_and_zero_window_probe(net, send_buf, recv_buf))
            },
            TransportEvent::TransmitAckTick => (true, self.check_and_retransmit_ack(net, recv_buf)),
            TransportEvent::AckRequested => match self.send_ack(net, recv_buf) {
                Ok(d) => (true, Some(d)),
                Err(_) => (true, None),
            },
            TransportEvent::AckRequestsClosed => (false, None),
        }
    }
}

/// No more is sent than the remote has room for: every byte that is sent counts against the window,
/// and the sequence numbers of segments follow one another.
pub proof fn law_window_is_respected<const BUF_SZ: usize, DP: DropPolicy>(
    before: TcpTransport<BUF_SZ>,
    after: TcpTransport<BUF_SZ>,
    net: VtLinkNet<DP>,
    send_buf: SendBuf<BUF_SZ>,
    recv_buf: RecvBuf<BUF_SZ>,
    len: int,
    decision: NextSendDecision,
    sent: Option<Datagram>,
)
    requires
        0 <= len <= before.remaining_window_sz,
        send_buf.inner.wf(),
        before.consumed(after, net, send_buf, recv_buf, len, decision, sent),
    ensures
        sent is Some ==> after.remaining_window_sz == before.remaining_window_sz - len,
        sent is Some ==> after.seq_no == before.seq_no + len,
        sent is None ==> after.remaining_window_sz == before.remaining_window_sz,
        decision matches NextSendDecision::NextSegmentSize(next) ==> next
            <= after.remaining_window_sz,
{
    send_buf.inner.lemma_wf();
}

/// How a message is sent until it is acknowledged.
pub struct RtxConfig {
    pub max_err_retries: usize,
    pub rtx_interval: Duration,
    pub timeout: Duration,
}

impl Default for RtxConfig {
    fn default() -> (r: Self)
        ensures
            r.max_err_retries == 80,
            r.rtx_interval.nanos == 50_000_000,
            r.timeout.nanos == 3_000_000_000,
    {
        Self {
            max_err_retries: 80,
            rtx_interval: Duration::from_millis(50),
            timeout: Duration::from_secs(3),
        }
    }
}

#[derive(Debug, PartialEq, Eq, Structural, Clone, Copy)]
pub enum TransmissionError {
    Timeout,
    MaxRetransExceeded,
}

/// TCP Transporter that ensures delivery of only one packet.
pub struct SingleMessageTransport {
    pub payload: Vec<u8>,
    pub remote: Remote,
    pub rtx_cfg: RtxConfig,
    /// How often sending has failed.
    pub retried: usize,
}

/// How the sending of a message ended.
#[derive(Debug, PartialEq, Eq, Structural, Clone, Copy)]
pub enum Transmission {
    Acked,
    /// Sending has failed too often.
    GaveUp,
    TimedOut,
}

impl SingleMessageTransport {
    pub fn new(payload: Vec<u8>, remote: Remote, rtx_cfg: RtxConfig) -> (r: Self)
        ensures
            r == (SingleMessageTransport { payload, remote, rtx_cfg, retried: 0 }),
    {
        Self { payload, remote, rtx_cfg, retried: 0 }
    }

    /// Whether `after` is the transport once it has transmitted on a network, and `r` says whether to
    /// go on and what has to be sent.
    pub open spec fn transmitted<DP: DropPolicy>(
        self,
        after: Self,
        net: VtLinkNet<DP>,
        r: (bool, Option<Datagram>),
    ) -> bool {
        match net.outgoing(self.payload@, 6, self.remote.addr) {
            Ok(out) => {
                &&& r.1 matches Some(d)
                &&& datagram(d) == out
                &&& r.0
                &&& after == self
            },
            Err(_) => {
                &&& r.1 is None
                &&& r.0 == (self.retried + 1 < self.rtx_cfg.max_err_retries)
                &&& after == (SingleMessageTransport { retried: (self.retried + 1) as usize, ..self })
            },
        }
    }

    /// Transmits once. The result is whether to go on, and what has to be sent.
    ///
    /// Gives up once sending has failed as often as is allowed.
    pub fn transmit<DP: DropPolicy>(&mut self, net: &VtLinkNet<DP>) -> (r: (
        bool,
        Option<Datagram>,
    ))
        requires
            old(self).payload@.len() <= 65515,
            old(self).retried < usize::MAX,
        ensures
            old(self).transmitted(*final(self), *net, r),
            ({
                match net.outgoing(old(self).payload@, 6, old(self).remote.addr) {
                    Ok(out) => {
                        &&& r.1 matches Some(d)
                        &&& datagram(d) == out
                        &&& r.0
                        &&& *final(self) == *old(self)
                    },
                    Err(_) => {
                        &&& r.1 is None
                        &&& r.0 == (old(self).retried + 1 < old(self).rtx_cfg.max_err_retries)
                        &&& *final(self) == (SingleMessageTransport {
                            retried: (old(self).retried + 1) as usize,
                            ..*old(self)
                        })
                    },
                }
            }),
    {
        match self.send(net) {
            Ok(d) => (true, Some(d)),
            Err(_) => {
                self.retried = self.retried + 1;
                (self.retried < self.rtx_cfg.max_err_retries, None)
            },
        }
    }

    /// Sends the payload to transport to the remote.
    fn send<DP: DropPolicy>(&self, net: &VtLinkNet<DP>) -> (r: Result<Datagram, SendError>)
        requires
            self.payload@.len() <= 65515,
        ensures
            match r {
                Ok(d) => net.outgoing(self.payload@, 6, self.remote.addr) == Ok::<
                    (u16, Seq<u8>),
                    SendError,
                >(datagram(d)),
                Err(e) => net.outgoing(self.payload@, 6, self.remote.addr) == Err::<
                    (u16, Seq<u8>),
                    SendError,
                >(e),
            },
    {
        net.send(self.payload.as_slice(), u8::from(Protocol::Tcp), self.remote.ip())
    }

    /// The error of a transmission that ended so.
    pub fn error(transmission: Transmission) -> (r: Option<TransmissionError>)
        ensures
            r == (match transmission {
                Transmission::Acked => None,
                Transmission::GaveUp => Some(TransmissionError::MaxRetransExceeded),
                Transmission::TimedOut => Some(TransmissionError::Timeout),
            }),
    {
        match transmission {
            Transmission::Acked => None,
            Transmission::GaveUp => Some(TransmissionError::MaxRetransExceeded),
            Transmission::TimedOut => Some(TransmissionError::Timeout),
        }
    }
}

} // verus!
