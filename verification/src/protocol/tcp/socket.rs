//! Sockets, and the states that they go through.

use crate::addr::Ipv4Addr;
use crate::header::{gen_range, tcp_segment, write_segment, Ipv4Header, TcpHeader};
use crate::protocol::tcp::buf::{RecvBuf, SendBuf};
use crate::protocol::tcp::conn::{
    after_ack, delivers, reads_on, sends_until_acked, Delivery, InnerTcpConn, Sending, TcpConn,
};
use crate::protocol::tcp::prelude::{Port, Remote, SocketDescriptor, SocketId};
use crate::protocol::tcp::{
    to_window_field, window_field, ListenTransitionError, TcpConnError, TcpReadError, TcpSendError,
    TransportError, TCP_DEFAULT_WINDOW_SZ,
};
use crate::text::{decimal, show_number};
use vstd::prelude::*;
use vstd::std_specs::convert::FromSpecImpl;

verus! {

/// A TCP segment for an address.
#[derive(Debug, Clone, PartialEq, Eq)]
pub struct Segment {
    pub dest: Ipv4Addr,
    pub bytes: Vec<u8>,
}

/// Possible socket state types.
#[derive(Debug, Clone, Copy, PartialEq, Eq, Structural)]
pub enum SocketStatus {
    Closed,
    SynSent,
    SynReceived,
    Established,
    Listen,
    FinWait1,
    FinWait2,
    Closing,
    TimeWait,
    CloseWait,
    LastAck,
}

/// The header of a segment without payload, as it is sent in a handshake or to close.
pub open spec fn control_header(
    local_port: Port,
    remote_port: Port,
    sequence_number: u32,
) -> TcpHeader {
    TcpHeader::plain(
        local_port.0,
        remote_port.0,
        sequence_number,
        window_field(TCP_DEFAULT_WINDOW_SZ as int),
    )
}

/// The header by which the segment with sequence number `seq` is acknowledged.
pub open spec fn ack_header(
    local_port: Port,
    remote_port: Port,
    sequence_number: u32,
    seq: u32,
) -> TcpHeader {
    TcpHeader {
        ack: true,
        acknowledgment_number: (seq + 1) as u32,
        ..control_header(local_port, remote_port, sequence_number)
    }
}

/// The bytes of a segment without payload.
pub open spec fn control_segment(header: TcpHeader, src: Ipv4Addr, dst: Ipv4Addr) -> Seq<u8> {
    tcp_segment(header, src, dst, Seq::empty())
}

fn write_control(header: TcpHeader, src: Ipv4Addr, dst: Ipv4Addr) -> (r: Vec<u8>)
    ensures
        r@ == control_segment(header, src, dst),
{
    let payload: Vec<u8> = Vec::new();
    assert(payload@ =~= Seq::empty());
    write_segment(header, src, dst, payload.as_slice())
}

fn write_ack(
    local_port: Port,
    remote_port: Port,
    sequence_number: u32,
    seq: u32,
    src: Ipv4Addr,
    dst: Ipv4Addr,
) -> (r: Vec<u8>)
    requires
        seq < u32::MAX,
    ensures
        r@ == control_segment(ack_header(local_port, remote_port, sequence_number, seq), src, dst),
{
    let mut header = TcpHeader::new(
        local_port.0,
        remote_port.0,
        sequence_number,
        to_window_field(TCP_DEFAULT_WINDOW_SZ),
    );
    header.ack = true;
    header.acknowledgment_number = seq + 1;
    write_control(header, src, dst)
}

/// The state before a socket listens or connects, and after its last connection.
#[derive(Debug, Clone, Copy, PartialEq, Eq, Structural)]
pub struct Closed {
    pub seq_no: u32,
}

impl Closed {
    /// A closed state with a sequence number that is left to chance.
    pub fn new() -> (r: Self)
        ensures
            r.seq_no < 65535,
    {
        Self { seq_no: Self::gen_rand_seq_no() }
    }

    fn gen_rand_seq_no() -> (r: u32)
        ensures
            r < 65535,
    {
        gen_range(0, u16::MAX) as u32
    }

    /// The header that opens a connection.
    pub open spec fn syn_header(self, src_port: Port, dst_port: Port) -> TcpHeader {
        TcpHeader { syn: true, ..control_header(src_port, dst_port, self.seq_no) }
    }

    /// Begins to connect. Beside the next state, the result is the segment that has to be sent
    /// until it is acknowledged.
    pub fn connect(self, src_port: Port, dest: Remote, src_ip: Ipv4Addr) -> (r: Result<
        (SynSent, Segment),
        TransportError,
    >)
        requires
            self.seq_no < 65535,
        ensures
            match r {
                Ok((syn_sent, segment)) => {
                    &&& syn_sent == (SynSent {
                        seq_no: (self.seq_no + 1) as u32,
                        src_port,
                        dest_ip: dest.addr,
                        dest_port: dest.port,
                    })
                    &&& segment.dest == dest.addr
                    &&& segment.bytes@ == control_segment(
                        self.syn_header(src_port, dest.port),
                        src_ip,
                        dest.addr,
                    )
                },
                Err(_) => false,
            },
    {
        let dest_ip = dest.ip();
        let dest_port = dest.port();
        let syn_pkt = self.make_syn_packet(src_port, dest_port, dest_ip, src_ip);
        let syn_sent = SynSent { src_port, dest_port, dest_ip, seq_no: self.seq_no + 1 };
        Ok((syn_sent, Segment { dest: dest_ip, bytes: syn_pkt }))
    }

    pub fn listen(self, port: Port) -> (r: Listen)
        ensures
            r == (Listen { port, seq_no: self.seq_no }),
    {
        Listen { port, seq_no: self.seq_no }
    }

    fn make_syn_packet(
        &self,
        src_port: Port,
        dst_port: Port,
        dst_ip: Ipv4Addr,
        src_ip: Ipv4Addr,
    ) -> (r: Vec<u8>)
        ensures
            r@ == control_segment(self.syn_header(src_port, dst_port), src_ip, dst_ip),
    {
        let mut header = TcpHeader::new(
            src_port.0,
            dst_port.0,
            self.seq_no,
            to_window_field(TCP_DEFAULT_WINDOW_SZ),
        );
        header.syn = true;
        write_control(header, src_ip, dst_ip)
    }
}

/// The state in which a socket takes connections.
#[derive(Debug, Clone, Copy, PartialEq, Eq, Structural)]
pub struct Listen {
    pub port: Port,
    pub seq_no: u32,
}

impl Listen {
    /// The header that answers one that opens a connection.
    pub open spec fn syn_ack_header(self, syn_packet: TcpHeader) -> TcpHeader {
        TcpHeader {
            syn: true,
            ..ack_header(
                self.port,
                Port(syn_packet.source_port),
                self.seq_no,
                syn_packet.sequence_number,
            )
        }
    }

    /// The state of a new socket for the connection that a segment opens.
    pub open spec fn answered(self, remote_ip: Ipv4Addr, syn_packet: TcpHeader) -> SynReceived {
        SynReceived {
            seq_no: (self.seq_no + 1) as u32,
            local_port: self.port,
            remote_ip,
            remote_port: Port(syn_packet.source_port),
        }
    }

    /// Takes a connection. Beside the state of a new socket, the result is the segment that has
    /// to be sent until it is acknowledged.
    pub fn syn_received(&self, ip_header: &Ipv4Header, syn_packet: &TcpHeader) -> (r: Result<
        (SynReceived, Segment),
        TransportError,
    >)
        requires
            syn_packet.syn,
            syn_packet.sequence_number < u32::MAX,
            self.seq_no < 65535,
        ensures
            match r {
                Ok((syn_recvd, segment)) => {
                    &&& syn_recvd == self.answered(ip_header.source, *syn_packet)
                    &&& segment.dest == ip_header.source
                    &&& segment.bytes@ == control_segment(
                        self.syn_ack_header(*syn_packet),
                        ip_header.destination,
                        ip_header.source,
                    )
                },
                Err(_) => false,
            },
    {
        let src_ip = ip_header.destination;
        let dst_ip = ip_header.source;
        let syn_ack_pkt = self.make_syn_ack_packet(syn_packet, src_ip, dst_ip);
        let syn_recvd = SynReceived {
            seq_no: self.seq_no + 1,
            local_port: self.port,
            remote_ip: ip_header.source,
            remote_port: Port(syn_packet.source_port),
        };
        Ok((syn_recvd, Segment { dest: dst_ip, bytes: syn_ack_pkt }))
    }

    fn make_syn_ack_packet(
        &self,
        syn_packet: &TcpHeader,
        src_ip: Ipv4Addr,
        dst_ip: Ipv4Addr,
    ) -> (r: Vec<u8>)
        requires
            syn_packet.sequence_number < u32::MAX,
        ensures
            r@ == control_segment(self.syn_ack_header(*syn_packet), src_ip, dst_ip),
    {
        let src_port: u16 = self.port.0;
        let dst_port: u16 = syn_packet.source_port;
        let mut header = TcpHeader::new(
            src_port,
            dst_port,
            self.seq_no,
            to_window_field(TCP_DEFAULT_WINDOW_SZ),
        );
        header.syn = true;
        header.ack = true;
        header.acknowledgment_number = syn_packet.sequence_number + 1;
        write_control(header, src_ip, dst_ip)
    }
}

/// The state in which a socket waits for the answer to the segment that opens a connection.
#[derive(Debug, Clone, Copy, PartialEq, Eq, Structural)]
pub struct SynSent {
    pub seq_no: u32,
    pub src_port: Port,
    pub dest_ip: Ipv4Addr,
    pub dest_port: Port,
}

impl SynSent {
    /// The name of the socket.
    pub open spec fn socket_id(self) -> SocketId {
        SocketId {
            remote: Remote { addr: self.dest_ip, port: self.dest_port },
            local_port: self.src_port,
        }
    }

    /// The established state.
    pub open spec fn established(self) -> Established {
        Established {
            local_port: self.src_port,
            remote_ip: self.dest_ip,
            remote_port: self.dest_port,
            last_seq: (self.seq_no + 1) as u32,
        }
    }

    /// Establishes the connection that an answer accepts. Beside the next state and the
    /// connection, the result is the segment that has to be sent.
    pub fn establish(self, syn_ack_packet: &TcpHeader, src_ip: Ipv4Addr) -> (r: Result<
        (Established, TcpConn, Segment),
        TransportError,
    >)
        requires
            syn_ack_packet.syn,
            syn_ack_packet.ack,
            syn_ack_packet.acknowledgment_number == self.seq_no,
            syn_ack_packet.sequence_number < u32::MAX,
            self.seq_no <= 65535,
        ensures
            match r {
                Ok((established, conn, segment)) => {
                    &&& established == self.established()
                    &&& conn.fresh(
                        self.socket_id(),
                        self.seq_no as int,
                        syn_ack_packet.sequence_number + 1,
                    )
                    &&& segment.dest == self.dest_ip
                    &&& segment.bytes@ == control_segment(
                        ack_header(
                            self.src_port,
                            self.dest_port,
                            self.seq_no,
                            syn_ack_packet.sequence_number,
                        ),
                        src_ip,
                        self.dest_ip,
                    )
                },
                Err(_) => false,
            },
    {
        let ack_pkt = self.make_ack_packet(syn_ack_packet, self.dest_ip, src_ip);
        let send_buf_start: usize = self.seq_no as usize;
        let recv_buf_start: usize = (syn_ack_packet.sequence_number + 1) as usize;
        let sock_id = SocketId {
            remote: Remote::new(self.dest_ip, self.dest_port),
            local_port: self.src_port,
        };
        let conn = TcpConn::new(
            sock_id,
            Remote::new(self.dest_ip, self.dest_port),
            self.src_port,
            send_buf_start,
            recv_buf_start,
        );
        let established = Established {
            local_port: self.src_port,
            remote_ip: self.dest_ip,
            remote_port: self.dest_port,
            last_seq: self.seq_no + 1,
        };
        Ok((established, conn, Segment { dest: self.dest_ip, bytes: ack_pkt }))
    }

    fn make_ack_packet(
        &self,
        syn_ack_packet: &TcpHeader,
        dst_ip: Ipv4Addr,
        src_ip: Ipv4Addr,
    ) -> (r: Vec<u8>)
        requires
            syn_ack_packet.sequence_number < u32::MAX,
        ensures
            r@ == control_segment(
                ack_header(
                    self.src_port,
                    self.dest_port,
                    self.seq_no,
                    syn_ack_packet.sequence_number,
                ),
                src_ip,
                dst_ip,
            ),
    {
        write_ack(
            self.src_port,
            self.dest_port,
            self.seq_no,
            syn_ack_packet.sequence_number,
            src_ip,
            dst_ip,
        )
    }
}

/// The state in which a socket waits for its answer to be acknowledged.
#[derive(Debug, Clone, Copy, PartialEq, Eq, Structural)]
pub struct SynReceived {
    pub seq_no: u32,
    pub local_port: Port,
    pub remote_ip: Ipv4Addr,
    pub remote_port: Port,
}

impl SynReceived {
    /// The name of the socket.
    pub open spec fn socket_id(self) -> SocketId {
        SocketId {
            remote: Remote { addr: self.remote_ip, port: self.remote_port },
            local_port: self.local_port,
        }
    }

    /// The established state.
    pub open spec fn established(self) -> Established {
        Established {
            local_port: self.local_port,
            remote_ip: self.remote_ip,
            remote_port: self.remote_port,
            last_seq: self.seq_no,
        }
    }

    /// Establishes the connection.
    pub fn establish(self, ack_packet: &TcpHeader) -> (r: (Established, TcpConn))
        requires
            ack_packet.ack,
        ensures
            r.0 == self.established(),
            r.1.fresh(
                self.socket_id(),
                self.seq_no as int,
                ack_packet.sequence_number as int,
            ),
    {
        let send_buf_start: usize = self.seq_no as usize;
        let recv_buf_start: usize = ack_packet.sequence_number as usize;
        let sock_id = SocketId {
            remote: Remote::new(self.remote_ip, self.remote_port),
            local_port: self.local_port,
        };
        let conn = TcpConn::new(
            sock_id,
            Remote::new(self.remote_ip, self.remote_port),
            self.local_port,
            send_buf_start,
            recv_buf_start,
        );
        let established = Established {
            local_port: self.local_port,
            remote_ip: self.remote_ip,
            remote_port: self.remote_port,
            last_seq: self.seq_no,
        };
        (established, conn)
    }

    pub fn into_socket(self, socket_id: SocketId, descriptor: SocketDescriptor) -> (r: Socket)
        ensures
            r == (Socket {
                id: socket_id,
                descriptor,
                state: TcpState::SynReceived(self),
                conn: None,
            }),
    {
        Socket::with_state(socket_id, descriptor, TcpState::SynReceived(self))
    }
}

/// The state in which both ends send and receive.
#[derive(Debug, Clone, Copy, PartialEq, Eq, Structural)]
pub struct Established {
    pub local_port: Port,
    pub remote_ip: Ipv4Addr,
    pub remote_port: Port,
    pub last_seq: u32,
}

impl Established {
    /// The header by which a segment that ends a connection is acknowledged.
    pub open spec fn handshake_ack_header(self, fin: TcpHeader) -> TcpHeader {
        ack_header(
            self.local_port,
            self.remote_port,
            fin.acknowledgment_number,
            fin.sequence_number,
        )
    }

    /// Perform transition from Established to CloseWait upon receiving a FIN
    /// packet. The second part of the result is the segment that has to be sent.
    fn passive_close(self, tcp_header: &TcpHeader, conn: &mut TcpConn, src_ip: Ipv4Addr) -> (r: (
        CloseWait,
        Segment,
    ))
        requires
            tcp_header.sequence_number < u32::MAX,
        ensures
            r.0 == (CloseWait { last_seq: self.last_seq }),
            r.1.dest == self.remote_ip,
            r.1.bytes@ == control_segment(
                self.handshake_ack_header(*tcp_header),
                src_ip,
                self.remote_ip,
            ),
            *final(conn) == read_closed(*old(conn)),
    {
        let ack_packet = self.make_handshake_ack_packet(tcp_header, self.remote_ip, src_ip);
        conn.close_read();
        (
            CloseWait { last_seq: self.last_seq },
            Segment { dest: self.remote_ip, bytes: ack_packet },
        )
    }

    /// Perform transition from Established -> FinWait1 in a close() syscall.
    ///
    /// Below are the stages of transition from Established -> FinWait1 -> Finwait2.
    ///
    /// 1. Mark the write-side of TcpConn as closed. This stops new data from
    /// being written into SendBuf.
    ///
    /// 2. Established transitions to FinWait1 immediately.
    ///
    /// 3. FIN packet is not sent until all data in SendBuf has been acked
    /// by the remote. Once SendBuf is empty, transmit the FIN packet.
    ///
    /// 4. The FIN packet's sequence number is then known to the socket.
    ///
    /// 5. The FinWait1 socket looks at it every time it processes an incoming packet.
    ///
    /// 6. The socket transitions into FinWait2 once it receives a packet
    /// where ACK = FIN.seq_no + 1.
    ///
    /// 7. Upon transitioning into FinWait2, the FIN packet's retransmissions stop.
    fn active_close(self, conn: &mut TcpConn, src_ip: Ipv4Addr) -> (r: FinWait1)
        requires
            old(conn).inner.send_buf.open,
        ensures
            r == self.closing(src_ip),
            *final(conn) == write_closed(*old(conn)),
    {
        conn.close();
        FinWait1 {
            local_port: self.local_port,
            remote_ip: self.remote_ip,
            remote_port: self.remote_port,
            src_ip,
            fin_seq_no: None,
        }
    }

    /// The state once this end has closed.
    pub open spec fn closing(self, src_ip: Ipv4Addr) -> FinWait1 {
        FinWait1 {
            local_port: self.local_port,
            remote_ip: self.remote_ip,
            remote_port: self.remote_port,
            src_ip,
            fin_seq_no: None,
        }
    }

    fn make_shutdown_fin_packet(
        fin_seq_no: u32,
        local_port: Port,
        remote_port: Port,
        src_ip: Ipv4Addr,
        dst_ip: Ipv4Addr,
    ) -> (r: Vec<u8>)
        ensures
            r@ == control_segment(fin_header(local_port, remote_port, fin_seq_no), src_ip, dst_ip),
    {
        let mut header = TcpHeader::new(
            local_port.0,
            remote_port.0,
            fin_seq_no,
            to_window_field(TCP_DEFAULT_WINDOW_SZ),
        );
        header.fin = true;
        write_control(header, src_ip, dst_ip)
    }

    fn make_handshake_ack_packet(
        &self,
        fin_ack_header: &TcpHeader,
        dst_ip: Ipv4Addr,
        src_ip: Ipv4Addr,
    ) -> (r: Vec<u8>)
        requires
            fin_ack_header.sequence_number < u32::MAX,
        ensures
            r@ == control_segment(self.handshake_ack_header(*fin_ack_header), src_ip, dst_ip),
    {
        write_ack(
            self.local_port,
            self.remote_port,
            fin_ack_header.acknowledgment_number,
            fin_ack_header.sequence_number,
            src_ip,
            dst_ip,
        )
    }
}

/// The header that ends a connection.
pub open spec fn fin_header(local_port: Port, remote_port: Port, seq_no: u32) -> TcpHeader {
    TcpHeader { fin: true, ..control_header(local_port, remote_port, seq_no) }
}

/// A connection whose read end has been closed.
pub open spec fn read_closed(conn: TcpConn) -> TcpConn {
    TcpConn {
        inner: InnerTcpConn {
            recv_buf: RecvBuf { open: false, ..conn.inner.recv_buf },
            ..conn.inner
        },
        ..conn
    }
}

/// A connection whose write end has been closed.
pub open spec fn write_closed(conn: TcpConn) -> TcpConn {
    TcpConn {
        inner: InnerTcpConn {
            send_buf: SendBuf { open: false, ..conn.inner.send_buf },
            ..conn.inner
        },
        ..conn
    }
}

/// The state after this end has closed, until the remote has acknowledged that.
#[derive(Debug, Clone, Copy, PartialEq, Eq, Structural)]
pub struct FinWait1 {
    pub local_port: Port,
    pub remote_ip: Ipv4Addr,
    pub remote_port: Port,
    pub src_ip: Ipv4Addr,
    /// The sequence number of the segment that ends the connection, once that was sent.
    pub fin_seq_no: Option<u32>,
}

impl FinWait1 {
    /// Whether a header acknowledges the segment that ends the connection.
    pub open spec fn acknowledged_by(self, tcp_header: TcpHeader) -> bool {
        match self.fin_seq_no {
            Some(fin_seq_no) => tcp_header.acknowledgment_number > fin_seq_no,
            None => false,
        }
    }

    /// The state once the remote has acknowledged that this end has closed.
    pub open spec fn acknowledged(self) -> FinWait2 {
        FinWait2 {
            local_port: self.local_port,
            remote_ip: self.remote_ip,
            remote_port: self.remote_port,
        }
    }

    fn is_acknowledged_by(&self, tcp_header: &TcpHeader) -> (r: bool)
        ensures
            r == self.acknowledged_by(*tcp_header),
    {
        match self.fin_seq_no {
            Some(fin_seq_no) => tcp_header.acknowledgment_number > fin_seq_no,
            None => false,
        }
    }

    fn make_ack_packet(
        &self,
        tcp_header: &TcpHeader,
        src_ip: Ipv4Addr,
        dst_ip: Ipv4Addr,
    ) -> (r: Vec<u8>)
        requires
            tcp_header.sequence_number < u32::MAX,
        ensures
            r@ == control_segment(
                ack_header(
                    self.local_port,
                    self.remote_port,
                    tcp_header.acknowledgment_number,
                    tcp_header.sequence_number,
                ),
                src_ip,
                dst_ip,
            ),
    {
        write_ack(
            self.local_port,
            self.remote_port,
            tcp_header.acknowledgment_number,
            tcp_header.sequence_number,
            src_ip,
            dst_ip,
        )
    }
}

/// The state after the remote has acknowledged that this end has closed, until it closes too.
#[derive(Debug, Clone, Copy, PartialEq, Eq, Structural)]
pub struct FinWait2 {
    pub local_port: Port,
    pub remote_ip: Ipv4Addr,
    pub remote_port: Port,
}

impl FinWait2 {
    fn handle_fin(&self, ip_header: &Ipv4Header, tcp_header: &TcpHeader) -> (r: (
        TimeWait,
        Segment,
    ))
        requires
            tcp_header.sequence_number < u32::MAX,
        ensures
            r.1.dest == self.remote_ip,
            r.1.bytes@ == control_segment(
                ack_header(
                    self.local_port,
                    self.remote_port,
                    tcp_header.acknowledgment_number,
                    tcp_header.sequence_number,
                ),
                ip_header.destination,
                ip_header.source,
            ),
    {
        let ack_packet = self.make_ack_packet(
            tcp_header,
            ip_header.destination,
            ip_header.source,
        );
        (TimeWait {  }, Segment { dest: self.remote_ip, bytes: ack_packet })
    }

    fn make_ack_packet(
        &self,
        tcp_header: &TcpHeader,
        src_ip: Ipv4Addr,
        dst_ip: Ipv4Addr,
    ) -> (r: Vec<u8>)
        requires
            tcp_header.sequence_number < u32::MAX,
        ensures
            r@ == control_segment(
                ack_header(
                    self.local_port,
                    self.remote_port,
                    tcp_header.acknowledgment_number,
                    tcp_header.sequence_number,
                ),
                src_ip,
                dst_ip,
            ),
    {
        write_ack(
            self.local_port,
            self.remote_port,
            tcp_header.acknowledgment_number,
            tcp_header.sequence_number,
            src_ip,
            dst_ip,
        )
    }
}

/// The state after both ends have closed at once, until the remote has acknowledged that.
#[derive(Debug, Clone, Copy, PartialEq, Eq, Structural)]
pub struct Closing {}

/// The state after both ends have closed.
#[derive(Debug, Clone, Copy, PartialEq, Eq, Structural)]
pub struct TimeWait {}

/// The state after the remote has closed, until this end does.
#[derive(Debug, Clone, Copy, PartialEq, Eq, Structural)]
pub struct CloseWait {
    pub last_seq: u32,
}

impl CloseWait {
    fn close(&self, id: SocketId, local_port: Port, src_ip: Ipv4Addr, conn: &mut TcpConn) -> (r:
        LastAck)
        requires
            self.last_seq < u32::MAX,
            old(conn).inner.send_buf.open,
        ensures
            *final(conn) == write_closed(*old(conn)),
    {
        // The packet is made, and not sent.
        let _fin_packet = self.make_fin_packet(
            local_port,
            id.remote_port(),
            id.remote_ip(),
            src_ip,
        );
        conn.close();
        LastAck {  }
    }

    /// The bytes of the segment that ends this end's half of the connection.
    pub fn make_fin_packet(
        &self,
        src_port: Port,
        dst_port: Port,
        dst_ip: Ipv4Addr,
        src_ip: Ipv4Addr,
    ) -> (r: Vec<u8>)
        requires
            self.last_seq < u32::MAX,
        ensures
            r@ == control_segment(
                fin_header(src_port, dst_port, (self.last_seq + 1) as u32),
                src_ip,
                dst_ip,
            ),
    {
        let mut header = TcpHeader::new(
            src_port.0,
            dst_port.0,
            self.last_seq + 1,
            to_window_field(TCP_DEFAULT_WINDOW_SZ),
        );
        header.ack = false;
        header.fin = true;
        write_control(header, src_ip, dst_ip)
    }
}

/// The state after this end has closed last, until the remote has acknowledged that.
#[derive(Debug, Clone, Copy, PartialEq, Eq, Structural)]
pub struct LastAck {}

impl LastAck {
    fn handle_ack(self) -> (r: Closed)
        ensures
            r.seq_no < 65535,
    {
        Closed::new()
    }
}

/// The state of a socket.
#[derive(Debug, Clone, Copy, PartialEq, Eq, Structural)]
pub enum TcpState {
    Closed(Closed),
    SynSent(SynSent),
    SynReceived(SynReceived),
    Established(Established),
    Listen(Listen),
    FinWait1(FinWait1),
    FinWait2(FinWait2),
    Closing(Closing),
    TimeWait(TimeWait),
    CloseWait(CloseWait),
    LastAck(LastAck),
}

/// The type of a state.
pub open spec fn status_of(s: TcpState) -> SocketStatus {
    match s {
        TcpState::Closed(_) => SocketStatus::Closed,
        TcpState::SynSent(_) => SocketStatus::SynSent,
        TcpState::SynReceived(_) => SocketStatus::SynReceived,
        TcpState::Established(_) => SocketStatus::Established,
        TcpState::Listen(_) => SocketStatus::Listen,
        TcpState::FinWait1(_) => SocketStatus::FinWait1,
        TcpState::FinWait2(_) => SocketStatus::FinWait2,
        TcpState::Closing(_) => SocketStatus::Closing,
        TcpState::TimeWait(_) => SocketStatus::TimeWait,
        TcpState::CloseWait(_) => SocketStatus::CloseWait,
        TcpState::LastAck(_) => SocketStatus::LastAck,
    }
}

impl<'a> FromSpecImpl<&'a TcpState> for SocketStatus {
    open spec fn obeys_from_spec() -> bool {
        true
    }

    open spec fn from_spec(s: &'a TcpState) -> Self {
        status_of(*s)
    }
}

impl<'a> From<&'a TcpState> for SocketStatus {
    fn from(s: &'a TcpState) -> (r: Self) {
        match s {
            TcpState::Closed(_) => SocketStatus::Closed,
            TcpState::SynSent(_) => SocketStatus::SynSent,
            TcpState::SynReceived(_) => SocketStatus::SynReceived,
            TcpState::Established(_) => SocketStatus::Established,
            TcpState::Listen(_) => SocketStatus::Listen,
            TcpState::FinWait1(_) => SocketStatus::FinWait1,
            TcpState::FinWait2(_) => SocketStatus::FinWait2,
            TcpState::Closing(_) => SocketStatus::Closing,
            TcpState::TimeWait(_) => SocketStatus::TimeWait,
            TcpState::CloseWait(_) => SocketStatus::CloseWait,
            TcpState::LastAck(_) => SocketStatus::LastAck,
        }
    }
}

/// What has to be done to other sockets.
pub enum UpdateAction {
    /// A new socket for a connection, and the segment that has to be sent until it is
    /// acknowledged.
    NewSynReceivedSocket(SynReceived, Segment),
    CloseSocket(SocketId),
}

/// A socket. Its connection outlives the states in which segments are delivered to it, so
/// that what has arrived can still be read.
pub struct Socket {
    pub id: SocketId,
    pub descriptor: SocketDescriptor,
    pub state: TcpState,
    pub conn: Option<TcpConn>,
}

/// What came of a packet.
pub struct Update {
    /// A segment that has to be sent.
    pub segment: Option<Segment>,
    /// What has to be done to other sockets.
    pub action: Option<UpdateAction>,
    /// What became of the payload, where it was handed to the connection.
    pub delivery: Option<Delivery>,
    /// Whether the connection was established, and the last segment of this end's handshake
    /// acknowledged.
    pub established: bool,
    /// Whether the segment by which this end closed was acknowledged.
    pub fin_acked: bool,
}

impl Update {
    fn none() -> (r: Self)
        ensures
            r.is_none(),
    {
        Update { segment: None, action: None, delivery: None, established: false, fin_acked: false }
    }

    /// Nothing has to be done.
    pub open spec fn is_none(self) -> bool {
        &&& self.segment is None
        &&& self.action is None
        &&& self.delivery is None
        &&& !self.established
        &&& !self.fin_acked
    }

    /// One segment has to be sent, and nothing else done.
    pub open spec fn only_segment(self, dest: Ipv4Addr, bytes: Seq<u8>) -> bool {
        &&& self.segment matches Some(segment)
        &&& segment.dest == dest
        &&& segment.bytes@ == bytes
        &&& self.action is None
        &&& self.delivery is None
    }

    /// The payload was handed to the connection, and nothing else has to be done.
    pub open spec fn only_delivery(self) -> bool {
        &&& self.segment is None
        &&& self.action is None
        &&& self.delivery is Some
        &&& !self.established
        &&& !self.fin_acked
    }
}

/// Whether a connection can take in a segment: its sequence numbers fit in a machine word.
pub open spec fn deliverable(conn: Option<TcpConn>, header: TcpHeader, len: nat) -> bool {
    &&& conn matches Some(conn)
    &&& conn.inner.recv_buf.ready()
    &&& header.sequence_number + len <= usize::MAX
}

/// Whether a connection took in a segment.
pub open spec fn took_in(
    before: Option<TcpConn>,
    after: Option<TcpConn>,
    header: TcpHeader,
    payload: Seq<u8>,
    delivery: Option<Delivery>,
) -> bool {
    &&& before matches Some(a)
    &&& after matches Some(b)
    &&& delivery matches Some(d)
    &&& b.socket_id == a.socket_id
    &&& b.inner.remote == a.inner.remote
    &&& b.inner.local_port == a.inner.local_port
    &&& b.inner.send_buf.window_size == header.window_size
    &&& b.inner.send_buf.open == a.inner.send_buf.open
    &&& b.inner.send_buf.inner@ == after_ack(a.inner.send_buf.inner@, header.acknowledgment_number)
    &&& a.inner.send_buf.inner.times_tail(b.inner.send_buf.inner)
    &&& delivers(a.inner, b.inner, header, payload, d)
}

impl Socket {
    /// The state and the connection belong together: where segments are exchanged there is a
    /// connection, its write end is open until this end closes, and sequence numbers of
    /// handshakes are small.
    pub open spec fn wf(self) -> bool {
        &&& self.conn matches Some(conn) ==> conn.wf()
        &&& match self.state {
            TcpState::Closed(s) => s.seq_no < 65535,
            TcpState::Listen(s) => s.seq_no < 65535,
            TcpState::SynSent(s) => s.seq_no <= 65535,
            TcpState::SynReceived(s) => s.seq_no <= 65535,
            TcpState::Established(s) => {
                &&& s.last_seq <= 65536
                &&& self.conn is Some
                &&& self.conn->0.inner.send_buf.open
            },
            TcpState::CloseWait(s) => {
                &&& s.last_seq <= 65536
                &&& self.conn is Some
                &&& self.conn->0.inner.send_buf.open
            },
            TcpState::FinWait1(_) => self.conn is Some && !self.conn->0.inner.send_buf.open,
            TcpState::FinWait2(_) => self.conn is Some && !self.conn->0.inner.send_buf.open,
            _ => true,
        }
    }

    /// A closed socket.
    pub fn new(id: SocketId, descriptor: SocketDescriptor) -> (r: Self)
        ensures
            r.wf(),
            r.id == id,
            r.descriptor == descriptor,
            r.state is Closed,
            r.conn is None,
    {
        Self { id, descriptor, state: TcpState::Closed(Closed::new()), conn: None }
    }

    fn with_state(id: SocketId, descriptor: SocketDescriptor, state: TcpState) -> (r: Self)
        ensures
            r == (Socket { id, descriptor, state, conn: None }),
    {
        Self { id, descriptor, state, conn: None }
    }

    /// Begins to listen. Only a closed socket can.
    pub fn listen(&mut self, port: Port) -> (r: Result<(), ListenTransitionError>)
        requires
            old(self).wf(),
        ensures
            final(self).wf(),
            match (old(self).state, r) {
                (TcpState::Closed(s), Ok(_)) => *final(self) == (Socket {
                    state: TcpState::Listen(Listen { port, seq_no: s.seq_no }),
                    ..*old(self)
                }),
                (TcpState::Closed(_), Err(_)) => false,
                (_, Ok(_)) => false,
                (_, Err(e)) => e == ListenTransitionError::NotFromClosed && *final(self) == *old(
                    self,
                ),
            },
    {
        match self.state {
            TcpState::Closed(s) => {
                self.state = TcpState::Listen(s.listen(port));
                Ok(())
            },
            _ => Err(ListenTransitionError::NotFromClosed),
        }
    }

    pub fn id(&self) -> (r: SocketId)
        ensures
            r == self.id,
    {
        self.id
    }

    pub fn descriptor(&self) -> (r: SocketDescriptor)
        ensures
            r == self.descriptor,
    {
        self.descriptor
    }

    pub fn local_port(&self) -> (r: Port)
        ensures
            r == self.id.local_port,
    {
        self.id.local_port()
    }

    pub fn remote_ip(&self) -> (r: Ipv4Addr)
        ensures
            r == self.id.remote.addr,
    {
        self.id.remote_ip()
    }

    pub fn remote_port(&self) -> (r: Port)
        ensures
            r == self.id.remote.port,
    {
        self.id.remote_port()
    }

    pub fn remote_ip_port(&self) -> (r: (Ipv4Addr, Port))
        ensures
            r == (self.id.remote.addr, self.id.remote.port),
    {
        (self.remote_ip(), self.remote_port())
    }

    pub fn status(&self) -> (r: SocketStatus)
        ensures
            r == status_of(self.state),
    {
        SocketStatus::from(&self.state)
    }

    /// Whether `after` is what the socket becomes when a user sends bytes on from where `sending` is,
    /// and `r` says how far that came: it takes an established connection.
    pub open spec fn sends(
        self,
        after: Socket,
        payload: Seq<u8>,
        sending: Sending,
        r: Result<Option<Sending>, TcpSendError>,
    ) -> bool {
        match self.state {
            TcpState::Established(_) => {
                &&& after == (Socket { conn: after.conn, ..self })
                &&& after.conn is Some
                &&& sends_until_acked(self.conn->0, after.conn->0, payload, sending, r)
            },
            TcpState::Listen(_) | TcpState::SynSent(_) | TcpState::SynReceived(_) => {
                &&& r == Err::<Option<Sending>, TcpSendError>(TcpSendError::ConnNotEstablished)
                &&& after == self
            },
            _ => {
                &&& r == Err::<Option<Sending>, TcpSendError>(TcpSendError::ConnClosed)
                &&& after == self
            },
        }
    }

    /// Sends bytes on from where `sending` is, where the connection is established. Further calls
    /// of `TcpConn::send_all` go on until the other end has acknowledged all of them.
    pub fn send_all(&mut self, payload: &[u8], sending: Sending) -> (r: Result<
        Option<Sending>,
        TcpSendError,
    >)
        requires
            old(self).wf(),
            old(self).state is Established ==> old(self).conn->0.inner.send_buf.ready(),
            sending.written <= payload@.len(),
        ensures
            final(self).wf(),
            old(self).sends(*final(self), payload@, sending, r),
            *final(self) == (Socket { conn: final(self).conn, ..*old(self) }),
            match old(self).state {
                TcpState::Established(_) => {
                    &&& final(self).conn is Some
                    &&& sends_until_acked(
                        old(self).conn->0,
                        final(self).conn->0,
                        payload@,
                        sending,
                        r,
                    )
                    &&& sending.went_through(old(self).conn->0.inner.send_buf.inner@) ==> match r {
                        Ok(Some(rest)) => rest.went_through(
                            final(self).conn->0.inner.send_buf.inner@,
                        ) && rest.written <= payload@.len(),
                        Ok(None) => payload@.len() > 0
                            ==> final(self).conn->0.inner.send_buf.inner@.tail >= sending.start
                            + payload@.len(),
                        Err(_) => true,
                    }
                },
                TcpState::Listen(_) | TcpState::SynSent(_) | TcpState::SynReceived(_) => {
                    &&& r == Err::<Option<Sending>, TcpSendError>(TcpSendError::ConnNotEstablished)
                    &&& *final(self) == *old(self)
                },
                _ => {
                    &&& r == Err::<Option<Sending>, TcpSendError>(TcpSendError::ConnClosed)
                    &&& *final(self) == *old(self)
                },
            },
    {
        match self.state {
            TcpState::Established(_) => match &mut self.conn {
                Some(conn) => conn.send_all(payload, sending),
                None => Err(TcpSendError::ConnClosed),
            },
            TcpState::Listen(_) | TcpState::SynSent(_) | TcpState::SynReceived(_) => Err(
                TcpSendError::ConnNotEstablished,
            ),
            _ => Err(TcpSendError::ConnClosed),
        }
    }

    /// Whether `after` is what the socket becomes when a user fills a buffer on from `curr`, `filled`
    /// is what the buffer becomes, and `r` says how far that came: it takes an established
    /// connection.
    pub open spec fn fills(
        self,
        after: Socket,
        buffer: Seq<u8>,
        filled: Seq<u8>,
        curr: int,
        r: Result<Option<usize>, TcpReadError>,
    ) -> bool {
        match self.state {
            TcpState::Established(_) => {
                &&& after == (Socket { conn: after.conn, ..self })
                &&& after.conn is Some
                &&& after.conn->0.socket_id == self.conn->0.socket_id
                &&& reads_on(self.conn->0.inner, after.conn->0.inner, buffer, filled, curr, r)
            },
            TcpState::Listen(_) | TcpState::SynSent(_) | TcpState::SynReceived(_) => {
                &&& r == Err::<Option<usize>, TcpReadError>(TcpReadError::ConnNotEstablished)
                &&& after == self
                &&& filled == buffer
            },
            _ => {
                &&& r == Err::<Option<usize>, TcpReadError>(TcpReadError::Closed(0))
                &&& after == self
                &&& filled == buffer
            },
        }
    }

    /// Reads N bytes from the connection, where N is `out_buffer`'s size, on from `curr`, where
    /// the connection is established. Further calls of `TcpConn::read_all` read the rest.
    pub fn read_all(&mut self, out_buffer: &mut [u8], curr: usize) -> (r: Result<
        Option<usize>,
        TcpReadError,
    >)
        requires
            old(self).wf(),
            curr <= old(out_buffer)@.len(),
        ensures
            final(self).wf(),
            old(self).fills(
                *final(self),
                old(out_buffer)@,
                final(out_buffer)@,
                curr as int,
                r,
            ),
            *final(self) == (Socket { conn: final(self).conn, ..*old(self) }),
            match old(self).state {
                TcpState::Established(_) => {
                    &&& final(self).conn is Some
                    &&& final(self).conn->0.socket_id == old(self).conn->0.socket_id
                    &&& reads_on(
                        old(self).conn->0.inner,
                        final(self).conn->0.inner,
                        old(out_buffer)@,
                        final(out_buffer)@,
                        curr as int,
                        r,
                    )
                },
                TcpState::Listen(_) | TcpState::SynSent(_) | TcpState::SynReceived(_) => {
                    &&& r == Err::<Option<usize>, TcpReadError>(TcpReadError::ConnNotEstablished)
                    &&& *final(self) == *old(self)
                    &&& final(out_buffer)@ == old(out_buffer)@
                },
                _ => {
                    &&& r == Err::<Option<usize>, TcpReadError>(TcpReadError::Closed(0))
                    &&& *final(self) == *old(self)
                    &&& final(out_buffer)@ == old(out_buffer)@
                },
            },
    {
        match self.state {
            TcpState::Established(_) => match &mut self.conn {
                Some(conn) => conn.read_all(out_buffer, curr),
                None => Err(TcpReadError::Closed(0)),
            },
            TcpState::Listen(_) | TcpState::SynSent(_) | TcpState::SynReceived(_) => Err(
                TcpReadError::ConnNotEstablished,
            ),
            _ => Err(TcpReadError::Closed(0)),
        }
    }

    /// Begins to connect. Only a closed socket can. The result is the segment that has to be
    /// sent until it is acknowledged.
    pub fn initiate_connection(&mut self, src_ip: Ipv4Addr) -> (r: Result<Segment, TcpConnError>)
        requires
            old(self).wf(),
        ensures
            final(self).wf(),
            match (old(self).state, r) {
                (TcpState::Closed(s), Ok(segment)) => {
                    &&& *final(self) == (Socket {
                        state: TcpState::SynSent(
                            SynSent {
                                seq_no: (s.seq_no + 1) as u32,
                                src_port: old(self).id.local_port,
                                dest_ip: old(self).id.remote.addr,
                                dest_port: old(self).id.remote.port,
                            },
                        ),
                        ..*old(self)
                    })
                    &&& segment.dest == old(self).id.remote.addr
                    &&& segment.bytes@ == control_segment(
                        s.syn_header(old(self).id.local_port, old(self).id.remote.port),
                        src_ip,
                        old(self).id.remote.addr,
                    )
                },
                (TcpState::Closed(_), Err(_)) => false,
                (_, Ok(_)) => false,
                (_, Err(e)) => e == TcpConnError::ConnectionExists(old(self).id.remote)
                    && *final(self) == *old(self),
            },
    {
        match self.state {
            TcpState::Closed(s) => match s.connect(self.local_port(), self.id.remote(), src_ip) {
                Ok((syn_sent, segment)) => {
                    self.state = TcpState::SynSent(syn_sent);
                    Ok(segment)
                },
                Err(e) => Err(TcpConnError::Transport(e)),
            },
            _ => Err(TcpConnError::ConnectionExists(self.id.remote())),
        }
    }

    /// Which packets a socket is ready for. A closed socket gets none, one that has asked for a
    /// connection only the answer, and connections only segments that acknowledge.
    pub open spec fn accepts(self, tcp_header: TcpHeader, payload: Seq<u8>) -> bool {
        match self.state {
            TcpState::Closed(_) => false,
            TcpState::Listen(_) => tcp_header.syn ==> tcp_header.sequence_number < u32::MAX,
            TcpState::SynSent(s) => {
                &&& tcp_header.syn
                &&& tcp_header.ack
                &&& tcp_header.acknowledgment_number == s.seq_no
                &&& tcp_header.sequence_number < u32::MAX
            },
            TcpState::SynReceived(s) => tcp_header.acknowledgment_number == s.seq_no
                ==> tcp_header.ack,
            TcpState::Established(_) | TcpState::FinWait2(_) => if tcp_header.fin {
                tcp_header.sequence_number < u32::MAX
            } else {
                tcp_header.ack && deliverable(self.conn, tcp_header, payload.len())
            },
            TcpState::FinWait1(s) => if tcp_header.fin {
                tcp_header.sequence_number < u32::MAX
            } else {
                &&& tcp_header.ack
                &&& s.acknowledged_by(tcp_header) || deliverable(
                    self.conn,
                    tcp_header,
                    payload.len(),
                )
            },
            TcpState::CloseWait(_) => tcp_header.ack && deliverable(self.conn, tcp_header, 0),
            TcpState::Closing(_) | TcpState::TimeWait(_) | TcpState::LastAck(_) => true,
        }
    }

    /// Whether the socket is ready for a packet.
    pub fn is_ready_for(&self, tcp_header: &TcpHeader, payload: &[u8]) -> (r: bool)
        requires
            self.wf(),
        ensures
            r == self.accepts(*tcp_header, payload@),
    {
        match self.state {
            TcpState::Closed(_) => false,
            TcpState::Listen(_) => !tcp_header.syn || tcp_header.sequence_number < u32::MAX,
            TcpState::SynSent(s) => tcp_header.syn && tcp_header.ack
                && tcp_header.acknowledgment_number == s.seq_no && tcp_header.sequence_number
                < u32::MAX,
            TcpState::SynReceived(s) => tcp_header.acknowledgment_number != s.seq_no
                || tcp_header.ack,
            TcpState::Established(_) | TcpState::FinWait2(_) => if tcp_header.fin {
                tcp_header.sequence_number < u32::MAX
            } else {
                tcp_header.ack && self.can_deliver(tcp_header, payload.len())
            },
            TcpState::FinWait1(s) => if tcp_header.fin {
                tcp_header.sequence_number < u32::MAX
            } else {
                tcp_header.ack && (s.is_acknowledged_by(tcp_header) || self.can_deliver(
                    tcp_header,
                    payload.len(),
                ))
            },
            TcpState::CloseWait(_) => tcp_header.ack && self.can_deliver(tcp_header, 0),
            TcpState::Closing(_) | TcpState::TimeWait(_) | TcpState::LastAck(_) => true,
        }
    }

    /// Whether the connection can take in a segment with so many bytes.
    pub fn can_deliver(&self, tcp_header: &TcpHeader, len: usize) -> (r: bool)
        requires
            self.wf(),
        ensures
            r == deliverable(self.conn, *tcp_header, len as nat),
    {
        match &self.conn {
            Some(conn) => conn.inner.recv_buf.tail() <= usize::MAX - TCP_DEFAULT_WINDOW_SZ
                && tcp_header.sequence_number as usize <= usize::MAX - len,
            None => false,
        }
    }

    /// Whether `after` is what a socket becomes by a packet, and `update` is what came of it. The
    /// address `src_ip` is that of the interface through which the remote is reached.
    pub open spec fn steps(
        self,
        after: Socket,
        ip_header: Ipv4Header,
        tcp_header: TcpHeader,
        payload: Seq<u8>,
        src_ip: Ipv4Addr,
        update: Update,
    ) -> bool {
        &&& after.id == self.id
        &&& after.descriptor == self.descriptor
        &&& match self.state {
            TcpState::Closed(_) => false,
            TcpState::Listen(s) => {
                &&& after.state == self.state
                &&& after.conn == self.conn
                &&& if tcp_header.syn {
                    &&& update.segment is None
                    &&& update.delivery is None
                    &&& !update.established
                    &&& !update.fin_acked
                    &&& update.action matches Some(
                        UpdateAction::NewSynReceivedSocket(syn_recvd, segment),
                    )
                    &&& syn_recvd == s.answered(ip_header.source, tcp_header)
                    &&& segment.dest == ip_header.source
                    &&& segment.bytes@ == control_segment(
                        s.syn_ack_header(tcp_header),
                        ip_header.destination,
                        ip_header.source,
                    )
                } else {
                    update.is_none()
                }
            },
            TcpState::SynSent(s) => {
                &&& after.state == TcpState::Established(s.established())
                &&& after.conn is Some
                &&& after.conn->0.fresh(
                    s.socket_id(),
                    s.seq_no as int,
                    tcp_header.sequence_number + 1,
                )
                &&& update.only_segment(
                    s.dest_ip,
                    control_segment(
                        ack_header(s.src_port, s.dest_port, s.seq_no, tcp_header.sequence_number),
                        src_ip,
                        s.dest_ip,
                    ),
                )
                &&& update.established
                &&& !update.fin_acked
            },
            TcpState::SynReceived(s) => if tcp_header.acknowledgment_number == s.seq_no {
                &&& after.state == TcpState::Established(s.established())
                &&& after.conn is Some
                &&& after.conn->0.fresh(
                    s.socket_id(),
                    s.seq_no as int,
                    tcp_header.sequence_number as int,
                )
                &&& update.segment is None
                &&& update.action is None
                &&& update.delivery is None
                &&& update.established
                &&& !update.fin_acked
            } else {
                after == self && update.is_none()
            },
            TcpState::Established(s) => if tcp_header.fin {
                &&& after.state == TcpState::CloseWait(CloseWait { last_seq: s.last_seq })
                &&& after.conn == Some(read_closed(self.conn->0))
                &&& update.only_segment(
                    s.remote_ip,
                    control_segment(s.handshake_ack_header(tcp_header), src_ip, s.remote_ip),
                )
                &&& !update.established
                &&& !update.fin_acked
            } else {
                &&& after.state == self.state
                &&& took_in(self.conn, after.conn, tcp_header, payload, update.delivery)
                &&& update.only_delivery()
            },
            TcpState::FinWait1(s) => if tcp_header.fin {
                &&& after.conn == self.conn
                &&& after.state == (if tcp_header.ack {
                    TcpState::TimeWait(TimeWait {  })
                } else {
                    TcpState::Closing(Closing {  })
                })
                &&& update.only_segment(
                    s.remote_ip,
                    control_segment(
                        ack_header(
                            s.local_port,
                            s.remote_port,
                            tcp_header.acknowledgment_number,
                            tcp_header.sequence_number,
                        ),
                        ip_header.destination,
                        ip_header.source,
                    ),
                )
                &&& !update.established
                &&& update.fin_acked == (tcp_header.ack && s.acknowledged_by(tcp_header))
            } else if s.acknowledged_by(tcp_header) {
                &&& after.conn == self.conn
                &&& after.state == TcpState::FinWait2(s.acknowledged())
                &&& update.segment is None
                &&& update.action is None
                &&& update.delivery is None
                &&& !update.established
                &&& update.fin_acked
            } else {
                &&& after.state == self.state
                &&& took_in(self.conn, after.conn, tcp_header, payload, update.delivery)
                &&& update.only_delivery()
            },
            TcpState::FinWait2(s) => if tcp_header.fin {
                &&& after.conn == self.conn
                &&& after.state == TcpState::TimeWait(TimeWait {  })
                &&& update.segment matches Some(segment)
                &&& segment.dest == s.remote_ip
                &&& segment.bytes@ == control_segment(
                    ack_header(
                        s.local_port,
                        s.remote_port,
                        tcp_header.acknowledgment_number,
                        tcp_header.sequence_number,
                    ),
                    ip_header.destination,
                    ip_header.source,
                )
                &&& update.action == Some(UpdateAction::CloseSocket(self.id))
                &&& update.delivery is None
                &&& !update.established
                &&& !update.fin_acked
            } else {
                &&& after.state == self.state
                &&& took_in(self.conn, after.conn, tcp_header, payload, update.delivery)
                &&& update.only_delivery()
            },
            TcpState::Closing(_) => {
                &&& after.conn == self.conn
                &&& update.segment is None
                &&& update.action is None
                &&& update.delivery is None
                &&& !update.established
                &&& update.fin_acked == tcp_header.ack
                &&& after.state == (if tcp_header.ack {
                    TcpState::TimeWait(TimeWait {  })
                } else {
                    self.state
                })
            },
            TcpState::TimeWait(_) => after == self && update.is_none(),
            TcpState::CloseWait(_) => {
                &&& after.state == self.state
                &&& took_in(self.conn, after.conn, tcp_header, Seq::empty(), update.delivery)
                &&& update.only_delivery()
            },
            TcpState::LastAck(_) => {
                &&& after.state matches TcpState::Closed(s)
                &&& s.seq_no < 65535
                &&& after.conn == self.conn
                &&& update.is_none()
            },
        }
    }

    /// Hands a segment to the connection.
    fn take_in(&mut self, tcp_header: &TcpHeader, payload: &[u8]) -> (r: Update)
        requires
            old(self).wf(),
            tcp_header.ack,
            deliverable(old(self).conn, *tcp_header, payload@.len()),
        ensures
            final(self).wf(),
            *final(self) == (Socket { conn: final(self).conn, ..*old(self) }),
            took_in(old(self).conn, final(self).conn, *tcp_header, payload@, r.delivery),
            r.only_delivery(),
    {
        let delivery = match &mut self.conn {
            Some(conn) => Some(conn.inner.handle_packet(tcp_header, payload)),
            None => None,
        };
        Update { segment: None, action: None, delivery, established: false, fin_acked: false }
    }

    /// Goes through a state transition upon a packet.
    pub fn handle_packet(
        &mut self,
        ip_header: &Ipv4Header,
        tcp_header: &TcpHeader,
        payload: &[u8],
        src_ip: Ipv4Addr,
    ) -> (r: Update)
        requires
            old(self).wf(),
            old(self).accepts(*tcp_header, payload@),
        ensures
            final(self).wf(),
            old(self).steps(*final(self), *ip_header, *tcp_header, payload@, src_ip, r),
    {
        match self.state {
            TcpState::Closed(_) => Update::none(),
            TcpState::Listen(s) => {
                if tcp_header.syn {
                    match s.syn_received(ip_header, tcp_header) {
                        Ok((syn_recvd, segment)) => Update {
                            action: Some(UpdateAction::NewSynReceivedSocket(syn_recvd, segment)),
                            ..Update::none()
                        },
                        Err(_) => Update::none(),
                    }
                } else {
                    Update::none()
                }
            },
            TcpState::SynSent(s) => match s.establish(tcp_header, src_ip) {
                Ok((established, conn, segment)) => {
                    self.state = TcpState::Established(established);
                    self.conn = Some(conn);
                    Update { segment: Some(segment), established: true, ..Update::none() }
                },
                Err(_) => Update::none(),
            },
            TcpState::SynReceived(s) => {
                if tcp_header.acknowledgment_number == s.seq_no {
                    let (established, conn) = s.establish(tcp_header);
                    self.state = TcpState::Established(established);
                    self.conn = Some(conn);
                    Update { established: true, ..Update::none() }
                } else {
                    Update::none()
                }
            },
            TcpState::Established(s) => {
                if tcp_header.fin {
                    match &mut self.conn {
                        Some(conn) => {
                            let (close_wait, segment) = s.passive_close(tcp_header, conn, src_ip);
                            self.state = TcpState::CloseWait(close_wait);
                            Update { segment: Some(segment), ..Update::none() }
                        },
                        None => Update::none(),
                    }
                } else {
                    self.take_in(tcp_header, payload)
                }
            },
            TcpState::FinWait1(s) => self.handle_in_fin_wait_1(s, ip_header, tcp_header, payload),
            TcpState::FinWait2(s) => {
                if tcp_header.fin {
                    let (time_wait, segment) = s.handle_fin(ip_header, tcp_header);
                    self.state = TcpState::TimeWait(time_wait);
                    Update {
                        segment: Some(segment),
                        action: Some(UpdateAction::CloseSocket(self.id)),
                        ..Update::none()
                    }
                } else {
                    self.take_in(tcp_header, payload)
                }
            },
            TcpState::Closing(_) => {
                if tcp_header.ack {
                    self.state = TcpState::TimeWait(TimeWait {  });
                    Update { fin_acked: true, ..Update::none() }
                } else {
                    Update::none()
                }
            },
            TcpState::TimeWait(_) => Update::none(),
            TcpState::CloseWait(_) => {
                // The remote has already closed its end: what it still sends is not kept.
                let nothing: Vec<u8> = Vec::new();
                assert(nothing@ =~= Seq::empty());
                self.take_in(tcp_header, nothing.as_slice())
            },
            TcpState::LastAck(s) => {
                self.state = TcpState::Closed(s.handle_ack());
                Update::none()
            },
        }
    }

    fn handle_in_fin_wait_1(
        &mut self,
        s: FinWait1,
        ip_header: &Ipv4Header,
        tcp_header: &TcpHeader,
        payload: &[u8],
    ) -> (r: Update)
        requires
            old(self).wf(),
            old(self).state == TcpState::FinWait1(s),
            old(self).accepts(*tcp_header, payload@),
        ensures
            final(self).wf(),
            forall|src_ip: Ipv4Addr|
                old(self).steps(
                    *final(self),
                    *ip_header,
                    *tcp_header,
                    payload@,
                    src_ip,
                    r,
                ),
    {
        let acked = s.is_acknowledged_by(tcp_header);
        if tcp_header.fin && tcp_header.ack {
            // Remote closed too
            let ack_packet = s.make_ack_packet(
                tcp_header,
                ip_header.destination,
                ip_header.source,
            );
            self.state = TcpState::TimeWait(TimeWait {  });
            return Update {
                segment: Some(Segment { dest: s.remote_ip, bytes: ack_packet }),
                fin_acked: acked,
                ..Update::none()
            };
        }
        if tcp_header.fin {
            // Simultaneous close
            let ack_packet = s.make_ack_packet(
                tcp_header,
                ip_header.destination,
                ip_header.source,
            );
            self.state = TcpState::Closing(Closing {  });
            return Update {
                segment: Some(Segment { dest: s.remote_ip, bytes: ack_packet }),
                ..Update::none()
            };
        }
        if tcp_header.ack && acked {
            self.state = TcpState::FinWait2(
                FinWait2 {
                    local_port: s.local_port,
                    remote_ip: s.remote_ip,
                    remote_port: s.remote_port,
                },
            );
            return Update { fin_acked: true, ..Update::none() };
        }
        // Handle normal traffic
        self.take_in(tcp_header, payload)
    }

    /// Delivers a payload again that there was no room for.
    pub fn redeliver(&mut self, tcp_header: &TcpHeader, payload: &[u8]) -> (r: Option<Delivery>)
        requires
            old(self).wf(),
            old(self).conn is Some ==> deliverable(old(self).conn, *tcp_header, payload@.len()),
        ensures
            final(self).wf(),
            *final(self) == (Socket { conn: final(self).conn, ..*old(self) }),
            match (old(self).conn, r) {
                (Some(before), Some(d)) => {
                    &&& final(self).conn matches Some(after)
                    &&& after.socket_id == before.socket_id
                    &&& after.inner.send_buf == before.inner.send_buf
                    &&& delivers(before.inner, after.inner, *tcp_header, payload@, d)
                },
                (None, None) => final(self).conn is None,
                _ => false,
            },
    {
        match &mut self.conn {
            Some(conn) => Some(conn.inner.deliver(tcp_header, payload)),
            None => None,
        }
    }

    /// Whether `after` is what the socket becomes when it is asked for the segment that ends the
    /// connection, and `r` is that segment, where it is due.
    pub open spec fn ends(self, after: Socket, r: Option<Segment>) -> bool {
        match (self.state, r) {
            (TcpState::FinWait1(s), Some(segment)) => {
                let send = self.conn->0.inner.send_buf.inner@;
                &&& s.fin_seq_no is None
                &&& send.data.len() == 0
                &&& after == (Socket {
                    state: TcpState::FinWait1(
                        FinWait1 { fin_seq_no: Some(send.tail as u32), ..s },
                    ),
                    ..self
                })
                &&& segment.dest == s.remote_ip
                &&& segment.bytes@ == control_segment(
                    fin_header(s.local_port, s.remote_port, send.tail as u32),
                    s.src_ip,
                    s.remote_ip,
                )
            },
            (TcpState::FinWait1(s), None) => {
                &&& s.fin_seq_no is Some || self.conn->0.inner.send_buf.inner@.data.len() > 0
                &&& after == self
            },
            (_, Some(_)) => false,
            (_, None) => after == self,
        }
    }

    /// Once this end has closed and the remote has acknowledged all data, makes the segment that
    /// ends the connection, which has to be sent until it is acknowledged. It is made once.
    pub fn send_fin(&mut self) -> (r: Option<Segment>)
        requires
            old(self).wf(),
            old(self).state is FinWait1 ==> old(self).conn->0.inner.send_buf.inner@.head()
                <= u32::MAX,
        ensures
            final(self).wf(),
            old(self).ends(*final(self), r),
            match (old(self).state, r) {
                (TcpState::FinWait1(s), Some(segment)) => {
                    let send = old(self).conn->0.inner.send_buf.inner@;
                    &&& s.fin_seq_no is None
                    &&& send.data.len() == 0
                    &&& *final(self) == (Socket {
                        state: TcpState::FinWait1(
                            FinWait1 { fin_seq_no: Some(send.tail as u32), ..s },
                        ),
                        ..*old(self)
                    })
                    &&& segment.dest == s.remote_ip
                    &&& segment.bytes@ == control_segment(
                        fin_header(s.local_port, s.remote_port, send.tail as u32),
                        s.src_ip,
                        s.remote_ip,
                    )
                },
                (TcpState::FinWait1(s), None) => {
                    &&& s.fin_seq_no is Some || old(self).conn->0.inner.send_buf.inner@.data.len()
                        > 0
                    &&& *final(self) == *old(self)
                },
                (_, Some(_)) => false,
                (_, None) => *final(self) == *old(self),
            },
    {
        let s = match self.state {
            TcpState::FinWait1(s) => s,
            _ => return None,
        };
        if s.fin_seq_no.is_some() {
            return None;
        }
        let drained = match &self.conn {
            Some(conn) => conn.inner.drain_content_on_close(),
            None => None,
        };
        match drained {
            Some(fin_seq_no) => {
                proof {
                    self.conn->0.inner.send_buf.inner.lemma_wf();
                }
                let fin_seq_no: u32 = fin_seq_no as u32;
                let fin_packet = Established::make_shutdown_fin_packet(
                    fin_seq_no,
                    s.local_port,
                    s.remote_port,
                    s.src_ip,
                    s.remote_ip,
                );
                self.state = TcpState::FinWait1(FinWait1 { fin_seq_no: Some(fin_seq_no), ..s });
                Some(Segment { dest: s.remote_ip, bytes: fin_packet })
            },
            None => None,
        }
    }

    /// What the socket becomes when its write end is closed: that takes an established
    /// connection, or one that the remote has ended.
    pub open spec fn after_close(self, src_ip: Ipv4Addr) -> Option<Socket> {
        match self.state {
            TcpState::Established(s) => Some(
                Socket {
                    state: TcpState::FinWait1(s.closing(src_ip)),
                    conn: Some(write_closed(self.conn->0)),
                    ..self
                },
            ),
            TcpState::CloseWait(_) => Some(
                Socket {
                    state: TcpState::LastAck(LastAck {  }),
                    conn: Some(write_closed(self.conn->0)),
                    ..self
                },
            ),
            _ => None,
        }
    }

    /// What the socket becomes when its read end is closed: that takes an established
    /// connection.
    pub open spec fn after_close_read(self) -> Option<Socket> {
        match self.state {
            TcpState::Established(_) => Some(
                Socket { conn: Some(read_closed(self.conn->0)), ..self },
            ),
            _ => None,
        }
    }

    /// What the socket becomes when both ends are closed: that takes an established connection.
    pub open spec fn after_close_rw(self, src_ip: Ipv4Addr) -> Option<Socket> {
        match self.state {
            TcpState::Established(s) => Some(
                Socket {
                    state: TcpState::FinWait1(s.closing(src_ip)),
                    conn: Some(write_closed(read_closed(self.conn->0))),
                    ..self
                },
            ),
            _ => None,
        }
    }

    /// Closes the write end, and says whether the state allows that: a connection that is not
    /// established cannot be closed.
    pub fn close(&mut self, src_ip: Ipv4Addr) -> (r: bool)
        requires
            old(self).wf(),
        ensures
            final(self).wf(),
            r == old(self).after_close(src_ip) is Some,
            *final(self) == (match old(self).after_close(src_ip) {
                Some(s) => s,
                None => *old(self),
            }),
    {
        match self.state {
            TcpState::Established(s) => {
                match &mut self.conn {
                    Some(conn) => {
                        let state = s.active_close(conn, src_ip);
                        self.state = TcpState::FinWait1(state);
                    },
                    None => {},
                }
                true
            },
            TcpState::CloseWait(s) => {
                let id = self.id;
                let local_port = self.local_port();
                match &mut self.conn {
                    Some(conn) => {
                        let state = s.close(id, local_port, src_ip, conn);
                        self.state = TcpState::LastAck(state);
                    },
                    None => {},
                }
                true
            },
            _ => false,
        }
    }

    /// Closes the read end, and says whether the state allows that.
    pub fn close_read(&mut self) -> (r: bool)
        requires
            old(self).wf(),
        ensures
            final(self).wf(),
            r == old(self).after_close_read() is Some,
            *final(self) == (match old(self).after_close_read() {
                Some(s) => s,
                None => *old(self),
            }),
    {
        match self.state {
            TcpState::Established(_) => {
                match &mut self.conn {
                    Some(conn) => conn.close_read(),
                    None => {},
                }
                true
            },
            _ => false,
        }
    }

    /// Closes both ends, and says whether the state allows that.
    pub fn close_rw(&mut self, src_ip: Ipv4Addr) -> (r: bool)
        requires
            old(self).wf(),
        ensures
            final(self).wf(),
            r == old(self).after_close_rw(src_ip) is Some,
            *final(self) == (match old(self).after_close_rw(src_ip) {
                Some(s) => s,
                None => *old(self),
            }),
    {
        match self.state {
            TcpState::Established(s) => {
                match &mut self.conn {
                    Some(conn) => {
                        conn.close_read();
                        let state = s.active_close(conn, src_ip);
                        self.state = TcpState::FinWait1(state);
                    },
                    None => {},
                }
                true
            },
            _ => false,
        }
    }

    /// Whether the read end is closed, where the state tells.
    pub fn is_read_closed(&self) -> (r: Option<bool>)
        requires
            self.wf(),
        ensures
            r == (match self.state {
                TcpState::Established(_) | TcpState::FinWait1(_) | TcpState::FinWait2(_)
                | TcpState::CloseWait(_) => Some(!self.conn->0.inner.recv_buf.open),
                TcpState::Listen(_) | TcpState::Closing(_) | TcpState::TimeWait(_) => Some(true),
                _ => None,
            }),
    {
        match self.state {
            TcpState::Closed(_) => None,
            TcpState::SynSent(_) => None,
            TcpState::SynReceived(_) => None,
            TcpState::Listen(_) => Some(true),
            TcpState::Closing(_) => Some(true),
            TcpState::TimeWait(_) => Some(true),
            TcpState::LastAck(_) => None,
            _ => match &self.conn {
                Some(conn) => Some(conn.is_read_closed()),
                None => None,
            },
        }
    }

    /// The room that is left in the receive buffer, or the default where no segments are
    /// delivered.
    pub open spec fn local_window(self) -> int {
        match self.state {
            TcpState::Established(_) | TcpState::FinWait1(_) | TcpState::FinWait2(_)
            | TcpState::CloseWait(_) => TCP_DEFAULT_WINDOW_SZ
                - self.conn->0.inner.recv_buf.inner@.readable().len(),
            _ => TCP_DEFAULT_WINDOW_SZ as int,
        }
    }

    /// The window that the remote has sent last, or the default where no segments are
    /// delivered.
    pub open spec fn remote_window(self) -> int {
        match self.state {
            TcpState::Established(_) | TcpState::FinWait1(_) | TcpState::FinWait2(_)
            | TcpState::CloseWait(_) => self.conn->0.inner.send_buf.window_size as int,
            _ => TCP_DEFAULT_WINDOW_SZ as int,
        }
    }

    pub fn local_window_sz(&self) -> (r: usize)
        requires
            self.wf(),
            self.conn matches Some(conn) ==> conn.inner.recv_buf.ready(),
        ensures
            r == self.local_window(),
    {
        match self.state {
            TcpState::Established(_) | TcpState::FinWait1(_) | TcpState::FinWait2(_)
            | TcpState::CloseWait(_) => match &self.conn {
                Some(conn) => conn.inner.local_window_sz(),
                None => TCP_DEFAULT_WINDOW_SZ,
            },
            _ => TCP_DEFAULT_WINDOW_SZ,
        }
    }

    pub fn remote_window_sz(&self) -> (r: usize)
        requires
            self.wf(),
        ensures
            r == self.remote_window(),
    {
        match self.state {
            TcpState::Established(_) | TcpState::FinWait1(_) | TcpState::FinWait2(_)
            | TcpState::CloseWait(_) => match &self.conn {
                Some(conn) => conn.inner.remote_window_sz(),
                None => TCP_DEFAULT_WINDOW_SZ,
            },
            _ => TCP_DEFAULT_WINDOW_SZ,
        }
    }

    /// Descriptor, state and the windows of both ends, between tabs.
    pub open spec fn table_entry(self) -> Seq<char> {
        decimal(self.descriptor.0 as nat) + seq!['\t'] + status_text(status_of(self.state)) + seq![
            '\t',
            '\t',
        ] + decimal(self.local_window() as nat) + seq!['\t', '\t', '\t'] + decimal(
            self.remote_window() as nat,
        )
    }

    /// How the socket stands in a list.
    pub fn as_table_entry_string(&self) -> (r: String)
        requires
            self.wf(),
            self.conn matches Some(conn) ==> conn.inner.recv_buf.ready(),
        ensures
            r@ == self.table_entry(),
    {
        let mut r = show_number(self.descriptor.0 as u64);
        r.push('\t');
        r.append(show_status(self.status()).as_str());
        r.push('\t');
        r.push('\t');
        r.append(show_number(self.local_window_sz() as u64).as_str());
        r.push('\t');
        r.push('\t');
        r.push('\t');
        r.append(show_number(self.remote_window_sz() as u64).as_str());
        assert(r@ =~= self.table_entry());
        r
    }
}

/// The name of a state.
pub open spec fn status_text(status: SocketStatus) -> Seq<char> {
    match status {
        SocketStatus::Closed => "Closed"@,
        SocketStatus::SynSent => "SynSent"@,
        SocketStatus::SynReceived => "SynReceived"@,
        SocketStatus::Established => "Established"@,
        SocketStatus::Listen => "Listen"@,
        SocketStatus::FinWait1 => "FinWait1"@,
        SocketStatus::FinWait2 => "FinWait2"@,
        SocketStatus::Closing => "Closing"@,
        SocketStatus::TimeWait => "TimeWait"@,
        SocketStatus::CloseWait => "CloseWait"@,
        SocketStatus::LastAck => "LastAck"@,
    }
}

fn show_status(status: SocketStatus) -> (r: String)
    ensures
        r@ == status_text(status),
{
    match status {
        SocketStatus::Closed => String::from_str("Closed"),
        SocketStatus::SynSent => String::from_str("SynSent"),
        SocketStatus::SynReceived => String::from_str("SynReceived"),
        SocketStatus::Established => String::from_str("Established"),
        SocketStatus::Listen => String::from_str("Listen"),
        SocketStatus::FinWait1 => String::from_str("FinWait1"),
        SocketStatus::FinWait2 => String::from_str("FinWait2"),
        SocketStatus::Closing => String::from_str("Closing"),
        SocketStatus::TimeWait => String::from_str("TimeWait"),
        SocketStatus::CloseWait => String::from_str("CloseWait"),
        SocketStatus::LastAck => String::from_str("LastAck"),
    }
}

} // verus!
