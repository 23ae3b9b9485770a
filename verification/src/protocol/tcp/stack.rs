//! The sockets of a host.

use crate::addr::Ipv4Addr;
use crate::header::{
    calc_tcp_slice_checksum, is_tcp_header, law_written_segment_has_its_checksum,
    law_written_segment_reads_back, tcp_header_len, tcp_segment, tcp_slice_checksum, Ipv4Header,
    TcpHeader,
};
use crate::protocol::tcp::prelude::{listen_socket, Port, Remote, SocketDescriptor, SocketId};
use crate::protocol::tcp::socket::{
    control_segment, Closed, Segment, Socket, SynReceived, TcpState, Update,
};
use crate::protocol::tcp::{ListenTransitionError, TcpConnError, TcpListenError};
use vstd::prelude::*;

verus! {

/// Whether no socket has the name.
pub open spec fn unnamed(sockets: Seq<Socket>, id: SocketId) -> bool {
    forall|j: int| 0 <= j < sockets.len() ==> (#[trigger] sockets[j]).id != id
}

/// The name of the socket that a segment is for, where that is a connection.
pub open spec fn connection_of(remote_ip: Ipv4Addr, header: TcpHeader) -> SocketId {
    SocketId {
        remote: Remote { addr: remote_ip, port: Port(header.source_port) },
        local_port: Port(header.destination_port),
    }
}

/// Whether a socket in this state listens at a port.
pub open spec fn listens(state: TcpState, port: Port) -> bool {
    &&& state matches TcpState::Listen(s)
    &&& s.port == port
}

/// Whether a socket in this state has asked for a connection by a segment with the given bytes.
pub open spec fn connects(
    state: TcpState,
    id: SocketId,
    src_ip: Ipv4Addr,
    segment: Seq<u8>,
) -> bool {
    &&& state matches TcpState::SynSent(s)
    &&& s.socket_id() == id
    &&& segment == control_segment(
        (Closed { seq_no: (s.seq_no - 1) as u32 }).syn_header(id.local_port, id.remote.port),
        src_ip,
        id.remote.addr,
    )
}

/// A TCP stack.
pub struct Tcp {
    pub sockets: Vec<Socket>,
    /// The descriptor of the next socket.
    pub next_descriptor: u16,
}

/// The parts of a segment.
pub struct Received {
    pub header: TcpHeader,
    /// How many bytes the header has.
    pub header_len: usize,
    /// Whether the checksum is that of the segment.
    pub checksum_holds: bool,
}

impl Received {
    /// Whether these are the parts of the segment that a packet carries. The checksum is held
    /// against that of the header and the bytes behind it.
    pub open spec fn reads(self, ip_header: Ipv4Header, payload: Seq<u8>) -> bool {
        &&& self.header.reads(payload)
        &&& self.header_len == tcp_header_len(payload[12])
        &&& self.checksum_holds == (tcp_slice_checksum(
            payload,
            ip_header.source@,
            ip_header.destination@,
            payload.skip(self.header_len as int),
        ) == Some(self.header.checksum))
    }
}

/// What became of a segment.
pub enum Handled {
    /// It is for no socket.
    NoSocket,
    /// The socket at this place is not ready for it.
    NotReady(usize),
    /// The socket at this place went through a step.
    Updated(usize, Update),
}

impl Tcp {
    /// The sockets are in order, and no two have the same name or the same descriptor.
    pub open spec fn wf(self) -> bool {
        &&& forall|i: int| 0 <= i < self.sockets@.len() ==> (#[trigger] self.sockets@[i]).wf()
        &&& forall|i: int|
            0 <= i < self.sockets@.len() ==> (#[trigger] self.sockets@[i]).descriptor.0
                < self.next_descriptor
        &&& forall|i: int, j: int|
            0 <= i < j < self.sockets@.len() ==> (#[trigger] self.sockets@[i]).id != (
            #[trigger] self.sockets@[j]).id
        &&& forall|i: int, j: int|
            0 <= i < j < self.sockets@.len() ==> (#[trigger] self.sockets@[i]).descriptor != (
            #[trigger] self.sockets@[j]).descriptor
    }

    /// Whether there is a socket with the name that is not closed.
    pub open spec fn taken(self, id: SocketId) -> bool {
        exists|i: int|
            0 <= i < self.sockets@.len() && (#[trigger] self.sockets@[i]).id == id && !(
            self.sockets@[i].state is Closed)
    }

    /// The descriptor of the next socket once one with the name was opened: a new socket uses one
    /// up.
    pub open spec fn following(self, id: SocketId) -> int {
        if unnamed(self.sockets@, id) {
            self.next_descriptor + 1
        } else {
            self.next_descriptor as int
        }
    }

    /// Whether `after` are the sockets of this stack once one was opened, at place `i` and with the
    /// given descriptor: a new one, or one with the same name that was closed. No other socket
    /// changes.
    pub open spec fn opened(
        self,
        after: Seq<Socket>,
        id: SocketId,
        d: SocketDescriptor,
        i: int,
    ) -> bool {
        &&& 0 <= i < after.len()
        &&& after[i].id == id
        &&& after[i].descriptor == d
        &&& if unnamed(self.sockets@, id) {
            &&& after == self.sockets@.push(after[i])
            &&& i == self.sockets@.len()
            &&& d.0 == self.next_descriptor
        } else {
            &&& i < self.sockets@.len()
            &&& after == self.sockets@.update(i, after[i])
            &&& self.sockets@[i].id == id
            &&& self.sockets@[i].descriptor == d
            &&& self.sockets@[i].state is Closed
        }
    }

    /// Whether `after` are the sockets of this stack once one began to listen at a port.
    pub open spec fn listening(
        self,
        after: Seq<Socket>,
        port: Port,
        d: SocketDescriptor,
    ) -> bool {
        exists|i: int| #[trigger]
            self.opened(after, listen_socket(port), d, i) && listens(after[i].state, port)
    }

    /// Whether `after` are the sockets of this stack once one asked for a connection by a segment
    /// with the given bytes.
    pub open spec fn connecting(
        self,
        after: Seq<Socket>,
        id: SocketId,
        src_ip: Ipv4Addr,
        d: SocketDescriptor,
        segment: Seq<u8>,
    ) -> bool {
        exists|i: int| #[trigger]
            self.opened(after, id, d, i) && connects(after[i].state, id, src_ip, segment)
    }

    /// A stack without sockets.
    pub fn new() -> (r: Self)
        ensures
            r.wf(),
            r.sockets@.len() == 0,
            r.next_descriptor == 0,
    {
        Tcp { sockets: Vec::new(), next_descriptor: 0 }
    }

    /// The place of the socket with a name.
    pub fn find_socket(&self, id: SocketId) -> (r: Option<usize>)
        ensures
            match r {
                Some(i) => i < self.sockets@.len() && self.sockets@[i as int].id == id,
                None => unnamed(self.sockets@, id),
            },
    {
        let mut i: usize = 0;
        while i < self.sockets.len()
            invariant
                i <= self.sockets@.len(),
                forall|j: int| 0 <= j < i ==> (#[trigger] self.sockets@[j]).id != id,
            decreases self.sockets@.len() - i,
        {
            if self.sockets[i].id == id {
                return Some(i);
            }
            i = i + 1;
        }
        None
    }

    /// The place of the socket with a descriptor.
    pub fn find_descriptor(&self, descriptor: SocketDescriptor) -> (r: Option<usize>)
        ensures
            match r {
                Some(i) => i < self.sockets@.len() && self.sockets@[i as int].descriptor
                    == descriptor,
                None => forall|j: int|
                    0 <= j < self.sockets@.len() ==> (#[trigger] self.sockets@[j]).descriptor
                        != descriptor,
            },
    {
        let mut i: usize = 0;
        while i < self.sockets.len()
            invariant
                i <= self.sockets@.len(),
                forall|j: int|
                    0 <= j < i ==> (#[trigger] self.sockets@[j]).descriptor != descriptor,
            decreases self.sockets@.len() - i,
        {
            if self.sockets[i].descriptor == descriptor {
                return Some(i);
            }
            i = i + 1;
        }
        None
    }

    pub fn get_socket(&self, id: SocketId) -> (r: Option<&Socket>)
        ensures
            match r {
                Some(s) => s.id == id && self.sockets@.contains(*s),
                None => unnamed(self.sockets@, id),
            },
    {
        match self.find_socket(id) {
            Some(i) => Some(&self.sockets[i]),
            None => None,
        }
    }

    pub fn get_socket_by_descriptor(&self, descriptor: SocketDescriptor) -> (r: Option<&Socket>)
        ensures
            match r {
                Some(s) => s.descriptor == descriptor && self.sockets@.contains(*s),
                None => forall|j: int|
                    0 <= j < self.sockets@.len() ==> (#[trigger] self.sockets@[j]).descriptor
                        != descriptor,
            },
    {
        match self.find_descriptor(descriptor) {
            Some(i) => Some(&self.sockets[i]),
            None => None,
        }
    }

    pub fn get_socket_descriptor(&self, id: SocketId) -> (r: Option<SocketDescriptor>)
        ensures
            match r {
                Some(d) => exists|i: int|
                    0 <= i < self.sockets@.len() && (#[trigger] self.sockets@[i]).id == id
                        && self.sockets@[i].descriptor == d,
                None => unnamed(self.sockets@, id),
            },
    {
        match self.find_socket(id) {
            Some(i) => Some(self.sockets[i].descriptor()),
            None => None,
        }
    }

    /// Adds a socket under a name that is free, with the next descriptor.
    fn add(&mut self, socket: Socket)
        requires
            old(self).wf(),
            socket.wf(),
            socket.descriptor.0 == old(self).next_descriptor,
            old(self).next_descriptor < u16::MAX,
            unnamed(old(self).sockets@, socket.id),
        ensures
            final(self).wf(),
            final(self).sockets@ == old(self).sockets@.push(socket),
            final(self).next_descriptor == old(self).next_descriptor + 1,
    {
        self.next_descriptor = self.next_descriptor + 1;
        self.sockets.push(socket);
    }

    /// Begins to listen at a port. A socket that is there already must be closed.
    pub fn listen(&mut self, port: Port) -> (r: Result<SocketDescriptor, TcpListenError>)
        requires
            old(self).wf(),
            old(self).next_descriptor < u16::MAX,
        ensures
            final(self).wf(),
            r is Ok ==> old(self).listening(final(self).sockets@, port, r->Ok_0),
            r is Ok ==> final(self).next_descriptor == old(self).following(listen_socket(port)),
            r is Err ==> {
                &&& r->Err_0 == TcpListenError::Transition(ListenTransitionError::NotFromClosed)
                &&& old(self).taken(listen_socket(port))
                &&& final(self).sockets@ == old(self).sockets@
                &&& final(self).next_descriptor == old(self).next_descriptor
            },
    {
        let id = SocketId::for_listen_socket(port);
        match self.find_socket(id) {
            Some(i) => {
                let socket = &mut self.sockets[i];
                let descriptor = socket.descriptor();
                let listened = socket.listen(port);
                proof {
                    lemma_same_names(*old(self), *self, i as int);
                    assert(self.sockets@[i as int].id == id);
                }
                match listened {
                    Ok(_) => {
                        assert(old(self).opened(self.sockets@, id, descriptor, i as int));
                        assert(old(self).listening(self.sockets@, port, descriptor));
                        Ok(descriptor)
                    },
                    Err(e) => {
                        proof {
                            assert(self.sockets@ =~= old(self).sockets@);
                        }
                        Err(TcpListenError::Transition(e))
                    },
                }
            },
            None => {
                let descriptor = SocketDescriptor(self.next_descriptor);
                let mut socket = Socket::new(id, descriptor);
                let _ = socket.listen(port);
                self.add(socket);
                assert(old(self).opened(
                    self.sockets@,
                    id,
                    descriptor,
                    old(self).sockets@.len() as int,
                ));
                assert(old(self).listening(self.sockets@, port, descriptor));
                Ok(descriptor)
            },
        }
    }

    /// Begins to connect to a remote from a local port. A socket that is there already must be
    /// closed. The result is the descriptor, and the segment that has to be sent until it is
    /// acknowledged.
    pub fn connect(&mut self, local_port: Port, remote: Remote, src_ip: Ipv4Addr) -> (r: Result<
        (SocketDescriptor, Segment),
        TcpConnError,
    >)
        requires
            old(self).wf(),
            old(self).next_descriptor < u16::MAX,
        ensures
            final(self).wf(),
            r is Ok ==> (r->Ok_0).1.dest == remote.addr,
            r is Ok ==> final(self).next_descriptor == old(self).following(
                SocketId { remote, local_port },
            ),
            r is Ok ==> old(self).connecting(
                final(self).sockets@,
                SocketId { remote, local_port },
                src_ip,
                (r->Ok_0).0,
                (r->Ok_0).1.bytes@,
            ),
            r is Err ==> {
                &&& r->Err_0 == TcpConnError::ConnectionExists(remote)
                &&& old(self).taken(SocketId { remote, local_port })
                &&& final(self).sockets@ == old(self).sockets@
                &&& final(self).next_descriptor == old(self).next_descriptor
            },
    {
        let id = SocketId { remote, local_port };
        match self.find_socket(id) {
            Some(i) => {
                let socket = &mut self.sockets[i];
                let descriptor = socket.descriptor();
                let connected = socket.initiate_connection(src_ip);
                proof {
                    lemma_same_names(*old(self), *self, i as int);
                    assert(self.sockets@[i as int].id == id);
                }
                match connected {
                    Ok(segment) => {
                        assert(old(self).opened(self.sockets@, id, descriptor, i as int));
                        assert(old(self).connecting(
                            self.sockets@,
                            id,
                            src_ip,
                            descriptor,
                            segment.bytes@,
                        ));
                        Ok((descriptor, segment))
                    },
                    Err(e) => {
                        proof {
                            assert(self.sockets@ =~= old(self).sockets@);
                        }
                        Err(e)
                    },
                }
            },
            None => {
                let descriptor = SocketDescriptor(self.next_descriptor);
                let mut socket = Socket::new(id, descriptor);
                match socket.initiate_connection(src_ip) {
                    Ok(segment) => {
                        self.add(socket);
                        assert(old(self).opened(
                            self.sockets@,
                            id,
                            descriptor,
                            old(self).sockets@.len() as int,
                        ));
                        assert(old(self).connecting(
                            self.sockets@,
                            id,
                            src_ip,
                            descriptor,
                            segment.bytes@,
                        ));
                        Ok((descriptor, segment))
                    },
                    Err(e) => Err(e),
                }
            },
        }
    }

    /// Whether `after` is the stack once the connection that a listening socket took has a socket,
    /// with the descriptor `r` where it is a new one.
    pub open spec fn took(
        self,
        after: Self,
        syn_recvd: SynReceived,
        r: Option<SocketDescriptor>,
    ) -> bool {
        match r {
            Some(d) => {
                &&& unnamed(self.sockets@, syn_recvd.socket_id())
                &&& d.0 == self.next_descriptor
                &&& after.next_descriptor == self.next_descriptor + 1
                &&& after.sockets@ == self.sockets@.push(
                    Socket {
                        id: syn_recvd.socket_id(),
                        descriptor: d,
                        state: TcpState::SynReceived(syn_recvd),
                        conn: None,
                    },
                )
            },
            None => !unnamed(self.sockets@, syn_recvd.socket_id()) && after == self,
        }
    }

    /// Adds the socket of a connection that a listening socket took, unless there is one.
    pub fn add_syn_received(&mut self, syn_recvd: SynReceived) -> (r: Option<SocketDescriptor>)
        requires
            old(self).wf(),
            old(self).next_descriptor < u16::MAX,
            syn_recvd.seq_no <= 65535,
        ensures
            final(self).wf(),
            old(self).took(*final(self), syn_recvd, r),
            match r {
                Some(d) => {
                    &&& unnamed(old(self).sockets@, syn_recvd.socket_id())
                    &&& d.0 == old(self).next_descriptor
                    &&& final(self).next_descriptor == old(self).next_descriptor + 1
                    &&& final(self).sockets@ == old(self).sockets@.push(
                        Socket {
                            id: syn_recvd.socket_id(),
                            descriptor: d,
                            state: TcpState::SynReceived(syn_recvd),
                            conn: None,
                        },
                    )
                },
                None => !unnamed(old(self).sockets@, syn_recvd.socket_id()) && *final(self)
                    == *old(self),
            },
    {
        let id = SocketId {
            remote: Remote::new(syn_recvd.remote_ip, syn_recvd.remote_port),
            local_port: syn_recvd.local_port,
        };
        match self.find_socket(id) {
            Some(i) => {
                assert(self.sockets@[i as int].id == id);
                None
            },
            None => {
                let descriptor = SocketDescriptor(self.next_descriptor);
                self.add(syn_recvd.into_socket(id, descriptor));
                Some(descriptor)
            },
        }
    }

    /// Removes the socket with a name.
    pub fn remove(&mut self, id: SocketId)
        requires
            old(self).wf(),
        ensures
            final(self).wf(),
            final(self).next_descriptor == old(self).next_descriptor,
            unnamed(final(self).sockets@, id),
            forall|s: Socket|
                s.id != id ==> (#[trigger] final(self).sockets@.contains(s) <==> old(
                    self,
                ).sockets@.contains(s)),
    {
        match self.find_socket(id) {
            Some(i) => {
                let ghost before = self.sockets@;
                let _ = self.sockets.remove(i);
                proof {
                    let after = self.sockets@;
                    assert(after == before.remove(i as int));
                    assert forall|j: int| 0 <= j < after.len() implies (#[trigger] after[j]).id
                        != id by {
                        if j < i {
                            assert(after[j] == before[j]);
                        } else {
                            assert(after[j] == before[j + 1]);
                        }
                    }
                    assert forall|s: Socket| s.id != id implies (#[trigger] after.contains(s)
                        <==> before.contains(s)) by {
                        if before.contains(s) {
                            let k = choose|k: int| 0 <= k < before.len() && before[k] == s;
                            if k < i {
                                assert(after[k] == s);
                            } else {
                                assert(after[k - 1] == s);
                            }
                        }
                        if after.contains(s) {
                            let k = choose|k: int| 0 <= k < after.len() && after[k] == s;
                            if k < i {
                                assert(before[k] == s);
                            } else {
                                assert(before[k + 1] == s);
                            }
                        }
                    }
                }
            },
            None => {},
        }
    }

    /// Whether `i` is the place of the socket that a segment is for: the socket of the connection,
    /// or where there is none, the socket that listens at the port.
    pub open spec fn is_receiver(self, remote_ip: Ipv4Addr, header: TcpHeader, i: int) -> bool {
        let conn = connection_of(remote_ip, header);
        &&& 0 <= i < self.sockets@.len()
        &&& if unnamed(self.sockets@, conn) {
            self.sockets@[i].id == listen_socket(Port(header.destination_port))
        } else {
            self.sockets@[i].id == conn
        }
    }

    /// The place of the socket that a segment is for.
    pub fn find_receiver(&self, remote_ip: Ipv4Addr, header: &TcpHeader) -> (r: Option<usize>)
        ensures
            match r {
                Some(i) => self.is_receiver(remote_ip, *header, i as int),
                None => {
                    &&& unnamed(self.sockets@, connection_of(remote_ip, *header))
                    &&& unnamed(self.sockets@, listen_socket(Port(header.destination_port)))
                },
            },
    {
        let conn = SocketId {
            remote: Remote::new(remote_ip, Port(header.source_port)),
            local_port: Port(header.destination_port),
        };
        match self.find_socket(conn) {
            Some(i) => {
                assert(self.sockets@[i as int].id == conn);
                Some(i)
            },
            None => self.find_socket(
                SocketId::for_listen_socket(Port(header.destination_port)),
            ),
        }
    }

    /// Reads the header of the segment that a packet carries, where there is one.
    pub fn read_segment(ip_header: &Ipv4Header, payload: &[u8]) -> (r: Option<Received>)
        ensures
            match r {
                Some(received) => received.reads(*ip_header, payload@),
                None => !is_tcp_header(payload@),
            },
    {
        let (header, header_len) = match TcpHeader::from_slice(payload) {
            Some(parsed) => parsed,
            None => return None,
        };
        let data: &[u8] = &payload[header_len..payload.len()];
        assert(data@ =~= payload@.skip(header_len as int));
        let expected = calc_tcp_slice_checksum(
            payload,
            ip_header.source.octets(),
            ip_header.destination.octets(),
            data,
        );
        let checksum_holds = match expected {
            Some(checksum) => checksum == header.checksum,
            None => false,
        };
        Some(Received { header, header_len, checksum_holds })
    }

    /// Whether `after` is the stack once a segment was passed to the socket that it is for, and
    /// `handled` says what became of it. No other socket changes.
    pub open spec fn passed(
        self,
        after: Self,
        ip_header: Ipv4Header,
        header: TcpHeader,
        payload: Seq<u8>,
        src_ip: Ipv4Addr,
        handled: Handled,
    ) -> bool {
        &&& after.next_descriptor == self.next_descriptor
        &&& match handled {
            Handled::NoSocket => {
                &&& unnamed(self.sockets@, connection_of(ip_header.source, header))
                &&& unnamed(self.sockets@, listen_socket(Port(header.destination_port)))
                &&& after.sockets@ == self.sockets@
            },
            Handled::NotReady(i) => {
                &&& self.is_receiver(ip_header.source, header, i as int)
                &&& !self.sockets@[i as int].accepts(header, payload)
                &&& after.sockets@ == self.sockets@
            },
            Handled::Updated(i, update) => {
                &&& self.is_receiver(ip_header.source, header, i as int)
                &&& self.sockets@[i as int].accepts(header, payload)
                &&& after.sockets@ == self.sockets@.update(i as int, after.sockets@[i as int])
                &&& self.sockets@[i as int].steps(
                    after.sockets@[i as int],
                    ip_header,
                    header,
                    payload,
                    src_ip,
                    update,
                )
            },
        }
    }

    /// Passes a segment to the socket that it is for, where there is one that is ready for it. The
    /// address `src_ip` is that of the interface through which the remote is reached.
    pub fn handle_segment(
        &mut self,
        ip_header: &Ipv4Header,
        header: &TcpHeader,
        payload: &[u8],
        src_ip: Ipv4Addr,
    ) -> (r: Handled)
        requires
            old(self).wf(),
        ensures
            final(self).wf(),
            old(self).passed(*final(self), *ip_header, *header, payload@, src_ip, r),
    {
        match self.find_receiver(ip_header.source, header) {
            Some(i) => {
                assert(self.sockets@[i as int].wf());
                if !self.sockets[i].is_ready_for(header, payload) {
                    return Handled::NotReady(i);
                }
                let socket = &mut self.sockets[i];
                let update = socket.handle_packet(ip_header, header, payload, src_ip);
                proof {
                    lemma_same_names(*old(self), *self, i as int);
                }
                Handled::Updated(i, update)
            },
            None => Handled::NoSocket,
        }
    }

    /// Passes the segment that a packet carries to the socket that it is for. A checksum that does
    /// not hold does not stop it. Where the packet carries no segment, nothing happens.
    pub fn handle_packet(&mut self, ip_header: &Ipv4Header, payload: &[u8], src_ip: Ipv4Addr) -> (r:
        Option<(Received, Handled)>)
        requires
            old(self).wf(),
        ensures
            final(self).wf(),
            match r {
                Some((received, handled)) => {
                    &&& received.reads(*ip_header, payload@)
                    &&& old(self).passed(
                        *final(self),
                        *ip_header,
                        received.header,
                        payload@.skip(received.header_len as int),
                        src_ip,
                        handled,
                    )
                },
                None => !is_tcp_header(payload@) && *final(self) == *old(self),
            },
    {
        match Tcp::read_segment(ip_header, payload) {
            Some(received) => {
                let tcp_payload = &payload[received.header_len..payload.len()];
                assert(tcp_payload@ =~= payload@.skip(received.header_len as int));
                let handled = self.handle_segment(
                    ip_header,
                    &received.header,
                    tcp_payload,
                    src_ip,
                );
                Some((received, handled))
            },
            None => None,
        }
    }
}

/// A socket that keeps its name and descriptor keeps the stack in order.
proof fn lemma_same_names(before: Tcp, after: Tcp, i: int)
    requires
        before.wf(),
        0 <= i < before.sockets@.len(),
        after.next_descriptor == before.next_descriptor,
        after.sockets@ == before.sockets@.update(i, after.sockets@[i]),
        after.sockets@[i].wf(),
        after.sockets@[i].id == before.sockets@[i].id,
        after.sockets@[i].descriptor == before.sockets@[i].descriptor,
    ensures
        after.wf(),
{
    assert forall|a: int, b: int| 0 <= a < b < after.sockets@.len() implies (
    #[trigger] after.sockets@[a]).id != (#[trigger] after.sockets@[b]).id by {
        assert(before.sockets@[a].id != before.sockets@[b].id);
    }
    assert forall|a: int, b: int| 0 <= a < b < after.sockets@.len() implies (
    #[trigger] after.sockets@[a]).descriptor != (#[trigger] after.sockets@[b]).descriptor by {
        assert(before.sockets@[a].descriptor != before.sockets@[b].descriptor);
    }
}

/// A segment that was written is received with the fields that it was written with, and its
/// checksum holds.
pub proof fn law_written_segment_is_received(
    received: Received,
    ip_header: Ipv4Header,
    sent: TcpHeader,
    payload: Seq<u8>,
)
    requires
        20 + payload.len() <= 65535,
        received.reads(
            ip_header,
            tcp_segment(sent, ip_header.source, ip_header.destination, payload),
        ),
    ensures
        received.checksum_holds,
        received.header_len == 20,
        received.header == (TcpHeader { checksum: received.header.checksum, ..sent }),
{
    let (src, dst) = (ip_header.source, ip_header.destination);
    law_written_segment_reads_back(sent, src, dst, payload, received.header);
    law_written_segment_has_its_checksum(sent, src, dst, payload);
}

/// A segment is for one socket only.
pub proof fn law_segment_has_one_receiver(
    tcp: Tcp,
    remote_ip: Ipv4Addr,
    header: TcpHeader,
    i: int,
    j: int,
)
    requires
        tcp.wf(),
        tcp.is_receiver(remote_ip, header, i),
        tcp.is_receiver(remote_ip, header, j),
    ensures
        i == j,
{
    if i < j {
        assert(tcp.sockets@[i].id != tcp.sockets@[j].id);
    }
    if j < i {
        assert(tcp.sockets@[j].id != tcp.sockets@[i].id);
    }
}

} // verus!
