//! Hosts that talk to each other.

use ip::addr::Ipv4Addr;
use ip::args::Args;
use ip::cli::exec::{execute_command, sockets_text, Effect};
use ip::cli::{shutdown, Cli, TcpShutdownKind};
use ip::drop_policy::DropFactor;
use ip::header::Ipv4Header;
use ip::message::Message;
use ip::net::vtlink::fwd::{Entry, ForwardingTable};
use ip::net::vtlink::link::{Datagram, Error, LinkDefinition, VtLinkLayer};
use ip::net::vtlink::{PacketOutcome, VtLinkNet, VtLinkNetConfig};
use ip::net::SendError;
use ip::node::{Node, NodeBuilder};
use ip::protocol::rip::{Command, Entry as RipEntry, RipHandler, RipMessage};
use ip::protocol::tcp::conn::{Delivery, Sending};
use ip::protocol::tcp::prelude::{Port, Remote, SocketDescriptor, SocketId};
use ip::protocol::tcp::socket::{Segment, SocketStatus, UpdateAction};
use ip::protocol::tcp::stack::{Handled, Tcp};
use ip::protocol::tcp::transport::{
    RtxConfig, SingleMessageTransport, TcpTransport, Transmission, TransmissionError,
    TransportEvent,
};
use ip::protocol::tcp::{
    ListenTransitionError, TcpConnError, TcpListenError, TcpReadError, TcpSendError,
    TCP_DEFAULT_WINDOW_SZ,
};
use ip::protocol::test::TestHandler;
use ip::protocol::Protocol;
use ip::time::Duration;
use std::collections::VecDeque;
use std::time::Instant;

fn lines(text: &str) -> Vec<Result<String, std::io::Error>> {
    text.lines().map(|l| Ok(l.to_string())).collect()
}

fn a_args() -> Args {
    Args::try_parse(lines("localhost 5000\nlocalhost 5001 192.168.0.1 192.168.0.2\n")).unwrap()
}

fn b_args() -> Args {
    let text = "localhost 5001\n\
                localhost 5000 192.168.0.2 192.168.0.1\n\
                localhost 5002 192.168.0.3 192.168.0.4\n";
    Args::try_parse(lines(text)).unwrap()
}

fn c_args() -> Args {
    Args::try_parse(lines("localhost 5002\nlocalhost 5001 192.168.0.4 192.168.0.3\n")).unwrap()
}

/// A host, its transports, and what it has shown.
struct Host {
    port: u16,
    node: Node<Protocol>,
    transports: Vec<(SocketId, TcpTransport<TCP_DEFAULT_WINDOW_SZ>)>,
    shown: String,
}

impl Host {
    fn new(args: &Args) -> Host {
        let node = NodeBuilder::new(args)
            .with_protocol_handler(Protocol::Rip, Protocol::Rip)
            .with_protocol_handler(Protocol::Test, Protocol::Test)
            .build(Protocol::Tcp);
        Host {
            port: args.host_port,
            node,
            transports: Vec::new(),
            shown: String::new(),
        }
    }

    fn send(&self, segment: &Segment) -> Datagram {
        self.node.send(&segment.bytes, Protocol::Tcp.into(), segment.dest).unwrap()
    }

    /// Handles the bytes of a packet. The result is what has to be sent.
    fn receive(&mut self, bytes: &[u8]) -> Vec<Datagram> {
        let mut out = Vec::new();
        match self.node.net.handle_packet_bytes(bytes) {
            PacketOutcome::Forwarded(Some(d)) => out.push(d),
            PacketOutcome::Consumed(protocol, header) => {
                let payload = &bytes[20..];
                match self.node.handler_for(protocol) {
                    Some(Protocol::Rip) => {
                        assert!(RipMessage::is_well_formed(payload));
                        let handler = RipHandler::default();
                        out.extend(handler.handle_packet(&header, payload, &mut self.node.net));
                    }
                    Some(Protocol::Test) => {
                        let handler = TestHandler::default();
                        self.shown.push_str(&handler.handle_packet(&header, payload));
                    }
                    Some(Protocol::Tcp) => out.extend(self.receive_segment(&header, payload)),
                    None => {}
                }
            }
            _ => {}
        }
        out
    }

    fn receive_segment(&mut self, ip_header: &Ipv4Header, payload: &[u8]) -> Vec<Datagram> {
        let mut out = Vec::new();
        let src_ip = self.node.net.get_outbound_ip(ip_header.source).unwrap();
        let (received, handled) =
            self.node.tcp.handle_packet(ip_header, payload, src_ip).unwrap();
        let data = &payload[received.header_len..];
        match handled {
            Handled::Updated(i, update) => {
                if update.established {
                    let conn = self.node.tcp.sockets[i].conn.as_ref().unwrap();
                    let transport =
                        TcpTransport::init(&conn.inner.send_buf, *conn.remote(), conn.local_port());
                    self.transports.push((conn.socket_id(), transport));
                }
                if let Some(segment) = &update.segment {
                    out.push(self.send(segment));
                }
                match &update.action {
                    Some(UpdateAction::NewSynReceivedSocket(syn_recvd, segment)) => {
                        self.node.tcp.add_syn_received(*syn_recvd).unwrap();
                        out.push(self.send(segment));
                    }
                    Some(UpdateAction::CloseSocket(id)) => self.node.tcp.remove(*id),
                    None => {}
                }
                if let Some(Delivery::Done(acks)) = update.delivery {
                    let conn = self.node.tcp.sockets[i].conn.as_ref().unwrap();
                    let id = conn.socket_id();
                    let t = self.transports.iter_mut().find(|t| t.0 == id).unwrap();
                    t.1.on_window_updated(received.header.window_size);
                    t.1.on_last_byte_acked_updated(conn.inner.send_buf.tail());
                    if !data.is_empty() {
                        for _ in 0..acks {
                            let ack = t.1.send_ack(&self.node.net, &conn.inner.recv_buf);
                            out.push(ack.unwrap());
                        }
                    }
                }
            }
            _ => panic!("the segment is for a socket that is ready"),
        }
        out
    }

    /// Sends a segment of the data that waits.
    fn push_data(&mut self, id: SocketId) -> Vec<Datagram> {
        let socket = self.node.tcp.get_socket(id).unwrap();
        let conn = socket.conn.as_ref().unwrap();
        let t = self.transports.iter_mut().find(|t| t.0 == id).unwrap();
        let (open, sent) =
            t.1.on_new_data(&self.node.net, &conn.inner.send_buf, &conn.inner.recv_buf);
        assert!(open);
        sent.into_iter().collect()
    }

    fn socket_index(&self, d: SocketDescriptor) -> usize {
        self.node.tcp.find_descriptor(d).unwrap()
    }

    fn status(&self, d: SocketDescriptor) -> SocketStatus {
        self.node.tcp.get_socket_by_descriptor(d).unwrap().status()
    }
}

/// Delivers datagrams until none are left.
fn pump(hosts: &mut [Host], first: Vec<Datagram>) {
    let mut wire: VecDeque<Datagram> = first.into_iter().collect();
    while let Some(d) = wire.pop_front() {
        for host in hosts.iter_mut() {
            if host.port == d.port {
                wire.extend(host.receive(&d.bytes));
            }
        }
    }
}

/// Begins to send bytes over a connection, where there is room for all of them.
fn begin_to_send(host: &mut Host, i: usize, bytes: &[u8]) -> Sending {
    let conn = host.node.tcp.sockets[i].conn.as_ref().unwrap();
    let head = conn.inner.send_buf.head();
    let sending = host.node.tcp.sockets[i].send_all(bytes, Sending::new()).unwrap().unwrap();
    assert_eq!(
        sending,
        Sending { written: bytes.len(), start: head, end: head + bytes.len() }
    );
    sending
}

/// Goes on sending bytes over a connection.
fn go_on_sending(
    host: &mut Host,
    i: usize,
    bytes: &[u8],
    sending: Sending,
) -> Result<Option<Sending>, TcpSendError> {
    host.node.tcp.sockets[i].conn.as_mut().unwrap().send_all(bytes, sending)
}

fn advertise_all(hosts: &mut [Host]) {
    for i in 0..hosts.len() {
        let updates = hosts[i].node.net.periodic_rip_update();
        pump(hosts, updates);
    }
}

fn two_hosts() -> Vec<Host> {
    let mut hosts = vec![Host::new(&a_args()), Host::new(&b_args())];
    advertise_all(&mut hosts);
    hosts
}

/// Connects the first host to a port of the second.
fn connected(port: Port) -> (Vec<Host>, SocketDescriptor, SocketDescriptor) {
    let mut hosts = two_hosts();
    hosts[1].node.tcp.listen(port).unwrap();
    let dest_ip = b_args().get_my_interface_ips()[0];
    let src_ip = hosts[0].node.net.get_outbound_ip(dest_ip).unwrap();
    let (d, segment) = hosts[0]
        .node
        .tcp
        .connect(Port(7777), Remote::new(dest_ip, port), src_ip)
        .unwrap();
    assert_eq!(hosts[0].status(d), SocketStatus::SynSent);
    let syn = vec![hosts[0].send(&segment)];
    pump(&mut hosts, syn);
    let accepted = hosts[1]
        .node
        .tcp
        .get_socket_descriptor(SocketId {
            remote: Remote::new(src_ip, Port(7777)),
            local_port: port,
        })
        .unwrap();
    (hosts, d, accepted)
}

#[test]
fn hello_world() {
    // Establishes a connection and sends some bytes.
    let payload = "hello world!";
    let recv_listen_port = 5656;
    let (mut hosts, sender, receiver) = connected(Port(recv_listen_port));
    assert_eq!(hosts[0].status(sender), SocketStatus::Established);
    assert_eq!(hosts[1].status(receiver), SocketStatus::Established);

    let i = hosts[0].socket_index(sender);
    let bytes = payload.to_string().into_bytes();
    let sending = begin_to_send(&mut hosts[0], i, &bytes);
    let id = hosts[0].node.tcp.sockets[i].id();
    // The first try finds less than a whole segment, the second sends what there is.
    let none = hosts[0].push_data(id);
    assert!(none.is_empty());
    let data = hosts[0].push_data(id);
    assert_eq!(data.len(), 1);
    // What is on its way has not been acknowledged.
    assert_eq!(go_on_sending(&mut hosts[0], i, &bytes, sending), Ok(Some(sending)));
    pump(&mut hosts, data);
    assert_eq!(go_on_sending(&mut hosts[0], i, &bytes, sending), Ok(None));

    let mut buf = [0; 12];
    let j = hosts[1].socket_index(receiver);
    let read = hosts[1].node.tcp.sockets[j].read_all(&mut buf, 0);
    assert_eq!(read, Ok(None));
    assert_eq!(String::from_utf8(buf.into()).unwrap(), payload.to_string());

    // All of it has been acknowledged.
    let conn = hosts[0].node.tcp.sockets[i].conn.as_ref().unwrap();
    assert!(conn.inner.send_buf.inner.is_empty());
}

#[test]
fn connections_are_closed_from_both_ends() {
    let (mut hosts, d, e) = connected(Port(80));
    let i = hosts[0].socket_index(d);
    let j = hosts[1].socket_index(e);
    let a_ip = Ipv4Addr::new(192, 168, 0, 1);
    let b_ip = Ipv4Addr::new(192, 168, 0, 2);

    assert!(shutdown(&mut hosts[0].node.tcp.sockets[i], TcpShutdownKind::Write, a_ip));
    assert_eq!(hosts[0].status(d), SocketStatus::FinWait1);
    assert_eq!(
        hosts[0].node.tcp.sockets[i].send_all(b"x", Sending::new()),
        Err(TcpSendError::ConnClosed)
    );
    let fin = hosts[0].node.tcp.sockets[i].send_fin().unwrap();
    assert!(hosts[0].node.tcp.sockets[i].send_fin().is_none());
    let fin = vec![hosts[0].send(&fin)];
    pump(&mut hosts, fin);
    assert_eq!(hosts[1].status(e), SocketStatus::CloseWait);
    assert_eq!(hosts[0].status(d), SocketStatus::FinWait2);
    assert_eq!(hosts[1].node.tcp.sockets[j].is_read_closed(), Some(true));
    assert_eq!(hosts[0].node.tcp.sockets[i].is_read_closed(), Some(false));

    assert!(!shutdown(&mut hosts[1].node.tcp.sockets[j], TcpShutdownKind::Read, b_ip));
    assert!(!shutdown(&mut hosts[1].node.tcp.sockets[j], TcpShutdownKind::ReadWrite, b_ip));
    assert!(shutdown(&mut hosts[1].node.tcp.sockets[j], TcpShutdownKind::Write, b_ip));
    assert_eq!(hosts[1].status(e), SocketStatus::LastAck);
}

#[test]
fn simultaneous_closes_are_acknowledged() {
    let a_ip = Ipv4Addr::new(192, 168, 0, 1);
    let b_ip = Ipv4Addr::new(192, 168, 0, 2);
    let between = |source, destination| Ipv4Header {
        payload_len: 20,
        ttl: 1,
        protocol: 6,
        header_checksum: 0,
        source,
        destination,
        slice: Vec::new(),
    };
    for (ack, status) in [(true, SocketStatus::TimeWait), (false, SocketStatus::Closing)] {
        let (mut hosts, d, _) = connected(Port(80));
        let tcp = &mut hosts[0].node.tcp;
        let i = tcp.find_descriptor(d).unwrap();
        assert!(shutdown(&mut tcp.sockets[i], TcpShutdownKind::Write, a_ip));
        let mut fin = ip::header::TcpHeader::new(80, 7777, 40, 100);
        fin.fin = true;
        fin.ack = ack;
        let handled = tcp.handle_segment(&between(b_ip, a_ip), &fin, &[], a_ip);
        let Handled::Updated(_, update) = handled else { panic!("the socket is ready") };
        assert_eq!(tcp.sockets[i].status(), status);
        let segment = update.segment.unwrap();
        assert_eq!(segment.dest, b_ip);
        let received = Tcp::read_segment(&between(a_ip, b_ip), &segment.bytes).unwrap();
        assert!(received.checksum_holds);
        assert!(received.header.ack);
        assert_eq!(received.header.acknowledgment_number, 41);
    }
}

#[test]
fn buffers_are_larger_than_the_window_field() {
    assert_eq!(TCP_DEFAULT_WINDOW_SZ, 1 << 16);
    let (mut hosts, d, _) = connected(Port(80));
    let i = hosts[0].socket_index(d);
    let host = &mut hosts[0];
    assert_eq!(host.node.tcp.sockets[i].local_window_sz(), 65536);
    let t = &mut host.transports[0].1;
    assert_eq!(t.remaining_window_sz, 65536);

    // A window that is larger is announced as the most that the field can say.
    let conn = host.node.tcp.sockets[i].conn.as_mut().unwrap();
    for window in [65535, 65535, 65534] {
        let ack = t.send_ack(&host.node.net, &conn.inner.recv_buf).unwrap();
        let (header, _) = ip::header::TcpHeader::from_slice(&ack.bytes[20..]).unwrap();
        assert_eq!(header.window_size, window);
        let next = conn.inner.recv_buf.head();
        assert!(conn.inner.recv_buf.write(next, &[7]).unwrap());
    }
}

#[test]
fn local_ports_are_not_well_known() {
    let ports: Vec<Port> = (0..100).map(|_| Port::random()).collect();
    assert!(ports.iter().all(|p| (1024..65535).contains(&p.0)));
    assert!(ports.iter().any(|p| *p != ports[0]));
}

#[test]
fn read_ends_are_closed() {
    let (mut hosts, d, _) = connected(Port(80));
    let i = hosts[0].socket_index(d);
    let a_ip = Ipv4Addr::new(192, 168, 0, 1);
    assert!(shutdown(&mut hosts[0].node.tcp.sockets[i], TcpShutdownKind::Read, a_ip));
    assert_eq!(hosts[0].status(d), SocketStatus::Established);
    let mut buf = [0; 1];
    assert_eq!(
        hosts[0].node.tcp.sockets[i].read_all(&mut buf, 0),
        Err(TcpReadError::Closed(0))
    );
    assert!(shutdown(&mut hosts[0].node.tcp.sockets[i], TcpShutdownKind::ReadWrite, a_ip));
    assert_eq!(hosts[0].status(d), SocketStatus::FinWait1);
}

#[test]
fn sockets_are_opened_once() {
    let mut tcp = Tcp::new();
    let d = tcp.listen(Port(80)).unwrap();
    assert_eq!(d, SocketDescriptor(0));
    assert_eq!(
        tcp.listen(Port(80)),
        Err(TcpListenError::Transition(ListenTransitionError::NotFromClosed))
    );
    let remote = Remote::new(Ipv4Addr::new(10, 0, 0, 1), Port(90));
    let me = Ipv4Addr::new(10, 0, 0, 2);
    let (e, segment) = tcp.connect(Port(1), remote, me).unwrap();
    assert_eq!(e, SocketDescriptor(1));
    assert_eq!(segment.dest, Ipv4Addr::new(10, 0, 0, 1));
    assert!(matches!(
        tcp.connect(Port(1), remote, me),
        Err(TcpConnError::ConnectionExists(r)) if r == remote
    ));
    let mut byte = [0];
    assert_eq!(
        tcp.sockets[1].send_all(b"x", Sending::new()),
        Err(TcpSendError::ConnNotEstablished)
    );
    assert_eq!(
        tcp.sockets[0].read_all(&mut byte, 0),
        Err(TcpReadError::ConnNotEstablished)
    );
    tcp.remove(SocketId::for_listen_socket(Port(80)));
    assert!(tcp.get_socket_by_descriptor(d).is_none());
    assert!(tcp.get_socket_by_descriptor(e).is_some());
}

#[test]
fn handshakes_carry_consecutive_numbers() {
    let mut tcp = Tcp::new();
    let remote = Remote::new(Ipv4Addr::new(10, 0, 0, 1), Port(90));
    let me = Ipv4Addr::new(10, 0, 0, 2);
    let (_, first) = tcp.connect(Port(1), remote, me).unwrap();
    let ip = Ipv4Header {
        payload_len: 0,
        ttl: 1,
        protocol: 6,
        header_checksum: 0,
        source: me,
        destination: remote.ip(),
        slice: Vec::new(),
    };
    let syn = Tcp::read_segment(&ip, &first.bytes).unwrap().header;
    assert!(syn.syn && !syn.ack && !syn.fin);
    assert_eq!((syn.source_port, syn.destination_port), (1, 90));
    assert_eq!(syn.window_size, 65535);

    let mut other = Tcp::new();
    other.listen(Port(90)).unwrap();
    let answer = match other.handle_segment(&ip, &syn, &[], remote.ip()) {
        Handled::Updated(0, update) => match update.action {
            Some(UpdateAction::NewSynReceivedSocket(_, segment)) => segment,
            _ => panic!("a new socket"),
        },
        _ => panic!("the listening socket takes it"),
    };
    let syn_ack = Tcp::read_segment(&ip, &answer.bytes).unwrap().header;
    assert!(syn_ack.syn && syn_ack.ack);
    assert_eq!(syn_ack.acknowledgment_number, syn.sequence_number + 1);
    assert!(matches!(
        Tcp::new().handle_segment(&ip, &syn, &[], remote.ip()),
        Handled::NoSocket
    ));
    let mut stranger = syn;
    stranger.syn = false;
    let back = Ipv4Header {
        source: remote.ip(),
        destination: me,
        slice: Vec::new(),
        ..ip
    };
    stranger.source_port = 90;
    stranger.destination_port = 1;
    assert!(matches!(
        tcp.handle_segment(&back, &stranger, &[], me),
        Handled::NotReady(0)
    ));
}

#[test]
fn segment_checksums_are_compared() {
    let ip = Ipv4Header {
        payload_len: 0,
        ttl: 1,
        protocol: 6,
        header_checksum: 0,
        source: Ipv4Addr::new(10, 0, 0, 2),
        destination: Ipv4Addr::new(10, 0, 0, 1),
        slice: Vec::new(),
    };
    let header = ip::header::TcpHeader::new(1, 2, 3, 4);
    let mut bytes = ip::header::write_segment(header, ip.source, ip.destination, b"abc");
    let first = Tcp::read_segment(&ip, &bytes).unwrap();
    assert_eq!(first.header_len, 20);
    assert_eq!(first.header.checksum, 0xd772);
    assert!(first.checksum_holds);
    // A change of any byte is noticed; the one that is left out tells the length of the header.
    for i in (0..12).chain(13..bytes.len()) {
        let mut bad = bytes.clone();
        bad[i] ^= 1;
        assert!(!Tcp::read_segment(&ip, &bad).unwrap().checksum_holds);
    }
    // So is another address.
    let other = Ipv4Header { source: Ipv4Addr::new(10, 0, 0, 3), slice: Vec::new(), ..ip };
    assert!(!Tcp::read_segment(&other, &bytes).unwrap().checksum_holds);
    let ip = Ipv4Header { source: Ipv4Addr::new(10, 0, 0, 2), ..other };
    bytes.truncate(19);
    assert!(Tcp::read_segment(&ip, &bytes).is_none());
    assert!(Tcp::new().handle_packet(&ip, &bytes, ip.destination).is_none());
}

#[test]
fn routes_spread() {
    let mut hosts = vec![Host::new(&a_args()), Host::new(&b_args()), Host::new(&c_args())];
    advertise_all(&mut hosts);
    let c_ip = Ipv4Addr::new(192, 168, 0, 4);
    let route = hosts[0].node.net.get_forwarding_table().find_entry_for(c_ip).unwrap();
    assert_eq!(route.cost(), 2);
    assert_eq!(route.next_hop(), Ipv4Addr::new(192, 168, 0, 2));
    let back = Ipv4Addr::new(192, 168, 0, 1);
    let route = hosts[2].node.net.get_forwarding_table().find_entry_for(back).unwrap();
    assert_eq!(route.cost(), 2);

    // A packet goes over the host in the middle, with one hop less to live.
    let d = hosts[0].node.send(b"hi", Protocol::Test.into(), c_ip).unwrap();
    assert_eq!(d.port, 5001);
    pump(&mut hosts, vec![d]);
    assert_eq!(
        hosts[2].shown,
        "---Node received packet!---\n\
         \tsource IP\t:\t192.168.0.1\n\
         \tdestination IP\t:\t192.168.0.4\n\
         \tprotocol\t:\t0\n\
         \tpayload length\t:\t2\n\
         \tpayload\t\t:\thi\n\
         ---------------------------\n        "
    );
    assert_eq!(hosts[1].shown, "");
}

#[test]
fn packets_need_a_route_and_a_link() {
    let mut hosts = two_hosts();
    let b_ip = Ipv4Addr::new(192, 168, 0, 2);
    let nowhere = Ipv4Addr::new(9, 9, 9, 9);
    let net = &mut hosts[0].node.net;
    assert_eq!(net.send(b"x", 0, nowhere), Err(SendError::NoForwardingEntry));
    assert_eq!(
        net.send(b"x", 0, Ipv4Addr::new(192, 168, 0, 1)),
        Err(SendError::NoLink)
    );
    net.deactivate(0).unwrap();
    assert_eq!(net.send(b"x", 0, b_ip), Err(SendError::Transport(Error::LinkInactive)));
    assert_eq!(net.activate(9), Err(Error::LinkNotFound));
    assert_eq!(net.deactivate(9), Err(Error::LinkNotFound));
    net.activate(0).unwrap();
    assert!(net.send(b"x", 0, b_ip).is_ok());
    net.get_forwarding_table_mut().find_mut_entry_for(b_ip).unwrap().mark_unreachable();
    assert_eq!(net.send(b"x", 0, b_ip), Err(SendError::Unreachable));
}

#[test]
fn links_refuse_when_turned_off() {
    let mut layer = VtLinkLayer::new(&b_args());
    let a_ip = Ipv4Addr::new(192, 168, 0, 1);
    assert_eq!(layer.send(b"x", a_ip).unwrap().port, 5000);
    assert_eq!(layer.send(b"x", a_ip).unwrap().bytes, b"x");
    layer.deactivate_link(0).unwrap();
    assert_eq!(layer.send(b"x", a_ip), Err(Error::LinkInactive));
    assert_eq!(
        layer.send(b"x", Ipv4Addr::new(1, 1, 1, 1)),
        Err(Error::LinkNotFound)
    );
    assert_eq!(layer.iter_links().len(), 2);
    assert!(layer.find_link_to(a_ip).unwrap().is_disabled());
    assert_eq!(
        layer.find_link_with_interface_ip(Ipv4Addr::new(192, 168, 0, 3)).unwrap().dest(),
        Ipv4Addr::new(192, 168, 0, 4)
    );
}

#[test]
fn neighbours_are_told_not_to_come_back() {
    let entries = vec![
        Entry::new(Ipv4Addr::new(10, 0, 0, 1), Ipv4Addr::new(10, 0, 0, 9), 3),
        Entry::new(Ipv4Addr::new(10, 0, 0, 2), Ipv4Addr::new(10, 0, 0, 8), 4),
    ];
    let msg = RipMessage::from_entries_with_poisoned_reverse(&entries, Ipv4Addr::new(10, 0, 0, 9));
    assert_eq!(msg.command, Command::Response);
    assert_eq!(msg.entries[0].cost, 16);
    assert_eq!(msg.entries[1].cost, 4);
}

#[test]
fn routes_are_merged() {
    let mut hosts = two_hosts();
    let b_ip = Ipv4Addr::new(192, 168, 0, 2);
    let far = Ipv4Addr::new(8, 8, 8, 8);
    let net = &mut hosts[0].node.net;
    let header = Ipv4Header {
        payload_len: 0,
        ttl: 1,
        protocol: 200,
        header_checksum: 0,
        source: b_ip,
        destination: Ipv4Addr::new(192, 168, 0, 1),
        slice: Vec::new(),
    };
    let mut hear = |cost: u32| {
        let msg = RipMessage {
            command: Command::Response,
            entries: vec![RipEntry::with_default_mask(cost, far)],
        };
        let bytes = msg.into_bytes();
        assert!(RipMessage::is_well_formed(&bytes));
        let out = RipHandler::default().handle_packet(&header, &bytes, net);
        (out.len(), net.routes.find_entry_for(far).unwrap().cost())
    };
    assert_eq!(hear(5), (1, 6));
    // Nothing changes, so nobody is told.
    assert_eq!(hear(5), (0, 6));
    assert_eq!(hear(3), (1, 4));
    // The next hop is believed even when it gets worse.
    assert_eq!(hear(16), (1, 16));
    assert_eq!(hear(u32::MAX), (0, 16));
}

#[test]
fn advertised_routes_are_refreshed() {
    let mut hosts = two_hosts();
    let (a_ip, b_ip) = (Ipv4Addr::new(192, 168, 0, 1), Ipv4Addr::new(192, 168, 0, 2));
    let (far, other) = (Ipv4Addr::new(8, 8, 8, 8), Ipv4Addr::new(9, 9, 9, 9));
    let elsewhere = Ipv4Addr::new(192, 168, 0, 4);
    let net = &mut hosts[1].node.net;
    net.routes.add_entry(Entry::new(far, a_ip, 6));
    net.routes.add_entry(Entry::new(other, elsewhere, 6));
    let header = Ipv4Header {
        payload_len: 0,
        ttl: 1,
        protocol: 200,
        header_checksum: 0,
        source: a_ip,
        destination: b_ip,
        slice: Vec::new(),
    };
    // Whether the timers of the two routes are restarted by what the neighbour advertises.
    let mut hear = |entries: Vec<(u32, Ipv4Addr)>| {
        let msg = RipMessage {
            command: Command::Response,
            entries: entries
                .into_iter()
                .map(|(cost, addr)| RipEntry::with_default_mask(cost, addr))
                .collect(),
        };
        let before = Instant::now();
        while Instant::now() <= before {}
        RipHandler::default().handle_packet(&header, &msg.into_bytes(), net);
        let restarted = |addr| net.routes.find_entry_for(addr).unwrap().last_updated > before;
        (restarted(far), restarted(other))
    };
    assert_eq!(hear(vec![]), (false, false));
    // The next hop confirms its route, and others say nothing of use.
    assert_eq!(hear(vec![(5, far), (5, other)]), (true, false));
    assert_eq!(hear(vec![(7, other)]), (false, false));
    assert_eq!(hear(vec![(9, far)]), (true, false));
    // A cheaper route replaces the other one.
    assert_eq!(hear(vec![(2, other)]), (false, true));
    assert_eq!(hear(vec![(2, other), (9, far)]), (true, true));
    // The host's own addresses are not learnt.
    assert_eq!(hear(vec![(0, b_ip)]), (false, false));
}

#[test]
fn bytes_are_sent_until_acknowledged() {
    let (mut hosts, d, _) = connected(Port(80));
    let i = hosts[0].socket_index(d);
    // There is nothing to wait for.
    assert_eq!(hosts[0].node.tcp.sockets[i].send_all(b"", Sending::new()), Ok(None));
    let data = vec![3; TCP_DEFAULT_WINDOW_SZ + 10];
    let conn = hosts[0].node.tcp.sockets[i].conn.as_mut().unwrap();
    let start = conn.inner.send_buf.tail();
    assert!(conn.is_acknowledged(start));
    assert!(!conn.is_acknowledged(start + 1));
    let full = conn.send_all(&data, Sending::new()).unwrap().unwrap();
    assert_eq!(full.written, TCP_DEFAULT_WINDOW_SZ);
    assert_eq!(conn.send_all(&data, full), Ok(Some(full)));
    conn.inner.send_buf.set_tail(start + 100).unwrap();
    let rest = conn.send_all(&data, full).unwrap().unwrap();
    assert_eq!(
        rest,
        Sending { written: data.len(), start, end: start + data.len() }
    );
    conn.inner.send_buf.set_tail(rest.end - 1).unwrap();
    assert_eq!(conn.send_all(&data, rest), Ok(Some(rest)));
    // A connection that is closed for writing still waits for what was written.
    conn.inner.close().unwrap();
    assert_eq!(conn.send_all(&data, full), Err(TcpSendError::ConnClosed));
    conn.inner.send_buf.set_tail(rest.end).unwrap();
    assert_eq!(conn.send_all(&data, rest), Ok(None));
    assert!(conn.is_acknowledged(start + data.len()));
}

#[test]
fn old_routes_are_pruned() {
    let mut net = VtLinkNet::new(
        VtLinkLayer::new(&b_args()),
        &b_args(),
        VtLinkNetConfig::default(),
    );
    let far = Ipv4Addr::new(8, 8, 8, 8);
    net.routes.add_entry(Entry::new(far, Ipv4Addr::new(192, 168, 0, 1), 1));
    net.prune_routing_table(Duration::from_secs(1000));
    assert!(net.routes.has_entry_for(far));
    net.prune_routing_table(Duration::from_nanos(0));
    assert!(!net.routes.has_entry_for(far));
    assert_eq!(net.routes.entries().len(), 2);
}

#[test]
fn hosts_are_configured() {
    let mut args = b_args();
    args.lossy = true;
    let builder: NodeBuilder<u8> = NodeBuilder::new(&args);
    assert_eq!(builder.drop_factor, 5);
    let plain = b_args();
    let mut builder: NodeBuilder<u8> = NodeBuilder::new(&plain);
    builder
        .with_rip_interval(Duration::from_secs(1))
        .with_entry_max_age(Duration::from_secs(2))
        .with_prune_interval(Duration::from_secs(3))
        .with_drop_factor(7)
        .with_protocol_handler(Protocol::Rip, 1)
        .with_protocol_handler(Protocol::Rip, 2)
        .with_protocol_handler(Protocol::Tcp, 3);
    let mut node = builder.build(4);
    assert_eq!(node.tcp.next_descriptor, 0);
    assert!(builder.built);
    assert_eq!(node.handler_for(Protocol::Rip), Some(&2));
    assert_eq!(node.handler_for(Protocol::Tcp), Some(&4));
    assert_eq!(node.handler_for(Protocol::Test), None);
    assert_eq!(node.net.drop_policy, DropFactor::new(7));
    assert_eq!(node.rip_update_interval, Duration::from_secs(1));
    assert_eq!(node.entry_max_age, Duration::from_secs(2));
    assert_eq!(node.prune_interval, Duration::from_secs(3));
    assert!(node.is_my_addr(Ipv4Addr::new(192, 168, 0, 2)));
    assert!(!node.is_my_addr(Ipv4Addr::new(192, 168, 0, 1)));
    assert_eq!(node.iter_links().len(), 2);
    assert_eq!(node.activate(2), Err(Error::LinkNotFound));
    node.deactivate(0).unwrap();
    assert!(node.find_link_to(Ipv4Addr::new(192, 168, 0, 1)).unwrap().is_disabled());
    assert!(node.find_link_with_interface_ip(Ipv4Addr::new(1, 1, 1, 1)).is_none());
}

#[test]
fn single_messages_are_retried() {
    let hosts = two_hosts();
    let net = &hosts[0].node.net;
    let cfg = RtxConfig::default();
    assert_eq!(cfg.max_err_retries, 80);
    assert_eq!(cfg.rtx_interval, Duration::from_millis(50));
    assert_eq!(cfg.timeout, Duration::from_secs(3));

    let known = Remote::new(Ipv4Addr::new(192, 168, 0, 2), Port(1));
    let mut t = SingleMessageTransport::new(vec![1, 2, 3], known, RtxConfig::default());
    let (go_on, sent) = t.transmit(net);
    assert!(go_on);
    assert_eq!(&sent.unwrap().bytes[20..], &[1, 2, 3]);

    let unknown = Remote::new(Ipv4Addr::new(9, 9, 9, 9), Port(1));
    let mut t = SingleMessageTransport::new(vec![1], unknown, RtxConfig::default());
    for _ in 0..79 {
        assert!(t.transmit(net).0);
    }
    let (go_on, sent) = t.transmit(net);
    assert!(!go_on && sent.is_none());

    assert_eq!(SingleMessageTransport::error(Transmission::Acked), None);
    assert_eq!(
        SingleMessageTransport::error(Transmission::GaveUp),
        Some(TransmissionError::MaxRetransExceeded)
    );
    assert_eq!(
        SingleMessageTransport::error(Transmission::TimedOut),
        Some(TransmissionError::Timeout)
    );
}

#[test]
fn full_segments_are_sent_and_sent_again() {
    let (mut hosts, d, e) = connected(Port(80));
    let i = hosts[0].socket_index(d);
    let data: Vec<u8> = (0..3000).map(|k| (k % 251) as u8).collect();
    let sending = begin_to_send(&mut hosts[0], i, &data);
    let id = hosts[0].node.tcp.sockets[i].id();
    let first = hosts[0].push_data(id);
    assert_eq!(first.len(), 1);
    assert_eq!(&first[0].bytes[40..], &data[..1024]);
    // The first segment is lost.
    let second = hosts[0].push_data(id);
    assert_eq!(&second[0].bytes[40..], &data[1024..2048]);
    pump(&mut hosts, second);
    let host = &mut hosts[0];
    let conn = host.node.tcp.sockets[i].conn.as_ref().unwrap();
    let start = conn.inner.send_buf.tail();
    let t = host.transports.iter_mut().find(|t| t.0 == id).unwrap();
    assert_eq!(t.1.last_acked, start);
    let again = t
        .1
        .check_retransmission(&host.node.net, &conn.inner.send_buf, &conn.inner.recv_buf)
        .unwrap()
        .unwrap();
    assert_eq!(&again.bytes[40..], &data[..1024]);
    pump(&mut hosts, vec![again]);
    // The last segment is still owed.
    assert_eq!(go_on_sending(&mut hosts[0], i, &data, sending), Ok(Some(sending)));
    let third = hosts[0].push_data(id);
    assert_eq!(&third[0].bytes[40..], &data[2048..]);
    pump(&mut hosts, third);
    assert_eq!(go_on_sending(&mut hosts[0], i, &data, sending), Ok(None));

    let j = hosts[1].socket_index(e);
    let mut out = Vec::new();
    let conn = hosts[1].node.tcp.sockets[j].conn.as_mut().unwrap();
    assert!(!conn.read_till_closed(&mut out));
    assert_eq!(out, data);
    let conn = hosts[0].node.tcp.sockets[i].conn.as_ref().unwrap();
    assert!(conn.inner.send_buf.inner.is_empty());
}

#[test]
fn used_up_windows_are_probed() {
    let (mut hosts, d, _) = connected(Port(80));
    let i = hosts[0].socket_index(d);
    begin_to_send(&mut hosts[0], i, b"abc");
    let id = hosts[0].node.tcp.sockets[i].id();
    let host = &mut hosts[0];
    let conn = host.node.tcp.sockets[i].conn.as_ref().unwrap();
    let t = host.transports.iter_mut().find(|t| t.0 == id).unwrap();
    let (send, recv) = (&conn.inner.send_buf, &conn.inner.recv_buf);
    assert!(t.1.check_and_zero_window_probe(&host.node.net, send, recv).is_none());
    t.1.on_window_updated(0);
    let (open, sent) = t.1.on_new_data(&host.node.net, send, recv);
    assert!(open && sent.is_none());
    let probe = t.1.check_and_zero_window_probe(&host.node.net, send, recv).unwrap();
    assert_eq!(&probe.bytes[40..], b"a");
    // What is expected of the remote has been sent already.
    let long = Duration::from_secs(1);
    assert!(t.1.retransmit_ack(&host.node.net, recv, long).is_none());
    t.1.last_ack_transmitted = 0;
    assert!(t.1.retransmit_ack(&host.node.net, recv, Duration::from_millis(1)).is_none());
    let ack = t.1.retransmit_ack(&host.node.net, recv, long).unwrap();
    assert_eq!(ack.bytes.len(), 40);
}

#[test]
fn links_are_read_from_definitions() {
    let def = LinkDefinition {
        dest_port: 5002,
        interface_ip: Ipv4Addr::new(192, 168, 0, 3),
        dest_ip: Ipv4Addr::new(192, 168, 0, 4),
    };
    let mut link = def.into_link();
    assert_eq!(link.to_text(), "up\t192.168.0.3\t192.168.0.4\t5002");
    link.deactivate();
    assert_eq!(link.to_text(), "down\t192.168.0.3\t192.168.0.4\t5002");
    link.activate();
    assert_eq!(link.source(), Ipv4Addr::new(192, 168, 0, 3));
    assert_eq!(link.send(&[1, 2]).unwrap().bytes, vec![1, 2]);
}

#[test]
fn commands_are_carried_out() {
    let mut hosts = two_hosts();
    let node = &mut hosts[0].node;
    let mut run = |line: &str| {
        let e = execute_command(node, Cli::parse_command(line.into()).unwrap());
        (e.notice.unwrap_or_default(), e.effect)
    };
    match run("li") {
        (notice, Effect::Show(None, text)) => {
            assert_eq!(notice, "");
            assert_eq!(
                text,
                "id\tstate\tlocal\t\tremote\t        port\n0\tup\t192.168.0.1\t192.168.0.2\t5001\n"
            );
        }
        _ => panic!("a list is shown"),
    }
    match run("lr out") {
        (_, Effect::Show(Some(file), text)) => {
            assert_eq!(file, "out");
            assert!(text.starts_with("dest\t\tnext\t\tcost\n192.168.0.1\t192.168.0.1\t0\n"));
        }
        _ => panic!("a list is shown"),
    }
    match run("down 3") {
        (notice, Effect::Report(text)) => {
            assert_eq!(notice, "Turning down interface 3");
            assert_eq!(text, "Failed to turn interface 3 down: LinkNotFound");
        }
        _ => panic!("the error is reported"),
    }
    match run("send 192.168.0.2 0 hi") {
        (notice, Effect::Transmit(d)) => {
            assert_eq!(notice, "Sending packet \"hi\" with protocol Test to 192.168.0.2");
            assert_eq!(d.port, 5001);
            assert_eq!(&d.bytes[20..], b"hi");
        }
        _ => panic!("a packet is sent"),
    }
    let (notice, effect) = run("down 0");
    assert_eq!(notice, "Turning down interface 0");
    assert!(matches!(effect, Effect::Nothing));
    assert!(matches!(
        run("send 192.168.0.2 0 hi"),
        (_, Effect::Report(t)) if t == "Failed to send packet: Transport(LinkInactive)"
    ));
    assert!(matches!(
        run("send 9.9.9.9 0 hi"),
        (_, Effect::Report(t)) if t == "Failed to send packet: NoForwardingEntry"
    ));
    let (notice, effect) = run("up 0");
    assert_eq!(notice, "Turning up interface 0");
    assert!(matches!(effect, Effect::Nothing));
    assert!(matches!(run("a 80"), (_, Effect::Listen(Port(80)))));
    assert!(matches!(run("cl 4"), (_, Effect::Close(SocketDescriptor(4)))));
    assert!(matches!(
        run("s 4 abc"),
        (_, Effect::TcpSend(SocketDescriptor(4), p)) if p == b"abc"
    ));
    let (notice, effect) = run("q");
    assert_eq!(notice, "Quitting");
    assert!(matches!(effect, Effect::Nothing));
}

#[test]
fn sockets_are_listed() {
    let (hosts, _, _) = connected(Port(80));
    assert_eq!(
        sockets_text(&hosts[0].node.tcp.sockets),
        "0\tEstablished\t\t65536\t\t\t65535\n"
    );
    assert_eq!(
        sockets_text(&hosts[1].node.tcp.sockets),
        "0\tListen\t\t65536\t\t\t65536\n1\tEstablished\t\t65536\t\t\t65535\n"
    );
}

#[test]
fn transports_handle_events() {
    let (mut hosts, d, _) = connected(Port(80));
    let i = hosts[0].socket_index(d);
    let id = hosts[0].node.tcp.sockets[i].id();
    let host = &mut hosts[0];
    let conn = host.node.tcp.sockets[i].conn.as_ref().unwrap();
    let t = host.transports.iter_mut().find(|t| t.0 == id).unwrap();
    let mut on = |event: TransportEvent| {
        let (send, recv) = (&conn.inner.send_buf, &conn.inner.recv_buf);
        let r = t.1.on_event(&host.node.net, send, recv, event);
        (r.0, r.1.map(|d| d.bytes.len()), t.1.remaining_window_sz, t.1.last_acked)
    };
    let (_, _, window, acked) = on(TransportEvent::WindowUpdated(9));
    assert_eq!((window, acked), (9, 0));
    assert_eq!(on(TransportEvent::LastByteAcked(4)), (true, None, 9, 4));
    assert_eq!(on(TransportEvent::ZeroWindowProbeTick), (true, None, 9, 4));
    assert_eq!(on(TransportEvent::AckRequested), (true, Some(40), 9, 4));
    assert_eq!(on(TransportEvent::TransmitAckTick), (true, None, 9, 4));
    assert_eq!(on(TransportEvent::NewData), (true, None, 9, 4));
    assert_eq!(on(TransportEvent::AckRequestsClosed), (false, None, 9, 4));
}

#[test]
fn other_neighbours_are_believed_only_when_they_improve() {
    let mut net = VtLinkNet::new(
        VtLinkLayer::new(&b_args()),
        &b_args(),
        VtLinkNetConfig::default(),
    );
    let far = Ipv4Addr::new(8, 8, 8, 8);
    let (a_ip, c_ip) = (Ipv4Addr::new(192, 168, 0, 1), Ipv4Addr::new(192, 168, 0, 4));
    let mut hear = |sender: Ipv4Addr, cost: u32| {
        let header = Ipv4Header {
            payload_len: 0,
            ttl: 1,
            protocol: 200,
            header_checksum: 0,
            source: sender,
            destination: Ipv4Addr::new(192, 168, 0, 2),
            slice: Vec::new(),
        };
        let entries = vec![
            RipEntry::with_default_mask(cost, far),
            RipEntry::with_default_mask(0, Ipv4Addr::new(192, 168, 0, 2)),
        ];
        let msg = RipMessage { command: Command::Response, entries };
        RipHandler::default().handle_packet(&header, &msg.into_bytes(), &mut net);
        let e = net.routes.find_entry_for(far).unwrap();
        (e.next_hop(), e.cost(), net.routes.entries().len())
    };
    assert_eq!(hear(a_ip, 3), (a_ip, 4, 3));
    assert_eq!(hear(c_ip, 3), (a_ip, 4, 3));
    assert_eq!(hear(c_ip, 9), (a_ip, 4, 3));
    assert_eq!(hear(c_ip, 1), (c_ip, 2, 3));
    assert_eq!(hear(a_ip, 16), (c_ip, 2, 3));
}

#[test]
fn entries_are_deleted() {
    let (x, y) = (Ipv4Addr::new(8, 8, 8, 8), Ipv4Addr::new(9, 9, 9, 9));
    let mut table = ForwardingTable::with_entries(vec![
        Entry::new(x, y, 1),
        Entry::new(y, x, 2),
        Entry::new(x, x, 3),
    ]);
    table.delete_mut_entry_for(x);
    assert_eq!(table.entries().len(), 1);
    assert_eq!(table.entries()[0].to_text(), "9.9.9.9\t8.8.8.8\t2");
    table.find_mut_entry_for(y).unwrap().update_cost(16);
    assert!(table.find_entry_for(y).unwrap().is_unreachable());
}

#[test]
fn windows_are_respected() {
    let (mut hosts, d, _) = connected(Port(80));
    let i = hosts[0].socket_index(d);
    assert_eq!(hosts[0].node.tcp.sockets[i].remote_ip_port().1, Port(80));
    let data = vec![7; 3000];
    begin_to_send(&mut hosts[0], i, &data);
    let id = hosts[0].node.tcp.sockets[i].id();
    let host = &mut hosts[0];
    let conn = host.node.tcp.sockets[i].conn.as_ref().unwrap();
    let t = host.transports.iter_mut().find(|t| t.0 == id).unwrap();
    t.1.on_window_updated(1500);
    let (send, recv) = (&conn.inner.send_buf, &conn.inner.recv_buf);
    let mut sent = 0;
    for _ in 0..5 {
        let (_, d) = t.1.on_new_data(&host.node.net, send, recv);
        sent += d.map_or(0, |d| d.bytes.len() - 40);
    }
    assert_eq!(sent, 1500);
    assert_eq!(t.1.remaining_window_sz, 0);
}

#[test]
fn payloads_wait_for_room() {
    let (mut hosts, _, e) = connected(Port(80));
    let j = hosts[1].socket_index(e);
    let socket = &mut hosts[1].node.tcp.sockets[j];
    let conn = socket.conn.as_mut().unwrap();
    let start = conn.inner.recv_buf.head();
    let full = vec![1; TCP_DEFAULT_WINDOW_SZ];
    assert!(conn.inner.recv_buf.write(start, &full).unwrap());
    let mut header = ip::header::TcpHeader::new(7777, 80, 0, 100);
    header.ack = true;
    header.sequence_number = (start + full.len()) as u32;
    assert!(socket.can_deliver(&header, 3));
    assert_eq!(socket.redeliver(&header, b"abc"), Some(Delivery::Blocked));
    let mut out = vec![0; 10];
    assert_eq!(socket.read_all(&mut out, 0), Ok(None));
    assert_eq!(socket.redeliver(&header, b"abc"), Some(Delivery::Done(1)));
    // What was received before is acknowledged twice.
    assert_eq!(socket.redeliver(&header, b"abc"), Some(Delivery::Done(2)));
    assert_eq!(socket.local_window_sz(), 7);
    assert_eq!(socket.remote_window_sz(), 65535);
}
