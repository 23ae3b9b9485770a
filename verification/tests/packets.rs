//! Packets, and what becomes of them.

use etherparse::Ipv4Header as EtherHeader;
use ip::addr::Ipv4Addr;
use ip::args::{Args, ParseArgsError};
use ip::drop_policy::{DropFactor, DropPolicy, NeverDrop};
use ip::header::{verify_header_checksum, write_segment, Ipv4Header, TcpHeader};
use ip::message::Message;
use ip::net::vtlink::link::{LinkDefinition, ParseLinkError, VtLinkLayer};
use ip::net::vtlink::{IpSlice, PacketDecision, PacketOutcome, VtLinkNet, VtLinkNetConfig};
use ip::protocol::rip::{Command, Entry, RipMessage};
use ip::protocol::tcp::ack_policy::{AckPolicy, AlwaysAck, BatchedAck};
use ip::protocol::tcp::fsm::TcpConnection;
use ip::protocol::tcp::prelude::{BuildSocketIdError, Port, Remote, SocketId};
use ip::protocol::tcp::tsm::{Closed, StateTransition};
use ip::protocol::test::{TestHandler, TestMessage};
use ip::protocol::{ParseProtocolError, Protocol};
use ip::text::{
    parse_ipv4, parse_number, parse_u16, parse_u8, show_ipv4, show_number, split_whitespace,
};
use ip::time::Duration;
use ip::utils::net::{BuildError, Ipv4PacketBuilder};
use ip::utils::sync::{RaceOneShotSender, SendError};

fn lines(text: &str) -> Vec<Result<String, std::io::Error>> {
    text.lines().map(|l| Ok(l.to_string())).collect()
}

const B_LNX: &str = "localhost 5001\n\
                     localhost 5000 192.168.0.2 192.168.0.1\n\
                     localhost 5002 192.168.0.3 192.168.0.4\n";

fn make_mock_router() -> VtLinkNet<NeverDrop> {
    let text = "localhost 5000\nlocalhost 5001 192.168.0.1 192.168.0.2\n";
    make_mock_router_with_args(Args::try_parse(lines(text)).unwrap())
}

fn make_mock_router_with_args(args: Args) -> VtLinkNet<NeverDrop> {
    VtLinkNet::new(VtLinkLayer::new(&args), &args, VtLinkNetConfig::default())
}

fn make_random_packet_internal() -> (EtherHeader, Vec<u8>) {
    let payload = vec![1; 8];

    let header = EtherHeader::new(
        payload.len().try_into().unwrap(),
        8,
        0,
        [1, 2, 3, 4],
        [5, 6, 7, 8],
    );

    (header, payload)
}

fn make_random_packet() -> Vec<u8> {
    let (header, mut payload) = make_random_packet_internal();
    let mut v = Vec::new();
    header.write(&mut v).unwrap();
    v.append(&mut payload);
    v
}

fn make_packet_with_zero_ttl() -> Vec<u8> {
    let (mut header, mut payload) = make_random_packet_internal();
    header.time_to_live = 0;

    let mut v = Vec::new();
    header.write(&mut v).unwrap();
    v.append(&mut payload);
    v
}

fn make_random_packet_with_incorrect_checksum() -> Vec<u8> {
    let (mut header, mut payload) = make_random_packet_internal();

    // set a bogus checksum value
    header.header_checksum = 128;

    let mut v = Vec::new();
    header.write_raw(&mut v).unwrap();
    v.append(&mut payload);
    v
}

#[test]
fn drop_packet_with_invalid_checksum() {
    let mut r = make_mock_router();

    let valid_packet = make_random_packet();
    let decision = r.decide_packet(&Ipv4Header::from_slice(&valid_packet).unwrap());

    assert_eq!(decision, PacketDecision::Forward);

    let invalid_packet = make_random_packet_with_incorrect_checksum();
    let decision = r.decide_packet(&Ipv4Header::from_slice(&invalid_packet).unwrap());

    assert_eq!(decision, PacketDecision::Drop);
}

#[test]
fn drop_packet_with_zero_ttl() {
    let mut r = make_mock_router();

    let packet = make_packet_with_zero_ttl();
    let decision = r.decide_packet(&Ipv4Header::from_slice(&packet).unwrap());

    assert_eq!(decision, PacketDecision::Drop);
}

#[test]
fn consume_packet_on_ip_match() {
    let text = "localhost 5000\nlocalhost 5001 192.168.0.1 192.168.0.2\n";
    let args = Args::try_parse(lines(text)).unwrap();
    let my_ips = args.get_my_interface_ips();
    let mut r = make_mock_router_with_args(args);

    let pkt = Ipv4PacketBuilder::default()
        .with_dst(my_ips[0])
        .with_src(Ipv4Addr::new(255, 255, 255, 255))
        .with_protocol(Protocol::Test.into())
        .with_payload(&[1, 2, 3, 4])
        .build()
        .unwrap();

    let decision = r.decide_packet(&Ipv4Header::from_slice(&pkt).unwrap());
    assert_eq!(decision, PacketDecision::Consume);

    // Even if a packet arrives with TTL=0, it should be processed if it
    // matches our IP.
    let pkt_zero_ttl = Ipv4PacketBuilder::default()
        .with_ttl(0)
        .with_dst(my_ips[0])
        .with_src(Ipv4Addr::new(255, 255, 255, 255))
        .with_protocol(Protocol::Test.into())
        .with_payload(&[1, 2, 3, 4])
        .build()
        .unwrap();

    let decision = r.decide_packet(&Ipv4Header::from_slice(&pkt_zero_ttl).unwrap());
    assert_eq!(decision, PacketDecision::Consume);
}

#[test]
fn drop_packet_from_link_that_is_off() {
    let mut r = make_mock_router();
    let pkt = Ipv4PacketBuilder::default()
        .with_dst(Ipv4Addr::new(192, 168, 0, 1))
        .with_src(Ipv4Addr::new(192, 168, 0, 2))
        .with_protocol(0)
        .with_payload(&[])
        .build()
        .unwrap();
    let header = Ipv4Header::from_slice(&pkt).unwrap();
    assert_eq!(r.decide_packet(&header), PacketDecision::Consume);
    r.deactivate(0).unwrap();
    assert_eq!(r.decide_packet(&header), PacketDecision::Drop);
}

#[test]
fn bytes_are_told_apart() {
    let mut r = make_mock_router();
    let me = Ipv4Addr::new(192, 168, 0, 1);
    assert!(matches!(r.handle_packet_bytes(&[]), PacketOutcome::Malformed));
    assert!(matches!(r.handle_packet_bytes(&[0x45; 10]), PacketOutcome::Malformed));
    let mut v6 = vec![0u8; 40];
    v6[0] = 0x60;
    v6[6] = 59;
    assert!(matches!(r.handle_packet_bytes(&v6), PacketOutcome::UnsupportedV6));
    assert!(matches!(r.handle_sliced(IpSlice::NoIp, &v6), PacketOutcome::NoIp));
    let packet = |protocol: u8, dst: Ipv4Addr| {
        Ipv4PacketBuilder::default()
            .with_src(Ipv4Addr::new(9, 9, 9, 9))
            .with_dst(dst)
            .with_protocol(protocol)
            .with_payload(&[7; 30])
            .build()
            .unwrap()
    };
    assert!(matches!(
        r.handle_packet_bytes(&packet(0, me)),
        PacketOutcome::Consumed(Protocol::Test, h) if h.payload_len == 30 && h.ttl == 15
    ));
    assert!(matches!(
        r.handle_packet_bytes(&packet(77, me)),
        PacketOutcome::UnrecognizedProtocol(77)
    ));
    assert!(matches!(
        r.handle_packet_bytes(&packet(0, Ipv4Addr::new(8, 8, 8, 8))),
        PacketOutcome::Forwarded(None)
    ));
    assert!(matches!(
        r.handle_packet_bytes(&make_random_packet_with_incorrect_checksum()),
        PacketOutcome::Dropped
    ));
}

#[test]
fn utils_build_packet() {
    let payload = vec![1; 16];
    let src = Ipv4Addr::new(127, 0, 0, 1);
    let dst = Ipv4Addr::new(127, 0, 0, 2);
    let ttl = 10;
    let protocol = 12;

    let packet_bytes = Ipv4PacketBuilder::default()
        .with_src(src)
        .with_dst(dst)
        .with_ttl(ttl)
        .with_payload(payload.as_slice())
        .with_protocol(protocol)
        .build()
        .unwrap();

    let mut expected = Vec::new();
    EtherHeader::new(
        payload.len().try_into().unwrap(),
        ttl,
        protocol,
        src.octets(),
        dst.octets(),
    )
    .write(&mut expected)
    .unwrap();
    expected.extend_from_slice(&payload);

    assert_eq!(expected, packet_bytes);
}

#[test]
fn build_packet() {
    let payload = vec![1; 16];
    let src = Ipv4Addr::new(127, 0, 0, 1);
    let dst = Ipv4Addr::new(127, 0, 0, 2);
    let ttl = 10;
    let protocol = 12;
    let link = LinkDefinition {
        dest_port: 1,
        interface_ip: src,
        dest_ip: dst,
    }
    .into_link();

    let packet_bytes = Ipv4PacketBuilder::default()
        .using_link(&link)
        .with_ttl(ttl)
        .with_payload(payload.as_slice())
        .with_protocol(protocol)
        .build()
        .unwrap();

    let mut expected = Vec::new();
    EtherHeader::new(
        payload.len().try_into().unwrap(),
        ttl,
        protocol,
        src.octets(),
        dst.octets(),
    )
    .write(&mut expected)
    .unwrap();
    expected.extend_from_slice(&payload);

    assert_eq!(expected, packet_bytes);
}

#[test]
fn packets_need_all_parts() {
    let addr = Ipv4Addr::new(1, 2, 3, 4);
    assert_eq!(Ipv4PacketBuilder::default().build(), Err(BuildError::NoPayload));
    let mut b = Ipv4PacketBuilder::default();
    b.with_payload(&[1]);
    assert_eq!(b.build(), Err(BuildError::NoProtocol));
    b.with_protocol(1);
    assert_eq!(b.build(), Err(BuildError::NoSourceAddress));
    b.with_src(addr);
    assert_eq!(b.build(), Err(BuildError::NoDestinationAddress));
    b.with_dst(addr);
    assert_eq!(b.build().unwrap()[8], 15);
    let big = vec![0; 65536];
    b.with_payload(&big);
    assert_eq!(b.build(), Err(BuildError::PayloadTooLong));
}

#[test]
fn drop_rate() {
    // drop 20% packet, or once every 5 packets.
    let mut dropper = DropFactor::new(5);

    let mut bytes = Vec::new();
    let ip_header = EtherHeader::new(
        10,
        10,
        10,
        Ipv4Addr::new(0, 0, 0, 0).octets(),
        Ipv4Addr::new(0, 0, 0, 0).octets(),
    );
    ip_header.write(&mut bytes).unwrap();
    let ip_header_slice = Ipv4Header::from_slice(&bytes).unwrap();

    let mut dropped: usize = 0;
    let iters = 1_000_000;
    for _ in 0..iters {
        if dropper.should_drop(&ip_header_slice) {
            dropped += 1;
        }
    }

    assert_eq!(dropped as f64, (iters as f64 * 0.2).floor());
}

#[test]
fn drop_factors() {
    let bytes = make_random_packet();
    let header = Ipv4Header::from_slice(&bytes).unwrap();
    let mut never = DropFactor::new(0);
    assert!(!never.should_drop(&header));
    assert!(!NeverDrop.should_drop(&header));
    assert_eq!(DropFactor::drop_20_pc(), DropFactor::new(5));
    assert_eq!(DropFactor::drop_10_pc(), DropFactor::new(10));
    assert_eq!(DropFactor::drop_5_pc(), DropFactor::new(20));
    assert_eq!(DropFactor::drop_50_pc(), DropFactor::new(2));
    let mut half = DropFactor::drop_50_pc();
    let pattern: Vec<bool> = (0..4).map(|_| half.should_drop(&header)).collect();
    assert_eq!(pattern, vec![true, false, true, false]);
}

#[test]
fn test_rip_message_serde() {
    let msg = RipMessage {
        command: Command::Response,
        entries: vec![
            Entry::with_default_mask(1, Ipv4Addr::new(127, 0, 1, 2)),
            Entry::with_default_mask(8, Ipv4Addr::new(3, 4, 5, 6)),
        ],
    };
    let m = msg.clone();

    let bytes = msg.into_bytes();
    let parsed = RipMessage::from_bytes(&bytes);

    assert_eq!(m, parsed);
}

#[test]
fn rip_messages_have_a_layout() {
    let msg = RipMessage {
        command: Command::Response,
        entries: vec![Entry::with_default_mask(258, Ipv4Addr::new(3, 4, 5, 6))],
    };
    let bytes = msg.into_bytes();
    assert_eq!(bytes, [0, 2, 0, 1, 0, 0, 1, 2, 3, 4, 5, 6, 255, 255, 255, 255]);
    assert!(RipMessage::is_well_formed(&bytes));
    assert!(!RipMessage::is_well_formed(&bytes[..15]));
    assert!(!RipMessage::is_well_formed(&[0, 3, 0, 0]));
    // A request has no entries.
    let mut request = bytes.clone();
    request[1] = 1;
    assert!(!RipMessage::is_well_formed(&request));
    assert!(RipMessage::is_well_formed(&[0, 1, 0, 0]));
    assert!(!RipMessage::is_well_formed(&[0]));
}

#[test]
fn parse_link_file() {
    let args = Args::try_parse(lines(B_LNX)).unwrap();

    assert_eq!(
        args,
        Args {
            host_port: 5001,
            links: vec![
                LinkDefinition {
                    dest_port: 5000,
                    interface_ip: Ipv4Addr::new(192, 168, 0, 2),
                    dest_ip: Ipv4Addr::new(192, 168, 0, 1)
                },
                LinkDefinition {
                    dest_port: 5002,
                    interface_ip: Ipv4Addr::new(192, 168, 0, 3),
                    dest_ip: Ipv4Addr::new(192, 168, 0, 4)
                }
            ],
            lossy: false,
        }
    );
    assert_eq!(
        args.to_text(),
        "Running on port 5001\n0:192.168.0.1\n1:192.168.0.4"
    );
}

#[test]
fn link_files_have_errors() {
    let parse = |text: &str| Args::try_parse(lines(text)).unwrap_err();
    assert!(matches!(parse(""), ParseArgsError::MissingFirstLine));
    assert!(matches!(parse("\n"), ParseArgsError::NoHost));
    assert!(matches!(parse("localhost\n"), ParseArgsError::NoPort));
    assert!(matches!(parse("localhost x\n"), ParseArgsError::MalformedPort));
    assert!(matches!(parse("localhost 1\n"), ParseArgsError::NoLinks));
    let broken = |line: &str| match parse(&format!("localhost 1\n{}\n", line)) {
        ParseArgsError::MalformedLink(e) => e,
        _ => panic!("the link is malformed"),
    };
    assert!(matches!(broken(""), ParseLinkError::NoIp));
    assert!(matches!(broken("h"), ParseLinkError::NoPort));
    assert!(matches!(broken("h x 1.1.1.1 1.1.1.2"), ParseLinkError::MalformedPort));
    assert!(matches!(broken("h 1"), ParseLinkError::NoSrcVirtualIp));
    assert!(matches!(broken("h 1 1.1.1.1"), ParseLinkError::NoDstVirtualIp));
    assert!(matches!(broken("h 1 1.1.1.1 1.1.1"), ParseLinkError::MalformedIp));
    let unread = vec![Err(std::io::Error::from(std::io::ErrorKind::NotFound))];
    assert!(matches!(
        Args::try_parse(unread),
        Err(ParseArgsError::ReadLineError(_))
    ));
}

#[test]
fn protocols_have_numbers() {
    assert_eq!(Protocol::try_from(0u8), Ok(Protocol::Test));
    assert_eq!(Protocol::try_from(200u8), Ok(Protocol::Rip));
    assert_eq!(Protocol::try_from(6u8), Ok(Protocol::Tcp));
    assert_eq!(Protocol::try_from(1u8), Err(ParseProtocolError::Unsupported));
    assert_eq!(Protocol::try_from("200"), Ok(Protocol::Rip));
    assert_eq!(Protocol::try_from("x"), Err(ParseProtocolError::Unsupported));
    for p in [Protocol::Test, Protocol::Rip, Protocol::Tcp] {
        assert_eq!(Protocol::try_from(u8::from(p)), Ok(p));
    }
}

#[test]
fn headers_are_checked() {
    let good = make_random_packet();
    let header = Ipv4Header::from_slice(&good).unwrap();
    assert!(verify_header_checksum(&header));
    assert_eq!(header.source, Ipv4Addr::new(1, 2, 3, 4));
    assert_eq!(header.destination, Ipv4Addr::new(5, 6, 7, 8));
    assert_eq!((header.ttl, header.protocol, header.payload_len), (8, 0, 8));
    assert_eq!(header.slice, &good[..20]);
    for i in 0..20 {
        let mut bad = good.clone();
        bad[i] ^= 1;
        if let Some(header) = Ipv4Header::from_slice(&bad) {
            assert!(!verify_header_checksum(&header));
        }
    }
    assert!(Ipv4Header::from_slice(&good[..19]).is_none());

    let written = [
        0x45, 0x00, 0x00, 0x73, 0x00, 0x00, 0x40, 0x00, 0x40, 0x11, 0xb8, 0x61, 0xc0, 0xa8, 0x00,
        0x01, 0xc0, 0xa8, 0x00, 0xc7,
    ];
    assert!(verify_header_checksum(&Ipv4Header::from_slice(&written).unwrap()));
    // The reserved flag is not summed.
    let mut reserved = written;
    reserved[6] = 0xc0;
    assert!(verify_header_checksum(&Ipv4Header::from_slice(&reserved).unwrap()));
}

#[test]
fn segments_are_written() {
    let src = Ipv4Addr::new(1, 2, 3, 4);
    let dst = Ipv4Addr::new(5, 6, 7, 8);
    let mut header = TcpHeader::new(1, 2, 3, 4);
    header.ack = true;
    header.acknowledgment_number = 9;
    let bytes = write_segment(header, src, dst, b"xyz");
    let (read, len) = TcpHeader::from_slice(&bytes).unwrap();
    assert_eq!(len, 20);
    assert_eq!(&bytes[20..], b"xyz");
    assert!(read.ack && !read.syn && !read.fin);
    assert_eq!((read.sequence_number, read.acknowledgment_number), (3, 9));
    let slice = etherparse::TcpHeaderSlice::from_slice(&bytes).unwrap();
    assert_eq!(
        read.checksum,
        slice.calc_checksum_ipv4_raw(src.octets(), dst.octets(), b"xyz").unwrap()
    );
    assert!(TcpHeader::from_slice(&bytes[..10]).is_none());
}

#[test]
fn texts_are_read() {
    assert_eq!(split_whitespace("  a\tbc \n d"), vec!["a", "bc", "d"]);
    assert_eq!(split_whitespace("a\u{3000}b"), vec!["a", "b"]);
    assert!(split_whitespace(" ").is_empty());
    assert_eq!(parse_u16("65535"), Some(65535));
    assert_eq!(parse_u16("+7"), Some(7));
    assert_eq!(parse_u16("65536"), None);
    assert_eq!(parse_u16(""), None);
    assert_eq!(parse_u16("+"), None);
    assert_eq!(parse_u16("-1"), None);
    assert_eq!(parse_u8("256"), None);
    assert_eq!(parse_u8("0255"), Some(255));
    assert_eq!(parse_number("18446744073709551615", u64::MAX), Some(u64::MAX));
    assert_eq!(parse_number("18446744073709551616", u64::MAX), None);
    for text in ["1.2.3.4", "0.0.0.0", "255.255.255.255", "1.2.3", "1.2.3.4.5", "01.2.3.4",
        "256.1.1.1", "1..2.3", "1.2.3.4 ", "+1.2.3.4", "a.b.c.d", ""]
    {
        let expected: Option<u32> = match text {
            "1.2.3.4" => Some(0x01020304),
            "0.0.0.0" => Some(0),
            "255.255.255.255" => Some(0xffffffff),
            _ => None,
        };
        let got = parse_ipv4(text).map(|a| u32::from_be_bytes(a.octets()));
        assert_eq!(got, expected, "{}", text);
    }
}

#[test]
fn texts_are_written() {
    assert_eq!(show_number(0), "0");
    assert_eq!(parse_number(&show_number(8080), u64::MAX), Some(8080));
    assert_eq!(show_number(u64::MAX), "18446744073709551615");
    assert_eq!(show_ipv4(Ipv4Addr::new(192, 0, 2, 255)), "192.0.2.255");
    assert_eq!(
        parse_ipv4(&show_ipv4(Ipv4Addr::new(10, 200, 3, 0))),
        Some(Ipv4Addr::new(10, 200, 3, 0))
    );
}

#[test]
fn messages_are_shown() {
    let packet = Ipv4PacketBuilder::default()
        .with_src(Ipv4Addr::new(1, 2, 3, 4))
        .with_dst(Ipv4Addr::new(5, 6, 7, 8))
        .with_protocol(0)
        .with_payload(b"a\xffb")
        .build()
        .unwrap();
    let message = TestMessage::from_bytes(&packet);
    assert_eq!(message.ttl, 14);
    assert_eq!(message.payload, b"a\xffb");
    let text = message.to_text();
    assert!(text.contains("\tpayload\t\t:\ta\u{fffd}b\n"));
    let header = Ipv4Header::from_slice(&packet).unwrap();
    assert_eq!(TestHandler::default().handle_packet(&header, &packet[20..]), text);
    assert_eq!(message.into_bytes(), b"a\xffb");

    // A packet without hops left is shown too.
    let packet = Ipv4PacketBuilder::default()
        .with_ttl(0)
        .with_src(Ipv4Addr::new(1, 2, 3, 4))
        .with_dst(Ipv4Addr::new(5, 6, 7, 8))
        .with_protocol(0)
        .with_payload(b"a\xffb")
        .build()
        .unwrap();
    let message = TestMessage::from_bytes(&packet);
    assert_eq!(message.ttl, 0);
    let header = Ipv4Header::from_slice(&packet).unwrap();
    assert_eq!(TestHandler::default().handle_packet(&header, &packet[20..]), text);

    let message = TestMessage::from_payload("h\u{e9}".into());
    assert_eq!(message.payload_len, 3);
    assert_eq!((message.ttl, message.protocol), (15, 0));
    assert_eq!(message.source, Ipv4Addr::new(0, 0, 0, 0));
    assert!(message.show_with("xy").ends_with("\txy\n---------------------------\n        "));
}

#[test]
fn acknowledgements_are_batched() {
    let header = TcpHeader::new(1, 2, 3, 4);
    assert!(AlwaysAck.should_ack(&header));
    let mut policy = BatchedAck::<3>::default();
    let acks: Vec<bool> = (0..7).map(|_| policy.should_ack(&header)).collect();
    assert_eq!(acks, vec![true, false, false, true, false, false, true]);
}

#[test]
fn socket_names_need_all_parts() {
    let ip = Ipv4Addr::new(1, 2, 3, 4);
    let mut b = SocketId::build();
    assert!(matches!(b.build(), Err(BuildSocketIdError::NoRemoteIp)));
    b.with_remote_ip(ip);
    assert!(matches!(b.build(), Err(BuildSocketIdError::NoRemotePort)));
    b.with_remote_port(Port(5));
    assert!(matches!(b.build(), Err(BuildSocketIdError::NoLocalPort)));
    b.with_local_port(Port(6));
    let id = b.build().unwrap();
    assert_eq!(id.remote(), Remote::new(ip, Port(5)));
    assert_eq!(id.local_port(), Port(6));
}

#[test]
fn races_are_won_once() {
    let mut race = RaceOneShotSender::new("sender");
    assert_eq!(race.take(), Ok("sender"));
    for _ in 0..3 {
        assert_eq!(race.take(), Err(SendError::AlreadySent));
    }
    assert_eq!(RaceOneShotSender::<u8>::sent(true), Ok(()));
    assert_eq!(RaceOneShotSender::<u8>::sent(false), Err(SendError::ReceiverDropped));
}

#[test]
fn closed_sockets_ask_for_connections() {
    let mut closed = Closed::new(7);
    assert!(closed.transition(StateTransition::toSynSent).is_some());
    assert!(closed.transition(StateTransition::toClosed).is_none());
    assert!(closed.transition(StateTransition::toEstablished).is_none());
    let conn = TcpConnection::new(7);
    assert_eq!((conn.id, conn.state.socket), (7, 7));
}

#[test]
fn spans_have_lengths() {
    assert_eq!(Duration::from_secs(2).as_nanos(), 2_000_000_000);
    assert_eq!(Duration::from_millis(3), Duration::from_nanos(3_000_000));
}
