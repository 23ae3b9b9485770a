//! Reading commands.

use ip::addr::Ipv4Addr;
use ip::cli::errors::{
    ParseConnectError, ParseDownError, ParseError, ParseOpenListenSocketError, ParseRecvFileError,
    ParseSendError, ParseSendFileError, ParseTcpReadError, ParseTcpSendError,
    ParseTcpShutdownError, ParseUpError,
};
use ip::cli::{
    interfaces_text, routes_text, Cli, Command, IPv4SendCmd, Reaction, RecvFileCmd, SendFileCmd,
    TCPReadCmd, TcpShutdownKind,
};
use ip::net::vtlink::fwd::Entry;
use ip::net::vtlink::link::{Link, LinkDefinition};
use ip::protocol::tcp::prelude::{Port, SocketDescriptor};
use ip::protocol::Protocol;
use ip::repl::{HandleUserInput, HandleUserInputError, Repl, Step};

#[test]
fn parse_connect() {
    assert_eq!(
        Cli::parse_command("c".into()).unwrap_err(),
        ParseConnectError::NoIp.into()
    );

    assert_eq!(
        Cli::parse_command("c 1".into()).unwrap_err(),
        ParseConnectError::InvalidIp.into()
    );

    assert_eq!(
        Cli::parse_command("c 1.2.3.4".into()).unwrap_err(),
        ParseConnectError::NoPort.into()
    );

    assert_eq!(
        Cli::parse_command("c 1.2.3.4 ss".into()).unwrap_err(),
        ParseConnectError::InvalidPort.into()
    );

    let c = Cli::parse_command("c 1.2.3.4 33".into()).unwrap();
    let expected = Command::ConnectSocket(Ipv4Addr::new(1, 2, 3, 4), 33u16.into());
    assert_eq!(c, expected);
}

#[test]
fn parse_tcp_send() {
    assert_eq!(
        Cli::parse_command("s".into()).unwrap_err(),
        ParseTcpSendError::NoSocketDescriptor.into(),
    );

    assert_eq!(
        Cli::parse_command("s ssss".into()).unwrap_err(),
        ParseTcpSendError::InvalidSocketDescriptor.into(),
    );

    assert_eq!(
        Cli::parse_command("s 33".into()).unwrap_err(),
        ParseTcpSendError::NoPayload.into(),
    );

    let c = Cli::parse_command("s 33 heehee".into()).unwrap();
    let expected = Command::SendTCPPacket(
        SocketDescriptor(33),
        String::from("heehee").as_bytes().into(),
    );
    assert_eq!(c, expected);
}

#[test]
fn parse_tcp_read() {
    assert_eq!(
        Cli::parse_command("r".into()).unwrap_err(),
        ParseTcpReadError::NoSocketDescriptor.into(),
    );

    assert_eq!(
        Cli::parse_command("r ssss".into()).unwrap_err(),
        ParseTcpReadError::InvalidSocketDescriptor.into(),
    );

    assert_eq!(
        Cli::parse_command("r 33".into()).unwrap_err(),
        ParseTcpReadError::NoNumBytesToRead.into(),
    );

    assert_eq!(
        Cli::parse_command("r 33 heehee".into()).unwrap_err(),
        ParseTcpReadError::InvalidNumBytesToRead.into()
    );

    assert_eq!(
        Cli::parse_command("r 33 100 n".into()).unwrap_err(),
        ParseTcpReadError::InvalidBlockingIndicator.into()
    );

    let c = Cli::parse_command("r 33 100 y".into()).unwrap();
    assert_eq!(
        c,
        TCPReadCmd::new_blocking(SocketDescriptor(33), 100).into()
    );
    let c = Cli::parse_command("r 33 100 N".into()).unwrap();
    assert_eq!(
        c,
        TCPReadCmd::new_nonblocking(SocketDescriptor(33), 100).into()
    );
    let c = Cli::parse_command("r 33 100".into()).unwrap();
    assert_eq!(
        c,
        TCPReadCmd::new_nonblocking(SocketDescriptor(33), 100).into()
    );
}

#[test]
fn parse_tcp_shutdown() {
    assert_eq!(
        Cli::parse_command("sd".into()).unwrap_err(),
        ParseTcpShutdownError::NoSocketDescriptor.into(),
    );

    assert_eq!(
        Cli::parse_command("sd ss".into()).unwrap_err(),
        ParseTcpShutdownError::InvalidSocketDescriptor.into(),
    );

    assert_eq!(
        Cli::parse_command("sd 3 yes".into()).unwrap_err(),
        ParseTcpShutdownError::InvalidShutdownType("yes".into()).into(),
    );

    let c = Cli::parse_command("sd 3".into()).unwrap();
    assert_eq!(
        c,
        Command::Shutdown(SocketDescriptor(3), TcpShutdownKind::Write)
    );

    let c = Cli::parse_command("sd 3 r".into()).unwrap();
    assert_eq!(
        c,
        Command::Shutdown(SocketDescriptor(3), TcpShutdownKind::Read)
    );

    let c = Cli::parse_command("sd 3 read".into()).unwrap();
    assert_eq!(
        c,
        Command::Shutdown(SocketDescriptor(3), TcpShutdownKind::Read)
    );

    let c = Cli::parse_command("sd 3 w".into()).unwrap();
    assert_eq!(
        c,
        Command::Shutdown(SocketDescriptor(3), TcpShutdownKind::Write)
    );

    let c = Cli::parse_command("sd 3 write".into()).unwrap();
    assert_eq!(
        c,
        Command::Shutdown(SocketDescriptor(3), TcpShutdownKind::Write)
    );

    let c = Cli::parse_command("sd 3 both".into()).unwrap();
    assert_eq!(
        c,
        Command::Shutdown(SocketDescriptor(3), TcpShutdownKind::ReadWrite)
    );
}

#[test]
fn parse_close_socket() {
    assert_eq!(
        Cli::parse_command("cl".into()).unwrap_err(),
        ParseTcpShutdownError::NoSocketDescriptor.into(),
    );

    assert_eq!(
        Cli::parse_command("cl xx".into()).unwrap_err(),
        ParseTcpShutdownError::InvalidSocketDescriptor.into(),
    );

    let c = Cli::parse_command("cl 33".into()).unwrap();
    assert_eq!(c, Command::Close(SocketDescriptor(33)));
}

#[test]
fn parse_send_file() {
    assert_eq!(
        Cli::parse_command("sf".into()).unwrap_err(),
        ParseSendFileError::NoFile.into(),
    );

    assert_eq!(
        Cli::parse_command("sf hello_world".into()).unwrap_err(),
        ParseSendFileError::NoIp.into(),
    );

    assert_eq!(
        Cli::parse_command("sf hello_world 121".into()).unwrap_err(),
        ParseSendFileError::InvalidIp.into(),
    );

    assert_eq!(
        Cli::parse_command("sf hello_world 1.2.3.4".into()).unwrap_err(),
        ParseSendFileError::NoPort.into(),
    );

    assert_eq!(
        Cli::parse_command("sf hello_world 1.2.3.4 xxx".into()).unwrap_err(),
        ParseSendFileError::InvalidPort.into(),
    );

    let c = Cli::parse_command("sf hello 1.2.3.4 3434".into()).unwrap();
    assert_eq!(
        c,
        Command::SendFile(SendFileCmd::new(
            "hello".into(),
            Ipv4Addr::new(1, 2, 3, 4),
            Port(3434)
        ))
    );
}

#[test]
fn parse_recv_file() {
    assert_eq!(
        Cli::parse_command("rf".into()).unwrap_err(),
        ParseRecvFileError::NoFile.into()
    );

    assert_eq!(
        Cli::parse_command("rf hello".into()).unwrap_err(),
        ParseRecvFileError::NoPort.into()
    );

    assert_eq!(
        Cli::parse_command("rf hello xx".into()).unwrap_err(),
        ParseRecvFileError::InvalidPort.into()
    );

    let c = Cli::parse_command("rf hello 5000".into()).unwrap();
    assert_eq!(
        c,
        Command::RecvFile(RecvFileCmd::new(String::from("hello"), Port(5000)))
    );
}

#[test]
fn lists_take_an_optional_file() {
    let parse = |s: &str| Cli::parse_command(s.into()).unwrap();
    assert_eq!(parse("li"), Command::ListInterface(None));
    assert_eq!(parse("interfaces out"), Command::ListInterface(Some("out".into())));
    assert_eq!(parse("lr"), Command::ListRoute(None));
    assert_eq!(parse("routes out more"), Command::ListRoute(Some("out".into())));
    assert_eq!(parse("ls"), Command::ListSockets(None));
    assert_eq!(parse("  ls\tout "), Command::ListSockets(Some("out".into())));
    assert_eq!(parse("q"), Command::Quit);
    assert_eq!(parse(""), Command::Empty);
    assert_eq!(parse(" \t "), Command::Empty);
}

#[test]
fn parse_link_numbers() {
    let parse = |s: &str| Cli::parse_command(s.into());
    assert_eq!(parse("down 7").unwrap(), Command::InterfaceDown(7));
    assert_eq!(parse("up +65535").unwrap(), Command::InterfaceUp(65535));
    assert_eq!(parse("down").unwrap_err(), ParseDownError::NoLinkId.into());
    assert_eq!(parse("down x").unwrap_err(), ParseDownError::InvalidLinkId.into());
    assert_eq!(parse("up").unwrap_err(), ParseUpError::NoLinkId.into());
    assert_eq!(parse("up 65536").unwrap_err(), ParseUpError::InvalidLinkId.into());
    assert_eq!(parse("up -1").unwrap_err(), ParseUpError::InvalidLinkId.into());
}

#[test]
fn parse_listen() {
    let parse = |s: &str| Cli::parse_command(s.into());
    assert_eq!(parse("a 5000").unwrap(), Command::OpenListenSocket(Port(5000)));
    assert_eq!(parse("a").unwrap_err(), ParseOpenListenSocketError::NoPort.into());
    assert_eq!(parse("a b").unwrap_err(), ParseOpenListenSocketError::InvalidPort.into());
}

#[test]
fn parse_send_packet() {
    let parse = |s: &str| Cli::parse_command(s.into());
    assert_eq!(
        parse("send 10.0.0.1 0 hello there world").unwrap(),
        Command::SendIPv4Packet(IPv4SendCmd {
            virtual_ip: Ipv4Addr::new(10, 0, 0, 1),
            protocol: Protocol::Test,
            payload: "hellothereworld".into(),
        })
    );
    assert_eq!(
        parse("send 10.0.0.1 200").unwrap(),
        Command::SendIPv4Packet(IPv4SendCmd {
            virtual_ip: Ipv4Addr::new(10, 0, 0, 1),
            protocol: Protocol::Rip,
            payload: "".into(),
        })
    );
    assert_eq!(parse("send").unwrap_err(), ParseSendError::NoIp.into());
    assert_eq!(parse("send x").unwrap_err(), ParseSendError::NoProtocol.into());
    assert_eq!(parse("send x y").unwrap_err(), ParseSendError::InvalidIp.into());
    assert_eq!(parse("send 1.2.3.4 y").unwrap_err(), ParseSendError::InvalidProtocol.into());
    assert_eq!(parse("send 1.2.3 0").unwrap_err(), ParseSendError::InvalidIp.into());
}

#[test]
fn errors_say_how_a_command_is_used() {
    let text = |s: &str| Cli::parse_command(s.into()).unwrap_err().to_text();
    assert_eq!(text("hello"), "Unknown command");
    assert_eq!(text("down"), "Invalid down command. Usage: down <integer>. Error: NoLinkId");
    assert_eq!(text("up x"), "Invalid up command. Usage: up <integer>. Error: InvalidLinkId");
    assert_eq!(
        text("send"),
        "Invalid send command. Usage: send <vip> <proto> <string>. Error: NoIp"
    );
    assert_eq!(text("a x"), "Invalid open socket command. Usage: a <port>. Error: InvalidPort");
    assert_eq!(text("c 1.2.3.4"), "Invalid connect command. Usage: c <ip> <port>. Error: NoPort");
    assert_eq!(
        text("s 3"),
        "Invalid send command. Usage: s <socket_id> <data>. Error: NoPayload"
    );
    assert_eq!(
        text("r 3 4 x"),
        "Invalid read command. Usage: r <socket ID> <numbytes> <y|N>. Error: InvalidBlockingIndicator"
    );
    assert_eq!(
        text("sd 3 ye\"s"),
        "Invalid shutdown command. Usage: sd <socket ID> <read|write|both>. Error: InvalidShutdownType(\"ye\\\"s\")"
    );
    assert_eq!(
        text("sf a"),
        "Invalid send file command. Usage: sf <filename> <ip> <port>. Error: NoIp"
    );
    assert_eq!(
        text("rf a"),
        "Invalid receive file command. Usage: rf <filename> <port>. Error: NoPort"
    );
    assert_eq!(Cli::parse_command("nope".into()).unwrap_err(), ParseError::Unknown);
}

#[test]
fn loop_stops_on_quit() {
    let mut repl = Repl::new(Cli::new(), Some(">> ".into()));
    assert_eq!(repl.prompt().unwrap(), ">> ");
    assert!(matches!(repl.serve(None), Step::Again));
    assert!(matches!(repl.serve(Some("".into())), Step::React(Reaction::Nothing)));
    match repl.serve(Some("cl 4".into())) {
        Step::React(Reaction::Execute(c)) => {
            assert_eq!(c, Command::Close(SocketDescriptor(4)));
        }
        _ => panic!("the command is executed"),
    }
    match repl.serve(Some("up".into())) {
        Step::React(Reaction::Report(e)) => {
            assert_eq!(e, "Invalid up command. Usage: up <integer>. Error: NoLinkId");
        }
        _ => panic!("the error is reported"),
    }
    assert!(matches!(repl.serve(Some("q".into())), Step::Stop));
    assert_eq!(Cli::new().handle("q".into()), Err(HandleUserInputError::Terminate));
}

#[test]
fn lists_are_written() {
    let def = LinkDefinition {
        dest_port: 5002,
        interface_ip: Ipv4Addr::new(192, 168, 0, 3),
        dest_ip: Ipv4Addr::new(192, 168, 0, 4),
    };
    let up: Link = def.into_link();
    let mut down: Link = def.into_link();
    down.deactivate();
    let links = vec![up, down];
    assert_eq!(
        interfaces_text(&links, true),
        "id\tstate\tlocal\t\tremote\tport\n\
         0\tup\t192.168.0.3\t192.168.0.4\t5002\n\
         1\tdown\t192.168.0.3\t192.168.0.4\t5002\n"
    );
    assert_eq!(
        interfaces_text(&[], false),
        "id\tstate\tlocal\t\tremote\t        port\n"
    );
    let entries = vec![Entry::new(Ipv4Addr::new(10, 0, 0, 1), Ipv4Addr::new(10, 0, 0, 2), 16)];
    assert_eq!(
        routes_text(&entries),
        "dest\t\tnext\t\tcost\n10.0.0.1\t10.0.0.2\t16\n"
    );
}
