//! Carrying out commands.

use crate::addr::Ipv4Addr;
use crate::cli::{
    interface_head, interface_lines, interfaces_text, route_lines, routes_text, text_of, Command,
    CommandView, IPv4SendCmd, RecvFileCmd, SendFileCmd, TCPReadCmd, TcpShutdownKind,
};
use crate::net::vtlink::datagram;
use crate::net::vtlink::link::{Datagram, Error};
use crate::net::SendError;
use crate::node::{switched, Node};
use crate::protocol::tcp::prelude::{Port, SocketDescriptor};
use crate::protocol::tcp::socket::Socket;
use crate::protocol::{protocol_number, Protocol};
use crate::text::{decimal, dotted, show_ipv4, show_number};
use vstd::prelude::*;
use vstd::utf8::encode_utf8;

verus! {

/// What is left to do of a command: to show, report or send something, or what takes time.
pub enum Effect {
    Nothing,
    /// A list, for a file or else for the screen.
    Show(Option<String>, String),
    Report(String),
    Transmit(Datagram),
    TcpSend(SocketDescriptor, Vec<u8>),
    Listen(Port),
    Connect(Ipv4Addr, Port),
    Read(TCPReadCmd),
    Shutdown(SocketDescriptor, TcpShutdownKind),
    Close(SocketDescriptor),
    SendFile(SendFileCmd),
    RecvFile(RecvFileCmd),
}

/// What an effect says.
pub enum EffectView {
    Nothing,
    Show(Option<Seq<char>>, Seq<char>),
    Report(Seq<char>),
    Transmit((u16, Seq<u8>)),
    TcpSend(SocketDescriptor, Seq<u8>),
    Listen(Port),
    Connect(Ipv4Addr, Port),
    Read(TCPReadCmd),
    Shutdown(SocketDescriptor, TcpShutdownKind),
    Close(SocketDescriptor),
    SendFile(Seq<char>, Ipv4Addr, Port),
    RecvFile(Seq<char>, Port),
}

impl View for Effect {
    type V = EffectView;

    open spec fn view(&self) -> EffectView {
        match self {
            Effect::Nothing => EffectView::Nothing,
            Effect::Show(file, text) => EffectView::Show(text_of(*file), text@),
            Effect::Report(text) => EffectView::Report(text@),
            Effect::Transmit(d) => EffectView::Transmit(datagram(*d)),
            Effect::TcpSend(d, payload) => EffectView::TcpSend(*d, payload@),
            Effect::Listen(port) => EffectView::Listen(*port),
            Effect::Connect(ip, port) => EffectView::Connect(*ip, *port),
            Effect::Read(cmd) => EffectView::Read(*cmd),
            Effect::Shutdown(d, kind) => EffectView::Shutdown(*d, *kind),
            Effect::Close(d) => EffectView::Close(*d),
            Effect::SendFile(c) => EffectView::SendFile(c.path@, c.dest_ip, c.port),
            Effect::RecvFile(c) => EffectView::RecvFile(c.out_path@, c.port),
        }
    }
}

/// What a command says as it begins, and what is left to do of it.
pub struct Execution {
    pub notice: Option<String>,
    pub effect: Effect,
}

/// A line for each socket.
pub open spec fn socket_lines(sockets: Seq<Socket>) -> Seq<char>
    decreases sockets.len(),
{
    if sockets.len() == 0 {
        Seq::empty()
    } else {
        socket_lines(sockets.drop_last()) + sockets.last().table_entry() + seq!['\n']
    }
}

/// The list of sockets.
pub fn sockets_text(sockets: &[Socket]) -> (r: String)
    requires
        forall|i: int| 0 <= i < sockets@.len() ==> can_be_listed(#[trigger] sockets@[i]),
    ensures
        r@ == socket_lines(sockets@),
{
    let mut r = String::new();
    let mut i: usize = 0;
    assert(r@ =~= socket_lines(sockets@.take(0)));
    while i < sockets.len()
        invariant
            i <= sockets@.len(),
            forall|k: int| 0 <= k < sockets@.len() ==> can_be_listed(#[trigger] sockets@[k]),
            r@ == socket_lines(sockets@.take(i as int)),
        decreases sockets@.len() - i,
    {
        assert(can_be_listed(sockets@[i as int]));
        r.append(sockets[i].as_table_entry_string().as_str());
        r.push('\n');
        proof {
            assert(sockets@.take(i + 1).drop_last() =~= sockets@.take(i as int));
            assert(r@ =~= socket_lines(sockets@.take(i + 1)));
        }
        i = i + 1;
    }
    assert(sockets@.take(sockets@.len() as int) =~= sockets@);
    r
}

/// Whether the windows of a socket are known: it is in order, and its sequence numbers fit in a
/// machine word.
pub open spec fn can_be_listed(socket: Socket) -> bool {
    &&& socket.wf()
    &&& socket.conn matches Some(conn) ==> conn.inner.recv_buf.ready()
}

/// The name of an error of a link.
pub open spec fn link_error_name(e: Error) -> Seq<char> {
    match e {
        Error::LinkNotFound => "LinkNotFound"@,
        Error::LinkInactive => "LinkInactive"@,
    }
}

fn show_link_error(e: Error) -> (r: String)
    ensures
        r@ == link_error_name(e),
{
    match e {
        Error::LinkNotFound => String::from_str("LinkNotFound"),
        Error::LinkInactive => String::from_str("LinkInactive"),
    }
}

/// The name of an error of sending.
pub open spec fn send_error_name(e: SendError) -> Seq<char> {
    match e {
        SendError::NoForwardingEntry => "NoForwardingEntry"@,
        SendError::Unreachable => "Unreachable"@,
        SendError::NoLink => "NoLink"@,
        SendError::Transport(e) => "Transport("@ + link_error_name(e) + ")"@,
    }
}

fn show_send_error(e: SendError) -> (r: String)
    ensures
        r@ == send_error_name(e),
{
    match e {
        SendError::NoForwardingEntry => String::from_str("NoForwardingEntry"),
        SendError::Unreachable => String::from_str("Unreachable"),
        SendError::NoLink => String::from_str("NoLink"),
        SendError::Transport(e) => {
            let mut r = String::from_str("Transport(");
            r.append(show_link_error(e).as_str());
            r.append(")");
            r
        },
    }
}

/// The name of a protocol.
pub open spec fn protocol_name(protocol: Protocol) -> Seq<char> {
    match protocol {
        Protocol::Rip => "Rip"@,
        Protocol::Test => "Test"@,
        Protocol::Tcp => "Tcp"@,
    }
}

fn show_protocol(protocol: Protocol) -> (r: String)
    ensures
        r@ == protocol_name(protocol),
{
    match protocol {
        Protocol::Rip => String::from_str("Rip"),
        Protocol::Test => String::from_str("Test"),
        Protocol::Tcp => String::from_str("Tcp"),
    }
}

/// What is said before a link is turned on or off.
pub open spec fn switch_notice(link_no: u16, up: bool) -> Seq<char> {
    (if up {
        "Turning up interface "@
    } else {
        "Turning down interface "@
    }) + decimal(link_no as nat)
}

/// What is said of a link that could not be turned on or off.
pub open spec fn switch_report(link_no: u16, up: bool) -> Seq<char> {
    "Failed to turn interface "@ + decimal(link_no as nat) + (if up {
        " up: "@
    } else {
        " down: "@
    }) + link_error_name(Error::LinkNotFound)
}

/// What is said before a packet is sent.
pub open spec fn send_notice(ip: Ipv4Addr, protocol: Protocol, payload: Seq<char>) -> Seq<char> {
    "Sending packet \""@ + payload + "\" with protocol "@ + protocol_name(protocol) + " to "@
        + dotted(ip)
}

/// Whether a link of the host was turned on or off, where it exists, and this was reported.
pub open spec fn switches<H>(
    before: Node<H>,
    link_no: u16,
    up: bool,
    after: Node<H>,
    notice: Option<Seq<char>>,
    effect: EffectView,
) -> bool {
    let r = if link_no < before.net.links@.len() {
        Ok::<(), Error>(())
    } else {
        Err(Error::LinkNotFound)
    };
    &&& switched(before.net, link_no, up, r, after.net)
    &&& after == (Node { net: after.net, ..before })
    &&& notice == Some(switch_notice(link_no, up))
    &&& effect == (match r {
        Ok(_) => EffectView::Nothing,
        Err(_) => EffectView::Report(switch_report(link_no, up)),
    })
}

/// Whether `after` is what a host becomes by a command, `notice` is what is said as it begins, and
/// `effect` what is left to do.
pub open spec fn executed<H>(
    before: Node<H>,
    cmd: CommandView,
    after: Node<H>,
    notice: Option<Seq<char>>,
    effect: EffectView,
) -> bool {
    match cmd {
        CommandView::InterfaceDown(n) => switches(before, n, false, after, notice, effect),
        CommandView::InterfaceUp(n) => switches(before, n, true, after, notice, effect),
        CommandView::SendIPv4Packet(ip, protocol, payload) => {
            &&& after == before
            &&& notice == Some(send_notice(ip, protocol, payload))
            &&& effect == (match before.net.outgoing(
                encode_utf8(payload),
                protocol_number(protocol),
                ip,
            ) {
                Ok(out) => EffectView::Transmit(out),
                Err(e) => EffectView::Report("Failed to send packet: "@ + send_error_name(e)),
            })
        },
        CommandView::Quit => {
            &&& after == before
            &&& notice == Some("Quitting"@)
            &&& effect == EffectView::Nothing
        },
        _ => {
            &&& after == before
            &&& notice is None
            &&& effect == match cmd {
                CommandView::ListInterface(file) => EffectView::Show(
                    file,
                    interface_head(file is Some) + interface_lines(before.net.links@),
                ),
                CommandView::ListRoute(file) => EffectView::Show(
                    file,
                    "dest\t\tnext\t\tcost\n"@ + route_lines(before.net.routes@),
                ),
                CommandView::ListSockets(file) => EffectView::Show(
                    file,
                    socket_lines(before.tcp.sockets@),
                ),
                CommandView::SendTCPPacket(d, payload) => EffectView::TcpSend(d, payload),
                CommandView::OpenListenSocket(port) => EffectView::Listen(port),
                CommandView::ConnectSocket(ip, port) => EffectView::Connect(ip, port),
                CommandView::ReadSocket(c) => EffectView::Read(c),
                CommandView::Shutdown(d, kind) => EffectView::Shutdown(d, kind),
                CommandView::Close(d) => EffectView::Close(d),
                CommandView::SendFile(path, ip, port) => EffectView::SendFile(path, ip, port),
                CommandView::RecvFile(path, port) => EffectView::RecvFile(path, port),
                _ => EffectView::Nothing,
            }
        },
    }
}

/// Turns a link on or off.
fn switch_link<H>(node: &mut Node<H>, link_no: u16, up: bool) -> (r: Execution)
    requires
        old(node).wf(),
    ensures
        final(node).wf(),
        switches(*old(node), link_no, up, *final(node), text_of(r.notice), r.effect@),
{
    let mut notice = if up {
        String::from_str("Turning up interface ")
    } else {
        String::from_str("Turning down interface ")
    };
    notice.append(show_number(link_no as u64).as_str());
    let switched = if up {
        node.activate(link_no)
    } else {
        node.deactivate(link_no)
    };
    let effect = match switched {
        Ok(_) => Effect::Nothing,
        Err(e) => {
            let mut text = String::from_str("Failed to turn interface ");
            text.append(show_number(link_no as u64).as_str());
            text.append(
                if up {
                    " up: "
                } else {
                    " down: "
                },
            );
            text.append(show_link_error(e).as_str());
            Effect::Report(text)
        },
    };
    Execution { notice: Some(notice), effect }
}

/// Sends a packet.
fn send_packet<H>(node: &Node<H>, cmd: IPv4SendCmd) -> (r: Execution)
    requires
        encode_utf8(cmd.payload@).len() <= 65515,
    ensures
        executed(
            *node,
            CommandView::SendIPv4Packet(cmd.virtual_ip, cmd.protocol, cmd.payload@),
            *node,
            text_of(r.notice),
            r.effect@,
        ),
{
    let mut notice = String::from_str("Sending packet \"");
    notice.append(cmd.payload.as_str());
    notice.append("\" with protocol ");
    notice.append(show_protocol(cmd.protocol).as_str());
    notice.append(" to ");
    notice.append(show_ipv4(cmd.virtual_ip).as_str());
    let sent = node.send(
        cmd.payload.as_str().as_bytes(),
        u8::from(cmd.protocol),
        cmd.virtual_ip,
    );
    let effect = match sent {
        Ok(d) => Effect::Transmit(d),
        Err(e) => {
            let mut text = String::from_str("Failed to send packet: ");
            text.append(show_send_error(e).as_str());
            Effect::Report(text)
        },
    };
    Execution { notice: Some(notice), effect }
}

/// Carries a command out, as far as that takes no time.
pub fn execute_command<H>(node: &mut Node<H>, cmd: Command) -> (r: Execution)
    requires
        old(node).wf(),
        cmd matches Command::SendIPv4Packet(c) ==> encode_utf8(c.payload@).len() <= 65515,
        cmd is ListSockets ==> forall|i: int|
            0 <= i < old(node).tcp.sockets@.len() ==> can_be_listed(
                #[trigger] old(node).tcp.sockets@[i],
            ),
    ensures
        final(node).wf(),
        executed(*old(node), cmd@, *final(node), text_of(r.notice), r.effect@),
{
    let effect = match cmd {
        Command::Empty => Effect::Nothing,
        Command::ListInterface(file) => {
            let text = interfaces_text(node.iter_links(), file.is_some());
            Effect::Show(file, text)
        },
        Command::ListRoute(file) => {
            let text = routes_text(node.net.get_forwarding_table().entries());
            Effect::Show(file, text)
        },
        Command::ListSockets(file) => {
            let text = sockets_text(node.tcp.sockets.as_slice());
            Effect::Show(file, text)
        },
        Command::InterfaceDown(interface) => return switch_link(node, interface, false),
        Command::InterfaceUp(interface) => return switch_link(node, interface, true),
        Command::SendIPv4Packet(cmd) => return send_packet(node, cmd),
        Command::SendTCPPacket(descriptor, payload) => Effect::TcpSend(descriptor, payload),
        Command::OpenListenSocket(port) => Effect::Listen(port),
        Command::ConnectSocket(ip, port) => Effect::Connect(ip, port),
        Command::ReadSocket(cmd) => Effect::Read(cmd),
        Command::Shutdown(descriptor, kind) => Effect::Shutdown(descriptor, kind),
        Command::Close(descriptor) => Effect::Close(descriptor),
        Command::SendFile(cmd) => Effect::SendFile(cmd),
        Command::RecvFile(cmd) => Effect::RecvFile(cmd),
        Command::Quit => {
            return Execution {
                notice: Some(String::from_str("Quitting")),
                effect: Effect::Nothing,
            };
        },
    };
    Execution { notice: None, effect }
}

} // verus!
