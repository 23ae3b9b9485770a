//! The commands of a node.

use crate::addr::Ipv4Addr;
use crate::cli::errors::{
    error_text, ParseConnectError, ParseDownError, ParseError, ParseErrorView,
    ParseOpenListenSocketError, ParseRecvFileError, ParseSendError, ParseSendFileError,
    ParseTcpReadError, ParseTcpSendError, ParseTcpShutdownError, ParseUpError, ShutdownErrorView,
};
use crate::net::vtlink::fwd::{Entry, Route};
use crate::net::vtlink::link::{state_text, Link};
use crate::protocol::tcp::prelude::{Port, SocketDescriptor};
use crate::protocol::tcp::socket::Socket;
use crate::protocol::tcp::{TcpAcceptError, TcpConnError, TcpListenError, TcpSendError};
use crate::protocol::{protocol_named, Protocol};
use crate::repl::{HandleUserInput, HandleUserInputError};
use crate::text::{
    bounded_number, decimal, dotted, ipv4, parse_ipv4, parse_u16, parse_usize, same_text,
    show_number, split_whitespace, texts, words,
};
use vstd::prelude::*;
use vstd::std_specs::convert::FromSpecImpl;
use vstd::utf8::encode_utf8;

pub mod errors;
pub mod exec;
pub mod laws;

verus! {

#[derive(Debug, PartialEq, Eq)]
pub enum Command {
    ListInterface(Option<String>),
    ListRoute(Option<String>),
    ListSockets(Option<String>),
    InterfaceDown(u16),
    InterfaceUp(u16),
    SendIPv4Packet(IPv4SendCmd),
    SendTCPPacket(SocketDescriptor, Vec<u8>),
    OpenListenSocket(Port),
    ConnectSocket(Ipv4Addr, Port),
    ReadSocket(TCPReadCmd),
    Shutdown(SocketDescriptor, TcpShutdownKind),
    Close(SocketDescriptor),
    SendFile(SendFileCmd),
    RecvFile(RecvFileCmd),
    Quit,
    Empty,
}

#[derive(Debug, PartialEq, Eq, Structural, Clone, Copy)]
pub enum TcpShutdownKind {
    Read,
    Write,
    ReadWrite,
}

#[derive(Debug)]
pub enum SendFileError {
    OpenFile(std::io::Error),
    ReadFile(std::io::Error),
    Connect(TcpConnError),
    Send(TcpSendError),
}

#[derive(Debug, PartialEq, Eq)]
pub struct SendFileCmd {
    pub path: String,
    pub dest_ip: Ipv4Addr,
    pub port: Port,
}

impl SendFileCmd {
    pub fn new(path: String, dest_ip: Ipv4Addr, port: Port) -> (r: Self)
        ensures
            r == (SendFileCmd { path, dest_ip, port }),
    {
        Self { path, dest_ip, port }
    }
}

impl FromSpecImpl<SendFileCmd> for Command {
    open spec fn obeys_from_spec() -> bool {
        true
    }

    open spec fn from_spec(s: SendFileCmd) -> Self {
        Command::SendFile(s)
    }
}

impl From<SendFileCmd> for Command {
    fn from(s: SendFileCmd) -> (r: Self) {
        Command::SendFile(s)
    }
}

#[derive(Debug)]
pub enum RecvFileError {
    FileIo(std::io::Error),
    Listen(TcpListenError),
    Accept(TcpAcceptError),
}

impl FromSpecImpl<std::io::Error> for RecvFileError {
    open spec fn obeys_from_spec() -> bool {
        true
    }

    open spec fn from_spec(e: std::io::Error) -> Self {
        RecvFileError::FileIo(e)
    }
}

impl From<std::io::Error> for RecvFileError {
    fn from(e: std::io::Error) -> (r: Self) {
        RecvFileError::FileIo(e)
    }
}

#[derive(Debug, PartialEq, Eq)]
pub struct RecvFileCmd {
    pub out_path: String,
    pub port: Port,
}

impl RecvFileCmd {
    pub fn new(out_path: String, port: Port) -> (r: Self)
        ensures
            r == (RecvFileCmd { out_path, port }),
    {
        Self { out_path, port }
    }
}

impl FromSpecImpl<RecvFileCmd> for Command {
    open spec fn obeys_from_spec() -> bool {
        true
    }

    open spec fn from_spec(s: RecvFileCmd) -> Self {
        Command::RecvFile(s)
    }
}

impl From<RecvFileCmd> for Command {
    fn from(s: RecvFileCmd) -> (r: Self) {
        Command::RecvFile(s)
    }
}

#[derive(Debug, PartialEq, Eq, Structural, Clone, Copy)]
pub struct TCPReadCmd {
    pub descriptor: SocketDescriptor,
    pub num_bytes: usize,
    pub would_block: bool,
}

pub type TcpReadCmd = TCPReadCmd;

impl TCPReadCmd {
    pub fn new_blocking(descriptor: SocketDescriptor, num_bytes: usize) -> (r: Self)
        ensures
            r == (TCPReadCmd { descriptor, num_bytes, would_block: true }),
    {
        Self { descriptor, num_bytes, would_block: true }
    }

    pub fn new_nonblocking(descriptor: SocketDescriptor, num_bytes: usize) -> (r: Self)
        ensures
            r == (TCPReadCmd { descriptor, num_bytes, would_block: false }),
    {
        Self { descriptor, num_bytes, would_block: false }
    }
}

impl FromSpecImpl<TCPReadCmd> for Command {
    open spec fn obeys_from_spec() -> bool {
        true
    }

    open spec fn from_spec(r: TCPReadCmd) -> Self {
        Command::ReadSocket(r)
    }
}

impl From<TCPReadCmd> for Command {
    fn from(r: TCPReadCmd) -> (c: Self) {
        Command::ReadSocket(r)
    }
}

#[derive(Debug, PartialEq, Eq)]
pub struct IPv4SendCmd {
    pub virtual_ip: Ipv4Addr,
    pub protocol: Protocol,
    pub payload: String,
}

/// What a command says.
pub enum CommandView {
    ListInterface(Option<Seq<char>>),
    ListRoute(Option<Seq<char>>),
    ListSockets(Option<Seq<char>>),
    InterfaceDown(u16),
    InterfaceUp(u16),
    SendIPv4Packet(Ipv4Addr, Protocol, Seq<char>),
    SendTCPPacket(SocketDescriptor, Seq<u8>),
    OpenListenSocket(Port),
    ConnectSocket(Ipv4Addr, Port),
    ReadSocket(TCPReadCmd),
    Shutdown(SocketDescriptor, TcpShutdownKind),
    Close(SocketDescriptor),
    SendFile(Seq<char>, Ipv4Addr, Port),
    RecvFile(Seq<char>, Port),
    Quit,
    Empty,
}

/// The text that is there, if any.
pub open spec fn text_of(s: Option<String>) -> Option<Seq<char>> {
    match s {
        Some(s) => Some(s@),
        None => None,
    }
}

impl View for Command {
    type V = CommandView;

    open spec fn view(&self) -> CommandView {
        match self {
            Command::ListInterface(file) => CommandView::ListInterface(text_of(*file)),
            Command::ListRoute(file) => CommandView::ListRoute(text_of(*file)),
            Command::ListSockets(file) => CommandView::ListSockets(text_of(*file)),
            Command::InterfaceDown(n) => CommandView::InterfaceDown(*n),
            Command::InterfaceUp(n) => CommandView::InterfaceUp(*n),
            Command::SendIPv4Packet(c) => CommandView::SendIPv4Packet(
                c.virtual_ip,
                c.protocol,
                c.payload@,
            ),
            Command::SendTCPPacket(d, payload) => CommandView::SendTCPPacket(*d, payload@),
            Command::OpenListenSocket(port) => CommandView::OpenListenSocket(*port),
            Command::ConnectSocket(ip, port) => CommandView::ConnectSocket(*ip, *port),
            Command::ReadSocket(c) => CommandView::ReadSocket(*c),
            Command::Shutdown(d, kind) => CommandView::Shutdown(*d, *kind),
            Command::Close(d) => CommandView::Close(*d),
            Command::SendFile(c) => CommandView::SendFile(c.path@, c.dest_ip, c.port),
            Command::RecvFile(c) => CommandView::RecvFile(c.out_path@, c.port),
            Command::Quit => CommandView::Quit,
            Command::Empty => CommandView::Empty,
        }
    }
}

/// The word at a place, if there is one.
pub open spec fn word(w: Seq<Seq<char>>, i: int) -> Option<Seq<char>> {
    if i < w.len() {
        Some(w[i])
    } else {
        None
    }
}

/// The number of sixteen bits that a word writes.
pub open spec fn word_u16(w: Seq<char>) -> Option<u16> {
    match bounded_number(w, u16::MAX as nat) {
        Some(n) => Some(n as u16),
        None => None,
    }
}

/// The words from a place on, one right behind the other.
pub open spec fn joined(w: Seq<Seq<char>>, from: int) -> Seq<char>
    decreases w.len() - from,
{
    if from >= w.len() {
        Seq::empty()
    } else {
        w[from] + joined(w, from + 1)
    }
}

/// The command "down", with the words behind it.
pub open spec fn parsed_down(w: Seq<Seq<char>>) -> Result<CommandView, ParseErrorView> {
    if w.len() < 2 {
        Err(ParseErrorView::Down(ParseDownError::NoLinkId))
    } else {
        match word_u16(w[1]) {
            Some(n) => Ok(CommandView::InterfaceDown(n)),
            None => Err(ParseErrorView::Down(ParseDownError::InvalidLinkId)),
        }
    }
}

/// The command "up", with the words behind it.
pub open spec fn parsed_up(w: Seq<Seq<char>>) -> Result<CommandView, ParseErrorView> {
    if w.len() < 2 {
        Err(ParseErrorView::Up(ParseUpError::NoLinkId))
    } else {
        match word_u16(w[1]) {
            Some(n) => Ok(CommandView::InterfaceUp(n)),
            None => Err(ParseErrorView::Up(ParseUpError::InvalidLinkId)),
        }
    }
}

/// The command "send", with the words behind it.
pub open spec fn parsed_send(w: Seq<Seq<char>>) -> Result<CommandView, ParseErrorView> {
    if w.len() < 2 {
        Err(ParseErrorView::Send(ParseSendError::NoIp))
    } else if w.len() < 3 {
        Err(ParseErrorView::Send(ParseSendError::NoProtocol))
    } else if ipv4(w[1]) is None {
        Err(ParseErrorView::Send(ParseSendError::InvalidIp))
    } else {
        match protocol_named(w[2]) {
            Ok(protocol) => Ok(
                CommandView::SendIPv4Packet(ipv4(w[1])->0, protocol, joined(w, 3)),
            ),
            Err(_) => Err(ParseErrorView::Send(ParseSendError::InvalidProtocol)),
        }
    }
}

/// The command "a", with the words behind it.
pub open spec fn parsed_listen(w: Seq<Seq<char>>) -> Result<CommandView, ParseErrorView> {
    if w.len() < 2 {
        Err(ParseErrorView::OpenListenSocket(ParseOpenListenSocketError::NoPort))
    } else {
        match word_u16(w[1]) {
            Some(n) => Ok(CommandView::OpenListenSocket(Port(n))),
            None => Err(
                ParseErrorView::OpenListenSocket(ParseOpenListenSocketError::InvalidPort),
            ),
        }
    }
}

/// The command "c", with the words behind it.
pub open spec fn parsed_connect(w: Seq<Seq<char>>) -> Result<CommandView, ParseErrorView> {
    if w.len() < 2 {
        Err(ParseErrorView::Connect(ParseConnectError::NoIp))
    } else if ipv4(w[1]) is None {
        Err(ParseErrorView::Connect(ParseConnectError::InvalidIp))
    } else if w.len() < 3 {
        Err(ParseErrorView::Connect(ParseConnectError::NoPort))
    } else {
        match word_u16(w[2]) {
            Some(n) => Ok(CommandView::ConnectSocket(ipv4(w[1])->0, Port(n))),
            None => Err(ParseErrorView::Connect(ParseConnectError::InvalidPort)),
        }
    }
}

/// The command "s", with the words behind it.
pub open spec fn parsed_tcp_send(w: Seq<Seq<char>>) -> Result<CommandView, ParseErrorView> {
    if w.len() < 2 {
        Err(ParseErrorView::TcpSend(ParseTcpSendError::NoSocketDescriptor))
    } else {
        match word_u16(w[1]) {
            Some(n) => if w.len() < 3 {
                Err(ParseErrorView::TcpSend(ParseTcpSendError::NoPayload))
            } else {
                Ok(CommandView::SendTCPPacket(SocketDescriptor(n), encode_utf8(w[2])))
            },
            None => Err(ParseErrorView::TcpSend(ParseTcpSendError::InvalidSocketDescriptor)),
        }
    }
}

/// The command "r", with the words behind it.
pub open spec fn parsed_tcp_read(w: Seq<Seq<char>>) -> Result<CommandView, ParseErrorView> {
    if w.len() < 2 {
        Err(ParseErrorView::TcpRead(ParseTcpReadError::NoSocketDescriptor))
    } else if word_u16(w[1]) is None {
        Err(ParseErrorView::TcpRead(ParseTcpReadError::InvalidSocketDescriptor))
    } else if w.len() < 3 {
        Err(ParseErrorView::TcpRead(ParseTcpReadError::NoNumBytesToRead))
    } else {
        match bounded_number(w[2], usize::MAX as nat) {
            None => Err(ParseErrorView::TcpRead(ParseTcpReadError::InvalidNumBytesToRead)),
            Some(n) => {
                let descriptor = SocketDescriptor(word_u16(w[1])->0);
                let num_bytes = n as usize;
                if w.len() < 4 || w[3] == "N"@ {
                    Ok(
                        CommandView::ReadSocket(
                            TCPReadCmd { descriptor, num_bytes, would_block: false },
                        ),
                    )
                } else if w[3] == "y"@ {
                    Ok(
                        CommandView::ReadSocket(
                            TCPReadCmd { descriptor, num_bytes, would_block: true },
                        ),
                    )
                } else {
                    Err(ParseErrorView::TcpRead(ParseTcpReadError::InvalidBlockingIndicator))
                }
            },
        }
    }
}

/// The way to shut down that a word names: one end, or both.
pub open spec fn shutdown_kind(w: Seq<char>) -> Option<TcpShutdownKind> {
    if w == "w"@ || w == "write"@ {
        Some(TcpShutdownKind::Write)
    } else if w == "r"@ || w == "read"@ {
        Some(TcpShutdownKind::Read)
    } else if w == "both"@ {
        Some(TcpShutdownKind::ReadWrite)
    } else {
        None
    }
}

/// The command "sd", with the words behind it.
pub open spec fn parsed_shutdown(w: Seq<Seq<char>>) -> Result<CommandView, ParseErrorView> {
    if w.len() < 2 {
        Err(ParseErrorView::TcpShutdown(ShutdownErrorView::NoSocketDescriptor))
    } else {
        match word_u16(w[1]) {
            None => Err(ParseErrorView::TcpShutdown(ShutdownErrorView::InvalidSocketDescriptor)),
            Some(n) => if w.len() < 3 {
                Ok(CommandView::Shutdown(SocketDescriptor(n), TcpShutdownKind::Write))
            } else {
                match shutdown_kind(w[2]) {
                    Some(kind) => Ok(CommandView::Shutdown(SocketDescriptor(n), kind)),
                    None => Err(
                        ParseErrorView::TcpShutdown(
                            ShutdownErrorView::InvalidShutdownType(w[2]),
                        ),
                    ),
                }
            },
        }
    }
}

/// The command "cl", with the words behind it.
pub open spec fn parsed_close(w: Seq<Seq<char>>) -> Result<CommandView, ParseErrorView> {
    if w.len() < 2 {
        Err(ParseErrorView::TcpShutdown(ShutdownErrorView::NoSocketDescriptor))
    } else {
        match word_u16(w[1]) {
            None => Err(ParseErrorView::TcpShutdown(ShutdownErrorView::InvalidSocketDescriptor)),
            Some(n) => Ok(CommandView::Close(SocketDescriptor(n))),
        }
    }
}

/// The command "sf", with the words behind it.
pub open spec fn parsed_send_file(w: Seq<Seq<char>>) -> Result<CommandView, ParseErrorView> {
    if w.len() < 2 {
        Err(ParseErrorView::SendFile(ParseSendFileError::NoFile))
    } else if w.len() < 3 {
        Err(ParseErrorView::SendFile(ParseSendFileError::NoIp))
    } else if ipv4(w[2]) is None {
        Err(ParseErrorView::SendFile(ParseSendFileError::InvalidIp))
    } else if w.len() < 4 {
        Err(ParseErrorView::SendFile(ParseSendFileError::NoPort))
    } else {
        match word_u16(w[3]) {
            Some(n) => Ok(CommandView::SendFile(w[1], ipv4(w[2])->0, Port(n))),
            None => Err(ParseErrorView::SendFile(ParseSendFileError::InvalidPort)),
        }
    }
}

/// The command "rf", with the words behind it.
pub open spec fn parsed_recv_file(w: Seq<Seq<char>>) -> Result<CommandView, ParseErrorView> {
    if w.len() < 2 {
        Err(ParseErrorView::RecvFile(ParseRecvFileError::NoFile))
    } else if w.len() < 3 {
        Err(ParseErrorView::RecvFile(ParseRecvFileError::NoPort))
    } else {
        match word_u16(w[2]) {
            Some(n) => Ok(CommandView::RecvFile(w[1], Port(n))),
            None => Err(ParseErrorView::RecvFile(ParseRecvFileError::InvalidPort)),
        }
    }
}

/// The command that words make: the first one names it, and what is missing or malformed behind it
/// is reported.
pub open spec fn parsed_command(w: Seq<Seq<char>>) -> Result<CommandView, ParseErrorView> {
    if w[0] == "li"@ || w[0] == "interfaces"@ {
        Ok(CommandView::ListInterface(word(w, 1)))
    } else if w[0] == "lr"@ || w[0] == "routes"@ {
        Ok(CommandView::ListRoute(word(w, 1)))
    } else if w[0] == "down"@ {
        parsed_down(w)
    } else if w[0] == "up"@ {
        parsed_up(w)
    } else if w[0] == "send"@ {
        parsed_send(w)
    } else if w[0] == "ls"@ {
        Ok(CommandView::ListSockets(word(w, 1)))
    } else if w[0] == "a"@ {
        parsed_listen(w)
    } else if w[0] == "c"@ {
        parsed_connect(w)
    } else if w[0] == "s"@ {
        parsed_tcp_send(w)
    } else if w[0] == "r"@ {
        parsed_tcp_read(w)
    } else if w[0] == "sd"@ {
        parsed_shutdown(w)
    } else if w[0] == "cl"@ {
        parsed_close(w)
    } else if w[0] == "sf"@ {
        parsed_send_file(w)
    } else if w[0] == "rf"@ {
        parsed_recv_file(w)
    } else if w[0] == "q"@ {
        Ok(CommandView::Quit)
    } else {
        Err(ParseErrorView::Unknown)
    }
}

/// What a parsed command or error says.
pub open spec fn result_view(r: Result<Command, ParseError>) -> Result<
    CommandView,
    ParseErrorView,
> {
    match r {
        Ok(c) => Ok(c@),
        Err(e) => Err(e@),
    }
}

/// The words of a line, as they were split.
spec fn is_split(tokens: Seq<String>, w: Seq<Seq<char>>) -> bool {
    &&& tokens.len() == w.len()
    &&& forall|i: int| 0 <= i < w.len() ==> (#[trigger] tokens[i])@ == w[i]
}

/// A copy of the word at a place, if there is one.
fn optional(tokens: &Vec<String>, i: usize) -> (r: Option<String>)
    ensures
        text_of(r) == word(texts(tokens@), i as int),
{
    if i < tokens.len() {
        assert(texts(tokens@)[i as int] == tokens@[i as int]@);
        Some(tokens[i].as_str().to_owned())
    } else {
        None
    }
}

fn parse_word_u16(s: &String) -> (r: Option<u16>)
    ensures
        r == word_u16(s@),
{
    parse_u16(s.as_str())
}

fn join_from(tokens: &Vec<String>, from: usize) -> (r: String)
    requires
        from <= tokens@.len(),
    ensures
        r@ == joined(texts(tokens@), from as int),
{
    let ghost w = texts(tokens@);
    let mut r = String::new();
    let mut i: usize = from;
    assert(r@ + joined(w, i as int) =~= joined(w, from as int));
    while i < tokens.len()
        invariant
            from <= i <= tokens@.len(),
            w == texts(tokens@),
            r@ + joined(w, i as int) == joined(w, from as int),
        decreases tokens@.len() - i,
    {
        let ghost before = r@;
        r.append(tokens[i].as_str());
        proof {
            assert(w[i as int] == tokens@[i as int]@);
            assert(before + (w[i as int] + joined(w, i + 1)) =~= r@ + joined(w, i + 1));
        }
        i = i + 1;
    }
    assert(r@ + joined(w, i as int) =~= r@);
    r
}

fn parse_send(tokens: &Vec<String>) -> (r: Result<Command, ParseError>)
    ensures
        result_view(r) == parsed_send(texts(tokens@)),
{
    let ghost w = texts(tokens@);
    assert(is_split(tokens@, w));
    if tokens.len() < 2 {
        return Err(ParseError::from(ParseSendError::NoIp));
    }
    if tokens.len() < 3 {
        return Err(ParseError::from(ParseSendError::NoProtocol));
    }
    let payload = join_from(tokens, 3);
    let virtual_ip = match parse_ipv4(tokens[1].as_str()) {
        Some(ip) => ip,
        None => return Err(ParseError::from(ParseSendError::InvalidIp)),
    };
    let protocol = match Protocol::try_from(tokens[2].as_str()) {
        Ok(protocol) => protocol,
        Err(_) => return Err(ParseError::from(ParseSendError::InvalidProtocol)),
    };
    Ok(Command::SendIPv4Packet(IPv4SendCmd { virtual_ip, protocol, payload }))
}

fn parse_connect(tokens: &Vec<String>) -> (r: Result<Command, ParseError>)
    ensures
        result_view(r) == parsed_connect(texts(tokens@)),
{
    let ghost w = texts(tokens@);
    assert(is_split(tokens@, w));
    if tokens.len() < 2 {
        return Err(ParseError::from(ParseConnectError::NoIp));
    }
    let ip = match parse_ipv4(tokens[1].as_str()) {
        Some(ip) => ip,
        None => return Err(ParseError::from(ParseConnectError::InvalidIp)),
    };
    if tokens.len() < 3 {
        return Err(ParseError::from(ParseConnectError::NoPort));
    }
    match parse_word_u16(&tokens[2]) {
        Some(port) => Ok(Command::ConnectSocket(ip, Port::from(port))),
        None => Err(ParseError::from(ParseConnectError::InvalidPort)),
    }
}

fn parse_tcp_send(tokens: &Vec<String>) -> (r: Result<Command, ParseError>)
    ensures
        result_view(r) == parsed_tcp_send(texts(tokens@)),
{
    let ghost w = texts(tokens@);
    assert(is_split(tokens@, w));
    if tokens.len() < 2 {
        return Err(ParseError::from(ParseTcpSendError::NoSocketDescriptor));
    }
    let sid = match parse_word_u16(&tokens[1]) {
        Some(n) => SocketDescriptor(n),
        None => return Err(ParseError::from(ParseTcpSendError::InvalidSocketDescriptor)),
    };
    if tokens.len() < 3 {
        return Err(ParseError::from(ParseTcpSendError::NoPayload));
    }
    let mut payload: Vec<u8> = Vec::new();
    payload.extend_from_slice(tokens[2].as_str().as_bytes());
    assert(payload@ =~= encode_utf8(w[2]));
    Ok(Command::SendTCPPacket(sid, payload))
}

fn parse_tcp_read(tokens: &Vec<String>) -> (r: Result<Command, ParseError>)
    ensures
        result_view(r) == parsed_tcp_read(texts(tokens@)),
{
    let ghost w = texts(tokens@);
    assert(is_split(tokens@, w));
    proof {
        reveal_strlit("y");
        reveal_strlit("N");
        assert("y"@[0] != "N"@[0]);
    }
    if tokens.len() < 2 {
        return Err(ParseError::from(ParseTcpReadError::NoSocketDescriptor));
    }
    let sid = match parse_word_u16(&tokens[1]) {
        Some(n) => SocketDescriptor(n),
        None => return Err(ParseError::from(ParseTcpReadError::InvalidSocketDescriptor)),
    };
    if tokens.len() < 3 {
        return Err(ParseError::from(ParseTcpReadError::NoNumBytesToRead));
    }
    let num_bytes: usize = match parse_usize(tokens[2].as_str()) {
        Some(n) => n,
        None => return Err(ParseError::from(ParseTcpReadError::InvalidNumBytesToRead)),
    };
    let blocking = if tokens.len() < 4 {
        false
    } else if same_text(tokens[3].as_str(), "y") {
        true
    } else if same_text(tokens[3].as_str(), "N") {
        false
    } else {
        return Err(ParseError::from(ParseTcpReadError::InvalidBlockingIndicator));
    };
    if blocking {
        Ok(Command::from(TCPReadCmd::new_blocking(sid, num_bytes)))
    } else {
        Ok(Command::from(TCPReadCmd::new_nonblocking(sid, num_bytes)))
    }
}

fn parse_shutdown_kind(token: &str) -> (r: Option<TcpShutdownKind>)
    ensures
        r == shutdown_kind(token@),
{
    if same_text(token, "w") || same_text(token, "write") {
        Some(TcpShutdownKind::Write)
    } else if same_text(token, "r") || same_text(token, "read") {
        Some(TcpShutdownKind::Read)
    } else if same_text(token, "both") {
        Some(TcpShutdownKind::ReadWrite)
    } else {
        None
    }
}

fn parse_shutdown(tokens: &Vec<String>) -> (r: Result<Command, ParseError>)
    ensures
        result_view(r) == parsed_shutdown(texts(tokens@)),
{
    let ghost w = texts(tokens@);
    assert(is_split(tokens@, w));
    if tokens.len() < 2 {
        return Err(ParseError::from(ParseTcpShutdownError::NoSocketDescriptor));
    }
    let sid = match parse_word_u16(&tokens[1]) {
        Some(n) => SocketDescriptor(n),
        None => return Err(ParseError::from(ParseTcpShutdownError::InvalidSocketDescriptor)),
    };
    if tokens.len() < 3 {
        return Ok(Command::Shutdown(sid, TcpShutdownKind::Write));
    }
    match parse_shutdown_kind(tokens[2].as_str()) {
        Some(opt) => Ok(Command::Shutdown(sid, opt)),
        None => Err(
            ParseError::from(
                ParseTcpShutdownError::InvalidShutdownType(tokens[2].as_str().to_owned()),
            ),
        ),
    }
}

fn parse_send_file(tokens: &Vec<String>) -> (r: Result<Command, ParseError>)
    ensures
        result_view(r) == parsed_send_file(texts(tokens@)),
{
    let ghost w = texts(tokens@);
    assert(is_split(tokens@, w));
    if tokens.len() < 2 {
        return Err(ParseError::from(ParseSendFileError::NoFile));
    }
    if tokens.len() < 3 {
        return Err(ParseError::from(ParseSendFileError::NoIp));
    }
    let ip = match parse_ipv4(tokens[2].as_str()) {
        Some(ip) => ip,
        None => return Err(ParseError::from(ParseSendFileError::InvalidIp)),
    };
    if tokens.len() < 4 {
        return Err(ParseError::from(ParseSendFileError::NoPort));
    }
    let port = match parse_word_u16(&tokens[3]) {
        Some(n) => Port::from(n),
        None => return Err(ParseError::from(ParseSendFileError::InvalidPort)),
    };
    Ok(Command::from(SendFileCmd::new(tokens[1].as_str().to_owned(), ip, port)))
}

fn parse_recv_file(tokens: &Vec<String>) -> (r: Result<Command, ParseError>)
    ensures
        result_view(r) == parsed_recv_file(texts(tokens@)),
{
    let ghost w = texts(tokens@);
    assert(is_split(tokens@, w));
    if tokens.len() < 2 {
        return Err(ParseError::from(ParseRecvFileError::NoFile));
    }
    if tokens.len() < 3 {
        return Err(ParseError::from(ParseRecvFileError::NoPort));
    }
    let port = match parse_word_u16(&tokens[2]) {
        Some(n) => Port::from(n),
        None => return Err(ParseError::from(ParseRecvFileError::InvalidPort)),
    };
    Ok(Command::from(RecvFileCmd::new(tokens[1].as_str().to_owned(), port)))
}

/// The command that words make.
fn cmd_arg_handler(tokens: &Vec<String>) -> (r: Result<Command, ParseError>)
    requires
        tokens@.len() > 0,
    ensures
        result_view(r) == parsed_command(texts(tokens@)),
{
    let ghost w = texts(tokens@);
    assert(is_split(tokens@, w));
    let cmd: &str = tokens[0].as_str();
    if same_text(cmd, "li") || same_text(cmd, "interfaces") {
        Ok(Command::ListInterface(optional(tokens, 1)))
    } else if same_text(cmd, "lr") || same_text(cmd, "routes") {
        Ok(Command::ListRoute(optional(tokens, 1)))
    } else if same_text(cmd, "down") {
        if tokens.len() < 2 {
            return Err(ParseError::from(ParseDownError::NoLinkId));
        }
        match parse_word_u16(&tokens[1]) {
            Some(link_no) => Ok(Command::InterfaceDown(link_no)),
            None => Err(ParseError::from(ParseDownError::InvalidLinkId)),
        }
    } else if same_text(cmd, "up") {
        if tokens.len() < 2 {
            return Err(ParseError::from(ParseUpError::NoLinkId));
        }
        match parse_word_u16(&tokens[1]) {
            Some(link_no) => Ok(Command::InterfaceUp(link_no)),
            None => Err(ParseError::from(ParseUpError::InvalidLinkId)),
        }
    } else if same_text(cmd, "send") {
        parse_send(tokens)
    } else if same_text(cmd, "ls") {
        Ok(Command::ListSockets(optional(tokens, 1)))
    } else if same_text(cmd, "a") {
        if tokens.len() < 2 {
            return Err(ParseError::from(ParseOpenListenSocketError::NoPort));
        }
        match parse_word_u16(&tokens[1]) {
            Some(port) => Ok(Command::OpenListenSocket(Port(port))),
            None => Err(ParseError::from(ParseOpenListenSocketError::InvalidPort)),
        }
    } else if same_text(cmd, "c") {
        parse_connect(tokens)
    } else if same_text(cmd, "s") {
        parse_tcp_send(tokens)
    } else if same_text(cmd, "r") {
        parse_tcp_read(tokens)
    } else if same_text(cmd, "sd") {
        parse_shutdown(tokens)
    } else if same_text(cmd, "cl") {
        if tokens.len() < 2 {
            return Err(ParseError::from(ParseTcpShutdownError::NoSocketDescriptor));
        }
        match parse_word_u16(&tokens[1]) {
            Some(n) => Ok(Command::Close(SocketDescriptor(n))),
            None => Err(ParseError::from(ParseTcpShutdownError::InvalidSocketDescriptor)),
        }
    } else if same_text(cmd, "sf") {
        parse_send_file(tokens)
    } else if same_text(cmd, "rf") {
        parse_recv_file(tokens)
    } else if same_text(cmd, "q") {
        Ok(Command::Quit)
    } else {
        Err(ParseError::Unknown)
    }
}

/// The command that a line holds. A line without words is the command that does nothing.
pub open spec fn parsed_line(line: Seq<char>) -> Result<CommandView, ParseErrorView> {
    if words(line).len() == 0 {
        Ok(CommandView::Empty)
    } else {
        parsed_command(words(line))
    }
}

/// What a line asks for.
#[derive(Debug, PartialEq, Eq)]
pub enum Reaction {
    Nothing,
    Execute(Command),
    /// The line holds no command: what is wrong with it is shown.
    Report(String),
}

/// The commands that a user enters.
#[derive(Debug, PartialEq, Eq, Structural, Clone, Copy)]
pub struct Cli {}

impl Cli {
    pub fn new() -> (r: Self)
        ensures
            r == (Cli {  }),
    {
        Cli {  }
    }

    /// Reads a command.
    pub fn parse_command(line: String) -> (r: Result<Command, ParseError>)
        ensures
            result_view(r) == parsed_line(line@),
    {
        let tokens = split_whitespace(line.as_str());
        assert(texts(tokens@).len() == tokens@.len());
        if tokens.len() == 0 {
            return Ok(Command::Empty);
        }
        cmd_arg_handler(&tokens)
    }
}

impl HandleUserInput for Cli {
    type Reaction = Reaction;

    open spec fn answers(
        &self,
        user_input: Seq<char>,
        r: Result<Reaction, HandleUserInputError>,
    ) -> bool {
        match parsed_line(user_input) {
            Ok(CommandView::Quit) => r == Err::<Reaction, HandleUserInputError>(
                HandleUserInputError::Terminate,
            ),
            Ok(CommandView::Empty) => r == Ok::<Reaction, HandleUserInputError>(Reaction::Nothing),
            Ok(command) => {
                &&& r matches Ok(Reaction::Execute(c))
                &&& c@ == command
            },
            Err(e) => {
                &&& r matches Ok(Reaction::Report(text))
                &&& text@ == error_text(e)
            },
        }
    }

    open spec fn after(&self, user_input: Seq<char>) -> Self {
        *self
    }

    fn handle(&mut self, user_input: String) -> (r: Result<Reaction, HandleUserInputError>) {
        match Self::parse_command(user_input) {
            Ok(Command::Quit) => Err(HandleUserInputError::Terminate),
            Ok(Command::Empty) => Ok(Reaction::Nothing),
            Ok(cmd) => Ok(Reaction::Execute(cmd)),
            Err(e) => Ok(Reaction::Report(e.to_text())),
        }
    }
}

/// What a socket becomes when it is shut down, where its state allows that.
pub open spec fn shut_down(socket: Socket, kind: TcpShutdownKind, src_ip: Ipv4Addr) -> Option<
    Socket,
> {
    match kind {
        TcpShutdownKind::Read => socket.after_close_read(),
        TcpShutdownKind::Write => socket.after_close(src_ip),
        TcpShutdownKind::ReadWrite => socket.after_close_rw(src_ip),
    }
}

/// Shuts a socket down, and says whether its state allows that.
pub fn shutdown(socket: &mut Socket, kind: TcpShutdownKind, src_ip: Ipv4Addr) -> (r: bool)
    requires
        old(socket).wf(),
    ensures
        final(socket).wf(),
        r == shut_down(*old(socket), kind, src_ip) is Some,
        *final(socket) == (match shut_down(*old(socket), kind, src_ip) {
            Some(s) => s,
            None => *old(socket),
        }),
{
    match kind {
        TcpShutdownKind::Read => socket.close_read(),
        TcpShutdownKind::Write => socket.close(src_ip),
        TcpShutdownKind::ReadWrite => socket.close_rw(src_ip),
    }
}

/// A line for each link, with its number.
pub open spec fn interface_lines(links: Seq<Link>) -> Seq<char>
    decreases links.len(),
{
    if links.len() == 0 {
        Seq::empty()
    } else {
        interface_lines(links.drop_last()) + decimal((links.len() - 1) as nat) + seq!['\t']
            + link_line(links.last()) + seq!['\n']
    }
}

/// How a link is written.
pub open spec fn link_line(link: Link) -> Seq<char> {
    state_text(link.activated) + seq!['\t'] + dotted(link.src_virtual_ip) + seq!['\t'] + dotted(
        link.dest_virtual_ip,
    ) + seq!['\t'] + decimal(link.dest_port as nat)
}

/// The head of the list of links, in a file and on the screen.
pub open spec fn interface_head(to_file: bool) -> Seq<char> {
    if to_file {
        "id\tstate\tlocal\t\tremote\tport\n"@
    } else {
        "id\tstate\tlocal\t\tremote\t        port\n"@
    }
}

/// The list of links.
pub fn interfaces_text(links: &[Link], to_file: bool) -> (r: String)
    ensures
        r@ == interface_head(to_file) + interface_lines(links@),
{
    let mut r = if to_file {
        String::from_str("id\tstate\tlocal\t\tremote\tport\n")
    } else {
        String::from_str("id\tstate\tlocal\t\tremote\t        port\n")
    };
    let ghost head = r@;
    let mut i: usize = 0;
    assert(r@ =~= head + interface_lines(links@.take(0)));
    while i < links.len()
        invariant
            i <= links@.len(),
            r@ == head + interface_lines(links@.take(i as int)),
        decreases links@.len() - i,
    {
        r.append(show_number(i as u64).as_str());
        r.push('\t');
        r.append(links[i].to_text().as_str());
        r.push('\n');
        proof {
            assert(links@.take(i + 1).drop_last() =~= links@.take(i as int));
            assert(r@ =~= head + interface_lines(links@.take(i + 1)));
        }
        i = i + 1;
    }
    assert(links@.take(links@.len() as int) =~= links@);
    r
}

/// A line for each route.
pub open spec fn route_lines(entries: Seq<Entry>) -> Seq<char>
    decreases entries.len(),
{
    if entries.len() == 0 {
        Seq::empty()
    } else {
        route_lines(entries.drop_last()) + route_line(entries.last()@) + seq!['\n']
    }
}

/// How a route is written.
pub open spec fn route_line(route: Route) -> Seq<char> {
    dotted(route.destination) + seq!['\t'] + dotted(route.next_hop) + seq!['\t'] + decimal(
        route.cost as nat,
    )
}

/// The list of routes.
pub fn routes_text(entries: &[Entry]) -> (r: String)
    ensures
        r@ == "dest\t\tnext\t\tcost\n"@ + route_lines(entries@),
{
    let mut r = String::from_str("dest\t\tnext\t\tcost\n");
    let ghost head = r@;
    let mut i: usize = 0;
    assert(r@ =~= head + route_lines(entries@.take(0)));
    while i < entries.len()
        invariant
            i <= entries@.len(),
            r@ == head + route_lines(entries@.take(i as int)),
        decreases entries@.len() - i,
    {
        r.append(entries[i].to_text().as_str());
        r.push('\n');
        proof {
            assert(entries@.take(i + 1).drop_last() =~= entries@.take(i as int));
            assert(r@ =~= head + route_lines(entries@.take(i + 1)));
        }
        i = i + 1;
    }
    assert(entries@.take(entries@.len() as int) =~= entries@);
    r
}

} // verus!
