//! What is wrong with a command.

use vstd::prelude::*;
use vstd::std_specs::convert::FromSpecImpl;

verus! {

#[derive(Debug, PartialEq, Eq, Structural, Clone, Copy)]
pub enum ParseOpenListenSocketError {
    NoPort,
    InvalidPort,
}

#[derive(Debug, PartialEq, Eq, Structural, Clone, Copy)]
pub enum ParseDownError {
    InvalidLinkId,
    NoLinkId,
}

#[derive(Debug, PartialEq, Eq, Structural, Clone, Copy)]
pub enum ParseUpError {
    InvalidLinkId,
    NoLinkId,
}

#[derive(Debug, PartialEq, Eq, Structural, Clone, Copy)]
pub enum ParseSendError {
    NoIp,
    InvalidIp,
    NoProtocol,
    InvalidProtocol,
    NoPayload,
}

#[derive(Debug, PartialEq, Eq, Structural, Clone, Copy)]
pub enum ParseConnectError {
    NoIp,
    InvalidIp,
    NoPort,
    InvalidPort,
}

#[derive(Debug, PartialEq, Eq, Structural, Clone, Copy)]
pub enum ParseTcpSendError {
    NoSocketDescriptor,
    InvalidSocketDescriptor,
    NoPayload,
}

#[derive(Debug, PartialEq, Eq, Structural, Clone, Copy)]
pub enum ParseTcpReadError {
    NoSocketDescriptor,
    InvalidSocketDescriptor,
    NoNumBytesToRead,
    InvalidNumBytesToRead,
    InvalidBlockingIndicator,
}

#[derive(Debug, PartialEq, Eq, Structural, Clone, Copy)]
pub enum ParseCloseError {
    NoSocketDescriptor,
    InvalidSocketDescriptor,
}

#[derive(Debug, PartialEq, Eq, Structural, Clone, Copy)]
pub enum ParseSendFileError {
    NoFile,
    NoIp,
    InvalidIp,
    NoPort,
    InvalidPort,
}

#[derive(Debug, PartialEq, Eq, Structural, Clone, Copy)]
pub enum ParseRecvFileError {
    NoFile,
    NoPort,
    InvalidPort,
}

#[derive(Debug, PartialEq, Eq)]
pub enum ParseTcpShutdownError {
    NoSocketDescriptor,
    InvalidSocketDescriptor,
    InvalidShutdownType(String),
}

#[derive(Debug, PartialEq, Eq)]
pub enum ParseError {
    Unknown,
    Down(ParseDownError),
    Up(ParseUpError),
    Send(ParseSendError),
    OpenListenSocket(ParseOpenListenSocketError),
    Connect(ParseConnectError),
    TcpSend(ParseTcpSendError),
    TcpRead(ParseTcpReadError),
    TcpShutdown(ParseTcpShutdownError),
    TcpClose(ParseCloseError),
    SendFile(ParseSendFileError),
    RecvFile(ParseRecvFileError),
}

/// What an error of shutting a socket down says.
pub enum ShutdownErrorView {
    NoSocketDescriptor,
    InvalidSocketDescriptor,
    InvalidShutdownType(Seq<char>),
}

impl View for ParseTcpShutdownError {
    type V = ShutdownErrorView;

    open spec fn view(&self) -> ShutdownErrorView {
        match self {
            ParseTcpShutdownError::NoSocketDescriptor => ShutdownErrorView::NoSocketDescriptor,
            ParseTcpShutdownError::InvalidSocketDescriptor => {
                ShutdownErrorView::InvalidSocketDescriptor
            },
            ParseTcpShutdownError::InvalidShutdownType(s) => ShutdownErrorView::InvalidShutdownType(
                s@,
            ),
        }
    }
}

/// What an error says.
pub enum ParseErrorView {
    Unknown,
    Down(ParseDownError),
    Up(ParseUpError),
    Send(ParseSendError),
    OpenListenSocket(ParseOpenListenSocketError),
    Connect(ParseConnectError),
    TcpSend(ParseTcpSendError),
    TcpRead(ParseTcpReadError),
    TcpShutdown(ShutdownErrorView),
    TcpClose(ParseCloseError),
    SendFile(ParseSendFileError),
    RecvFile(ParseRecvFileError),
}

impl View for ParseError {
    type V = ParseErrorView;

    open spec fn view(&self) -> ParseErrorView {
        match self {
            ParseError::Unknown => ParseErrorView::Unknown,
            ParseError::Down(e) => ParseErrorView::Down(*e),
            ParseError::Up(e) => ParseErrorView::Up(*e),
            ParseError::Send(e) => ParseErrorView::Send(*e),
            ParseError::OpenListenSocket(e) => ParseErrorView::OpenListenSocket(*e),
            ParseError::Connect(e) => ParseErrorView::Connect(*e),
            ParseError::TcpSend(e) => ParseErrorView::TcpSend(*e),
            ParseError::TcpRead(e) => ParseErrorView::TcpRead(*e),
            ParseError::TcpShutdown(e) => ParseErrorView::TcpShutdown(e@),
            ParseError::TcpClose(e) => ParseErrorView::TcpClose(*e),
            ParseError::SendFile(e) => ParseErrorView::SendFile(*e),
            ParseError::RecvFile(e) => ParseErrorView::RecvFile(*e),
        }
    }
}

impl FromSpecImpl<ParseUpError> for ParseError {
    open spec fn obeys_from_spec() -> bool {
        true
    }

    open spec fn from_spec(v: ParseUpError) -> Self {
        ParseError::Up(v)
    }
}

impl From<ParseUpError> for ParseError {
    fn from(v: ParseUpError) -> (r: Self) {
        ParseError::Up(v)
    }
}

impl FromSpecImpl<ParseDownError> for ParseError {
    open spec fn obeys_from_spec() -> bool {
        true
    }

    open spec fn from_spec(v: ParseDownError) -> Self {
        ParseError::Down(v)
    }
}

impl From<ParseDownError> for ParseError {
    fn from(v: ParseDownError) -> (r: Self) {
        ParseError::Down(v)
    }
}

impl FromSpecImpl<ParseSendError> for ParseError {
    open spec fn obeys_from_spec() -> bool {
        true
    }

    open spec fn from_spec(v: ParseSendError) -> Self {
        ParseError::Send(v)
    }
}

impl From<ParseSendError> for ParseError {
    fn from(v: ParseSendError) -> (r: Self) {
        ParseError::Send(v)
    }
}

impl FromSpecImpl<ParseOpenListenSocketError> for ParseError {
    open spec fn obeys_from_spec() -> bool {
        true
    }

    open spec fn from_spec(v: ParseOpenListenSocketError) -> Self {
        ParseError::OpenListenSocket(v)
    }
}

impl From<ParseOpenListenSocketError> for ParseError {
    fn from(v: ParseOpenListenSocketError) -> (r: Self) {
        ParseError::OpenListenSocket(v)
    }
}

impl FromSpecImpl<ParseConnectError> for ParseError {
    open spec fn obeys_from_spec() -> bool {
        true
    }

    open spec fn from_spec(v: ParseConnectError) -> Self {
        ParseError::Connect(v)
    }
}

impl From<ParseConnectError> for ParseError {
    fn from(v: ParseConnectError) -> (r: Self) {
        ParseError::Connect(v)
    }
}

impl FromSpecImpl<ParseTcpSendError> for ParseError {
    open spec fn obeys_from_spec() -> bool {
        true
    }

    open spec fn from_spec(v: ParseTcpSendError) -> Self {
        ParseError::TcpSend(v)
    }
}

impl From<ParseTcpSendError> for ParseError {
    fn from(v: ParseTcpSendError) -> (r: Self) {
        ParseError::TcpSend(v)
    }
}

impl FromSpecImpl<ParseTcpReadError> for ParseError {
    open spec fn obeys_from_spec() -> bool {
        true
    }

    open spec fn from_spec(v: ParseTcpReadError) -> Self {
        ParseError::TcpRead(v)
    }
}

impl From<ParseTcpReadError> for ParseError {
    fn from(v: ParseTcpReadError) -> (r: Self) {
        ParseError::TcpRead(v)
    }
}

impl FromSpecImpl<ParseTcpShutdownError> for ParseError {
    open spec fn obeys_from_spec() -> bool {
        true
    }

    open spec fn from_spec(v: ParseTcpShutdownError) -> Self {
        ParseError::TcpShutdown(v)
    }
}

impl From<ParseTcpShutdownError> for ParseError {
    fn from(v: ParseTcpShutdownError) -> (r: Self) {
        ParseError::TcpShutdown(v)
    }
}

impl FromSpecImpl<ParseSendFileError> for ParseError {
    open spec fn obeys_from_spec() -> bool {
        true
    }

    open spec fn from_spec(v: ParseSendFileError) -> Self {
        ParseError::SendFile(v)
    }
}

impl From<ParseSendFileError> for ParseError {
    fn from(v: ParseSendFileError) -> (r: Self) {
        ParseError::SendFile(v)
    }
}

impl FromSpecImpl<ParseRecvFileError> for ParseError {
    open spec fn obeys_from_spec() -> bool {
        true
    }

    open spec fn from_spec(v: ParseRecvFileError) -> Self {
        ParseError::RecvFile(v)
    }
}

impl From<ParseRecvFileError> for ParseError {
    fn from(v: ParseRecvFileError) -> (r: Self) {
        ParseError::RecvFile(v)
    }
}

/// What `std` writes for a text with its `Debug` formatting: the text in quotes, with some
/// characters escaped.
pub uninterp spec fn quoted(s: Seq<char>) -> Seq<char>;

/// `format!` with `{:?}` on a text.
#[verifier::external_body]
fn show_quoted(s: &str) -> (r: String)
    ensures
        r@ == quoted(s@),
{
    format!("{:?}", s)
}

/// The name of the error.
pub open spec fn open_listen_socket_name(e: ParseOpenListenSocketError) -> Seq<char> {
    match e {
        ParseOpenListenSocketError::NoPort => "NoPort"@,
        ParseOpenListenSocketError::InvalidPort => "InvalidPort"@,
    }
}

fn show_open_listen_socket(e: &ParseOpenListenSocketError) -> (r: String)
    ensures
        r@ == open_listen_socket_name(*e),
{
    match e {
        ParseOpenListenSocketError::NoPort => String::from_str("NoPort"),
        ParseOpenListenSocketError::InvalidPort => String::from_str("InvalidPort"),
    }
}

/// The name of the error.
pub open spec fn down_name(e: ParseDownError) -> Seq<char> {
    match e {
        ParseDownError::InvalidLinkId => "InvalidLinkId"@,
        ParseDownError::NoLinkId => "NoLinkId"@,
    }
}

fn show_down(e: &ParseDownError) -> (r: String)
    ensures
        r@ == down_name(*e),
{
    match e {
        ParseDownError::InvalidLinkId => String::from_str("InvalidLinkId"),
        ParseDownError::NoLinkId => String::from_str("NoLinkId"),
    }
}

/// The name of the error.
pub open spec fn up_name(e: ParseUpError) -> Seq<char> {
    match e {
        ParseUpError::InvalidLinkId => "InvalidLinkId"@,
        ParseUpError::NoLinkId => "NoLinkId"@,
    }
}

fn show_up(e: &ParseUpError) -> (r: String)
    ensures
        r@ == up_name(*e),
{
    match e {
        ParseUpError::InvalidLinkId => String::from_str("InvalidLinkId"),
        ParseUpError::NoLinkId => String::from_str("NoLinkId"),
    }
}

/// The name of the error.
pub open spec fn send_name(e: ParseSendError) -> Seq<char> {
    match e {
        ParseSendError::NoIp => "NoIp"@,
        ParseSendError::InvalidIp => "InvalidIp"@,
        ParseSendError::NoProtocol => "NoProtocol"@,
        ParseSendError::InvalidProtocol => "InvalidProtocol"@,
        ParseSendError::NoPayload => "NoPayload"@,
    }
}

fn show_send(e: &ParseSendError) -> (r: String)
    ensures
        r@ == send_name(*e),
{
    match e {
        ParseSendError::NoIp => String::from_str("NoIp"),
        ParseSendError::InvalidIp => String::from_str("InvalidIp"),
        ParseSendError::NoProtocol => String::from_str("NoProtocol"),
        ParseSendError::InvalidProtocol => String::from_str("InvalidProtocol"),
        ParseSendError::NoPayload => String::from_str("NoPayload"),
    }
}

/// The name of the error.
pub open spec fn connect_name(e: ParseConnectError) -> Seq<char> {
    match e {
        ParseConnectError::NoIp => "NoIp"@,
        ParseConnectError::InvalidIp => "InvalidIp"@,
        ParseConnectError::NoPort => "NoPort"@,
        ParseConnectError::InvalidPort => "InvalidPort"@,
    }
}

fn show_connect(e: &ParseConnectError) -> (r: String)
    ensures
        r@ == connect_name(*e),
{
    match e {
        ParseConnectError::NoIp => String::from_str("NoIp"),
        ParseConnectError::InvalidIp => String::from_str("InvalidIp"),
        ParseConnectError::NoPort => String::from_str("NoPort"),
        ParseConnectError::InvalidPort => String::from_str("InvalidPort"),
    }
}

/// The name of the error.
pub open spec fn tcp_send_name(e: ParseTcpSendError) -> Seq<char> {
    match e {
        ParseTcpSendError::NoSocketDescriptor => "NoSocketDescriptor"@,
        ParseTcpSendError::InvalidSocketDescriptor => "InvalidSocketDescriptor"@,
        ParseTcpSendError::NoPayload => "NoPayload"@,
    }
}

fn show_tcp_send(e: &ParseTcpSendError) -> (r: String)
    ensures
        r@ == tcp_send_name(*e),
{
    match e {
        ParseTcpSendError::NoSocketDescriptor => String::from_str("NoSocketDescriptor"),
        ParseTcpSendError::InvalidSocketDescriptor => String::from_str("InvalidSocketDescriptor"),
        ParseTcpSendError::NoPayload => String::from_str("NoPayload"),
    }
}

/// The name of the error.
pub open spec fn tcp_read_name(e: ParseTcpReadError) -> Seq<char> {
    match e {
        ParseTcpReadError::NoSocketDescriptor => "NoSocketDescriptor"@,
        ParseTcpReadError::InvalidSocketDescriptor => "InvalidSocketDescriptor"@,
        ParseTcpReadError::NoNumBytesToRead => "NoNumBytesToRead"@,
        ParseTcpReadError::InvalidNumBytesToRead => "InvalidNumBytesToRead"@,
        ParseTcpReadError::InvalidBlockingIndicator => "InvalidBlockingIndicator"@,
    }
}

fn show_tcp_read(e: &ParseTcpReadError) -> (r: String)
    ensures
        r@ == tcp_read_name(*e),
{
    match e {
        ParseTcpReadError::NoSocketDescriptor => String::from_str("NoSocketDescriptor"),
        ParseTcpReadError::InvalidSocketDescriptor => String::from_str("InvalidSocketDescriptor"),
        ParseTcpReadError::NoNumBytesToRead => String::from_str("NoNumBytesToRead"),
        ParseTcpReadError::InvalidNumBytesToRead => String::from_str("InvalidNumBytesToRead"),
        ParseTcpReadError::InvalidBlockingIndicator => String::from_str("InvalidBlockingIndicator"),
    }
}

/// The name of the error.
pub open spec fn close_name(e: ParseCloseError) -> Seq<char> {
    match e {
        ParseCloseError::NoSocketDescriptor => "NoSocketDescriptor"@,
        ParseCloseError::InvalidSocketDescriptor => "InvalidSocketDescriptor"@,
    }
}

fn show_close(e: &ParseCloseError) -> (r: String)
    ensures
        r@ == close_name(*e),
{
    match e {
        ParseCloseError::NoSocketDescriptor => String::from_str("NoSocketDescriptor"),
        ParseCloseError::InvalidSocketDescriptor => String::from_str("InvalidSocketDescriptor"),
    }
}

/// The name of the error.
pub open spec fn send_file_name(e: ParseSendFileError) -> Seq<char> {
    match e {
        ParseSendFileError::NoFile => "NoFile"@,
        ParseSendFileError::NoIp => "NoIp"@,
        ParseSendFileError::InvalidIp => "InvalidIp"@,
        ParseSendFileError::NoPort => "NoPort"@,
        ParseSendFileError::InvalidPort => "InvalidPort"@,
    }
}

fn show_send_file(e: &ParseSendFileError) -> (r: String)
    ensures
        r@ == send_file_name(*e),
{
    match e {
        ParseSendFileError::NoFile => String::from_str("NoFile"),
        ParseSendFileError::NoIp => String::from_str("NoIp"),
        ParseSendFileError::InvalidIp => String::from_str("InvalidIp"),
        ParseSendFileError::NoPort => String::from_str("NoPort"),
        ParseSendFileError::InvalidPort => String::from_str("InvalidPort"),
    }
}

/// The name of the error.
pub open spec fn recv_file_name(e: ParseRecvFileError) -> Seq<char> {
    match e {
        ParseRecvFileError::NoFile => "NoFile"@,
        ParseRecvFileError::NoPort => "NoPort"@,
        ParseRecvFileError::InvalidPort => "InvalidPort"@,
    }
}

fn show_recv_file(e: &ParseRecvFileError) -> (r: String)
    ensures
        r@ == recv_file_name(*e),
{
    match e {
        ParseRecvFileError::NoFile => String::from_str("NoFile"),
        ParseRecvFileError::NoPort => String::from_str("NoPort"),
        ParseRecvFileError::InvalidPort => String::from_str("InvalidPort"),
    }
}

/// The name of the error, with the text that is no way to shut down.
pub open spec fn tcp_shutdown_name(e: ShutdownErrorView) -> Seq<char> {
    match e {
        ShutdownErrorView::NoSocketDescriptor => "NoSocketDescriptor"@,
        ShutdownErrorView::InvalidSocketDescriptor => "InvalidSocketDescriptor"@,
        ShutdownErrorView::InvalidShutdownType(s) => "InvalidShutdownType("@ + quoted(s) + ")"@,
    }
}

fn show_tcp_shutdown(e: &ParseTcpShutdownError) -> (r: String)
    ensures
        r@ == tcp_shutdown_name(e@),
{
    match e {
        ParseTcpShutdownError::NoSocketDescriptor => String::from_str("NoSocketDescriptor"),
        ParseTcpShutdownError::InvalidSocketDescriptor => String::from_str(
            "InvalidSocketDescriptor",
        ),
        ParseTcpShutdownError::InvalidShutdownType(s) => {
            let mut r = String::from_str("InvalidShutdownType(");
            r.append(show_quoted(s.as_str()).as_str());
            r.append(")");
            r
        },
    }
}

/// What is wrong with a command, and how it is used.
pub open spec fn error_text(e: ParseErrorView) -> Seq<char> {
    match e {
        ParseErrorView::Unknown => "Unknown command"@,
        ParseErrorView::Down(e) => "Invalid down command. Usage: down <integer>. Error: "@
            + down_name(e),
        ParseErrorView::Up(e) => "Invalid up command. Usage: up <integer>. Error: "@ + up_name(e),
        ParseErrorView::Send(e) => "Invalid send command. Usage: send <vip> <proto> <string>. Error: "@
            + send_name(e),
        ParseErrorView::OpenListenSocket(e) => "Invalid open socket command. Usage: a <port>. Error: "@
            + open_listen_socket_name(e),
        ParseErrorView::Connect(e) => "Invalid connect command. Usage: c <ip> <port>. Error: "@
            + connect_name(e),
        ParseErrorView::TcpSend(e) => "Invalid send command. Usage: s <socket_id> <data>. Error: "@
            + tcp_send_name(e),
        ParseErrorView::TcpRead(e) => "Invalid read command. Usage: r <socket ID> <numbytes> <y|N>. Error: "@
            + tcp_read_name(e),
        ParseErrorView::TcpShutdown(e) => "Invalid shutdown command. Usage: sd <socket ID> <read|write|both>. Error: "@
            + tcp_shutdown_name(e),
        ParseErrorView::TcpClose(e) => "Invalid close command. Usage: cl <socket ID>. Error: "@
            + close_name(e),
        ParseErrorView::SendFile(e) => "Invalid send file command. Usage: sf <filename> <ip> <port>. Error: "@
            + send_file_name(e),
        ParseErrorView::RecvFile(e) => "Invalid receive file command. Usage: rf <filename> <port>. Error: "@
            + recv_file_name(e),
    }
}

impl ParseError {
    /// What is wrong with a command, and how it is used.
    pub fn to_text(&self) -> (r: String)
        ensures
            r@ == error_text(self@),
    {
        match self {
            ParseError::Unknown => String::from_str("Unknown command"),
            ParseError::Down(e) => {
                let mut r = String::from_str(
                    "Invalid down command. Usage: down <integer>. Error: ",
                );
                r.append(show_down(e).as_str());
                r
            },
            ParseError::Up(e) => {
                let mut r = String::from_str("Invalid up command. Usage: up <integer>. Error: ");
                r.append(show_up(e).as_str());
                r
            },
            ParseError::Send(e) => {
                let mut r = String::from_str(
                    "Invalid send command. Usage: send <vip> <proto> <string>. Error: ",
                );
                r.append(show_send(e).as_str());
                r
            },
            ParseError::OpenListenSocket(e) => {
                let mut r = String::from_str(
                    "Invalid open socket command. Usage: a <port>. Error: ",
                );
                r.append(show_open_listen_socket(e).as_str());
                r
            },
            ParseError::Connect(e) => {
                let mut r = String::from_str(
                    "Invalid connect command. Usage: c <ip> <port>. Error: ",
                );
                r.append(show_connect(e).as_str());
                r
            },
            ParseError::TcpSend(e) => {
                let mut r = String::from_str(
                    "Invalid send command. Usage: s <socket_id> <data>. Error: ",
                );
                r.append(show_tcp_send(e).as_str());
                r
            },
            ParseError::TcpRead(e) => {
                let mut r = String::from_str(
                    "Invalid read command. Usage: r <socket ID> <numbytes> <y|N>. Error: ",
                );
                r.append(show_tcp_read(e).as_str());
                r
            },
            ParseError::TcpShutdown(e) => {
                let mut r = String::from_str(
                    "Invalid shutdown command. Usage: sd <socket ID> <read|write|both>. Error: ",
                );
                r.append(show_tcp_shutdown(e).as_str());
                r
            },
            ParseError::TcpClose(e) => {
                let mut r = String::from_str(
                    "Invalid close command. Usage: cl <socket ID>. Error: ",
                );
                r.append(show_close(e).as_str());
                r
            },
            ParseError::SendFile(e) => {
                let mut r = String::from_str(
                    "Invalid send file command. Usage: sf <filename> <ip> <port>. Error: ",
                );
                r.append(show_send_file(e).as_str());
                r
            },
            ParseError::RecvFile(e) => {
                let mut r = String::from_str(
                    "Invalid receive file command. Usage: rf <filename> <port>. Error: ",
                );
                r.append(show_recv_file(e).as_str());
                r
            },
        }
    }
}

} // verus!
