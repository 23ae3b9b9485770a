//! What lines are read as, and what commands do.

use crate::addr::Ipv4Addr;
use crate::cli::errors::{
    ParseConnectError, ParseDownError, ParseErrorView, ParseOpenListenSocketError,
    ParseRecvFileError, ParseSendError, ParseSendFileError, ParseTcpReadError, ParseTcpSendError,
    ParseUpError, ShutdownErrorView,
};
use crate::cli::exec::{executed, socket_lines, EffectView};
use crate::cli::{
    interface_lines, joined, parsed_close, parsed_command, parsed_connect, parsed_down,
    parsed_line, parsed_listen, parsed_recv_file, parsed_send, parsed_send_file, parsed_shutdown,
    parsed_tcp_read, parsed_tcp_send, parsed_up, route_lines, shut_down, word, Cli, CommandView,
    Reaction, TcpShutdownKind,
};
use crate::net::vtlink::fwd::Entry;
use crate::net::vtlink::link::{state_text, Link};
use crate::net::SendError;
use crate::node::Node;
use crate::protocol::tcp::lifecycle::law_closing_keeps_the_data;
use crate::protocol::tcp::socket::{status_of, status_text, Socket, TcpState};
use crate::protocol::Protocol;
use crate::repl::{HandleUserInput, HandleUserInputError};
use crate::text::{
    bounded_number, decimal, dotted, ipv4, is_word, law_address_round_trip,
    law_number_round_trip, law_words_round_trip, law_written_values_are_words, separated, words,
};
use vstd::prelude::*;
use vstd::utf8::encode_utf8;

verus! {

/// The words of a command that names a file, or none.
pub open spec fn with_file(name: Seq<char>, file: Option<Seq<char>>) -> Seq<Seq<char>> {
    match file {
        Some(file) => seq![name, file],
        None => seq![name],
    }
}

/// How a user writes a command. The payload of a segment is written as `text`.
pub open spec fn written(cmd: CommandView, text: Seq<char>) -> Seq<Seq<char>> {
    match cmd {
        CommandView::ListInterface(file) => with_file("li"@, file),
        CommandView::ListRoute(file) => with_file("lr"@, file),
        CommandView::ListSockets(file) => with_file("ls"@, file),
        CommandView::InterfaceDown(n) => seq!["down"@, decimal(n as nat)],
        CommandView::InterfaceUp(n) => seq!["up"@, decimal(n as nat)],
        CommandView::SendIPv4Packet(ip, protocol, payload) => seq![
            "send"@,
            dotted(ip),
            decimal(
                match protocol {
                    Protocol::Test => 0,
                    Protocol::Tcp => 6,
                    Protocol::Rip => 200,
                },
            ),
            payload,
        ],
        CommandView::SendTCPPacket(d, _) => seq!["s"@, decimal(d.0 as nat), text],
        CommandView::OpenListenSocket(port) => seq!["a"@, decimal(port.0 as nat)],
        CommandView::ConnectSocket(ip, port) => seq!["c"@, dotted(ip), decimal(port.0 as nat)],
        CommandView::ReadSocket(c) => seq![
            "r"@,
            decimal(c.descriptor.0 as nat),
            decimal(c.num_bytes as nat),
            if c.would_block {
                "y"@
            } else {
                "N"@
            },
        ],
        CommandView::Shutdown(d, kind) => seq![
            "sd"@,
            decimal(d.0 as nat),
            match kind {
                TcpShutdownKind::Read => "r"@,
                TcpShutdownKind::Write => "w"@,
                TcpShutdownKind::ReadWrite => "both"@,
            },
        ],
        CommandView::Close(d) => seq!["cl"@, decimal(d.0 as nat)],
        CommandView::SendFile(path, ip, port) => seq![
            "sf"@,
            path,
            dotted(ip),
            decimal(port.0 as nat),
        ],
        CommandView::RecvFile(path, port) => seq!["rf"@, path, decimal(port.0 as nat)],
        CommandView::Quit => seq!["q"@],
        CommandView::Empty => Seq::empty(),
    }
}

/// Whether a command can be written: files and payloads are words, and the payload of a segment is
/// that of `text`.
pub open spec fn can_be_written(cmd: CommandView, text: Seq<char>) -> bool {
    match cmd {
        CommandView::ListInterface(Some(file)) => is_word(file),
        CommandView::ListRoute(Some(file)) => is_word(file),
        CommandView::ListSockets(Some(file)) => is_word(file),
        CommandView::SendIPv4Packet(_, _, payload) => is_word(payload),
        CommandView::SendTCPPacket(_, payload) => is_word(text) && payload == encode_utf8(text),
        CommandView::SendFile(path, _, _) => is_word(path),
        CommandView::RecvFile(path, _) => is_word(path),
        _ => true,
    }
}

/// The names of commands and what else stands for itself are words.
proof fn lemma_names_are_words()
    ensures
        is_word("li"@),
        is_word("lr"@),
        is_word("ls"@),
        is_word("down"@),
        is_word("up"@),
        is_word("send"@),
        is_word("s"@),
        is_word("a"@),
        is_word("c"@),
        is_word("r"@),
        is_word("sd"@),
        is_word("cl"@),
        is_word("sf"@),
        is_word("rf"@),
        is_word("q"@),
        is_word("y"@),
        is_word("N"@),
        is_word("w"@),
        is_word("both"@),
{
    reveal_strlit("li");
    reveal_strlit("lr");
    reveal_strlit("ls");
    reveal_strlit("down");
    reveal_strlit("up");
    reveal_strlit("send");
    reveal_strlit("s");
    reveal_strlit("a");
    reveal_strlit("c");
    reveal_strlit("r");
    reveal_strlit("sd");
    reveal_strlit("cl");
    reveal_strlit("sf");
    reveal_strlit("rf");
    reveal_strlit("q");
    reveal_strlit("y");
    reveal_strlit("N");
    reveal_strlit("w");
    reveal_strlit("both");
}

/// How the names of commands and their options are spelled.
proof fn lemma_spelling()
    ensures
        "li"@.len() == 2,
        "li"@[0] == 'l',
        "li"@[1] == 'i',
        "interfaces"@.len() == 10,
        "interfaces"@[0] == 'i',
        "interfaces"@[1] == 'n',
        "lr"@.len() == 2,
        "lr"@[0] == 'l',
        "lr"@[1] == 'r',
        "routes"@.len() == 6,
        "routes"@[0] == 'r',
        "routes"@[1] == 'o',
        "down"@.len() == 4,
        "down"@[0] == 'd',
        "down"@[1] == 'o',
        "up"@.len() == 2,
        "up"@[0] == 'u',
        "up"@[1] == 'p',
        "send"@.len() == 4,
        "send"@[0] == 's',
        "send"@[1] == 'e',
        "ls"@.len() == 2,
        "ls"@[0] == 'l',
        "ls"@[1] == 's',
        "a"@.len() == 1,
        "a"@[0] == 'a',
        "c"@.len() == 1,
        "c"@[0] == 'c',
        "s"@.len() == 1,
        "s"@[0] == 's',
        "r"@.len() == 1,
        "r"@[0] == 'r',
        "sd"@.len() == 2,
        "sd"@[0] == 's',
        "sd"@[1] == 'd',
        "cl"@.len() == 2,
        "cl"@[0] == 'c',
        "cl"@[1] == 'l',
        "sf"@.len() == 2,
        "sf"@[0] == 's',
        "sf"@[1] == 'f',
        "rf"@.len() == 2,
        "rf"@[0] == 'r',
        "rf"@[1] == 'f',
        "q"@.len() == 1,
        "q"@[0] == 'q',
        "y"@.len() == 1,
        "y"@[0] == 'y',
        "N"@.len() == 1,
        "N"@[0] == 'N',
        "w"@.len() == 1,
        "w"@[0] == 'w',
        "read"@.len() == 4,
        "read"@[0] == 'r',
        "read"@[1] == 'e',
        "write"@.len() == 5,
        "write"@[0] == 'w',
        "write"@[1] == 'r',
        "both"@.len() == 4,
        "both"@[0] == 'b',
        "both"@[1] == 'o',
{
    reveal_strlit("li");
    reveal_strlit("interfaces");
    reveal_strlit("lr");
    reveal_strlit("routes");
    reveal_strlit("down");
    reveal_strlit("up");
    reveal_strlit("send");
    reveal_strlit("ls");
    reveal_strlit("a");
    reveal_strlit("c");
    reveal_strlit("s");
    reveal_strlit("r");
    reveal_strlit("sd");
    reveal_strlit("cl");
    reveal_strlit("sf");
    reveal_strlit("rf");
    reveal_strlit("q");
    reveal_strlit("y");
    reveal_strlit("N");
    reveal_strlit("w");
    reveal_strlit("read");
    reveal_strlit("write");
    reveal_strlit("both");
}

/// The first word alone says which command a line holds.
proof fn lemma_names(w: Seq<Seq<char>>)
    ensures
        w[0] == "li"@ || w[0] == "interfaces"@ ==> parsed_command(w) == Ok::<
            CommandView,
            ParseErrorView,
        >(CommandView::ListInterface(word(w, 1))),
        w[0] == "lr"@ || w[0] == "routes"@ ==> parsed_command(w) == Ok::<
            CommandView,
            ParseErrorView,
        >(CommandView::ListRoute(word(w, 1))),
        w[0] == "ls"@ ==> parsed_command(w) == Ok::<CommandView, ParseErrorView>(
            CommandView::ListSockets(word(w, 1)),
        ),
        w[0] == "down"@ ==> parsed_command(w) == parsed_down(w),
        w[0] == "up"@ ==> parsed_command(w) == parsed_up(w),
        w[0] == "send"@ ==> parsed_command(w) == parsed_send(w),
        w[0] == "a"@ ==> parsed_command(w) == parsed_listen(w),
        w[0] == "c"@ ==> parsed_command(w) == parsed_connect(w),
        w[0] == "s"@ ==> parsed_command(w) == parsed_tcp_send(w),
        w[0] == "r"@ ==> parsed_command(w) == parsed_tcp_read(w),
        w[0] == "sd"@ ==> parsed_command(w) == parsed_shutdown(w),
        w[0] == "cl"@ ==> parsed_command(w) == parsed_close(w),
        w[0] == "sf"@ ==> parsed_command(w) == parsed_send_file(w),
        w[0] == "rf"@ ==> parsed_command(w) == parsed_recv_file(w),
        w[0] == "q"@ ==> parsed_command(w) == Ok::<CommandView, ParseErrorView>(
            CommandView::Quit,
        ),
{
    lemma_spelling();
}

/// The words that stand for a way to read or to shut down differ.
proof fn lemma_options_differ()
    ensures
        "y"@ != "N"@,
        "r"@ != "w"@,
        "r"@ != "write"@,
        "both"@ != "w"@,
        "both"@ != "write"@,
        "both"@ != "r"@,
        "both"@ != "read"@,
        "read"@ != "w"@,
        "read"@ != "write"@,
{
    lemma_spelling();
}

/// A command that is written with a space between its words is read back.
pub proof fn law_commands_round_trip(cmd: CommandView, text: Seq<char>)
    requires
        can_be_written(cmd, text),
    ensures
        parsed_line(separated(written(cmd, text), ' ')) == Ok::<CommandView, ParseErrorView>(cmd),
{
    let w = written(cmd, text);
    lemma_written_words(cmd, text);
    law_words_round_trip(w, ' ');
    if !(cmd is Empty) {
        lemma_written_command(cmd, text);
    }
}

/// What a user writes are words.
proof fn lemma_written_words(cmd: CommandView, text: Seq<char>)
    requires
        can_be_written(cmd, text),
    ensures
        forall|i: int|
            0 <= i < written(cmd, text).len() ==> is_word(#[trigger] written(cmd, text)[i]),
{
    lemma_names_are_words();
    let nowhere = Ipv4Addr { a: 0, b: 0, c: 0, d: 0 };
    match cmd {
        CommandView::InterfaceDown(n) => law_written_values_are_words(n as nat, nowhere),
        CommandView::InterfaceUp(n) => law_written_values_are_words(n as nat, nowhere),
        CommandView::SendIPv4Packet(ip, _, _) => {
            law_written_values_are_words(0, ip);
            law_written_values_are_words(6, ip);
            law_written_values_are_words(200, ip);
        },
        CommandView::SendTCPPacket(d, _) => law_written_values_are_words(d.0 as nat, nowhere),
        CommandView::OpenListenSocket(port) => law_written_values_are_words(
            port.0 as nat,
            nowhere,
        ),
        CommandView::ConnectSocket(ip, port) => law_written_values_are_words(port.0 as nat, ip),
        CommandView::ReadSocket(c) => {
            law_written_values_are_words(c.descriptor.0 as nat, nowhere);
            law_written_values_are_words(c.num_bytes as nat, nowhere);
        },
        CommandView::Shutdown(d, _) => law_written_values_are_words(d.0 as nat, nowhere),
        CommandView::Close(d) => law_written_values_are_words(d.0 as nat, nowhere),
        CommandView::SendFile(_, ip, port) => law_written_values_are_words(port.0 as nat, ip),
        CommandView::RecvFile(_, port) => law_written_values_are_words(port.0 as nat, nowhere),
        _ => {},
    }
}

/// The words of a command are read as that command.
proof fn lemma_written_command(cmd: CommandView, text: Seq<char>)
    requires
        can_be_written(cmd, text),
        !(cmd is Empty),
    ensures
        parsed_command(written(cmd, text)) == Ok::<CommandView, ParseErrorView>(cmd),
{
    let w = written(cmd, text);
    lemma_names(w);
    lemma_options_differ();
    match cmd {
        CommandView::InterfaceDown(n) => law_number_round_trip(n as nat),
        CommandView::InterfaceUp(n) => law_number_round_trip(n as nat),
        CommandView::SendIPv4Packet(ip, _, payload) => {
            law_address_round_trip(ip);
            law_number_round_trip(0);
            law_number_round_trip(6);
            law_number_round_trip(200);
            assert(joined(w, 4) =~= Seq::empty());
            assert(joined(w, 3) =~= payload);
        },
        CommandView::SendTCPPacket(d, _) => law_number_round_trip(d.0 as nat),
        CommandView::OpenListenSocket(port) => law_number_round_trip(port.0 as nat),
        CommandView::ConnectSocket(ip, port) => {
            law_address_round_trip(ip);
            law_number_round_trip(port.0 as nat);
        },
        CommandView::ReadSocket(c) => {
            law_number_round_trip(c.descriptor.0 as nat);
            law_number_round_trip(c.num_bytes as nat);
        },
        CommandView::Shutdown(d, _) => law_number_round_trip(d.0 as nat),
        CommandView::Close(d) => law_number_round_trip(d.0 as nat),
        CommandView::SendFile(_, ip, port) => {
            law_address_round_trip(ip);
            law_number_round_trip(port.0 as nat);
        },
        CommandView::RecvFile(_, port) => law_number_round_trip(port.0 as nat),
        _ => {},
    }
}

/// A user who writes a command has it carried out. The one that quits ends the loop, and a line
/// without words asks for nothing.
pub proof fn law_commands_are_carried_out(
    cli: Cli,
    cmd: CommandView,
    text: Seq<char>,
    r: Result<Reaction, HandleUserInputError>,
)
    requires
        can_be_written(cmd, text),
        cli.answers(separated(written(cmd, text), ' '), r),
    ensures
        cmd is Quit ==> r == Err::<Reaction, HandleUserInputError>(
            HandleUserInputError::Terminate,
        ),
        cmd is Empty ==> r == Ok::<Reaction, HandleUserInputError>(Reaction::Nothing),
        !(cmd is Quit) && !(cmd is Empty) ==> (r matches Ok(Reaction::Execute(c)) && c@ == cmd),
        cli.after(separated(written(cmd, text), ' ')) == cli,
{
    law_commands_round_trip(cmd, text);
}

/// A line that starts with none of the names is unknown, and no line is unknown otherwise. Lines
/// that hold no command are reported and end nothing.
pub proof fn law_other_lines_are_reported(
    cli: Cli,
    line: Seq<char>,
    r: Result<Reaction, HandleUserInputError>,
)
    requires
        words(line).len() > 0,
        cli.answers(line, r),
    ensures
        ({
            let name = words(line)[0];
            let known = name == "li"@ || name == "interfaces"@ || name == "lr"@ || name
                == "routes"@ || name == "down"@ || name == "up"@ || name == "send"@ || name
                == "ls"@ || name == "a"@ || name == "c"@ || name == "s"@ || name == "r"@ || name
                == "sd"@ || name == "cl"@ || name == "sf"@ || name == "rf"@ || name == "q"@;
            known <==> parsed_line(line) != Err::<CommandView, ParseErrorView>(
                ParseErrorView::Unknown,
            )
        }),
        parsed_line(line) is Err <==> (r matches Ok(Reaction::Report(_))),
        r is Err <==> words(line)[0] == "q"@,
        r != Ok::<Reaction, HandleUserInputError>(Reaction::Nothing),
{
    lemma_names(words(line));
}

/// Some commands have a second name, and some options need not be written: without a third word
/// "sd" shuts the write end down, and without a fourth word "r" does not wait.
pub proof fn law_commands_have_short_forms(w: Seq<Seq<char>>, v: Seq<Seq<char>>)
    requires
        w.len() > 0,
        v.len() > 0,
    ensures
        w[0] == "li"@ && v == w.update(0, "interfaces"@) ==> parsed_command(v) == parsed_command(
            w,
        ),
        w[0] == "lr"@ && v == w.update(0, "routes"@) ==> parsed_command(v) == parsed_command(w),
        w[0] == "sd"@ && w.len() == 2 && v == w.push("w"@) ==> parsed_command(v)
            == parsed_command(w),
        w[0] == "sd"@ && w.len() == 2 && v == w.push("write"@) ==> parsed_command(v)
            == parsed_command(w),
        w[0] == "sd"@ && w.len() == 3 && w[2] == "r"@ && v == w.update(2, "read"@)
            ==> parsed_command(v) == parsed_command(w),
        w[0] == "r"@ && w.len() == 3 && v == w.push("N"@) ==> parsed_command(v) == parsed_command(
            w,
        ),
{
    lemma_names(w);
    lemma_names(v);
    lemma_options_differ();
}

/// What a packet is to carry is written behind the protocol, and its words are put together without
/// the space between them.
pub proof fn law_payload_words_are_put_together(w: Seq<Seq<char>>, from: int, last: Seq<char>)
    requires
        0 <= from <= w.len(),
    ensures
        joined(w.push(last), from) == joined(w, from) + last,
        joined(w, w.len() as int).len() == 0,
    decreases w.len() - from,
{
    let v = w.push(last);
    if from == w.len() {
        assert(joined(v, from + 1) =~= Seq::empty());
        assert(joined(v, from) =~= joined(w, from) + last);
    } else {
        law_payload_words_are_put_together(w, from + 1, last);
        assert(v[from] == w[from]);
        assert(joined(v, from) =~= joined(w, from) + last);
    }
}

/// A command that lacks a word is reported with what it lacks.
pub proof fn law_missing_words_are_reported(w: Seq<Seq<char>>, e: ParseErrorView)
    requires
        w.len() > 0,
        parsed_command(w) == Err::<CommandView, ParseErrorView>(e),
    ensures
        w[0] == "down"@ ==> (w.len() == 1 <==> e == ParseErrorView::Down(ParseDownError::NoLinkId)),
        w[0] == "up"@ ==> (w.len() == 1 <==> e == ParseErrorView::Up(ParseUpError::NoLinkId)),
        w[0] == "send"@ ==> (w.len() == 1 <==> e == ParseErrorView::Send(ParseSendError::NoIp)),
        w[0] == "send"@ ==> (w.len() == 2 <==> e == ParseErrorView::Send(
            ParseSendError::NoProtocol,
        )),
        w[0] == "a"@ ==> (w.len() == 1 <==> e == ParseErrorView::OpenListenSocket(
            ParseOpenListenSocketError::NoPort,
        )),
        w[0] == "c"@ ==> (w.len() == 1 <==> e == ParseErrorView::Connect(ParseConnectError::NoIp)),
        w[0] == "c"@ ==> (w.len() == 2 && ipv4(w[1]) is Some <==> e == ParseErrorView::Connect(
            ParseConnectError::NoPort,
        )),
        w[0] == "s"@ ==> (w.len() == 1 <==> e == ParseErrorView::TcpSend(
            ParseTcpSendError::NoSocketDescriptor,
        )),
        w[0] == "s"@ ==> (w.len() == 2 && bounded_number(w[1], 65535) is Some <==> e
            == ParseErrorView::TcpSend(ParseTcpSendError::NoPayload)),
        w[0] == "r"@ ==> (w.len() == 1 <==> e == ParseErrorView::TcpRead(
            ParseTcpReadError::NoSocketDescriptor,
        )),
        w[0] == "r"@ ==> (w.len() == 2 && bounded_number(w[1], 65535) is Some <==> e
            == ParseErrorView::TcpRead(ParseTcpReadError::NoNumBytesToRead)),
        w[0] == "sd"@ || w[0] == "cl"@ ==> (w.len() == 1 <==> e == ParseErrorView::TcpShutdown(
            ShutdownErrorView::NoSocketDescriptor,
        )),
        w[0] == "sf"@ ==> (w.len() == 1 <==> e == ParseErrorView::SendFile(
            ParseSendFileError::NoFile,
        )),
        w[0] == "sf"@ ==> (w.len() == 2 <==> e == ParseErrorView::SendFile(
            ParseSendFileError::NoIp,
        )),
        w[0] == "sf"@ ==> (w.len() == 3 && ipv4(w[2]) is Some <==> e == ParseErrorView::SendFile(
            ParseSendFileError::NoPort,
        )),
        w[0] == "rf"@ ==> (w.len() == 1 <==> e == ParseErrorView::RecvFile(
            ParseRecvFileError::NoFile,
        )),
        w[0] == "rf"@ ==> (w.len() == 2 <==> e == ParseErrorView::RecvFile(
            ParseRecvFileError::NoPort,
        )),
{
    lemma_names(w);
}

/// A word that is no address, no number of sixteen bits, no protocol or no option where the command
/// takes one is reported as such, and a command is not reported for any other reason than
/// this or that it lacks a word.
pub proof fn law_malformed_words_are_reported(w: Seq<Seq<char>>, e: ParseErrorView)
    requires
        w.len() > 3,
        parsed_command(w) == Err::<CommandView, ParseErrorView>(e),
    ensures
        w[0] == "down"@ ==> bounded_number(w[1], 65535) is None && e == ParseErrorView::Down(
            ParseDownError::InvalidLinkId,
        ),
        w[0] == "up"@ ==> bounded_number(w[1], 65535) is None && e == ParseErrorView::Up(
            ParseUpError::InvalidLinkId,
        ),
        w[0] == "send"@ ==> (ipv4(w[1]) is None <==> e == ParseErrorView::Send(
            ParseSendError::InvalidIp,
        )) && (ipv4(w[1]) is Some <==> e == ParseErrorView::Send(ParseSendError::InvalidProtocol)),
        w[0] == "send"@ && ipv4(w[1]) is Some ==> {
            let n = bounded_number(w[2], 255);
            n != Some(0nat) && n != Some(6nat) && n != Some(200nat)
        },
        w[0] == "a"@ ==> bounded_number(w[1], 65535) is None && e
            == ParseErrorView::OpenListenSocket(ParseOpenListenSocketError::InvalidPort),
        w[0] == "c"@ ==> (ipv4(w[1]) is None <==> e == ParseErrorView::Connect(
            ParseConnectError::InvalidIp,
        )) && (ipv4(w[1]) is Some <==> e == ParseErrorView::Connect(
            ParseConnectError::InvalidPort,
        )) && (ipv4(w[1]) is Some ==> bounded_number(w[2], 65535) is None),
        w[0] == "s"@ ==> bounded_number(w[1], 65535) is None && e == ParseErrorView::TcpSend(
            ParseTcpSendError::InvalidSocketDescriptor,
        ),
        w[0] == "r"@ ==> (bounded_number(w[1], 65535) is None <==> e == ParseErrorView::TcpRead(
            ParseTcpReadError::InvalidSocketDescriptor,
        )) && (bounded_number(w[1], 65535) is Some && bounded_number(w[2], usize::MAX as nat)
            is None <==> e == ParseErrorView::TcpRead(ParseTcpReadError::InvalidNumBytesToRead))
            && (bounded_number(w[1], 65535) is Some && bounded_number(w[2], usize::MAX as nat)
            is Some <==> e == ParseErrorView::TcpRead(
            ParseTcpReadError::InvalidBlockingIndicator,
        )) && (e == ParseErrorView::TcpRead(ParseTcpReadError::InvalidBlockingIndicator) ==> w[3]
            != "y"@ && w[3] != "N"@),
        w[0] == "sd"@ ==> (bounded_number(w[1], 65535) is None <==> e
            == ParseErrorView::TcpShutdown(ShutdownErrorView::InvalidSocketDescriptor)) && (
        bounded_number(w[1], 65535) is Some <==> e == ParseErrorView::TcpShutdown(
            ShutdownErrorView::InvalidShutdownType(w[2]),
        )) && (bounded_number(w[1], 65535) is Some ==> w[2] != "r"@ && w[2] != "read"@ && w[2]
            != "w"@ && w[2] != "write"@ && w[2] != "both"@),
        w[0] == "cl"@ ==> bounded_number(w[1], 65535) is None && e == ParseErrorView::TcpShutdown(
            ShutdownErrorView::InvalidSocketDescriptor,
        ),
        w[0] == "sf"@ ==> (ipv4(w[2]) is None <==> e == ParseErrorView::SendFile(
            ParseSendFileError::InvalidIp,
        )) && (ipv4(w[2]) is Some <==> e == ParseErrorView::SendFile(
            ParseSendFileError::InvalidPort,
        )) && (ipv4(w[2]) is Some ==> bounded_number(w[3], 65535) is None),
        w[0] == "rf"@ ==> bounded_number(w[2], 65535) is None && e == ParseErrorView::RecvFile(
            ParseRecvFileError::InvalidPort,
        ),
{
    lemma_names(w);
}

/// The commands "up" and "down" turn the link with the given number on and off, where there is one,
/// and change no other link and nothing else. Where there is none, that is reported.
pub proof fn law_links_are_switched<H>(
    before: Node<H>,
    after: Node<H>,
    n: u16,
    up: bool,
    notice: Option<Seq<char>>,
    effect: EffectView,
)
    requires
        executed(
            before,
            if up {
                CommandView::InterfaceUp(n)
            } else {
                CommandView::InterfaceDown(n)
            },
            after,
            notice,
            effect,
        ),
    ensures
        after.net.links@.len() == before.net.links@.len(),
        forall|k: int|
            0 <= k < before.net.links@.len() && k != n ==> #[trigger] after.net.links@[k]
                == before.net.links@[k],
        n < before.net.links@.len() ==> {
            let (old_link, new_link) = (before.net.links@[n as int], after.net.links@[n as int]);
            &&& new_link.activated == up
            &&& new_link.dest_port == old_link.dest_port
            &&& new_link.dest_virtual_ip == old_link.dest_virtual_ip
            &&& new_link.src_virtual_ip == old_link.src_virtual_ip
            &&& effect is Nothing
        },
        n >= before.net.links@.len() ==> effect is Report,
        after.net.my_addrs@ == before.net.my_addrs@,
        after.net.routes@ == before.net.routes@,
        after.net.drop_policy == before.net.drop_policy,
        after.tcp == before.tcp,
        after.protocol_handlers == before.protocol_handlers,
        notice is Some,
{
}

/// No other command changes the host by itself, and of those only the ones that send a packet or
/// quit say so as they begin.
pub proof fn law_other_commands_change_nothing<H>(
    before: Node<H>,
    cmd: CommandView,
    after: Node<H>,
    notice: Option<Seq<char>>,
    effect: EffectView,
)
    requires
        executed(before, cmd, after, notice, effect),
        !(cmd is InterfaceUp),
        !(cmd is InterfaceDown),
    ensures
        after == before,
        notice is Some <==> cmd is SendIPv4Packet || cmd is Quit,
{
}

/// The command "send" has the text sent as a packet of the protocol with the given number, and
/// reports where that cannot be.
pub proof fn law_packets_are_sent_as_commanded<H>(
    before: Node<H>,
    after: Node<H>,
    ip: Ipv4Addr,
    payload: Seq<char>,
    notice: Option<Seq<char>>,
    effect: EffectView,
    number: u8,
    protocol: Protocol,
)
    requires
        executed(
            before,
            CommandView::SendIPv4Packet(ip, protocol, payload),
            after,
            notice,
            effect,
        ),
        protocol is Test ==> number == 0,
        protocol is Tcp ==> number == 6,
        protocol is Rip ==> number == 200,
    ensures
        effect is Transmit || effect is Report,
        effect matches EffectView::Transmit(out) ==> before.net.outgoing(
            encode_utf8(payload),
            number,
            ip,
        ) == Ok::<(u16, Seq<u8>), SendError>(out),
        effect is Report <==> before.net.outgoing(encode_utf8(payload), number, ip) is Err,
{
}

/// A command on a socket is handed on with all that it says.
pub proof fn law_socket_commands_are_handed_on<H>(
    before: Node<H>,
    cmd: CommandView,
    after: Node<H>,
    notice: Option<Seq<char>>,
    effect: EffectView,
)
    requires
        executed(before, cmd, after, notice, effect),
    ensures
        cmd matches CommandView::SendTCPPacket(d, payload) ==> (effect matches EffectView::TcpSend(
            to,
            sent,
        ) && to == d && sent == payload),
        cmd matches CommandView::OpenListenSocket(port) ==> (effect matches EffectView::Listen(at)
            && at == port),
        cmd matches CommandView::ConnectSocket(ip, port) ==> (effect matches EffectView::Connect(
            to,
            at,
        ) && to == ip && at == port),
        cmd matches CommandView::ReadSocket(c) ==> (effect matches EffectView::Read(r) && r == c),
        cmd matches CommandView::Shutdown(d, kind) ==> (effect matches EffectView::Shutdown(
            which,
            how,
        ) && which == d && how == kind),
        cmd matches CommandView::Close(d) ==> (effect matches EffectView::Close(which) && which
            == d),
        cmd matches CommandView::SendFile(path, ip, port) ==> (effect matches EffectView::SendFile(
            from,
            to,
            at,
        ) && from == path && to == ip && at == port),
        cmd matches CommandView::RecvFile(path, port) ==> (effect matches EffectView::RecvFile(
            to,
            at,
        ) && to == path && at == port),
        cmd is Quit || cmd is Empty ==> effect is Nothing,
        cmd matches CommandView::ListInterface(file) ==> (effect matches EffectView::Show(to, _)
            && to == file),
        cmd matches CommandView::ListRoute(file) ==> (effect matches EffectView::Show(to, _) && to
            == file),
        cmd matches CommandView::ListSockets(file) ==> (effect matches EffectView::Show(to, _)
            && to == file),
{
}

/// The list of links has one line for each link, in their order, with its number, whether it is up,
/// the address of the interface, the address at its other end and the port there.
pub proof fn law_links_are_listed_in_order(links: Seq<Link>, link: Link)
    ensures
        interface_lines(Seq::empty()).len() == 0,
        interface_lines(links.push(link)) == interface_lines(links) + decimal(links.len()) + seq![
            '\t',
        ] + (if link.activated {
            seq!['u', 'p']
        } else {
            seq!['d', 'o', 'w', 'n']
        }) + seq!['\t'] + dotted(link.src_virtual_ip) + seq!['\t'] + dotted(link.dest_virtual_ip)
            + seq!['\t'] + decimal(link.dest_port as nat) + seq!['\n'],
{
    reveal_strlit("up");
    reveal_strlit("down");
    assert("up"@ =~= seq!['u', 'p']);
    assert("down"@ =~= seq!['d', 'o', 'w', 'n']);
    assert(links.push(link).drop_last() =~= links);
    assert(interface_lines(links.push(link)) =~= interface_lines(links) + decimal(links.len())
        + seq!['\t'] + state_text(link.activated) + seq!['\t'] + dotted(link.src_virtual_ip)
        + seq!['\t'] + dotted(link.dest_virtual_ip) + seq!['\t'] + decimal(link.dest_port as nat)
        + seq!['\n']);
}

/// The list of routes has one line for each entry of the table, in their order, with its
/// destination, its next hop and its cost.
pub proof fn law_routes_are_listed_in_order(entries: Seq<Entry>, entry: Entry)
    ensures
        route_lines(Seq::empty()).len() == 0,
        route_lines(entries.push(entry)) == route_lines(entries) + dotted(entry@.destination)
            + seq!['\t'] + dotted(entry@.next_hop) + seq!['\t'] + decimal(entry@.cost as nat) + seq![
            '\n',
        ],
{
    assert(entries.push(entry).drop_last() =~= entries);
    assert(route_lines(entries.push(entry)) =~= route_lines(entries) + dotted(entry@.destination)
        + seq!['\t'] + dotted(entry@.next_hop) + seq!['\t'] + decimal(entry@.cost as nat) + seq![
        '\n',
    ]);
}

/// The list of sockets has one line for each socket, in their order, with its descriptor, its state
/// and two windows. That of this end is the room that is left for what arrives, and that of the
/// remote the one that it has sent last, while data can arrive. Otherwise both are 65536.
pub proof fn law_sockets_are_listed_in_order(sockets: Seq<Socket>, socket: Socket)
    requires
        socket.wf(),
    ensures
        socket_lines(Seq::empty()).len() == 0,
        ({
            let open = match socket.state {
                TcpState::Established(_) | TcpState::FinWait1(_) | TcpState::FinWait2(_)
                | TcpState::CloseWait(_) => true,
                _ => false,
            };
            let recv = socket.conn->0.inner.recv_buf.inner@;
            let local = if open {
                65536 - (recv.head - recv.tail)
            } else {
                65536
            };
            let remote = if open {
                socket.conn->0.inner.send_buf.window_size as int
            } else {
                65536
            };
            socket_lines(sockets.push(socket)) == socket_lines(sockets) + decimal(
                socket.descriptor.0 as nat,
            ) + seq!['\t'] + status_text(status_of(socket.state)) + seq!['\t', '\t'] + decimal(
                local as nat,
            ) + seq!['\t', '\t', '\t'] + decimal(remote as nat) + seq!['\n']
        }),
{
    assert(sockets.push(socket).drop_last() =~= sockets);
    match socket.conn {
        Some(conn) => conn.inner.recv_buf.inner.lemma_wf(),
        None => {},
    }
    assert(socket_lines(sockets.push(socket)) =~= socket_lines(sockets) + decimal(
        socket.descriptor.0 as nat,
    ) + seq!['\t'] + status_text(status_of(socket.state)) + seq!['\t', '\t'] + decimal(
        socket.local_window() as nat,
    ) + seq!['\t', '\t', '\t'] + decimal(socket.remote_window() as nat) + seq!['\n']);
}

/// To shut a socket down for reading closes its read end alone, for writing its write end alone, and
/// for both closes both. What has been written and what has arrived stays.
pub proof fn law_shutting_down_closes_the_end(socket: Socket, kind: TcpShutdownKind, src_ip: Ipv4Addr)
    requires
        socket.wf(),
    ensures
        shut_down(socket, kind, src_ip) is Some <==> socket.state is Established || (
        socket.state is CloseWait && kind == TcpShutdownKind::Write),
        shut_down(socket, kind, src_ip) matches Some(after) ==> {
            let (old_conn, new_conn) = (socket.conn->0.inner, after.conn->0.inner);
            &&& after.conn is Some
            &&& new_conn.send_buf.inner == old_conn.send_buf.inner
            &&& new_conn.recv_buf.inner == old_conn.recv_buf.inner
            &&& new_conn.send_buf.open == (kind == TcpShutdownKind::Read && old_conn.send_buf.open)
            &&& new_conn.recv_buf.open == (kind == TcpShutdownKind::Write
                && old_conn.recv_buf.open)
            &&& kind == TcpShutdownKind::Read ==> after.state == socket.state
            &&& kind != TcpShutdownKind::Read ==> after.state is FinWait1 || after.state is LastAck
        },
{
    law_closing_keeps_the_data(socket, src_ip);
}

} // verus!
