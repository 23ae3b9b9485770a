//! The arguments of a host: what its link file describes.

use crate::addr::Ipv4Addr;
use crate::net::vtlink::link::{parsed_link, LinkDefinition, ParseLinkError};
use crate::text::{
    bounded_number, decimal, dotted, ipv4, is_word, law_address_round_trip,
    law_number_round_trip, law_words_round_trip, law_written_values_are_words, parse_u16,
    separated, show_ipv4, show_number, split_whitespace, texts, words,
};
use vstd::prelude::*;

verus! {

/// An error of reading a line.
#[verifier::external_type_specification]
#[verifier::external_body]
pub struct ExIoError(std::io::Error);

#[derive(Debug, Clone, PartialEq, Eq)]
pub struct Args {
    /// The port where this host runs.
    pub host_port: u16,
    /// A list of the router's interfaces, ordered by their interface ID number.
    pub links: Vec<LinkDefinition>,
    /// Whether the host drops packets on purpose.
    pub lossy: bool,
}

#[derive(Debug)]
pub enum ParseArgsError {
    MissingFirstLine,
    NoHost,
    NoPort,
    NoLinks,
    MalformedPort,
    MalformedLink(ParseLinkError),
    ReadLineError(std::io::Error),
    OpenLinkFileError(std::io::Error),
    MissingLinkFileArg,
}

/// The text of a line that was read, or the error of reading it.
pub open spec fn line_text(line: Result<String, std::io::Error>) -> Result<
    Seq<char>,
    std::io::Error,
> {
    match line {
        Ok(s) => Ok(s@),
        Err(e) => Err(e),
    }
}

/// The lines that were read.
pub open spec fn line_texts(lines: Seq<Result<String, std::io::Error>>) -> Seq<
    Result<Seq<char>, std::io::Error>,
> {
    lines.map_values(|l: Result<String, std::io::Error>| line_text(l))
}

/// The links that lines describe, or the error of the first line that could not be read or
/// describes none.
pub open spec fn parsed_links(lines: Seq<Result<Seq<char>, std::io::Error>>) -> Result<
    Seq<LinkDefinition>,
    ParseArgsError,
>
    decreases lines.len(),
{
    if lines.len() == 0 {
        Ok(Seq::empty())
    } else {
        match parsed_links(lines.drop_last()) {
            Err(e) => Err(e),
            Ok(before) => match lines.last() {
                Err(e) => Err(ParseArgsError::ReadLineError(e)),
                Ok(line) => match parsed_link(line) {
                    Err(e) => Err(ParseArgsError::MalformedLink(e)),
                    Ok(link) => Ok(before.push(link)),
                },
            },
        }
    }
}

/// The port that the first line of a link file gives: its second word.
pub open spec fn parsed_port(line: Seq<char>) -> Result<u16, ParseArgsError> {
    let w = words(line);
    if w.len() == 0 {
        Err(ParseArgsError::NoHost)
    } else if w.len() == 1 {
        Err(ParseArgsError::NoPort)
    } else {
        match bounded_number(w[1], u16::MAX as nat) {
            Some(port) => Ok(port as u16),
            None => Err(ParseArgsError::MalformedPort),
        }
    }
}

/// The port and the links that the lines of a link file describe.
pub open spec fn parsed_args(lines: Seq<Result<Seq<char>, std::io::Error>>) -> Result<
    (u16, Seq<LinkDefinition>),
    ParseArgsError,
> {
    if lines.len() == 0 {
        Err(ParseArgsError::MissingFirstLine)
    } else {
        match lines[0] {
            Err(e) => Err(ParseArgsError::ReadLineError(e)),
            Ok(first) => match parsed_port(first) {
                Err(e) => Err(e),
                Ok(port) => match parsed_links(lines.skip(1)) {
                    Err(e) => Err(e),
                    Ok(links) => if links.len() == 0 {
                        Err(ParseArgsError::NoLinks)
                    } else {
                        Ok((port, links))
                    },
                },
            },
        }
    }
}

/// An error in some line is an error of all the lines.
proof fn lemma_parsed_links_error(lines: Seq<Result<Seq<char>, std::io::Error>>, i: int)
    requires
        0 <= i <= lines.len(),
        parsed_links(lines.take(i)) is Err,
    ensures
        parsed_links(lines) == parsed_links(lines.take(i)),
    decreases lines.len(),
{
    if i < lines.len() {
        assert(lines.drop_last().take(i) =~= lines.take(i));
        lemma_parsed_links_error(lines.drop_last(), i);
    } else {
        assert(lines.take(i) =~= lines);
    }
}

impl Args {
    /// Reads the lines of a link file.
    pub fn try_parse(lines: Vec<Result<String, std::io::Error>>) -> (r: Result<
        Args,
        ParseArgsError,
    >)
        ensures
            match r {
                Ok(args) => {
                    &&& parsed_args(line_texts(lines@)) == Ok::<
                        (u16, Seq<LinkDefinition>),
                        ParseArgsError,
                    >((args.host_port, args.links@))
                    &&& !args.lossy
                },
                Err(e) => parsed_args(line_texts(lines@)) == Err::<
                    (u16, Seq<LinkDefinition>),
                    ParseArgsError,
                >(e),
            },
    {
        let ghost all = line_texts(lines@);
        if lines.len() == 0 {
            return Err(ParseArgsError::MissingFirstLine);
        }
        let mut rest = lines;
        let first = rest.remove(0);
        let ghost tail = all.skip(1);
        assert(line_texts(rest@) =~= tail);
        assert(all[0] == line_text(first));
        let host_ip_port = match first {
            Ok(line) => line,
            Err(e) => return Err(ParseArgsError::ReadLineError(e)),
        };
        let ip_port = split_whitespace(host_ip_port.as_str());
        assert forall|i: int| 0 <= i < ip_port@.len() implies (#[trigger] ip_port@[i])@ == words(
            host_ip_port@,
        )[i] by {
            assert(texts(ip_port@)[i] == ip_port@[i]@);
        }
        // The host is not used: it is assumed to be this one.
        if ip_port.len() == 0 {
            return Err(ParseArgsError::NoHost);
        }
        if ip_port.len() == 1 {
            return Err(ParseArgsError::NoPort);
        }
        let port: u16 = match parse_u16(ip_port[1].as_str()) {
            Some(port) => port,
            None => return Err(ParseArgsError::MalformedPort),
        };
        let mut links: Vec<LinkDefinition> = Vec::new();
        let ghost mut read: int = 0;
        while rest.len() > 0
            invariant
                0 <= read <= tail.len(),
                line_texts(rest@) == tail.skip(read),
                parsed_links(tail.take(read)) == Ok::<Seq<LinkDefinition>, ParseArgsError>(links@),
                all.len() > 0,
                tail == all.skip(1),
                all[0] == Ok::<Seq<char>, std::io::Error>(host_ip_port@),
                parsed_port(host_ip_port@) == Ok::<u16, ParseArgsError>(port),
                all == line_texts(lines@),
            decreases rest@.len(),
        {
            let ghost rest0 = rest@;
            let line = rest.remove(0);
            proof {
                assert(line_texts(rest0).len() == rest0.len());
                assert(line_texts(rest0)[0] == tail[read]);
                assert(tail[read] == line_text(line));
                assert(tail.take(read + 1).drop_last() =~= tail.take(read));
                assert(tail.take(read + 1).last() == tail[read]);
                assert(line_texts(rest@) =~= tail.skip(read + 1)) by {
                    assert forall|k: int| 0 <= k < rest@.len() implies line_texts(rest@)[k]
                        == tail.skip(read + 1)[k] by {
                        assert(line_texts(rest0)[k + 1] == tail.skip(read)[k + 1]);
                    }
                }
            }
            let raw_link = match line {
                Ok(line) => line,
                Err(e) => {
                    proof {
                        lemma_parsed_links_error(tail, read + 1);
                    }
                    return Err(ParseArgsError::ReadLineError(e));
                },
            };
            match LinkDefinition::try_parse(raw_link.as_str()) {
                Ok(link) => links.push(link),
                Err(e) => {
                    proof {
                        lemma_parsed_links_error(tail, read + 1);
                    }
                    return Err(ParseArgsError::MalformedLink(e));
                },
            }
            proof {
                read = read + 1;
            }
        }
        assert(read == tail.len()) by {
            assert(line_texts(rest@).len() == 0);
        }
        assert(tail.take(read) =~= tail);
        if links.len() == 0 {
            return Err(ParseArgsError::NoLinks);
        }
        Ok(Args { host_port: port, links, lossy: false })
    }

    /// The addresses of this host's interfaces, in their order.
    pub fn get_my_interface_ips(&self) -> (r: Vec<Ipv4Addr>)
        ensures
            r@ == self.links@.map_values(|l: LinkDefinition| l.interface_ip),
    {
        let mut ips: Vec<Ipv4Addr> = Vec::new();
        let mut i: usize = 0;
        while i < self.links.len()
            invariant
                i <= self.links@.len(),
                ips@ == self.links@.take(i as int).map_values(|l: LinkDefinition| l.interface_ip),
            decreases self.links@.len() - i,
        {
            ips.push(self.links[i].interface_ip);
            i = i + 1;
            assert(ips@ =~= self.links@.take(i as int).map_values(
                |l: LinkDefinition| l.interface_ip,
            ));
        }
        assert(self.links@.take(self.links@.len() as int) =~= self.links@);
        ips
    }

    /// The port, and on a line for each link its number and the address it leads to.
    pub fn to_text(&self) -> (r: String)
        ensures
            r@ == "Running on port "@ + decimal(self.host_port as nat) + link_lines(self.links@),
    {
        let mut r = String::from_str("Running on port ");
        r.append(show_number(self.host_port as u64).as_str());
        let ghost head = r@;
        let mut i: usize = 0;
        assert(r@ =~= head + link_lines(self.links@.take(0)));
        while i < self.links.len()
            invariant
                i <= self.links@.len(),
                r@ == head + link_lines(self.links@.take(i as int)),
            decreases self.links@.len() - i,
        {
            let ghost before = r@;
            r.push('\n');
            r.append(show_number(i as u64).as_str());
            r.push(':');
            r.append(show_ipv4(self.links[i].dest_ip).as_str());
            proof {
                assert(self.links@.take(i + 1).drop_last() =~= self.links@.take(i as int));
                assert(r@ =~= head + link_lines(self.links@.take(i + 1)));
            }
            i = i + 1;
        }
        assert(self.links@.take(self.links@.len() as int) =~= self.links@);
        r
    }
}

/// A line for each link, with its number and the address it leads to.
pub open spec fn link_lines(links: Seq<LinkDefinition>) -> Seq<char>
    decreases links.len(),
{
    if links.len() == 0 {
        Seq::empty()
    } else {
        link_lines(links.drop_last()) + seq!['\n'] + decimal((links.len() - 1) as nat) + seq![':']
            + dotted(links.last().dest_ip)
    }
}

/// A line that gives a host, a port, the address of the interface and the address at the other end
/// describes that link, whatever the host and whatever stands behind it.
pub proof fn law_link_lines_are_read(
    host: Seq<char>,
    link: LinkDefinition,
    more: Seq<Seq<char>>,
)
    requires
        is_word(host),
        forall|i: int| 0 <= i < more.len() ==> is_word(#[trigger] more[i]),
    ensures
        ({
            let w = seq![
                host,
                decimal(link.dest_port as nat),
                dotted(link.interface_ip),
                dotted(link.dest_ip),
            ] + more;
            parsed_link(separated(w, ' ')) == Ok::<LinkDefinition, ParseLinkError>(link)
        }),
{
    let w = seq![
        host,
        decimal(link.dest_port as nat),
        dotted(link.interface_ip),
        dotted(link.dest_ip),
    ] + more;
    law_written_values_are_words(link.dest_port as nat, link.interface_ip);
    law_written_values_are_words(link.dest_port as nat, link.dest_ip);
    assert forall|i: int| 0 <= i < w.len() implies is_word(#[trigger] w[i]) by {
        if i >= 4 {
            assert(w[i] == more[i - 4]);
        }
    }
    law_words_round_trip(w, ' ');
    law_number_round_trip(link.dest_port as nat);
    law_address_round_trip(link.interface_ip);
    law_address_round_trip(link.dest_ip);
}

/// A line that describes no link says why: the first of host, port, interface and other end that is
/// missing, or one that is malformed where those in front of it are not.
pub proof fn law_malformed_link_lines_are_reported(line: Seq<char>)
    ensures
        ({
            let w = words(line);
            let r = parsed_link(line);
            let port = w.len() > 1 && bounded_number(w[1], 65535) is Some;
            let interface = port && w.len() > 2 && ipv4(w[2]) is Some;
            &&& r is Ok <==> interface && w.len() > 3 && ipv4(w[3]) is Some
            &&& r == Err::<LinkDefinition, ParseLinkError>(ParseLinkError::NoIp) <==> w.len() == 0
            &&& r == Err::<LinkDefinition, ParseLinkError>(ParseLinkError::NoPort) <==> w.len()
                == 1
            &&& r == Err::<LinkDefinition, ParseLinkError>(ParseLinkError::MalformedPort)
                <==> w.len() > 1 && !port
            &&& r == Err::<LinkDefinition, ParseLinkError>(ParseLinkError::NoSrcVirtualIp)
                <==> port && w.len() == 2
            &&& r == Err::<LinkDefinition, ParseLinkError>(ParseLinkError::NoDstVirtualIp)
                <==> interface && w.len() == 3
        }),
{
}

/// The links of a file are those of its lines, one for each line and in their order, where all lines
/// can be read and describe one. Otherwise the first line that cannot or does not is reported.
pub proof fn law_links_are_read_in_order(lines: Seq<Result<Seq<char>, std::io::Error>>, k: int)
    ensures
        parsed_links(lines) matches Ok(links) ==> {
            &&& links.len() == lines.len()
            &&& forall|i: int|
                0 <= i < lines.len() ==> (#[trigger] lines[i]) is Ok && parsed_link(lines[i]->Ok_0)
                    == Ok::<LinkDefinition, ParseLinkError>(links[i])
        },
        0 <= k < lines.len() && (forall|i: int|
            0 <= i < k ==> (#[trigger] lines[i]) is Ok && parsed_link(lines[i]->Ok_0) is Ok) ==> {
            &&& lines[k] matches Err(e) ==> parsed_links(lines) == Err::<
                Seq<LinkDefinition>,
                ParseArgsError,
            >(ParseArgsError::ReadLineError(e))
            &&& lines[k] matches Ok(line) ==> (parsed_link(line) matches Err(e) ==> parsed_links(
                lines,
            ) == Err::<Seq<LinkDefinition>, ParseArgsError>(ParseArgsError::MalformedLink(e)))
        },
        (forall|i: int|
            0 <= i < lines.len() ==> (#[trigger] lines[i]) is Ok && parsed_link(lines[i]->Ok_0)
                is Ok) ==> parsed_links(lines) is Ok,
    decreases lines.len(),
{
    if lines.len() > 0 {
        let before = lines.drop_last();
        law_links_are_read_in_order(before, k);
        assert forall|i: int| 0 <= i < before.len() implies #[trigger] lines[i] == before[i] by {}
    }
}

/// A link file is read where its first line gives a host and a port and each line behind it, of
/// which there is at least one, describes a link. The port is that of the first line.
pub proof fn law_link_files_are_read(
    lines: Seq<Result<Seq<char>, std::io::Error>>,
    host: Seq<char>,
    port: u16,
    links: Seq<LinkDefinition>,
)
    requires
        is_word(host),
        lines.len() == links.len() + 1,
        links.len() > 0,
        lines[0] == Ok::<Seq<char>, std::io::Error>(
            separated(seq![host, decimal(port as nat)], ' '),
        ),
        forall|i: int|
            0 <= i < links.len() ==> lines[i + 1] is Ok && parsed_link(lines[i + 1]->Ok_0) == Ok::<
                LinkDefinition,
                ParseLinkError,
            >(#[trigger] links[i]),
    ensures
        parsed_args(lines) == Ok::<(u16, Seq<LinkDefinition>), ParseArgsError>((port, links)),
{
    let w = seq![host, decimal(port as nat)];
    law_written_values_are_words(port as nat, Ipv4Addr { a: 0, b: 0, c: 0, d: 0 });
    assert forall|i: int| 0 <= i < w.len() implies is_word(#[trigger] w[i]) by {}
    law_words_round_trip(w, ' ');
    law_number_round_trip(port as nat);
    let rest = lines.skip(1);
    assert forall|i: int| 0 <= i < rest.len() implies (#[trigger] rest[i]) is Ok && parsed_link(
        rest[i]->Ok_0,
    ) == Ok::<LinkDefinition, ParseLinkError>(links[i]) by {
        assert(rest[i] == lines[i + 1]);
        assert(parsed_link(lines[i + 1]->Ok_0) == Ok::<LinkDefinition, ParseLinkError>(links[i]));
    }
    law_links_are_read_in_order(rest, 0);
    let found = parsed_links(rest)->Ok_0;
    assert forall|i: int| 0 <= i < links.len() implies found[i] == #[trigger] links[i] by {
        assert(rest[i] is Ok);
    }
    assert(found =~= links);
}

/// A link file that cannot be read says why: it is empty, its first line cannot be read or lacks a
/// host or a port, the port is malformed, a line behind it is no link, or there is none.
pub proof fn law_malformed_link_files_are_reported(lines: Seq<Result<Seq<char>, std::io::Error>>)
    ensures
        parsed_args(lines) == Err::<(u16, Seq<LinkDefinition>), ParseArgsError>(
            ParseArgsError::MissingFirstLine,
        ) <==> lines.len() == 0,
        lines.len() > 0 ==> (lines[0] matches Err(e) ==> parsed_args(lines) == Err::<
            (u16, Seq<LinkDefinition>),
            ParseArgsError,
        >(ParseArgsError::ReadLineError(e))),
        lines.len() > 0 ==> (lines[0] matches Ok(first) ==> {
            let w = words(first);
            let port = w.len() > 1 && bounded_number(w[1], 65535) is Some;
            let r = parsed_args(lines);
            &&& r == Err::<(u16, Seq<LinkDefinition>), ParseArgsError>(ParseArgsError::NoHost)
                <==> w.len() == 0
            &&& r == Err::<(u16, Seq<LinkDefinition>), ParseArgsError>(ParseArgsError::NoPort)
                <==> w.len() == 1
            &&& r == Err::<(u16, Seq<LinkDefinition>), ParseArgsError>(
                ParseArgsError::MalformedPort,
            ) <==> w.len() > 1 && !port
            &&& r == Err::<(u16, Seq<LinkDefinition>), ParseArgsError>(ParseArgsError::NoLinks)
                <==> port && lines.len() == 1
            &&& port && lines.len() > 1 ==> (r is Ok <==> parsed_links(lines.skip(1)) is Ok)
        }),
{
    if lines.len() > 0 {
        law_links_are_read_in_order(lines.skip(1), 0);
        lemma_links_errors(lines.skip(1));
    }
}

/// What is wrong with lines of links is that one cannot be read or is no link.
proof fn lemma_links_errors(lines: Seq<Result<Seq<char>, std::io::Error>>)
    ensures
        parsed_links(lines) matches Err(e) ==> e is ReadLineError || e is MalformedLink,
    decreases lines.len(),
{
    if lines.len() > 0 {
        lemma_links_errors(lines.drop_last());
    }
}

/// A host shows one line for each link, in their order, with its number and the address at its other
/// end.
pub proof fn law_links_are_shown_in_order(links: Seq<LinkDefinition>, link: LinkDefinition)
    ensures
        link_lines(Seq::empty()).len() == 0,
        link_lines(links.push(link)) == link_lines(links) + seq!['\n'] + decimal(links.len()) + seq![
            ':',
        ] + dotted(link.dest_ip),
{
    assert(links.push(link).drop_last() =~= links);
}

} // verus!
