//! Links to neighbouring hosts.

use crate::addr::Ipv4Addr;
use crate::args::Args;
use crate::text::{
    bounded_number, decimal, dotted, ipv4, parse_ipv4, parse_u16, show_ipv4, show_number,
    split_whitespace, texts, words,
};
use vstd::prelude::*;
use vstd::std_specs::convert::FromSpecImpl;

verus! {

/// A link as a link file describes it.
#[derive(Copy, Clone, Debug, PartialEq, Eq, Structural)]
pub struct LinkDefinition {
    /// The port where the connected host runs.
    pub dest_port: u16,
    /// The virtual IP of this host's interface.
    pub interface_ip: Ipv4Addr,
    /// The virtual IP of the connected host's interface.
    pub dest_ip: Ipv4Addr,
}

#[derive(Copy, Clone, Debug, PartialEq, Eq, Structural)]
pub enum ParseLinkError {
    NoIp,
    NoPort,
    NoSrcVirtualIp,
    NoDstVirtualIp,
    MalformedPort,
    MalformedIp,
}

/// What a line of a link file describes: a host, its port, the interface and the
/// interface of the host. What is missing or malformed is reported from left to right.
pub open spec fn parsed_link(line: Seq<char>) -> Result<LinkDefinition, ParseLinkError> {
    let w = words(line);
    if w.len() == 0 {
        Err(ParseLinkError::NoIp)
    } else if w.len() == 1 {
        Err(ParseLinkError::NoPort)
    } else if bounded_number(w[1], u16::MAX as nat) is None {
        Err(ParseLinkError::MalformedPort)
    } else if w.len() == 2 {
        Err(ParseLinkError::NoSrcVirtualIp)
    } else if ipv4(w[2]) is None {
        Err(ParseLinkError::MalformedIp)
    } else if w.len() == 3 {
        Err(ParseLinkError::NoDstVirtualIp)
    } else if ipv4(w[3]) is None {
        Err(ParseLinkError::MalformedIp)
    } else {
        Ok(
            LinkDefinition {
                dest_port: bounded_number(w[1], u16::MAX as nat)->0 as u16,
                interface_ip: ipv4(w[2])->0,
                dest_ip: ipv4(w[3])->0,
            },
        )
    }
}

impl LinkDefinition {
    pub fn try_parse(raw_link: &str) -> (r: Result<Self, ParseLinkError>)
        ensures
            r == parsed_link(raw_link@),
    {
        let split = split_whitespace(raw_link);
        assert forall|i: int| 0 <= i < split@.len() implies (#[trigger] split@[i])@ == words(
            raw_link@,
        )[i] by {
            assert(texts(split@)[i] == split@[i]@);
        }
        if split.len() == 0 {
            return Err(ParseLinkError::NoIp);
        }
        if split.len() == 1 {
            return Err(ParseLinkError::NoPort);
        }
        let dest_port: u16 = match parse_u16(split[1].as_str()) {
            Some(port) => port,
            None => return Err(ParseLinkError::MalformedPort),
        };
        if split.len() == 2 {
            return Err(ParseLinkError::NoSrcVirtualIp);
        }
        let interface_ip = match parse_ipv4(split[2].as_str()) {
            Some(ip) => ip,
            None => return Err(ParseLinkError::MalformedIp),
        };
        if split.len() == 3 {
            return Err(ParseLinkError::NoDstVirtualIp);
        }
        let dest_ip = match parse_ipv4(split[3].as_str()) {
            Some(ip) => ip,
            None => return Err(ParseLinkError::MalformedIp),
        };
        Ok(LinkDefinition { dest_port, interface_ip, dest_ip })
    }

    /// The link that this describes, turned on.
    pub open spec fn link(self) -> Link {
        Link {
            dest_port: self.dest_port,
            dest_virtual_ip: self.dest_ip,
            src_virtual_ip: self.interface_ip,
            activated: true,
        }
    }

    pub fn into_link(self) -> (r: Link)
        ensures
            r == self.link(),
    {
        Link {
            dest_port: self.dest_port,
            dest_virtual_ip: self.dest_ip,
            src_virtual_ip: self.interface_ip,
            activated: true,
        }
    }
}

/// Bytes for the host that runs at a port.
#[derive(Clone, Debug, PartialEq, Eq)]
pub struct Datagram {
    pub port: u16,
    pub bytes: Vec<u8>,
}

/// A virtual link between an interface of this host and one of another host.
#[derive(Copy, Clone, Debug, PartialEq, Eq, Structural)]
pub struct Link {
    pub dest_port: u16,
    pub dest_virtual_ip: Ipv4Addr,
    pub src_virtual_ip: Ipv4Addr,
    pub activated: bool,
}

#[derive(Copy, Clone, Debug, PartialEq, Eq, Structural)]
pub enum SendError {
    LinkInactive,
}

#[derive(Copy, Clone, Debug, PartialEq, Eq, Structural)]
pub enum Error {
    LinkNotFound,
    LinkInactive,
}

impl FromSpecImpl<SendError> for Error {
    open spec fn obeys_from_spec() -> bool {
        true
    }

    open spec fn from_spec(e: SendError) -> Self {
        Error::LinkInactive
    }
}

impl From<SendError> for Error {
    fn from(e: SendError) -> (r: Self) {
        match e {
            SendError::LinkInactive => Error::LinkInactive,
        }
    }
}

/// The word "up" or "down".
pub open spec fn state_text(activated: bool) -> Seq<char> {
    if activated {
        "up"@
    } else {
        "down"@
    }
}

impl Link {
    /// On this link, send a message conforming to one of the supported protocols. The
    /// result is what has to be sent to the connected host.
    pub fn send(&self, payload: &[u8]) -> (r: Result<Datagram, SendError>)
        ensures
            match r {
                Ok(d) => self.activated && d.port == self.dest_port && d.bytes@ == payload@,
                Err(SendError::LinkInactive) => !self.activated,
            },
    {
        if !self.activated {
            return Err(SendError::LinkInactive);
        }
        let mut bytes: Vec<u8> = Vec::new();
        bytes.extend_from_slice(payload);
        assert(bytes@ =~= payload@);
        Ok(Datagram { port: self.dest_port, bytes })
    }

    pub fn activate(&mut self)
        ensures
            *final(self) == (Link { activated: true, ..*old(self) }),
    {
        if !self.activated {
            self.activated = true;
        }
    }

    pub fn deactivate(&mut self)
        ensures
            *final(self) == (Link { activated: false, ..*old(self) }),
    {
        if self.activated {
            self.activated = false;
        }
    }

    pub fn is_disabled(&self) -> (r: bool)
        ensures
            r == !self.activated,
    {
        !self.activated
    }

    pub fn dest(&self) -> (r: Ipv4Addr)
        ensures
            r == self.dest_virtual_ip,
    {
        self.dest_virtual_ip
    }

    pub fn source(&self) -> (r: Ipv4Addr)
        ensures
            r == self.src_virtual_ip,
    {
        self.src_virtual_ip
    }

    /// State, interface, interface of the connected host and its port, between tabs.
    pub fn to_text(&self) -> (r: String)
        ensures
            r@ == state_text(self.activated) + seq!['\t'] + dotted(self.src_virtual_ip) + seq!['\t']
                + dotted(self.dest_virtual_ip) + seq!['\t'] + decimal(self.dest_port as nat),
    {
        let mut r = if self.activated {
            String::from_str("up")
        } else {
            String::from_str("down")
        };
        r.push('\t');
        r.append(show_ipv4(self.src_virtual_ip).as_str());
        r.push('\t');
        r.append(show_ipv4(self.dest_virtual_ip).as_str());
        r.push('\t');
        r.append(show_number(self.dest_port as u64).as_str());
        assert(r@ =~= state_text(self.activated) + seq!['\t'] + dotted(self.src_virtual_ip) + seq![
            '\t',
        ] + dotted(self.dest_virtual_ip) + seq!['\t'] + decimal(self.dest_port as nat));
        r
    }
}

/// The first link to an address.
pub open spec fn link_to(links: Seq<Link>, dest: Ipv4Addr) -> Option<Link>
    decreases links.len(),
{
    if links.len() == 0 {
        None
    } else if links[0].dest_virtual_ip == dest {
        Some(links[0])
    } else {
        link_to(links.skip(1), dest)
    }
}

/// The first link at one of this host's interfaces.
pub open spec fn link_at(links: Seq<Link>, ip: Ipv4Addr) -> Option<Link>
    decreases links.len(),
{
    if links.len() == 0 {
        None
    } else if links[0].src_virtual_ip == ip {
        Some(links[0])
    } else {
        link_at(links.skip(1), ip)
    }
}

/// The links that definitions describe.
pub open spec fn links_of(defs: Seq<LinkDefinition>) -> Seq<Link> {
    defs.map_values(|d: LinkDefinition| d.link())
}

/// The links of this host.
pub struct VtLinkLayer {
    links: Vec<Link>,
}

impl View for VtLinkLayer {
    type V = Seq<Link>;

    closed spec fn view(&self) -> Seq<Link> {
        self.links@
    }
}

impl VtLinkLayer {
    /// The links that the arguments describe, turned on.
    pub fn new(args: &Args) -> (r: Self)
        ensures
            r@ == links_of(args.links@),
    {
        let mut links: Vec<Link> = Vec::new();
        let mut i: usize = 0;
        while i < args.links.len()
            invariant
                i <= args.links@.len(),
                links@ == links_of(args.links@.take(i as int)),
            decreases args.links@.len() - i,
        {
            links.push(args.links[i].into_link());
            i = i + 1;
            assert(links@ =~= links_of(args.links@.take(i as int)));
        }
        assert(args.links@.take(args.links@.len() as int) =~= args.links@);
        VtLinkLayer { links }
    }

    /// Send bytes to a destination.
    ///
    /// The destination is typically the next-hop address for a packet.
    pub fn send(&self, payload: &[u8], next_hop: Ipv4Addr) -> (r: Result<Datagram, Error>)
        ensures
            match r {
                Ok(d) => {
                    &&& link_to(self@, next_hop) matches Some(link)
                    &&& link.activated
                    &&& d.port == link.dest_port
                    &&& d.bytes@ == payload@
                },
                Err(Error::LinkNotFound) => link_to(self@, next_hop) is None,
                Err(Error::LinkInactive) => {
                    &&& link_to(self@, next_hop) matches Some(link)
                    &&& !link.activated
                },
            },
    {
        match self.find_link_to(next_hop) {
            Some(link) => match link.send(payload) {
                Ok(d) => Ok(d),
                Err(e) => Err(Error::from(e)),
            },
            None => Err(Error::LinkNotFound),
        }
    }

    pub fn activate_link(&mut self, link_no: u16) -> (r: Result<(), Error>)
        ensures
            match r {
                Ok(_) => link_no < old(self)@.len() && final(self)@ == old(self)@.update(
                    link_no as int,
                    (Link { activated: true, ..old(self)@[link_no as int] }),
                ),
                Err(e) => {
                    &&& e == Error::LinkNotFound
                    &&& link_no >= old(self)@.len()
                    &&& final(self)@ == old(self)@
                },
            },
    {
        if link_no as usize >= self.links.len() {
            return Err(Error::LinkNotFound);
        }
        let mut link: Link = self.links[link_no as usize];
        link.activate();
        self.links[link_no as usize] = link;
        Ok(())
    }

    pub fn deactivate_link(&mut self, link_no: u16) -> (r: Result<(), Error>)
        ensures
            match r {
                Ok(_) => link_no < old(self)@.len() && final(self)@ == old(self)@.update(
                    link_no as int,
                    (Link { activated: false, ..old(self)@[link_no as int] }),
                ),
                Err(e) => {
                    &&& e == Error::LinkNotFound
                    &&& link_no >= old(self)@.len()
                    &&& final(self)@ == old(self)@
                },
            },
    {
        if link_no as usize >= self.links.len() {
            return Err(Error::LinkNotFound);
        }
        let mut link: Link = self.links[link_no as usize];
        link.deactivate();
        self.links[link_no as usize] = link;
        Ok(())
    }

    /// All links, both active and inactive.
    pub fn iter_links(&self) -> (r: &[Link])
        ensures
            r@ == self@,
    {
        self.links.as_slice()
    }

    pub fn find_link_to(&self, dest: Ipv4Addr) -> (r: Option<Link>)
        ensures
            r == link_to(self@, dest),
    {
        let mut i: usize = 0;
        assert(self@.skip(0) =~= self@);
        while i < self.links.len()
            invariant
                i <= self@.len(),
                self@ == self.links@,
                link_to(self@, dest) == link_to(self@.skip(i as int), dest),
            decreases self@.len() - i,
        {
            if self.links[i].dest() == dest {
                return Some(self.links[i]);
            }
            assert(self@.skip(i as int).skip(1) =~= self@.skip(i + 1));
            i = i + 1;
        }
        None
    }

    pub fn find_link_with_interface_ip(&self, ip: Ipv4Addr) -> (r: Option<Link>)
        ensures
            r == link_at(self@, ip),
    {
        let mut i: usize = 0;
        assert(self@.skip(0) =~= self@);
        while i < self.links.len()
            invariant
                i <= self@.len(),
                self@ == self.links@,
                link_at(self@, ip) == link_at(self@.skip(i as int), ip),
            decreases self@.len() - i,
        {
            if self.links[i].source() == ip {
                return Some(self.links[i]);
            }
            assert(self@.skip(i as int).skip(1) =~= self@.skip(i + 1));
            i = i + 1;
        }
        None
    }
}

/// The link that is found by the address of the host at its other end is the first one to that
/// host, and the one that is found by an interface is the first one at that interface.
pub proof fn law_first_link_is_taken(links: Seq<Link>, addr: Ipv4Addr)
    ensures
        match link_to(links, addr) {
            Some(link) => exists|k: int|
                0 <= k < links.len() && Some(#[trigger] links[k]) == link_to(links, addr)
                    && links[k].dest_virtual_ip == addr && forall|j: int|
                    0 <= j < k ==> (#[trigger] links[j]).dest_virtual_ip != addr,
            None => forall|j: int|
                0 <= j < links.len() ==> (#[trigger] links[j]).dest_virtual_ip != addr,
        },
        match link_at(links, addr) {
            Some(link) => exists|k: int|
                0 <= k < links.len() && Some(#[trigger] links[k]) == link_at(links, addr)
                    && links[k].src_virtual_ip == addr && forall|j: int|
                    0 <= j < k ==> (#[trigger] links[j]).src_virtual_ip != addr,
            None => forall|j: int|
                0 <= j < links.len() ==> (#[trigger] links[j]).src_virtual_ip != addr,
        },
    decreases links.len(),
{
    if links.len() > 0 {
        let rest = links.skip(1);
        law_first_link_is_taken(rest, addr);
        assert forall|j: int| 0 < j < links.len() implies #[trigger] links[j] == rest[j - 1] by {}
        if links[0].dest_virtual_ip == addr {
            assert(Some(links[0]) == link_to(links, addr));
        } else if link_to(rest, addr) is Some {
            let k = choose|k: int|
                0 <= k < rest.len() && Some(#[trigger] rest[k]) == link_to(rest, addr)
                    && rest[k].dest_virtual_ip == addr && forall|j: int|
                    0 <= j < k ==> (#[trigger] rest[j]).dest_virtual_ip != addr;
            assert(links[k + 1] == rest[k]);
            assert forall|j: int| 0 <= j < k + 1 implies (#[trigger] links[j]).dest_virtual_ip
                != addr by {
                if j > 0 {
                    assert(rest[j - 1] == links[j]);
                }
            }
        }
        if links[0].src_virtual_ip == addr {
            assert(Some(links[0]) == link_at(links, addr));
        } else if link_at(rest, addr) is Some {
            let k = choose|k: int|
                0 <= k < rest.len() && Some(#[trigger] rest[k]) == link_at(rest, addr)
                    && rest[k].src_virtual_ip == addr && forall|j: int|
                    0 <= j < k ==> (#[trigger] rest[j]).src_virtual_ip != addr;
            assert(links[k + 1] == rest[k]);
            assert forall|j: int| 0 <= j < k + 1 implies (#[trigger] links[j]).src_virtual_ip
                != addr by {
                if j > 0 {
                    assert(rest[j - 1] == links[j]);
                }
            }
        }
    }
}

/// Turning a link off or on changes neither which links there are nor where they lead.
pub proof fn law_switching_keeps_links(links: Seq<Link>, i: int, activated: bool, dest: Ipv4Addr)
    requires
        0 <= i < links.len(),
    ensures
        link_to(links, dest) is Some <==> link_to(
            links.update(i, (Link { activated, ..links[i] })),
            dest,
        ) is Some,
        link_at(links, dest) is Some <==> link_at(
            links.update(i, (Link { activated, ..links[i] })),
            dest,
        ) is Some,
    decreases links.len(),
{
    let after = links.update(i, (Link { activated, ..links[i] }));
    if i == 0 {
        assert(after.skip(1) =~= links.skip(1));
    } else {
        assert(after.skip(1) =~= links.skip(1).update(
            i - 1,
            (Link { activated, ..links.skip(1)[i - 1] }),
        ));
        law_switching_keeps_links(links.skip(1), i - 1, activated, dest);
    }
}

} // verus!
