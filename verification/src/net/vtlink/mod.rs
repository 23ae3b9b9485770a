//! A network of virtual links.

use crate::addr::Ipv4Addr;
use crate::args::Args;
use crate::drop_policy::{DropPolicy, NeverDrop};
use crate::header::{checksum_holds, is_ipv4_header, verify_header_checksum, Ipv4Header};
use crate::message::Message;
use crate::net::vtlink::fwd::{
    clock_ages, route_to, routes_of, unexpired, Entry, ForwardingTable, Route, MAX_COST,
};
use crate::net::vtlink::link::{
    link_at, link_to, links_of, Datagram, Error, Link, LinkDefinition, VtLinkLayer,
};
use crate::net::SendError;
use crate::protocol::rip::{advertised, entries_bytes, RipMessage};
use crate::protocol::{protocol_of, Protocol};
use crate::time::{clock_read, Duration};
use crate::utils::net::{default_ttl, ipv4_packet, Ipv4PacketBuilder};
use vstd::prelude::*;

pub mod fwd;
pub mod laws;
pub mod link;

verus! {

#[derive(PartialEq, Eq, Structural, Debug, Clone, Copy)]
pub enum PacketDecision {
    Drop,
    Forward,
    Consume,
}

/// How often a network prunes and advertises its routes, and which packets it drops.
pub struct VtLinkNetConfig<DP: DropPolicy> {
    pub prune_interval: Duration,
    pub rip_update_interval: Duration,
    pub entry_max_age: Duration,
    pub drop_policy: DP,
}

impl Default for VtLinkNetConfig<NeverDrop> {
    fn default() -> (r: Self)
        ensures
            r.prune_interval.nanos == 1_000_000_000,
            r.rip_update_interval.nanos == 5_000_000_000,
            r.entry_max_age.nanos == 12_000_000_000,
            r.drop_policy == NeverDrop,
    {
        Self {
            prune_interval: Duration::from_secs(1),
            rip_update_interval: Duration::from_secs(5),
            entry_max_age: Duration::from_secs(12),
            drop_policy: NeverDrop,
        }
    }
}

/// What kind of packet bytes hold.
#[derive(PartialEq, Eq, Structural, Debug, Clone, Copy)]
pub enum IpSlice {
    Malformed,
    NoIp,
    V4,
    V6,
}

/// What `etherparse::SlicedPacket::from_ip` finds in the bytes.
pub uninterp spec fn sliced_ip(bytes: Seq<u8>) -> IpSlice;

/// `etherparse::SlicedPacket::from_ip`: whether the bytes hold a packet, and of which version
/// of IP. A packet of version 4 starts with an IPv4 header.
#[verifier::external_body]
fn slice_ip(bytes: &[u8]) -> (r: IpSlice)
    ensures
        r == sliced_ip(bytes@),
        r == IpSlice::V4 ==> is_ipv4_header(bytes@),
{
    match etherparse::SlicedPacket::from_ip(bytes) {
        Err(_) => IpSlice::Malformed,
        Ok(packet) => match packet.ip {
            None => IpSlice::NoIp,
            Some(etherparse::InternetSlice::Ipv4(_, _)) => IpSlice::V4,
            Some(etherparse::InternetSlice::Ipv6(_, _)) => IpSlice::V6,
        },
    }
}

/// What became of a packet.
pub enum PacketOutcome {
    /// The bytes are no packet.
    Malformed,
    /// The bytes have no IP header.
    NoIp,
    /// Packets of version 6 are not supported.
    UnsupportedV6,
    Dropped,
    /// The packet goes on, where there is a route and an active link.
    Forwarded(Option<Datagram>),
    /// The packet is for this host, to be handled by the protocol.
    Consumed(Protocol, Ipv4Header),
    /// The packet is for this host, and no protocol has its number.
    UnrecognizedProtocol(u8),
}

/// The next hop and the interface through which a destination is reached.
pub open spec fn outbound_link(
    routes: Seq<Route>,
    links: Seq<Link>,
    dest: Ipv4Addr,
) -> Option<Link> {
    match route_to(routes, dest) {
        Some(route) => link_to(links, route.next_hop),
        None => None,
    }
}

/// The link through which an entry of the table is reached: for the router's own addresses
/// the link at the interface, and for all others the link to the next hop.
pub open spec fn inner_link(links: Seq<Link>, route: Route) -> Option<Link> {
    if route.is_local {
        link_at(links, route.destination)
    } else {
        link_to(links, route.next_hop)
    }
}

/// The route to one of this host's own addresses.
pub open spec fn local_route(l: LinkDefinition) -> Route {
    Route { destination: l.interface_ip, next_hop: l.interface_ip, cost: 0, is_local: true }
}

/// The routes to this host's own addresses.
pub open spec fn local_routes(defs: Seq<LinkDefinition>) -> Seq<Route> {
    defs.map_values(|l: LinkDefinition| local_route(l))
}

/// The message by which routes are advertised to a neighbour, as a packet.
pub open spec fn rip_packet(routes: Seq<Route>, link: Link) -> Seq<u8> {
    let entries = advertised(routes, link.dest_virtual_ip);
    ipv4_packet(
        link.src_virtual_ip,
        link.dest_virtual_ip,
        200,
        default_ttl(),
        rip_payload(entries),
    )
}

/// The bytes of a response with the given entries.
pub open spec fn rip_payload(entries: Seq<crate::protocol::rip::Entry>) -> Seq<u8> {
    seq![0u8, 2u8] + crate::header::be16_bytes(entries.len() as u16) + entries_bytes(entries)
}

/// What is sent to advertise routes: a message on every active link, in the order of the
/// links.
pub open spec fn rip_updates(links: Seq<Link>, routes: Seq<Route>) -> Seq<(u16, Seq<u8>)>
    decreases links.len(),
{
    if links.len() == 0 {
        Seq::empty()
    } else {
        let before = rip_updates(links.drop_last(), routes);
        if links.last().activated {
            before.push((links.last().dest_port, rip_packet(routes, links.last())))
        } else {
            before
        }
    }
}

/// What a datagram says.
pub open spec fn datagram(d: Datagram) -> (u16, Seq<u8>) {
    (d.port, d.bytes@)
}

/// What datagrams say.
pub open spec fn datagrams(v: Seq<Datagram>) -> Seq<(u16, Seq<u8>)> {
    v.map_values(|d: Datagram| datagram(d))
}

/// How many bytes a list of entries has.
pub proof fn lemma_entries_bytes_len(entries: Seq<crate::protocol::rip::Entry>)
    ensures
        entries_bytes(entries).len() == entries.len() * 12,
    decreases entries.len(),
{
    if entries.len() > 0 {
        lemma_entries_bytes_len(entries.drop_last());
    }
}

/// Advertises entries on all active links.
pub fn advertise(links: &[Link], entries: &[Entry]) -> (r: Vec<Datagram>)
    requires
        4 + entries@.len() * 12 <= 65515,
    ensures
        datagrams(r@) == rip_updates(links@, routes_of(entries@)),
{
    let mut out: Vec<Datagram> = Vec::new();
    let ghost routes = routes_of(entries@);
    let mut i: usize = 0;
    assert(datagrams(out@) =~= rip_updates(links@.take(0), routes));
    while i < links.len()
        invariant
            i <= links@.len(),
            4 + entries@.len() * 12 <= 65515,
            routes == routes_of(entries@),
            datagrams(out@) == rip_updates(links@.take(i as int), routes),
        decreases links@.len() - i,
    {
        let link: Link = links[i];
        let ghost before = out@;
        let rip_msg = RipMessage::from_entries_with_poisoned_reverse(entries, link.dest());
        let ghost sent = rip_msg.entries@;
        proof {
            lemma_entries_bytes_len(sent);
            assert(crate::header::be16_bytes(2) =~= seq![0u8, 2u8]);
        }
        let rip_msg_bytes = rip_msg.into_bytes();
        assert(rip_msg_bytes@ =~= rip_payload(sent));
        let built = Ipv4PacketBuilder::default().with_payload(
            rip_msg_bytes.as_slice(),
        ).with_protocol(u8::from(Protocol::Rip)).with_src(link.source()).with_dst(
            link.dest(),
        ).build();
        proof {
            assert(links@.take(i + 1).drop_last() =~= links@.take(i as int));
            assert(links@.take(i + 1).last() == link);
        }
        match built {
            Ok(packet) => {
                assert(packet@ == rip_packet(routes, link));
                match link.send(packet.as_slice()) {
                    Ok(d) => {
                        out.push(d);
                        assert(datagrams(out@) =~= datagrams(before).push(datagram(d)));
                    },
                    Err(_) => {},
                }
            },
            Err(_) => {},
        }
        i = i + 1;
    }
    assert(links@.take(links@.len() as int) =~= links@);
    out
}

/// A host in a network of virtual links.
pub struct VtLinkNet<DP: DropPolicy> {
    pub links: VtLinkLayer,
    pub my_addrs: Vec<Ipv4Addr>,
    pub routes: ForwardingTable,
    pub drop_policy: DP,
}

impl<DP: DropPolicy> VtLinkNet<DP> {
    /// Every entry of the table can be reached through a link.
    pub open spec fn wf(self) -> bool {
        forall|i: int|
            0 <= i < self.routes@.len() ==> inner_link(self.links@, (#[trigger] self.routes@[i])@)
                is Some
    }

    /// What the table says.
    pub open spec fn table(self) -> Seq<Route> {
        routes_of(self.routes@)
    }

    /// A network with the given links, and a route to each of this host's own addresses.
    pub fn new(links: VtLinkLayer, program_args: &Args, config: VtLinkNetConfig<DP>) -> (r: Self)
        requires
            links@ == links_of(program_args.links@),
        ensures
            r.wf(),
            r.links@ == links@,
            r.my_addrs@ == program_args.links@.map_values(|l: LinkDefinition| l.interface_ip),
            r.table() == local_routes(program_args.links@),
            forall|k: int|
                0 <= k < r.routes@.len() ==> clock_read((#[trigger] r.routes@[k]).updated_at()),
            r.drop_policy == config.drop_policy,
    {
        let my_addrs = program_args.get_my_interface_ips();
        let mut entries: Vec<Entry> = Vec::new();
        let mut i: usize = 0;
        while i < program_args.links.len()
            invariant
                i <= program_args.links@.len(),
                routes_of(entries@) == local_routes(program_args.links@.take(i as int)),
                forall|k: int|
                    0 <= k < entries@.len() ==> clock_read((#[trigger] entries@[k]).updated_at()),
            decreases program_args.links@.len() - i,
        {
            let l: LinkDefinition = program_args.links[i];
            let ghost before = entries@;
            let e = Entry::new_local(l.interface_ip, l.interface_ip, 0);
            entries.push(e);
            i = i + 1;
            proof {
                let defs = program_args.links@.take(i as int);
                assert(routes_of(entries@) =~= routes_of(before).push(e@));
                assert(local_routes(defs) =~= local_routes(defs.drop_last()).push(local_route(l)));
                assert(defs.drop_last() =~= program_args.links@.take(i - 1));
            }
        }
        assert(program_args.links@.take(program_args.links@.len() as int)
            =~= program_args.links@);
        proof {
            assert forall|k: int| 0 <= k < entries@.len() implies inner_link(
                links@,
                (#[trigger] entries@[k])@,
            ) is Some by {
                assert(routes_of(entries@)[k] == entries@[k]@);
                assert(links@[k].src_virtual_ip == program_args.links@[k].interface_ip);
                lemma_link_at_exists(links@, k);
            }
        }
        let routes = ForwardingTable::with_entries(entries);
        Self { links, my_addrs, routes, drop_policy: config.drop_policy }
    }

    pub fn links(&self) -> (r: &VtLinkLayer)
        ensures
            *r == self.links,
    {
        &self.links
    }

    pub fn get_forwarding_table(&self) -> (r: &ForwardingTable)
        ensures
            *r == self.routes,
    {
        &self.routes
    }

    pub fn get_forwarding_table_mut(&mut self) -> (r: &mut ForwardingTable)
        ensures
            *r == old(self).routes,
            *final(self) == (VtLinkNet { routes: *final(r), ..*old(self) }),
    {
        &mut self.routes
    }

    pub fn is_my_addr(&self, addr: Ipv4Addr) -> (r: bool)
        ensures
            r == self.my_addrs@.contains(addr),
    {
        let mut i: usize = 0;
        while i < self.my_addrs.len()
            invariant
                i <= self.my_addrs@.len(),
                forall|j: int| 0 <= j < i ==> self.my_addrs@[j] != addr,
            decreases self.my_addrs@.len() - i,
        {
            if self.my_addrs[i] == addr {
                return true;
            }
            i = i + 1;
        }
        false
    }

    /// The address of the interface through which packets to a destination leave.
    pub fn get_outbound_ip(&self, dest: Ipv4Addr) -> (r: Option<Ipv4Addr>)
        ensures
            r == (match outbound_link(self.table(), self.links@, dest) {
                Some(link) => Some(link.src_virtual_ip),
                None => None,
            }),
    {
        match self.routes.find_entry_for(dest) {
            Some(forward_rule) => match self.links.find_link_to(forward_rule.next_hop()) {
                Some(link) => Some(link.source()),
                None => None,
            },
            None => None,
        }
    }

    /// What a payload for an address becomes: a packet on the link to the next hop. It takes a
    /// route, along which the address can be reached, and an active link.
    pub open spec fn outgoing(self, payload: Seq<u8>, protocol: u8, dest_vip: Ipv4Addr) -> Result<
        (u16, Seq<u8>),
        SendError,
    > {
        match route_to(self.table(), dest_vip) {
            None => Err(SendError::NoForwardingEntry),
            Some(route) => if route.cost >= MAX_COST {
                Err(SendError::Unreachable)
            } else {
                match link_to(self.links@, route.next_hop) {
                    None => Err(SendError::NoLink),
                    Some(link) => if link.activated {
                        Ok(
                            (
                                link.dest_port,
                                ipv4_packet(
                                    link.src_virtual_ip,
                                    dest_vip,
                                    protocol,
                                    default_ttl(),
                                    payload,
                                ),
                            ),
                        )
                    } else {
                        Err(SendError::Transport(Error::LinkInactive))
                    },
                }
            },
        }
    }

    /// Makes a packet of a payload. The result is what has to be sent to the next hop.
    pub fn send(&self, payload: &[u8], protocol: u8, dest_vip: Ipv4Addr) -> (r: Result<
        Datagram,
        SendError,
    >)
        requires
            payload@.len() <= 65515,
        ensures
            match r {
                Ok(d) => self.outgoing(payload@, protocol, dest_vip) == Ok::<
                    (u16, Seq<u8>),
                    SendError,
                >(datagram(d)),
                Err(e) => self.outgoing(payload@, protocol, dest_vip) == Err::<
                    (u16, Seq<u8>),
                    SendError,
                >(e),
            },
    {
        let entry = match self.routes.find_entry_for(dest_vip) {
            Some(entry) => entry,
            None => return Err(SendError::NoForwardingEntry),
        };
        if entry.is_unreachable() {
            return Err(SendError::Unreachable);
        }
        let link = match self.links.find_link_to(entry.next_hop()) {
            Some(link) => link,
            None => return Err(SendError::NoLink),
        };
        let built = Ipv4PacketBuilder::default().with_src(link.source()).with_dst(
            dest_vip,
        ).with_payload(payload).with_protocol(protocol).build();
        let packet = match built {
            Ok(packet) => packet,
            Err(_) => Vec::new(),
        };
        match link.send(packet.as_slice()) {
            Ok(d) => Ok(d),
            Err(e) => Err(SendError::Transport(Error::from(e))),
        }
    }

    /// What happens to a packet, where `checksum` says whether its checksum holds.
    pub open spec fn decision(self, header: Ipv4Header, checksum: bool) -> PacketDecision {
        if !checksum {
            PacketDecision::Drop
        } else if link_to(self.links@, header.source) matches Some(link) && !link.activated {
            PacketDecision::Drop
        } else if self.drop_policy.drops(header) {
            PacketDecision::Drop
        } else if self.my_addrs@.contains(header.destination) {
            PacketDecision::Consume
        } else if header.ttl == 0 {
            PacketDecision::Drop
        } else {
            PacketDecision::Forward
        }
    }

    /// The drop policy once a packet has been decided. It is asked only about packets that are
    /// intact and come from no link that is turned off.
    pub open spec fn policy_after(self, header: Ipv4Header, checksum: bool) -> DP {
        if !checksum {
            self.drop_policy
        } else if link_to(self.links@, header.source) matches Some(link) && !link.activated {
            self.drop_policy
        } else {
            self.drop_policy.decided(header)
        }
    }

    /// Decides what happens to a packet, where `checksum` says whether its checksum holds.
    pub fn decide_checked(&mut self, header: &Ipv4Header, checksum: bool) -> (r: PacketDecision)
        ensures
            r == old(self).decision(*header, checksum),
            *final(self) == (VtLinkNet {
                drop_policy: old(self).policy_after(*header, checksum),
                ..*old(self)
            }),
    {
        if !checksum {
            return PacketDecision::Drop;
        }
        let sender = header.source;
        match self.links.find_link_to(sender) {
            Some(link) => {
                if link.is_disabled() {
                    return PacketDecision::Drop;
                }
            },
            None => {},
        }
        if self.drop_policy.should_drop(header) {
            return PacketDecision::Drop;
        }
        if self.is_my_addr(header.destination) {
            return PacketDecision::Consume;
        }
        if header.ttl == 0 {
            return PacketDecision::Drop;
        }
        PacketDecision::Forward
    }

    /// Decides what happens to a packet.
    pub fn decide_packet(&mut self, header: &Ipv4Header) -> (r: PacketDecision)
        requires
            header.wf(),
        ensures
            r == old(self).decision(*header, checksum_holds(*header)),
            *final(self) == (VtLinkNet {
                drop_policy: old(self).policy_after(*header, checksum_holds(*header)),
                ..*old(self)
            }),
    {
        let checksum = verify_header_checksum(header);
        self.decide_checked(header, checksum)
    }

    /// What a packet that is not for this host becomes: the same packet with one hop less to
    /// live, on the link to the next hop, where there is a route and the link is active.
    pub open spec fn forwarded(self, header: Ipv4Header, payload: Seq<u8>) -> Option<
        (u16, Seq<u8>),
    > {
        match outbound_link(self.table(), self.links@, header.destination) {
            Some(link) => if link.activated {
                Some(
                    (
                        link.dest_port,
                        ipv4_packet(
                            header.source,
                            header.destination,
                            header.protocol,
                            (header.ttl - 1) as u8,
                            payload,
                        ),
                    ),
                )
            } else {
                None
            },
            None => None,
        }
    }

    /// Forwards a packet. The result is what has to be sent to the next hop.
    pub fn forward_packet(&self, header: &Ipv4Header, payload: &[u8]) -> (r: Option<Datagram>)
        requires
            header.ttl > 0,
            payload@.len() <= 65515,
        ensures
            match r {
                Some(d) => self.forwarded(*header, payload@) == Some(datagram(d)),
                None => self.forwarded(*header, payload@) is None,
            },
    {
        let dest = header.destination;
        let entry = match self.routes.find_entry_for(dest) {
            Some(entry) => entry,
            None => return None,
        };
        let link = match self.links.find_link_to(entry.next_hop()) {
            Some(link) => link,
            None => return None,
        };
        let built = Ipv4PacketBuilder::default().with_src(header.source).with_dst(
            header.destination,
        ).with_payload(payload).with_protocol(header.protocol).with_ttl(header.ttl - 1).build();
        match built {
            Ok(packet) => match link.send(packet.as_slice()) {
                Ok(d) => Some(d),
                Err(_) => None,
            },
            Err(_) => None,
        }
    }

    /// Whether `outcome` is what becomes of a packet that was decided so.
    pub open spec fn carried_out(
        self,
        decision: PacketDecision,
        header: Ipv4Header,
        payload: Seq<u8>,
        outcome: PacketOutcome,
    ) -> bool {
        match decision {
            PacketDecision::Drop => outcome is Dropped,
            PacketDecision::Forward => match outcome {
                PacketOutcome::Forwarded(Some(d)) => self.forwarded(header, payload) == Some(
                    datagram(d),
                ),
                PacketOutcome::Forwarded(None) => self.forwarded(header, payload) is None,
                _ => false,
            },
            PacketDecision::Consume => match protocol_of(header.protocol) {
                Ok(protocol) => outcome == PacketOutcome::Consumed(protocol, header),
                Err(_) => outcome == PacketOutcome::UnrecognizedProtocol(header.protocol),
            },
        }
    }

    /// Handles a packet, where `checksum` says whether its checksum holds.
    pub fn handle_checked(&mut self, header: Ipv4Header, payload: &[u8], checksum: bool) -> (r:
        PacketOutcome)
        requires
            payload@.len() <= 65515,
        ensures
            old(self).carried_out(old(self).decision(header, checksum), header, payload@, r),
            *final(self) == (VtLinkNet {
                drop_policy: old(self).policy_after(header, checksum),
                ..*old(self)
            }),
    {
        match self.decide_checked(&header, checksum) {
            PacketDecision::Drop => PacketOutcome::Dropped,
            PacketDecision::Forward => PacketOutcome::Forwarded(
                self.forward_packet(&header, payload),
            ),
            PacketDecision::Consume => self.consume_packet(header),
        }
    }

    /// Handles a packet.
    pub fn handle_packet(&mut self, header: Ipv4Header, payload: &[u8]) -> (r: PacketOutcome)
        requires
            header.wf(),
            payload@.len() <= 65515,
        ensures
            old(self).carried_out(
                old(self).decision(header, checksum_holds(header)),
                header,
                payload@,
                r,
            ),
            *final(self) == (VtLinkNet {
                drop_policy: old(self).policy_after(header, checksum_holds(header)),
                ..*old(self)
            }),
    {
        let checksum = verify_header_checksum(&header);
        self.handle_checked(header, payload, checksum)
    }

    /// Finds the protocol that handles a packet for this host.
    fn consume_packet(&self, header: Ipv4Header) -> (r: PacketOutcome)
        ensures
            match protocol_of(header.protocol) {
                Ok(protocol) => r == PacketOutcome::Consumed(protocol, header),
                Err(_) => r == PacketOutcome::UnrecognizedProtocol(header.protocol),
            },
    {
        match Protocol::try_from(header.protocol) {
            Ok(protocol) => PacketOutcome::Consumed(protocol, header),
            Err(_) => PacketOutcome::UnrecognizedProtocol(header.protocol),
        }
    }

    /// Whether `outcome` is what becomes of bytes in which a packet of the given kind was found.
    pub open spec fn handled(
        self,
        sliced: IpSlice,
        bytes: Seq<u8>,
        outcome: PacketOutcome,
        policy: DP,
    ) -> bool {
        match sliced {
            IpSlice::Malformed => outcome is Malformed && policy == self.drop_policy,
            IpSlice::NoIp => outcome is NoIp && policy == self.drop_policy,
            IpSlice::V6 => outcome is UnsupportedV6 && policy == self.drop_policy,
            IpSlice::V4 => if is_ipv4_header(bytes) {
                exists|header: Ipv4Header| #[trigger]
                    header.reads(bytes) && self.carried_out(
                        self.decision(header, checksum_holds(header)),
                        header,
                        bytes.skip(20),
                        outcome,
                    ) && policy == self.policy_after(header, checksum_holds(header))
            } else {
                outcome is Malformed && policy == self.drop_policy
            },
        }
    }

    /// Handles the bytes of a packet of the given kind. What follows the first twenty bytes is
    /// taken for the payload.
    pub fn handle_sliced(&mut self, sliced: IpSlice, bytes: &[u8]) -> (r: PacketOutcome)
        requires
            bytes@.len() <= 65535,
        ensures
            old(self).handled(sliced, bytes@, r, final(self).drop_policy),
            *final(self) == (VtLinkNet {
                drop_policy: final(self).drop_policy,
                ..*old(self)
            }),
    {
        match sliced {
            IpSlice::Malformed => PacketOutcome::Malformed,
            IpSlice::NoIp => PacketOutcome::NoIp,
            IpSlice::V6 => PacketOutcome::UnsupportedV6,
            IpSlice::V4 => match Ipv4Header::from_slice(bytes) {
                Some(header) => {
                    assert(header.reads(bytes@));
                    let payload = &bytes[20..bytes.len()];
                    assert(payload@ =~= bytes@.skip(20));
                    self.handle_packet(header, payload)
                },
                None => PacketOutcome::Malformed,
            },
        }
    }

    /// Handles the bytes of a packet.
    pub fn handle_packet_bytes(&mut self, bytes: &[u8]) -> (r: PacketOutcome)
        requires
            bytes@.len() <= 65535,
        ensures
            old(self).handled(sliced_ip(bytes@), bytes@, r, final(self).drop_policy),
            *final(self) == (VtLinkNet {
                drop_policy: final(self).drop_policy,
                ..*old(self)
            }),
    {
        let sliced = slice_ip(bytes);
        self.handle_sliced(sliced, bytes)
    }

    /// Deletes the entries of the table that have not been updated for `max_age`.
    pub fn prune_routing_table(&mut self, max_age: Duration)
        requires
            old(self).wf(),
        ensures
            final(self).wf(),
            final(self).links@ == old(self).links@,
            final(self).my_addrs@ == old(self).my_addrs@,
            final(self).drop_policy == old(self).drop_policy,
            exists|ages: Seq<Duration>|
                clock_ages(old(self).routes@, ages) && final(self).routes@ == #[trigger] unexpired(
                    old(self).routes@,
                    ages,
                    max_age,
                ),
    {
        self.routes.prune(max_age);
        proof {
            let ages = choose|ages: Seq<Duration>|
                clock_ages(old(self).routes@, ages) && self.routes@ == #[trigger] unexpired(
                    old(self).routes@,
                    ages,
                    max_age,
                );
            assert forall|i: int| 0 <= i < self.routes@.len() implies inner_link(
                self.links@,
                (#[trigger] self.routes@[i])@,
            ) is Some by {
                let e = self.routes@[i];
                assert(self.routes@.contains(e));
                crate::net::vtlink::fwd::law_pruning_keeps_only_unexpired(
                    old(self).routes@,
                    ages,
                    max_age,
                    e,
                );
                let k = choose|k: int|
                    0 <= k < old(self).routes@.len() && #[trigger] old(self).routes@[k] == e;
                assert(inner_link(old(self).links@, old(self).routes@[k]@) is Some);
            }
        }
    }

    /// Advertises the whole table on all active links.
    pub fn periodic_rip_update(&self) -> (r: Vec<Datagram>)
        requires
            4 + self.routes@.len() * 12 <= 65515,
        ensures
            datagrams(r@) == rip_updates(self.links@, self.table()),
    {
        advertise(self.links.iter_links(), self.routes.entries())
    }

    /// Turns a link on.
    pub fn activate(&mut self, link_no: u16) -> (r: Result<(), Error>)
        requires
            old(self).wf(),
        ensures
            final(self).wf(),
            final(self).my_addrs@ == old(self).my_addrs@,
            final(self).routes@ == old(self).routes@,
            final(self).drop_policy == old(self).drop_policy,
            match r {
                Ok(_) => link_no < old(self).links@.len() && final(self).links@ == old(
                    self,
                ).links@.update(
                    link_no as int,
                    (Link { activated: true, ..old(self).links@[link_no as int] }),
                ),
                Err(e) => {
                    &&& e == Error::LinkNotFound
                    &&& link_no >= old(self).links@.len()
                    &&& final(self).links@ == old(self).links@
                },
            },
    {
        let r = self.links.activate_link(link_no);
        proof {
            if r is Ok {
                lemma_switching_keeps_wf(*old(self), *self, link_no as int, true);
            }
        }
        r
    }

    /// Turns a link off.
    pub fn deactivate(&mut self, link_no: u16) -> (r: Result<(), Error>)
        requires
            old(self).wf(),
        ensures
            final(self).wf(),
            final(self).my_addrs@ == old(self).my_addrs@,
            final(self).routes@ == old(self).routes@,
            final(self).drop_policy == old(self).drop_policy,
            match r {
                Ok(_) => link_no < old(self).links@.len() && final(self).links@ == old(
                    self,
                ).links@.update(
                    link_no as int,
                    (Link { activated: false, ..old(self).links@[link_no as int] }),
                ),
                Err(e) => {
                    &&& e == Error::LinkNotFound
                    &&& link_no >= old(self).links@.len()
                    &&& final(self).links@ == old(self).links@
                },
            },
    {
        let r = self.links.deactivate_link(link_no);
        proof {
            if r is Ok {
                lemma_switching_keeps_wf(*old(self), *self, link_no as int, false);
            }
        }
        r
    }
}

/// A link of the list is found by its interface.
proof fn lemma_link_at_exists(links: Seq<Link>, k: int)
    requires
        0 <= k < links.len(),
    ensures
        link_at(links, links[k].src_virtual_ip) is Some,
    decreases links.len(),
{
    if links[0].src_virtual_ip != links[k].src_virtual_ip {
        assert(links.skip(1)[k - 1] == links[k]);
        lemma_link_at_exists(links.skip(1), k - 1);
    }
}

/// Turning a link on or off loses no entry's link.
proof fn lemma_switching_keeps_wf<DP: DropPolicy>(
    before: VtLinkNet<DP>,
    after: VtLinkNet<DP>,
    i: int,
    activated: bool,
)
    requires
        before.wf(),
        0 <= i < before.links@.len(),
        after.links@ == before.links@.update(i, (Link { activated, ..before.links@[i] })),
        after.routes@ == before.routes@,
    ensures
        after.wf(),
{
    assert forall|k: int| 0 <= k < after.routes@.len() implies inner_link(
        after.links@,
        (#[trigger] after.routes@[k])@,
    ) is Some by {
        let route = before.routes@[k]@;
        assert(inner_link(before.links@, route) is Some);
        crate::net::vtlink::link::law_switching_keeps_links(
            before.links@,
            i,
            activated,
            route.destination,
        );
        crate::net::vtlink::link::law_switching_keeps_links(
            before.links@,
            i,
            activated,
            route.next_hop,
        );
    }
}

/// A packet whose checksum does not hold is dropped, whoever it is for.
pub proof fn law_corrupt_packet_is_dropped<DP: DropPolicy>(
    net: VtLinkNet<DP>,
    header: Ipv4Header,
)
    requires
        !checksum_holds(header),
    ensures
        net.decision(header, checksum_holds(header)) == PacketDecision::Drop,
{
}

/// An intact packet for this host is consumed even when it has no hops left to live, and
/// an intact packet for another host is then dropped.
pub proof fn law_last_hop<DP: DropPolicy>(net: VtLinkNet<DP>, header: Ipv4Header)
    requires
        checksum_holds(header),
        link_to(net.links@, header.source) matches Some(link) ==> link.activated,
        !net.drop_policy.drops(header),
        header.ttl == 0,
    ensures
        net.decision(header, true) == if net.my_addrs@.contains(header.destination) {
            PacketDecision::Consume
        } else {
            PacketDecision::Drop
        },
{
}

/// A packet that this host forwards arrives at the next hop intact, with the same
/// addresses, protocol and payload, and one hop less to live.
pub proof fn law_forwarding_keeps_packet<DP: DropPolicy>(
    net: VtLinkNet<DP>,
    header: Ipv4Header,
    payload: Seq<u8>,
    received: Ipv4Header,
)
    requires
        payload.len() <= 65515,
        header.ttl > 0,
        net.forwarded(header, payload) is Some,
        received.reads((net.forwarded(header, payload)->0).1),
    ensures
        received.source == header.source,
        received.destination == header.destination,
        received.protocol == header.protocol,
        received.ttl == header.ttl - 1,
        received.payload_len == payload.len(),
        checksum_holds(received),
        (net.forwarded(header, payload)->0).1.skip(20) == payload,
{
    let ttl = (header.ttl - 1) as u8;
    crate::header::law_written_header_reads_back(
        payload.len() as u16,
        ttl,
        header.protocol,
        header.source,
        header.destination,
        payload,
        received,
    );
    crate::header::lemma_written_header_layout(
        payload.len() as u16,
        ttl,
        header.protocol,
        header.source,
        header.destination,
        payload,
    );
    assert((net.forwarded(header, payload)->0).1.skip(20) =~= payload);
}

/// Bytes that one host sends to an address of another arrive there: the packet is intact, is
/// consumed by the host whose address it is, under the protocol that it was sent with, and carries
/// the bytes that were sent.
pub proof fn law_sent_packet_is_consumed<S: DropPolicy, R: DropPolicy>(
    sender: VtLinkNet<S>,
    receiver: VtLinkNet<R>,
    payload: Seq<u8>,
    protocol: u8,
    dest_vip: Ipv4Addr,
    received: Ipv4Header,
)
    requires
        payload.len() <= 65515,
        sender.outgoing(payload, protocol, dest_vip) is Ok,
        received.reads((sender.outgoing(payload, protocol, dest_vip)->Ok_0).1),
        receiver.my_addrs@.contains(dest_vip),
        link_to(receiver.links@, received.source) matches Some(link) ==> link.activated,
        !receiver.drop_policy.drops(received),
    ensures
        checksum_holds(received),
        receiver.decision(received, checksum_holds(received)) == PacketDecision::Consume,
        received.destination == dest_vip,
        received.protocol == protocol,
        received.payload_len == payload.len(),
        (sender.outgoing(payload, protocol, dest_vip)->Ok_0).1.skip(20) == payload,
{
    let link = link_to(sender.links@, route_to(sender.table(), dest_vip)->0.next_hop)->0;
    crate::header::law_written_header_reads_back(
        payload.len() as u16,
        default_ttl(),
        protocol,
        link.src_virtual_ip,
        dest_vip,
        payload,
        received,
    );
    crate::header::lemma_written_header_layout(
        payload.len() as u16,
        default_ttl(),
        protocol,
        link.src_virtual_ip,
        dest_vip,
        payload,
    );
    assert((sender.outgoing(payload, protocol, dest_vip)->Ok_0).1.skip(20) =~= payload);
}

} // verus!
