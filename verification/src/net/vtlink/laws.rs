//! What becomes of packets that are sent, received and passed on.

use crate::addr::Ipv4Addr;
use crate::drop_policy::DropPolicy;
use crate::header::{
    checksum_holds, is_ipv4_header, law_written_header_reads_back, lemma_written_header_layout,
    Ipv4Header,
};
use crate::message::Message;
use crate::net::vtlink::fwd::{law_first_route_is_taken, Route};
use crate::net::vtlink::link::{
    law_first_link_is_taken, link_at, link_to, links_of, Error, Link, LinkDefinition,
};
use crate::net::vtlink::{
    inner_link, lemma_entries_bytes_len, local_routes, outbound_link, rip_packet, rip_payload,
    rip_updates, IpSlice, PacketDecision, PacketOutcome, VtLinkNet,
};
use crate::net::SendError;
use crate::protocol::rip::{advertised, Command, RipMessage};
use crate::protocol::Protocol;
use vstd::prelude::*;

verus! {

/// Whether the place `i` is that of the first route to an address.
pub open spec fn is_first_route(routes: Seq<Route>, dest: Ipv4Addr, i: int) -> bool {
    &&& 0 <= i < routes.len()
    &&& routes[i].destination == dest
    &&& forall|j: int| 0 <= j < i ==> (#[trigger] routes[j]).destination != dest
}

/// Whether the place `k` is that of the first link to an address.
pub open spec fn is_first_link(links: Seq<Link>, dest: Ipv4Addr, k: int) -> bool {
    &&& 0 <= k < links.len()
    &&& links[k].dest_virtual_ip == dest
    &&& forall|j: int| 0 <= j < k ==> (#[trigger] links[j]).dest_virtual_ip != dest
}

/// An intact packet for another host is forwarded, whatever its protocol, its sender and its
/// receiver, as long as it has hops left to live, does not come from a neighbour whose link is
/// turned off, and is not dropped on purpose.
pub proof fn law_packet_for_another_host_is_forwarded<DP: DropPolicy>(
    net: VtLinkNet<DP>,
    header: Ipv4Header,
)
    requires
        checksum_holds(header),
        header.ttl > 0,
        !net.my_addrs@.contains(header.destination),
        !net.drop_policy.drops(header),
        forall|k: int|
            0 <= k < net.links@.len() && (#[trigger] net.links@[k]).dest_virtual_ip
                == header.source ==> net.links@[k].activated,
    ensures
        net.decision(header, checksum_holds(header)) == PacketDecision::Forward,
{
    law_first_link_is_taken(net.links@, header.source);
}

/// An intact packet for this host is consumed, whatever its protocol and its sender and however
/// many hops it has left, as long as it does not come from a neighbour whose link is turned off,
/// and is not dropped on purpose.
pub proof fn law_packet_for_this_host_is_consumed<DP: DropPolicy>(
    net: VtLinkNet<DP>,
    header: Ipv4Header,
)
    requires
        checksum_holds(header),
        net.my_addrs@.contains(header.destination),
        !net.drop_policy.drops(header),
        forall|k: int|
            0 <= k < net.links@.len() && (#[trigger] net.links@[k]).dest_virtual_ip
                == header.source ==> net.links@[k].activated,
    ensures
        net.decision(header, checksum_holds(header)) == PacketDecision::Consume,
{
    law_first_link_is_taken(net.links@, header.source);
}

/// A packet is dropped where its checksum does not hold, where the link to its sender is turned
/// off, where the drop policy says so, and where it is for another host and has no hops left.
pub proof fn law_packets_are_dropped_for_a_reason<DP: DropPolicy>(
    net: VtLinkNet<DP>,
    header: Ipv4Header,
    checksum: bool,
)
    ensures
        !checksum ==> net.decision(header, checksum) == PacketDecision::Drop,
        forall|k: int| #[trigger]
            is_first_link(net.links@, header.source, k) && !net.links@[k].activated
                ==> net.decision(header, checksum) == PacketDecision::Drop,
        net.drop_policy.drops(header) ==> net.decision(header, checksum) == PacketDecision::Drop,
        header.ttl == 0 && !net.my_addrs@.contains(header.destination) ==> net.decision(
            header,
            checksum,
        ) == PacketDecision::Drop,
        // There is no other reason.
        net.decision(header, checksum) == PacketDecision::Drop ==> {
            ||| !checksum
            ||| exists|k: int| #[trigger]
                is_first_link(net.links@, header.source, k) && !net.links@[k].activated
            ||| net.drop_policy.drops(header)
            ||| header.ttl == 0 && !net.my_addrs@.contains(header.destination)
        },
{
    law_first_link_is_taken(net.links@, header.source);
    assert forall|k: int| #[trigger] is_first_link(net.links@, header.source, k) implies link_to(
        net.links@,
        header.source,
    ) == Some(net.links@[k]) by {
        lemma_first_link(net.links@, header.source, k);
    }
    if link_to(net.links@, header.source) is Some {
        let k = choose|k: int|
            0 <= k < net.links@.len() && link_to(net.links@, header.source) == Some(
                #[trigger] net.links@[k],
            ) && net.links@[k].dest_virtual_ip == header.source && forall|j: int|
                0 <= j < k ==> (#[trigger] net.links@[j]).dest_virtual_ip != header.source;
        assert(is_first_link(net.links@, header.source, k));
    }
}

/// The drop policy counts just the packets that are intact and come from no neighbour whose link
/// is turned off.
pub proof fn law_drop_policy_counts_packets<DP: DropPolicy>(
    net: VtLinkNet<DP>,
    header: Ipv4Header,
    checksum: bool,
)
    ensures
        !checksum ==> net.policy_after(header, checksum) == net.drop_policy,
        forall|k: int| #[trigger]
            is_first_link(net.links@, header.source, k) && !net.links@[k].activated
                ==> net.policy_after(header, checksum) == net.drop_policy,
        checksum && (forall|k: int|
            0 <= k < net.links@.len() && (#[trigger] net.links@[k]).dest_virtual_ip
                == header.source ==> net.links@[k].activated) ==> net.policy_after(header, checksum)
            == net.drop_policy.decided(header),
{
    law_first_link_is_taken(net.links@, header.source);
    assert forall|k: int| #[trigger] is_first_link(net.links@, header.source, k) implies link_to(
        net.links@,
        header.source,
    ) == Some(net.links@[k]) by {
        lemma_first_link(net.links@, header.source, k);
    }
}

/// A first link is the link that is found.
pub(crate) proof fn lemma_first_link(links: Seq<Link>, dest: Ipv4Addr, k: int)
    requires
        is_first_link(links, dest, k),
    ensures
        link_to(links, dest) == Some(links[k]),
{
    law_first_link_is_taken(links, dest);
    let n = choose|n: int|
        0 <= n < links.len() && link_to(links, dest) == Some(#[trigger] links[n])
            && links[n].dest_virtual_ip == dest && forall|j: int|
            0 <= j < n ==> (#[trigger] links[j]).dest_virtual_ip != dest;
    assert(links[k].dest_virtual_ip == dest);
    if n < k {
        assert(links[n].dest_virtual_ip != dest);
    }
    if k < n {
        assert(links[k].dest_virtual_ip != dest);
    }
}

/// A packet that is forwarded goes to the neighbour that the first route to its destination
/// names, over the first link to that neighbour, where that is turned on.
pub proof fn law_forwarding_follows_the_route<DP: DropPolicy>(
    net: VtLinkNet<DP>,
    header: Ipv4Header,
    payload: Seq<u8>,
    i: int,
    k: int,
)
    requires
        is_first_route(net.table(), header.destination, i),
        is_first_link(net.links@, net.table()[i].next_hop, k),
    ensures
        net.links@[k].activated ==> net.forwarded(header, payload) is Some && (net.forwarded(
            header,
            payload,
        )->0).0 == net.links@[k].dest_port,
        !net.links@[k].activated ==> net.forwarded(header, payload) is None,
{
    law_first_route_is_taken(net.table(), header.destination, i);
    lemma_first_link(net.links@, net.table()[i].next_hop, k);
}

/// A packet for which there is no route, or no link to the next hop, is not passed on.
pub proof fn law_forwarding_takes_a_route<DP: DropPolicy>(
    net: VtLinkNet<DP>,
    header: Ipv4Header,
    payload: Seq<u8>,
    i: int,
)
    ensures
        (forall|j: int|
            0 <= j < net.table().len() ==> (#[trigger] net.table()[j]).destination
                != header.destination) ==> net.forwarded(header, payload) is None,
        is_first_route(net.table(), header.destination, i) && (forall|j: int|
            0 <= j < net.links@.len() ==> (#[trigger] net.links@[j]).dest_virtual_ip
                != net.table()[i].next_hop) ==> net.forwarded(header, payload) is None,
{
    law_first_route_is_taken(net.table(), header.destination, i);
    law_first_link_is_taken(net.links@, net.table()[i].next_hop);
}

/// What is sent to an address goes to the neighbour that the first route to it names, over the
/// first link to that neighbour. It comes from this host's end of that link, is intact, carries
/// the payload under the protocol, and has fifteen hops to live. It is not sent where the address
/// cannot be reached or the link is turned off.
pub proof fn law_sending_follows_the_route<DP: DropPolicy>(
    net: VtLinkNet<DP>,
    payload: Seq<u8>,
    protocol: u8,
    dest: Ipv4Addr,
    i: int,
    k: int,
    received: Ipv4Header,
)
    requires
        payload.len() <= 65515,
        is_first_route(net.table(), dest, i),
        is_first_link(net.links@, net.table()[i].next_hop, k),
    ensures
        net.table()[i].cost >= 16 ==> net.outgoing(payload, protocol, dest) == Err::<
            (u16, Seq<u8>),
            SendError,
        >(SendError::Unreachable),
        net.table()[i].cost < 16 && !net.links@[k].activated ==> net.outgoing(
            payload,
            protocol,
            dest,
        ) == Err::<(u16, Seq<u8>), SendError>(SendError::Transport(Error::LinkInactive)),
        net.table()[i].cost < 16 && net.links@[k].activated ==> {
            let sent = net.outgoing(payload, protocol, dest);
            &&& sent is Ok
            &&& sent->Ok_0.0 == net.links@[k].dest_port
            &&& sent->Ok_0.1.len() == 20 + payload.len()
            &&& sent->Ok_0.1.skip(20) == payload
            &&& is_ipv4_header(sent->Ok_0.1)
            &&& received.reads(sent->Ok_0.1) ==> {
                &&& checksum_holds(received)
                &&& received.source == net.links@[k].src_virtual_ip
                &&& received.destination == dest
                &&& received.protocol == protocol
                &&& received.ttl == 15
                &&& received.payload_len == payload.len()
            }
        },
{
    law_first_route_is_taken(net.table(), dest, i);
    lemma_first_link(net.links@, net.table()[i].next_hop, k);
    if net.table()[i].cost < 16 && net.links@[k].activated {
        let src = net.links@[k].src_virtual_ip;
        let b = (net.outgoing(payload, protocol, dest)->Ok_0).1;
        lemma_packet(src, dest, protocol, 15, payload, received);
        assert(b == crate::utils::net::ipv4_packet(src, dest, protocol, 15, payload));
    }
}

/// What is sent to an address without a route, or without a link to the next hop, is refused.
pub proof fn law_sending_takes_a_route<DP: DropPolicy>(
    net: VtLinkNet<DP>,
    payload: Seq<u8>,
    protocol: u8,
    dest: Ipv4Addr,
    i: int,
)
    ensures
        (forall|j: int|
            0 <= j < net.table().len() ==> (#[trigger] net.table()[j]).destination != dest)
            ==> net.outgoing(payload, protocol, dest) == Err::<(u16, Seq<u8>), SendError>(
            SendError::NoForwardingEntry,
        ),
        is_first_route(net.table(), dest, i) && net.table()[i].cost < 16 && (forall|j: int|
            0 <= j < net.links@.len() ==> (#[trigger] net.links@[j]).dest_virtual_ip
                != net.table()[i].next_hop) ==> net.outgoing(payload, protocol, dest) == Err::<
            (u16, Seq<u8>),
            SendError,
        >(SendError::NoLink),
{
    law_first_route_is_taken(net.table(), dest, i);
    law_first_link_is_taken(net.links@, net.table()[i].next_hop);
}

/// What a packet that was built holds.
pub(crate) proof fn lemma_packet(
    src: Ipv4Addr,
    dst: Ipv4Addr,
    protocol: u8,
    ttl: u8,
    payload: Seq<u8>,
    received: Ipv4Header,
)
    requires
        payload.len() <= 65515,
    ensures
        ({
            let b = crate::utils::net::ipv4_packet(src, dst, protocol, ttl, payload);
            &&& b.len() == 20 + payload.len()
            &&& b.skip(20) == payload
            &&& is_ipv4_header(b)
            &&& received.reads(b) ==> {
                &&& checksum_holds(received)
                &&& received.source == src
                &&& received.destination == dst
                &&& received.protocol == protocol
                &&& received.ttl == ttl
                &&& received.payload_len == payload.len()
            }
        }),
{
    let b = crate::utils::net::ipv4_packet(src, dst, protocol, ttl, payload);
    lemma_written_header_layout(payload.len() as u16, ttl, protocol, src, dst, payload);
    assert(b.skip(20) =~= payload);
    if received.reads(b) {
        law_written_header_reads_back(
            payload.len() as u16,
            ttl,
            protocol,
            src,
            dst,
            payload,
            received,
        );
    }
}

/// A packet that is consumed is handed to the protocol that its number names: 0 to the one that
/// shows packets, 6 to TCP and 200 to RIP. All other numbers are reported.
pub proof fn law_consumed_packet_reaches_its_protocol<DP: DropPolicy>(
    net: VtLinkNet<DP>,
    header: Ipv4Header,
    payload: Seq<u8>,
    outcome: PacketOutcome,
)
    requires
        net.carried_out(PacketDecision::Consume, header, payload, outcome),
    ensures
        header.protocol == 0 ==> outcome == PacketOutcome::Consumed(Protocol::Test, header),
        header.protocol == 6 ==> outcome == PacketOutcome::Consumed(Protocol::Tcp, header),
        header.protocol == 200 ==> outcome == PacketOutcome::Consumed(Protocol::Rip, header),
        header.protocol != 0 && header.protocol != 6 && header.protocol != 200 ==> outcome
            == PacketOutcome::UnrecognizedProtocol(header.protocol),
{
}

/// What arrives and is decided upon has the outcome of that decision, and a packet that is passed
/// on is what forwarding makes of it.
pub proof fn law_decisions_are_carried_out<DP: DropPolicy>(
    net: VtLinkNet<DP>,
    header: Ipv4Header,
    payload: Seq<u8>,
    outcome: PacketOutcome,
    decision: PacketDecision,
)
    requires
        net.carried_out(decision, header, payload, outcome),
    ensures
        decision == PacketDecision::Drop <==> outcome is Dropped,
        decision == PacketDecision::Forward <==> outcome is Forwarded,
        decision == PacketDecision::Consume <==> outcome is Consumed
            || outcome is UnrecognizedProtocol,
        outcome matches PacketOutcome::Forwarded(sent) ==> match sent {
            Some(d) => net.forwarded(header, payload) == Some((d.port, d.bytes@)),
            None => net.forwarded(header, payload) is None,
        },
{
}

/// Bytes that hold a packet of version 4 are handled as the packet whose header they start with
/// and whose payload is what follows the first twenty bytes. All other bytes are reported, and
/// change nothing.
pub proof fn law_bytes_are_handled_as_their_packet<DP: DropPolicy>(
    net: VtLinkNet<DP>,
    sliced: IpSlice,
    bytes: Seq<u8>,
    outcome: PacketOutcome,
    policy: DP,
)
    requires
        net.handled(sliced, bytes, outcome, policy),
    ensures
        sliced == IpSlice::Malformed ==> outcome is Malformed,
        sliced == IpSlice::NoIp ==> outcome is NoIp,
        sliced == IpSlice::V6 ==> outcome is UnsupportedV6,
        sliced == IpSlice::V4 && !is_ipv4_header(bytes) ==> outcome is Malformed,
        sliced != IpSlice::V4 || !is_ipv4_header(bytes) ==> policy == net.drop_policy,
        sliced == IpSlice::V4 && is_ipv4_header(bytes) ==> exists|header: Ipv4Header| #[trigger]
            header.reads(bytes) && policy == net.policy_after(header, checksum_holds(header))
                && net.carried_out(
                net.decision(header, checksum_holds(header)),
                header,
                bytes.subrange(20, bytes.len() as int),
                outcome,
            ),
{
    if sliced == IpSlice::V4 && is_ipv4_header(bytes) {
        assert(bytes.subrange(20, bytes.len() as int) =~= bytes.skip(20));
    }
}

/// Routes are advertised by one packet on each link that is turned on, in the order of the links,
/// and by none on the others. The packet on a link goes from this host's end of the link to the
/// other end, is intact and carries a RIP response. That holds an entry for each route, in
/// order, with the route's cost, but with a cost of 16 where the route leads through the
/// very neighbour that is told.
pub proof fn law_neighbours_are_told_the_routes(
    links: Seq<Link>,
    routes: Seq<Route>,
    j: int,
    received: Ipv4Header,
    message: RipMessage,
)
    requires
        4 + routes.len() * 12 <= 65515,
    ensures
        ({
            let active = links.filter(|l: Link| l.activated);
            let sent = rip_updates(links, routes);
            &&& sent.len() == active.len()
            &&& 0 <= j < active.len() ==> {
                let payload = sent[j].1.skip(20);
                &&& sent[j].0 == active[j].dest_port
                &&& is_ipv4_header(sent[j].1)
                &&& received.reads(sent[j].1) ==> {
                    &&& checksum_holds(received)
                    &&& received.source == active[j].src_virtual_ip
                    &&& received.destination == active[j].dest_virtual_ip
                    &&& received.protocol == 200
                    &&& received.ttl == 15
                    &&& received.payload_len == payload.len()
                }
                &&& RipMessage::can_decode(payload)
                &&& RipMessage::decodes(payload, message) ==> {
                    &&& message.command == Command::Response
                    &&& message.entries@.len() == routes.len()
                    &&& forall|i: int|
                        0 <= i < routes.len() ==> {
                            &&& (#[trigger] message.entries@[i]).address == routes[i].destination
                            &&& message.entries@[i].mask == (Ipv4Addr {
                                a: 255,
                                b: 255,
                                c: 255,
                                d: 255,
                            })
                            &&& message.entries@[i].cost == if routes[i].next_hop
                                == active[j].dest_virtual_ip {
                                16
                            } else {
                                routes[i].cost
                            }
                        }
                }
            }
        }),
{
    let on = |l: Link| l.activated;
    let active = links.filter(on);
    lemma_updates_are_packets(links, routes, j);
    if 0 <= j < active.len() {
        let link = active[j];
        let entries = advertised(routes, link.dest_virtual_ip);
        let payload = rip_payload(entries);
        lemma_entries_bytes_len(entries);
        assert(entries.len() == routes.len());
        lemma_packet(link.src_virtual_ip, link.dest_virtual_ip, 200, 15, payload, received);
        lemma_response_reads_back(entries, message);
    }
}

/// A response reads back with its entries.
proof fn lemma_response_reads_back(
    entries: Seq<crate::protocol::rip::Entry>,
    received: RipMessage,
)
    requires
        entries.len() <= u16::MAX,
    ensures
        RipMessage::can_decode(rip_payload(entries)),
        RipMessage::decodes(rip_payload(entries), received) ==> received.command
            == Command::Response && received.entries@ == entries,
{
    let b = rip_payload(entries);
    crate::protocol::rip::lemma_response_bytes(entries, b, received);
}

/// The packets that are sent are those for the links that are turned on.
proof fn lemma_updates_are_packets(links: Seq<Link>, routes: Seq<Route>, j: int)
    ensures
        rip_updates(links, routes).len() == links.filter(|l: Link| l.activated).len(),
        0 <= j < links.filter(|l: Link| l.activated).len() ==> rip_updates(links, routes)[j] == (
            links.filter(|l: Link| l.activated)[j].dest_port,
            rip_packet(routes, links.filter(|l: Link| l.activated)[j]),
        ),
    decreases links.len(),
{
    reveal(Seq::filter);
    if links.len() > 0 {
        let on = |l: Link| l.activated;
        lemma_updates_are_packets(links.drop_last(), routes, j);
        let before = links.drop_last().filter(on);
        assert(links.filter(on) == (if links.last().activated {
            before.push(links.last())
        } else {
            before
        }));
    }
}

/// This host starts with a route to each of its own addresses, which is local and costs nothing,
/// and with a link for each definition, which is turned on: from the interface to the host at
/// its other end, whose packets go to the port that the definition gives.
pub proof fn law_hosts_start_with_their_links(defs: Seq<LinkDefinition>)
    ensures
        links_of(defs).len() == defs.len(),
        local_routes(defs).len() == defs.len(),
        forall|i: int|
            0 <= i < defs.len() ==> {
                let link = #[trigger] links_of(defs)[i];
                &&& link.dest_port == defs[i].dest_port
                &&& link.dest_virtual_ip == defs[i].dest_ip
                &&& link.src_virtual_ip == defs[i].interface_ip
                &&& link.activated
            },
        forall|i: int|
            0 <= i < defs.len() ==> {
                let route = #[trigger] local_routes(defs)[i];
                &&& route.destination == defs[i].interface_ip
                &&& route.next_hop == defs[i].interface_ip
                &&& route.cost == 0
                &&& route.is_local
            },
{
}

/// Packets to an address leave over the first link to the neighbour that the first route to the
/// address names.
pub proof fn law_packets_leave_over_the_route(
    routes: Seq<Route>,
    links: Seq<Link>,
    dest: Ipv4Addr,
    i: int,
    k: int,
)
    ensures
        is_first_route(routes, dest, i) && is_first_link(links, routes[i].next_hop, k)
            ==> outbound_link(routes, links, dest) == Some(links[k]),
        (forall|j: int| 0 <= j < routes.len() ==> (#[trigger] routes[j]).destination != dest)
            ==> outbound_link(routes, links, dest) is None,
        is_first_route(routes, dest, i) && (forall|j: int|
            0 <= j < links.len() ==> (#[trigger] links[j]).dest_virtual_ip != routes[i].next_hop)
            ==> outbound_link(routes, links, dest) is None,
{
    law_first_route_is_taken(routes, dest, i);
    if is_first_route(routes, dest, i) {
        law_first_link_is_taken(links, routes[i].next_hop);
        if is_first_link(links, routes[i].next_hop, k) {
            lemma_first_link(links, routes[i].next_hop, k);
        }
    }
}

/// A route to one of this host's own addresses leads through the first link at that interface, and
/// any other route through the first link to its next hop.
pub proof fn law_routes_lead_through_links(links: Seq<Link>, route: Route, k: int)
    requires
        0 <= k < links.len(),
    ensures
        route.is_local && links[k].src_virtual_ip == route.destination && (forall|j: int|
            0 <= j < k ==> (#[trigger] links[j]).src_virtual_ip != route.destination)
            ==> inner_link(links, route) == Some(links[k]),
        !route.is_local && is_first_link(links, route.next_hop, k) ==> inner_link(links, route)
            == Some(links[k]),
{
    if !route.is_local {
        if is_first_link(links, route.next_hop, k) {
            lemma_first_link(links, route.next_hop, k);
        }
    } else {
        law_first_link_is_taken(links, route.destination);
        if links[k].src_virtual_ip == route.destination && (forall|j: int|
            0 <= j < k ==> (#[trigger] links[j]).src_virtual_ip != route.destination) {
            let n = choose|n: int|
                0 <= n < links.len() && link_at(links, route.destination) == Some(
                    #[trigger] links[n],
                ) && links[n].src_virtual_ip == route.destination && forall|j: int|
                    0 <= j < n ==> (#[trigger] links[j]).src_virtual_ip != route.destination;
            if n < k {
                assert(links[n].src_virtual_ip != route.destination);
            }
            if k < n {
                assert(links[k].src_virtual_ip != route.destination);
            }
        }
    }
}

} // verus!
