//! The routing information protocol.

use crate::addr::{lemma_same_octets, Ipv4Addr};
use crate::header::{
    be16, be16_bytes, be32, be32_bytes, lemma_be16_round_trip, lemma_be32_round_trip, push_addr,
    push_be16, push_be32, read_be16, read_be32,
};
use crate::drop_policy::DropPolicy;
use crate::header::Ipv4Header;
use crate::message::Message;
use crate::net::vtlink::fwd::{
    first_for, law_first_route_is_taken, lemma_first_for, lemma_none_for, lemma_route_index,
    route_index, route_to, routes_of, Entry as RoutingEntry, Route, MAX_COST,
};
use crate::net::vtlink::laws::{is_first_link, lemma_first_link};
use crate::net::vtlink::link::{link_to, Datagram, Link};
use crate::net::vtlink::{advertise, datagrams, inner_link, rip_updates, VtLinkNet};
use crate::time::clock_read;
use vstd::prelude::*;
use vstd::std_specs::convert::{FromSpecImpl, TryFromSpecImpl};

verus! {

/// The cost of reaching an address.
#[derive(PartialEq, Eq, Structural, Debug, Copy, Clone)]
pub struct Entry {
    pub cost: u32,
    pub address: Ipv4Addr,
    pub mask: Ipv4Addr,
}

#[derive(PartialEq, Eq, Structural, Debug, Copy, Clone)]
pub enum Command {
    Request,
    Response,
}

#[derive(PartialEq, Eq, Debug, Clone)]
pub struct RipMessage {
    pub command: Command,
    pub entries: Vec<Entry>,
}

#[derive(PartialEq, Eq, Structural, Debug)]
pub enum ParseCommandError {
    BadValue(u16),
}

/// The number of a command.
pub open spec fn command_number(command: Command) -> u16 {
    match command {
        Command::Request => 1,
        Command::Response => 2,
    }
}

/// The command with a number.
pub open spec fn command_of(value: u16) -> Result<Command, ParseCommandError> {
    if value == 1 {
        Ok(Command::Request)
    } else if value == 2 {
        Ok(Command::Response)
    } else {
        Err(ParseCommandError::BadValue(value))
    }
}

impl FromSpecImpl<Command> for u16 {
    open spec fn obeys_from_spec() -> bool {
        true
    }

    open spec fn from_spec(command: Command) -> u16 {
        command_number(command)
    }
}

impl From<Command> for u16 {
    fn from(command: Command) -> (r: u16) {
        match command {
            Command::Request => 1,
            Command::Response => 2,
        }
    }
}

impl TryFromSpecImpl<u16> for Command {
    open spec fn obeys_try_from_spec() -> bool {
        true
    }

    open spec fn try_from_spec(value: u16) -> Result<Self, ParseCommandError> {
        command_of(value)
    }
}

impl TryFrom<u16> for Command {
    type Error = ParseCommandError;

    fn try_from(value: u16) -> (r: Result<Self, ParseCommandError>) {
        match value {
            1 => Ok(Command::Request),
            2 => Ok(Command::Response),
            _ => Err(ParseCommandError::BadValue(value)),
        }
    }
}

/// The entry for an address, with a mask of 255.255.255.255.
pub open spec fn host_entry(cost: u32, address: Ipv4Addr) -> Entry {
    Entry { cost, address, mask: Ipv4Addr { a: 255, b: 255, c: 255, d: 255 } }
}

impl Entry {
    /// Constructs a RIP message entry with a mask of 255.255.255.255.
    pub fn with_default_mask(cost: u32, address: Ipv4Addr) -> (r: Self)
        ensures
            r == host_entry(cost, address),
    {
        Self { cost, address, mask: Ipv4Addr::new(255, 255, 255, 255) }
    }

    fn serialized_size() -> (r: usize)
        ensures
            r == 12,
    {
        12
    }

    /// The twelve bytes of the entry.
    pub open spec fn bytes(self) -> Seq<u8> {
        be32_bytes(self.cost) + self.address@ + self.mask@
    }

    /// Whether this is the entry that the first twelve of the bytes hold.
    pub open spec fn reads(self, bytes: Seq<u8>) -> bool {
        &&& self.cost == be32(bytes.subrange(0, 4))
        &&& self.address@ == bytes.subrange(4, 8)
        &&& self.mask@ == bytes.subrange(8, 12)
    }
}

impl Message for Entry {
    open spec fn can_encode(&self) -> bool {
        true
    }

    open spec fn encoded(&self) -> Seq<u8> {
        self.bytes()
    }

    open spec fn can_decode(bytes: Seq<u8>) -> bool {
        bytes.len() >= 12
    }

    open spec fn decodes(bytes: Seq<u8>, message: Self) -> bool {
        message.reads(bytes)
    }

    fn into_bytes(self) -> (r: Vec<u8>) {
        let mut v: Vec<u8> = Vec::new();
        push_be32(&mut v, self.cost);
        push_addr(&mut v, self.address);
        push_addr(&mut v, self.mask);
        assert(v@ =~= self.bytes());
        v
    }

    fn from_bytes(bytes: &[u8]) -> (r: Self) {
        let cost: u32 = read_be32(bytes[0], bytes[1], bytes[2], bytes[3]);
        let address = Ipv4Addr::new(bytes[4], bytes[5], bytes[6], bytes[7]);
        let mask = Ipv4Addr::new(bytes[8], bytes[9], bytes[10], bytes[11]);
        proof {
            assert(seq![bytes[0], bytes[1], bytes[2], bytes[3]] =~= bytes@.subrange(0, 4));
            assert(address@ =~= bytes@.subrange(4, 8));
            assert(mask@ =~= bytes@.subrange(8, 12));
        }
        Self { cost, address, mask }
    }
}

/// The bytes of a list of entries.
pub open spec fn entries_bytes(entries: Seq<Entry>) -> Seq<u8>
    decreases entries.len(),
{
    if entries.len() == 0 {
        Seq::empty()
    } else {
        entries_bytes(entries.drop_last()) + entries.last().bytes()
    }
}

/// How many entries the bytes of a message announce.
pub open spec fn announced(bytes: Seq<u8>) -> int {
    be16(bytes[2], bytes[3])
}

/// The cost that a route is advertised with to a neighbour: routes through the neighbour
/// itself are advertised as unreachable.
pub open spec fn advertised_cost(route: Route, receiver: Ipv4Addr) -> u32 {
    if route.next_hop == receiver {
        MAX_COST
    } else {
        route.cost
    }
}

/// The entries by which routes are advertised to a neighbour.
pub open spec fn advertised(routes: Seq<Route>, receiver: Ipv4Addr) -> Seq<Entry> {
    routes.map_values(|r: Route| host_entry(advertised_cost(r, receiver), r.destination))
}

impl RipMessage {
    pub fn from_entries_with_poisoned_reverse(
        entries: &[RoutingEntry],
        receiver: Ipv4Addr,
    ) -> (r: Self)
        ensures
            r.command == Command::Response,
            r.entries@ == advertised(routes_of(entries@), receiver),
    {
        let mut out: Vec<Entry> = Vec::new();
        let mut i: usize = 0;
        while i < entries.len()
            invariant
                i <= entries@.len(),
                out@ == advertised(routes_of(entries@.take(i as int)), receiver),
            decreases entries@.len() - i,
        {
            let e: &RoutingEntry = &entries[i];
            let cost: u32 = if e.next_hop() == receiver {
                RoutingEntry::max_cost()
            } else {
                e.cost()
            };
            out.push(Entry::with_default_mask(cost, e.destination()));
            i = i + 1;
            assert(out@ =~= advertised(routes_of(entries@.take(i as int)), receiver));
        }
        assert(entries@.take(entries@.len() as int) =~= entries@);
        Self { command: Command::Response, entries: out }
    }

    /// Whether bytes hold a message: a command, the number of entries, which is zero in a
    /// request, and at least that many entries.
    pub fn is_well_formed(bytes: &[u8]) -> (r: bool)
        ensures
            r == RipMessage::can_decode(bytes@),
    {
        if bytes.len() < 4 {
            return false;
        }
        let cmd: u16 = read_be16(bytes[0], bytes[1]);
        let num_entries: u16 = read_be16(bytes[2], bytes[3]);
        if cmd != 1 && cmd != 2 {
            return false;
        }
        if cmd == 1 && num_entries != 0 {
            return false;
        }
        bytes.len() - 4 >= num_entries as usize * 12
    }
}

impl Message for RipMessage {
    open spec fn can_encode(&self) -> bool {
        self.entries@.len() <= u16::MAX
    }

    open spec fn encoded(&self) -> Seq<u8> {
        be16_bytes(command_number(self.command)) + be16_bytes(self.entries@.len() as u16)
            + entries_bytes(self.entries@)
    }

    open spec fn can_decode(bytes: Seq<u8>) -> bool {
        &&& bytes.len() >= 4
        &&& command_of(be16(bytes[0], bytes[1]) as u16) is Ok
        &&& command_of(be16(bytes[0], bytes[1]) as u16)->Ok_0 == Command::Request ==> announced(
            bytes,
        ) == 0
        &&& bytes.len() >= 4 + announced(bytes) * 12
    }

    open spec fn decodes(bytes: Seq<u8>, message: Self) -> bool {
        &&& command_of(be16(bytes[0], bytes[1]) as u16) == Ok::<Command, ParseCommandError>(
            message.command,
        )
        &&& message.entries@.len() == announced(bytes)
        &&& forall|i: int|
            0 <= i < announced(bytes) ==> (#[trigger] message.entries@[i]).reads(
                bytes.subrange(4 + i * 12, 16 + i * 12),
            )
    }

    fn into_bytes(self) -> (r: Vec<u8>) {
        let cmd: u16 = u16::from(self.command);
        let num_entries: u16 = self.entries.len() as u16;
        let mut v: Vec<u8> = Vec::new();
        push_be16(&mut v, cmd);
        push_be16(&mut v, num_entries);
        let ghost front = v@;
        let mut i: usize = 0;
        assert(v@ =~= front + entries_bytes(self.entries@.take(0)));
        while i < self.entries.len()
            invariant
                i <= self.entries@.len(),
                v@ == front + entries_bytes(self.entries@.take(i as int)),
            decreases self.entries@.len() - i,
        {
            let mut bytes = self.entries[i].into_bytes();
            v.append(&mut bytes);
            proof {
                assert(self.entries@.take(i + 1).drop_last() =~= self.entries@.take(i as int));
                assert(v@ =~= front + entries_bytes(self.entries@.take(i + 1)));
            }
            i = i + 1;
        }
        assert(self.entries@.take(self.entries@.len() as int) =~= self.entries@);
        assert(v@ =~= self.encoded());
        v
    }

    fn from_bytes(bytes: &[u8]) -> (r: Self) {
        let cmd: u16 = read_be16(bytes[0], bytes[1]);
        let command = match Command::try_from(cmd) {
            Ok(command) => command,
            Err(_) => Command::Response,
        };
        let num_entries: u16 = read_be16(bytes[2], bytes[3]);
        let mut entries: Vec<Entry> = Vec::new();
        let mut i: u16 = 0;
        let mut start: usize = 4;
        while i < num_entries
            invariant
                i <= num_entries,
                num_entries == announced(bytes@),
                entries@.len() == i,
                start == 4 + i * 12,
                bytes@.len() >= 4 + num_entries * 12,
                forall|k: int|
                    0 <= k < i ==> (#[trigger] entries@[k]).reads(
                        bytes@.subrange(4 + k * 12, 16 + k * 12),
                    ),
            decreases num_entries - i,
        {
            let entry = Entry::from_bytes(&bytes[start..start + Entry::serialized_size()]);
            entries.push(entry);
            start = start + Entry::serialized_size();
            i = i + 1;
        }
        Self { command, entries }
    }
}

/// Where the bytes of an entry lie among those of a list.
proof fn lemma_entries_bytes(entries: Seq<Entry>, i: int)
    ensures
        entries_bytes(entries).len() == entries.len() * 12,
        0 <= i < entries.len() ==> entries_bytes(entries).subrange(i * 12, i * 12 + 12)
            == entries[i].bytes(),
    decreases entries.len(),
{
    if entries.len() > 0 {
        lemma_entries_bytes(entries.drop_last(), i);
        let all = entries_bytes(entries);
        let before = entries_bytes(entries.drop_last());
        if 0 <= i < entries.len() - 1 {
            assert(all.subrange(i * 12, i * 12 + 12) =~= before.subrange(i * 12, i * 12 + 12));
        } else if i == entries.len() - 1 {
            assert(all.subrange(i * 12, i * 12 + 12) =~= entries.last().bytes());
        }
    }
}

/// An entry reads back from its bytes, and no other does.
pub proof fn law_rip_entry_round_trip(sent: Entry, received: Entry)
    requires
        received.reads(sent.bytes()),
    ensures
        received == sent,
{
    let b = sent.bytes();
    lemma_be32_round_trip(sent.cost);
    assert(b.subrange(0, 4) =~= be32_bytes(sent.cost));
    assert(b.subrange(4, 8) =~= sent.address@);
    assert(b.subrange(8, 12) =~= sent.mask@);
    lemma_same_octets(received.address, sent.address);
    lemma_same_octets(received.mask, sent.mask);
}

/// A message that was written can be read back, and what is read is what was written. A request
/// is written without entries.
pub proof fn law_rip_message_round_trip(sent: RipMessage, received: RipMessage)
    requires
        sent.can_encode(),
        sent.command == Command::Request ==> sent.entries@.len() == 0,
    ensures
        RipMessage::can_decode(sent.encoded()),
        RipMessage::decodes(sent.encoded(), received) ==> received.command == sent.command
            && received.entries@ == sent.entries@,
{
    let b = sent.encoded();
    lemma_be16_round_trip(command_number(sent.command));
    lemma_be16_round_trip(sent.entries@.len() as u16);
    lemma_entries_bytes(sent.entries@, 0);
    assert(b[0] == be16_bytes(command_number(sent.command))[0]);
    assert(b[1] == be16_bytes(command_number(sent.command))[1]);
    assert(b[2] == be16_bytes(sent.entries@.len() as u16)[0]);
    assert(b[3] == be16_bytes(sent.entries@.len() as u16)[1]);
    assert(announced(b) == sent.entries@.len());
    if RipMessage::decodes(b, received) {
        assert forall|i: int| 0 <= i < sent.entries@.len() implies received.entries@[i]
            == sent.entries@[i] by {
            lemma_entries_bytes(sent.entries@, i);
            assert(b.subrange(4 + i * 12, 16 + i * 12) =~= entries_bytes(sent.entries@).subrange(
                i * 12,
                i * 12 + 12,
            ));
            law_rip_entry_round_trip(sent.entries@[i], received.entries@[i]);
        }
        assert(received.entries@ =~= sent.entries@);
    }
}

/// The bytes of a response read back with its entries.
pub(crate) proof fn lemma_response_bytes(entries: Seq<Entry>, b: Seq<u8>, received: RipMessage)
    requires
        entries.len() <= u16::MAX,
        b == seq![0u8, 2u8] + be16_bytes(entries.len() as u16) + entries_bytes(entries),
    ensures
        RipMessage::can_decode(b),
        RipMessage::decodes(b, received) ==> received.command == Command::Response
            && received.entries@ == entries,
{
    lemma_be16_round_trip(entries.len() as u16);
    lemma_entries_bytes(entries, 0);
    assert(b[0] == 0 && b[1] == 2);
    assert(b[2] == be16_bytes(entries.len() as u16)[0]);
    assert(b[3] == be16_bytes(entries.len() as u16)[1]);
    assert(announced(b) == entries.len());
    if RipMessage::decodes(b, received) {
        assert forall|i: int| 0 <= i < entries.len() implies received.entries@[i]
            == entries[i] by {
            lemma_entries_bytes(entries, i);
            assert(b.subrange(4 + i * 12, 16 + i * 12) =~= entries_bytes(entries).subrange(
                i * 12,
                i * 12 + 12,
            ));
            law_rip_entry_round_trip(entries[i], received.entries@[i]);
        }
        assert(received.entries@ =~= entries);
    }
}

/// Routes that lead through a neighbour are advertised to it as unreachable, and all others
/// with their cost.
pub proof fn law_poisoned_reverse(routes: Seq<Route>, receiver: Ipv4Addr, i: int)
    requires
        0 <= i < routes.len(),
    ensures
        advertised(routes, receiver).len() == routes.len(),
        advertised(routes, receiver)[i].address == routes[i].destination,
        routes[i].next_hop == receiver ==> advertised(routes, receiver)[i].cost == MAX_COST,
        routes[i].next_hop != receiver ==> advertised(routes, receiver)[i].cost
            == routes[i].cost,
{
}

/// The entry that twelve bytes hold.
pub open spec fn entry_at(bytes: Seq<u8>, at: int) -> Entry {
    Entry {
        cost: be32(bytes.subrange(at, at + 4)) as u32,
        address: Ipv4Addr {
            a: bytes[at + 4],
            b: bytes[at + 5],
            c: bytes[at + 6],
            d: bytes[at + 7],
        },
        mask: Ipv4Addr {
            a: bytes[at + 8],
            b: bytes[at + 9],
            c: bytes[at + 10],
            d: bytes[at + 11],
        },
    }
}

/// The entries of the message that bytes hold.
pub open spec fn rip_entries(bytes: Seq<u8>) -> Seq<Entry> {
    Seq::new(announced(bytes) as nat, |i: int| entry_at(bytes, 4 + i * 12))
}

/// A message that was read has the entries that its bytes hold.
pub proof fn lemma_decoded_entries(bytes: Seq<u8>, message: RipMessage)
    requires
        RipMessage::can_decode(bytes),
        RipMessage::decodes(bytes, message),
    ensures
        message.entries@ == rip_entries(bytes),
{
    assert forall|i: int| 0 <= i < announced(bytes) implies message.entries@[i] == entry_at(
        bytes,
        4 + i * 12,
    ) by {
        let at = 4 + i * 12;
        let part = bytes.subrange(at, at + 12);
        let e = entry_at(bytes, at);
        assert(part.subrange(0, 4) =~= bytes.subrange(at, at + 4));
        assert(part.subrange(4, 8) =~= e.address@);
        assert(part.subrange(8, 12) =~= e.mask@);
        assert(message.entries@[i].reads(part));
        lemma_same_octets(message.entries@[i].address, e.address);
        lemma_same_octets(message.entries@[i].mask, e.mask);
    }
    assert(message.entries@ =~= rip_entries(bytes));
}

/// The cost of a destination over one more hop. No cost is more than that of an unreachable
/// destination.
pub open spec fn one_hop_more(cost: u32) -> u32 {
    if cost >= MAX_COST {
        MAX_COST
    } else {
        (cost + 1) as u32
    }
}

/// A table, and the routes of it that have changed.
pub struct RipState {
    pub routes: Seq<Route>,
    pub updates: Seq<Route>,
}

/// The distance-vector update rules: what an advertised entry does to the table.
///
/// A destination that is new is added. A cheaper route replaces the one in the table, unless
/// that one's link is turned off. A costlier one is taken over only from the next hop of the
/// route in the table. Entries for this host's own addresses are ignored.
pub open spec fn rip_step(
    links: Seq<Link>,
    my_addrs: Seq<Ipv4Addr>,
    sender: Ipv4Addr,
    st: RipState,
    entry: Entry,
) -> RipState {
    let cost = one_hop_more(entry.cost);
    if my_addrs.contains(entry.address) {
        st
    } else {
        match route_to(st.routes, entry.address) {
            Some(route) => {
                let i = route_index(st.routes, entry.address);
                if cost < route.cost {
                    if inner_link(links, route) matches Some(link) && !link.activated {
                        st
                    } else {
                        let new = Route { next_hop: sender, cost, ..route };
                        RipState {
                            routes: st.routes.update(i, new),
                            updates: st.updates.push(new),
                        }
                    }
                } else if cost > route.cost && route.next_hop == sender {
                    let new = Route { cost, ..route };
                    RipState { routes: st.routes.update(i, new), updates: st.updates.push(new) }
                } else {
                    st
                }
            },
            None => {
                let new = Route {
                    destination: entry.address,
                    next_hop: sender,
                    cost,
                    is_local: false,
                };
                RipState { routes: st.routes.push(new), updates: st.updates.push(new) }
            },
        }
    }
}

/// What a list of advertised entries does to the table.
pub open spec fn rip_merge(
    links: Seq<Link>,
    my_addrs: Seq<Ipv4Addr>,
    sender: Ipv4Addr,
    routes: Seq<Route>,
    entries: Seq<Entry>,
) -> RipState
    decreases entries.len(),
{
    if entries.len() == 0 {
        RipState { routes, updates: Seq::empty() }
    } else {
        rip_step(
            links,
            my_addrs,
            sender,
            rip_merge(links, my_addrs, sender, routes, entries.drop_last()),
            entries.last(),
        )
    }
}

/// Whether an advertised entry restarts the deletion timer of the table's entry at `i`: it adds
/// or replaces that entry, or comes from its next hop.
pub open spec fn refreshes(
    links: Seq<Link>,
    my_addrs: Seq<Ipv4Addr>,
    sender: Ipv4Addr,
    routes: Seq<Route>,
    entry: Entry,
    i: int,
) -> bool {
    &&& !my_addrs.contains(entry.address)
    &&& i == route_index(routes, entry.address)
    &&& match route_to(routes, entry.address) {
        Some(route) => if one_hop_more(entry.cost) < route.cost {
            inner_link(links, route) matches Some(link) ==> link.activated
        } else {
            route.next_hop == sender
        },
        None => true,
    }
}

/// Whether a list of advertised entries restarts the deletion timer of the table's entry at `i`.
pub open spec fn refreshed(
    links: Seq<Link>,
    my_addrs: Seq<Ipv4Addr>,
    sender: Ipv4Addr,
    routes: Seq<Route>,
    entries: Seq<Entry>,
    i: int,
) -> bool
    decreases entries.len(),
{
    if entries.len() == 0 {
        false
    } else {
        let earlier = entries.drop_last();
        let merged = rip_merge(links, my_addrs, sender, routes, earlier).routes;
        ||| refreshed(links, my_addrs, sender, routes, earlier, i)
        ||| refreshes(links, my_addrs, sender, merged, entries.last(), i)
    }
}

/// Whether of the entries after a change, those that `restarted` tells of have a timer that the
/// clock has set, and all others are as they were before.
pub open spec fn timers_restarted(
    before: Seq<RoutingEntry>,
    after: Seq<RoutingEntry>,
    restarted: spec_fn(int) -> bool,
) -> bool {
    &&& forall|i: int|
        0 <= i < after.len() && restarted(i) ==> clock_read((#[trigger] after[i]).updated_at())
    &&& forall|i: int|
        #![trigger after[i]]
        #![trigger restarted(i)]
        0 <= i < after.len() && !restarted(i) ==> i < before.len() && after[i] == before[i]
}

/// One more advertised entry restarts the timers that it tells of.
proof fn lemma_timers_restarted(
    links: Seq<Link>,
    my_addrs: Seq<Ipv4Addr>,
    sender: Ipv4Addr,
    before: Seq<RoutingEntry>,
    mid: Seq<RoutingEntry>,
    after: Seq<RoutingEntry>,
    entries: Seq<Entry>,
)
    requires
        0 < entries.len(),
        mid.len() <= after.len(),
        routes_of(mid) == rip_merge(
            links,
            my_addrs,
            sender,
            routes_of(before),
            entries.drop_last(),
        ).routes,
        timers_restarted(
            before,
            mid,
            |i: int|
                refreshed(links, my_addrs, sender, routes_of(before), entries.drop_last(), i),
        ),
        timers_restarted(
            mid,
            after,
            |i: int| refreshes(links, my_addrs, sender, routes_of(mid), entries.last(), i),
        ),
    ensures
        timers_restarted(
            before,
            after,
            |i: int| refreshed(links, my_addrs, sender, routes_of(before), entries, i),
        ),
{
    let now = |i: int| refreshed(links, my_addrs, sender, routes_of(before), entries, i);
    assert forall|i: int| 0 <= i < after.len() && now(i) implies clock_read(
        (#[trigger] after[i]).updated_at(),
    ) by {
        if !refreshes(links, my_addrs, sender, routes_of(mid), entries.last(), i) {
            assert(after[i] == mid[i]);
        }
    }
    assert forall|i: int|
        #![trigger after[i]]
        #![trigger now(i)]
        0 <= i < after.len() && !now(i) implies i < before.len() && after[i] == before[i] by {
        assert(after[i] == mid[i]);
    }
}

/// What is sent upon a message: its effects on the table, advertised on all active links, where
/// there are any.
pub open spec fn triggered_updates(links: Seq<Link>, updates: Seq<Route>) -> Seq<(u16, Seq<u8>)> {
    if updates.len() == 0 {
        Seq::empty()
    } else {
        rip_updates(links, updates)
    }
}

/// Updates the forwarding table by what neighbours advertise.
pub struct RipHandler {}

impl Default for RipHandler {
    fn default() -> (r: Self) {
        RipHandler {  }
    }
}

/// The link through which an entry of the table is reached.
fn get_inner_link<DP: DropPolicy>(net: &VtLinkNet<DP>, entry: &RoutingEntry) -> (r: Option<Link>)
    ensures
        r == inner_link(net.links@, entry@),
{
    if entry.is_local() {
        net.links.find_link_with_interface_ip(entry.destination())
    } else {
        net.links.find_link_to(entry.next_hop())
    }
}

/// Changing one entry changes one route.
proof fn lemma_routes_update(entries: Seq<RoutingEntry>, i: int, e: RoutingEntry)
    requires
        0 <= i < entries.len(),
    ensures
        routes_of(entries.update(i, e)) == routes_of(entries).update(i, e@),
{
    assert(routes_of(entries.update(i, e)) =~= routes_of(entries).update(i, e@));
}

/// Applies an advertised entry to the table. An entry of the table whose timer it does not restart
/// stays as it is, and one that is confirmed only has its timer restarted.
fn apply_entry<DP: DropPolicy>(
    net: &mut VtLinkNet<DP>,
    sender: Ipv4Addr,
    entry: Entry,
    updates: &mut Vec<RoutingEntry>,
)
    requires
        old(net).wf(),
        link_to(old(net).links@, sender) is Some,
    ensures
        final(net).wf(),
        final(net).links == old(net).links,
        final(net).my_addrs == old(net).my_addrs,
        final(net).drop_policy == old(net).drop_policy,
        (RipState { routes: final(net).table(), updates: routes_of(final(updates)@) }) == rip_step(
            old(net).links@,
            old(net).my_addrs@,
            sender,
            RipState { routes: old(net).table(), updates: routes_of(old(updates)@) },
            entry,
        ),
        final(updates)@.len() <= old(updates)@.len() + 1,
        old(net).routes@.len() <= final(net).routes@.len(),
        timers_restarted(
            old(net).routes@,
            final(net).routes@,
            |i: int|
                refreshes(
                    old(net).links@,
                    old(net).my_addrs@,
                    sender,
                    old(net).table(),
                    entry,
                    i,
                ),
        ),
{
    let ghost links = net.links@;
    let ghost before = net.routes@;
    if net.is_my_addr(entry.address) {
        return ;
    }
    let entry_cost: u32 = if entry.cost >= RoutingEntry::max_cost() {
        RoutingEntry::max_cost()
    } else {
        entry.cost + 1
    };
    let found: Option<RoutingEntry> = match net.routes.find_entry_for(entry.address) {
        Some(e) => Some(*e),
        None => None,
    };
    match found {
        Some(local) => {
            let ghost i = choose|i: int| #[trigger]
                first_for(before, entry.address, i) && local == before[i];
            proof {
                lemma_first_for(before, entry.address, i);
                assert(inner_link(links, before[i]@) is Some);
            }
            if entry_cost < local.cost() {
                match get_inner_link(net, &local) {
                    Some(link) => {
                        if link.is_disabled() {
                            return ;
                        }
                    },
                    None => {},
                }
                match net.routes.find_mut_entry_for(entry.address) {
                    Some(e) => {
                        e.update(sender, entry_cost);
                        let copy: RoutingEntry = *e;
                        updates.push(copy);
                        proof {
                            lemma_first_is_unique(before, entry.address, i);
                            lemma_routes_update(before, i, copy);
                            assert(routes_of(updates@) =~= routes_of(old(updates)@).push(copy@));
                        }
                    },
                    None => {},
                }
                assert(forall|k: int| 0 <= k < before.len() && k != i ==> net.routes@[k] == before[k]);
            } else if entry_cost > local.cost() {
                if local.next_hop() == sender {
                    match net.routes.find_mut_entry_for(entry.address) {
                        Some(e) => {
                            e.update_cost(entry_cost);
                            let copy: RoutingEntry = *e;
                            updates.push(copy);
                            proof {
                                lemma_first_is_unique(before, entry.address, i);
                                lemma_routes_update(before, i, copy);
                                assert(routes_of(updates@) =~= routes_of(old(updates)@).push(
                                    copy@,
                                ));
                            }
                        },
                        None => {},
                    }
                }
            } else {
                // A report of the same cost is ignored: to accept it could destabilize the
                // network.
                if local.next_hop() == sender {
                    match net.routes.find_mut_entry_for(entry.address) {
                        Some(e) => {
                            e.restart_delete_timer();
                            let ghost copy = *e;
                            proof {
                                lemma_first_is_unique(before, entry.address, i);
                                lemma_routes_update(before, i, copy);
                                assert(routes_of(before).update(i, copy@) =~= routes_of(before));
                            }
                        },
                        None => {},
                    }
                }
            }
        },
        None => {
            proof {
                lemma_none_for(before, entry.address);
            }
            let new = RoutingEntry::new(entry.address, sender, entry_cost);
            net.routes.add_entry(new);
            updates.push(new);
            proof {
                assert(routes_of(net.routes@) =~= routes_of(before).push(new@));
                assert(routes_of(updates@) =~= routes_of(old(updates)@).push(new@));
            }
        },
    }
}

/// There is no more than one first entry for an address.
proof fn lemma_first_is_unique(entries: Seq<RoutingEntry>, addr: Ipv4Addr, i: int)
    requires
        first_for(entries, addr, i),
    ensures
        forall|j: int| #[trigger] first_for(entries, addr, j) ==> j == i,
{
    assert forall|j: int| #[trigger] first_for(entries, addr, j) implies j == i by {
        if j < i {
            assert(entries[j]@.destination != addr);
        }
        if i < j {
            assert(entries[i]@.destination != addr);
        }
    }
}

/// Whether `after` is a network once a message of the neighbour at `sender` was applied, and `sent` is
/// what has to be sent. Messages that come over a link that is turned off are ignored.
pub open spec fn hears<DP: DropPolicy>(
    before: VtLinkNet<DP>,
    after: VtLinkNet<DP>,
    sender: Ipv4Addr,
    message: Seq<u8>,
    sent: Seq<(u16, Seq<u8>)>,
) -> bool {
    let entries = rip_entries(message);
    let merged = rip_merge(before.links@, before.my_addrs@, sender, before.table(), entries);
    &&& after.links == before.links
    &&& after.my_addrs == before.my_addrs
    &&& after.drop_policy == before.drop_policy
    &&& if link_to(before.links@, sender)->0.activated {
        &&& after.table() == merged.routes
        &&& sent == triggered_updates(before.links@, merged.updates)
        &&& timers_restarted(
            before.routes@,
            after.routes@,
            |i: int|
                refreshed(
                    before.links@,
                    before.my_addrs@,
                    sender,
                    before.table(),
                    entries,
                    i,
                ),
        )
    } else {
        &&& after.routes == before.routes
        &&& sent.len() == 0
    }
}

impl RipHandler {
    /// Applies a message of a neighbour to the table. The result is what has to be sent: a
    /// triggered update on every active link, where the table has changed. Messages that come
    /// over a link that is turned off are ignored.
    pub fn handle_packet<DP: DropPolicy>(
        &self,
        header: &Ipv4Header,
        payload: &[u8],
        net: &mut VtLinkNet<DP>,
    ) -> (r: Vec<Datagram>)
        requires
            RipMessage::can_decode(payload@),
            payload@.len() <= 65515,
            old(net).wf(),
            link_to(old(net).links@, header.source) is Some,
        ensures
            final(net).wf(),
            hears(*old(net), *final(net), header.source, payload@, datagrams(r@)),
            final(net).links == old(net).links,
            final(net).my_addrs == old(net).my_addrs,
            final(net).drop_policy == old(net).drop_policy,
            ({
                let link = link_to(old(net).links@, header.source)->0;
                let entries = rip_entries(payload@);
                let merged = rip_merge(
                    old(net).links@,
                    old(net).my_addrs@,
                    header.source,
                    old(net).table(),
                    entries,
                );
                if link.activated {
                    &&& final(net).table() == merged.routes
                    &&& datagrams(r@) == triggered_updates(old(net).links@, merged.updates)
                    &&& timers_restarted(
                        old(net).routes@,
                        final(net).routes@,
                        |i: int|
                            refreshed(
                                old(net).links@,
                                old(net).my_addrs@,
                                header.source,
                                old(net).table(),
                                entries,
                                i,
                            ),
                    )
                } else {
                    &&& final(net).routes == old(net).routes
                    &&& r@.len() == 0
                }
            }),
    {
        let message = RipMessage::from_bytes(payload);
        proof {
            lemma_decoded_entries(payload@, message);
        }
        let sender = header.source;
        match net.links.find_link_to(sender) {
            Some(link) => {
                if link.is_disabled() {
                    return Vec::new();
                }
            },
            None => {},
        }
        let ghost links = net.links@;
        let ghost my_addrs = net.my_addrs@;
        let ghost table = net.table();
        let ghost before = net.routes@;
        let ghost entries = message.entries@;
        let mut updates: Vec<RoutingEntry> = Vec::new();
        let mut i: usize = 0;
        proof {
            assert(entries.take(0) =~= Seq::empty());
            assert(routes_of(updates@) =~= Seq::empty());
        }
        while i < message.entries.len()
            invariant
                i <= message.entries@.len(),
                entries == message.entries@,
                net.wf(),
                net.links == old(net).links,
                net.my_addrs == old(net).my_addrs,
                net.drop_policy == old(net).drop_policy,
                links == old(net).links@,
                my_addrs == old(net).my_addrs@,
                link_to(links, sender) is Some,
                before == old(net).routes@,
                updates@.len() <= i,
                before.len() <= net.routes@.len(),
                (RipState { routes: net.table(), updates: routes_of(updates@) }) == rip_merge(
                    links,
                    my_addrs,
                    sender,
                    table,
                    entries.take(i as int),
                ),
                table == old(net).table(),
                timers_restarted(
                    before,
                    net.routes@,
                    |j: int|
                        refreshed(links, my_addrs, sender, table, entries.take(i as int), j),
                ),
            decreases message.entries@.len() - i,
        {
            let ghost mid = net.routes@;
            proof {
                assert(entries.take(i + 1).drop_last() =~= entries.take(i as int));
                assert(entries.take(i + 1).last() == entries[i as int]);
            }
            apply_entry(net, sender, message.entries[i], &mut updates);
            proof {
                lemma_timers_restarted(
                    links,
                    my_addrs,
                    sender,
                    before,
                    mid,
                    net.routes@,
                    entries.take(i + 1),
                );
            }
            i = i + 1;
        }
        assert(entries.take(entries.len() as int) =~= entries);
        if updates.len() == 0 {
            let nothing: Vec<Datagram> = Vec::new();
            assert(datagrams(nothing@) =~= Seq::empty());
            return nothing;
        }
        advertise(net.links.iter_links(), updates.as_slice())
    }
}

/// Whatever neighbours advertise, no destination leaves the table, and routes to this host's own
/// addresses stay as they are.
pub proof fn law_merge_keeps_destinations(
    links: Seq<Link>,
    my_addrs: Seq<Ipv4Addr>,
    sender: Ipv4Addr,
    routes: Seq<Route>,
    entries: Seq<Entry>,
    i: int,
)
    requires
        0 <= i < routes.len(),
    ensures
        ({
            let merged = rip_merge(links, my_addrs, sender, routes, entries).routes;
            &&& routes.len() <= merged.len()
            &&& merged[i].destination == routes[i].destination
            &&& merged[i].is_local == routes[i].is_local
            &&& my_addrs.contains(routes[i].destination) ==> merged[i] == routes[i]
        }),
    decreases entries.len(),
{
    if entries.len() > 0 {
        law_merge_keeps_destinations(links, my_addrs, sender, routes, entries.drop_last(), i);
        let st = rip_merge(links, my_addrs, sender, routes, entries.drop_last());
        lemma_route_index(st.routes, entries.last().address);
    }
}

/// The deletion timer of an entry goes on where its destination is not advertised.
pub proof fn law_only_advertised_are_refreshed(
    links: Seq<Link>,
    my_addrs: Seq<Ipv4Addr>,
    sender: Ipv4Addr,
    routes: Seq<Route>,
    entries: Seq<Entry>,
    i: int,
)
    requires
        0 <= i < routes.len(),
        forall|k: int|
            0 <= k < entries.len() ==> (#[trigger] entries[k]).address != routes[i].destination,
    ensures
        !refreshed(links, my_addrs, sender, routes, entries, i),
    decreases entries.len(),
{
    if entries.len() > 0 {
        let earlier = entries.drop_last();
        assert forall|k: int| 0 <= k < earlier.len() implies (#[trigger] earlier[k]).address
            != routes[i].destination by {
            assert(earlier[k] == entries[k]);
        }
        law_only_advertised_are_refreshed(links, my_addrs, sender, routes, earlier, i);
        law_merge_keeps_destinations(links, my_addrs, sender, routes, earlier, i);
        let merged = rip_merge(links, my_addrs, sender, routes, earlier).routes;
        lemma_route_index(merged, entries.last().address);
        assert(entries[entries.len() - 1].address != routes[i].destination);
    }
}

/// Where no cost is more than that of an unreachable destination, none ever is.
pub proof fn law_merge_bounds_costs(
    links: Seq<Link>,
    my_addrs: Seq<Ipv4Addr>,
    sender: Ipv4Addr,
    routes: Seq<Route>,
    entries: Seq<Entry>,
    i: int,
)
    requires
        forall|k: int| 0 <= k < routes.len() ==> (#[trigger] routes[k]).cost <= MAX_COST,
        0 <= i < rip_merge(links, my_addrs, sender, routes, entries).routes.len(),
    ensures
        rip_merge(links, my_addrs, sender, routes, entries).routes[i].cost <= MAX_COST,
    decreases entries.len(),
{
    if entries.len() > 0 {
        let st = rip_merge(links, my_addrs, sender, routes, entries.drop_last());
        lemma_route_index(st.routes, entries.last().address);
        if i < st.routes.len() {
            law_merge_bounds_costs(links, my_addrs, sender, routes, entries.drop_last(), i);
        }
    }
}

/// A route follows its next hop: whatever its next hop advertises, better or worse, is what the
/// route costs from then on, where the link to the next hop is active.
pub proof fn law_next_hop_is_believed(
    links: Seq<Link>,
    my_addrs: Seq<Ipv4Addr>,
    sender: Ipv4Addr,
    st: RipState,
    entry: Entry,
)
    requires
        !my_addrs.contains(entry.address),
        route_to(st.routes, entry.address) is Some,
        (route_to(st.routes, entry.address)->0).next_hop == sender,
        inner_link(links, route_to(st.routes, entry.address)->0) matches Some(link)
            ==> link.activated,
    ensures
        ({
            let i = route_index(st.routes, entry.address);
            let after = rip_step(links, my_addrs, sender, st, entry).routes;
            &&& after[i].next_hop == sender
            &&& after[i].cost == one_hop_more(entry.cost)
        }),
{
    lemma_route_index(st.routes, entry.address);
}

/// A neighbour that is not the next hop of a route never makes it costlier.
pub proof fn law_others_only_improve(
    links: Seq<Link>,
    my_addrs: Seq<Ipv4Addr>,
    sender: Ipv4Addr,
    st: RipState,
    entry: Entry,
    i: int,
)
    requires
        0 <= i < st.routes.len(),
        st.routes[i].next_hop != sender,
    ensures
        rip_step(links, my_addrs, sender, st, entry).routes[i].cost <= st.routes[i].cost,
{
    lemma_route_index(st.routes, entry.address);
}

/// Whether the place `i` is that of the first route to an address.
pub open spec fn leads_first_to(routes: Seq<Route>, addr: Ipv4Addr, i: int) -> bool {
    &&& 0 <= i < routes.len()
    &&& routes[i].destination == addr
    &&& forall|j: int| 0 <= j < i ==> (#[trigger] routes[j]).destination != addr
}

/// Whoever sends it, a strictly better offer is taken: where the link of the route in the table is
/// turned on, and a destination that is not this host costs less by way of the sender, counting
/// one hop to the sender, the route leads over the sender from then on, at that cost. That is
/// told to others, and no other route changes.
pub proof fn law_better_offer_is_taken(
    links: Seq<Link>,
    my_addrs: Seq<Ipv4Addr>,
    sender: Ipv4Addr,
    st: RipState,
    entry: Entry,
    i: int,
    link: Link,
)
    requires
        !my_addrs.contains(entry.address),
        leads_first_to(st.routes, entry.address, i),
        inner_link(links, st.routes[i]) == Some(link),
        link.activated,
        entry.cost < 16,
        entry.cost + 1 < st.routes[i].cost,
    ensures
        ({
            let after = rip_step(links, my_addrs, sender, st, entry);
            let better = Route {
                next_hop: sender,
                cost: (entry.cost + 1) as u32,
                ..st.routes[i]
            };
            &&& after.routes[i].next_hop == sender
            &&& after.routes[i].cost == entry.cost + 1
            &&& after.routes == st.routes.update(i, better)
            &&& after.updates == st.updates.push(better)
        }),
{
    law_first_route_is_taken(st.routes, entry.address, i);
}

/// A better offer is not taken where the link of the route in the table is turned off.
pub proof fn law_routes_over_dead_links_stay(
    links: Seq<Link>,
    my_addrs: Seq<Ipv4Addr>,
    sender: Ipv4Addr,
    st: RipState,
    entry: Entry,
    i: int,
    link: Link,
)
    requires
        leads_first_to(st.routes, entry.address, i),
        inner_link(links, st.routes[i]) == Some(link),
        !link.activated,
        entry.cost < st.routes[i].cost,
        entry.cost + 1 < st.routes[i].cost,
    ensures
        rip_step(links, my_addrs, sender, st, entry) == st,
{
    law_first_route_is_taken(st.routes, entry.address, i);
}

/// Bad news are believed of the next hop of a route only: where it offers the destination at a
/// higher cost, counting one hop to it and no more than 16 in all, the route has that cost from
/// then on, and that is told to others; no other route changes.
pub proof fn law_worse_offer_of_next_hop_is_taken(
    links: Seq<Link>,
    my_addrs: Seq<Ipv4Addr>,
    sender: Ipv4Addr,
    st: RipState,
    entry: Entry,
    i: int,
)
    requires
        !my_addrs.contains(entry.address),
        leads_first_to(st.routes, entry.address, i),
        st.routes[i].next_hop == sender,
        st.routes[i].cost < 16,
        entry.cost >= st.routes[i].cost,
    ensures
        ({
            let after = rip_step(links, my_addrs, sender, st, entry);
            let cost = if entry.cost >= 16 {
                16
            } else {
                entry.cost + 1
            };
            let worse = Route { cost: cost as u32, ..st.routes[i] };
            &&& after.routes == st.routes.update(i, worse)
            &&& after.updates == st.updates.push(worse)
        }),
{
    law_first_route_is_taken(st.routes, entry.address, i);
}

/// An offer that is no better changes nothing and is told to nobody, unless it comes from the next
/// hop of the route; nor does one that costs the same as the route, whoever it comes from.
pub proof fn law_useless_offer_changes_nothing(
    links: Seq<Link>,
    my_addrs: Seq<Ipv4Addr>,
    sender: Ipv4Addr,
    st: RipState,
    entry: Entry,
    i: int,
)
    requires
        leads_first_to(st.routes, entry.address, i),
        st.routes[i].cost <= 16,
        ({
            ||| entry.cost + 1 >= st.routes[i].cost && st.routes[i].next_hop != sender
            ||| entry.cost + 1 == st.routes[i].cost
            ||| entry.cost >= 16 && st.routes[i].cost == 16
        }),
    ensures
        rip_step(links, my_addrs, sender, st, entry) == st,
{
    law_first_route_is_taken(st.routes, entry.address, i);
}

/// A destination that the table does not know is learnt from whoever offers it, unless it is an
/// address of this host: the route leads over the sender, costs one hop more than it says and
/// no more than 16, and is told to others. The routes that were there stay.
pub proof fn law_unknown_destination_is_learnt(
    links: Seq<Link>,
    my_addrs: Seq<Ipv4Addr>,
    sender: Ipv4Addr,
    st: RipState,
    entry: Entry,
)
    requires
        !my_addrs.contains(entry.address),
        forall|j: int|
            0 <= j < st.routes.len() ==> (#[trigger] st.routes[j]).destination != entry.address,
    ensures
        ({
            let after = rip_step(links, my_addrs, sender, st, entry);
            let cost = if entry.cost >= 16 {
                16
            } else {
                entry.cost + 1
            };
            let new = Route {
                destination: entry.address,
                next_hop: sender,
                cost: cost as u32,
                is_local: false,
            };
            &&& after.routes == st.routes.push(new)
            &&& after.updates == st.updates.push(new)
        }),
{
    law_first_route_is_taken(st.routes, entry.address, 0);
}

/// Nobody is believed about the addresses of this host.
pub proof fn law_own_addresses_are_not_learnt(
    links: Seq<Link>,
    my_addrs: Seq<Ipv4Addr>,
    sender: Ipv4Addr,
    st: RipState,
    entry: Entry,
)
    requires
        my_addrs.contains(entry.address),
    ensures
        rip_step(links, my_addrs, sender, st, entry) == st,
{
}

/// The entries of a message are applied one after another: a message does what its first entries
/// do, and then what the last one does to the table that they left. What it tells others is
/// what they tell, and then what the last one tells.
pub proof fn law_entries_are_applied_in_order(
    links: Seq<Link>,
    my_addrs: Seq<Ipv4Addr>,
    sender: Ipv4Addr,
    routes: Seq<Route>,
    entries: Seq<Entry>,
    entry: Entry,
)
    ensures
        rip_merge(links, my_addrs, sender, routes, Seq::empty()).routes == routes,
        rip_merge(links, my_addrs, sender, routes, Seq::empty()).updates.len() == 0,
        ({
            let first = rip_merge(links, my_addrs, sender, routes, entries);
            let all = rip_merge(links, my_addrs, sender, routes, entries.push(entry));
            all == rip_step(links, my_addrs, sender, first, entry)
        }),
{
    assert(entries.push(entry).drop_last() =~= entries);
}

/// An offer restarts the deletion timer of the first entry for its destination where it comes from
/// the next hop, or where it is better and the entry's link is turned on. It restarts no other
/// timer, and none of an address of this host.
pub proof fn law_offers_restart_timers(
    links: Seq<Link>,
    my_addrs: Seq<Ipv4Addr>,
    sender: Ipv4Addr,
    routes: Seq<Route>,
    entry: Entry,
    i: int,
    j: int,
    link: Link,
)
    requires
        leads_first_to(routes, entry.address, i),
        inner_link(links, routes[i]) == Some(link),
        routes[i].cost <= 16,
    ensures
        j != i ==> !refreshes(links, my_addrs, sender, routes, entry, j),
        my_addrs.contains(entry.address) ==> !refreshes(links, my_addrs, sender, routes, entry, i),
        !my_addrs.contains(entry.address) && entry.cost + 1 < routes[i].cost ==> (refreshes(
            links,
            my_addrs,
            sender,
            routes,
            entry,
            i,
        ) <==> link.activated),
        !my_addrs.contains(entry.address) && entry.cost + 1 >= routes[i].cost ==> (refreshes(
            links,
            my_addrs,
            sender,
            routes,
            entry,
            i,
        ) <==> routes[i].next_hop == sender),
{
    law_first_route_is_taken(routes, entry.address, i);
}

/// A message restarts the timers that its first entries restart, and then those that the last one
/// restarts in the table that they left. A destination that is new starts with a new timer.
pub proof fn law_messages_restart_timers(
    links: Seq<Link>,
    my_addrs: Seq<Ipv4Addr>,
    sender: Ipv4Addr,
    routes: Seq<Route>,
    entries: Seq<Entry>,
    entry: Entry,
    i: int,
)
    ensures
        !refreshed(links, my_addrs, sender, routes, Seq::empty(), i),
        ({
            let first = rip_merge(links, my_addrs, sender, routes, entries).routes;
            refreshed(links, my_addrs, sender, routes, entries.push(entry), i) <==> (refreshed(
                links,
                my_addrs,
                sender,
                routes,
                entries,
                i,
            ) || refreshes(links, my_addrs, sender, first, entry, i))
        }),
        !my_addrs.contains(entry.address) && (forall|j: int|
            0 <= j < routes.len() ==> (#[trigger] routes[j]).destination != entry.address) ==> (
        refreshes(links, my_addrs, sender, routes, entry, i) <==> i == routes.len()),
{
    assert(entries.push(entry).drop_last() =~= entries);
    lemma_route_index(routes, entry.address);
}

/// Neighbours are told of what has changed just where something has.
pub proof fn law_changes_are_told(links: Seq<Link>, updates: Seq<Route>)
    ensures
        updates.len() == 0 ==> triggered_updates(links, updates).len() == 0,
        updates.len() > 0 ==> triggered_updates(links, updates) == rip_updates(links, updates),
{
}

/// What a message that is read holds: the cost, the address and the mask of each entry, each of
/// four bytes, one entry behind the other from the fifth byte on. Costs are written in
/// big-endian order.
pub proof fn law_entries_are_read_in_place(bytes: Seq<u8>, i: int)
    requires
        RipMessage::can_decode(bytes),
        0 <= i < announced(bytes),
    ensures
        rip_entries(bytes).len() == bytes[2] * 256 + bytes[3],
        ({
            let at = 4 + 12 * i;
            let e = rip_entries(bytes)[i];
            &&& e.cost == bytes[at] * 16777216 + bytes[at + 1] * 65536 + bytes[at + 2] * 256
                + bytes[at + 3]
            &&& e.address == (Ipv4Addr {
                a: bytes[at + 4],
                b: bytes[at + 5],
                c: bytes[at + 6],
                d: bytes[at + 7],
            })
            &&& e.mask == (Ipv4Addr {
                a: bytes[at + 8],
                b: bytes[at + 9],
                c: bytes[at + 10],
                d: bytes[at + 11],
            })
        }),
{
    let at = 4 + i * 12;
    let cost = bytes.subrange(at, at + 4);
    assert(cost[0] == bytes[at] && cost[1] == bytes[at + 1] && cost[2] == bytes[at + 2] && cost[3]
        == bytes[at + 3]);
    assert(0 <= be32(cost) <= u32::MAX);
}

/// A message of a neighbour is heard just where the first link to that neighbour is turned on. It is
/// then applied to the table, and what it changed is told to all neighbours. Otherwise nothing
/// changes and nothing is sent.
pub proof fn law_messages_are_heard_over_active_links<DP: DropPolicy>(
    before: VtLinkNet<DP>,
    after: VtLinkNet<DP>,
    sender: Ipv4Addr,
    message: Seq<u8>,
    sent: Seq<(u16, Seq<u8>)>,
    k: int,
)
    requires
        hears(before, after, sender, message, sent),
        is_first_link(before.links@, sender, k),
    ensures
        after.links == before.links,
        after.my_addrs == before.my_addrs,
        !before.links@[k].activated ==> after.routes == before.routes && sent.len() == 0,
        before.links@[k].activated ==> {
            let merged = rip_merge(
                before.links@,
                before.my_addrs@,
                sender,
                before.table(),
                rip_entries(message),
            );
            &&& after.table() == merged.routes
            &&& merged.updates.len() == 0 ==> sent.len() == 0
            &&& merged.updates.len() > 0 ==> sent == rip_updates(before.links@, merged.updates)
        },
{
    lemma_first_link(before.links@, sender, k);
}

} // verus!
