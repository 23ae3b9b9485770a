//! A host, and how it is put together.

use crate::addr::Ipv4Addr;
use crate::args::Args;
use crate::drop_policy::{drop_factor, DropFactor};
use crate::net::vtlink::link::{
    link_at, link_to, links_of, Datagram, Error, Link, LinkDefinition, VtLinkLayer,
};
use crate::net::vtlink::{datagram, local_routes, VtLinkNet, VtLinkNetConfig};
use crate::net::SendError;
use crate::protocol::tcp::stack::Tcp;
use crate::protocol::Protocol;
use crate::time::{clock_read, Duration};
use vstd::prelude::*;

verus! {

/// The handler of a protocol.
pub struct Registered<H> {
    pub protocol: Protocol,
    pub handler: H,
}

/// The handler of a protocol, if it has one.
pub open spec fn handler_of<H>(handlers: Seq<Registered<H>>, protocol: Protocol) -> Option<H>
    decreases handlers.len(),
{
    if handlers.len() == 0 {
        None
    } else if handlers[0].protocol == protocol {
        Some(handlers[0].handler)
    } else {
        handler_of(handlers.skip(1), protocol)
    }
}

/// A handler that takes the place of the first one for its protocol changes nothing for others.
proof fn lemma_replaced<H>(handlers: Seq<Registered<H>>, i: int, new: Registered<H>, q: Protocol)
    requires
        0 <= i < handlers.len(),
        handlers[i].protocol == new.protocol,
        forall|j: int| 0 <= j < i ==> (#[trigger] handlers[j]).protocol != new.protocol,
    ensures
        handler_of(handlers.update(i, new), q) == if q == new.protocol {
            Some(new.handler)
        } else {
            handler_of(handlers, q)
        },
    decreases handlers.len(),
{
    let after = handlers.update(i, new);
    if i == 0 {
        assert(after.skip(1) =~= handlers.skip(1));
    } else {
        assert(handlers[0].protocol != new.protocol);
        assert(after.skip(1) =~= handlers.skip(1).update(i - 1, new));
        assert forall|j: int| 0 <= j < i - 1 implies (#[trigger] handlers.skip(1)[j]).protocol
            != new.protocol by {
            assert(handlers[j + 1].protocol != new.protocol);
        }
        lemma_replaced(handlers.skip(1), i - 1, new, q);
    }
}

/// A handler for a protocol that has none changes nothing for others.
proof fn lemma_added<H>(handlers: Seq<Registered<H>>, new: Registered<H>, q: Protocol)
    requires
        forall|j: int| 0 <= j < handlers.len() ==> (#[trigger] handlers[j]).protocol
            != new.protocol,
    ensures
        handler_of(handlers.push(new), q) == if q == new.protocol {
            Some(new.handler)
        } else {
            handler_of(handlers, q)
        },
    decreases handlers.len(),
{
    let after = handlers.push(new);
    if handlers.len() == 0 {
        assert(after.skip(1) =~= Seq::<Registered<H>>::empty());
        assert(handler_of(after.skip(1), q) is None);
    } else {
        assert(handlers[0].protocol != new.protocol);
        assert(after.skip(1) =~= handlers.skip(1).push(new));
        assert forall|j: int| 0 <= j < handlers.skip(1).len() implies (#[trigger] handlers.skip(
            1,
        )[j]).protocol != new.protocol by {
            assert(handlers[j + 1].protocol != new.protocol);
        }
        lemma_added(handlers.skip(1), new, q);
    }
}

/// Collects how a host is configured.
pub struct NodeBuilder<'a, H> {
    pub args: &'a Args,
    pub built: bool,
    pub prune_interval: Duration,
    pub rip_update_interval: Duration,
    pub drop_factor: usize,
    pub entry_max_age: Duration,
    pub protocol_handlers: Vec<Registered<H>>,
}

impl<'a, H> NodeBuilder<'a, H> {
    /// A configuration without handlers. A lossy host drops one packet in five.
    pub fn new(args: &'a Args) -> (r: Self)
        ensures
            r.args == args,
            !r.built,
            r.prune_interval.nanos == 1_000_000_000,
            r.rip_update_interval.nanos == 5_000_000_000,
            r.entry_max_age.nanos == 12_000_000_000,
            r.drop_factor == if args.lossy {
                5usize
            } else {
                0
            },
            r.protocol_handlers@.len() == 0,
    {
        let drop_factor: usize = if args.lossy {
            5
        } else {
            0
        };
        Self {
            args,
            built: false,
            prune_interval: Duration::from_secs(1),
            rip_update_interval: Duration::from_secs(5),
            entry_max_age: Duration::from_secs(12),
            drop_factor,
            protocol_handlers: Vec::new(),
        }
    }

    /// Set the interval of sending up periodic RIP updates.
    pub fn with_rip_interval(&mut self, rip_interval: Duration) -> (r: &mut Self)
        ensures
            *r == (NodeBuilder { rip_update_interval: rip_interval, ..*old(self) }),
            *final(self) == *final(r),
    {
        self.rip_update_interval = rip_interval;
        self
    }

    /// Set the maximum time a routing entry can live without receiving an update.
    pub fn with_entry_max_age(&mut self, max_age: Duration) -> (r: &mut Self)
        ensures
            *r == (NodeBuilder { entry_max_age: max_age, ..*old(self) }),
            *final(self) == *final(r),
    {
        self.entry_max_age = max_age;
        self
    }

    /// Set how often routing entries are pruned.
    pub fn with_prune_interval(&mut self, prune_interval: Duration) -> (r: &mut Self)
        ensures
            *r == (NodeBuilder { prune_interval, ..*old(self) }),
            *final(self) == *final(r),
    {
        self.prune_interval = prune_interval;
        self
    }

    /// Set how often packets are dropped.
    ///
    /// With a drop factor of N, 1 packet is dropped every N packets.
    ///
    /// A drop factor of 0 drops no packets.
    pub fn with_drop_factor(&mut self, drop_factor: usize) -> (r: &mut Self)
        ensures
            *r == (NodeBuilder { drop_factor, ..*old(self) }),
            *final(self) == *final(r),
    {
        self.drop_factor = drop_factor;
        self
    }

    /// Provide a handler for a protocol.
    ///
    /// Replaces any handler that is associated with the protocol.
    pub fn with_protocol_handler(&mut self, protocol: Protocol, handler: H) -> (r: &mut Self)
        ensures
            forall|q: Protocol|
                #![trigger handler_of(r.protocol_handlers@, q)]
                handler_of(r.protocol_handlers@, q) == if q == protocol {
                    Some(handler)
                } else {
                    handler_of(old(self).protocol_handlers@, q)
                },
            *r == (NodeBuilder { protocol_handlers: r.protocol_handlers, ..*old(self) }),
            *final(self) == *final(r),
    {
        let new = Registered { protocol, handler };
        let ghost before = self.protocol_handlers@;
        let mut i: usize = 0;
        while i < self.protocol_handlers.len() && self.protocol_handlers[i].protocol != protocol
            invariant
                *self == *old(self),
                i <= self.protocol_handlers@.len(),
                forall|j: int|
                    0 <= j < i ==> (#[trigger] self.protocol_handlers@[j]).protocol != protocol,
            decreases self.protocol_handlers@.len() - i,
        {
            i = i + 1;
        }
        if i < self.protocol_handlers.len() {
            self.protocol_handlers[i] = new;
            proof {
                assert forall|q: Protocol| #[trigger]
                    handler_of(self.protocol_handlers@, q) == (if q == protocol {
                        Some(handler)
                    } else {
                        handler_of(before, q)
                    }) by {
                    lemma_replaced(before, i as int, new, q);
                }
            }
        } else {
            self.protocol_handlers.push(new);
            proof {
                assert forall|q: Protocol| #[trigger]
                    handler_of(self.protocol_handlers@, q) == (if q == protocol {
                        Some(handler)
                    } else {
                        handler_of(before, q)
                    }) by {
                    lemma_added(before, new, q);
                }
            }
        }
        self
    }

    /// Puts the host together, once. TCP is handled by `tcp_handler`, whatever was provided for
    /// it.
    pub fn build(&mut self, tcp_handler: H) -> (r: Node<H>)
        requires
            !old(self).built,
        ensures
            r.wf(),
            r.net.links@ == links_of(old(self).args.links@),
            r.net.my_addrs@ == old(self).args.links@.map_values(
                |l: LinkDefinition| l.interface_ip,
            ),
            r.net.table() == local_routes(old(self).args.links@),
            forall|k: int|
                0 <= k < r.net.routes@.len() ==> clock_read(
                    (#[trigger] r.net.routes@[k]).updated_at(),
                ),
            r.net.drop_policy == drop_factor(old(self).drop_factor),
            r.tcp.sockets@.len() == 0,
            r.tcp.next_descriptor == 0,
            r.prune_interval == old(self).prune_interval,
            r.rip_update_interval == old(self).rip_update_interval,
            r.entry_max_age == old(self).entry_max_age,
            forall|q: Protocol|
                #![trigger handler_of(r.protocol_handlers@, q)]
                handler_of(r.protocol_handlers@, q) == if q == Protocol::Tcp {
                    Some(tcp_handler)
                } else {
                    handler_of(old(self).protocol_handlers@, q)
                },
            final(self).built,
            final(self).protocol_handlers@.len() == 0,
    {
        self.built = true;
        let links = VtLinkLayer::new(self.args);
        let net = VtLinkNet::new(
            links,
            self.args,
            VtLinkNetConfig {
                prune_interval: self.prune_interval,
                rip_update_interval: self.rip_update_interval,
                entry_max_age: self.entry_max_age,
                drop_policy: DropFactor::new(self.drop_factor),
            },
        );
        let tcp = Tcp::new();
        self.with_protocol_handler(Protocol::Tcp, tcp_handler);
        let mut protocol_handlers: Vec<Registered<H>> = Vec::new();
        std::mem::swap(&mut protocol_handlers, &mut self.protocol_handlers);
        Node {
            tcp,
            net,
            protocol_handlers,
            prune_interval: self.prune_interval,
            rip_update_interval: self.rip_update_interval,
            entry_max_age: self.entry_max_age,
        }
    }
}

/// A host with its links, its sockets and the handlers of its protocols.
pub struct Node<H> {
    pub tcp: Tcp,
    pub net: VtLinkNet<DropFactor>,
    pub protocol_handlers: Vec<Registered<H>>,
    pub prune_interval: Duration,
    pub rip_update_interval: Duration,
    pub entry_max_age: Duration,
}

impl<H> Node<H> {
    pub open spec fn wf(self) -> bool {
        self.net.wf() && self.tcp.wf()
    }

    pub fn find_link_to(&self, next_hop: Ipv4Addr) -> (r: Option<Link>)
        ensures
            r == link_to(self.net.links@, next_hop),
    {
        self.net.links().find_link_to(next_hop)
    }

    pub fn find_link_with_interface_ip(&self, ip: Ipv4Addr) -> (r: Option<Link>)
        ensures
            r == link_at(self.net.links@, ip),
    {
        self.net.links().find_link_with_interface_ip(ip)
    }

    pub fn is_my_addr(&self, addr: Ipv4Addr) -> (r: bool)
        ensures
            r == self.net.my_addrs@.contains(addr),
    {
        self.net.is_my_addr(addr)
    }

    /// All links (both active and inactive) of this host.
    pub fn iter_links(&self) -> (r: &[Link])
        ensures
            r@ == self.net.links@,
    {
        self.net.links().iter_links()
    }

    /// Turns a link interface on.
    pub fn activate(&mut self, link_no: u16) -> (r: Result<(), Error>)
        requires
            old(self).wf(),
        ensures
            final(self).wf(),
            switched(old(self).net, link_no, true, r, final(self).net),
            *final(self) == (Node { net: final(self).net, ..*old(self) }),
    {
        self.net.activate(link_no)
    }

    /// Turns a link interface off.
    pub fn deactivate(&mut self, link_no: u16) -> (r: Result<(), Error>)
        requires
            old(self).wf(),
        ensures
            final(self).wf(),
            switched(old(self).net, link_no, false, r, final(self).net),
            *final(self) == (Node { net: final(self).net, ..*old(self) }),
    {
        self.net.deactivate(link_no)
    }

    /// Sends bytes to a destination. The result is what has to be sent to the next hop.
    pub fn send(&self, payload: &[u8], protocol: u8, dest_vip: Ipv4Addr) -> (r: Result<
        Datagram,
        SendError,
    >)
        requires
            payload@.len() <= 65515,
        ensures
            match r {
                Ok(d) => self.net.outgoing(payload@, protocol, dest_vip) == Ok::<
                    (u16, Seq<u8>),
                    SendError,
                >(datagram(d)),
                Err(e) => self.net.outgoing(payload@, protocol, dest_vip) == Err::<
                    (u16, Seq<u8>),
                    SendError,
                >(e),
            },
    {
        self.net.send(payload, protocol, dest_vip)
    }

    /// The handler of a protocol, if it has one.
    pub fn handler_for(&self, protocol: Protocol) -> (r: Option<&H>)
        ensures
            match r {
                Some(h) => handler_of(self.protocol_handlers@, protocol) == Some(*h),
                None => handler_of(self.protocol_handlers@, protocol) is None,
            },
    {
        let ghost handlers = self.protocol_handlers@;
        let mut i: usize = 0;
        assert(handlers.skip(0) =~= handlers);
        while i < self.protocol_handlers.len()
            invariant
                handlers == self.protocol_handlers@,
                i <= handlers.len(),
                handler_of(handlers, protocol) == handler_of(handlers.skip(i as int), protocol),
            decreases handlers.len() - i,
        {
            if self.protocol_handlers[i].protocol == protocol {
                return Some(&self.protocol_handlers[i].handler);
            }
            assert(handlers.skip(i as int).skip(1) =~= handlers.skip(i + 1));
            i = i + 1;
        }
        None
    }
}

/// Whether a link was turned on or off, where it exists, and nothing else happened.
pub open spec fn switched(
    before: VtLinkNet<DropFactor>,
    link_no: u16,
    activated: bool,
    r: Result<(), Error>,
    after: VtLinkNet<DropFactor>,
) -> bool {
    &&& after.my_addrs@ == before.my_addrs@
    &&& after.routes@ == before.routes@
    &&& after.drop_policy == before.drop_policy
    &&& match r {
        Ok(_) => link_no < before.links@.len() && after.links@ == before.links@.update(
            link_no as int,
            (Link { activated, ..before.links@[link_no as int] }),
        ),
        Err(e) => {
            &&& e == Error::LinkNotFound
            &&& link_no >= before.links@.len()
            &&& after.links@ == before.links@
        },
    }
}

} // verus!
