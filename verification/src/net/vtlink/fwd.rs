//! The forwarding table.

use crate::addr::Ipv4Addr;
use crate::text::{decimal, dotted, show_ipv4, show_number};
use crate::time::{clock_measured, clock_read, elapsed_since, Duration};
use std::time::Instant;
use vstd::prelude::*;

verus! {

/// The cost from which on a destination counts as unreachable.
pub const MAX_COST: u32 = 16;

/// What an entry says, whenever it was updated.
pub struct Route {
    pub destination: Ipv4Addr,
    pub next_hop: Ipv4Addr,
    pub cost: u32,
    pub is_local: bool,
}

/// How to reach a destination.
#[derive(Copy, Clone, Debug)]
pub struct Entry {
    pub(crate) destination: Ipv4Addr,
    pub(crate) next_hop: Ipv4Addr,
    pub(crate) cost: u32,
    pub(crate) is_local: bool,
    pub last_updated: Instant,
}

impl View for Entry {
    type V = Route;

    closed spec fn view(&self) -> Route {
        Route {
            destination: self.destination,
            next_hop: self.next_hop,
            cost: self.cost,
            is_local: self.is_local,
        }
    }
}

impl Entry {
    /// When the entry was updated last.
    pub closed spec fn updated_at(self) -> Instant {
        self.last_updated
    }

    pub fn new(destination: Ipv4Addr, next_hop: Ipv4Addr, cost: u32) -> (r: Self)
        ensures
            r@ == (Route { destination, next_hop, cost, is_local: false }),
            clock_read(r.updated_at()),
    {
        Self { destination, next_hop, cost, is_local: false, last_updated: Instant::now() }
    }

    pub fn new_local(destination: Ipv4Addr, next_hop: Ipv4Addr, cost: u32) -> (r: Self)
        ensures
            r@ == (Route { destination, next_hop, cost, is_local: true }),
            clock_read(r.updated_at()),
    {
        Self { destination, next_hop, cost, is_local: true, last_updated: Instant::now() }
    }

    pub fn destination(&self) -> (r: Ipv4Addr)
        ensures
            r == self@.destination,
    {
        self.destination
    }

    pub fn cost(&self) -> (r: u32)
        ensures
            r == self@.cost,
    {
        self.cost
    }

    pub fn is_unreachable(&self) -> (r: bool)
        ensures
            r == (self@.cost >= MAX_COST),
    {
        self.cost >= Entry::max_cost()
    }

    pub fn next_hop(&self) -> (r: Ipv4Addr)
        ensures
            r == self@.next_hop,
    {
        self.next_hop
    }

    /// Whether this is an entry for one of the router's own IPs
    pub fn is_local(&self) -> (r: bool)
        ensures
            r == self@.is_local,
    {
        self.is_local
    }

    pub fn update(&mut self, next_hop: Ipv4Addr, cost: u32)
        ensures
            final(self)@ == (Route { next_hop, cost, ..old(self)@ }),
            clock_read(final(self).updated_at()),
    {
        self.next_hop = next_hop;
        self.cost = cost;
        self.restart_delete_timer();
    }

    pub fn mark_unreachable(&mut self)
        ensures
            final(self)@ == (Route { cost: MAX_COST, ..old(self)@ }),
            clock_read(final(self).updated_at()),
    {
        self.update(self.next_hop, Entry::max_cost());
    }

    pub fn update_cost(&mut self, cost: u32)
        ensures
            final(self)@ == (Route { cost, ..old(self)@ }),
            clock_read(final(self).updated_at()),
    {
        self.update(self.next_hop, cost);
    }

    /// Updates the entry as of now, and changes nothing of what it says.
    pub fn restart_delete_timer(&mut self)
        ensures
            final(self)@ == old(self)@,
            clock_read(final(self).updated_at()),
    {
        self.last_updated = Instant::now();
    }

    pub fn max_cost() -> (r: u32)
        ensures
            r == MAX_COST,
    {
        MAX_COST
    }

    /// Destination, next hop and cost, between tabs.
    pub fn to_text(&self) -> (r: String)
        ensures
            r@ == dotted(self@.destination) + seq!['\t'] + dotted(self@.next_hop) + seq!['\t']
                + decimal(self@.cost as nat),
    {
        let mut r = show_ipv4(self.destination);
        r.push('\t');
        r.append(show_ipv4(self.next_hop).as_str());
        r.push('\t');
        r.append(show_number(self.cost as u64).as_str());
        assert(r@ =~= dotted(self@.destination) + seq!['\t'] + dotted(self@.next_hop) + seq!['\t']
            + decimal(self@.cost as nat));
        r
    }
}

/// Whether the entry at `i` is the first one for `addr`.
pub open spec fn first_for(entries: Seq<Entry>, addr: Ipv4Addr, i: int) -> bool {
    &&& 0 <= i < entries.len()
    &&& entries[i]@.destination == addr
    &&& forall|j: int| 0 <= j < i ==> (#[trigger] entries[j])@.destination != addr
}

/// Whether there is no entry for `addr`.
pub open spec fn none_for(entries: Seq<Entry>, addr: Ipv4Addr) -> bool {
    forall|j: int| 0 <= j < entries.len() ==> (#[trigger] entries[j])@.destination != addr
}

/// The routes of a list of entries.
pub open spec fn routes_of(entries: Seq<Entry>) -> Seq<Route> {
    entries.map_values(|e: Entry| e@)
}

/// The first of the routes to `addr`.
pub open spec fn route_to(routes: Seq<Route>, addr: Ipv4Addr) -> Option<Route>
    decreases routes.len(),
{
    if routes.len() == 0 {
        None
    } else if routes[0].destination == addr {
        Some(routes[0])
    } else {
        route_to(routes.skip(1), addr)
    }
}

/// The place of the first of the routes to `addr`, or the number of routes where there is none.
pub open spec fn route_index(routes: Seq<Route>, addr: Ipv4Addr) -> int
    decreases routes.len(),
{
    if routes.len() == 0 {
        0
    } else if routes[0].destination == addr {
        0
    } else {
        1 + route_index(routes.skip(1), addr)
    }
}

/// What the first route to an address is.
pub proof fn lemma_route_index(routes: Seq<Route>, addr: Ipv4Addr)
    ensures
        0 <= route_index(routes, addr) <= routes.len(),
        route_index(routes, addr) < routes.len() ==> {
            &&& routes[route_index(routes, addr)].destination == addr
            &&& route_to(routes, addr) == Some(routes[route_index(routes, addr)])
        },
        route_index(routes, addr) == routes.len() ==> route_to(routes, addr) is None,
        forall|j: int|
            0 <= j < route_index(routes, addr) ==> (#[trigger] routes[j]).destination != addr,
    decreases routes.len(),
{
    if routes.len() > 0 && routes[0].destination != addr {
        lemma_route_index(routes.skip(1), addr);
        assert forall|j: int| 0 <= j < route_index(routes, addr) implies (
        #[trigger] routes[j]).destination != addr by {
            if j > 0 {
                assert(routes.skip(1)[j - 1] == routes[j]);
            }
        }
    }
}

/// The first entry for an address has the first route to it.
pub proof fn lemma_first_for(entries: Seq<Entry>, addr: Ipv4Addr, i: int)
    requires
        first_for(entries, addr, i),
    ensures
        route_index(routes_of(entries), addr) == i,
        route_to(routes_of(entries), addr) == Some(entries[i]@),
{
    let routes = routes_of(entries);
    lemma_route_index(routes, addr);
    let k = route_index(routes, addr);
    if k < i {
        assert(entries[k]@.destination != addr);
    }
    if i < k {
        assert(routes[i].destination != addr);
    }
}

/// Where no entry is for an address, no route leads to it.
pub proof fn lemma_none_for(entries: Seq<Entry>, addr: Ipv4Addr)
    requires
        none_for(entries, addr),
    ensures
        route_index(routes_of(entries), addr) == entries.len(),
        route_to(routes_of(entries), addr) is None,
{
    let routes = routes_of(entries);
    lemma_route_index(routes, addr);
    let k = route_index(routes, addr);
    if k < entries.len() {
        assert(entries[k]@.destination != addr);
    }
}

/// The route to an address is the first one in the table that leads there, and there is none just
/// where no route leads there.
pub proof fn law_first_route_is_taken(routes: Seq<Route>, addr: Ipv4Addr, i: int)
    ensures
        0 <= i < routes.len() && routes[i].destination == addr && (forall|j: int|
            0 <= j < i ==> (#[trigger] routes[j]).destination != addr) ==> route_to(routes, addr)
            == Some(routes[i]) && route_index(routes, addr) == i,
        route_to(routes, addr) is None <==> forall|j: int|
            0 <= j < routes.len() ==> (#[trigger] routes[j]).destination != addr,
{
    lemma_route_index(routes, addr);
    let k = route_index(routes, addr);
    if 0 <= i < routes.len() && routes[i].destination == addr && (forall|j: int|
        0 <= j < i ==> (#[trigger] routes[j]).destination != addr) {
        if k < i {
            assert(routes[k].destination != addr);
        }
        if i < k {
            assert(routes[i].destination != addr);
        }
    }
}

/// The entries by which packets find their next hop.
pub struct ForwardingTable {
    entries: Vec<Entry>,
}

impl View for ForwardingTable {
    type V = Seq<Entry>;

    closed spec fn view(&self) -> Seq<Entry> {
        self.entries@
    }
}

impl Default for ForwardingTable {
    fn default() -> (r: Self)
        ensures
            r@ == Seq::<Entry>::empty(),
    {
        ForwardingTable { entries: Vec::new() }
    }
}

/// Whether `ages` are the times that have passed since the entries were updated, by the clock.
pub open spec fn clock_ages(entries: Seq<Entry>, ages: Seq<Duration>) -> bool {
    &&& ages.len() == entries.len()
    &&& forall|i: int|
        0 <= i < ages.len() ==> clock_measured(entries[i].updated_at(), #[trigger] ages[i])
}

/// The entries that pruning keeps, given their ages: those that are local or younger than
/// `max_age`.
pub open spec fn unexpired(entries: Seq<Entry>, ages: Seq<Duration>, max_age: Duration) -> Seq<
    Entry,
>
    decreases entries.len(),
{
    if entries.len() == 0 {
        Seq::empty()
    } else {
        let before = unexpired(entries.drop_last(), ages.drop_last(), max_age);
        if entries.last()@.is_local || ages.last().nanos < max_age.nanos {
            before.push(entries.last())
        } else {
            before
        }
    }
}

impl ForwardingTable {
    pub fn with_entries(entries: Vec<Entry>) -> (r: Self)
        ensures
            r@ == entries@,
    {
        Self { entries }
    }

    pub fn has_entry_for(&self, addr: Ipv4Addr) -> (r: bool)
        ensures
            r == !none_for(self@, addr),
    {
        match self.position(addr) {
            Some(i) => {
                assert(self@[i as int]@.destination == addr);
                true
            },
            None => false,
        }
    }

    /// The place of the first entry for an address.
    fn position(&self, addr: Ipv4Addr) -> (r: Option<usize>)
        ensures
            match r {
                Some(i) => first_for(self@, addr, i as int),
                None => none_for(self@, addr),
            },
    {
        let mut i: usize = 0;
        while i < self.entries.len()
            invariant
                i <= self.entries@.len(),
                forall|j: int| 0 <= j < i ==> (#[trigger] self.entries@[j])@.destination != addr,
            decreases self.entries@.len() - i,
        {
            if self.entries[i].destination == addr {
                return Some(i);
            }
            i = i + 1;
        }
        None
    }

    pub fn find_mut_entry_for(&mut self, addr: Ipv4Addr) -> (r: Option<&mut Entry>)
        ensures
            match r {
                Some(e) => exists|i: int| #[trigger]
                    first_for(old(self)@, addr, i) && *e == old(self)@[i] && final(self)@ == old(
                        self,
                    )@.update(i, *final(e)),
                None => none_for(old(self)@, addr) && final(self)@ == old(self)@,
            },
    {
        match self.position(addr) {
            Some(i) => {
                assert(first_for(old(self)@, addr, i as int));
                Some(&mut self.entries[i])
            },
            None => None,
        }
    }

    pub fn find_entry_for(&self, addr: Ipv4Addr) -> (r: Option<&Entry>)
        ensures
            match r {
                Some(e) => exists|i: int| #[trigger] first_for(self@, addr, i) && *e == self@[i],
                None => none_for(self@, addr),
            },
            match r {
                Some(e) => route_to(routes_of(self@), addr) == Some(e@),
                None => route_to(routes_of(self@), addr) is None,
            },
    {
        match self.position(addr) {
            Some(i) => {
                proof {
                    lemma_first_for(self@, addr, i as int);
                }
                Some(&self.entries[i])
            },
            None => {
                proof {
                    lemma_none_for(self@, addr);
                }
                None
            },
        }
    }

    pub fn delete_mut_entry_for(&mut self, addr: Ipv4Addr)
        ensures
            final(self)@ == old(self)@.filter(|e: Entry| e@.destination != addr),
    {
        let mut kept: Vec<Entry> = Vec::new();
        let ghost keep = |e: Entry| e@.destination != addr;
        let mut i: usize = 0;
        proof {
            reveal(Seq::filter);
            assert(self.entries@.take(0) =~= Seq::empty());
        }
        while i < self.entries.len()
            invariant
                i <= self.entries@.len(),
                self.entries@ == old(self).entries@,
                keep == (|e: Entry| e@.destination != addr),
                kept@ == self.entries@.take(i as int).filter(keep),
            decreases self.entries@.len() - i,
        {
            let e: Entry = self.entries[i];
            proof {
                reveal(Seq::filter);
                assert(self.entries@.take(i + 1).drop_last() =~= self.entries@.take(i as int));
            }
            if e.destination != addr {
                kept.push(e);
            }
            i = i + 1;
        }
        assert(self.entries@.take(self.entries@.len() as int) =~= self.entries@);
        self.entries = kept;
    }

    pub fn add_entry(&mut self, entry: Entry)
        ensures
            final(self)@ == old(self)@.push(entry),
    {
        self.entries.push(entry);
    }

    pub fn entries(&self) -> (r: &[Entry])
        ensures
            r@ == self@,
    {
        self.entries.as_slice()
    }

    /// Deletes the entries that are neither local nor younger than `max_age`, where `ages`
    /// are the ages of the entries in their order.
    pub fn prune_by_age(&mut self, ages: &[Duration], max_age: Duration)
        requires
            ages@.len() == old(self)@.len(),
        ensures
            final(self)@ == unexpired(old(self)@, ages@, max_age),
    {
        let mut kept: Vec<Entry> = Vec::new();
        let mut i: usize = 0;
        while i < self.entries.len()
            invariant
                i <= self.entries@.len(),
                self.entries@ == old(self).entries@,
                ages@.len() == self.entries@.len(),
                kept@ == unexpired(self.entries@.take(i as int), ages@.take(i as int), max_age),
            decreases self.entries@.len() - i,
        {
            let e: Entry = self.entries[i];
            proof {
                assert(self.entries@.take(i + 1).drop_last() =~= self.entries@.take(i as int));
                assert(ages@.take(i + 1).drop_last() =~= ages@.take(i as int));
            }
            if e.is_local || ages[i].nanos < max_age.nanos {
                kept.push(e);
            }
            i = i + 1;
        }
        assert(self.entries@.take(self.entries@.len() as int) =~= self.entries@);
        assert(ages@.take(ages@.len() as int) =~= ages@);
        self.entries = kept;
    }

    /// Deletes the entries that have not been updated for `max_age`. Entries for the router's
    /// own addresses stay.
    pub fn prune(&mut self, max_age: Duration)
        ensures
            exists|ages: Seq<Duration>|
                clock_ages(old(self)@, ages) && final(self)@ == #[trigger] unexpired(
                    old(self)@,
                    ages,
                    max_age,
                ),
    {
        let mut ages: Vec<Duration> = Vec::new();
        let mut i: usize = 0;
        while i < self.entries.len()
            invariant
                i <= self.entries@.len(),
                ages@.len() == i,
                self.entries@ == old(self).entries@,
                forall|k: int|
                    0 <= k < i ==> clock_measured(
                        self.entries@[k].updated_at(),
                        #[trigger] ages@[k],
                    ),
            decreases self.entries@.len() - i,
        {
            ages.push(elapsed_since(&self.entries[i].last_updated));
            i = i + 1;
        }
        self.prune_by_age(ages.as_slice(), max_age);
    }
}

/// Pruning keeps the entries for the router's own addresses, however old they are.
pub proof fn law_pruning_keeps_local(
    entries: Seq<Entry>,
    ages: Seq<Duration>,
    max_age: Duration,
    e: Entry,
)
    requires
        entries.len() == ages.len(),
        entries.contains(e),
        e@.is_local,
    ensures
        unexpired(entries, ages, max_age).contains(e),
    decreases entries.len(),
{
    let k = choose|k: int| 0 <= k < entries.len() && entries[k] == e;
    let before = unexpired(entries.drop_last(), ages.drop_last(), max_age);
    let after = unexpired(entries, ages, max_age);
    if k == entries.len() - 1 {
        assert(after[after.len() - 1] == e);
    } else {
        assert(entries.drop_last()[k] == e);
        law_pruning_keeps_local(entries.drop_last(), ages.drop_last(), max_age, e);
        let j = choose|j: int| 0 <= j < before.len() && before[j] == e;
        assert(after[j] == e);
    }
}

/// Pruning adds no entry, and what it keeps is local or young enough.
pub proof fn law_pruning_keeps_only_unexpired(
    entries: Seq<Entry>,
    ages: Seq<Duration>,
    max_age: Duration,
    e: Entry,
)
    requires
        entries.len() == ages.len(),
        unexpired(entries, ages, max_age).contains(e),
    ensures
        exists|k: int|
            0 <= k < entries.len() && #[trigger] entries[k] == e && (e@.is_local || ages[k].nanos
                < max_age.nanos),
    decreases entries.len(),
{
    if entries.len() > 0 {
        let before = unexpired(entries.drop_last(), ages.drop_last(), max_age);
        let after = unexpired(entries, ages, max_age);
        let j = choose|j: int| 0 <= j < after.len() && after[j] == e;
        if j < before.len() {
            assert(before[j] == e);
            law_pruning_keeps_only_unexpired(entries.drop_last(), ages.drop_last(), max_age, e);
            let k = choose|k: int|
                0 <= k < entries.drop_last().len() && #[trigger] entries.drop_last()[k] == e && (
                e@.is_local || ages.drop_last()[k].nanos < max_age.nanos);
            assert(entries[k] == e);
        } else {
            assert(entries[entries.len() - 1] == e);
        }
    }
}

/// Pruning judges each entry by itself and keeps the order: of one entry it keeps that entry where
/// it is local or its age is below the limit, and nothing elsewhere, and of two lists it keeps
/// what it keeps of the first and then what it keeps of the second.
pub proof fn law_pruning_judges_each_entry(
    first: Seq<Entry>,
    first_ages: Seq<Duration>,
    second: Seq<Entry>,
    second_ages: Seq<Duration>,
    max_age: Duration,
)
    requires
        first.len() == first_ages.len(),
        second.len() == second_ages.len(),
    ensures
        unexpired(first + second, first_ages + second_ages, max_age) == unexpired(
            first,
            first_ages,
            max_age,
        ) + unexpired(second, second_ages, max_age),
        first.len() == 1 && first[0]@.is_local ==> unexpired(first, first_ages, max_age) == first,
        first.len() == 1 && first_ages[0].nanos < max_age.nanos ==> unexpired(
            first,
            first_ages,
            max_age,
        ) == first,
        first.len() == 1 && !first[0]@.is_local && first_ages[0].nanos >= max_age.nanos
            ==> unexpired(first, first_ages, max_age).len() == 0,
    decreases second.len(),
{
    let (all, all_ages) = (first + second, first_ages + second_ages);
    if second.len() == 0 {
        assert(all =~= first);
        assert(all_ages =~= first_ages);
        assert(unexpired(second, second_ages, max_age) =~= Seq::empty());
    } else {
        law_pruning_judges_each_entry(
            first,
            first_ages,
            second.drop_last(),
            second_ages.drop_last(),
            max_age,
        );
        assert(all.drop_last() =~= first + second.drop_last());
        assert(all_ages.drop_last() =~= first_ages + second_ages.drop_last());
    }
    if first.len() == 1 {
        assert(unexpired(first.drop_last(), first_ages.drop_last(), max_age) =~= Seq::empty());
        assert(first =~= seq![first[0]]);
    }
}

} // verus!
