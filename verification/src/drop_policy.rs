//! Which packets a router drops on purpose.

use crate::header::Ipv4Header;
use vstd::arithmetic::div_mod::{
    lemma_fundamental_div_mod, lemma_fundamental_div_mod_converse, lemma_mod_bound,
};
use vstd::prelude::*;

verus! {

/// Decides for each packet whether it is dropped.
pub trait DropPolicy: Sized {
    /// Whether the next packet is dropped.
    spec fn drops(&self, ip_header: Ipv4Header) -> bool;

    /// The policy once the next packet has been decided.
    spec fn decided(&self, ip_header: Ipv4Header) -> Self;

    fn should_drop(&mut self, ip_header: &Ipv4Header) -> (r: bool)
        ensures
            r == old(self).drops(*ip_header),
            *final(self) == old(self).decided(*ip_header),
    ;
}

/// Drops nothing.
pub struct NeverDrop;

impl Default for NeverDrop {
    fn default() -> (r: Self)
        ensures
            r == NeverDrop,
    {
        NeverDrop
    }
}

impl DropPolicy for NeverDrop {
    open spec fn drops(&self, ip_header: Ipv4Header) -> bool {
        false
    }

    open spec fn decided(&self, ip_header: Ipv4Header) -> Self {
        *self
    }

    fn should_drop(&mut self, ip_header: &Ipv4Header) -> (r: bool) {
        false
    }
}

/// Drops one packet in every `factor`, and none where that is zero.
#[derive(Debug, PartialEq, Eq, Structural, Clone, Copy)]
pub struct DropFactor {
    pub factor: usize,
    pub count: usize,
}

/// The policy that a drop factor stands for.
pub open spec fn drop_factor(factor: usize) -> DropFactor {
    DropFactor { factor, count: 0 }
}

impl DropFactor {
    /// Configure the router to drop 1 packet every `drop_factor` packets.
    pub fn new(drop_factor: usize) -> (r: Self)
        ensures
            r == crate::drop_policy::drop_factor(drop_factor),
    {
        Self { factor: drop_factor, count: 0 }
    }

    pub fn drop_20_pc() -> (r: Self)
        ensures
            r == drop_factor(5),
    {
        DropFactor::new(5)
    }

    pub fn drop_10_pc() -> (r: Self)
        ensures
            r == drop_factor(10),
    {
        DropFactor::new(10)
    }

    pub fn drop_5_pc() -> (r: Self)
        ensures
            r == drop_factor(20),
    {
        DropFactor::new(20)
    }

    pub fn drop_50_pc() -> (r: Self)
        ensures
            r == drop_factor(2),
    {
        DropFactor::new(2)
    }
}

impl DropPolicy for DropFactor {
    open spec fn drops(&self, ip_header: Ipv4Header) -> bool {
        self.factor != 0 && self.count % self.factor == 0
    }

    open spec fn decided(&self, ip_header: Ipv4Header) -> Self {
        if self.factor == 0 {
            *self
        } else {
            DropFactor {
                count: if self.count == usize::MAX {
                    0
                } else {
                    (self.count + 1) as usize
                },
                ..*self
            }
        }
    }

    fn should_drop(&mut self, ip_header: &Ipv4Header) -> (r: bool) {
        if self.factor == 0 {
            return false;
        }
        let count: usize = self.count;
        self.count = if count == usize::MAX {
            0
        } else {
            count + 1
        };
        count % self.factor == 0
    }
}

/// A policy after `n` packets have been decided, whatever their headers.
pub open spec fn after_packets(policy: DropFactor, headers: Seq<Ipv4Header>) -> DropFactor
    decreases headers.len(),
{
    if headers.len() == 0 {
        policy
    } else {
        after_packets(policy, headers.drop_last()).decided(headers.last())
    }
}

/// How many of the packets with these headers a policy drops.
pub open spec fn dropped(policy: DropFactor, headers: Seq<Ipv4Header>) -> nat
    decreases headers.len(),
{
    if headers.len() == 0 {
        0
    } else {
        dropped(policy, headers.drop_last()) + if after_packets(policy, headers.drop_last()).drops(
            headers.last(),
        ) {
            1nat
        } else {
            0nat
        }
    }
}

/// A new policy with factor `n` drops the first of every `n` packets, and no other.
pub proof fn law_one_packet_in_factor_is_dropped(factor: usize, headers: Seq<Ipv4Header>)
    requires
        factor > 0,
        headers.len() <= usize::MAX,
    ensures
        dropped(drop_factor(factor), headers) == (headers.len() + factor - 1) / factor as int,
        after_packets(drop_factor(factor), headers) == (DropFactor {
            count: headers.len() as usize,
            ..drop_factor(factor)
        }),
    decreases headers.len(),
{
    let n = headers.len() as int;
    let f = factor as int;
    if n == 0 {
        lemma_fundamental_div_mod_converse(f - 1, f, 0, f - 1);
    } else {
        law_one_packet_in_factor_is_dropped(factor, headers.drop_last());
        let q = (n - 1) / f;
        let r = (n - 1) % f;
        lemma_fundamental_div_mod(n - 1, f);
        lemma_mod_bound(n - 1, f);
        assert(n - 1 == q * f + r) by (nonlinear_arith)
            requires
                n - 1 == f * q + r,
        ;
        // ceil((n - 1) / f) is q where f divides n - 1, and q + 1 elsewhere.
        if r == 0 {
            lemma_fundamental_div_mod_converse(n - 1 + f - 1, f, q, f - 1);
            assert(n + f - 1 == (q + 1) * f + 0) by (nonlinear_arith)
                requires
                    n - 1 == q * f,
            ;
            lemma_fundamental_div_mod_converse(n + f - 1, f, q + 1, 0);
        } else {
            assert(n - 1 + f - 1 == (q + 1) * f + (r - 1)) by (nonlinear_arith)
                requires
                    n - 1 == q * f + r,
            ;
            lemma_fundamental_div_mod_converse(n - 1 + f - 1, f, q + 1, r - 1);
            assert(n + f - 1 == (q + 1) * f + r) by (nonlinear_arith)
                requires
                    n - 1 == q * f + r,
            ;
            lemma_fundamental_div_mod_converse(n + f - 1, f, q + 1, r);
        }
    }
}

/// A drop factor of zero drops no packet.
pub proof fn law_factor_zero_drops_nothing(headers: Seq<Ipv4Header>)
    ensures
        dropped(drop_factor(0), headers) == 0,
        after_packets(drop_factor(0), headers) == drop_factor(0),
    decreases headers.len(),
{
    if headers.len() > 0 {
        law_factor_zero_drops_nothing(headers.drop_last());
    }
}

} // verus!
