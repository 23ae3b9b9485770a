//! When a connection acknowledges packets at once.

use crate::header::TcpHeader;
use vstd::prelude::*;

verus! {

/// Decides for each packet whether it is acknowledged on arrival.
pub trait AckPolicy: Sized {
    /// Whether the next packet is acknowledged on arrival.
    spec fn acks(&self, tcp_header: TcpHeader) -> bool;

    /// The policy once the next packet has been decided.
    spec fn decided(&self, tcp_header: TcpHeader) -> Self;

    fn should_ack(&mut self, tcp_header: &TcpHeader) -> (r: bool)
        ensures
            r == old(self).acks(*tcp_header),
            *final(self) == old(self).decided(*tcp_header),
    ;
}

/// Utility that always ACKs a packet on arrival.
#[derive(Debug)]
pub struct AlwaysAck;

impl Default for AlwaysAck {
    fn default() -> (r: Self)
        ensures
            r == AlwaysAck,
    {
        AlwaysAck
    }
}

impl AckPolicy for AlwaysAck {
    open spec fn acks(&self, tcp_header: TcpHeader) -> bool {
        true
    }

    open spec fn decided(&self, tcp_header: TcpHeader) -> Self {
        *self
    }

    fn should_ack(&mut self, tcp_header: &TcpHeader) -> (r: bool) {
        true
    }
}

/// Utility that allows a TcpConn to batch up to LAG Ack packets.
#[derive(Debug)]
pub struct BatchedAck<const LAG: usize> {
    pub count: usize,
}

impl<const LAG: usize> Default for BatchedAck<LAG> {
    fn default() -> (r: Self)
        ensures
            r.count == 0,
    {
        BatchedAck { count: 0 }
    }
}

impl<const LAG: usize> AckPolicy for BatchedAck<LAG> {
    open spec fn acks(&self, tcp_header: TcpHeader) -> bool {
        LAG == 0 || self.count % LAG == 0
    }

    open spec fn decided(&self, tcp_header: TcpHeader) -> Self {
        if LAG == 0 {
            *self
        } else {
            BatchedAck {
                count: if self.count == usize::MAX {
                    0
                } else {
                    (self.count + 1) as usize
                },
            }
        }
    }

    fn should_ack(&mut self, tcp_header: &TcpHeader) -> (r: bool) {
        if LAG == 0 {
            return true;
        }
        let count: usize = self.count;
        self.count = if count == usize::MAX {
            0
        } else {
            count + 1
        };
        count % LAG == 0
    }
}

/// A policy after packets with the given headers have been decided.
pub open spec fn after_packets<const LAG: usize>(
    policy: BatchedAck<LAG>,
    headers: Seq<TcpHeader>,
) -> BatchedAck<LAG>
    decreases headers.len(),
{
    if headers.len() == 0 {
        policy
    } else {
        after_packets(policy, headers.drop_last()).decided(headers.last())
    }
}

/// Of the packets that a new policy decides, it acknowledges the first of every `LAG` at once.
pub proof fn law_one_packet_in_lag_is_acked<const LAG: usize>(
    headers: Seq<TcpHeader>,
    next: TcpHeader,
)
    requires
        LAG > 0,
        headers.len() <= usize::MAX,
    ensures
        after_packets(BatchedAck::<LAG> { count: 0 }, headers).acks(next) <==> headers.len()
            % LAG as nat == 0,
{
    lemma_count(BatchedAck::<LAG> { count: 0 }, headers);
}

/// A policy without a lag acknowledges every packet at once, as the one that always does.
pub proof fn law_no_lag_acks_every_packet(
    headers: Seq<TcpHeader>,
    next: TcpHeader,
    policy: BatchedAck<0>,
)
    ensures
        after_packets(policy, headers).acks(next),
        AlwaysAck.acks(next),
        AlwaysAck.decided(next).acks(next),
{
}

/// A policy counts the packets that it decides.
proof fn lemma_count<const LAG: usize>(policy: BatchedAck<LAG>, headers: Seq<TcpHeader>)
    requires
        LAG > 0,
        policy.count == 0,
        headers.len() <= usize::MAX,
    ensures
        after_packets(policy, headers).count == headers.len(),
    decreases headers.len(),
{
    if headers.len() > 0 {
        lemma_count(policy, headers.drop_last());
    }
}

} // verus!
