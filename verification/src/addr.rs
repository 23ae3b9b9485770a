//! IPv4 addresses.

use vstd::prelude::*;

verus! {

/// An IPv4 address, by its four octets.
#[derive(Clone, Copy, Debug, PartialEq, Eq, Structural, Hash)]
pub struct Ipv4Addr {
    pub a: u8,
    pub b: u8,
    pub c: u8,
    pub d: u8,
}

impl View for Ipv4Addr {
    type V = Seq<u8>;

    open spec fn view(&self) -> Seq<u8> {
        seq![self.a, self.b, self.c, self.d]
    }
}

impl Ipv4Addr {
    /// The address `a.b.c.d`.
    pub fn new(a: u8, b: u8, c: u8, d: u8) -> (r: Self)
        ensures
            r == (Ipv4Addr { a, b, c, d }),
    {
        Ipv4Addr { a, b, c, d }
    }

    /// The four octets.
    pub fn octets(&self) -> (r: [u8; 4])
        ensures
            r@ == self@,
    {
        let r = [self.a, self.b, self.c, self.d];
        assert(r@ =~= self@);
        r
    }
}

/// Two addresses are the same when their octets are.
pub proof fn lemma_same_octets(x: Ipv4Addr, y: Ipv4Addr)
    requires
        x@ == y@,
    ensures
        x == y,
{
    assert(x.a == x@[0] && x.b == x@[1] && x.c == x@[2] && x.d == x@[3]);
    assert(y.a == y@[0] && y.b == y@[1] && y.c == y@[2] && y.d == y@[3]);
}

} // verus!
