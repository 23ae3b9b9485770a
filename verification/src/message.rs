//! What can be sent over the network.

use vstd::prelude::*;

verus! {

/// Trait to be implemented by payload to be sent over the network.
pub trait Message: Sized {
    /// Whether the message has a form in bytes.
    spec fn can_encode(&self) -> bool;

    /// The bytes of the message.
    spec fn encoded(&self) -> Seq<u8>;

    /// Whether bytes hold a message.
    spec fn can_decode(bytes: Seq<u8>) -> bool;

    /// Whether `message` is what the bytes hold.
    spec fn decodes(bytes: Seq<u8>, message: Self) -> bool;

    /// Convert a message into bytes.
    fn into_bytes(self) -> (r: Vec<u8>)
        requires
            self.can_encode(),
        ensures
            r@ == self.encoded(),
    ;

    /// Convert bytes into a message.
    fn from_bytes(bytes: &[u8]) -> (r: Self)
        requires
            Self::can_decode(bytes@),
        ensures
            Self::decodes(bytes@, r),
    ;
}

} // verus!
