//! Network addresses of peers.
use vstd::prelude::*;

verus! {

/// Address of a node on the Iroh network: its 32-byte node identifier.
#[derive(PartialEq, Eq, Clone, Copy, Debug)]
pub struct IrohAddress(pub [u8; 32]);

impl IrohAddress {
    /// The address with node identifier `bytes`.
    pub fn from_bytes(bytes: [u8; 32]) -> (r: Self)
        ensures
            r.0@ == bytes@,
    {
        IrohAddress(bytes)
    }

    /// The node identifier of this address.
    pub fn to_bytes(&self) -> (r: [u8; 32])
        ensures
            r@ == self.0@,
    {
        self.0
    }
}

impl Default for IrohAddress {
    /// The all-zero address.
    fn default() -> (r: Self)
        ensures
            forall|i: int| 0 <= i < 32 ==> r.0@[i] == 0,
    {
        IrohAddress([0u8; 32])
    }
}

/// How to reach a peer.
#[derive(PartialEq, Eq, Clone, Copy, Debug)]
pub enum PeerAddress {
    Iroh(IrohAddress),
}

} // verus!
