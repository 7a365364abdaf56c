use vstd::prelude::*;

verus! {

/// An account or contract address, as the plain values by which the ledger
/// orders addresses: the kind of address first, then its 32-byte key read as
/// two big-endian 128-bit halves.
#[derive(Clone, Copy, Debug, PartialEq, Eq, Hash, Structural)]
pub struct Addr {
    pub kind: u8,
    pub hi: u128,
    pub lo: u128,
}

/// The ledger's order on addresses: by kind, then by key.
pub open spec fn addr_lt(a: Addr, b: Addr) -> bool {
    ||| a.kind < b.kind
    ||| a.kind == b.kind && a.hi < b.hi
    ||| a.kind == b.kind && a.hi == b.hi && a.lo < b.lo
}

impl Addr {
    /// Whether `self` comes strictly before `other` in the ledger's order.
    pub fn less_than(&self, other: &Addr) -> (r: bool)
        ensures
            r == addr_lt(*self, *other),
    {
        if self.kind != other.kind {
            self.kind < other.kind
        } else if self.hi != other.hi {
            self.hi < other.hi
        } else {
            self.lo < other.lo
        }
    }
}

} // verus!
