//! Network addresses of cluster nodes and the identifiers derived from them.

use vstd::prelude::*;

verus! {

/// An IP address, as a node sees it.
#[derive(Clone, Copy, Debug, PartialEq, Eq, Structural)]
pub enum IpAddress {
    V4(u8, u8, u8, u8),
    V6(u16, u16, u16, u16, u16, u16, u16, u16),
}

/// The socket address (IP and port) a node listens on.
#[derive(Clone, Copy, Debug, PartialEq, Eq, Structural)]
pub struct NodeAddr {
    pub ip: IpAddress,
    pub port: u16,
}

impl NodeAddr {
    /// Builds an IPv4 socket address.
    pub fn v4(a: u8, b: u8, c: u8, d: u8, port: u16) -> (addr: NodeAddr)
        ensures
            addr == (NodeAddr { ip: IpAddress::V4(a, b, c, d), port }),
    {
        NodeAddr { ip: IpAddress::V4(a, b, c, d), port }
    }

    /// Whether the address is an IPv4 address.
    pub fn is_ipv4(&self) -> (b: bool)
        ensures
            b == (self.ip is V4),
    {
        match self.ip {
            IpAddress::V4(..) => true,
            IpAddress::V6(..) => false,
        }
    }
}

/// The largest node identifier.
pub const MAX_NODE_ID: u64 = 100000;

/// The identifier that a node with the given address hash receives.
pub open spec fn spec_id_from_hash(hash: u64) -> u64 {
    (hash % MAX_NODE_ID + 1) as u64
}

/// Derives a node identifier, in `1..=100000`, from a 64-bit hash of its address.
pub fn id_from_hash(hash: u64) -> (id: u64)
    ensures
        id == spec_id_from_hash(hash),
        1 <= id <= MAX_NODE_ID,
        (hash - (id - 1)) % 100000 == 0,
{
    proof {
        lemma_id_from_hash(hash, hash);
    }
    hash % MAX_NODE_ID + 1
}

/// Identifiers from hashes: the id of a hash lies in `1..=100000` and, less
/// one, is congruent to the hash modulo 100000 (so it is one more than the
/// hash's remainder); two hashes get the same id exactly when they differ
/// by a multiple of 100000.
pub proof fn lemma_id_from_hash(h: u64, h2: u64)
    ensures
        1 <= spec_id_from_hash(h) <= 100000,
        (h - (spec_id_from_hash(h) - 1)) % 100000 == 0,
        spec_id_from_hash(h) == spec_id_from_hash(h2) <==> (h - h2) % 100000 == 0,
{
    let m: int = 100000;
    vstd::arithmetic::div_mod::lemma_mod_equivalence(h as int, h2 as int, m);
    vstd::arithmetic::div_mod::lemma_fundamental_div_mod(h as int, m);
    vstd::arithmetic::div_mod::lemma_mod_multiples_vanish(h as int / m, 0, m);
    vstd::arithmetic::div_mod::lemma_small_mod(0, 100000);
    assert((h - (h as int % m)) == m * (h as int / m));
    assert((m * (h as int / m) + 0) % m == 0);
}

} // verus!
