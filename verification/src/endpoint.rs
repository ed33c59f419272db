//! A remote peer's address, used as the routing key.

use vstd::prelude::*;

verus! {

/// An IPv4 host and port uniquely identifying a remote peer. Endpoints are
/// compared by exact equality; `key` gives an injective integer encoding used
/// to index the routing table.
#[derive(Clone, Copy, Debug, PartialEq, Eq, Hash, Structural)]
pub struct Endpoint {
    pub ip: u32,
    pub port: u16,
}

impl Endpoint {
    /// The integer routing key: `ip * 2^16 + port`.
    pub open spec fn key_spec(self) -> u64 {
        ((self.ip as u64) * 0x10000 + (self.port as u64)) as u64
    }

    pub fn new(ip: u32, port: u16) -> (e: Endpoint)
        ensures
            e.ip == ip,
            e.port == port,
    {
        Endpoint { ip, port }
    }

    pub fn key(&self) -> (k: u64)
        ensures
            k == self.key_spec(),
    {
        (self.ip as u64) * 0x10000 + (self.port as u64)
    }
}

/// Distinct endpoints have distinct routing keys.
pub proof fn lemma_key_injective(a: Endpoint, b: Endpoint)
    requires
        a.key_spec() == b.key_spec(),
    ensures
        a == b,
{
    assert(a.ip == b.ip && a.port == b.port) by (nonlinear_arith)
        requires
            (a.ip as u64) * 0x10000 + (a.port as u64) == (b.ip as u64) * 0x10000 + (b.port as u64),
            a.port < 0x10000,
            b.port < 0x10000,
            a.ip <= u32::MAX,
            b.ip <= u32::MAX;
}

} // verus!
