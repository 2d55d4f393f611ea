use vstd::prelude::*;

verus! {

/// A transport endpoint of a peer: an IP address (as an integer, most
/// significant octet first) and a port.
#[allow(inconsistent_fields)]
#[derive(Clone, Copy, Debug, PartialEq, Eq, Hash, Structural)]
pub enum PeerAddr {
    V4 { ip: u32, port: u16 },
    V6 { ip: u128, port: u16 },
}

/// The identity of a cluster member: a stable address plus a nonce that
/// lets the member rejoin under the same address after it was declared down.
#[derive(Clone, Copy, Debug, PartialEq, Eq, Hash, Structural)]
pub struct ID {
    pub addr: PeerAddr,
    pub bump: u16,
}

/// Relies on rand::random: a value of the requested type drawn from the
/// thread-local generator. Nothing is promised about which value it is.
pub assume_specification<T>[ rand::random::<T> ]() -> (r: T)
    where
        rand::distributions::Standard: rand::distributions::Distribution<T>,
;

/// The bump that follows `bump`, modulo 2^16.
pub open spec fn next_bump(bump: u16) -> u16 {
    ((bump as int + 1) % 0x10000) as u16
}

impl ID {
    /// A fresh identity for `addr`, with a random bump.
    pub fn new(addr: PeerAddr) -> (r: ID)
        ensures
            r.addr == addr,
    {
        let bump: u16 = rand::random();
        ID { addr, bump }
    }

    /// Two identities share a prefix when their addresses are equal, so a
    /// peer that only knows the address can still reach this member.
    pub fn has_same_prefix(&self, other: &ID) -> (r: bool)
        ensures
            r == (self.addr == other.addr),
    {
        self.addr == other.addr
    }

    /// The identity to rejoin with: same address, next bump.
    pub fn renew(&self) -> (r: Option<ID>)
        ensures
            r == Some(ID { addr: self.addr, bump: next_bump(self.bump) }),
    {
        Some(ID { addr: self.addr, bump: self.bump.wrapping_add(1) })
    }
}

} // verus!
