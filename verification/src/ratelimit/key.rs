//! Whom a bucket belongs to.

use vstd::prelude::*;

verus! {

/// A network address: the 32 bits of an IPv4 address or the 128 bits of an
/// IPv6 address, most significant octet first.
#[derive(Clone, Copy, Debug, PartialEq, Eq, Hash, Structural)]
pub enum IpAddress {
    V4(u32),
    V6(u128),
}

/// The identity that a bucket is kept for: an address, a principal, or the
/// two together. Keys of different kinds are different keys, whatever they
/// hold.
#[derive(Clone, Copy, Debug, PartialEq, Eq, Hash, Structural)]
pub enum RateLimitKey {
    Ip(IpAddress),
    User(i64),
    IpUser(IpAddress, i64),
}

} // verus!
