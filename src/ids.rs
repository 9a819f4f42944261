//! Plain-value identities of peers and messages.
use vstd::prelude::*;

verus! {

/// A peer's socket address: the IP address as a 128-bit number (an IPv4
/// address in its low 32 bits), whether it is an IPv6 address, and the port.
#[derive(Clone, Copy, Debug, PartialEq, Eq, Hash, Structural)]
pub struct PeerAddr {
    pub ip: u128,
    pub is_v6: bool,
    pub port: u16,
}

/// The 256-bit correlation id of a message, as its high and low halves.
#[derive(Clone, Copy, Debug, PartialEq, Eq, Hash, Structural)]
pub struct MessageId {
    pub high: u128,
    pub low: u128,
}

/// The key of a pending query: the elder asked, and the message id.
#[derive(Clone, Copy, Debug, PartialEq, Eq, Hash, Structural)]
pub struct QueryKey {
    pub peer: PeerAddr,
    pub id: MessageId,
}

/// A key that pending requests are correlated by.
pub trait CorrelationKey: Sized + Copy {
    /// Whether `self` and `other` are the same key.
    fn same_key(&self, other: &Self) -> (r: bool)
        ensures
            r == (*self == *other),
    ;
}

impl CorrelationKey for MessageId {
    fn same_key(&self, other: &Self) -> (r: bool) {
        *self == *other
    }
}

impl CorrelationKey for QueryKey {
    fn same_key(&self, other: &Self) -> (r: bool) {
        *self == *other
    }
}

} // verus!
