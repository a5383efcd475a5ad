//! The key of the token-bucket rate limiter: one bucket per conversation, or
//! one for everything. (The bucket arithmetic itself is floating point and lives
//! with the caller.)
use vstd::prelude::*;
use crate::ids::Peer;

verus! {

/// What the rate limiter keys its buckets by.
#[derive(Clone, Copy, Debug, PartialEq, Eq, Structural)]
pub enum RateLimitScope {
    /// One bucket per addressable conversation; events without one pass.
    PerPeer,
    /// One bucket shared by all events.
    Global,
}

/// The bucket an event draws from: `None` when it is not limited at all (no
/// conversation under `PerPeer`); `Some(None)` is the global bucket.
pub fn bucket_key(scope: RateLimitScope, peer: Option<Peer>) -> (k: Option<Option<Peer>>)
    ensures
        k == match scope {
            RateLimitScope::PerPeer => match peer {
                Some(p) => Some(Some(p)),
                None => None,
            },
            RateLimitScope::Global => Some(None::<Peer>),
        },
{
    match scope {
        RateLimitScope::PerPeer => match peer {
            Some(p) => Some(Some(p)),
            None => None,
        },
        RateLimitScope::Global => Some(None),
    }
}

} // verus!
