//! Limits on what a storage backend keeps.
use vstd::prelude::*;

use crate::time::Span;

verus! {

/// The longest expiry that can be asked for: a thousand years, in nanoseconds.
pub const MAX_EXPIRY_NANOS: u128 = 31_536_000_000_000_000_000;

/// Limits on what a storage backend keeps. `None` is no limit.
#[derive(Clone, Copy, Debug, PartialEq, Eq, Structural)]
pub struct Limits {
    /// The total of stored body bytes.
    pub max_capacity_bytes: Option<u64>,
    /// How long an entry is kept without being read.
    pub time_to_idle: Option<Span>,
    /// How long an entry is kept after it was stored.
    pub time_to_live: Option<Span>,
}

impl Limits {
    /// Whether the expiries are no longer than can be asked for.
    pub open spec fn in_range(self) -> bool {
        &&& self.time_to_idle matches Some(span) ==> span@ <= MAX_EXPIRY_NANOS
        &&& self.time_to_live matches Some(span) ==> span@ <= MAX_EXPIRY_NANOS
    }
}

} // verus!
