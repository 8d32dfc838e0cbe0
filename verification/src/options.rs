//! Configuration of the cache's decisions.
use vstd::prelude::*;

use crate::ratio::Ratio;
use crate::time::{secs_span, Span};

verus! {

/// The bits of the default heuristic ratio, one tenth in single precision.
pub const DEFAULT_HEURISTIC_BITS: u32 = 0x3dcc_cccd;

/// The default lifetime of an immutable response: one day, in seconds.
pub const DEFAULT_IMMUTABLE_SECS: u64 = 86_400;

/// Configuration that controls cache behaviour.
#[derive(Clone, Copy, Debug, PartialEq, Eq, Structural)]
pub struct CacheOptions {
    /// Whether the cache is a *shared cache*, such as a proxy: it honours `s-maxage`, refuses
    /// `private` responses, and stores a response to a request with `Authorization` only where
    /// the response permits it. Otherwise the cache serves one user.
    pub shared: bool,
    /// The heuristic-freshness ratio: the part of the time since `Last-Modified` for which a
    /// response without explicit expiration is fresh.
    pub cache_heuristic: Ratio,
    /// The freshness lifetime of an immutable response that states no other.
    pub immutable_min_time_to_live: Span,
}

/// The options of a cache that nobody configured: not shared, a ratio of one tenth, and one day
/// for immutable responses.
pub open spec fn default_options() -> CacheOptions {
    CacheOptions {
        shared: false,
        cache_heuristic: Ratio { bits: DEFAULT_HEURISTIC_BITS },
        immutable_min_time_to_live: Span {
            nanos: secs_span(DEFAULT_IMMUTABLE_SECS as nat) as u128,
        },
    }
}

impl Default for CacheOptions {
    fn default() -> (r: CacheOptions)
        ensures
            r == default_options(),
    {
        CacheOptions {
            shared: false,
            cache_heuristic: Ratio::from_bits(DEFAULT_HEURISTIC_BITS),
            immutable_min_time_to_live: Span::from_secs(DEFAULT_IMMUTABLE_SECS),
        }
    }
}

impl CacheOptions {
    /// Whether the cache is a shared one.
    pub fn is_shared(&self) -> (r: bool)
        ensures
            r == self.shared,
    {
        self.shared
    }

    /// The setting for a shared cache, to be changed in place.
    pub fn shared_mut(&mut self) -> (r: &mut bool)
        ensures
            *r == old(self).shared,
            *final(self) == (CacheOptions { shared: *final(r), ..*old(self) }),
    {
        &mut self.shared
    }

    /// Sets whether the cache is a shared one.
    pub fn set_shared(&mut self, shared: bool) -> (r: &mut CacheOptions)
        ensures
            *r == (CacheOptions { shared, ..*old(self) }),
            *final(self) == *final(r),
    {
        self.shared = shared;
        self
    }

    /// These options for a cache that is a shared one or not.
    pub fn with_shared(self, shared: bool) -> (r: CacheOptions)
        ensures
            r == (CacheOptions { shared, ..self }),
    {
        CacheOptions { shared, ..self }
    }

    /// The heuristic-freshness ratio.
    pub fn cache_heuristic(&self) -> (r: Ratio)
        ensures
            r == self.cache_heuristic,
    {
        self.cache_heuristic
    }

    /// The heuristic-freshness ratio, to be changed in place.
    pub fn cache_heuristic_mut(&mut self) -> (r: &mut Ratio)
        ensures
            *r == old(self).cache_heuristic,
            *final(self) == (CacheOptions { cache_heuristic: *final(r), ..*old(self) }),
    {
        &mut self.cache_heuristic
    }

    /// Sets the heuristic-freshness ratio.
    pub fn set_cache_heuristic(&mut self, ratio: Ratio) -> (r: &mut CacheOptions)
        ensures
            *r == (CacheOptions { cache_heuristic: ratio, ..*old(self) }),
            *final(self) == *final(r),
    {
        self.cache_heuristic = ratio;
        self
    }

    /// These options with another heuristic-freshness ratio.
    pub fn with_cache_heuristic(self, ratio: Ratio) -> (r: CacheOptions)
        ensures
            r == (CacheOptions { cache_heuristic: ratio, ..self }),
    {
        CacheOptions { cache_heuristic: ratio, ..self }
    }

    /// The freshness lifetime of an immutable response that states no other.
    pub fn immutable_min_time_to_live(&self) -> (r: Span)
        ensures
            r == self.immutable_min_time_to_live,
    {
        self.immutable_min_time_to_live
    }

    /// The freshness lifetime of an immutable response, to be changed in place.
    pub fn immutable_min_time_to_live_mut(&mut self) -> (r: &mut Span)
        ensures
            *r == old(self).immutable_min_time_to_live,
            *final(self) == (CacheOptions { immutable_min_time_to_live: *final(r), ..*old(self) }),
    {
        &mut self.immutable_min_time_to_live
    }

    /// Sets the freshness lifetime of an immutable response that states no other.
    pub fn set_immutable_min_time_to_live(&mut self, span: Span) -> (r: &mut CacheOptions)
        ensures
            *r == (CacheOptions { immutable_min_time_to_live: span, ..*old(self) }),
            *final(self) == *final(r),
    {
        self.immutable_min_time_to_live = span;
        self
    }

    /// These options with another freshness lifetime for immutable responses.
    pub fn with_immutable_min_time_to_live(self, span: Span) -> (r: CacheOptions)
        ensures
            r == (CacheOptions { immutable_min_time_to_live: span, ..self }),
    {
        CacheOptions { immutable_min_time_to_live: span, ..self }
    }
}

} // verus!
