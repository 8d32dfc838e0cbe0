//! Points in time and spans of time, to the nanosecond.
use vstd::prelude::*;

verus! {

/// Nanoseconds in one second.
pub const NANOS_PER_SEC: u128 = 1_000_000_000;

/// A point in time: whole seconds since the Unix epoch, and nanoseconds after them.
#[derive(Clone, Copy, Debug, PartialEq, Eq, Structural)]
pub struct Timestamp {
    pub secs: i64,
    pub nanos: u32,
}

/// A length of time in nanoseconds.
#[derive(Clone, Copy, Debug, PartialEq, Eq, Structural)]
pub struct Span {
    pub nanos: u128,
}

impl View for Timestamp {
    type V = int;

    /// Nanoseconds since the Unix epoch.
    open spec fn view(&self) -> int {
        self.secs * NANOS_PER_SEC + self.nanos
    }
}

impl View for Span {
    type V = nat;

    open spec fn view(&self) -> nat {
        self.nanos as nat
    }
}

/// The nanoseconds from `earlier` to `later`, or zero where `later` does not come after it.
pub open spec fn elapsed(later: int, earlier: int) -> nat {
    if later >= earlier {
        (later - earlier) as nat
    } else {
        0
    }
}

/// The nanoseconds in a number of seconds.
pub open spec fn secs_span(secs: nat) -> nat {
    secs * NANOS_PER_SEC as nat
}

impl Timestamp {
    pub fn new(secs: i64, nanos: u32) -> (r: Timestamp)
        ensures
            r.secs == secs,
            r.nanos == nanos,
    {
        Timestamp { secs, nanos }
    }

    fn as_nanos(&self) -> (r: i128)
        ensures
            r == self@,
            -0x2000_0000_0000_0000_0000_0000 <= r <= 0x2000_0000_0000_0000_0000_0000,
    {
        self.secs as i128 * 1_000_000_000 + self.nanos as i128
    }

    /// The span from `earlier` to this point, or `None` where `earlier` comes after it.
    pub fn since(&self, earlier: &Timestamp) -> (r: Option<Span>)
        ensures
            match r {
                Some(span) => self@ >= earlier@ && span@ == self@ - earlier@,
                None => self@ < earlier@,
            },
    {
        let a: i128 = self.as_nanos();
        let b: i128 = earlier.as_nanos();
        if a < b {
            None
        } else {
            Some(Span { nanos: (a - b) as u128 })
        }
    }

    /// Whether this point comes no later than `other`.
    pub fn at_or_before(&self, other: &Timestamp) -> (r: bool)
        ensures
            r == (self@ <= other@),
    {
        self.as_nanos() <= other.as_nanos()
    }
}

impl Span {
    pub fn zero() -> (r: Span)
        ensures
            r@ == 0,
    {
        Span { nanos: 0 }
    }

    pub fn from_secs(secs: u64) -> (r: Span)
        ensures
            r@ == secs_span(secs as nat),
    {
        Span { nanos: secs as u128 * NANOS_PER_SEC }
    }

    /// The whole seconds in this span.
    pub fn as_secs(&self) -> (r: u128)
        ensures
            r == self@ / NANOS_PER_SEC as nat,
    {
        self.nanos / NANOS_PER_SEC
    }

    /// The nanoseconds that are left beside the whole seconds.
    pub fn subsec_nanos(&self) -> (r: u32)
        ensures
            r == self@ % NANOS_PER_SEC as nat,
    {
        (self.nanos % NANOS_PER_SEC) as u32
    }

    pub fn is_zero(&self) -> (r: bool)
        ensures
            r == (self@ == 0),
    {
        self.nanos == 0
    }

    /// The longer of two spans.
    pub fn or_longer(&self, other: Span) -> (r: Span)
        ensures
            r@ == if self@ >= other@ {
                self@
            } else {
                other@
            },
    {
        if self.nanos >= other.nanos {
            *self
        } else {
            other
        }
    }

    /// What is left of this span after `other`, or zero.
    pub fn less(&self, other: Span) -> (r: Span)
        ensures
            r@ == elapsed(self@ as int, other@ as int),
    {
        if self.nanos >= other.nanos {
            Span { nanos: self.nanos - other.nanos }
        } else {
            Span { nanos: 0 }
        }
    }
}

} // verus!
