//! Laws on points and spans of time.
use vstd::prelude::*;

use crate::time::{Span, Timestamp};

verus! {

/// A point in time is as many nanoseconds from the epoch as its seconds and its nanoseconds say.
pub proof fn points_are_counted_in_nanoseconds(secs: i64, nanos: u32, r: Timestamp)
    requires
        call_ensures(Timestamp::new, (secs, nanos), r),
    ensures
        r.secs == secs,
        r.nanos == nanos,
        r@ == secs * 1_000_000_000 + nanos,
{
}

/// The span from one point to another is what lies between them; where the other comes first there
/// is none.
pub proof fn spans_lie_between_points(a: Timestamp, b: Timestamp, r: Option<Span>, before: bool)
    requires
        call_ensures(Timestamp::since, (&b, &a), r),
        call_ensures(Timestamp::at_or_before, (&a, &b), before),
    ensures
        r is Some <==> before,
        before <==> a.secs * 1_000_000_000 + a.nanos <= b.secs * 1_000_000_000 + b.nanos,
        r matches Some(span) ==> (a.secs * 1_000_000_000 + a.nanos) + span.nanos == b.secs
            * 1_000_000_000 + b.nanos,
{
}

/// A span of whole seconds has those seconds, and no nanoseconds beside them.
pub proof fn seconds_are_counted_back(secs: u64, span: Span, whole: u128, rest: u32, none: bool)
    requires
        call_ensures(Span::from_secs, (secs,), span),
        call_ensures(Span::as_secs, (&span,), whole),
        call_ensures(Span::subsec_nanos, (&span,), rest),
        call_ensures(Span::is_zero, (&span,), none),
    ensures
        span.nanos == secs * 1_000_000_000,
        whole == secs,
        rest == 0,
        none <==> secs == 0,
{
    assert((secs * 1_000_000_000) / 1_000_000_000 == secs);
    assert((secs * 1_000_000_000) % 1_000_000_000 == 0);
}

/// A span is its whole seconds and the nanoseconds beside them, of which there are less than a
/// second.
pub proof fn spans_are_seconds_and_nanoseconds(span: Span, whole: u128, rest: u32)
    requires
        call_ensures(Span::as_secs, (&span,), whole),
        call_ensures(Span::subsec_nanos, (&span,), rest),
    ensures
        span.nanos == whole * 1_000_000_000 + rest,
        rest < 1_000_000_000,
{
}

/// No time is a span of nothing, and the only one.
pub proof fn no_time_is_nothing(zero: Span, span: Span, none: bool)
    requires
        call_ensures(Span::zero, (), zero),
        call_ensures(Span::is_zero, (&span,), none),
    ensures
        zero.nanos == 0,
        none <==> span.nanos == 0,
{
}

/// Of two spans one is the longer, and what is left of one after the other is what it has on it.
pub proof fn spans_are_compared(a: Span, b: Span, longer: Span, left: Span)
    requires
        call_ensures(Span::or_longer, (&a, b), longer),
        call_ensures(Span::less, (&a, b), left),
    ensures
        longer.nanos >= a.nanos && longer.nanos >= b.nanos,
        longer.nanos == a.nanos || longer.nanos == b.nanos,
        a.nanos <= b.nanos ==> left.nanos == 0,
        a.nanos > b.nanos ==> left.nanos + b.nanos == a.nanos,
{
}

} // verus!
