//! Laws on age, lifetime and staleness.
use vstd::prelude::*;

use crate::freshness::varies_by_all;
use crate::headers::has_field;
use crate::policy::PolicyView;
use crate::time::secs_span;

verus! {

/// A response has no time to live exactly when it is stale.
pub proof fn no_time_to_live_means_stale(policy: PolicyView, now: int)
    ensures
        policy.remaining(now) == 0 <==> policy.stale(now),
{
}

/// Age and time to live add up to the lifetime while a response is fresh.
pub proof fn age_and_time_to_live_add_up(policy: PolicyView, now: int)
    requires
        !policy.stale(now),
    ensures
        policy.age(now) + policy.remaining(now) == policy.lifetime(),
{
}

/// After it was received, a response ages as fast as time passes.
pub proof fn age_follows_the_clock(policy: PolicyView, earlier: int, later: int)
    requires
        policy.response_time <= earlier <= later,
    ensures
        policy.age(later) == policy.age(earlier) + (later - earlier),
{
}

/// What is stale stays stale.
pub proof fn stale_stays_stale(policy: PolicyView, earlier: int, later: int)
    requires
        earlier <= later,
        policy.stale(earlier),
    ensures
        policy.stale(later),
{
}

/// A response that says `no-cache` is stale at every time.
pub proof fn no_cache_is_always_stale(policy: PolicyView, now: int)
    requires
        policy.directives matches Some(cc) && cc.no_cache,
    ensures
        policy.stale(now),
        policy.remaining(now) == 0,
{
}

/// A response that varies by everything is stale at every time.
pub proof fn vary_star_is_always_stale(policy: PolicyView, now: int)
    requires
        varies_by_all(policy.fields),
    ensures
        policy.stale(now),
{
}

/// In a shared cache, a response that says `proxy-revalidate` is stale at every time.
pub proof fn proxy_revalidate_is_always_stale_when_shared(policy: PolicyView, now: int)
    requires
        policy.options.shared,
        policy.directives matches Some(cc) && cc.proxy_revalidate,
    ensures
        policy.stale(now),
{
}

/// In a shared cache, a response with cookies that does not say `public` or `immutable` is stale at
/// every time.
pub proof fn cookies_are_not_shared(policy: PolicyView, now: int)
    requires
        policy.options.shared,
        has_field(policy.fields, "set-cookie"@),
        !(policy.directives matches Some(cc) && (cc.public || cc.immutable)),
    ensures
        policy.stale(now),
{
}

/// A stated lifetime decides: where a response that may be fresh states one, `Expires`,
/// `Last-Modified` and `Date` do not matter, nor does the time it was received.
pub proof fn stated_lifetime_decides(policy: PolicyView)
    requires
        !policy.always_stale(),
        policy.stated_lifetime() is Some,
    ensures
        policy.lifetime() == policy.stated_lifetime()->0,
{
}

/// A cache that is not shared goes by `max-age`, whatever `s-maxage` says.
pub proof fn private_cache_ignores_s_maxage(policy: PolicyView)
    requires
        !policy.options.shared,
        !policy.always_stale(),
        policy.directives matches Some(cc) && cc.max_age is Some,
    ensures
        policy.lifetime() == secs_span(policy.directives->0.max_age->0 as nat),
{
}

/// A shared cache goes by `s-maxage` where there is one, whatever `max-age` says.
pub proof fn shared_cache_prefers_s_maxage(policy: PolicyView)
    requires
        policy.options.shared,
        !policy.always_stale(),
        policy.directives matches Some(cc) && cc.s_maxage is Some,
    ensures
        policy.lifetime() == secs_span(policy.directives->0.s_maxage->0 as nat),
{
}

/// A fresh response is never served as a stale one.
pub proof fn fresh_is_not_stale_within(policy: PolicyView, now: int, window: nat)
    requires
        !policy.stale(now),
    ensures
        !policy.stale_within(now, window),
{
}

/// Without a window nothing is served stale.
pub proof fn no_window_no_stale_use(policy: PolicyView, now: int)
    ensures
        !policy.stale_within(now, 0),
{
}

/// `must-revalidate` forbids stale use, whatever the window, and so does `proxy-revalidate` in a
/// shared cache.
pub proof fn must_revalidate_forbids_stale_use(policy: PolicyView, now: int, window: nat)
    requires
        policy.directives matches Some(cc) && (cc.must_revalidate || (policy.options.shared
            && cc.proxy_revalidate)),
    ensures
        !policy.stale_within(now, window),
{
}

/// Once past its window, a response is past it for good.
pub proof fn stale_windows_close(policy: PolicyView, earlier: int, later: int, window: nat)
    requires
        earlier <= later,
        policy.stale(earlier),
        !policy.stale_within(earlier, window),
    ensures
        !policy.stale_within(later, window),
{
}

} // verus!
