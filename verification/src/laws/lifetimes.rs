//! Laws on how long a response is fresh, by what it says.
use vstd::prelude::*;

use crate::dates::{parse_http_date, parsed_http_date};
use crate::freshness::parse_age_value;
use crate::headers::{field_text, line_text};
use crate::laws::lookups::heeded_names_are_in_lower_case;
use crate::policy::{listed_names, CachePolicy, PolicyView};
use crate::text::{number, trim};
use crate::time::{Span, Timestamp};

verus! {

/// Whether something bars a response from being fresh: `no-cache`; in a shared cache
/// `proxy-revalidate`, or cookies without `public` or `immutable`; or a star in its `Vary`.
pub open spec fn barred(policy: PolicyView) -> bool {
    ||| policy.directives is Some && policy.directives->0.no_cache
    ||| policy.options.shared && policy.directives is Some && policy.directives->0.proxy_revalidate
    ||| policy.options.shared && policy.fields.contains_key("set-cookie"@) && (
    policy.directives is None || !(policy.directives->0.public || policy.directives->0.immutable))
    ||| listed_names(policy.fields, "vary"@).contains("*"@)
}

/// Whether the directives of a response give it a lifetime.
pub open spec fn directs_lifetime(policy: PolicyView) -> bool {
    policy.directives is Some && (policy.directives->0.max_age is Some || (policy.options.shared
        && policy.directives->0.s_maxage is Some))
}

/// The seconds since the epoch that the field called `name` gives as its one date.
pub open spec fn date_in(policy: PolicyView, name: Seq<char>) -> Option<i64> {
    match field_text(policy.fields, name) {
        Some(text) => parsed_http_date(text),
        None => None,
    }
}

/// What is barred from being fresh has no lifetime.
pub proof fn barred_responses_have_no_lifetime(policy: &CachePolicy, r: Span)
    requires
        call_ensures(CachePolicy::max_age, (policy,), r),
        barred(policy@),
    ensures
        r.nanos == 0,
{
    heeded_names_are_in_lower_case();
}

/// A shared cache goes by `s-maxage`, in seconds.
pub proof fn shared_lifetimes_are_directed(policy: &CachePolicy, r: Span)
    requires
        call_ensures(CachePolicy::max_age, (policy,), r),
        !barred(policy@),
        policy@.options.shared,
        policy@.directives is Some,
        policy@.directives->0.s_maxage is Some,
    ensures
        r.nanos == policy@.directives->0.s_maxage->0 * 1_000_000_000,
{
    heeded_names_are_in_lower_case();
}

/// Otherwise `max-age` decides, in seconds, whatever else the response has to say of its lifetime.
pub proof fn lifetimes_are_directed(policy: &CachePolicy, r: Span)
    requires
        call_ensures(CachePolicy::max_age, (policy,), r),
        !barred(policy@),
        policy@.directives is Some,
        !policy@.options.shared || policy@.directives->0.s_maxage is None,
        policy@.directives->0.max_age is Some,
    ensures
        r.nanos == policy@.directives->0.max_age->0 * 1_000_000_000,
{
    heeded_names_are_in_lower_case();
}

/// Without a directive, and unless a targeted field speaks for the response, the lifetime is the
/// time from its `Date` to its `Expires`; where `Expires` comes first it is none. When the response
/// was received does not matter.
pub proof fn expires_counts_from_the_date(policy: &CachePolicy, r: Span)
    requires
        call_ensures(CachePolicy::max_age, (policy,), r),
        !barred(policy@),
        !directs_lifetime(policy@),
        !policy@.targeted,
        date_in(policy@, "expires"@) is Some,
        date_in(policy@, "date"@) is Some,
    ensures
        ({
            let secs = date_in(policy@, "expires"@)->0 - date_in(policy@, "date"@)->0;
            r.nanos == if secs > 0 {
                secs * 1_000_000_000
            } else {
                0
            }
        }),
{
    heeded_names_are_in_lower_case();
}

/// Where the response has no date of its own, `Expires` counts from when it was received.
pub proof fn expires_counts_from_receipt_without_a_date(policy: &CachePolicy, r: Span)
    requires
        call_ensures(CachePolicy::max_age, (policy,), r),
        !barred(policy@),
        !directs_lifetime(policy@),
        !policy@.targeted,
        date_in(policy@, "expires"@) is Some,
        date_in(policy@, "date"@) is None,
    ensures
        ({
            let nanos = date_in(policy@, "expires"@)->0 * 1_000_000_000 - policy@.response_time;
            r.nanos == if nanos > 0 {
                nanos
            } else {
                0
            }
        }),
{
    heeded_names_are_in_lower_case();
}

/// Two responses with the same fields and directives have the same lifetime where they have a date,
/// whatever they answered and whenever they were received.
pub proof fn dated_lifetimes_do_not_depend_on_receipt(
    a: &CachePolicy,
    b: &CachePolicy,
    x: Span,
    y: Span,
)
    requires
        call_ensures(CachePolicy::max_age, (a,), x),
        call_ensures(CachePolicy::max_age, (b,), y),
        a@.fields == b@.fields,
        a@.directives == b@.directives,
        a@.targeted == b@.targeted,
        a@.options == b@.options,
        date_in(a@, "date"@) is Some,
    ensures
        x.nanos == y.nanos,
{
}

/// An `Expires` that is not one date means that the response has expired.
pub proof fn what_is_no_date_has_expired(policy: &CachePolicy, r: Span)
    requires
        call_ensures(CachePolicy::max_age, (policy,), r),
        !directs_lifetime(policy@),
        !policy@.targeted,
        policy@.fields.contains_key("expires"@),
        date_in(policy@, "expires"@) is None,
    ensures
        r.nanos == 0,
{
    heeded_names_are_in_lower_case();
}

/// The lifetime that an immutable response has where nothing else gives it one; none for others.
pub open spec fn immutable_lifetime(policy: PolicyView) -> nat {
    if policy.directives is Some && policy.directives->0.immutable {
        policy.options.immutable_min_time_to_live.nanos as nat
    } else {
        0
    }
}

/// Where neither a directive nor `Expires` gives a lifetime, it is the configured part of the whole
/// seconds from `Last-Modified` to `Date`, or the one for immutable responses if that is longer.
pub proof fn lifetimes_follow_the_last_change(policy: &CachePolicy, r: Span)
    requires
        call_ensures(CachePolicy::max_age, (policy,), r),
        !barred(policy@),
        !directs_lifetime(policy@),
        policy@.targeted || !policy@.fields.contains_key("expires"@),
        date_in(policy@, "date"@) is Some,
        date_in(policy@, "last-modified"@) is Some,
        date_in(policy@, "last-modified"@)->0 <= date_in(policy@, "date"@)->0,
    ensures
        ({
            let secs = date_in(policy@, "date"@)->0 - date_in(policy@, "last-modified"@)->0;
            let part = policy@.options.cache_heuristic.scaled(secs as nat) * 1_000_000_000;
            r.nanos == if part >= immutable_lifetime(policy@) {
                part
            } else {
                immutable_lifetime(policy@) as int
            }
        }),
{
    heeded_names_are_in_lower_case();
    let secs = date_in(policy@, "date"@)->0 - date_in(policy@, "last-modified"@)->0;
    assert((secs * 1_000_000_000) / 1_000_000_000 == secs);
}

/// The same without a date, from when the response was received.
pub proof fn lifetimes_follow_the_last_change_until_receipt(policy: &CachePolicy, r: Span)
    requires
        call_ensures(CachePolicy::max_age, (policy,), r),
        !barred(policy@),
        !directs_lifetime(policy@),
        policy@.targeted || !policy@.fields.contains_key("expires"@),
        date_in(policy@, "date"@) is None,
        date_in(policy@, "last-modified"@) is Some,
        date_in(policy@, "last-modified"@)->0 * 1_000_000_000 <= policy@.response_time,
    ensures
        ({
            let nanos = policy@.response_time - date_in(policy@, "last-modified"@)->0
                * 1_000_000_000;
            let part = policy@.options.cache_heuristic.scaled((nanos / 1_000_000_000) as nat)
                * 1_000_000_000;
            r.nanos == if part >= immutable_lifetime(policy@) {
                part
            } else {
                immutable_lifetime(policy@) as int
            }
        }),
{
    heeded_names_are_in_lower_case();
}

/// A response that gives nothing to go by is stale at once, unless it is immutable.
pub proof fn nothing_to_go_by_means_no_lifetime(policy: &CachePolicy, r: Span)
    requires
        call_ensures(CachePolicy::max_age, (policy,), r),
        !barred(policy@),
        !directs_lifetime(policy@),
        policy@.targeted || !policy@.fields.contains_key("expires"@),
        date_in(policy@, "last-modified"@) is None || (match date_in(policy@, "date"@) {
            Some(secs) => secs < date_in(policy@, "last-modified"@)->0,
            None => policy@.response_time < date_in(policy@, "last-modified"@)->0 * 1_000_000_000,
        }),
    ensures
        r.nanos == immutable_lifetime(policy@),
{
    heeded_names_are_in_lower_case();
}

/// The nanoseconds since a response was received.
pub open spec fn resident(policy: PolicyView, now: Timestamp) -> int {
    if now@ >= policy.response_time {
        now@ - policy.response_time
    } else {
        0
    }
}

/// Without an `Age` a response is as old as the time since it was received.
pub proof fn age_counts_from_receipt(policy: &CachePolicy, now: Timestamp, r: Span)
    requires
        call_ensures(CachePolicy::age, (policy, now), r),
        !policy@.fields.contains_key("age"@),
    ensures
        r.nanos == resident(policy@, now),
{
    heeded_names_are_in_lower_case();
}

/// What the first line of `Age` states comes on top, in seconds; further lines do not matter, nor
/// does a line that states none.
pub proof fn stated_ages_come_on_top(
    policy: &CachePolicy,
    now: Timestamp,
    r: Span,
    line: &str,
    stated: Option<u64>,
)
    requires
        call_ensures(CachePolicy::age, (policy, now), r),
        call_ensures(parse_age_value, (line,), stated),
        policy@.fields.contains_key("age"@),
        policy@.fields["age"@].len() > 0,
        line_text(policy@.fields["age"@][0]) == Some(line@),
    ensures
        r.nanos == resident(policy@, now) + match stated {
            Some(secs) => secs * 1_000_000_000,
            None => 0,
        },
{
    heeded_names_are_in_lower_case();
}

/// An `Age` whose first line is no text states nothing.
pub proof fn unreadable_ages_state_nothing(policy: &CachePolicy, now: Timestamp, r: Span)
    requires
        call_ensures(CachePolicy::age, (policy, now), r),
        policy@.fields.contains_key("age"@),
        policy@.fields["age"@].len() == 0 || line_text(policy@.fields["age"@][0]) is None,
    ensures
        r.nanos == resident(policy@, now),
{
    heeded_names_are_in_lower_case();
}

/// Whether a text has neither a semicolon nor a comma.
pub open spec fn separator_free(s: Seq<char>) -> bool {
    forall|i: int| 0 <= i < s.len() ==> #[trigger] s[i] != ';' && s[i] != ','
}

proof fn lemma_before_separator(a: Seq<char>, rest: Seq<char>)
    requires
        separator_free(a),
        rest.len() == 0 || rest[0] == ';' || rest[0] == ',',
    ensures
        crate::freshness::before_separator(a + rest) == a,
    decreases a.len(),
{
    let s = a + rest;
    lemma_first_index_behind(a, rest, ';');
    lemma_first_index_behind(a, rest, ',');
    assert(s.take(a.len() as int) =~= a);
}

proof fn lemma_first_index_behind(a: Seq<char>, rest: Seq<char>, sep: char)
    requires
        forall|i: int| 0 <= i < a.len() ==> a[i] != sep,
    ensures
        crate::text::first_index(a + rest, sep) >= a.len(),
        rest.len() == 0 || rest[0] == sep ==> crate::text::first_index(a + rest, sep) == a.len(),
    decreases a.len(),
{
    let s = a + rest;
    if a.len() > 0 {
        assert(s.skip(1) =~= a.skip(1) + rest);
        assert forall|i: int| 0 <= i < a.skip(1).len() implies a.skip(1)[i] != sep by {
            assert(a.skip(1)[i] == a[i + 1]);
        }
        lemma_first_index_behind(a.skip(1), rest, sep);
    } else {
        assert(s =~= rest);
    }
}

/// An age is stated by a number, about which there may be white space, and before a semicolon or a
/// comma; what follows those does not matter.
pub proof fn ages_are_stated_by_numbers(
    line: &str,
    front: Seq<char>,
    rest: Seq<char>,
    r: Option<u64>,
)
    requires
        call_ensures(parse_age_value, (line,), r),
        line@ == front + rest,
        separator_free(front),
        rest.len() == 0 || rest[0] == ';' || rest[0] == ',',
    ensures
        r == number(trim(front)),
{
    lemma_before_separator(front, rest);
}

/// A response is stale exactly where its age has reached its lifetime, and its time to live is what
/// its lifetime has on its age.
pub proof fn staleness_is_age_against_lifetime(
    policy: &CachePolicy,
    now: Timestamp,
    lifetime: Span,
    age: Span,
    stale: bool,
    left: Span,
)
    requires
        call_ensures(CachePolicy::max_age, (policy,), lifetime),
        call_ensures(CachePolicy::age, (policy, now), age),
        call_ensures(CachePolicy::is_stale, (policy, now), stale),
        call_ensures(CachePolicy::time_to_live, (policy, now), left),
    ensures
        stale == (age.nanos >= lifetime.nanos),
        left.nanos == if stale {
            0
        } else {
            lifetime.nanos - age.nanos
        },
{
}

/// Whether a response forbids to be used stale: by `must-revalidate` or, in a shared cache, by
/// `proxy-revalidate`.
pub open spec fn forbids_staleness(policy: PolicyView) -> bool {
    policy.directives is Some && (policy.directives->0.must_revalidate || (policy.options.shared
        && policy.directives->0.proxy_revalidate))
}

/// A stale response may be served while it is revalidated exactly where it has been stale for less
/// than its `stale-while-revalidate` seconds, and neither forbids that nor says `no-cache`.
pub proof fn revalidation_windows_are_in_seconds(
    policy: &CachePolicy,
    now: Timestamp,
    lifetime: Span,
    age: Span,
    r: bool,
)
    requires
        call_ensures(CachePolicy::max_age, (policy,), lifetime),
        call_ensures(CachePolicy::age, (policy, now), age),
        call_ensures(CachePolicy::is_swr_eligible, (policy, now), r),
    ensures
        r <==> {
            &&& policy@.directives is Some
            &&& policy@.directives->0.stale_while_revalidate is Some
            &&& lifetime.nanos <= age.nanos
            &&& age.nanos - lifetime.nanos
                < policy@.directives->0.stale_while_revalidate->0 * 1_000_000_000
            &&& !forbids_staleness(policy@)
            &&& !policy@.directives->0.no_cache
        },
{
}

/// A stale response may be served when the origin fails exactly where it has been stale for less
/// than its `stale-if-error` seconds, and does not forbid that.
pub proof fn error_windows_are_in_seconds(
    policy: &CachePolicy,
    now: Timestamp,
    lifetime: Span,
    age: Span,
    r: bool,
)
    requires
        call_ensures(CachePolicy::max_age, (policy,), lifetime),
        call_ensures(CachePolicy::age, (policy, now), age),
        call_ensures(CachePolicy::is_sie_eligible, (policy, now), r),
    ensures
        r <==> {
            &&& policy@.directives is Some
            &&& policy@.directives->0.stale_if_error is Some
            &&& lifetime.nanos <= age.nanos
            &&& age.nanos - lifetime.nanos < policy@.directives->0.stale_if_error->0
                * 1_000_000_000
            &&& !forbids_staleness(policy@)
        },
{
}

/// The windows in which a stale response may be used are those that its directives state, in
/// seconds; without a directive there is none.
pub proof fn windows_are_stated_in_seconds(policy: &CachePolicy, a: Span, b: Span)
    requires
        call_ensures(CachePolicy::stale_while_revalidate_window, (policy,), a),
        call_ensures(CachePolicy::stale_if_error_window, (policy,), b),
    ensures
        policy@.directives is None ==> a.nanos == 0 && b.nanos == 0,
        policy@.directives matches Some(cc) ==> {
            &&& cc.stale_while_revalidate is None ==> a.nanos == 0
            &&& cc.stale_while_revalidate matches Some(secs) ==> a.nanos == secs * 1_000_000_000
            &&& cc.stale_if_error is None ==> b.nanos == 0
            &&& cc.stale_if_error matches Some(secs) ==> b.nanos == secs * 1_000_000_000
        },
{
}

/// A stale response may be used within a window exactly where it has been stale for less than the
/// window, and does not forbid that.
pub proof fn windows_begin_with_staleness(
    policy: &CachePolicy,
    now: Timestamp,
    window: Span,
    lifetime: Span,
    age: Span,
    r: bool,
)
    requires
        call_ensures(CachePolicy::max_age, (policy,), lifetime),
        call_ensures(CachePolicy::age, (policy, now), age),
        call_ensures(CachePolicy::is_eligible_for_stale_serving, (policy, now, window), r),
    ensures
        r <==> {
            &&& lifetime.nanos <= age.nanos
            &&& age.nanos - lifetime.nanos < window.nanos
            &&& !forbids_staleness(policy@)
        },
{
}

/// What requires revalidation on every use, and what is never fresh.
pub proof fn what_is_never_fresh(policy: &CachePolicy, revalidated: bool, stale: bool)
    requires
        call_ensures(CachePolicy::is_always_revalidated, (policy,), revalidated),
        call_ensures(CachePolicy::is_always_stale, (policy,), stale),
    ensures
        revalidated <==> policy@.directives is Some && (policy@.directives->0.no_cache || (
        policy@.options.shared && policy@.directives->0.proxy_revalidate)),
        stale <==> barred(policy@),
{
    heeded_names_are_in_lower_case();
}

/// A response is dated by its `Date` or, without one date there, by when it was received.
pub proof fn responses_are_dated(policy: &CachePolicy, r: Timestamp)
    requires
        call_ensures(CachePolicy::raw_server_date, (policy,), r),
    ensures
        r@ == match date_in(policy@, "date"@) {
            Some(secs) => secs * 1_000_000_000,
            None => policy@.response_time,
        },
{
}

/// An HTTP date is a time on a whole second.
pub proof fn dates_are_on_whole_seconds(text: &str, r: Option<Timestamp>)
    requires
        call_ensures(parse_http_date, (text,), r),
    ensures
        r is Some <==> parsed_http_date(text@) is Some,
        r matches Some(time) ==> time.secs * 1_000_000_000 + time.nanos == parsed_http_date(
            text@,
        )->0 * 1_000_000_000,
{
}

} // verus!
