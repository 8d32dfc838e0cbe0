//! Freshness: how old a stored response is, and for how long it may be reused.
use trillium_http::Headers;
use vstd::prelude::*;
use vstd::string::*;

use crate::dates::{http_date, parse_http_date};
use crate::headers::{
    field, field_text, fields_of, get_str, get_values, has_field, has_header, line_text,
    line_texts, lines_of, text_view, Fields,
};
use crate::policy::{field_names, listed_names, CachePolicy, PolicyView};
use crate::text::{
    chars_of, find_char, first_index, number, parse_number, same_text, trim, trimmed, views,
};
use crate::time::{elapsed, secs_span, Span, Timestamp, NANOS_PER_SEC};

verus! {

/// The part of `raw` before its first `;` or `,`.
pub open spec fn before_separator(raw: Seq<char>) -> Seq<char> {
    let semicolon = first_index(raw, ';') as int;
    let comma = first_index(raw, ',') as int;
    raw.take(if semicolon <= comma {
        semicolon
    } else {
        comma
    })
}

/// The number of seconds that an `Age` line states. What follows a `;` or `,` is not heeded.
pub open spec fn age_value(raw: Seq<char>) -> Option<u64> {
    number(trim(before_separator(raw)))
}

/// The seconds that the first `Age` line states, or zero.
pub open spec fn age_secs(fields: Fields) -> u64 {
    match field(fields, "age"@) {
        Some(lines) => if lines.len() > 0 {
            match line_text(lines[0]) {
                Some(raw) => match age_value(raw) {
                    Some(secs) => secs,
                    None => 0,
                },
                None => 0,
            }
        } else {
            0
        },
        None => 0,
    }
}

/// Whether a response varies by more than its request can tell: its `Vary` lists `*`, on any line.
pub open spec fn varies_by_all(fields: Fields) -> bool {
    listed_names(fields, "vary"@).contains("*"@)
}

/// The longer of two spans.
pub open spec fn longer(a: nat, b: nat) -> nat {
    if a >= b {
        a
    } else {
        b
    }
}

impl PolicyView {
    pub open spec fn shared(self) -> bool {
        self.options.shared
    }

    /// How long the response has been in caches: its `Age` when it came, and the time since.
    pub open spec fn age(self, now: int) -> nat {
        secs_span(age_secs(self.fields) as nat) + elapsed(now, self.response_time)
    }

    /// When the origin sent the response: its `Date` or, without a usable one, when it was
    /// received.
    pub open spec fn server_date(self) -> int {
        match field_text(self.fields, "date"@) {
            Some(text) => match http_date(text) {
                Some(time) => time,
                None => self.response_time,
            },
            None => self.response_time,
        }
    }

    /// Whether the response requires revalidation on every use.
    pub open spec fn always_revalidated(self) -> bool {
        self.directives matches Some(cc) && (cc.no_cache || (self.shared() && cc.proxy_revalidate))
    }

    /// Whether the response is never fresh.
    pub open spec fn always_stale(self) -> bool {
        ||| self.always_revalidated()
        ||| self.shared() && has_field(self.fields, "set-cookie"@) && !(self.directives matches Some(
            cc,
        ) && (cc.public || cc.immutable))
        ||| varies_by_all(self.fields)
    }

    /// The lifetime that the directives state.
    pub open spec fn stated_lifetime(self) -> Option<nat> {
        match self.directives {
            Some(cc) => match (cc.s_maxage, cc.max_age) {
                (Some(secs), _) if self.shared() => Some(secs_span(secs as nat)),
                (_, Some(secs)) => Some(secs_span(secs as nat)),
                _ => None,
            },
            None => None,
        }
    }

    /// The least lifetime of a response that states no expiration: an immutable one has one.
    pub open spec fn least_lifetime(self) -> nat {
        if self.directives matches Some(cc) && cc.immutable {
            self.options.immutable_min_time_to_live@
        } else {
            0
        }
    }

    /// The lifetime by heuristic: the configured ratio of the time from `Last-Modified` to the
    /// date of the response.
    pub open spec fn heuristic_lifetime(self) -> nat {
        match field_text(self.fields, "last-modified"@) {
            Some(text) => match http_date(text) {
                Some(time) if self.server_date() >= time => secs_span(
                    self.options.cache_heuristic.scaled(
                        (elapsed(self.server_date(), time) / NANOS_PER_SEC as nat),
                    ) as nat,
                ),
                _ => 0,
            },
            None => 0,
        }
    }

    /// The freshness lifetime: for how long after the origin sent it the response is fresh.
    pub open spec fn lifetime(self) -> nat {
        if self.always_stale() {
            0
        } else if self.stated_lifetime() is Some {
            self.stated_lifetime()->0
        } else if has_field(self.fields, "expires"@) && !self.targeted {
            // An `Expires` that is not one date means that the response has expired.
            match field_text(self.fields, "expires"@) {
                Some(text) => match http_date(text) {
                    Some(time) => elapsed(time, self.server_date()),
                    None => 0,
                },
                None => 0,
            }
        } else {
            longer(self.least_lifetime(), self.heuristic_lifetime())
        }
    }

    /// Whether the response is past its freshness lifetime.
    pub open spec fn stale(self, now: int) -> bool {
        self.lifetime() <= self.age(now)
    }

    /// For how long the response is fresh yet.
    pub open spec fn remaining(self, now: int) -> nat {
        elapsed(self.lifetime() as int, self.age(now) as int)
    }

    /// Whether the response forbids every stale use.
    pub open spec fn forbids_stale(self) -> bool {
        self.directives matches Some(cc) && (cc.must_revalidate || (self.shared()
            && cc.proxy_revalidate))
    }

    /// Whether the response is stale, but by less than `window`, and may be used so.
    pub open spec fn stale_within(self, now: int, window: nat) -> bool {
        &&& self.stale(now)
        &&& !self.forbids_stale()
        &&& self.age(now) - self.lifetime() < window
    }

    /// How long past its lifetime the response may be used while it is revalidated.
    pub open spec fn revalidate_window(self) -> nat {
        match self.directives {
            Some(cc) => match cc.stale_while_revalidate {
                Some(secs) => secs_span(secs as nat),
                None => 0,
            },
            None => 0,
        }
    }

    /// Whether the response may be used, stale, while it is revalidated in the background.
    pub open spec fn background_use(self, now: int) -> bool {
        !self.always_revalidated() && self.stale_within(now, self.revalidate_window())
    }

    /// How long past its lifetime the response may be used when the origin fails.
    pub open spec fn error_window(self) -> nat {
        match self.directives {
            Some(cc) => match cc.stale_if_error {
                Some(secs) => secs_span(secs as nat),
                None => 0,
            },
            None => 0,
        }
    }
}

/// The number of seconds that an `Age` line states.
pub fn parse_age_value(raw: &str) -> (r: Option<u64>)
    ensures
        r == age_value(raw@),
{
    let chars = chars_of(raw);
    let semicolon: usize = find_char(&chars, ';');
    let comma: usize = find_char(&chars, ',');
    let end: usize = if semicolon <= comma {
        semicolon
    } else {
        comma
    };
    let value = raw.substring_char(0, end);
    assert(value@ =~= before_separator(raw@));
    parse_number(trimmed(value))
}

fn age_header_secs(headers: &Headers) -> (r: u64)
    ensures
        r == age_secs(fields_of(*headers)),
{
    let values = match get_values(headers, "age") {
        Some(values) => values,
        None => return 0,
    };
    let lines = line_texts(values);
    if lines.len() == 0 {
        return 0;
    }
    assert(text_view(lines@[0]) == line_text(lines_of(*values)[0]));
    match lines[0] {
        Some(raw) => match parse_age_value(raw) {
            Some(secs) => secs,
            None => 0,
        },
        None => 0,
    }
}

fn lists_star(headers: &Headers) -> (r: bool)
    ensures
        r == varies_by_all(fields_of(*headers)),
{
    let names = field_names(headers, "vary");
    let ghost all = listed_names(fields_of(*headers), "vary"@);
    let mut i: usize = 0;
    while i < names.len()
        invariant
            i <= names.len(),
            all == listed_names(fields_of(*headers), "vary"@),
            all == views(names@),
            forall|k: int| 0 <= k < i ==> (#[trigger] all[k]) != "*"@,
        decreases names.len() - i,
    {
        assert(all[i as int] == names@[i as int]@);
        if same_text(names[i], "*") {
            return true;
        }
        i += 1;
    }
    false
}

fn window_span(secs: Option<u64>) -> (r: Span)
    ensures
        r@ == match secs {
            Some(n) => secs_span(n as nat),
            None => 0,
        },
{
    match secs {
        Some(n) => Span::from_secs(n),
        None => Span::zero(),
    }
}

impl CachePolicy {
    /// How long the response has been in the cache system: its `Age` header when it came, plus
    /// the time that it has been kept here.
    pub fn age(&self, now: Timestamp) -> (r: Span)
        ensures
            r@ == self@.age(now@),
    {
        let stated: Span = Span::from_secs(age_header_secs(self.response_headers()));
        match now.since(&self.response_time()) {
            Some(resident) => {
                assert(resident.nanos <= 0x4000_0000_0000_0000_0000_0000);
                Span { nanos: stated.nanos + resident.nanos }
            },
            None => stated,
        }
    }

    /// For how long the response is fresh yet: zero once it is stale.
    pub fn time_to_live(&self, now: Timestamp) -> (r: Span)
        ensures
            r@ == self@.remaining(now@),
    {
        self.max_age().less(self.age(now))
    }

    /// Whether the response is past its freshness lifetime.
    pub fn is_stale(&self, now: Timestamp) -> (r: bool)
        ensures
            r == self@.stale(now@),
    {
        self.max_age().nanos <= self.age(now).nanos
    }

    /// Whether the response requires revalidation on every use: it says `no-cache` or, in a shared
    /// cache, `proxy-revalidate`.
    pub fn is_always_revalidated(&self) -> (r: bool)
        ensures
            r == self@.always_revalidated(),
    {
        match self.response_cache_control() {
            Some(cc) => cc.no_cache || (self.options().shared && cc.proxy_revalidate),
            None => false,
        }
    }

    /// Whether the response is never fresh.
    pub fn is_always_stale(&self) -> (r: bool)
        ensures
            r == self@.always_stale(),
    {
        let headers = self.response_headers();
        let shared: bool = self.options().shared;
        let cc = self.response_cache_control();

        if self.is_always_revalidated() {
            return true;
        }
        // In a shared cache, a response with cookies is fresh only where it says so itself.
        let opted_in: bool = match cc {
            Some(cc) => cc.public || cc.immutable,
            None => false,
        };
        if shared && has_header(headers, "set-cookie") && !opted_in {
            return true;
        }
        // `Vary: *` matches no later request.
        lists_star(headers)
    }

    /// The freshness lifetime, from the origin's `Date` on. Zero stands for a response that is
    /// stale from the start.
    pub fn max_age(&self) -> (r: Span)
        ensures
            r@ == self@.lifetime(),
    {
        let headers = self.response_headers();
        let options = self.options();
        let shared: bool = options.shared;
        let cc = self.response_cache_control();

        if self.is_always_stale() {
            return Span::zero();
        }
        let mut least: Span = Span::zero();
        if let Some(cc) = cc {
            if shared {
                // A shared cache prefers `s-maxage`; others ignore it.
                if let Some(secs) = cc.s_maxage {
                    return Span::from_secs(secs);
                }
            }
            if let Some(secs) = cc.max_age {
                return Span::from_secs(secs);
            }
            if cc.immutable {
                least = options.immutable_min_time_to_live;
            }
        }
        let server_date: Timestamp = self.raw_server_date();

        // A targeted field displaces `Expires`.
        if !self.targeted_cc_in_effect() && has_header(headers, "expires") {
            let date = match get_str(headers, "expires") {
                Some(text) => parse_http_date(text),
                None => None,
            };
            return match date {
                Some(expires) => match expires.since(&server_date) {
                    Some(span) => span,
                    None => Span::zero(),
                },
                None => Span::zero(),
            };
        }
        if let Some(text) = get_str(headers, "last-modified") {
            if let Some(last_modified) = parse_http_date(text) {
                if let Some(span) = server_date.since(&last_modified) {
                    let secs: u128 = span.as_secs();
                    assert(secs < 0x2_0000_0000_0000_0000) by {
                        assert(span.nanos <= 0x4000_0000_0000_0000_0000_0000);
                        assert(0x4000_0000_0000_0000_0000_0000nat / 1_000_000_000
                            < 0x2_0000_0000_0000_0000);
                    }
                    let lifetime: u64 = options.cache_heuristic.scale_secs(secs);
                    return least.or_longer(Span::from_secs(lifetime));
                }
            }
        }
        least
    }

    /// The origin's `Date`, or when the response was received where `Date` is missing or
    /// malformed.
    pub fn raw_server_date(&self) -> (r: Timestamp)
        ensures
            r@ == self@.server_date(),
    {
        match get_str(self.response_headers(), "date") {
            Some(text) => match parse_http_date(text) {
                Some(time) => time,
                None => self.response_time(),
            },
            None => self.response_time(),
        }
    }

    /// The window past the lifetime in which the response may be served while it is revalidated
    /// in the background.
    pub fn stale_while_revalidate_window(&self) -> (r: Span)
        ensures
            r@ == self@.revalidate_window(),
    {
        match self.response_cache_control() {
            Some(cc) => window_span(cc.stale_while_revalidate),
            None => Span::zero(),
        }
    }

    /// The window past the lifetime in which the response may be served when revalidation fails.
    pub fn stale_if_error_window(&self) -> (r: Span)
        ensures
            r@ == self@.error_window(),
    {
        match self.response_cache_control() {
            Some(cc) => window_span(cc.stale_if_error),
            None => Span::zero(),
        }
    }

    /// Whether the response may be served at once, stale, while it is revalidated in the
    /// background. One that requires revalidation on every use may not.
    pub fn is_swr_eligible(&self, now: Timestamp) -> (r: bool)
        ensures
            r == self@.background_use(now@),
    {
        !self.is_always_revalidated() && self.is_eligible_for_stale_serving(
            now,
            self.stale_while_revalidate_window(),
        )
    }

    /// Whether the response may be served, stale, when the origin fails.
    pub fn is_sie_eligible(&self, now: Timestamp) -> (r: bool)
        ensures
            r == self@.stale_within(now@, self@.error_window()),
    {
        self.is_eligible_for_stale_serving(now, self.stale_if_error_window())
    }

    /// Whether the response is stale by less than `window` and does not forbid stale use.
    pub fn is_eligible_for_stale_serving(&self, now: Timestamp, window: Span) -> (r: bool)
        ensures
            r == self@.stale_within(now@, window@),
    {
        if !self.is_stale(now) || window.is_zero() {
            return false;
        }
        if let Some(cc) = self.response_cache_control() {
            if cc.must_revalidate || (self.options().shared && cc.proxy_revalidate) {
                return false;
            }
        }
        let staleness: Span = self.age(now).less(self.max_age());
        staleness.nanos < window.nanos
    }
}

} // verus!
