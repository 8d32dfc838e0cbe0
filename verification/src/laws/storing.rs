//! Laws on what is stored.
use trillium_http::Headers;
use vstd::prelude::*;

use crate::directives::{
    directives_in, effective_directives, effective_response_cache_control, CacheControl,
};
use crate::engine::{Reply, RequestState, ResponsePlan};
use crate::headers::{fields_of, has_field, Fields};
use crate::http::{Method, Status};
use crate::laws::lookups::heeded_names_are_in_lower_case;
use crate::options::CacheOptions;
use crate::policy::CachePolicy;
use crate::storability::{
    cacheable_by_default, is_cacheable_by_default, response_has_explicit_expiration, storable,
};

verus! {

/// Nothing of an exchange is stored where the request or the response says `no-store`.
pub proof fn no_store_is_heeded(
    method: Method,
    request: Fields,
    status: Status,
    response: Fields,
    shared: bool,
)
    requires
        (directives_in(request, "cache-control"@) matches Some(cc) && cc.no_store) || (
        effective_directives(response, shared) matches Some(cc) && cc.no_store),
    ensures
        !storable(method, request, status, response, shared),
{
}

/// A shared cache stores no `private` response.
pub proof fn private_is_not_shared(
    method: Method,
    request: Fields,
    status: Status,
    response: Fields,
)
    requires
        effective_directives(response, true) matches Some(cc) && cc.private,
    ensures
        !storable(method, request, status, response, true),
{
}

/// A shared cache stores the response to an authorized request only where the response says
/// `public`, `must-revalidate` or `s-maxage`.
pub proof fn authorized_responses_opt_in(
    method: Method,
    request: Fields,
    status: Status,
    response: Fields,
)
    requires
        has_field(request, "authorization"@),
        storable(method, request, status, response, true),
    ensures
        effective_directives(response, true) matches Some(cc) && (cc.public || cc.must_revalidate
            || cc.s_maxage is Some),
{
}

/// Only responses to `GET`, `HEAD` and `POST` are stored.
pub proof fn only_some_methods_are_stored(
    method: Method,
    request: Fields,
    status: Status,
    response: Fields,
    shared: bool,
)
    requires
        storable(method, request, status, response, shared),
    ensures
        method == Method::Get || method == Method::Head || method == Method::Post,
{
}

/// A response whose status is not cacheable by default is stored only where it states its lifetime
/// or is `public`.
pub proof fn other_statuses_state_their_lifetime(
    method: Method,
    request: Fields,
    status: Status,
    response: Fields,
    shared: bool,
)
    requires
        !cacheable_by_default(status),
        storable(method, request, status, response, shared),
    ensures
        has_field(response, "expires"@) || (effective_directives(response, shared) matches Some(cc)
            && (cc.max_age is Some || cc.public || (shared && cc.s_maxage is Some))),
{
}

/// A response to `GET` without any header is stored exactly where its status is cacheable by
/// default.
pub proof fn bare_responses_go_by_status(
    request: Fields,
    status: Status,
    response: Fields,
    shared: bool,
)
    requires
        request == crate::headers::no_fields(),
        response == crate::headers::no_fields(),
    ensures
        storable(Method::Get, request, status, response, shared) <==> cacheable_by_default(status),
{
}

/// What a handler stores was storable, and what it stores it under is made of that exchange.
pub proof fn only_storable_responses_are_stored(
    plan: ResponsePlan,
    state: RequestState<'_>,
    reply: Reply<'_>,
    now: int,
    options: CacheOptions,
    max: u64,
)
    requires
        plan.fits(state, reply, now, options, max),
        plan is Store,
    ensures
        reply.status is Some,
        storable(
            reply.method,
            fields_of(*reply.request_headers),
            reply.status->0,
            fields_of(*reply.response_headers),
            options.shared,
        ),
        plan->Store_policy@.options == options,
        plan->Store_policy@.response_time == now,
{
}

/// Whether a status may be reused without explicit expiration.
pub open spec fn needs_no_expiration(code: u16) -> bool {
    ||| code == 200 || code == 203 || code == 204 || code == 206
    ||| code == 300 || code == 301 || code == 308
    ||| code == 404 || code == 405 || code == 410 || code == 414
    ||| code == 501
}

/// A response may be stored exactly where
/// - it answers `GET` or `HEAD`, or `POST` and has an explicit expiration;
/// - neither side says `no-store`;
/// - for a shared cache it is not `private` and, where the request was authorized, says `public`,
///   `must-revalidate` or `s-maxage`;
/// - and it has an explicit expiration, is `public`, or has a status that needs neither.
///
/// An explicit expiration is a `max-age`, an `s-maxage` in a shared cache, or an `Expires` unless a
/// targeted field speaks for the response.
pub proof fn what_may_be_stored(
    method: Method,
    request: &Headers,
    status: Status,
    response: &Headers,
    options: &CacheOptions,
    r: bool,
    asked: Option<CacheControl>,
    spoken: (Option<CacheControl>, bool),
)
    requires
        call_ensures(CachePolicy::is_storable, (method, request, status, response, options), r),
        asked == directives_in(fields_of(*request), "cache-control"@),
        call_ensures(effective_response_cache_control, (response, options), spoken),
    ensures
        ({
            let own = spoken.0;
            let shared = options.shared;
            let explicit = (own is Some && own->0.max_age is Some) || (shared && own is Some
                && own->0.s_maxage is Some) || (!spoken.1 && fields_of(*response).contains_key(
                "expires"@,
            ));
            let handled = method == Method::Get || method == Method::Head || (method == Method::Post
                && explicit);
            let refused = (asked is Some && asked->0.no_store) || (own is Some && own->0.no_store)
                || (shared && own is Some && own->0.private);
            let authorized = fields_of(*request).contains_key("authorization"@);
            let permitted = own is Some && (own->0.public || own->0.must_revalidate
                || own->0.s_maxage is Some);
            let lasting = explicit || (own is Some && own->0.public) || needs_no_expiration(
                status.code,
            );
            r <==> handled && !refused && (shared && authorized ==> permitted) && lasting
        }),
{
    heeded_names_are_in_lower_case();
}

/// The statuses that need no explicit expiration are twelve.
pub proof fn some_statuses_need_no_expiration(status: Status, r: bool)
    requires
        call_ensures(is_cacheable_by_default, (status,), r),
    ensures
        r == needs_no_expiration(status.code),
{
}

/// A response has an explicit expiration where its directives state a `max-age`, or to a shared
/// cache an `s-maxage`, and where it has an `Expires`, unless a targeted field speaks for it.
pub proof fn what_states_an_expiration(
    own: &Option<CacheControl>,
    response: &Headers,
    options: &CacheOptions,
    by_target: bool,
    r: bool,
)
    requires
        call_ensures(response_has_explicit_expiration, (own, response, options, by_target), r),
    ensures
        r <==> (own is Some && own->0.max_age is Some) || (options.shared && own is Some
            && own->0.s_maxage is Some) || (!by_target && fields_of(*response).contains_key(
            "expires"@,
        )),
{
    heeded_names_are_in_lower_case();
}

} // verus!
