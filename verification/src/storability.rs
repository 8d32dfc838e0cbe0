//! Storability: whether a cache may keep a response at all.
use trillium_http::Headers;
use vstd::prelude::*;

use crate::directives::{
    directives, directives_in, effective_directives, effective_response_cache_control, targeted,
    CacheControl,
};
use crate::headers::{fields_of, has_field, has_header, Fields};
use crate::http::{Method, Status};
use crate::options::CacheOptions;
use crate::policy::CachePolicy;

verus! {

/// The statuses that a cache may reuse without explicit expiration.
pub open spec fn cacheable_by_default(status: Status) -> bool {
    let code = status.code;
    ||| code == 200
    ||| code == 203
    ||| code == 204
    ||| code == 206
    ||| code == 300
    ||| code == 301
    ||| code == 308
    ||| code == 404
    ||| code == 405
    ||| code == 410
    ||| code == 414
    ||| code == 501
}

/// Whether the response states its own freshness lifetime. A targeted field displaces `Expires`.
pub open spec fn explicit_expiration(
    cc: Option<CacheControl>,
    fields: Fields,
    shared: bool,
    targeted: bool,
) -> bool {
    ||| cc matches Some(cc) && (cc.max_age is Some || (shared && cc.s_maxage is Some))
    ||| !targeted && has_field(fields, "expires"@)
}

/// Whether a cache may store the response to a request.
pub open spec fn storable(
    method: Method,
    request: Fields,
    status: Status,
    response: Fields,
    shared: bool,
) -> bool {
    let cc = effective_directives(response, shared);
    let by_target = targeted(response, shared);
    let explicit = explicit_expiration(cc, response, shared, by_target);
    // Neither side says `no-store`, and a shared cache keeps nothing private.
    &&& !(directives_in(request, "cache-control"@) matches Some(asked) && asked.no_store)
    &&& !(cc matches Some(cc) && (cc.no_store || (shared && cc.private)))
    // The method is one that the cache handles.
    &&& method == Method::Get || method == Method::Head || (method == Method::Post && explicit)
    // A shared cache keeps a response to an authorized request only where the response permits it.
    &&& shared && has_field(request, "authorization"@) ==> (cc matches Some(cc) && (
    cc.must_revalidate || cc.public || cc.s_maxage is Some))
    // The response states its lifetime, or is public, or has a status that needs neither.
    &&& explicit || (cc matches Some(cc) && cc.public) || cacheable_by_default(status)
}

/// Whether a cache may reuse this status without explicit expiration.
pub fn is_cacheable_by_default(status: Status) -> (r: bool)
    ensures
        r == cacheable_by_default(status),
{
    matches!(status.code, 200 | 203 | 204 | 206 | 300 | 301 | 308 | 404 | 405 | 410 | 414 | 501)
}

/// Whether the response states its own freshness lifetime.
pub fn response_has_explicit_expiration(
    response_cc: &Option<CacheControl>,
    response_headers: &Headers,
    options: &CacheOptions,
    targeted_cc_in_effect: bool,
) -> (r: bool)
    ensures
        r == explicit_expiration(
            *response_cc,
            fields_of(*response_headers),
            options.shared,
            targeted_cc_in_effect,
        ),
{
    if let Some(cc) = response_cc {
        if (options.shared && cc.s_maxage.is_some()) || cc.max_age.is_some() {
            return true;
        }
    }
    !targeted_cc_in_effect && has_header(response_headers, "expires")
}

impl CachePolicy {
    /// Whether a cache may store the response described by these parts. Where it may not, nothing
    /// of the exchange may be stored.
    pub fn is_storable(
        method: Method,
        request_headers: &Headers,
        status: Status,
        response_headers: &Headers,
        options: &CacheOptions,
    ) -> (r: bool)
        ensures
            r == storable(
                method,
                fields_of(*request_headers),
                status,
                fields_of(*response_headers),
                options.shared,
            ),
    {
        let request_cc = directives(request_headers, "cache-control");
        let effective = effective_response_cache_control(response_headers, options);
        let response_cc = effective.0;
        let targeted_cc_in_effect: bool = effective.1;

        if let Some(cc) = request_cc {
            if cc.no_store {
                return false;
            }
        }
        let explicit: bool = response_has_explicit_expiration(
            &response_cc,
            response_headers,
            options,
            targeted_cc_in_effect,
        );
        let method_ok: bool = match method {
            Method::Get | Method::Head => true,
            Method::Post => explicit,
            _ => false,
        };
        if !method_ok {
            return false;
        }
        let authorized: bool = options.shared && has_header(request_headers, "authorization");
        match response_cc {
            Some(cc) => {
                if cc.no_store || (options.shared && cc.private) {
                    return false;
                }
                if authorized && !(cc.must_revalidate || cc.public || cc.s_maxage.is_some()) {
                    return false;
                }
                explicit || cc.public || is_cacheable_by_default(status)
            },
            None => !authorized && (explicit || is_cacheable_by_default(status)),
        }
    }
}

} // verus!
