//! `Cache-Control` directives, and which header speaks for a response.
use trillium_caching_headers::CacheControlHeader;
use trillium_http::Headers;
use vstd::prelude::*;

use crate::headers::{fields_of, list_text, list_value, Fields};
use crate::options::CacheOptions;
use crate::structured::{is_dictionary, looks_like_valid_sf_dictionary};
use crate::text::{list_tokens, lower, number};

verus! {

/// The directives of one `Cache-Control` header, as far as a cache heeds them. Times are in
/// seconds.
#[derive(Clone, Copy, Debug, PartialEq, Eq, Structural)]
pub struct CacheControl {
    pub no_cache: bool,
    pub no_store: bool,
    pub private: bool,
    pub public: bool,
    pub immutable: bool,
    pub must_revalidate: bool,
    pub proxy_revalidate: bool,
    pub max_age: Option<u64>,
    pub s_maxage: Option<u64>,
    pub min_fresh: Option<u64>,
    /// `Some(None)` stands for the directive without a value: any staleness.
    pub max_stale: Option<Option<u64>>,
    pub stale_while_revalidate: Option<u64>,
    pub stale_if_error: Option<u64>,
    /// Whether the header has no directive at all.
    pub empty: bool,
}

/// The number behind `name=` in a directive, where it is that directive and has a number.
pub open spec fn value_of(directive: Seq<char>, name: Seq<char>) -> Option<u64> {
    let n = name.len() as int;
    if directive.len() > n && directive.take(n) == name && directive[n] == '=' {
        number(directive.skip(n + 1))
    } else {
        None
    }
}

/// The number of the first directive `name=<number>`.
pub open spec fn first_value(directives: Seq<Seq<char>>, name: Seq<char>) -> Option<u64>
    decreases directives.len(),
{
    if directives.len() == 0 {
        None
    } else {
        match value_of(directives[0], name) {
            Some(secs) => Some(secs),
            None => first_value(directives.skip(1), name),
        }
    }
}

/// The staleness that the first `max-stale` or `max-stale=<number>` allows.
pub open spec fn allowed_staleness(directives: Seq<Seq<char>>) -> Option<Option<u64>>
    decreases directives.len(),
{
    if directives.len() == 0 {
        None
    } else if directives[0] == "max-stale"@ {
        Some(None)
    } else {
        match value_of(directives[0], "max-stale"@) {
            Some(secs) => Some(Some(secs)),
            None => allowed_staleness(directives.skip(1)),
        }
    }
}

/// The directives of a `Cache-Control` header value: a comma-separated list in any letter case.
/// What is no directive that a cache heeds is passed over.
pub open spec fn parsed_directives(value: Seq<char>) -> CacheControl {
    let listed = list_tokens(lower(value));
    CacheControl {
        no_cache: listed.contains("no-cache"@),
        no_store: listed.contains("no-store"@),
        private: listed.contains("private"@),
        public: listed.contains("public"@),
        immutable: listed.contains("immutable"@),
        must_revalidate: listed.contains("must-revalidate"@),
        proxy_revalidate: listed.contains("proxy-revalidate"@),
        max_age: first_value(listed, "max-age"@),
        s_maxage: first_value(listed, "s-maxage"@),
        min_fresh: first_value(listed, "min-fresh"@),
        max_stale: allowed_staleness(listed),
        stale_while_revalidate: first_value(listed, "stale-while-revalidate"@),
        stale_if_error: first_value(listed, "stale-if-error"@),
        empty: listed.len() == 0,
    }
}

/// `CacheControlHeader::parse`, which never fails, and the accessors of its result: the list is
/// taken in lower case, a directive without a value counts where it is a member, and one with a
/// number by its first member.
#[verifier::external_body]
pub(crate) fn parse_directives(value: &str) -> (r: CacheControl)
    ensures
        r == parsed_directives(value@),
{
    let h = CacheControlHeader::parse(value);
    let [max_age, s_maxage, min_fresh, stale_while_revalidate, stale_if_error] =
        [h.max_age(), h.s_maxage(), h.min_fresh(), h.stale_while_revalidate(), h.stale_if_error()]
        .map(|d| d.map(|d| d.as_secs()));
    CacheControl {
        no_cache: h.is_no_cache(), no_store: h.is_no_store(),
        private: h.is_private(), public: h.is_public(), immutable: h.is_immutable(),
        must_revalidate: h.must_revalidate(), proxy_revalidate: h.is_proxy_revalidate(),
        max_age, s_maxage, min_fresh, stale_while_revalidate, stale_if_error,
        max_stale: h.max_stale().map(|d| d.map(|d| d.as_secs())),
        empty: h.is_empty(),
    }
}

/// The directives in the field called `name`, on all of its lines.
pub open spec fn directives_in(fields: Fields, name: Seq<char>) -> Option<CacheControl> {
    match list_text(fields, name) {
        Some(value) => Some(parsed_directives(value)),
        None => None,
    }
}

/// Whether a targeted field speaks for the response: the cache is shared and `CDN-Cache-Control`
/// is a dictionary with at least one directive.
pub open spec fn targeted(fields: Fields, shared: bool) -> bool {
    &&& shared
    &&& list_text(fields, "cdn-cache-control"@) matches Some(value) && is_dictionary(value)
        && !parsed_directives(value).empty
}

/// The directives that speak for a response.
pub open spec fn effective_directives(fields: Fields, shared: bool) -> Option<CacheControl> {
    if targeted(fields, shared) {
        directives_in(fields, "cdn-cache-control"@)
    } else {
        directives_in(fields, "cache-control"@)
    }
}

/// The directives in the field called `name`, on all of its lines.
pub fn directives(headers: &Headers, name: &str) -> (r: Option<CacheControl>)
    ensures
        r == directives_in(fields_of(*headers), name@),
{
    match list_value(headers, name) {
        Some(value) => Some(parse_directives(value.as_str())),
        None => None,
    }
}

/// The directives that speak for a response, and whether they come from a targeted field.
pub fn effective_response_cache_control(
    response_headers: &Headers,
    options: &CacheOptions,
) -> (r: (Option<CacheControl>, bool))
    ensures
        r.0 == effective_directives(fields_of(*response_headers), options.shared),
        r.1 == targeted(fields_of(*response_headers), options.shared),
{
    if options.shared {
        if let Some(value) = list_value(response_headers, "cdn-cache-control") {
            if looks_like_valid_sf_dictionary(value.as_str()) {
                let parsed = parse_directives(value.as_str());
                if !parsed.empty {
                    return (Some(parsed), true);
                }
            }
        }
    }
    (directives(response_headers, "cache-control"), false)
}

} // verus!
