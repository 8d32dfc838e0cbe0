//! The cache's decisions over the life of a request.
//!
//! A handler looks up the stored responses for a request and asks what to do with it. Where the
//! request goes on to the origin, the handler keeps in mind why, and asks again when the reply is
//! there. The handler carries the answers out: it reads and writes storage, sends, and spawns.
use trillium_http::Headers;
use vstd::prelude::*;
use vstd::string::*;

use crate::headers::{field_text, fields_of, get_str, Fields};
use crate::http::{Method, Status, NOT_MODIFIED};
use crate::options::CacheOptions;
use crate::policy::{captured, selection, CachePolicy, PolicyView};
use crate::storability::storable;
use crate::storage::{invalidated_keys, key_views, keys_to_invalidate, CacheKey, KeyView};
use crate::text::{number, parse_number};
use crate::time::Timestamp;
use crate::validation::{AfterResponse, BeforeRequest, CachedResponse};

verus! {

/// How a request begins.
#[derive(Debug)]
pub enum Start {
    /// Look up the stored responses under this key.
    LookUp { key: CacheKey },
    /// The method is unsafe: send the request, and see afterwards what it invalidates.
    Unsafe,
}

impl Start {
    /// Whether this is how a request with this method to this URL begins.
    pub open spec fn fits(self, method: Method, url: Seq<char>) -> bool {
        match self {
            Start::LookUp { key } => method.safe() && key@ == (KeyView { method, url }),
            Start::Unsafe => !method.safe(),
        }
    }
}

/// What to do with a request, given the stored responses for it.
#[derive(Debug)]
pub enum RequestPlan {
    /// Serve this head with the body of the stored response at `index`.
    Serve { index: usize, head: CachedResponse },
    /// The client has the stored response at `index` already: serve this head without a body.
    NotModified { index: usize, head: CachedResponse },
    /// Serve this head with the body of the stored response at `index`, stale as it is, and
    /// revalidate it in the background with these request headers.
    ServeStale { index: usize, head: CachedResponse, request_headers: Headers },
    /// Send the request with these headers, to revalidate the stored response at `index`.
    Revalidate { index: usize, request_headers: Headers },
    /// No stored response matches: send the request as it is.
    Miss,
}

/// Why a request went on, or did not.
pub enum RequestState<'a> {
    /// It was answered from the cache.
    Hit,
    /// It revalidates the stored response with this policy.
    Revalidation(&'a CachePolicy),
    /// No stored response matched it.
    Miss,
    /// Its method is unsafe. This is the URL that it was sent to.
    Unsafe(&'a str),
}

/// What came of sending a request.
pub struct Reply<'a> {
    pub method: Method,
    pub request_headers: &'a Headers,
    /// Whether the transport failed.
    pub failed: bool,
    /// The status, where there is a response.
    pub status: Option<Status>,
    pub response_headers: &'a Headers,
}

/// What to do with a reply.
#[derive(Debug)]
pub enum ResponsePlan {
    /// Nothing: the reply stands as it is.
    PassThrough,
    /// Serve this head with the body of the stored response in place of the failure.
    ServeStale { head: CachedResponse },
    /// Keep the stored response under this policy, and serve this head with its body.
    Refresh { policy: CachePolicy, head: CachedResponse },
    /// Store the response under this policy as its body is read.
    Store { policy: CachePolicy },
    /// Remove what is stored under these keys.
    Invalidate { keys: Vec<CacheKey> },
}

/// The policies of a vector, by what they say.
pub open spec fn policy_views(policies: Seq<&CachePolicy>) -> Seq<PolicyView> {
    policies.map_values(|policy: &CachePolicy| policy@)
}

/// Whether the policy at `index` is the first that the request selects.
pub open spec fn first_selected(policies: Seq<PolicyView>, request: Fields, index: int) -> bool {
    &&& 0 <= index < policies.len()
    &&& policies[index].selects(request)
    &&& forall|i: int| 0 <= i < index ==> !(#[trigger] policies[i]).selects(request)
}

/// Whether the stored response may be served stale while it is revalidated in the background.
pub open spec fn serves_in_background(policy: PolicyView, now: int, background: bool) -> bool {
    background && policy.background_use(now)
}

impl RequestPlan {
    /// Whether this is what to do with a request, given the policies stored for it. `background`
    /// tells whether the handler revalidates in the background.
    pub open spec fn fits(
        self,
        policies: Seq<PolicyView>,
        request: Fields,
        now: int,
        background: bool,
    ) -> bool {
        match self {
            RequestPlan::Serve { index, head } => {
                &&& first_selected(policies, request, index as int)
                &&& policies[index as int].answers(request, now)
                &&& !policies[index as int].known_to_client(request)
                &&& head@ == policies[index as int].served_head(now)
            },
            RequestPlan::NotModified { index, head } => {
                &&& first_selected(policies, request, index as int)
                &&& policies[index as int].answers(request, now)
                &&& policies[index as int].known_to_client(request)
                &&& head@ == policies[index as int].not_modified_head(now)
            },
            RequestPlan::ServeStale { index, head, request_headers } => {
                &&& first_selected(policies, request, index as int)
                &&& !policies[index as int].answers(request, now)
                &&& serves_in_background(policies[index as int], now, background)
                &&& head@ == policies[index as int].served_head(now)
                &&& fields_of(request_headers) == policies[index as int].revalidation_fields(
                    request,
                )
            },
            RequestPlan::Revalidate { index, request_headers } => {
                &&& first_selected(policies, request, index as int)
                &&& !policies[index as int].answers(request, now)
                &&& !serves_in_background(policies[index as int], now, background)
                &&& fields_of(request_headers) == policies[index as int].revalidation_fields(
                    request,
                )
            },
            RequestPlan::Miss => forall|i: int|
                0 <= i < policies.len() ==> !(#[trigger] policies[i]).selects(request),
        }
    }
}

/// Whether the response declares a body longer than `max` bytes.
pub open spec fn declared_too_long(response: Fields, max: u64) -> bool {
    field_text(response, "content-length"@) matches Some(text) && number(text) matches Some(len)
        && len > max
}

/// Whether a plan is what to do with a new response: store it where that is allowed, and where its
/// declared length is not over `max`.
pub open spec fn stores_reply(
    plan: ResponsePlan,
    reply: Reply<'_>,
    status: Status,
    now: int,
    options: CacheOptions,
    max: u64,
) -> bool {
    let request = fields_of(*reply.request_headers);
    let response = fields_of(*reply.response_headers);
    if storable(reply.method, request, status, response, options.shared) && !declared_too_long(
        response,
        max,
    ) {
        plan matches ResponsePlan::Store { policy } && policy@ == captured(
            reply.method,
            selection(response, request),
            status,
            response,
            now,
            options,
        )
    } else {
        plan is PassThrough
    }
}

/// Whether a plan is what to do with the answer to a revalidation.
pub open spec fn settles_revalidation(
    plan: ResponsePlan,
    stored: PolicyView,
    reply: Reply<'_>,
    status: Status,
    now: int,
    options: CacheOptions,
    max: u64,
) -> bool {
    if status.code == NOT_MODIFIED {
        plan matches ResponsePlan::Refresh { policy, head } && policy@ == stored.refreshed(
            fields_of(*reply.request_headers),
            fields_of(*reply.response_headers),
            now,
        ) && head@ == policy@.served_head(now)
    } else {
        stores_reply(plan, reply, status, now, options, max)
    }
}

/// Whether a failed revalidation is covered by the stored response: the transport or the origin
/// failed, and the response may be served when that happens.
pub open spec fn recovers(stored: PolicyView, reply: Reply<'_>, now: int) -> bool {
    &&& reply.failed || (reply.status matches Some(status) && status.server_error())
    &&& stored.stale_within(now, stored.error_window())
}

impl ResponsePlan {
    /// Whether this is what to do with a reply.
    pub open spec fn fits(
        self,
        state: RequestState<'_>,
        reply: Reply<'_>,
        now: int,
        options: CacheOptions,
        max: u64,
    ) -> bool {
        match (state, reply.status) {
            (RequestState::Revalidation(stored), _) if recovers(stored@, reply, now) => {
                self matches ResponsePlan::ServeStale { head } && head@ == stored@.served_head(now)
            },
            (_, None) => self is PassThrough,
            (RequestState::Hit, Some(_)) => self is PassThrough,
            (RequestState::Revalidation(stored), Some(status)) => settles_revalidation(
                self,
                stored@,
                reply,
                status,
                now,
                options,
                max,
            ),
            (RequestState::Miss, Some(status)) => stores_reply(
                self,
                reply,
                status,
                now,
                options,
                max,
            ),
            (RequestState::Unsafe(url), Some(status)) => if status.success()
                || status.redirection() {
                self matches ResponsePlan::Invalidate { keys } && key_views(keys@)
                    == invalidated_keys(url@, fields_of(*reply.response_headers))
            } else {
                self is PassThrough
            },
        }
    }
}

/// Decides how a request begins. Stored responses are read for safe methods only.
pub fn start(method: Method, url: &str) -> (r: Start)
    ensures
        r.fits(method, url@),
{
    if method.is_safe() {
        Start::LookUp { key: CacheKey::new(method, url.to_owned()) }
    } else {
        Start::Unsafe
    }
}

/// Decides what to do with a request, given the policies stored for it.
pub fn plan_request(
    policies: &Vec<&CachePolicy>,
    request_headers: &Headers,
    now: Timestamp,
    background: bool,
) -> (r: RequestPlan)
    ensures
        r.fits(policy_views(policies@), fields_of(*request_headers), now@, background),
{
    let ghost all = policy_views(policies@);
    let ghost request = fields_of(*request_headers);
    let mut index: usize = 0;
    while index < policies.len()
        invariant
            index <= policies.len(),
            all == policy_views(policies@),
            request == fields_of(*request_headers),
            forall|i: int| 0 <= i < index ==> !(#[trigger] all[i]).selects(request),
        decreases policies.len() - index,
    {
        let policy = policies[index];
        assert(all[index as int] == policy@);
        match policy.before_request(request_headers, now) {
            BeforeRequest::Fresh(head) => {
                return RequestPlan::Serve { index, head };
            },
            BeforeRequest::NotModified(head) => {
                return RequestPlan::NotModified { index, head };
            },
            BeforeRequest::Stale { request_headers: headers, matches } => {
                if matches {
                    if background && policy.is_swr_eligible(now) {
                        let head = policy.cached_response(now);
                        return RequestPlan::ServeStale { index, head, request_headers: headers };
                    }
                    return RequestPlan::Revalidate { index, request_headers: headers };
                }
            },
        }
        index += 1;
    }
    RequestPlan::Miss
}

fn too_long(response_headers: &Headers, max: u64) -> (r: bool)
    ensures
        r == declared_too_long(fields_of(*response_headers), max),
{
    match get_str(response_headers, "content-length") {
        Some(text) => match parse_number(text) {
            Some(len) => len > max,
            None => false,
        },
        None => false,
    }
}

/// Decides what to do with a new response.
pub fn handle_miss(
    reply: &Reply<'_>,
    status: Status,
    now: Timestamp,
    options: CacheOptions,
    max: u64,
) -> (r: ResponsePlan)
    ensures
        stores_reply(r, *reply, status, now@, options, max),
{
    if !CachePolicy::is_storable(
        reply.method,
        reply.request_headers,
        status,
        reply.response_headers,
        &options,
    ) {
        return ResponsePlan::PassThrough;
    }
    // A body that is declared to be over the cap is not worth starting on.
    if too_long(reply.response_headers, max) {
        return ResponsePlan::PassThrough;
    }
    let policy = CachePolicy::new(
        reply.method,
        reply.request_headers,
        status,
        reply.response_headers.clone(),
        now,
        options,
    );
    ResponsePlan::Store { policy }
}

/// Decides what to do with the answer to a revalidation.
pub fn handle_revalidation(
    stored: &CachePolicy,
    reply: &Reply<'_>,
    status: Status,
    now: Timestamp,
    options: CacheOptions,
    max: u64,
) -> (r: ResponsePlan)
    ensures
        settles_revalidation(r, stored@, *reply, status, now@, options, max),
{
    match stored.after_response(reply.request_headers, status, reply.response_headers, now) {
        AfterResponse::NotModified(policy, head) => ResponsePlan::Refresh { policy, head },
        AfterResponse::Modified => handle_miss(reply, status, now, options, max),
    }
}

/// Decides what to do with a reply.
pub fn plan_response(
    state: &RequestState<'_>,
    reply: &Reply<'_>,
    now: Timestamp,
    options: CacheOptions,
    max: u64,
) -> (r: ResponsePlan)
    ensures
        r.fits(*state, *reply, now@, options, max),
{
    if let RequestState::Revalidation(stored) = state {
        let origin_failed: bool = reply.failed || match reply.status {
            Some(status) => status.is_server_error(),
            None => false,
        };
        if origin_failed && stored.is_sie_eligible(now) {
            return ResponsePlan::ServeStale { head: stored.cached_response(now) };
        }
    }
    let status = match reply.status {
        Some(status) => status,
        None => return ResponsePlan::PassThrough,
    };
    match state {
        RequestState::Hit => ResponsePlan::PassThrough,
        RequestState::Revalidation(stored) => handle_revalidation(
            stored,
            reply,
            status,
            now,
            options,
            max,
        ),
        RequestState::Miss => handle_miss(reply, status, now, options, max),
        RequestState::Unsafe(url) => {
            if status.is_success() || status.is_redirection() {
                ResponsePlan::Invalidate { keys: keys_to_invalidate(url, reply.response_headers) }
            } else {
                ResponsePlan::PassThrough
            }
        },
    }
}

} // verus!
