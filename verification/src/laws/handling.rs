//! Laws on what a handler does with requests and replies.
use vstd::prelude::*;

use crate::engine::{first_selected, Reply, RequestPlan, RequestState, ResponsePlan, Start};
use crate::headers::{fields_of, string_view, Fields};
use crate::http::{Method, Status};
use crate::options::CacheOptions;
use crate::policy::PolicyView;
use crate::storage::{
    invalidated_keys, key_views, linked_keys, stored_keys, CacheKey, KeyView,
};
use crate::urls::{host_of_url, parsed_url, url_from_parts};

verus! {

/// An unsafe request is never looked up in storage.
pub proof fn unsafe_requests_bypass_storage(start: Start, method: Method, url: Seq<char>)
    requires
        start.fits(method, url),
        !method.safe(),
    ensures
        start is Unsafe,
{
}

/// There is one thing to do with a request: two plans that fit it are of one kind, concern the same
/// stored response, serve the same head and send the same fields.
pub proof fn request_plans_are_unique(
    a: RequestPlan,
    b: RequestPlan,
    policies: Seq<PolicyView>,
    request: Fields,
    now: int,
    background: bool,
)
    requires
        a.fits(policies, request, now, background),
        b.fits(policies, request, now, background),
    ensures
        match (a, b) {
            (
                RequestPlan::Serve { index: i, head: x },
                RequestPlan::Serve { index: j, head: y },
            ) => i == j && x@ == y@,
            (
                RequestPlan::NotModified { index: i, head: x },
                RequestPlan::NotModified { index: j, head: y },
            ) => i == j && x@ == y@,
            (
                RequestPlan::ServeStale { index: i, head: x, request_headers: v },
                RequestPlan::ServeStale { index: j, head: y, request_headers: w },
            ) => i == j && x@ == y@ && fields_of(v) == fields_of(w),
            (
                RequestPlan::Revalidate { index: i, request_headers: v },
                RequestPlan::Revalidate { index: j, request_headers: w },
            ) => i == j && fields_of(v) == fields_of(w),
            (RequestPlan::Miss, RequestPlan::Miss) => true,
            _ => false,
        },
{
    assert forall|i: int, j: int|
        first_selected(policies, request, i) && first_selected(policies, request, j) implies i
        == j by {
        if i < j {
            assert(!policies[i].selects(request));
        }
        if j < i {
            assert(!policies[j].selects(request));
        }
    }
}

/// There is one thing to do with a reply: two plans that fit it are of one kind, keep the same
/// policy, serve the same head and remove the same keys.
pub proof fn response_plans_are_unique(
    a: ResponsePlan,
    b: ResponsePlan,
    state: RequestState<'_>,
    reply: Reply<'_>,
    now: int,
    options: CacheOptions,
    max: u64,
)
    requires
        a.fits(state, reply, now, options, max),
        b.fits(state, reply, now, options, max),
    ensures
        match (a, b) {
            (ResponsePlan::PassThrough, ResponsePlan::PassThrough) => true,
            (ResponsePlan::ServeStale { head: x }, ResponsePlan::ServeStale { head: y }) => x@ == y@,
            (
                ResponsePlan::Refresh { policy: p, head: x },
                ResponsePlan::Refresh { policy: q, head: y },
            ) => p@ == q@ && x@ == y@,
            (ResponsePlan::Store { policy: p }, ResponsePlan::Store { policy: q }) => p@ == q@,
            (ResponsePlan::Invalidate { keys: k }, ResponsePlan::Invalidate { keys: l }) => key_views(
                k@,
            ) == key_views(l@),
            _ => false,
        },
{
}

/// A handler that does not work in the background never answers a request with a stale response
/// that the request did not ask for.
pub proof fn no_stale_service_without_background(
    plan: RequestPlan,
    policies: Seq<PolicyView>,
    request: Fields,
    now: int,
)
    requires
        plan.fits(policies, request, now, false),
    ensures
        plan !is ServeStale,
{
}

/// Whatever is served from storage is selected by the request, and is fresh, or stale in a way that
/// the request or the response allows.
pub proof fn what_is_served_is_allowed(
    plan: RequestPlan,
    policies: Seq<PolicyView>,
    request: Fields,
    now: int,
    background: bool,
)
    requires
        plan.fits(policies, request, now, background),
    ensures
        match plan {
            RequestPlan::Serve { index, .. } | RequestPlan::NotModified { index, .. } => {
                let policy = policies[index as int];
                policy.selects(request) && (!policy.stale(now) || (
                crate::directives::directives_in(request, "cache-control"@) matches Some(cc)
                    && cc.max_stale is Some && !policy.always_revalidated() && !(
                policy.directives matches Some(own) && own.must_revalidate)))
            },
            RequestPlan::ServeStale { index, .. } => {
                let policy = policies[index as int];
                policy.selects(request) && !policy.always_revalidated() && policy.stale_within(
                    now,
                    policy.revalidate_window(),
                )
            },
            _ => true,
        },
{
}

/// A failure is covered by a stored response only within its window, and never where the response
/// forbids stale use.
pub proof fn failures_are_covered_within_the_window(
    plan: ResponsePlan,
    state: RequestState<'_>,
    reply: Reply<'_>,
    now: int,
    options: CacheOptions,
    max: u64,
)
    requires
        plan.fits(state, reply, now, options, max),
        plan is ServeStale,
    ensures
        reply.failed || (reply.status matches Some(status) && status.server_error()),
        state matches RequestState::Revalidation(stored) && stored@.stale_within(
            now,
            stored@.error_window(),
        ) && !stored@.forbids_stale(),
{
}

/// Only a request with an unsafe method that did not fail removes anything.
pub proof fn only_unsafe_requests_invalidate(
    plan: ResponsePlan,
    state: RequestState<'_>,
    reply: Reply<'_>,
    now: int,
    options: CacheOptions,
    max: u64,
)
    requires
        plan.fits(state, reply, now, options, max),
        plan is Invalidate,
    ensures
        state is Unsafe,
        reply.status matches Some(status) && (status.success() || status.redirection()),
{
}

proof fn lemma_linked_on_host(url: Seq<char>, fields: Fields, name: Seq<char>)
    ensures
        forall|i: int|
            0 <= i < linked_keys(url, fields, name).len() ==> host_of_url(
                (#[trigger] linked_keys(url, fields, name)[i]).url,
            ) == host_of_url(url) && (linked_keys(url, fields, name)[i].method == Method::Get
                || linked_keys(url, fields, name)[i].method == Method::Head),
{
}

/// What an unsafe request removes is for `GET` and `HEAD`, and on the host of its URL: a response
/// cannot remove what is stored for another host.
pub proof fn invalidation_stays_on_the_host(url: Seq<char>, fields: Fields)
    ensures
        forall|i: int|
            0 <= i < invalidated_keys(url, fields).len() ==> host_of_url(
                (#[trigger] invalidated_keys(url, fields)[i]).url,
            ) == host_of_url(url) && (invalidated_keys(url, fields)[i].method == Method::Get
                || invalidated_keys(url, fields)[i].method == Method::Head),
{
    lemma_linked_on_host(url, fields, "location"@);
    lemma_linked_on_host(url, fields, "content-location"@);
    let own = stored_keys(url);
    let first = linked_keys(url, fields, "location"@);
    let second = linked_keys(url, fields, "content-location"@);
    let all = invalidated_keys(url, fields);
    assert forall|i: int| 0 <= i < all.len() implies host_of_url((#[trigger] all[i]).url)
        == host_of_url(url) && (all[i].method == Method::Get || all[i].method
        == Method::Head) by {
        if i < own.len() {
            assert(all[i] == own[i]);
        } else if i < own.len() + first.len() {
            assert(all[i] == first[i - own.len()]);
        } else {
            assert(all[i] == second[i - own.len() - first.len()]);
        }
    }
}

/// An unsafe request removes what is stored for its own URL, for `GET` and for `HEAD`.
pub proof fn invalidation_covers_the_url(url: Seq<char>, fields: Fields)
    ensures
        invalidated_keys(url, fields)[0] == (KeyView { method: Method::Get, url }),
        invalidated_keys(url, fields)[1] == (KeyView { method: Method::Head, url }),
{
}

/// Statuses are classed by their hundreds.
pub proof fn statuses_are_classed_by_hundreds(status: &Status, a: bool, b: bool, c: bool)
    requires
        call_ensures(Status::is_success, (status,), a),
        call_ensures(Status::is_redirection, (status,), b),
        call_ensures(Status::is_server_error, (status,), c),
    ensures
        a <==> status.code / 100 == 2,
        b <==> status.code / 100 == 3,
        c <==> status.code / 100 == 5,
{
}

/// A request's URL is what its scheme, its host and its path and query spell, one after the other;
/// without a host there is none.
pub proof fn urls_are_spelled_by_their_parts(
    secure: bool,
    host: Option<&str>,
    path_and_query: &str,
    r: Option<String>,
)
    requires
        call_ensures(url_from_parts, (secure, host, path_and_query), r),
    ensures
        host is None ==> r is None,
        host matches Some(host) ==> string_view(r) == parsed_url(
            if secure {
                seq!['h', 't', 't', 'p', 's', ':', '/', '/']
            } else {
                seq!['h', 't', 't', 'p', ':', '/', '/']
            } + host@ + path_and_query@,
        ),
{
    reveal_strlit("http");
    reveal_strlit("https");
    reveal_strlit("://");
    assert("https"@ + "://"@ =~= seq!['h', 't', 't', 'p', 's', ':', '/', '/']);
    assert("http"@ + "://"@ =~= seq!['h', 't', 't', 'p', ':', '/', '/']);
}

/// A key is written as its method and its URL, with a space between.
pub proof fn keys_are_written_as_lines(key: &CacheKey, r: String)
    requires
        call_ensures(CacheKey::to_text, (key,), r),
    ensures
        r@ == key@.method.token() + seq![' '] + key@.url,
{
    reveal_strlit(" ");
    assert(" "@ =~= seq![' ']);
}

} // verus!
