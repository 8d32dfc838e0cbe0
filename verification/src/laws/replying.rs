//! Laws on what a handler makes of a reply.
use trillium_http::Headers;
use vstd::prelude::*;

use crate::client;
use crate::directives::targeted;
use crate::engine::{handle_miss, handle_revalidation, Reply, RequestState, ResponsePlan};
use crate::headers::{field_text, fields_of, Fields};
use crate::http::{Method, Status};
use crate::laws::capturing::agree_on_listed;
use crate::laws::forwarding::{describes_body, same_field, stays_behind};
use crate::options::CacheOptions;
use crate::policy::{listed_names, selection, stored_directives, CachePolicy};
use crate::server;
use crate::storage::{key_views, keys_to_invalidate, push_stored_keys, CacheKey, KeyView};
use crate::text::number;
use crate::time::Timestamp;
use crate::urls::{host_of_url, resolved_url};
use crate::validation::CachedResponse;

verus! {

/// Whether a plan stores a reply as it was received: with its own status, the method and the
/// selecting headers of its request, all its fields, the time it came and the options in force.
pub open spec fn stores_as_received(
    plan: ResponsePlan,
    reply: Reply<'_>,
    status: Status,
    now: Timestamp,
    options: CacheOptions,
) -> bool {
    plan matches ResponsePlan::Store { policy } && {
        &&& policy@.status.code == status.code
        &&& policy@.method == reply.method
        &&& policy@.fields == fields_of(*reply.response_headers)
        &&& policy@.vary == selection(
            fields_of(*reply.response_headers),
            fields_of(*reply.request_headers),
        )
        &&& policy@.response_time == now@
        &&& policy@.options == options
        &&& policy@.directives == stored_directives(policy@.fields, options.shared)
        &&& policy@.targeted == targeted(policy@.fields, options.shared)
    }
}

/// Whether the one `Content-Length` of a reply is a number over `max`.
pub open spec fn declares_more(reply: Reply<'_>, max: u64) -> bool {
    let text = field_text(fields_of(*reply.response_headers), "content-length"@);
    text is Some && number(text->0) is Some && number(text->0)->0 > max
}

/// A new response is stored exactly where it may be stored and does not declare more than `max`
/// bytes, and then as it was received; otherwise it passes through.
pub proof fn responses_are_stored_as_received(
    reply: &Reply<'_>,
    status: Status,
    now: Timestamp,
    options: CacheOptions,
    max: u64,
    storable: bool,
    plan: ResponsePlan,
)
    requires
        call_ensures(handle_miss, (reply, status, now, options, max), plan),
        call_ensures(
            CachePolicy::is_storable,
            (reply.method, reply.request_headers, status, reply.response_headers, &options),
            storable,
        ),
    ensures
        plan is Store || plan is PassThrough,
        plan is Store <==> storable && !declares_more(*reply, max),
        plan is Store ==> stores_as_received(plan, *reply, status, now, options),
{
}

/// Whether a plan keeps a stored response on a 304: under its own method, status and options, with
/// the fields of the 304 in place of its own but for those that describe the body, aged anew from
/// now, and served as that.
pub open spec fn keeps_stored(
    plan: ResponsePlan,
    stored: &CachePolicy,
    reply: Reply<'_>,
    now: Timestamp,
) -> bool {
    plan matches ResponsePlan::Refresh { policy, head } && {
        &&& policy@.method == stored@.method
        &&& policy@.status.code == stored@.status.code
        &&& policy@.options == stored@.options
        &&& policy@.response_time == now@
        &&& policy@.vary == selection(policy@.fields, fields_of(*reply.request_headers))
        &&& policy@.directives == stored_directives(policy@.fields, stored@.options.shared)
        &&& policy@.targeted == targeted(policy@.fields, stored@.options.shared)
        &&& head.status.code == stored@.status.code
        &&& head@ == policy@.served_head(now@)
        &&& forall|name: Seq<char>|
            #![trigger policy@.fields.contains_key(name)]
            if fields_of(*reply.response_headers).contains_key(name) && !describes_body(name) {
                same_field(policy@.fields, fields_of(*reply.response_headers), name)
            } else {
                same_field(policy@.fields, stored@.fields, name)
            }
    }
}

proof fn lemma_keeps_stored(
    plan: ResponsePlan,
    stored: &CachePolicy,
    reply: Reply<'_>,
    now: Timestamp,
)
    requires
        plan matches ResponsePlan::Refresh { policy, head } && policy@ == stored@.refreshed(
            fields_of(*reply.request_headers),
            fields_of(*reply.response_headers),
            now@,
        ) && head@ == policy@.served_head(now@),
    ensures
        keeps_stored(plan, stored, reply, now),
{
    if let ResponsePlan::Refresh { policy, head } = plan {
        assert forall|name: Seq<char>|
            #![trigger policy@.fields.contains_key(name)]
            if fields_of(*reply.response_headers).contains_key(name) && !describes_body(name) {
                same_field(policy@.fields, fields_of(*reply.response_headers), name)
            } else {
                same_field(policy@.fields, stored@.fields, name)
            } by {
            crate::laws::forwarding::lemma_body_names(name);
        }
    }
}

/// A 304 in answer to a revalidation keeps the stored response; anything else is a new response.
pub proof fn a_304_keeps_the_stored_response(
    stored: &CachePolicy,
    reply: &Reply<'_>,
    status: Status,
    now: Timestamp,
    options: CacheOptions,
    max: u64,
    plan: ResponsePlan,
    fresh: ResponsePlan,
)
    requires
        call_ensures(handle_revalidation, (stored, reply, status, now, options, max), plan),
        call_ensures(handle_miss, (reply, status, now, options, max), fresh),
    ensures
        status.code == 304 ==> keeps_stored(plan, stored, *reply, now),
        status.code != 304 ==> (plan is Store <==> fresh is Store) && (plan is PassThrough
            <==> fresh is PassThrough),
        status.code != 304 && plan is Store ==> stores_as_received(
            plan,
            *reply,
            status,
            now,
            options,
        ),
{
    if status.code == 304 {
        lemma_keeps_stored(plan, stored, *reply, now);
    }
}

/// Whether the transport failed, or the origin by a 5xx.
pub open spec fn origin_failed(reply: Reply<'_>) -> bool {
    reply.failed || (reply.status is Some && 500 <= reply.status->0.code <= 599)
}

/// What is to be done with a reply, by why its request was sent:
/// - where the origin failed a revalidation and the stored response may cover for that, that is
///   served;
/// - where there is no response, nothing is done;
/// - an unsafe request that ended in a 2xx or 3xx removes what is stored under these keys;
/// - a revalidation is settled, and a miss is stored, where that may be.
pub open spec fn settles(
    plan: ResponsePlan,
    state: RequestState<'_>,
    reply: Reply<'_>,
    now: Timestamp,
    options: CacheOptions,
    covers: bool,
    storable: bool,
    max: u64,
    removed: Seq<KeyView>,
) -> bool {
    match state {
        RequestState::Hit => plan is PassThrough,
        RequestState::Unsafe(url) => if reply.status is Some && 200 <= reply.status->0.code <= 399 {
            plan matches ResponsePlan::Invalidate { keys } && key_views(keys@) == removed
        } else {
            plan is PassThrough
        },
        RequestState::Miss => if reply.status is Some && storable && !declares_more(reply, max) {
            stores_as_received(plan, reply, reply.status->0, now, options)
        } else {
            plan is PassThrough
        },
        RequestState::Revalidation(stored) => if origin_failed(reply) && covers {
            plan matches ResponsePlan::ServeStale { head } && head@ == stored@.served_head(now@)
                && head.status.code == stored@.status.code
        } else if reply.status is None {
            plan is PassThrough
        } else if reply.status->0.code == 304 {
            keeps_stored(plan, stored, reply, now)
        } else if storable && !declares_more(reply, max) {
            stores_as_received(plan, reply, reply.status->0, now, options)
        } else {
            plan is PassThrough
        },
    }
}

proof fn lemma_settles(
    plan: ResponsePlan,
    state: RequestState<'_>,
    reply: Reply<'_>,
    now: Timestamp,
    options: CacheOptions,
    covers: bool,
    storable: bool,
    max: u64,
    removed: Seq<KeyView>,
)
    requires
        plan.fits(state, reply, now@, options, max),
        state matches RequestState::Revalidation(stored) ==> covers == stored@.stale_within(
            now@,
            stored@.error_window(),
        ),
        reply.status is Some ==> storable == crate::storability::storable(
            reply.method,
            fields_of(*reply.request_headers),
            reply.status->0,
            fields_of(*reply.response_headers),
            options.shared,
        ),
        state matches RequestState::Unsafe(url) ==> removed == crate::storage::invalidated_keys(
            url@,
            fields_of(*reply.response_headers),
        ),
    ensures
        settles(plan, state, reply, now, options, covers, storable, max, removed),
{
    if let RequestState::Revalidation(stored) = state {
        if !(origin_failed(reply) && covers) && reply.status is Some && reply.status->0.code
            == 304 {
            lemma_keeps_stored(plan, stored, reply, now);
        }
    }
}

/// What a client's cache does with a reply. `stored` is the response that is revalidated, if one
/// is, and `url` what an unsafe request was sent to.
pub proof fn clients_settle_replies<S>(
    cache: &client::Cache<S>,
    state: &RequestState<'_>,
    reply: &Reply<'_>,
    now: Timestamp,
    plan: ResponsePlan,
    stored: &CachePolicy,
    covers: bool,
    storable: bool,
    url: &str,
    removed: Vec<CacheKey>,
)
    requires
        call_ensures(client::Cache::<S>::after_response, (cache, state, reply, now), plan),
        state matches RequestState::Revalidation(policy) ==> policy == stored,
        call_ensures(CachePolicy::is_sie_eligible, (stored, now), covers),
        reply.status is Some ==> call_ensures(
            CachePolicy::is_storable,
            (
                reply.method,
                reply.request_headers,
                reply.status->0,
                reply.response_headers,
                &cache@.options,
            ),
            storable,
        ),
        state matches RequestState::Unsafe(sent) ==> sent@ == url@,
        call_ensures(keys_to_invalidate, (url, reply.response_headers), removed),
    ensures
        settles(
            plan,
            *state,
            *reply,
            now,
            cache@.options,
            covers,
            storable,
            cache@.max_cacheable_size,
            key_views(removed@),
        ),
{
    lemma_settles(
        plan,
        *state,
        *reply,
        now,
        cache@.options,
        covers,
        storable,
        cache@.max_cacheable_size,
        key_views(removed@),
    );
}

/// What a server's cache does with a reply: the same, but that a declared length does not count.
pub proof fn servers_settle_replies<S>(
    cache: &server::Cache<S>,
    state: &RequestState<'_>,
    reply: &Reply<'_>,
    now: Timestamp,
    plan: ResponsePlan,
    stored: &CachePolicy,
    covers: bool,
    storable: bool,
    url: &str,
    removed: Vec<CacheKey>,
)
    requires
        call_ensures(server::Cache::<S>::before_send, (cache, state, reply, now), plan),
        state matches RequestState::Revalidation(policy) ==> policy == stored,
        call_ensures(CachePolicy::is_sie_eligible, (stored, now), covers),
        reply.status is Some ==> call_ensures(
            CachePolicy::is_storable,
            (
                reply.method,
                reply.request_headers,
                reply.status->0,
                reply.response_headers,
                &cache@.options,
            ),
            storable,
        ),
        state matches RequestState::Unsafe(sent) ==> sent@ == url@,
        call_ensures(keys_to_invalidate, (url, reply.response_headers), removed),
    ensures
        settles(
            plan,
            *state,
            *reply,
            now,
            cache@.options,
            covers,
            storable,
            0xffff_ffff_ffff_ffff,
            key_views(removed@),
        ),
{
    lemma_settles(
        plan,
        *state,
        *reply,
        now,
        cache@.options,
        covers,
        storable,
        0xffff_ffff_ffff_ffff,
        key_views(removed@),
    );
}

/// What a client's cache does with the answer to a background revalidation: a 304 keeps the stored
/// response, and a new response is stored where it may be, whatever length it declares.
pub proof fn background_answers_are_settled<S>(
    cache: &client::Cache<S>,
    stored: &CachePolicy,
    reply: &Reply<'_>,
    status: Status,
    now: Timestamp,
    storable: bool,
    plan: ResponsePlan,
)
    requires
        call_ensures(
            client::Cache::<S>::background_revalidation,
            (cache, stored, reply, status, now),
            plan,
        ),
        call_ensures(
            CachePolicy::is_storable,
            (reply.method, reply.request_headers, status, reply.response_headers, &cache@.options),
            storable,
        ),
    ensures
        status.code == 304 ==> keeps_stored(plan, stored, *reply, now),
        status.code != 304 && storable ==> stores_as_received(
            plan,
            *reply,
            status,
            now,
            cache@.options,
        ),
        status.code != 304 && !storable ==> plan is PassThrough,
{
    if status.code == 304 {
        lemma_keeps_stored(plan, stored, *reply, now);
    }
}

/// An unsafe request that ended in a 2xx or 3xx removes what is stored for its own URL, be it for
/// `GET` or for `HEAD`, in a client's cache.
pub proof fn unsafe_requests_invalidate_at_clients<S>(
    cache: &client::Cache<S>,
    url: &str,
    reply: &Reply<'_>,
    now: Timestamp,
    plan: ResponsePlan,
)
    requires
        call_ensures(
            client::Cache::<S>::after_response,
            (cache, &RequestState::Unsafe(url), reply, now),
            plan,
        ),
        reply.status is Some,
        200 <= reply.status->0.code <= 399,
    ensures
        plan is Invalidate,
        key_views(plan->keys@).contains(KeyView { method: Method::Get, url: url@ }),
        key_views(plan->keys@).contains(KeyView { method: Method::Head, url: url@ }),
{
    let keys = key_views(plan->keys@);
    assert(keys[0] == (KeyView { method: Method::Get, url: url@ }));
    assert(keys[1] == (KeyView { method: Method::Head, url: url@ }));
}

/// And so it does in a server's cache.
pub proof fn unsafe_requests_invalidate_at_servers<S>(
    cache: &server::Cache<S>,
    url: &str,
    reply: &Reply<'_>,
    now: Timestamp,
    plan: ResponsePlan,
)
    requires
        call_ensures(
            server::Cache::<S>::before_send,
            (cache, &RequestState::Unsafe(url), reply, now),
            plan,
        ),
        reply.status is Some,
        200 <= reply.status->0.code <= 399,
    ensures
        plan is Invalidate,
        key_views(plan->keys@).contains(KeyView { method: Method::Get, url: url@ }),
        key_views(plan->keys@).contains(KeyView { method: Method::Head, url: url@ }),
{
    let keys = key_views(plan->keys@);
    assert(keys[0] == (KeyView { method: Method::Get, url: url@ }));
    assert(keys[1] == (KeyView { method: Method::Head, url: url@ }));
}

/// Whether the header called `name` of a reply to `url` refers to `target`, and that is on the same
/// host.
pub open spec fn refers_to(
    url: Seq<char>,
    response: Fields,
    name: Seq<char>,
    target: Seq<char>,
) -> bool {
    let reference = field_text(response, name);
    reference is Some && resolved_url(url, reference->0) == Some(target) && host_of_url(target)
        == host_of_url(url)
}

/// What a successful unsafe request removes is exactly what is stored for `GET` and `HEAD` under
/// its own URL and under the URLs on its host to which `Location` and `Content-Location` refer.
pub proof fn what_is_removed(url: &str, headers: &Headers, r: Vec<CacheKey>, key: KeyView)
    requires
        call_ensures(keys_to_invalidate, (url, headers), r),
    ensures
        key_views(r@).contains(key) <==> (key.method == Method::Get || key.method == Method::Head)
            && (key.url == url@ || refers_to(url@, fields_of(*headers), "location"@, key.url)
            || refers_to(url@, fields_of(*headers), "content-location"@, key.url)),
{
    let fields = fields_of(*headers);
    let own = crate::storage::stored_keys(url@);
    let first = crate::storage::linked_keys(url@, fields, "location"@);
    let second = crate::storage::linked_keys(url@, fields, "content-location"@);
    let all = key_views(r@);
    lemma_stored_keys(url@, key);
    lemma_linked(url@, fields, "location"@, key);
    lemma_linked(url@, fields, "content-location"@, key);
    if all.contains(key) {
        let i = choose|i: int| 0 <= i < all.len() && all[i] == key;
        if i < own.len() {
            assert(own[i] == key);
        } else if i < own.len() + first.len() {
            assert(first[i - own.len()] == key);
        } else {
            assert(second[i - own.len() - first.len()] == key);
        }
    }
    if own.contains(key) {
        let i = choose|i: int| 0 <= i < own.len() && own[i] == key;
        assert(all[i] == key);
    }
    if first.contains(key) {
        let i = choose|i: int| 0 <= i < first.len() && first[i] == key;
        assert(all[own.len() + i] == key);
    }
    if second.contains(key) {
        let i = choose|i: int| 0 <= i < second.len() && second[i] == key;
        assert(all[own.len() + first.len() + i] == key);
    }
}

proof fn lemma_stored_keys(url: Seq<char>, key: KeyView)
    ensures
        crate::storage::stored_keys(url).contains(key) <==> key.url == url && (key.method
            == Method::Get || key.method == Method::Head),
{
    let own = crate::storage::stored_keys(url);
    assert(own[0] == (KeyView { method: Method::Get, url }));
    assert(own[1] == (KeyView { method: Method::Head, url }));
    if own.contains(key) {
        let i = choose|i: int| 0 <= i < own.len() && own[i] == key;
        assert(i == 0 || i == 1);
    }
}

proof fn lemma_linked(url: Seq<char>, fields: Fields, name: Seq<char>, key: KeyView)
    ensures
        crate::storage::linked_keys(url, fields, name).contains(key) <==> refers_to(
            url,
            fields,
            name,
            key.url,
        ) && (key.method == Method::Get || key.method == Method::Head),
{
    if let Some(reference) = field_text(fields, name) {
        if let Some(target) = resolved_url(url, reference) {
            lemma_stored_keys(target, key);
        }
    }
}

/// A response that was stored is what later requests get: served from a policy that a reply was
/// stored under, a request is answered with the status of that reply and with every field of it
/// that may be forwarded, but for `Age`; and it is the one for the requests that agree with the one
/// it was sent for on all that its `Vary` lists.
pub proof fn what_was_received_is_what_is_served(
    reply: &Reply<'_>,
    status: Status,
    time: Timestamp,
    options: CacheOptions,
    max: u64,
    plan: ResponsePlan,
    now: Timestamp,
    request: &Headers,
    selected: bool,
    head: CachedResponse,
)
    requires
        call_ensures(handle_miss, (reply, status, time, options, max), plan),
        plan is Store,
        call_ensures(CachePolicy::vary_matches, (&plan->Store_policy, request), selected),
        call_ensures(CachePolicy::cached_response, (&plan->Store_policy, now), head),
    ensures
        head.status.code == status.code,
        forall|name: Seq<char>|
            #![trigger fields_of(head.headers).contains_key(name)]
            name != "age"@ ==> if stays_behind(fields_of(*reply.response_headers), name) {
                !fields_of(head.headers).contains_key(name)
            } else {
                same_field(fields_of(head.headers), fields_of(*reply.response_headers), name)
            },
        selected ==> agree_on_listed(
            fields_of(*reply.response_headers),
            fields_of(*reply.request_headers),
            fields_of(*request),
        ),
{
    crate::laws::lookups::heeded_names_are_in_lower_case();
    let stored = fields_of(*reply.response_headers);
    assert forall|name: Seq<char>|
        #![trigger fields_of(head.headers).contains_key(name)]
        name != "age"@ implies if stays_behind(stored, name) {
            !fields_of(head.headers).contains_key(name)
        } else {
            same_field(fields_of(head.headers), stored, name)
        } by {
        crate::laws::forwarding::lemma_hop_by_hop(stored, name);
    }
    if selected {
        let first = fields_of(*reply.request_headers);
        let names = listed_names(stored, "vary"@);
        let vary = selection(stored, first);
        assert forall|name: Seq<char>| #[trigger] names.contains(name) implies
            crate::headers::field_value(first, name) == crate::headers::field_value(
            fields_of(*request),
            name,
        ) by {
            let i = choose|i: int| 0 <= i < names.len() && names[i] == name;
            assert(vary[i].1 == crate::headers::field_value(fields_of(*request), vary[i].0));
            crate::laws::lookups::fields_are_found_in_any_case(first, name);
            crate::laws::lookups::fields_are_found_in_any_case(fields_of(*request), name);
        }
    }
}

/// A URL is removed under `GET` and under `HEAD`; what is removed already stays so.
pub proof fn urls_are_removed_for_reads(keys: &mut Vec<CacheKey>, url: &str, r: ())
    requires
        call_ensures(push_stored_keys, (keys, url), r),
    ensures
        final(keys)@.len() == old(keys)@.len() + 2,
        key_views(final(keys)@).take(old(keys)@.len() as int) == key_views(old(keys)@),
        key_views(final(keys)@)[old(keys)@.len() as int] == (KeyView {
            method: Method::Get,
            url: url@,
        }),
        key_views(final(keys)@)[old(keys)@.len() as int + 1] == (KeyView {
            method: Method::Head,
            url: url@,
        }),
{
    assert(key_views(final(keys)@).len() == final(keys)@.len());
    assert(key_views(old(keys)@).len() == old(keys)@.len());
    assert(key_views(final(keys)@).take(old(keys)@.len() as int) =~= key_views(old(keys)@));
}

} // verus!
