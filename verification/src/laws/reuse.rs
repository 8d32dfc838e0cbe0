//! Laws on when a stored response answers a request, and how it is served.
use vstd::prelude::*;

use crate::directives::directives_in;
use crate::engine::RequestPlan;
use crate::freshness::varies_by_all;
use crate::headers::{field_value, has_field, Fields};
use crate::http::{Method, Status, NOT_MODIFIED};
use crate::options::CacheOptions;
use crate::policy::{captured, listed_names, pragma_no_cache, selection, PolicyView};
use crate::text::lower;
use crate::validation::{connection_names, end_to_end, hop_by_hop_names, metadata_names};

verus! {

/// A stored response is the one that its own request selects, unless it varies by everything.
pub proof fn a_response_is_selected_by_its_own_request(
    method: Method,
    request: Fields,
    status: Status,
    response: Fields,
    time: int,
    options: CacheOptions,
)
    ensures
        captured(
            method,
            selection(response, request),
            status,
            response,
            time,
            options,
        ).selects(request) <==> (forall|i: int|
            0 <= i < selection(response, request).len() ==> (#[trigger] selection(
                response,
                request,
            )[i]).0 != "*"@),
{
    let vary = selection(response, request);
    assert forall|i: int| 0 <= i < vary.len() implies field_value(request, (#[trigger] vary[i]).0)
        == vary[i].1 by {}
    let policy = captured(method, vary, status, response, time, options);
    assert forall|i: int| 0 <= i < vary.len() implies #[trigger] policy.vary[i] == vary[i] by {}
    if policy.selects(request) {
        assert forall|i: int| 0 <= i < vary.len() implies (#[trigger] vary[i]).0 != "*"@ by {
            assert(policy.vary[i].0 != "*"@);
        }
    }
}

/// A request that differs in a selecting header does not select a stored response.
pub proof fn another_value_selects_another_response(policy: PolicyView, request: Fields, i: int)
    requires
        0 <= i < policy.vary.len(),
        field_value(request, policy.vary[i].0) != policy.vary[i].1,
    ensures
        !policy.selects(request),
{
    let entry = policy.vary[i];
}

/// Policies of the same variant are selected by the same requests.
pub proof fn a_variant_is_selected_as_one(a: PolicyView, b: PolicyView, request: Fields)
    requires
        a.vary == b.vary,
    ensures
        a.selects(request) == b.selects(request),
{
}

/// Of the policies that vary by the same headers, a request selects those of one variant at most.
pub proof fn a_request_selects_one_variant(a: PolicyView, b: PolicyView, request: Fields)
    requires
        a.selects(request),
        b.selects(request),
        a.vary.len() == b.vary.len(),
        forall|i: int| 0 <= i < a.vary.len() ==> (#[trigger] a.vary[i]).0 == b.vary[i].0,
    ensures
        a.vary == b.vary,
{
    assert forall|i: int| 0 <= i < a.vary.len() implies a.vary[i] == b.vary[i] by {
        assert(a.vary[i].0 == b.vary[i].0);
        assert(field_value(request, a.vary[i].0) == a.vary[i].1);
        assert(field_value(request, b.vary[i].0) == b.vary[i].1);
    }
    assert(a.vary =~= b.vary);
}

/// Whether a request makes no demands on the cache: it has no `Cache-Control`, `Pragma`,
/// `If-None-Match` or `If-Modified-Since`.
pub open spec fn undemanding(request: Fields) -> bool {
    &&& !has_field(request, "cache-control"@)
    &&& !has_field(request, "pragma"@)
    &&& !has_field(request, "if-none-match"@)
    &&& !has_field(request, "if-modified-since"@)
}

/// What was stored is served: within the lifetime of a response, an undemanding request that
/// selects it is answered with the stored status, and with the stored fields that may be forwarded
/// beside the current `Age`.
pub proof fn a_stored_response_is_served_while_fresh(
    policy: PolicyView,
    request: Fields,
    now: int,
    plan: RequestPlan,
    background: bool,
)
    requires
        undemanding(request),
        policy.selects(request),
        !policy.stale(now),
        plan.fits(seq![policy], request, now, background),
    ensures
        plan matches RequestPlan::Serve { index, head } && index == 0 && head@
            == policy.served_head(now) && head@.status == policy.status,
{
    let policies = seq![policy];
    assert(policies[0] == policy);
    assert(policy.answers(request, now));
    assert(!policy.known_to_client(request));
}

/// A request that says `no-cache`, be it by `Pragma`, always makes the cache ask the origin: no
/// stored response answers it, and one that is served at once by its `stale-while-revalidate` window
/// is revalidated in the background.
pub proof fn no_cache_requests_reach_the_origin(
    policies: Seq<PolicyView>,
    request: Fields,
    now: int,
    plan: RequestPlan,
    background: bool,
)
    requires
        (directives_in(request, "cache-control"@) matches Some(cc) && cc.no_cache)
            || pragma_no_cache(request),
        plan.fits(policies, request, now, background),
    ensures
        forall|i: int|
            0 <= i < policies.len() ==> !(#[trigger] policies[i]).answers(request, now),
        plan !is Serve,
        plan !is NotModified,
{
}

/// A stale response that says `must-revalidate` is never served without asking the origin first,
/// whatever the request would take.
pub proof fn must_revalidate_is_heeded(
    policy: PolicyView,
    request: Fields,
    now: int,
    plan: RequestPlan,
    background: bool,
)
    requires
        policy.stale(now),
        policy.directives matches Some(cc) && cc.must_revalidate,
        plan.fits(seq![policy], request, now, background),
    ensures
        !policy.answers(request, now),
        plan is Revalidate || plan is Miss,
{
    assert(seq![policy][0] == policy);
}

/// A response that requires revalidation on every use, by `no-cache` or, in a shared cache, by
/// `proxy-revalidate`, is never served without asking the origin first: not as a fresh one, nor to a request that takes stale
/// ones, nor while it is revalidated in the background.
pub proof fn every_use_is_revalidated(
    policy: PolicyView,
    request: Fields,
    now: int,
    plan: RequestPlan,
    background: bool,
)
    requires
        policy.always_revalidated(),
        plan.fits(seq![policy], request, now, background),
    ensures
        !policy.answers(request, now),
        plan is Revalidate || plan is Miss,
{
    assert(policy.stale(now));
    assert(seq![policy][0] == policy);
}

/// A response that varies by everything is never reused: no request selects it.
pub proof fn varying_by_all_selects_nothing(policy: PolicyView, first: Fields, request: Fields)
    requires
        policy.vary == selection(policy.fields, first),
        varies_by_all(policy.fields),
    ensures
        !policy.selects(request),
{
    reveal_strlit("*");
    let names = listed_names(policy.fields, "vary"@);
    let i = choose|i: int| 0 <= i < names.len() && names[i] == "*"@;
    assert(lower("*"@) =~= "*"@);
    assert(policy.vary[i].0 == "*"@);
}

/// Whether all that a request asks of the cache is that it takes a response however stale.
pub open spec fn any_staleness(request: Fields) -> bool {
    &&& !pragma_no_cache(request)
    &&& directives_in(request, "cache-control"@) matches Some(cc)
    &&& cc.max_stale == Some(None::<u64>)
    &&& !cc.no_cache
    &&& cc.max_age is None
    &&& cc.min_fresh is None
}

/// A shared cache's rule on cookies bears on freshness alone: within its `stale-while-revalidate`
/// window such a response is served while it is revalidated in the background, unless it says
/// `no-cache`, and a request that takes a response this stale is answered by it, unless that or
/// `must-revalidate` forbids it.
pub proof fn cookies_do_not_forbid_stale_use(policy: PolicyView, now: int)
    requires
        policy.options.shared,
        has_field(policy.fields, "set-cookie"@),
        policy.directives matches Some(cc) && !cc.no_cache && !cc.must_revalidate
            && !cc.proxy_revalidate,
    ensures
        policy.background_use(now) == policy.stale_within(now, policy.revalidate_window()),
        forall|request: Fields|
            policy.selects(request) && policy.stale(now) && any_staleness(request)
                ==> #[trigger] policy.answers(request, now),
{
}

/// Without `max-stale` in the request, a stale response is never served without asking the origin
/// first, unless it is within its `stale-while-revalidate` window.
pub proof fn stale_responses_are_not_served_unasked(
    policy: PolicyView,
    request: Fields,
    now: int,
    plan: RequestPlan,
    background: bool,
)
    requires
        policy.stale(now),
        !(directives_in(request, "cache-control"@) matches Some(cc) && cc.max_stale is Some),
        plan.fits(seq![policy], request, now, background),
    ensures
        !policy.answers(request, now),
        plan is Revalidate || plan is Miss || (plan is ServeStale && policy.stale_within(
            now,
            policy.revalidate_window(),
        )),
{
    assert(seq![policy][0] == policy);
}

/// A request with `max-age` is answered by no older response, and one with `min-fresh` by none that
/// expires sooner.
pub proof fn request_limits_are_heeded(policy: PolicyView, request: Fields, now: int)
    requires
        policy.answers(request, now),
    ensures
        directives_in(request, "cache-control"@) matches Some(cc) ==> {
            &&& cc.max_age matches Some(secs) ==> policy.age(now) <= crate::time::secs_span(
                secs as nat,
            )
            &&& cc.min_fresh matches Some(secs) ==> policy.remaining(now) >= crate::time::secs_span(
                secs as nat,
            )
        },
{
}

proof fn lemma_hop_names_unlike_age()
    ensures
        !hop_by_hop_names().contains(lower("age"@)),
{
    reveal_strlit("age");
    reveal_strlit("connection");
    reveal_strlit("keep-alive");
    reveal_strlit("proxy-authenticate");
    reveal_strlit("proxy-authorization");
    reveal_strlit("te");
    reveal_strlit("trailer");
    reveal_strlit("transfer-encoding");
    reveal_strlit("upgrade");
    let names = hop_by_hop_names();
    assert(lower("age"@).len() == 3);
    assert forall|i: int| 0 <= i < names.len() implies (#[trigger] names[i]).len() != 3 by {
        assert(names[0].len() == 10);
        assert(names[1].len() == 10);
        assert(names[2].len() == 18);
        assert(names[3].len() == 19);
        assert(names[4].len() == 2);
        assert(names[5].len() == 7);
        assert(names[6].len() == 17);
        assert(names[7].len() == 7);
    }
}

/// What may be forwarded may be forwarded again: copying the end-to-end fields a second time
/// changes nothing.
pub proof fn end_to_end_fields_stay(fields: Fields)
    ensures
        end_to_end(end_to_end(fields)) == end_to_end(fields),
{
    let once = end_to_end(fields);
    let hop = hop_by_hop_names();
    let names = hop + connection_names(fields);
    assert(names[0] == lower("connection"@));
    assert(names.contains(lower("connection"@)));
    assert(connection_names(once) =~= Seq::empty());
    let again = hop + connection_names(once);
    assert(again =~= hop);
    assert forall|name: Seq<char>| again.contains(name) implies names.contains(name) by {
        let i = choose|i: int| 0 <= i < hop.len() && hop[i] == name;
        assert(names[i] == name);
    }
    assert(end_to_end(once) =~= once);
}

/// A response served from the cache has no hop-by-hop field, none that `Connection` declares to be
/// one except `Age`, and every other field as it was stored.
pub proof fn served_heads_have_end_to_end_fields(policy: PolicyView, now: int)
    ensures
        forall|name: Seq<char>|
            hop_by_hop_names().contains(name) ==> !(#[trigger] policy.served_head(
                now,
            ).fields.contains_key(name)),
        forall|name: Seq<char>|
            connection_names(policy.fields).contains(name) && name != lower("age"@) ==> !(
            #[trigger] policy.served_head(now).fields.contains_key(name)),
        forall|name: Seq<char>|
            !hop_by_hop_names().contains(name) && !connection_names(policy.fields).contains(name)
                && name != lower("age"@) ==> (#[trigger] policy.served_head(
                now,
            ).fields.contains_key(name) <==> policy.fields.contains_key(name)) && (
            policy.fields.contains_key(name) ==> policy.served_head(now).fields[name]
                == policy.fields[name]),
        policy.served_head(now).fields[lower("age"@)] == policy.age_lines(now),
{
    lemma_hop_names_unlike_age();
    let hop = hop_by_hop_names();
    let listed = connection_names(policy.fields);
    assert forall|name: Seq<char>|
        #[trigger] (hop + listed).contains(name) <==> hop.contains(name) || listed.contains(
            name,
        ) by {
        if hop.contains(name) {
            let i = choose|i: int| 0 <= i < hop.len() && hop[i] == name;
            assert((hop + listed)[i] == name);
        }
        if listed.contains(name) {
            let i = choose|i: int| 0 <= i < listed.len() && listed[i] == name;
            assert((hop + listed)[hop.len() + i] == name);
        }
    }
}

/// The head that tells a client to keep its copy has caching metadata and `Age`, and nothing that
/// describes a body.
pub proof fn not_modified_heads_describe_no_body(policy: PolicyView, now: int)
    ensures
        policy.not_modified_head(now).status.code == NOT_MODIFIED,
        forall|name: Seq<char>| #[trigger]
            policy.not_modified_head(now).fields.contains_key(name) ==> metadata_names().contains(
                name,
            ) || name == lower("age"@),
        !has_field(policy.not_modified_head(now).fields, "content-length"@),
        !has_field(policy.not_modified_head(now).fields, "content-type"@),
        !has_field(policy.not_modified_head(now).fields, "content-encoding"@),
{
    reveal_strlit("age");
    reveal_strlit("date");
    reveal_strlit("etag");
    reveal_strlit("last-modified");
    reveal_strlit("vary");
    reveal_strlit("cache-control");
    reveal_strlit("content-location");
    reveal_strlit("expires");
    reveal_strlit("content-length");
    reveal_strlit("content-type");
    reveal_strlit("content-encoding");
    let names = metadata_names();
    assert(names[0].len() == 4);
    assert(names[1].len() == 4);
    assert(names[2].len() == 13);
    assert(names[3].len() == 4);
    assert(names[4].len() == 13);
    assert(names[5].len() == 16);
    assert(names[5][8] == 'l');
    assert(names[6].len() == 7);
    assert(lower("content-length"@).len() == 14);
    assert(lower("content-type"@).len() == 12);
    assert(lower("content-encoding"@).len() == 16);
    assert(lower("content-encoding"@)[8] == 'e');
    assert(lower("age"@).len() == 3);
}

} // verus!
