//! Laws on which requests are answered from storage, and with what.
use trillium_http::Headers;
use vstd::prelude::*;

use crate::client;
use crate::dates::parsed_http_date;
use crate::directives::directives_in;
use crate::engine::{policy_views, start, RequestPlan, Start};
use crate::etag::{etag_opaque, inm_matches, iter_etag_opaques, none_match_names, opaque_parts};
use crate::headers::{field_text, fields_of, list_text, text_view, Fields};
use crate::http::Method;
use crate::laws::lookups::heeded_names_are_in_lower_case;
use crate::policy::{CachePolicy, PolicyView};
use crate::server;
use crate::text::{contains, trim, views};
use crate::time::{Span, Timestamp};
use crate::validation::{ims_matches, BeforeRequest, CachedResponse};

verus! {

/// Whether a request asks for revalidation: by `no-cache`, or by a `Pragma` that says so.
pub open spec fn asks_for_revalidation(request: Fields) -> bool {
    ||| directives_in(request, "cache-control"@) is Some && directives_in(
        request,
        "cache-control"@,
    )->0.no_cache
    ||| list_text(request, "pragma"@) is Some && contains(
        list_text(request, "pragma"@)->0,
        "no-cache"@,
    )
}

/// Time and directives let a stored response answer a request exactly where the request does not
/// ask for revalidation, the response is no older than its `max-age`, has its `min-fresh` left, and
/// is fresh; or is stale by no more than its `max-stale`, if it has one, and neither says
/// `must-revalidate` or `no-cache` nor, in a shared cache, `proxy-revalidate`.
pub proof fn requests_set_the_terms(
    policy: &CachePolicy,
    request: &Headers,
    now: Timestamp,
    lifetime: Span,
    age: Span,
    r: bool,
)
    requires
        call_ensures(CachePolicy::satisfies_without_revalidation, (policy, request, now), r),
        call_ensures(CachePolicy::max_age, (policy,), lifetime),
        call_ensures(CachePolicy::age, (policy, now), age),
    ensures
        ({
            let asked = directives_in(fields_of(*request), "cache-control"@);
            let own = policy@.directives;
            let young = asked is Some && asked->0.max_age is Some ==> age.nanos
                <= asked->0.max_age->0 * 1_000_000_000;
            let left = if age.nanos >= lifetime.nanos {
                0
            } else {
                lifetime.nanos - age.nanos
            };
            let lasting = asked is Some && asked->0.min_fresh is Some ==> left
                >= asked->0.min_fresh->0 * 1_000_000_000;
            let forbidden = own is Some && (own->0.must_revalidate || own->0.no_cache || (
            policy@.options.shared && own->0.proxy_revalidate));
            let taken = asked is Some && asked->0.max_stale is Some && (
            asked->0.max_stale->0 is Some ==> age.nanos - lifetime.nanos
                <= asked->0.max_stale->0->0 * 1_000_000_000);
            r <==> !asks_for_revalidation(fields_of(*request)) && young && lasting && (age.nanos
                < lifetime.nanos || (taken && !forbidden))
        }),
{
}

/// A client has a stored response already exactly where its `If-None-Match` names it or, without
/// that header, its `If-Modified-Since` is no earlier than the stored `Last-Modified`.
pub proof fn conditions_are_evaluated(
    policy: &CachePolicy,
    request: &Headers,
    r: bool,
    list: &str,
    named: bool,
)
    requires
        call_ensures(CachePolicy::inbound_conditional_matches, (policy, request), r),
        list_text(fields_of(*request), "if-none-match"@) is Some ==> list@ == list_text(
            fields_of(*request),
            "if-none-match"@,
        )->0,
        named == none_match_names(list@, field_text(policy@.fields, "etag"@)),
    ensures
        ({
            let since = field_text(fields_of(*request), "if-modified-since"@);
            let changed = field_text(policy@.fields, "last-modified"@);
            if fields_of(*request).contains_key("if-none-match"@) {
                r <==> list_text(fields_of(*request), "if-none-match"@) is Some && named
            } else {
                r <==> since is Some && changed is Some && parsed_http_date(since->0) is Some
                    && parsed_http_date(changed->0) is Some && parsed_http_date(changed->0)->0
                    <= parsed_http_date(since->0)->0
            }
        }),
{
    heeded_names_are_in_lower_case();
}

/// Whether a text has no double quote.
pub open spec fn quote_free(s: Seq<char>) -> bool {
    forall|i: int| 0 <= i < s.len() ==> #[trigger] s[i] != '"'
}

/// An entity tag as it is written.
pub open spec fn quoted(opaque: Seq<char>) -> Seq<char> {
    seq!['"'] + opaque + seq!['"']
}

/// A text is an entity tag with an opaque part exactly where, trimmed, it is that part in double
/// quotes, with `W/` before it or not, and has no other double quote.
pub proof fn tags_are_quoted(text: &str, r: Option<&str>)
    requires
        call_ensures(etag_opaque, (text,), r),
    ensures
        r matches Some(opaque) ==> quote_free(opaque@) && (trim(text@) == quoted(opaque@) || trim(
            text@,
        ) == seq!['W', '/'] + quoted(opaque@)),
        forall|opaque: Seq<char>| #[trigger]
            quote_free(opaque) && (trim(text@) == quoted(opaque) || trim(text@) == seq!['W', '/']
                + quoted(opaque)) ==> r is Some && r->0@ == opaque,
{
    let t = crate::etag::without_weak_prefix(trim(text@));
    if let Some(opaque) = r {
        lemma_first_quote(t.skip(1));
        assert(t =~= quoted(opaque@));
        assert forall|i: int| 0 <= i < opaque@.len() implies #[trigger] opaque@[i] != '"' by {
            assert(t.skip(1)[i] == opaque@[i]);
        }
        if t != trim(text@) {
            assert(trim(text@) =~= seq!['W', '/'] + t);
        }
    }
    assert forall|opaque: Seq<char>| #[trigger]
        quote_free(opaque) && (trim(text@) == quoted(opaque) || trim(text@) == seq!['W', '/']
            + quoted(opaque)) implies r is Some && r->0@ == opaque by {
        assert(t =~= quoted(opaque));
        lemma_first_quote_at(t.skip(1), opaque.len() as int);
        assert(t.subrange(1, t.len() - 1) =~= opaque);
    }
}

proof fn lemma_first_quote(s: Seq<char>)
    ensures
        crate::text::first_index(s, '"') <= s.len(),
        forall|i: int| 0 <= i < crate::text::first_index(s, '"') ==> s[i] != '"',
        crate::text::first_index(s, '"') < s.len() ==> s[crate::text::first_index(s, '"') as int]
            == '"',
    decreases s.len(),
{
    if s.len() > 0 && s[0] != '"' {
        lemma_first_quote(s.skip(1));
        assert forall|i: int| 0 <= i < crate::text::first_index(s, '"') implies s[i] != '"' by {
            if i > 0 {
                assert(s.skip(1)[i - 1] == s[i]);
            }
        }
    }
}

proof fn lemma_first_quote_at(s: Seq<char>, at: int)
    requires
        0 <= at < s.len(),
        s[at] == '"',
        forall|i: int| 0 <= i < at ==> s[i] != '"',
    ensures
        crate::text::first_index(s, '"') == at,
{
    lemma_first_quote(s);
}

/// Lists of tags are read tag by tag: a tag at the beginning of a list is its first one, and the
/// others are those of what follows it; white space, commas and weak marks before a tag do not
/// matter, and where no tag begins the list is over.
pub proof fn lists_are_read_tag_by_tag(opaque: Seq<char>, rest: Seq<char>, c: char)
    requires
        quote_free(opaque),
    ensures
        opaque_parts(quoted(opaque) + rest) == seq![opaque] + opaque_parts(rest),
        opaque_parts(seq!['W', '/'] + rest) == opaque_parts(rest),
        c == ',' || crate::text::is_white_space(c) ==> opaque_parts(seq![c] + rest)
            == opaque_parts(rest),
        opaque_parts(Seq::empty()) == Seq::<Seq<char>>::empty(),
        c != ',' && c != '"' && c != 'W' && !crate::text::is_white_space(c) ==> opaque_parts(
            seq![c] + rest,
        ) == Seq::<Seq<char>>::empty(),
        rest.len() == 0 || rest[0] != '/' ==> opaque_parts(seq!['W'] + rest) == Seq::<
            Seq<char>,
        >::empty(),
        opaque_parts(seq!['"'] + opaque) == Seq::<Seq<char>>::empty(),
{
    let open = seq!['"'] + opaque;
    assert(crate::etag::skip_separators(open) == open);
    assert(open.skip(1) =~= opaque);
    lemma_first_quote(opaque);
    let marked = seq!['W'] + rest;
    if rest.len() > 0 {
        assert(marked[1] == rest[0]);
    }
    let s = quoted(opaque) + rest;
    assert(crate::etag::skip_separators(s) == s);
    let inner = s.skip(1);
    assert(inner =~= opaque + seq!['"'] + rest);
    lemma_first_quote_at(inner, opaque.len() as int);
    assert(inner.take(opaque.len() as int) =~= opaque);
    assert(inner.skip(opaque.len() as int + 1) =~= rest);
    let weak = seq!['W', '/'] + rest;
    assert(weak.skip(2) =~= rest);
    assert(crate::etag::skip_separators(weak) == crate::etag::skip_separators(rest));
    let other = seq![c] + rest;
    assert(other.skip(1) =~= rest);
}

/// An `If-None-Match` names a stored response exactly where it is a star, or where one of its tags
/// has the same opaque part as the stored tag.
pub proof fn equal_opaque_parts_match(
    list: &str,
    tag: Option<&str>,
    r: bool,
    tags: Vec<&str>,
    trimmed: &str,
    opaque: Option<&str>,
)
    requires
        call_ensures(inm_matches, (list, tag), r),
        trimmed@ == trim(list@),
        call_ensures(iter_etag_opaques, (trimmed,), tags),
        tag is Some ==> call_ensures(etag_opaque, (tag->0,), opaque),
    ensures
        r == none_match_names(list@, text_view(tag)),
        views(tags@) == opaque_parts(trimmed@),
        r <==> trim(list@) == seq!['*'] || (tag is Some && opaque is Some && views(tags@).contains(
            opaque->0@,
        )),
{
}

/// Dates are compared to the second.
pub proof fn dates_are_compared(since: &str, changed: Option<&str>, r: bool)
    requires
        call_ensures(ims_matches, (since, changed), r),
    ensures
        r <==> changed is Some && parsed_http_date(since@) is Some && parsed_http_date(
            changed->0@,
        ) is Some && parsed_http_date(changed->0@)->0 <= parsed_http_date(since@)->0,
{
}

/// What one stored response means for a request: it answers exactly where the request selects it
/// and time and directives allow it, with a 304 where the client has it already; and otherwise the
/// origin is asked, with the revalidation headers.
pub proof fn one_response_answers_or_is_revalidated(
    policy: &CachePolicy,
    request: &Headers,
    now: Timestamp,
    selected: bool,
    allowed: bool,
    known: bool,
    r: BeforeRequest,
)
    requires
        call_ensures(CachePolicy::before_request, (policy, request, now), r),
        call_ensures(CachePolicy::vary_matches, (policy, request), selected),
        call_ensures(CachePolicy::satisfies_without_revalidation, (policy, request, now), allowed),
        call_ensures(CachePolicy::inbound_conditional_matches, (policy, request), known),
    ensures
        r is Fresh <==> selected && allowed && !known,
        r is NotModified <==> selected && allowed && known,
        r matches BeforeRequest::Stale { matches, .. } ==> matches == selected,
{
}

/// Whether a request selects the policy at `index` of a list and none before it.
pub open spec fn is_first(policies: Seq<PolicyView>, request: Fields, index: int) -> bool {
    0 <= index < policies.len() && policies[index].selects(request) && (forall|i: int|
        0 <= i < index ==> !(#[trigger] policies[i]).selects(request))
}

/// The first stored response that a request selects decides: it is served where it answers, told to
/// be known where the client has it, served stale where it may be and the handler revalidates in
/// the background, and revalidated otherwise. Where none is selected the request is a miss.
pub open spec fn decides(
    plan: RequestPlan,
    policies: Seq<PolicyView>,
    request: Fields,
    now: Timestamp,
    background: bool,
) -> bool {
    &&& forall|index: int|
        #![trigger policies[index]]
        is_first(policies, request, index) ==> {
            let policy = policies[index];
            if policy.answers(request, now@) && !policy.known_to_client(request) {
                plan matches RequestPlan::Serve { index: i, head } && i == index
                    && head.status.code == policy.status.code && head@ == policy.served_head(now@)
            } else if policy.answers(request, now@) {
                plan matches RequestPlan::NotModified { index: i, head } && i == index
                    && head.status.code == 304 && head@ == policy.not_modified_head(now@)
            } else if background && policy.background_use(now@) {
                plan matches RequestPlan::ServeStale { index: i, head, request_headers } && i
                    == index && head.status.code == policy.status.code && head@
                    == policy.served_head(now@) && fields_of(request_headers)
                    == policy.revalidation_fields(request)
            } else {
                plan matches RequestPlan::Revalidate { index: i, request_headers } && i == index
                    && fields_of(request_headers) == policy.revalidation_fields(request)
            }
        }
    &&& (forall|i: int| 0 <= i < policies.len() ==> !(#[trigger] policies[i]).selects(request))
        ==> plan is Miss
}

proof fn lemma_decides(
    plan: RequestPlan,
    policies: Seq<PolicyView>,
    request: Fields,
    now: Timestamp,
    background: bool,
)
    requires
        plan.fits(policies, request, now@, background),
    ensures
        decides(plan, policies, request, now, background),
{
    assert forall|i: int, j: int|
        is_first(policies, request, i) && is_first(policies, request, j) implies i == j by {
        if i < j {
            assert(!policies[i].selects(request));
        }
        if j < i {
            assert(!policies[j].selects(request));
        }
    }
}

/// A client's cache goes by the first stored response that a request selects, and revalidates in
/// the background.
pub proof fn the_first_selected_decides_for_clients<S>(
    cache: &client::Cache<S>,
    policies: &Vec<&CachePolicy>,
    request: &Headers,
    now: Timestamp,
    plan: RequestPlan,
)
    requires
        call_ensures(client::Cache::<S>::run, (cache, policies, request, now), plan),
    ensures
        decides(plan, policy_views(policies@), fields_of(*request), now, true),
{
    lemma_decides(plan, policy_views(policies@), fields_of(*request), now, true);
}

/// A server's cache goes by the first stored response that a request selects, and revalidates
/// before it serves.
pub proof fn the_first_selected_decides_for_servers<S>(
    cache: &server::Cache<S>,
    policies: &Vec<&CachePolicy>,
    request: &Headers,
    now: Timestamp,
    plan: RequestPlan,
)
    requires
        call_ensures(server::Cache::<S>::run, (cache, policies, request, now), plan),
    ensures
        decides(plan, policy_views(policies@), fields_of(*request), now, false),
{
    lemma_decides(plan, policy_views(policies@), fields_of(*request), now, false);
}

/// The lists of policies that a plan is made for are those that it was given, in order.
pub proof fn policies_are_considered_in_order(policies: &Vec<&CachePolicy>)
    ensures
        policy_views(policies@).len() == policies@.len(),
        forall|i: int|
            0 <= i < policies@.len() ==> #[trigger] policy_views(policies@)[i] == policies@[i]@,
{
}

/// What is meant by a response that is selected, that answers, that the client knows or that may be
/// served meanwhile, by its heads and by its revalidation request, is what is computed of that one
/// response.
pub proof fn decisions_are_those_of_one_response(
    policy: &CachePolicy,
    request: &Headers,
    now: Timestamp,
    selected: bool,
    allowed: bool,
    known: bool,
    meanwhile: bool,
    headers: Headers,
    head: CachedResponse,
    bare: CachedResponse,
)
    requires
        call_ensures(CachePolicy::vary_matches, (policy, request), selected),
        call_ensures(CachePolicy::satisfies_without_revalidation, (policy, request, now), allowed),
        call_ensures(CachePolicy::inbound_conditional_matches, (policy, request), known),
        call_ensures(CachePolicy::is_swr_eligible, (policy, now), meanwhile),
        call_ensures(CachePolicy::revalidation_request_headers, (policy, request), headers),
        call_ensures(CachePolicy::cached_response, (policy, now), head),
        call_ensures(CachePolicy::cached_response_304, (policy, now), bare),
    ensures
        policy@.served_head(now@) == head@,
        policy@.not_modified_head(now@) == bare@,
        head@.status == head.status && head@.fields == fields_of(head.headers),
        bare@.status == bare.status && bare@.fields == fields_of(bare.headers),
        policy@.selects(fields_of(*request)) == selected,
        policy@.answers(fields_of(*request), now@) == (selected && allowed),
        policy@.known_to_client(fields_of(*request)) == known,
        policy@.background_use(now@) == meanwhile,
        policy@.revalidation_fields(fields_of(*request)) == fields_of(headers),
{
}

/// Whether a method is read-only by its definition.
pub open spec fn is_read_only(method: Method) -> bool {
    match method {
        Method::Get | Method::Head | Method::Options | Method::Trace => true,
        Method::Pri | Method::PropFind | Method::Query | Method::Report | Method::Search => true,
        _ => false,
    }
}

/// A request is looked up exactly where its method is read-only, under that method and its URL.
pub proof fn read_only_requests_are_looked_up(method: Method, url: &str, r: Start)
    requires
        call_ensures(start, (method, url), r),
    ensures
        r is LookUp <==> is_read_only(method),
        r matches Start::LookUp { key } ==> key@.method == method && key@.url == url@,
{
}

} // verus!
