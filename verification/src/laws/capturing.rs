//! Laws on what is captured of an exchange, and which requests select it.
use trillium_http::Headers;
use vstd::prelude::*;

use crate::directives::{
    directives, directives_in, effective_response_cache_control, parsed_directives, targeted,
    CacheControl,
};
use crate::headers::{field_value, fields_of, list_text, Fields};
use crate::http::{Method, Status};
use crate::laws::lookups::{fields_are_found_in_any_case, lower_case_is_that_of_ascii};
use crate::options::CacheOptions;
use crate::policy::{
    build_vary_snapshot, listed_names, pragma_is_no_cache, selection, selection_view,
    stored_directives, CachePolicy,
};
use crate::structured::is_dictionary;
use crate::text::{contains, lower};
use crate::time::Timestamp;

verus! {

/// A policy keeps the method, the status, the headers, the time and the options of its exchange as
/// they were.
pub proof fn exchanges_are_captured_as_they_were(
    method: Method,
    request: &Headers,
    status: Status,
    response: Headers,
    time: Timestamp,
    options: CacheOptions,
    r: CachePolicy,
)
    requires
        call_ensures(CachePolicy::new, (method, request, status, response, time, options), r),
    ensures
        r@.method == method,
        r@.status.code == status.code,
        r@.fields == fields_of(response),
        r@.response_time == time.secs * 1_000_000_000 + time.nanos,
        r@.options == options,
{
}

/// A policy that is rebuilt from the parts of another is the same policy.
pub proof fn rebuilt_policies_are_the_same(
    method: Method,
    request: &Headers,
    status: Status,
    response: Headers,
    time: Timestamp,
    options: CacheOptions,
    policy: CachePolicy,
    snapshot: Vec<(String, Option<Vec<u8>>)>,
    headers: Headers,
    r: CachePolicy,
)
    requires
        call_ensures(CachePolicy::new, (method, request, status, response, time, options), policy),
        selection_view(snapshot@) == policy@.vary,
        fields_of(headers) == policy@.fields,
        call_ensures(
            CachePolicy::restore,
            (policy@.method, snapshot, policy@.status, headers, time, policy@.options),
            r,
        ),
    ensures
        r@ == policy@,
{
}

/// The selecting headers are those that `Vary` lists, in its order: each by its name in lower case,
/// with the value that the request has for it.
pub proof fn every_listed_header_selects(
    response: &Headers,
    request: &Headers,
    r: Vec<(String, Option<Vec<u8>>)>,
)
    requires
        call_ensures(build_vary_snapshot, (response, request), r),
    ensures
        ({
            let names = listed_names(fields_of(*response), "vary"@);
            let snapshot = selection_view(r@);
            &&& snapshot.len() == names.len()
            &&& forall|i: int|
                0 <= i < names.len() ==> (#[trigger] snapshot[i]).0 == lower(names[i])
                    && snapshot[i].1 == field_value(fields_of(*request), names[i])
        }),
{
    let names = listed_names(fields_of(*response), "vary"@);
    let snapshot = selection_view(r@);
    assert forall|i: int| 0 <= i < names.len() implies (#[trigger] snapshot[i]).0 == lower(names[i])
        && snapshot[i].1 == field_value(fields_of(*request), names[i]) by {
        fields_are_found_in_any_case(fields_of(*request), names[i]);
    }
}

/// Whether two requests have the same value for every header that the response's `Vary` lists.
pub open spec fn agree_on_listed(response: Fields, first: Fields, second: Fields) -> bool {
    forall|name: Seq<char>| #[trigger]
        listed_names(response, "vary"@).contains(name) ==> field_value(first, name) == field_value(
            second,
            name,
        )
}

/// A stored response is for the requests that agree with its own on every header that its `Vary`
/// lists, and for no other; where that lists a star it is for none.
pub proof fn responses_are_for_agreeing_requests(
    method: Method,
    first: &Headers,
    status: Status,
    response: Headers,
    time: Timestamp,
    options: CacheOptions,
    policy: CachePolicy,
    second: &Headers,
    r: bool,
)
    requires
        call_ensures(CachePolicy::new, (method, first, status, response, time, options), policy),
        call_ensures(CachePolicy::vary_matches, (&policy, second), r),
    ensures
        r <==> agree_on_listed(fields_of(response), fields_of(*first), fields_of(*second))
            && !listed_names(fields_of(response), "vary"@).contains("*"@),
{
    let fields = fields_of(response);
    let names = listed_names(fields, "vary"@);
    let vary = selection(fields, fields_of(*first));
    assert(policy@.vary == vary);
    assert forall|i: int| 0 <= i < names.len() implies (#[trigger] vary[i]).0 == lower(names[i])
        && vary[i].1 == field_value(fields_of(*first), names[i]) && field_value(
        fields_of(*second),
        vary[i].0,
    ) == field_value(fields_of(*second), names[i]) && (vary[i].0 == "*"@ <==> names[i] == "*"@) by {
        fields_are_found_in_any_case(fields_of(*first), names[i]);
        fields_are_found_in_any_case(fields_of(*second), names[i]);
        lemma_star(names[i]);
    }
    if r {
        assert forall|name: Seq<char>| #[trigger] names.contains(name) implies field_value(
            fields_of(*first),
            name,
        ) == field_value(fields_of(*second), name) by {
            let i = choose|i: int| 0 <= i < names.len() && names[i] == name;
            assert(vary[i].1 == field_value(fields_of(*second), vary[i].0));
        }
        if names.contains("*"@) {
            let i = choose|i: int| 0 <= i < names.len() && names[i] == "*"@;
            assert(vary[i].0 == "*"@);
        }
    }
    if agree_on_listed(fields, fields_of(*first), fields_of(*second)) && !names.contains("*"@) {
        assert forall|i: int| 0 <= i < vary.len() implies (#[trigger] vary[i]).0 != "*"@
            && field_value(fields_of(*second), vary[i].0) == vary[i].1 by {
            assert(names.contains(names[i]));
        }
    }
}

proof fn lemma_star(name: Seq<char>)
    ensures
        lower(name) == "*"@ <==> name == "*"@,
{
    reveal_strlit("*");
    lower_case_is_that_of_ascii(name);
    if lower(name) == "*"@ {
        assert(lower(name)[0] == '*');
        assert(name =~= "*"@);
    }
    if name == "*"@ {
        assert(lower(name) =~= "*"@);
    }
}

/// Two responses of which one `Vary` lists the same headers are one variant exactly where their
/// requests agree on all of those: others stand side by side.
pub proof fn variants_are_told_apart_by_listed_headers(
    method: Method,
    status: Status,
    time: Timestamp,
    options: CacheOptions,
    first: &Headers,
    second: &Headers,
    a: Headers,
    b: Headers,
    x: CachePolicy,
    y: CachePolicy,
    r: bool,
)
    requires
        call_ensures(CachePolicy::new, (method, first, status, a, time, options), x),
        call_ensures(CachePolicy::new, (method, second, status, b, time, options), y),
        listed_names(fields_of(a), "vary"@) == listed_names(fields_of(b), "vary"@),
        call_ensures(CachePolicy::same_variant_as, (&x, &y), r),
    ensures
        r <==> agree_on_listed(fields_of(a), fields_of(*first), fields_of(*second)),
{
    let names = listed_names(fields_of(a), "vary"@);
    let v = selection(fields_of(a), fields_of(*first));
    let w = selection(fields_of(b), fields_of(*second));
    assert(x@.vary == v);
    assert(y@.vary == w);
    assert forall|i: int| 0 <= i < names.len() implies (#[trigger] v[i]).0 == w[i].0 && v[i].1
        == field_value(fields_of(*first), names[i]) && w[i].1 == field_value(
        fields_of(*second),
        names[i],
    ) by {
        fields_are_found_in_any_case(fields_of(*first), names[i]);
        fields_are_found_in_any_case(fields_of(*second), names[i]);
    }
    if r {
        assert forall|name: Seq<char>| #[trigger] names.contains(name) implies field_value(
            fields_of(*first),
            name,
        ) == field_value(fields_of(*second), name) by {
            let i = choose|i: int| 0 <= i < names.len() && names[i] == name;
            assert(v[i] == w[i]);
        }
    }
    if agree_on_listed(fields_of(a), fields_of(*first), fields_of(*second)) {
        assert forall|i: int| 0 <= i < v.len() implies v[i] == w[i] by {
            assert(names.contains(names[i]));
            assert(v[i].0 == w[i].0);
        }
        assert(v =~= w);
    }
}

/// Responses that list different headers are different variants.
pub proof fn other_lists_make_other_variants(
    method: Method,
    status: Status,
    time: Timestamp,
    options: CacheOptions,
    first: &Headers,
    second: &Headers,
    a: Headers,
    b: Headers,
    x: CachePolicy,
    y: CachePolicy,
    r: bool,
)
    requires
        call_ensures(CachePolicy::new, (method, first, status, a, time, options), x),
        call_ensures(CachePolicy::new, (method, second, status, b, time, options), y),
        call_ensures(CachePolicy::same_variant_as, (&x, &y), r),
        r,
    ensures
        listed_names(fields_of(a), "vary"@).len() == listed_names(fields_of(b), "vary"@).len(),
        forall|i: int|
            0 <= i < listed_names(fields_of(a), "vary"@).len() ==> lower(
                #[trigger] listed_names(fields_of(a), "vary"@)[i],
            ) == lower(listed_names(fields_of(b), "vary"@)[i]),
{
    let m = listed_names(fields_of(a), "vary"@);
    let n = listed_names(fields_of(b), "vary"@);
    let v = selection(fields_of(a), fields_of(*first));
    let w = selection(fields_of(b), fields_of(*second));
    assert(v == w);
    assert(m.len() == v.len());
    assert(n.len() == w.len());
    assert forall|i: int| 0 <= i < m.len() implies lower(#[trigger] m[i]) == lower(n[i]) by {
        assert(v[i] == w[i]);
    }
}

/// A request selects a stored response exactly where it has the captured value for each of its
/// selecting headers, none of which is the star.
pub proof fn selecting_is_having_the_captured_values(
    policy: &CachePolicy,
    request: &Headers,
    r: bool,
)
    requires
        call_ensures(CachePolicy::vary_matches, (policy, request), r),
    ensures
        r <==> forall|i: int|
            0 <= i < policy@.vary.len() ==> (#[trigger] policy@.vary[i]).0 != seq!['*']
                && field_value(fields_of(*request), policy@.vary[i].0) == policy@.vary[i].1,
{
    reveal_strlit("*");
    assert("*"@ =~= seq!['*']);
}

/// The directives of a header are those of its text as one list, where it has any.
pub proof fn directives_are_read_from_the_list(
    headers: &Headers,
    name: &str,
    r: Option<CacheControl>,
)
    requires
        call_ensures(directives, (headers, name), r),
    ensures
        r == directives_in(fields_of(*headers), name@),
        r is Some <==> list_text(fields_of(*headers), name@) is Some,
        r is Some ==> r->0 == parsed_directives(list_text(fields_of(*headers), name@)->0),
{
}

/// `CDN-Cache-Control` speaks for a response exactly in a shared cache, and where it is a
/// dictionary; otherwise `Cache-Control` does.
pub proof fn one_header_speaks_for_a_response(
    headers: &Headers,
    options: &CacheOptions,
    r: (Option<CacheControl>, bool),
)
    requires
        call_ensures(effective_response_cache_control, (headers, options), r),
    ensures
        ({
            let own = list_text(fields_of(*headers), "cache-control"@);
            let aimed = list_text(fields_of(*headers), "cdn-cache-control"@);
            let heeded = options.shared && aimed is Some && is_dictionary(aimed->0)
                && !parsed_directives(aimed->0).empty;
            &&& r.1 == heeded
            &&& heeded ==> r.0 == Some(parsed_directives(aimed->0))
            &&& !heeded && own is Some ==> r.0 == Some(parsed_directives(own->0))
            &&& !heeded && own is None ==> r.0 is None
        }),
{
}

/// What governs a stored response is what speaks for it; without that, a `Pragma` in which
/// `no-cache` stands is read as the directive of that name.
pub proof fn what_governs_a_response(
    method: Method,
    request: &Headers,
    status: Status,
    response: Headers,
    time: Timestamp,
    options: CacheOptions,
    policy: CachePolicy,
    spoken: (Option<CacheControl>, bool),
)
    requires
        call_ensures(CachePolicy::new, (method, request, status, response, time, options), policy),
        call_ensures(effective_response_cache_control, (&response, &options), spoken),
    ensures
        policy@.targeted == spoken.1,
        policy@.targeted == targeted(fields_of(response), options.shared),
        policy@.directives == stored_directives(fields_of(response), options.shared),
        spoken.0 is Some ==> policy@.directives == spoken.0,
        spoken.0 is None ==> {
            let pragma = list_text(fields_of(response), "pragma"@);
            if pragma is Some && contains(pragma->0, "no-cache"@) {
                policy@.directives == Some(parsed_directives("no-cache"@))
            } else {
                policy@.directives is None
            }
        },
{
    crate::laws::directives::lemma_no_cache();
}

/// A `Pragma` asks for `no-cache` exactly where that stands in it.
pub proof fn pragma_is_read_for_no_cache(headers: &Headers, r: bool)
    requires
        call_ensures(pragma_is_no_cache, (headers,), r),
    ensures
        r <==> list_text(fields_of(*headers), "pragma"@) is Some && contains(
            list_text(fields_of(*headers), "pragma"@)->0,
            "no-cache"@,
        ),
{
}

} // verus!
