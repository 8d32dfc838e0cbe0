//! Laws on the fields that are forwarded, served and updated.
use trillium_http::Headers;
use vstd::prelude::*;

use crate::headers::{field_text, fields_of, lemma_one_text, lemma_text_lines, list_text, Fields};
use crate::http::{Method, Status};
use crate::laws::lookups::heeded_names_are_in_lower_case;
use crate::laws::tags::comma_free;
use crate::laws::wording::{lemma_split_comma, lemma_split_joint};
use crate::policy::{listed_names, selection, CachePolicy, PolicyView};
use crate::text::{digits_value, lower, split, trim};
use crate::time::{Span, Timestamp};
use crate::validation::{
    body_names, connection_names, copy_without_hop_by_hop_headers, hop_by_hop_names,
    is_excluded_from_revalidation_update, is_weak, merge_revalidation_headers, metadata_names,
    strong_only, strong_tag_list, AfterResponse, CachedResponse,
};

verus! {

/// Whether a field is scoped to one connection by its name.
pub open spec fn is_hop_by_hop(name: Seq<char>) -> bool {
    ||| name == "connection"@
    ||| name == "keep-alive"@
    ||| name == "proxy-authenticate"@
    ||| name == "proxy-authorization"@
    ||| name == "te"@
    ||| name == "trailer"@
    ||| name == "transfer-encoding"@
    ||| name == "upgrade"@
}

/// Whether `Connection` lists a field, in any letter case.
pub open spec fn is_declared(fields: Fields, name: Seq<char>) -> bool {
    exists|i: int|
        0 <= i < listed_names(fields, "connection"@).len() && lower(
            #[trigger] listed_names(fields, "connection"@)[i],
        ) == name
}

/// Whether a field may not be forwarded beyond this connection.
pub open spec fn stays_behind(fields: Fields, name: Seq<char>) -> bool {
    is_hop_by_hop(name) || is_declared(fields, name)
}

/// Whether two collections have the same lines under a name, or neither has any.
pub open spec fn same_field(a: Fields, b: Fields, name: Seq<char>) -> bool {
    (a.contains_key(name) <==> b.contains_key(name)) && (a.contains_key(name) ==> a[name]
        == b[name])
}

pub(crate) proof fn lemma_hop_by_hop(fields: Fields, name: Seq<char>)
    ensures
        (hop_by_hop_names() + connection_names(fields)).contains(name) <==> stays_behind(
            fields,
            name,
        ),
{
    heeded_names_are_in_lower_case();
    let hop = hop_by_hop_names();
    let listed = connection_names(fields);
    let all = hop + listed;
    let names = listed_names(fields, "connection"@);
    assert(listed.len() == names.len());
    if all.contains(name) {
        let i = choose|i: int| 0 <= i < all.len() && all[i] == name;
        if i >= hop.len() {
            assert(listed[i - hop.len()] == lower(names[i - hop.len()]));
        } else {
            assert(i == 0 || i == 1 || i == 2 || i == 3 || i == 4 || i == 5 || i == 6 || i == 7);
        }
    }
    if is_hop_by_hop(name) {
        assert(all[0] == "connection"@);
        assert(all[1] == "keep-alive"@);
        assert(all[2] == "proxy-authenticate"@);
        assert(all[3] == "proxy-authorization"@);
        assert(all[4] == "te"@);
        assert(all[5] == "trailer"@);
        assert(all[6] == "transfer-encoding"@);
        assert(all[7] == "upgrade"@);
    }
    if is_declared(fields, name) {
        let i = choose|i: int| 0 <= i < names.len() && lower(#[trigger] names[i]) == name;
        assert(listed[i] == lower(names[i]));
        assert(all[hop.len() + i] == name);
    }
}

/// What may be forwarded is every field but the eight that are scoped to one connection and those
/// that `Connection` lists, with the lines that it had.
pub proof fn all_but_hop_by_hop_fields_are_forwarded(headers: &Headers, r: Headers)
    requires
        call_ensures(copy_without_hop_by_hop_headers, (headers,), r),
    ensures
        forall|name: Seq<char>|
            #![trigger fields_of(r).contains_key(name)]
            if stays_behind(fields_of(*headers), name) {
                !fields_of(r).contains_key(name)
            } else {
                same_field(fields_of(r), fields_of(*headers), name)
            },
{
    assert forall|name: Seq<char>|
        #![trigger fields_of(r).contains_key(name)]
        if stays_behind(fields_of(*headers), name) {
            !fields_of(r).contains_key(name)
        } else {
            same_field(fields_of(r), fields_of(*headers), name)
        } by {
        lemma_hop_by_hop(fields_of(*headers), name);
    }
}

/// A stored response is served with its own status and with every field that may be forwarded, as
/// it was stored, but for `Age`: that is the age in whole seconds, written in decimal.
pub proof fn responses_are_served_as_stored(
    policy: &CachePolicy,
    now: Timestamp,
    age: Span,
    r: CachedResponse,
)
    requires
        call_ensures(CachePolicy::cached_response, (policy, now), r),
        call_ensures(CachePolicy::age, (policy, now), age),
    ensures
        r.status.code == policy@.status.code,
        forall|name: Seq<char>|
            #![trigger fields_of(r.headers).contains_key(name)]
            name != "age"@ ==> if stays_behind(policy@.fields, name) {
                !fields_of(r.headers).contains_key(name)
            } else {
                same_field(fields_of(r.headers), policy@.fields, name)
            },
        field_text(fields_of(r.headers), "age"@) is Some,
        digits_value(field_text(fields_of(r.headers), "age"@)->0) == age.nanos / 1_000_000_000,
{
    heeded_names_are_in_lower_case();
    let secs = policy@.age(now@) / 1_000_000_000;
    lemma_text_lines(crate::text::decimal(secs));
    crate::laws::wording::lemma_decimal(secs);
    assert forall|name: Seq<char>|
        #![trigger fields_of(r.headers).contains_key(name)]
        name != "age"@ implies if stays_behind(policy@.fields, name) {
            !fields_of(r.headers).contains_key(name)
        } else {
            same_field(fields_of(r.headers), policy@.fields, name)
        } by {
        lemma_hop_by_hop(policy@.fields, name);
    }
}

/// Whether a field belongs on a response that has no body and updates a stored one.
pub open spec fn is_metadata(name: Seq<char>) -> bool {
    ||| name == "date"@
    ||| name == "etag"@
    ||| name == "last-modified"@
    ||| name == "vary"@
    ||| name == "cache-control"@
    ||| name == "content-location"@
    ||| name == "expires"@
}

/// A client that has the response already is told so by a 304 with the stored validators and
/// caching metadata, the age, and nothing else.
pub proof fn not_modified_heads_have_metadata_alone(
    policy: &CachePolicy,
    now: Timestamp,
    age: Span,
    r: CachedResponse,
)
    requires
        call_ensures(CachePolicy::cached_response_304, (policy, now), r),
        call_ensures(CachePolicy::age, (policy, now), age),
    ensures
        r.status.code == 304,
        forall|name: Seq<char>|
            #![trigger fields_of(r.headers).contains_key(name)]
            name != "age"@ ==> if is_metadata(name) {
                same_field(fields_of(r.headers), policy@.fields, name)
            } else {
                !fields_of(r.headers).contains_key(name)
            },
        field_text(fields_of(r.headers), "age"@) is Some,
        digits_value(field_text(fields_of(r.headers), "age"@)->0) == age.nanos / 1_000_000_000,
{
    heeded_names_are_in_lower_case();
    let secs = policy@.age(now@) / 1_000_000_000;
    lemma_text_lines(crate::text::decimal(secs));
    crate::laws::wording::lemma_decimal(secs);
    let names = metadata_names();
    assert forall|name: Seq<char>|
        #![trigger fields_of(r.headers).contains_key(name)]
        name != "age"@ implies if is_metadata(name) {
            same_field(fields_of(r.headers), policy@.fields, name)
        } else {
            !fields_of(r.headers).contains_key(name)
        } by {
        if is_metadata(name) {
            assert(names[0] == "date"@);
            assert(names[1] == "etag"@);
            assert(names[2] == "last-modified"@);
            assert(names[3] == "vary"@);
            assert(names[4] == "cache-control"@);
            assert(names[5] == "content-location"@);
            assert(names[6] == "expires"@);
            assert(names.contains(name));
        }
        if names.contains(name) {
            let i = choose|i: int| 0 <= i < names.len() && names[i] == name;
            assert(i == 0 || i == 1 || i == 2 || i == 3 || i == 4 || i == 5 || i == 6);
        }
    }
}

/// Whether a field describes a body.
pub open spec fn describes_body(name: Seq<char>) -> bool {
    ||| name == "content-length"@
    ||| name == "content-encoding"@
    ||| name == "transfer-encoding"@
    ||| name == "content-range"@
}

/// An update replaces the fields that it has, and leaves the others and the four that describe the
/// body.
pub proof fn updates_replace_what_they_have(stored: &Headers, update: &Headers, r: Headers)
    requires
        call_ensures(merge_revalidation_headers, (stored, update), r),
    ensures
        forall|name: Seq<char>|
            #![trigger fields_of(r).contains_key(name)]
            if fields_of(*update).contains_key(name) && !describes_body(name) {
                same_field(fields_of(r), fields_of(*update), name)
            } else {
                same_field(fields_of(r), fields_of(*stored), name)
            },
{
    assert forall|name: Seq<char>|
        #![trigger fields_of(r).contains_key(name)]
        if fields_of(*update).contains_key(name) && !describes_body(name) {
            same_field(fields_of(r), fields_of(*update), name)
        } else {
            same_field(fields_of(r), fields_of(*stored), name)
        } by {
        lemma_body_names(name);
    }
}

pub(crate) proof fn lemma_body_names(name: Seq<char>)
    ensures
        body_names().contains(name) <==> describes_body(name),
{
    heeded_names_are_in_lower_case();
    let names = body_names();
    if describes_body(name) {
        assert(names[0] == "content-length"@);
        assert(names[1] == "content-encoding"@);
        assert(names[2] == "transfer-encoding"@);
        assert(names[3] == "content-range"@);
    }
    if names.contains(name) {
        let i = choose|i: int| 0 <= i < names.len() && names[i] == name;
        assert(i == 0 || i == 1 || i == 2 || i == 3);
    }
}

/// Exactly a 304 keeps a stored response. It is then kept under its own method, status and options,
/// with the fields that the 304 has in place of its own but for those that describe the body, and
/// ages anew from when the 304 came; and it is served as that.
pub proof fn a_304_refreshes_the_stored_response(
    policy: &CachePolicy,
    request: &Headers,
    status: Status,
    update: &Headers,
    time: Timestamp,
    r: AfterResponse,
)
    requires
        call_ensures(CachePolicy::after_response, (policy, request, status, update, time), r),
    ensures
        r is NotModified <==> status.code == 304,
        r matches AfterResponse::NotModified(new, head) ==> {
            &&& new@.method == policy@.method
            &&& new@.status.code == policy@.status.code
            &&& new@.options == policy@.options
            &&& new@.response_time == time@
            &&& new@.vary == selection(new@.fields, fields_of(*request))
            &&& head.status.code == policy@.status.code
            &&& forall|name: Seq<char>|
                #![trigger new@.fields.contains_key(name)]
                if fields_of(*update).contains_key(name) && !describes_body(name) {
                    same_field(new@.fields, fields_of(*update), name)
                } else {
                    same_field(new@.fields, policy@.fields, name)
                }
            &&& forall|name: Seq<char>|
                #![trigger fields_of(head.headers).contains_key(name)]
                name != "age"@ ==> if stays_behind(new@.fields, name) {
                    !fields_of(head.headers).contains_key(name)
                } else {
                    same_field(fields_of(head.headers), new@.fields, name)
                }
        },
{
    heeded_names_are_in_lower_case();
    if let AfterResponse::NotModified(new, head) = r {
        assert forall|name: Seq<char>|
            #![trigger new@.fields.contains_key(name)]
            if fields_of(*update).contains_key(name) && !describes_body(name) {
                same_field(new@.fields, fields_of(*update), name)
            } else {
                same_field(new@.fields, policy@.fields, name)
            } by {
            lemma_body_names(name);
        }
        assert forall|name: Seq<char>|
            #![trigger fields_of(head.headers).contains_key(name)]
            name != "age"@ implies if stays_behind(new@.fields, name) {
                !fields_of(head.headers).contains_key(name)
            } else {
                same_field(fields_of(head.headers), new@.fields, name)
            } by {
            lemma_hop_by_hop(new@.fields, name);
        }
    }
}

/// A revalidation request is the request itself, but for the conditions on tag and date: it has
/// every other field of the request that may be forwarded, with the lines that it had, and no field
/// besides. `If-Range` is dropped.
pub proof fn revalidation_requests_carry_the_request(
    policy: &CachePolicy,
    request: &Headers,
    r: Headers,
)
    requires
        call_ensures(CachePolicy::revalidation_request_headers, (policy, request), r),
    ensures
        forall|name: Seq<char>|
            #![trigger fields_of(r).contains_key(name)]
            name != "if-none-match"@ && name != "if-modified-since"@ ==> if name == "if-range"@
                || stays_behind(fields_of(*request), name) {
                !fields_of(r).contains_key(name)
            } else {
                same_field(fields_of(r), fields_of(*request), name)
            },
{
    heeded_names_are_in_lower_case();
    assert forall|name: Seq<char>|
        #![trigger fields_of(r).contains_key(name)]
        name != "if-none-match"@ && name != "if-modified-since"@ implies if name == "if-range"@
            || stays_behind(fields_of(*request), name) {
            !fields_of(r).contains_key(name)
        } else {
            same_field(fields_of(r), fields_of(*request), name)
        } by {
        lemma_hop_by_hop(fields_of(*request), name);
    }
}

/// Whether a request has a field that is forwarded.
pub open spec fn forwards(request: Fields, name: Seq<char>) -> bool {
    request.contains_key(name) && !stays_behind(request, name)
}

/// Whether only strong validators will do: the stored response is not one to `GET`, or the request
/// deals in ranges or has a condition of another kind.
pub open spec fn needs_strong(policy: PolicyView, request: Fields) -> bool {
    policy.method != Method::Get || forwards(request, "accept-ranges"@) || forwards(
        request,
        "if-match"@,
    ) || forwards(request, "if-unmodified-since"@)
}

/// The tags that a request lists itself, as far as it forwards them.
pub open spec fn own_tags(request: Fields) -> Option<Seq<char>> {
    if forwards(request, "if-none-match"@) {
        list_text(request, "if-none-match"@)
    } else {
        None
    }
}

/// The tags that are sent for a stored response: those of the request, and the stored one behind
/// them.
pub open spec fn all_tags(policy: PolicyView, request: Fields) -> Option<Seq<char>> {
    match (own_tags(request), field_text(policy.fields, "etag"@)) {
        (Some(own), Some(tag)) => Some(own + seq![',', ' '] + tag),
        (Some(own), None) => Some(own),
        (None, tag) => tag,
    }
}

proof fn lemma_distinct_conditions()
    ensures
        "if-none-match"@ != "if-modified-since"@,
        "if-none-match"@ != "if-range"@,
        "if-modified-since"@ != "if-range"@,
        "if-none-match"@ != "accept-ranges"@,
        "if-none-match"@ != "if-match"@,
        "if-none-match"@ != "if-unmodified-since"@,
        "accept-ranges"@ != "if-range"@,
        "if-match"@ != "if-range"@,
        "if-unmodified-since"@ != "if-range"@,
{
    reveal_strlit("if-none-match");
    reveal_strlit("if-modified-since");
    reveal_strlit("if-range");
    reveal_strlit("accept-ranges");
    reveal_strlit("if-match");
    reveal_strlit("if-unmodified-since");
    assert("if-none-match"@[0] == 'i');
    assert("accept-ranges"@[0] == 'a');
    assert("if-match"@[3] == 'm');
    assert("if-range"@[3] == 'r');
    assert("if-none-match"@.len() == 13);
    assert("if-modified-since"@.len() == 17);
    assert("if-range"@.len() == 8);
    assert("if-unmodified-since"@.len() == 19);
    assert("if-match"@.len() == 8);
}

proof fn lemma_own_tags(request: Fields)
    ensures
        list_text(
            crate::validation::end_to_end(request).remove("if-range"@),
            "if-none-match"@,
        ) == own_tags(request),
        forall|name: Seq<char>|
            name != "if-range"@ ==> (#[trigger] crate::validation::end_to_end(request).remove(
                "if-range"@,
            ).contains_key(name) <==> forwards(request, name)),
{
    heeded_names_are_in_lower_case();
    lemma_distinct_conditions();
    let own = crate::validation::end_to_end(request).remove("if-range"@);
    assert forall|name: Seq<char>| name != "if-range"@ implies (#[trigger] own.contains_key(name)
        <==> forwards(request, name)) by {
        lemma_hop_by_hop(request, name);
    }
    lemma_hop_by_hop(request, "if-none-match"@);
}

/// Where weak validators will do, a revalidation request has the tags of the request and the stored
/// tag, and the request's date or, without one, the stored one.
pub proof fn stored_validators_are_sent(policy: &CachePolicy, request: &Headers, r: Headers)
    requires
        call_ensures(CachePolicy::revalidation_request_headers, (policy, request), r),
        !needs_strong(policy@, fields_of(*request)),
    ensures
        all_tags(policy@, fields_of(*request)) is Some ==> list_text(
            fields_of(r),
            "if-none-match"@,
        ) == all_tags(policy@, fields_of(*request)),
        all_tags(policy@, fields_of(*request)) is None ==> (fields_of(r).contains_key(
            "if-none-match"@,
        ) <==> forwards(fields_of(*request), "if-none-match"@)),
        forwards(fields_of(*request), "if-modified-since"@) ==> same_field(
            fields_of(r),
            fields_of(*request),
            "if-modified-since"@,
        ),
        !forwards(fields_of(*request), "if-modified-since"@) ==> field_text(
            fields_of(r),
            "if-modified-since"@,
        ) == field_text(policy@.fields, "last-modified"@),
{
    heeded_names_are_in_lower_case();
    lemma_distinct_conditions();
    reveal_strlit(", ");
    assert(", "@ =~= seq![',', ' ']);
    let asked = fields_of(*request);
    lemma_own_tags(asked);
    lemma_hop_by_hop(asked, "if-modified-since"@);
    lemma_hop_by_hop(asked, "if-none-match"@);
    let tagged = policy@.with_stored_tag(asked);
    if field_text(policy@.fields, "etag"@) is Some {
        lemma_one_text(tagged, "if-none-match"@, all_tags(policy@, asked)->0);
    }
    assert(list_text(tagged, "if-none-match"@) == all_tags(policy@, asked));
    if field_text(policy@.fields, "last-modified"@) is Some {
        lemma_text_lines(field_text(policy@.fields, "last-modified"@)->0);
    }
}

/// Where only strong validators will do, a revalidation request has no date, and of those tags the
/// strong ones; where none is left, it lists no tag.
pub proof fn strong_validators_are_sent(
    policy: &CachePolicy,
    request: &Headers,
    r: Headers,
    list: &str,
    strong: String,
)
    requires
        call_ensures(CachePolicy::revalidation_request_headers, (policy, request), r),
        needs_strong(policy@, fields_of(*request)),
        all_tags(policy@, fields_of(*request)) == Some(list@),
        call_ensures(strong_tag_list, (list,), strong),
    ensures
        !fields_of(r).contains_key("if-modified-since"@),
        strong@.len() == 0 ==> !fields_of(r).contains_key("if-none-match"@),
        strong@.len() > 0 ==> list_text(fields_of(r), "if-none-match"@) == Some(strong@),
{
    heeded_names_are_in_lower_case();
    lemma_distinct_conditions();
    reveal_strlit(", ");
    assert(", "@ =~= seq![',', ' ']);
    let asked = fields_of(*request);
    lemma_own_tags(asked);
    let tagged = policy@.with_stored_tag(asked);
    if field_text(policy@.fields, "etag"@) is Some {
        lemma_one_text(tagged, "if-none-match"@, list@);
    }
    assert(list_text(tagged, "if-none-match"@) == Some(list@));
    let dateless = tagged.remove("if-modified-since"@);
    assert(list_text(dateless, "if-none-match"@) == Some(list@));
    if strong@.len() > 0 {
        lemma_one_text(fields_of(r), "if-none-match"@, strong@);
    }
}

proof fn lemma_strong_joint(a: Seq<Seq<char>>, b: Seq<Seq<char>>)
    ensures
        strong_only(a + b) == strong_only(a) + strong_only(b),
    decreases b.len(),
{
    if b.len() == 0 {
        assert(a + b =~= a);
        assert(strong_only(a) + strong_only(b) =~= strong_only(a));
    } else {
        lemma_strong_joint(a, b.drop_last());
        assert((a + b).drop_last() =~= a + b.drop_last());
        assert(strong_only(a + b) =~= strong_only(a) + strong_only(b));
    }
}

/// A tag of a list is strong exactly where it does not begin with `W/`: of a list in two parts the
/// strong tags are those of either part, and of one tag it is itself, trimmed, or none.
pub proof fn strong_tags_have_no_weak_mark(a: Seq<char>, b: Seq<char>, tag: Seq<char>)
    requires
        comma_free(tag),
    ensures
        strong_only(split(a + seq![','] + b, ',')) == strong_only(split(a, ',')) + strong_only(
            split(b, ','),
        ),
        strong_only(split(tag, ',')) == if trim(tag).len() >= 2 && trim(tag)[0] == 'W' && trim(
            tag,
        )[1] == '/' {
            Seq::<Seq<char>>::empty()
        } else {
            seq![trim(tag)]
        },
{
    lemma_split_joint(a, b);
    lemma_strong_joint(split(a, ','), split(b, ','));
    lemma_split_comma(tag, b);
    assert(seq![tag].drop_last() =~= Seq::<Seq<char>>::empty());
    reveal_with_fuel(strong_only, 2);
    assert(strong_only(seq![tag]) =~= if is_weak(trim(tag)) {
        Seq::<Seq<char>>::empty()
    } else {
        seq![trim(tag)]
    });
}

/// The list of strong tags that is sent has just those tags: parted at its commas and trimmed, its
/// members are the strong ones of the list that there was.
pub proof fn lists_of_strong_tags_are_read_back(list: &str, r: String)
    requires
        call_ensures(strong_tag_list, (list,), r),
        strong_only(split(list@, ',')).len() > 0,
    ensures
        split(r@, ',').len() == strong_only(split(list@, ',')).len(),
        forall|i: int|
            0 <= i < split(r@, ',').len() ==> trim(#[trigger] split(r@, ',')[i]) == strong_only(
                split(list@, ','),
            )[i],
{
    crate::laws::tags::strong_lists_hold_no_weak_tag(list@);
}

/// The fields that an update leaves alone are those that describe a body, in any letter case.
pub proof fn updates_leave_the_body_alone(name: &str, r: bool)
    requires
        call_ensures(is_excluded_from_revalidation_update, (name,), r),
    ensures
        r <==> lower(name@) == "content-length"@ || lower(name@) == "content-encoding"@ || lower(
            name@,
        ) == "transfer-encoding"@ || lower(name@) == "content-range"@,
{
    lemma_body_names(lower(name@));
}

} // verus!
