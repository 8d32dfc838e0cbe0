//! Laws on revalidation.
use vstd::prelude::*;

use crate::headers::{
    field_text, field_value, has_field, lemma_one_text, lemma_text_lines, list_text, Fields,
};
use crate::laws::tags::strong_lists_hold_no_weak_tag;
use crate::policy::PolicyView;
use crate::text::{lower, split, trim};
use crate::validation::{
    body_names, connection_names, end_to_end, hop_by_hop_names, is_weak, merged_fields, strong_tags,
};

verus! {

/// An update keeps the stored fields that describe the body, takes its other fields over, and
/// leaves what it does not mention.
pub proof fn updates_leave_the_body_described(stored: Fields, update: Fields)
    ensures
        forall|name: Seq<char>|
            body_names().contains(name) ==> (#[trigger] merged_fields(stored, update).contains_key(
                name,
            ) <==> stored.contains_key(name)) && (stored.contains_key(name) ==> merged_fields(
                stored,
                update,
            )[name] == stored[name]),
        forall|name: Seq<char>|
            !body_names().contains(name) && update.contains_key(name) ==> (
            #[trigger] merged_fields(stored, update).contains_key(name) && merged_fields(
                stored,
                update,
            )[name] == update[name]),
        forall|name: Seq<char>|
            !update.contains_key(name) ==> (#[trigger] merged_fields(stored, update).contains_key(
                name,
            ) <==> stored.contains_key(name)) && (stored.contains_key(name) ==> merged_fields(
                stored,
                update,
            )[name] == stored[name]),
{
}

/// The same update a second time changes nothing.
pub proof fn updates_are_idempotent(stored: Fields, update: Fields)
    ensures
        merged_fields(merged_fields(stored, update), update) == merged_fields(stored, update),
{
    assert(merged_fields(merged_fields(stored, update), update) =~= merged_fields(stored, update));
}

/// A refreshed policy keeps method, status and options, and its age starts over: from then on it
/// counts from the time of the update.
pub proof fn refreshing_starts_the_age_over(
    policy: PolicyView,
    request: Fields,
    update: Fields,
    time: int,
)
    ensures
        policy.refreshed(request, update, time).method == policy.method,
        policy.refreshed(request, update, time).status == policy.status,
        policy.refreshed(request, update, time).options == policy.options,
        policy.refreshed(request, update, time).response_time == time,
        policy.refreshed(request, update, time).age(time) == crate::time::secs_span(
            crate::freshness::age_secs(merged_fields(policy.fields, update)) as nat,
        ),
{
}

/// Where the update says nothing of `Vary`, and the request has the stored selecting headers, the
/// refreshed policy is of the same variant.
pub proof fn refreshing_keeps_the_variant(
    policy: PolicyView,
    first: Fields,
    request: Fields,
    update: Fields,
    time: int,
)
    requires
        policy.vary == crate::policy::selection(policy.fields, first),
        policy.selects(request),
        !has_field(update, "vary"@),
    ensures
        policy.refreshed(request, update, time).vary == policy.vary,
{
    let merged = merged_fields(policy.fields, update);
    assert(crate::headers::field(merged, "vary"@) == crate::headers::field(
        policy.fields,
        "vary"@,
    ));
    let again = crate::policy::selection(merged, request);
    assert(again.len() == policy.vary.len());
    assert forall|i: int| 0 <= i < again.len() implies again[i] == policy.vary[i] by {
        assert(again[i].0 == policy.vary[i].0);
        assert(field_value(request, policy.vary[i].0) == policy.vary[i].1);
    }
    assert(again =~= policy.vary);
}

proof fn lemma_conditional_names()
    ensures
        lower("if-none-match"@) != lower("if-range"@),
        lower("if-modified-since"@) != lower("if-range"@),
        !hop_by_hop_names().contains(lower("if-none-match"@)),
        !hop_by_hop_names().contains(lower("if-modified-since"@)),
{
    reveal_strlit("if-none-match");
    reveal_strlit("if-modified-since");
    reveal_strlit("if-range");
    reveal_strlit("connection");
    reveal_strlit("keep-alive");
    reveal_strlit("proxy-authenticate");
    reveal_strlit("proxy-authorization");
    reveal_strlit("te");
    reveal_strlit("trailer");
    reveal_strlit("transfer-encoding");
    reveal_strlit("upgrade");
    let names = hop_by_hop_names();
    assert(lower("if-none-match"@).len() == 13);
    assert(lower("if-modified-since"@).len() == 17);
    assert(lower("if-range"@).len() == 8);
    assert(lower("if-modified-since"@)[0] == 'i');
    assert(names[0].len() == 10);
    assert(names[1].len() == 10);
    assert(names[2].len() == 18);
    assert(names[3].len() == 19);
    assert(names[4].len() == 2);
    assert(names[5].len() == 7);
    assert(names[6].len() == 17);
    assert(names[6][0] == 't');
    assert(names[7].len() == 7);
}

/// A revalidation request has no hop-by-hop field and no `If-Range`.
pub proof fn revalidation_requests_are_end_to_end(policy: PolicyView, request: Fields)
    ensures
        forall|name: Seq<char>|
            hop_by_hop_names().contains(name) ==> !(#[trigger] policy.revalidation_fields(
                request,
            ).contains_key(name)),
        !has_field(policy.revalidation_fields(request), "if-range"@),
{
    lemma_conditional_names();
    let hop = hop_by_hop_names();
    let listed = connection_names(request);
    assert forall|name: Seq<char>| hop.contains(name) implies #[trigger] (hop + listed).contains(
        name,
    ) by {
        let i = choose|i: int| 0 <= i < hop.len() && hop[i] == name;
        assert((hop + listed)[i] == name);
    }
}

/// Where weak validators will do, a revalidation request carries the stored entity tag: alone, or
/// behind those that the request had.
pub proof fn revalidation_requests_carry_the_stored_tag(policy: PolicyView, request: Fields)
    requires
        field_text(policy.fields, "etag"@) is Some,
        policy.method == crate::http::Method::Get,
        !has_field(policy.with_stored_tag(request), "accept-ranges"@),
        !has_field(policy.with_stored_tag(request), "if-match"@),
        !has_field(policy.with_stored_tag(request), "if-unmodified-since"@),
    ensures
        field_text(policy.revalidation_fields(request), "if-none-match"@) == Some(
            match list_text(end_to_end(request).remove(lower("if-range"@)), "if-none-match"@) {
                Some(existing) => existing + ", "@ + field_text(policy.fields, "etag"@)->0,
                None => field_text(policy.fields, "etag"@)->0,
            },
        ),
{
    let etag = field_text(policy.fields, "etag"@)->0;
    let own = end_to_end(request).remove(lower("if-range"@));
    let list = match list_text(own, "if-none-match"@) {
        Some(existing) => existing + ", "@ + etag,
        None => etag,
    };
    lemma_text_lines(list);
    reveal_strlit("if-none-match");
    reveal_strlit("if-modified-since");
    assert(lower("if-none-match"@).len() == 13);
    assert(lower("if-modified-since"@).len() == 17);
    assert(field_text(policy.with_stored_tag(request), "if-none-match"@) == Some(list));
}

/// Where only strong validators will do, a revalidation request has no date, and no weak tag on its
/// list of tags.
pub proof fn revalidation_requests_drop_weak_validators(policy: PolicyView, request: Fields)
    requires
        policy.method != crate::http::Method::Get || has_field(
            policy.with_stored_tag(request),
            "accept-ranges"@,
        ) || has_field(policy.with_stored_tag(request), "if-match"@) || has_field(
            policy.with_stored_tag(request),
            "if-unmodified-since"@,
        ),
    ensures
        !has_field(policy.revalidation_fields(request), "if-modified-since"@),
        list_text(policy.revalidation_fields(request), "if-none-match"@) matches Some(list) ==> (
        forall|i: int|
            0 <= i < split(list, ',').len() ==> !is_weak(trim(#[trigger] split(list, ',')[i]))),
{
    reveal_strlit("if-none-match");
    reveal_strlit("if-modified-since");
    assert(lower("if-none-match"@).len() == 13);
    assert(lower("if-modified-since"@).len() == 17);
    let dateless = policy.with_stored_tag(request).remove(lower("if-modified-since"@));
    let sent = policy.revalidation_fields(request);
    if let Some(list) = list_text(dateless, "if-none-match"@) {
        if strong_tags(list).len() > 0 {
            lemma_one_text(sent, "if-none-match"@, strong_tags(list));
            strong_lists_hold_no_weak_tag(list);
        }
    }
}

/// Where weak validators will do, a revalidation request carries the stored date, unless it has one
/// of its own.
pub proof fn revalidation_requests_carry_the_stored_date(policy: PolicyView, request: Fields)
    requires
        field_text(policy.fields, "last-modified"@) is Some,
        policy.method == crate::http::Method::Get,
        !has_field(policy.with_stored_tag(request), "accept-ranges"@),
        !has_field(policy.with_stored_tag(request), "if-match"@),
        !has_field(policy.with_stored_tag(request), "if-unmodified-since"@),
        !has_field(policy.with_stored_tag(request), "if-modified-since"@),
    ensures
        field_text(policy.revalidation_fields(request), "if-modified-since"@) == field_text(
            policy.fields,
            "last-modified"@,
        ),
{
    lemma_text_lines(field_text(policy.fields, "last-modified"@)->0);
}

} // verus!
