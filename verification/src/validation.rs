//! Validation: whether a stored response answers a new request, and what the origin's answer to a
//! revalidation means.
use trillium_http::Headers;
use vstd::prelude::*;
use vstd::string::*;

use crate::dates::{http_date, parse_http_date};
use crate::directives::{directives, directives_in};
use crate::etag::{inm_matches, none_match_names};
use crate::headers::{
    all_fields, bytes_view, field, field_text, field_value, Fields, fields_of, get_str, get_values,
    has_field, has_header, insert, lines_of, list_text, list_value, remove, text_lines, text_values,
    text_view, whole_value,
};
use crate::http::{Method, Status, NOT_MODIFIED};
use crate::policy::{
    captured, field_names, listed_names, pragma_is_no_cache, pragma_no_cache, same_value, selection,
    selection_view, CachePolicy, PolicyView,
};
use crate::text::{
    chars_of, decimal, joined, lower, lowered, same_text, split, split_str, to_decimal, trim,
    trimmed, views,
};
use crate::time::{secs_span, Span, Timestamp, NANOS_PER_SEC};

verus! {

/// `fields` without those called `names`, which are in lower case.
pub open spec fn without(fields: Fields, names: Seq<Seq<char>>) -> Fields {
    Map::new(
        |name: Seq<char>| fields.contains_key(name) && !names.contains(name),
        |name: Seq<char>| fields[name],
    )
}

/// Those of `fields` called `names`, which are in lower case.
pub open spec fn only(fields: Fields, names: Seq<Seq<char>>) -> Fields {
    Map::new(
        |name: Seq<char>| fields.contains_key(name) && names.contains(name),
        |name: Seq<char>| fields[name],
    )
}

/// The fields that are scoped to one connection.
pub open spec fn hop_by_hop_names() -> Seq<Seq<char>> {
    seq![
        lower("connection"@),
        lower("keep-alive"@),
        lower("proxy-authenticate"@),
        lower("proxy-authorization"@),
        lower("te"@),
        lower("trailer"@),
        lower("transfer-encoding"@),
        lower("upgrade"@),
    ]
}

/// The fields that `Connection` declares to be scoped to this connection, on any of its lines.
pub open spec fn connection_names(fields: Fields) -> Seq<Seq<char>> {
    listed_names(fields, "connection"@).map_values(|name: Seq<char>| lower(name))
}

/// The fields that may be forwarded beyond this connection. `Date` is one of them: with `Age` it
/// says when the response was generated.
pub open spec fn end_to_end(fields: Fields) -> Fields {
    without(fields, hop_by_hop_names() + connection_names(fields))
}

/// The fields that a response without a body carries to update a stored one.
pub open spec fn metadata_names() -> Seq<Seq<char>> {
    seq![
        lower("date"@),
        lower("etag"@),
        lower("last-modified"@),
        lower("vary"@),
        lower("cache-control"@),
        lower("content-location"@),
        lower("expires"@),
    ]
}

/// The fields that describe a body, which an update without a body does not touch.
pub open spec fn body_names() -> Seq<Seq<char>> {
    seq![
        lower("content-length"@),
        lower("content-encoding"@),
        lower("transfer-encoding"@),
        lower("content-range"@),
    ]
}

/// The stored fields, updated by those of a response that says nothing has changed.
pub open spec fn merged_fields(stored: Fields, update: Fields) -> Fields {
    stored.union_prefer_right(without(update, body_names()))
}

/// Whether an entity tag is marked as weak.
pub open spec fn is_weak(tag: Seq<char>) -> bool {
    tag.len() >= 2 && tag[0] == 'W' && tag[1] == '/'
}

/// The trimmed members of `pieces` that are not weak, in order.
pub open spec fn strong_only(pieces: Seq<Seq<char>>) -> Seq<Seq<char>>
    decreases pieces.len(),
{
    if pieces.len() == 0 {
        Seq::empty()
    } else {
        let rest = strong_only(pieces.drop_last());
        let tag = trim(pieces.last());
        if is_weak(tag) {
            rest
        } else {
            rest.push(tag)
        }
    }
}

/// The strong entity tags of a list, as a list.
pub open spec fn strong_tags(list: Seq<char>) -> Seq<char> {
    joined(strong_only(split(list, ',')))
}

/// Whether an `If-Modified-Since` date names the stored representation: it is no earlier than the
/// stored `Last-Modified`. Where either is no date the condition does not hold.
pub open spec fn unmodified_since(
    if_modified_since: Seq<char>,
    last_modified: Option<Seq<char>>,
) -> bool {
    match (http_date(if_modified_since), last_modified) {
        (Some(since), Some(text)) => match http_date(text) {
            Some(modified) => modified <= since,
            None => false,
        },
        _ => false,
    }
}

/// The head of a response. The fields are by lower-case name.
#[verifier::ext_equal]
pub struct HeadView {
    pub status: Status,
    pub fields: Fields,
}

impl PolicyView {
    /// Whether the request has the selecting headers that the stored response was chosen by.
    pub open spec fn selects(self, request: Fields) -> bool {
        forall|i: int|
            0 <= i < self.vary.len() ==> (#[trigger] self.vary[i]).0 != "*"@ && field_value(
                request,
                self.vary[i].0,
            ) == self.vary[i].1
    }

    /// Whether the stored response may answer the request as far as time and the request's
    /// directives go.
    pub open spec fn satisfies(self, request: Fields, now: int) -> bool {
        let asked = directives_in(request, "cache-control"@);
        // The request does not ask for revalidation.
        &&& !(asked matches Some(cc) && cc.no_cache)
        &&& !pragma_no_cache(request)
        // The response is no older than the request allows, and fresh for as long as it asks.
        &&& (asked matches Some(cc) && cc.max_age is Some) ==> self.age(now) <= secs_span(
            asked->0.max_age->0 as nat,
        )
        &&& (asked matches Some(cc) && cc.min_fresh is Some) ==> self.remaining(now) >= secs_span(
            asked->0.min_fresh->0 as nat,
        )
        // A stale response is used only where the request takes one that stale and the response
        // does not forbid it: neither every stale use, nor every use without asking.
        &&& self.stale(now) ==> {
            &&& !self.always_revalidated()
            &&& !(self.directives matches Some(cc) && cc.must_revalidate)
            &&& asked matches Some(cc)
            &&& cc.max_stale matches Some(limit)
            &&& limit matches Some(secs) ==> self.age(now) - self.lifetime() <= secs_span(
                secs as nat,
            )
        }
    }

    /// Whether the stored response answers the request without asking the origin.
    pub open spec fn answers(self, request: Fields, now: int) -> bool {
        self.selects(request) && self.satisfies(request, now)
    }

    /// Whether the client that sent the request has this representation already.
    pub open spec fn known_to_client(self, request: Fields) -> bool {
        if has_field(request, "if-none-match"@) {
            list_text(request, "if-none-match"@) matches Some(list) && none_match_names(
                list,
                field_text(self.fields, "etag"@),
            )
        } else {
            field_text(request, "if-modified-since"@) matches Some(date) && unmodified_since(
                date,
                field_text(self.fields, "last-modified"@),
            )
        }
    }

    /// The lines of the `Age` field at `now`.
    pub open spec fn age_lines(self, now: int) -> Seq<Seq<u8>> {
        text_lines(decimal(self.age(now) / NANOS_PER_SEC as nat))
    }

    /// The head with which the stored response is served.
    pub open spec fn served_head(self, now: int) -> HeadView {
        HeadView {
            status: self.status,
            fields: end_to_end(self.fields).insert(lower("age"@), self.age_lines(now)),
        }
    }

    /// The head that tells a client to keep its own copy.
    pub open spec fn not_modified_head(self, now: int) -> HeadView {
        HeadView {
            status: Status { code: NOT_MODIFIED },
            fields: only(self.fields, metadata_names()).insert(lower("age"@), self.age_lines(now)),
        }
    }

    /// The request's own fields, with the stored entity tag added to `If-None-Match`.
    pub open spec fn with_stored_tag(self, request: Fields) -> Fields {
        let own = end_to_end(request).remove(lower("if-range"@));
        match field_text(self.fields, "etag"@) {
            Some(etag) => own.insert(
                lower("if-none-match"@),
                text_lines(
                    match list_text(own, "if-none-match"@) {
                        Some(existing) => existing + ", "@ + etag,
                        None => etag,
                    },
                ),
            ),
            None => own,
        }
    }

    /// The fields of the request that asks the origin whether the stored response still holds.
    pub open spec fn revalidation_fields(self, request: Fields) -> Fields {
        let tagged = self.with_stored_tag(request);
        let strong_required = self.method != Method::Get || has_field(tagged, "accept-ranges"@)
            || has_field(tagged, "if-match"@) || has_field(tagged, "if-unmodified-since"@);
        if strong_required {
            let dateless = tagged.remove(lower("if-modified-since"@));
            match list_text(dateless, "if-none-match"@) {
                Some(list) => if strong_tags(list).len() == 0 {
                    dateless.remove(lower("if-none-match"@))
                } else {
                    dateless.insert(lower("if-none-match"@), text_lines(strong_tags(list)))
                },
                None => dateless,
            }
        } else {
            match field_text(self.fields, "last-modified"@) {
                Some(date) if !has_field(tagged, "if-modified-since"@) => tagged.insert(
                    lower("if-modified-since"@),
                    text_lines(date),
                ),
                _ => tagged,
            }
        }
    }

    /// The policy that replaces this one after the origin said that nothing has changed.
    pub open spec fn refreshed(self, request: Fields, update: Fields, time: int) -> PolicyView {
        let fields = merged_fields(self.fields, update);
        captured(
            self.method,
            selection(fields, request),
            self.status,
            fields,
            time,
            self.options,
        )
    }
}

/// The head of a response that is served from the cache. The body comes from storage.
#[derive(Debug)]
pub struct CachedResponse {
    pub status: Status,
    pub headers: Headers,
}

impl View for CachedResponse {
    type V = HeadView;

    open spec fn view(&self) -> HeadView {
        HeadView { status: self.status, fields: fields_of(self.headers) }
    }
}

/// What to do with a request, given one stored response.
#[derive(Debug)]
pub enum BeforeRequest {
    /// The stored response answers the request: serve this head with the stored body.
    Fresh(CachedResponse),
    /// The stored response answers the request and the client has it already: serve this head
    /// without a body.
    NotModified(CachedResponse),
    /// Send the request to the origin with these headers. `matches` tells whether the stored
    /// response is the variant that the request selects.
    Stale { request_headers: Headers, matches: bool },
}

/// What the origin's answer to a revalidation means.
#[derive(Debug)]
pub enum AfterResponse {
    /// Nothing has changed: keep the stored body under the new policy and serve this head.
    NotModified(CachePolicy, CachedResponse),
    /// The origin sent a new response.
    Modified,
}

proof fn lemma_without_push(fields: Fields, names: Seq<Seq<char>>, name: Seq<char>)
    ensures
        without(fields, names).remove(name) =~= without(fields, names.push(name)),
{
    assert forall|n: Seq<char>| #[trigger] names.push(name).contains(n) implies names.contains(n)
        || n == name by {
        let i = choose|i: int| 0 <= i < names.push(name).len() && names.push(name)[i] == n;
        if i < names.len() {
            assert(names[i] == n);
        }
    }
    assert forall|n: Seq<char>| #[trigger] names.contains(n) implies names.push(name).contains(
        n,
    ) by {
        let i = choose|i: int| 0 <= i < names.len() && names[i] == n;
        assert(names.push(name)[i] == n);
    }
    assert(names.push(name)[names.len() as int] == name);
    assert(names.push(name).contains(name));
}

proof fn lemma_only_push(fields: Fields, names: Seq<Seq<char>>, name: Seq<char>)
    ensures
        only(fields, names.push(name)) =~= if fields.contains_key(name) {
            only(fields, names).insert(name, fields[name])
        } else {
            only(fields, names)
        },
{
    assert forall|n: Seq<char>| #[trigger] names.push(name).contains(n) implies names.contains(n)
        || n == name by {
        let i = choose|i: int| 0 <= i < names.push(name).len() && names.push(name)[i] == n;
        if i < names.len() {
            assert(names[i] == n);
        }
    }
    assert forall|n: Seq<char>| #[trigger] names.contains(n) implies names.push(name).contains(
        n,
    ) by {
        let i = choose|i: int| 0 <= i < names.len() && names[i] == n;
        assert(names.push(name)[i] == n);
    }
    assert(names.push(name)[names.len() as int] == name);
    assert(names.push(name).contains(name));
}

/// Removes a field; the names removed so far are tracked by `removed`.
fn drop_field(headers: &mut Headers, name: &str, all: Ghost<Fields>, removed: Ghost<
    Seq<Seq<char>>,
>)
    requires
        fields_of(*old(headers)) == without(all@, removed@),
    ensures
        fields_of(*final(headers)) == without(all@, removed@.push(lower(name@))),
{
    remove(headers, name);
    proof {
        lemma_without_push(all@, removed@, lower(name@));
    }
}

/// Copies the headers that may be forwarded beyond this connection.
pub fn copy_without_hop_by_hop_headers(headers: &Headers) -> (r: Headers)
    ensures
        fields_of(r) == end_to_end(fields_of(*headers)),
{
    let ghost all = fields_of(*headers);
    let ghost hop = hop_by_hop_names();
    let mut out = headers.clone();
    assert(fields_of(out) =~= without(all, hop.take(0)));
    drop_field(&mut out, "connection", Ghost(all), Ghost(hop.take(0)));
    assert(hop.take(0).push(hop[0]) =~= hop.take(1));
    drop_field(&mut out, "keep-alive", Ghost(all), Ghost(hop.take(1)));
    assert(hop.take(1).push(hop[1]) =~= hop.take(2));
    drop_field(&mut out, "proxy-authenticate", Ghost(all), Ghost(hop.take(2)));
    assert(hop.take(2).push(hop[2]) =~= hop.take(3));
    drop_field(&mut out, "proxy-authorization", Ghost(all), Ghost(hop.take(3)));
    assert(hop.take(3).push(hop[3]) =~= hop.take(4));
    drop_field(&mut out, "te", Ghost(all), Ghost(hop.take(4)));
    assert(hop.take(4).push(hop[4]) =~= hop.take(5));
    drop_field(&mut out, "trailer", Ghost(all), Ghost(hop.take(5)));
    assert(hop.take(5).push(hop[5]) =~= hop.take(6));
    drop_field(&mut out, "transfer-encoding", Ghost(all), Ghost(hop.take(6)));
    assert(hop.take(6).push(hop[6]) =~= hop.take(7));
    drop_field(&mut out, "upgrade", Ghost(all), Ghost(hop.take(7)));
    assert(hop.take(7).push(hop[7]) =~= hop);

    let names = field_names(headers, "connection");
    let ghost listed = connection_names(all);
    let mut i: usize = 0;
    assert(hop + listed.take(0) =~= hop);
    assert(views(names@).len() == names.len());
    while i < names.len()
        invariant
            i <= names.len(),
            listed == views(names@).map_values(|name: Seq<char>| lower(name)),
            listed.len() == names.len(),
            fields_of(out) == without(all, hop + listed.take(i as int)),
        decreases names.len() - i,
    {
        drop_field(&mut out, names[i], Ghost(all), Ghost(hop + listed.take(i as int)));
        proof {
            assert(listed[i as int] == lower(names@[i as int]@));
            assert((hop + listed.take(i as int)).push(listed[i as int]) =~= hop + listed.take(
                i as int + 1,
            ));
        }
        i += 1;
    }
    assert(listed.take(listed.len() as int) =~= listed);
    out
}

/// Copies one field, where there is one; the names copied so far are tracked by `kept`.
fn keep_field(from: &Headers, to: &mut Headers, name: &str, kept: Ghost<Seq<Seq<char>>>)
    requires
        fields_of(*old(to)) == only(fields_of(*from), kept@),
    ensures
        fields_of(*final(to)) == only(fields_of(*from), kept@.push(lower(name@))),
{
    if let Some(values) = get_values(from, name) {
        insert(to, name, values.clone());
    }
    proof {
        lemma_only_push(fields_of(*from), kept@, lower(name@));
    }
}

/// Whether the field called `name` describes a body.
pub fn is_excluded_from_revalidation_update(name: &str) -> (r: bool)
    ensures
        r == body_names().contains(lower(name@)),
{
    let key = lowered(name);
    let found: bool = same_text(&key, &lowered("content-length")) || same_text(
        &key,
        &lowered("content-encoding"),
    ) || same_text(&key, &lowered("transfer-encoding")) || same_text(
        &key,
        &lowered("content-range"),
    );
    proof {
        let names = body_names();
        assert(names[0] == lower("content-length"@));
        assert(names[1] == lower("content-encoding"@));
        assert(names[2] == lower("transfer-encoding"@));
        assert(names[3] == lower("content-range"@));
        if names.contains(key@) {
            let i = choose|i: int| 0 <= i < names.len() && names[i] == key@;
            assert(i == 0 || i == 1 || i == 2 || i == 3);
        }
    }
    found
}

/// The stored headers, updated by those of a response that says nothing has changed.
pub fn merge_revalidation_headers(stored: &Headers, new: &Headers) -> (r: Headers)
    ensures
        fields_of(r) == merged_fields(fields_of(*stored), fields_of(*new)),
{
    let ghost old_fields = fields_of(*stored);
    let ghost new_fields = fields_of(*new);
    let mut out = stored.clone();
    let entries = all_fields(new);
    let mut i: usize = 0;
    while i < entries.len()
        invariant
            i <= entries.len(),
            old_fields == fields_of(*stored),
            new_fields == fields_of(*new),
            forall|j: int|
                0 <= j < entries@.len() ==> field(new_fields, (#[trigger] entries@[j]).0@) == Some(
                    lines_of(*entries@[j].1),
                ),
            forall|name: Seq<char>|
                #![trigger fields_of(out).contains_key(name)]
                fields_of(out).contains_key(name) ==> (old_fields.contains_key(name) || without(
                    new_fields,
                    body_names(),
                ).contains_key(name)),
            forall|name: Seq<char>|
                #![trigger fields_of(out)[name]]
                fields_of(out).contains_key(name) ==> fields_of(out)[name] == old_fields[name] || (
                without(new_fields, body_names()).contains_key(name) && fields_of(out)[name]
                    == new_fields[name]),
            forall|name: Seq<char>|
                old_fields.contains_key(name) ==> #[trigger] fields_of(out).contains_key(name),
            forall|name: Seq<char>|
                #![trigger fields_of(out)[name]]
                !without(new_fields, body_names()).contains_key(name) && old_fields.contains_key(
                    name,
                ) ==> fields_of(out)[name] == old_fields[name],
            forall|j: int|
                0 <= j < i && !body_names().contains(lower((#[trigger] entries@[j]).0@)) ==> (
                fields_of(out).contains_key(lower(entries@[j].0@)) && fields_of(out)[lower(
                    entries@[j].0@,
                )] == new_fields[lower(entries@[j].0@)]),
        decreases entries.len() - i,
    {
        let name = &entries[i].0;
        let values = entries[i].1;
        assert(field(new_fields, entries@[i as int].0@) == Some(lines_of(*values)));
        if !is_excluded_from_revalidation_update(name.as_str()) {
            let ghost before = fields_of(out);
            insert(&mut out, name.as_str(), values.clone());
            proof {
                assert(fields_of(out) == before.insert(lower(name@), new_fields[lower(name@)]));
            }
        }
        i += 1;
    }
    proof {
        let update = without(new_fields, body_names());
        assert forall|name: Seq<char>| #[trigger] update.contains_key(name) implies fields_of(
            out,
        ).contains_key(name) && fields_of(out)[name] == new_fields[name] by {
            assert(new_fields.contains_key(name));
            let j = choose|j: int|
                0 <= j < entries@.len() && lower((#[trigger] entries@[j]).0@) == name;
            assert(!body_names().contains(lower(entries@[j].0@)));
        }
        assert(fields_of(out) =~= merged_fields(old_fields, new_fields));
    }
    out
}

/// Whether an `If-Modified-Since` date is no earlier than the stored `Last-Modified`.
pub fn ims_matches(if_modified_since: &str, cached_last_modified: Option<&str>) -> (r: bool)
    ensures
        r == unmodified_since(if_modified_since@, text_view(cached_last_modified)),
{
    let since = match parse_http_date(if_modified_since) {
        Some(since) => since,
        None => return false,
    };
    match cached_last_modified {
        Some(text) => match parse_http_date(text) {
            Some(modified) => modified.at_or_before(&since),
            None => false,
        },
        None => false,
    }
}

fn weak(tag: &str) -> (r: bool)
    ensures
        r == is_weak(tag@),
{
    let chars = chars_of(tag);
    chars.len() >= 2 && chars[0] == 'W' && chars[1] == '/'
}

/// The strong entity tags of a list, as a list.
pub fn strong_tag_list(list: &str) -> (r: String)
    ensures
        r@ == strong_tags(list@),
{
    let pieces = split_str(list, ',');
    let ghost all = views(pieces@);
    let mut out = String::new();
    let mut count: usize = 0;
    let mut i: usize = 0;
    while i < pieces.len()
        invariant
            i <= pieces.len(),
            count <= i,
            all == views(pieces@),
            count == strong_only(all.take(i as int)).len(),
            out@ == joined(strong_only(all.take(i as int))),
        decreases pieces.len() - i,
    {
        let tag = trimmed(pieces[i]);
        let ghost before = strong_only(all.take(i as int));
        proof {
            assert(all.take(i as int + 1).drop_last() =~= all.take(i as int));
            assert(all[i as int] == pieces@[i as int]@);
        }
        if !weak(tag) {
            proof {
                assert(before.push(tag@).drop_last() =~= before);
            }
            if count > 0 {
                out.append(", ");
            }
            out.append(tag);
            count += 1;
            assert(out@ =~= joined(before.push(tag@)));
        }
        i += 1;
    }
    assert(all.take(all.len() as int) =~= all);
    out
}

impl CachePolicy {
    /// Decides what to do with a new request, given this stored response.
    pub fn before_request(&self, request_headers: &Headers, now: Timestamp) -> (r: BeforeRequest)
        ensures
            match r {
                BeforeRequest::Fresh(head) => {
                    &&& self@.answers(fields_of(*request_headers), now@)
                    &&& !self@.known_to_client(fields_of(*request_headers))
                    &&& head@ == self@.served_head(now@)
                },
                BeforeRequest::NotModified(head) => {
                    &&& self@.answers(fields_of(*request_headers), now@)
                    &&& self@.known_to_client(fields_of(*request_headers))
                    &&& head@ == self@.not_modified_head(now@)
                },
                BeforeRequest::Stale { request_headers: headers, matches } => {
                    &&& !self@.answers(fields_of(*request_headers), now@)
                    &&& matches == self@.selects(fields_of(*request_headers))
                    &&& fields_of(headers) == self@.revalidation_fields(
                        fields_of(*request_headers),
                    )
                },
            },
    {
        let matches: bool = self.vary_matches(request_headers);
        if matches && self.satisfies_without_revalidation(request_headers, now) {
            // A cache that can answer the request evaluates its conditions itself.
            if self.inbound_conditional_matches(request_headers) {
                return BeforeRequest::NotModified(self.cached_response_304(now));
            }
            BeforeRequest::Fresh(self.cached_response(now))
        } else {
            BeforeRequest::Stale {
                request_headers: self.revalidation_request_headers(request_headers),
                matches,
            }
        }
    }

    /// Whether the client that sent the request has this representation already. `If-None-Match`
    /// takes precedence over `If-Modified-Since`.
    pub fn inbound_conditional_matches(&self, request_headers: &Headers) -> (r: bool)
        ensures
            r == self@.known_to_client(fields_of(*request_headers)),
    {
        let stored = self.response_headers();
        if has_header(request_headers, "if-none-match") {
            return match list_value(request_headers, "if-none-match") {
                Some(list) => inm_matches(list.as_str(), get_str(stored, "etag")),
                None => false,
            };
        }
        match get_str(request_headers, "if-modified-since") {
            Some(date) => ims_matches(date, get_str(stored, "last-modified")),
            None => false,
        }
    }

    /// The head that tells a client to keep its own copy: validators, caching metadata and `Age`.
    pub fn cached_response_304(&self, now: Timestamp) -> (r: CachedResponse)
        ensures
            r@ == self@.not_modified_head(now@),
    {
        let stored = self.response_headers();
        let ghost all = fields_of(*stored);
        let ghost names = metadata_names();
        let mut headers = Headers::new();
        assert(fields_of(headers) =~= only(all, names.take(0)));
        keep_field(stored, &mut headers, "date", Ghost(names.take(0)));
        assert(names.take(0).push(names[0]) =~= names.take(1));
        keep_field(stored, &mut headers, "etag", Ghost(names.take(1)));
        assert(names.take(1).push(names[1]) =~= names.take(2));
        keep_field(stored, &mut headers, "last-modified", Ghost(names.take(2)));
        assert(names.take(2).push(names[2]) =~= names.take(3));
        keep_field(stored, &mut headers, "vary", Ghost(names.take(3)));
        assert(names.take(3).push(names[3]) =~= names.take(4));
        keep_field(stored, &mut headers, "cache-control", Ghost(names.take(4)));
        assert(names.take(4).push(names[4]) =~= names.take(5));
        keep_field(stored, &mut headers, "content-location", Ghost(names.take(5)));
        assert(names.take(5).push(names[5]) =~= names.take(6));
        keep_field(stored, &mut headers, "expires", Ghost(names.take(6)));
        assert(names.take(6).push(names[6]) =~= names);
        insert(&mut headers, "age", text_values(to_decimal(self.age(now).as_secs())));
        CachedResponse { status: Status::new(NOT_MODIFIED), headers }
    }

    /// Whether the request has the selecting headers that the stored response was chosen by.
    pub fn vary_matches(&self, request_headers: &Headers) -> (r: bool)
        ensures
            r == self@.selects(fields_of(*request_headers)),
    {
        let snapshot = self.vary_snapshot();
        let ghost request = fields_of(*request_headers);
        let mut i: usize = 0;
        while i < snapshot.len()
            invariant
                i <= snapshot.len(),
                request == fields_of(*request_headers),
                selection_view(snapshot@) == self@.vary,
                forall|k: int|
                    0 <= k < i ==> (#[trigger] self@.vary[k]).0 != "*"@ && field_value(
                        request,
                        self@.vary[k].0,
                    ) == self@.vary[k].1,
            decreases snapshot.len() - i,
        {
            let name = &snapshot[i].0;
            assert(self@.vary[i as int] == (name@, bytes_view(snapshot@[i as int].1)));
            if same_text(name.as_str(), "*") {
                return false;
            }
            if !same_value(&whole_value(request_headers, name.as_str()), &snapshot[i].1) {
                return false;
            }
            i += 1;
        }
        true
    }

    /// Whether time and the request's directives allow the stored response to be served without
    /// contacting the origin.
    pub fn satisfies_without_revalidation(&self, request_headers: &Headers, now: Timestamp) -> (r:
        bool)
        ensures
            r == self@.satisfies(fields_of(*request_headers), now@),
    {
        let asked = directives(request_headers, "cache-control");
        if pragma_is_no_cache(request_headers) {
            return false;
        }
        let age: Span = self.age(now);
        let lifetime: Span = self.max_age();
        let mut max_stale: Option<Option<u64>> = None;
        if let Some(cc) = asked {
            if cc.no_cache {
                return false;
            }
            if let Some(secs) = cc.max_age {
                if age.nanos > Span::from_secs(secs).nanos {
                    return false;
                }
            }
            if let Some(secs) = cc.min_fresh {
                if self.time_to_live(now).nanos < Span::from_secs(secs).nanos {
                    return false;
                }
            }
            max_stale = cc.max_stale;
        }
        if lifetime.nanos <= age.nanos {
            let must_revalidate: bool = match self.response_cache_control() {
                Some(cc) => cc.must_revalidate,
                None => false,
            };
            if must_revalidate || self.is_always_revalidated() {
                return false;
            }
            return match max_stale {
                None => false,
                Some(None) => true,
                Some(Some(secs)) => Span::from_secs(secs).nanos >= age.nanos - lifetime.nanos,
            };
        }
        true
    }

    /// The headers of a conditional revalidation request: those of the new request that may be
    /// forwarded, with validators from the stored response.
    pub fn revalidation_request_headers(&self, request_headers: &Headers) -> (r: Headers)
        ensures
            fields_of(r) == self@.revalidation_fields(fields_of(*request_headers)),
    {
        let stored = self.response_headers();
        let mut headers = copy_without_hop_by_hop_headers(request_headers);
        // Partial responses are not supported.
        remove(&mut headers, "if-range");

        if let Some(etag) = get_str(stored, "etag") {
            let combined: String = match list_value(&headers, "if-none-match") {
                Some(existing) => {
                    let mut list = existing;
                    list.append(", ");
                    list.append(etag);
                    list
                },
                None => etag.to_owned(),
            };
            insert(&mut headers, "if-none-match", text_values(combined));
        }
        assert(fields_of(headers) == self@.with_stored_tag(fields_of(*request_headers)));

        let strong_required: bool = self.request_method() != Method::Get || has_header(
            &headers,
            "accept-ranges",
        ) || has_header(&headers, "if-match") || has_header(&headers, "if-unmodified-since");
        if strong_required {
            remove(&mut headers, "if-modified-since");
            if let Some(list) = list_value(&headers, "if-none-match") {
                let tags = strong_tag_list(list.as_str());
                if tags.as_str().is_empty() {
                    remove(&mut headers, "if-none-match");
                } else {
                    insert(&mut headers, "if-none-match", text_values(tags));
                }
            }
        } else if !has_header(&headers, "if-modified-since") {
            if let Some(date) = get_str(stored, "last-modified") {
                insert(&mut headers, "if-modified-since", text_values(date.to_owned()));
            }
        }
        headers
    }

    /// The head to serve on a cache hit: without hop-by-hop headers, with the current `Age`, and
    /// with the origin's `Date`. Callers that serve a stale entry use it too.
    pub fn cached_response(&self, now: Timestamp) -> (r: CachedResponse)
        ensures
            r@ == self@.served_head(now@),
    {
        let mut headers = copy_without_hop_by_hop_headers(self.response_headers());
        insert(&mut headers, "age", text_values(to_decimal(self.age(now).as_secs())));
        CachedResponse { status: self.response_status(), headers }
    }

    /// Integrates the origin's response to a revalidation request. A 304 is for the entry whose
    /// validators the request carried: it refreshes that entry, whatever validators it has itself.
    pub fn after_response(
        &self,
        request_headers: &Headers,
        new_status: Status,
        new_response_headers: &Headers,
        response_time: Timestamp,
    ) -> (r: AfterResponse)
        ensures
            match r {
                AfterResponse::NotModified(policy, head) => {
                    &&& new_status.code == NOT_MODIFIED
                    &&& policy@ == self@.refreshed(
                        fields_of(*request_headers),
                        fields_of(*new_response_headers),
                        response_time@,
                    )
                    &&& head@ == policy@.served_head(response_time@)
                },
                AfterResponse::Modified => new_status.code != NOT_MODIFIED,
            },
    {
        if new_status.code != NOT_MODIFIED {
            return AfterResponse::Modified;
        }
        let merged = merge_revalidation_headers(self.response_headers(), new_response_headers);
        let policy = CachePolicy::new(
            self.request_method(),
            request_headers,
            self.response_status(),
            merged,
            response_time,
            self.options(),
        );
        let head = policy.cached_response(response_time);
        AfterResponse::NotModified(policy, head)
    }
}

} // verus!
