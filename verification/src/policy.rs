//! The stored cache policy: what is kept of a request/response exchange.
use trillium_http::Headers;
use vstd::prelude::*;

use crate::directives::{
    effective_directives, effective_response_cache_control, targeted, CacheControl,
};
use crate::headers::{
    bytes_view, field, field_value, fields_of, get_values, line_text, line_texts, list_text,
    list_value, push_bytes, text_view, whole_value, Fields,
};
use crate::http::{Method, Status};
use crate::options::CacheOptions;
use crate::text::{contains, contains_str, list_members, list_tokens, lower, lowered, views};
use crate::time::Timestamp;

verus! {

/// The request headers that selected a response: each name in lower case, with the value that the
/// request had for it. `None` is a header that the request did not have.
pub type Selection = Seq<(Seq<char>, Option<Seq<u8>>)>;

/// What a policy says of an exchange. Times are in nanoseconds.
#[verifier::ext_equal]
pub struct PolicyView {
    pub method: Method,
    pub vary: Selection,
    pub status: Status,
    pub fields: Fields,
    pub directives: Option<CacheControl>,
    pub targeted: bool,
    pub response_time: int,
    pub options: CacheOptions,
}

/// Captured snapshot of a request/response exchange.
///
/// This is the value that a storage backend keeps beside a body. To a backend it is opaque: it
/// stores the policy, returns it on lookup, and uses `same_variant_as` to decide whether a new
/// entry replaces an existing one or stands beside it as another `Vary` variant.
#[derive(Debug)]
pub struct CachePolicy {
    request_method: Method,
    vary_snapshot: Vec<(String, Option<Vec<u8>>)>,
    response_status: Status,
    response_headers: Headers,
    response_cache_control: Option<CacheControl>,
    targeted_cc_in_effect: bool,
    response_time: Timestamp,
    options: CacheOptions,
}

/// The selection that a vector of names and values holds.
pub open spec fn selection_view(snapshot: Seq<(String, Option<Vec<u8>>)>) -> Selection {
    snapshot.map_values(|entry: (String, Option<Vec<u8>>)| (entry.0@, bytes_view(entry.1)))
}

impl View for CachePolicy {
    type V = PolicyView;

    closed spec fn view(&self) -> PolicyView {
        PolicyView {
            method: self.request_method,
            vary: selection_view(self.vary_snapshot@),
            status: self.response_status,
            fields: fields_of(self.response_headers),
            directives: self.response_cache_control,
            targeted: self.targeted_cc_in_effect,
            response_time: self.response_time@,
            options: self.options,
        }
    }
}

/// The names that a field's lines list, as one list.
pub open spec fn names_in(lines: Seq<Seq<u8>>) -> Seq<Seq<char>>
    decreases lines.len(),
{
    if lines.len() == 0 {
        Seq::empty()
    } else {
        names_in(lines.drop_last()) + match line_text(lines.last()) {
            Some(text) => list_tokens(text),
            None => Seq::empty(),
        }
    }
}

/// One selecting header: its lower-case name, and its value on the request.
pub open spec fn selecting(request: Fields, name: Seq<char>) -> (Seq<char>, Option<Seq<u8>>) {
    (lower(name), field_value(request, lower(name)))
}

/// The names that the field called `name` lists, on all of its lines.
pub open spec fn listed_names(fields: Fields, name: Seq<char>) -> Seq<Seq<char>> {
    match field(fields, name) {
        Some(lines) => names_in(lines),
        None => Seq::empty(),
    }
}

/// The selecting headers that a response's `Vary` names, with their values on the request.
pub open spec fn selection(response: Fields, request: Fields) -> Selection {
    listed_names(response, "vary"@).map_values(|name: Seq<char>| selecting(request, name))
}

/// The directives of a header that says `no-cache` and nothing else.
pub open spec fn only_no_cache() -> CacheControl {
    CacheControl {
        no_cache: true,
        no_store: false,
        private: false,
        public: false,
        immutable: false,
        must_revalidate: false,
        proxy_revalidate: false,
        max_age: None,
        s_maxage: None,
        min_fresh: None,
        max_stale: None,
        stale_while_revalidate: None,
        stale_if_error: None,
        empty: false,
    }
}

/// Whether a `Pragma` field asks for `no-cache`.
pub open spec fn pragma_no_cache(fields: Fields) -> bool {
    list_text(fields, "pragma"@) matches Some(value) && contains(value, "no-cache"@)
}

/// The directives that a stored response is governed by: those that speak for it or, where none
/// do, what `Pragma: no-cache` stands for.
pub open spec fn stored_directives(fields: Fields, shared: bool) -> Option<CacheControl> {
    match effective_directives(fields, shared) {
        Some(cc) => Some(cc),
        None => if pragma_no_cache(fields) {
            Some(only_no_cache())
        } else {
            None
        },
    }
}

/// What a policy says of an exchange with these parts.
pub open spec fn captured(
    method: Method,
    vary: Selection,
    status: Status,
    fields: Fields,
    response_time: int,
    options: CacheOptions,
) -> PolicyView {
    PolicyView {
        method,
        vary,
        status,
        fields,
        directives: stored_directives(fields, options.shared),
        targeted: targeted(fields, options.shared),
        response_time,
        options,
    }
}

/// Whether a `Pragma` header asks for `no-cache`.
pub fn pragma_is_no_cache(headers: &Headers) -> (r: bool)
    ensures
        r == pragma_no_cache(fields_of(*headers)),
{
    match list_value(headers, "pragma") {
        Some(value) => contains_str(value.as_str(), "no-cache"),
        None => false,
    }
}

fn same_bytes(a: &Vec<u8>, b: &Vec<u8>) -> (r: bool)
    ensures
        r == (a@ == b@),
{
    if a.len() != b.len() {
        return false;
    }
    let mut i: usize = 0;
    while i < a.len()
        invariant
            i <= a.len(),
            a.len() == b.len(),
            forall|k: int| 0 <= k < i ==> a@[k] == b@[k],
        decreases a.len() - i,
    {
        if a[i] != b[i] {
            return false;
        }
        i += 1;
    }
    assert(a@ =~= b@);
    true
}

/// Whether two values of a field are the same. An absent one is the same as an absent one alone.
pub(crate) fn same_value(a: &Option<Vec<u8>>, b: &Option<Vec<u8>>) -> (r: bool)
    ensures
        r == (bytes_view(*a) == bytes_view(*b)),
{
    match (a, b) {
        (Some(x), Some(y)) => same_bytes(x, y),
        (None, None) => true,
        _ => false,
    }
}

fn clone_value(value: &Option<Vec<u8>>) -> (r: Option<Vec<u8>>)
    ensures
        bytes_view(r) == bytes_view(*value),
{
    match value {
        Some(bytes) => {
            let mut copy: Vec<u8> = Vec::new();
            push_bytes(&mut copy, bytes.as_slice());
            assert(copy@ =~= bytes@);
            Some(copy)
        },
        None => None,
    }
}

fn clone_snapshot(snapshot: &Vec<(String, Option<Vec<u8>>)>) -> (r: Vec<(String, Option<Vec<u8>>)>)
    ensures
        selection_view(r@) == selection_view(snapshot@),
{
    let mut out: Vec<(String, Option<Vec<u8>>)> = Vec::new();
    let mut i: usize = 0;
    while i < snapshot.len()
        invariant
            i <= snapshot.len(),
            out.len() == i,
            forall|k: int|
                0 <= k < i ==> selection_view(out@)[k] == #[trigger] selection_view(snapshot@)[k],
        decreases snapshot.len() - i,
    {
        let ghost before = out@;
        out.push((snapshot[i].0.clone(), clone_value(&snapshot[i].1)));
        proof {
            assert forall|k: int| 0 <= k < i + 1 implies selection_view(out@)[k]
                == #[trigger] selection_view(snapshot@)[k] by {
                if k < i {
                    assert(selection_view(before)[k] == selection_view(snapshot@)[k]);
                }
            }
        }
        i += 1;
    }
    assert(selection_view(out@) =~= selection_view(snapshot@));
    out
}

/// The names that the field called `name` lists, on all of its lines.
pub fn field_names<'a>(headers: &'a Headers, name: &str) -> (r: Vec<&'a str>)
    ensures
        views(r@) == listed_names(fields_of(*headers), name@),
{
    let mut out: Vec<&'a str> = Vec::new();
    let values = match get_values(headers, name) {
        Some(values) => values,
        None => {
            assert(views(out@) =~= Seq::empty());
            return out;
        },
    };
    let lines = line_texts(values);
    let ghost raw = crate::headers::lines_of(*values);
    let mut i: usize = 0;
    assert(views(out@) =~= names_in(raw.take(0)));
    while i < lines.len()
        invariant
            i <= lines.len(),
            lines.len() == raw.len(),
            forall|k: int| 0 <= k < lines.len() ==> text_view(#[trigger] lines@[k]) == line_text(raw[k]),
            views(out@) == names_in(raw.take(i as int)),
        decreases lines.len() - i,
    {
        proof {
            assert(raw.take(i as int + 1).drop_last() =~= raw.take(i as int));
            assert(text_view(lines@[i as int]) == line_text(raw[i as int]));
        }
        if let Some(line) = lines[i] {
            let members = list_members(line);
            let ghost start = views(out@);
            let ghost listed = list_tokens(line@);
            let mut j: usize = 0;
            assert(start =~= start + listed.take(0));
            while j < members.len()
                invariant
                    j <= members.len(),
                    views(members@) == listed,
                    views(out@) == start + listed.take(j as int),
                decreases members.len() - j,
            {
                let ghost before = out@;
                out.push(members[j]);
                proof {
                    assert(views(members@)[j as int] == members@[j as int]@);
                    assert(views(out@) =~= views(before).push(listed[j as int]));
                    assert(listed.take(j as int + 1) =~= listed.take(j as int).push(
                        listed[j as int],
                    ));
                    assert(views(out@) =~= start + listed.take(j as int + 1));
                }
                j += 1;
            }
            assert(listed.take(listed.len() as int) =~= listed);
        } else {
            assert(names_in(raw.take(i as int + 1)) =~= names_in(raw.take(i as int)));
        }
        i += 1;
    }
    assert(raw.take(raw.len() as int) =~= raw);
    out
}

/// The selecting headers that a response's `Vary` lines name, with their values on the request. A
/// header without a value is one that the request does not have.
///
/// Several `Vary` lines count as one comma-separated list, and so do several lines of a selecting
/// header.
pub fn build_vary_snapshot(response_headers: &Headers, request_headers: &Headers) -> (r: Vec<
    (String, Option<Vec<u8>>),
>)
    ensures
        selection_view(r@) == selection(fields_of(*response_headers), fields_of(*request_headers)),
{
    let mut out: Vec<(String, Option<Vec<u8>>)> = Vec::new();
    let names = field_names(response_headers, "vary");
    let ghost request = fields_of(*request_headers);
    let ghost all = selection(fields_of(*response_headers), request);
    let mut i: usize = 0;
    assert(selection_view(out@) =~= all.take(0));
    while i < names.len()
        invariant
            i <= names.len(),
            request == fields_of(*request_headers),
            views(names@) == listed_names(fields_of(*response_headers), "vary"@),
            all == selection(fields_of(*response_headers), request),
            selection_view(out@) == all.take(i as int),
        decreases names.len() - i,
    {
        let name = lowered(names[i]);
        let value: Option<Vec<u8>> = whole_value(request_headers, name.as_str());
        let ghost before = out@;
        let ghost entry = (name@, bytes_view(value));
        out.push((name, value));
        proof {
            assert(views(names@)[i as int] == names@[i as int]@);
            assert(entry == all[i as int]);
            assert(selection_view(out@) =~= selection_view(before).push(entry));
            assert(all.take(i as int + 1) =~= all.take(i as int).push(entry));
        }
        i += 1;
    }
    assert(views(names@).len() == names@.len());
    assert(all.take(all.len() as int) =~= all);
    out
}

impl CachePolicy {
    /// Builds a stored policy from a completed exchange. `response_time` is when the response was
    /// received.
    pub fn new(
        request_method: Method,
        request_headers: &Headers,
        response_status: Status,
        response_headers: Headers,
        response_time: Timestamp,
        options: CacheOptions,
    ) -> (r: CachePolicy)
        ensures
            r@ == captured(
                request_method,
                selection(fields_of(response_headers), fields_of(*request_headers)),
                response_status,
                fields_of(response_headers),
                response_time@,
                options,
            ),
    {
        let vary_snapshot = build_vary_snapshot(&response_headers, request_headers);
        CachePolicy::restore(
            request_method,
            vary_snapshot,
            response_status,
            response_headers,
            response_time,
            options,
        )
    }

    /// Rebuilds a policy from the parts that were captured: the directives are read from the
    /// headers again.
    pub fn restore(
        request_method: Method,
        vary_snapshot: Vec<(String, Option<Vec<u8>>)>,
        response_status: Status,
        response_headers: Headers,
        response_time: Timestamp,
        options: CacheOptions,
    ) -> (r: CachePolicy)
        ensures
            r@ == captured(
                request_method,
                selection_view(vary_snapshot@),
                response_status,
                fields_of(response_headers),
                response_time@,
                options,
            ),
    {
        let effective = effective_response_cache_control(&response_headers, &options);
        let mut response_cache_control = effective.0;
        if response_cache_control.is_none() && pragma_is_no_cache(&response_headers) {
            response_cache_control = Some(
                CacheControl {
                    no_cache: true,
                    no_store: false,
                    private: false,
                    public: false,
                    immutable: false,
                    must_revalidate: false,
                    proxy_revalidate: false,
                    max_age: None,
                    s_maxage: None,
                    min_fresh: None,
                    max_stale: None,
                    stale_while_revalidate: None,
                    stale_if_error: None,
                    empty: false,
                },
            );
        }
        CachePolicy {
            request_method,
            vary_snapshot,
            response_status,
            response_headers,
            response_cache_control,
            targeted_cc_in_effect: effective.1,
            response_time,
            options,
        }
    }

    /// Whether `other` would select the same stored variant as `self` for the same key: both
    /// responses were captured with the same values for every header listed in `Vary`.
    pub fn same_variant_as(&self, other: &CachePolicy) -> (r: bool)
        ensures
            r == (self@.vary == other@.vary),
    {
        let a = &self.vary_snapshot;
        let b = &other.vary_snapshot;
        if a.len() != b.len() {
            assert(self@.vary.len() != other@.vary.len());
            return false;
        }
        let mut i: usize = 0;
        while i < a.len()
            invariant
                i <= a.len(),
                a.len() == b.len(),
                *a == self.vary_snapshot,
                *b == other.vary_snapshot,
                forall|k: int| 0 <= k < i ==> #[trigger] self@.vary[k] == other@.vary[k],
            decreases a.len() - i,
        {
            if !(a[i].0 == b[i].0 && same_value(&a[i].1, &b[i].1)) {
                assert(self@.vary[i as int] != other@.vary[i as int]);
                return false;
            }
            i += 1;
        }
        assert(self@.vary =~= other@.vary);
        true
    }

    /// The method of the request that was captured.
    pub fn request_method(&self) -> (r: Method)
        ensures
            r == self@.method,
    {
        self.request_method
    }

    /// The selecting headers, each with its value on the captured request.
    pub fn vary_snapshot(&self) -> (r: &Vec<(String, Option<Vec<u8>>)>)
        ensures
            selection_view(r@) == self@.vary,
    {
        &self.vary_snapshot
    }

    /// The status of the stored response.
    pub fn response_status(&self) -> (r: Status)
        ensures
            r == self@.status,
    {
        self.response_status
    }

    /// The headers of the stored response.
    pub fn response_headers(&self) -> (r: &Headers)
        ensures
            fields_of(*r) == self@.fields,
    {
        &self.response_headers
    }

    /// The directives that govern the stored response.
    pub fn response_cache_control(&self) -> (r: Option<CacheControl>)
        ensures
            r == self@.directives,
    {
        self.response_cache_control
    }

    /// Whether those directives come from a targeted field.
    pub fn targeted_cc_in_effect(&self) -> (r: bool)
        ensures
            r == self@.targeted,
    {
        self.targeted_cc_in_effect
    }

    /// When the response was received.
    pub fn response_time(&self) -> (r: Timestamp)
        ensures
            r@ == self@.response_time,
    {
        self.response_time
    }

    /// The options under which the exchange was captured.
    pub fn options(&self) -> (r: CacheOptions)
        ensures
            r == self@.options,
    {
        self.options
    }
}

impl Clone for CachePolicy {
    fn clone(&self) -> (r: CachePolicy)
        ensures
            r@ == self@,
    {
        CachePolicy {
            request_method: self.request_method,
            vary_snapshot: clone_snapshot(&self.vary_snapshot),
            response_status: self.response_status,
            response_headers: self.response_headers.clone(),
            response_cache_control: self.response_cache_control,
            targeted_cc_in_effect: self.targeted_cc_in_effect,
            response_time: self.response_time,
            options: self.options,
        }
    }
}

} // verus!
