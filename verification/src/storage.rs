//! Cache keys: what stored responses are looked up by.
use vstd::prelude::*;
use vstd::string::*;

use crate::headers::{field_text, fields_of, get_str, string_view, Fields};
use crate::http::Method;
use crate::urls::{host_of_url, join_url, resolved_url, url_host};

verus! {

/// A cache key: two responses share it when they share method and URL. `Vary` tells the variants
/// under one key apart.
#[derive(Debug, PartialEq, Eq, Hash)]
pub struct CacheKey {
    method: Method,
    url: String,
}

/// What a cache key stands for.
pub struct KeyView {
    pub method: Method,
    pub url: Seq<char>,
}

impl View for CacheKey {
    type V = KeyView;

    closed spec fn view(&self) -> KeyView {
        KeyView { method: self.method, url: self.url@ }
    }
}

impl KeyView {
    /// The key as a line of text.
    pub open spec fn text(self) -> Seq<char> {
        self.method.token() + " "@ + self.url
    }
}

impl CacheKey {
    /// The key for this method and URL.
    pub fn new(method: Method, url: String) -> (r: CacheKey)
        ensures
            r@ == (KeyView { method, url: url@ }),
    {
        CacheKey { method, url }
    }

    /// The method of this key.
    pub fn method(&self) -> (r: Method)
        ensures
            r == self@.method,
    {
        self.method
    }

    /// The URL of this key.
    pub fn url(&self) -> (r: &str)
        ensures
            r@ == self@.url,
    {
        self.url.as_str()
    }

    /// The key as a line of text: the method, a space and the URL.
    pub fn to_text(&self) -> (r: String)
        ensures
            r@ == self@.text(),
    {
        let mut text = self.method.as_str().to_owned();
        text.append(" ");
        text.append(self.url.as_str());
        text
    }
}

impl Clone for CacheKey {
    fn clone(&self) -> (r: CacheKey)
        ensures
            r@ == self@,
    {
        CacheKey { method: self.method, url: self.url.clone() }
    }
}

/// The keys of a vector, by what they stand for.
pub open spec fn key_views(keys: Seq<CacheKey>) -> Seq<KeyView> {
    keys.map_values(|key: CacheKey| key@)
}

/// The keys under which responses for a URL may be stored.
pub open spec fn stored_keys(url: Seq<char>) -> Seq<KeyView> {
    seq![KeyView { method: Method::Get, url }, KeyView { method: Method::Head, url }]
}

/// The keys that the field called `name` adds to those that an unsafe request to `url`
/// invalidates: those of the URL that it names, on the same host only.
pub open spec fn linked_keys(url: Seq<char>, fields: Fields, name: Seq<char>) -> Seq<KeyView> {
    match field_text(fields, name) {
        Some(reference) => match resolved_url(url, reference) {
            Some(target) => if host_of_url(target) == host_of_url(url) {
                stored_keys(target)
            } else {
                Seq::empty()
            },
            None => Seq::empty(),
        },
        None => Seq::empty(),
    }
}

/// The keys that a successful unsafe request to `url` invalidates: those of the URL itself and of
/// the URLs on its host that `Location` and `Content-Location` name.
pub open spec fn invalidated_keys(url: Seq<char>, fields: Fields) -> Seq<KeyView> {
    stored_keys(url) + linked_keys(url, fields, "location"@) + linked_keys(
        url,
        fields,
        "content-location"@,
    )
}

/// Adds the keys under which responses for a URL may be stored.
pub fn push_stored_keys(keys: &mut Vec<CacheKey>, url: &str)
    ensures
        key_views(final(keys)@) == key_views(old(keys)@) + stored_keys(url@),
{
    keys.push(CacheKey::new(Method::Get, url.to_owned()));
    keys.push(CacheKey::new(Method::Head, url.to_owned()));
    assert(key_views(keys@) =~= key_views(old(keys)@) + stored_keys(url@));
}

fn same_host(a: &Option<String>, b: &Option<String>) -> (r: bool)
    ensures
        r == (string_view(*a) == string_view(*b)),
{
    match (a, b) {
        (Some(x), Some(y)) => *x == *y,
        (None, None) => true,
        _ => false,
    }
}

fn push_linked_keys(
    keys: &mut Vec<CacheKey>,
    url: &str,
    response_headers: &trillium_http::Headers,
    name: &str,
)
    ensures
        key_views(final(keys)@) == key_views(old(keys)@) + linked_keys(
            url@,
            fields_of(*response_headers),
            name@,
        ),
{
    proof {
        assert(key_views(keys@) + Seq::empty() =~= key_views(keys@));
    }
    if let Some(reference) = get_str(response_headers, name) {
        if let Some(target) = join_url(url, reference) {
            if same_host(&url_host(&target), &url_host(url)) {
                push_stored_keys(keys, &target);
            }
        }
    }
}

/// The keys that a successful unsafe request to `url` invalidates.
pub fn keys_to_invalidate(url: &str, response_headers: &trillium_http::Headers) -> (r: Vec<
    CacheKey,
>)
    ensures
        key_views(r@) == invalidated_keys(url@, fields_of(*response_headers)),
{
    let mut keys: Vec<CacheKey> = Vec::new();
    push_stored_keys(&mut keys, url);
    assert(key_views(keys@) =~= stored_keys(url@));
    push_linked_keys(&mut keys, url, response_headers, "location");
    push_linked_keys(&mut keys, url, response_headers, "content-location");
    keys
}

} // verus!
