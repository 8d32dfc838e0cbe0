//! URLs, by their serialization.
use vstd::prelude::*;
use vstd::string::*;

use crate::headers::string_view;

verus! {

/// The serialization of the absolute URL that a text denotes; `None` where it denotes none.
pub uninterp spec fn parsed_url(text: Seq<char>) -> Option<Seq<char>>;

/// The serialization of the URL that `reference` denotes relative to the URL `base`; `None` where
/// it denotes none.
pub uninterp spec fn resolved_url(base: Seq<char>, reference: Seq<char>) -> Option<Seq<char>>;

/// The host of a URL, as it is written in it.
pub uninterp spec fn host_of_url(url: Seq<char>) -> Option<Seq<char>>;

/// `Url::parse`, and the serialization of its result.
#[verifier::external_body]
pub(crate) fn parse_url(text: &str) -> (r: Option<String>)
    ensures
        string_view(r) == parsed_url(text@),
{
    url::Url::parse(text).ok().map(String::from)
}

/// `Url::join` on the URL that `base` denotes, and the serialization of its result.
#[verifier::external_body]
pub(crate) fn join_url(base: &str, reference: &str) -> (r: Option<String>)
    ensures
        string_view(r) == resolved_url(base@, reference@),
{
    url::Url::parse(base).ok()?.join(reference).ok().map(String::from)
}

/// `Url::host_str` on the URL that a text denotes.
#[verifier::external_body]
pub(crate) fn url_host(url: &str) -> (r: Option<String>)
    ensures
        string_view(r) == host_of_url(url@),
{
    url::Url::parse(url).ok()?.host_str().map(str::to_string)
}

/// The text of a request's URL, from what the server knows of it.
pub open spec fn url_text(secure: bool, host: Seq<char>, path_and_query: Seq<char>) -> Seq<char> {
    (if secure {
        "https"@
    } else {
        "http"@
    }) + "://"@ + host + path_and_query
}

/// The URL that a request asks for: `None` without a host, or where the parts make no URL.
pub open spec fn request_url(
    secure: bool,
    host: Option<Seq<char>>,
    path_and_query: Seq<char>,
) -> Option<Seq<char>> {
    match host {
        Some(host) => parsed_url(url_text(secure, host, path_and_query)),
        None => None,
    }
}

/// The URL that a request asks for, from its effective scheme, host, path and query.
pub fn url_from_parts(secure: bool, host: Option<&str>, path_and_query: &str) -> (r: Option<String>)
    ensures
        string_view(r) == request_url(
            secure,
            crate::headers::text_view(host),
            path_and_query@,
        ),
{
    match host {
        Some(host) => {
            let scheme: &str = if secure {
                "https"
            } else {
                "http"
            };
            let mut text = scheme.to_owned();
            text.append("://");
            text.append(host);
            text.append(path_and_query);
            assert(text@ =~= url_text(secure, host@, path_and_query@));
            parse_url(&text)
        },
        None => None,
    }
}

} // verus!
