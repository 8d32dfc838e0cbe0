//! Laws on the configuration of the cache handlers.
use vstd::prelude::*;

use crate::client;
use crate::engine::Start;
use crate::headers::string_view;
use crate::http::Method;
use crate::laws::serving::is_read_only;
use crate::options::CacheOptions;
use crate::ratio::Ratio;
use crate::server;
use crate::time::Span;
use crate::urls::parsed_url;

verus! {

/// Whether these are the options that a cache has where nobody set any: it is not shared, takes one
/// tenth in single precision for its heuristic, and gives immutable responses one day.
pub open spec fn are_the_defaults(options: CacheOptions) -> bool {
    &&& !options.shared
    &&& options.cache_heuristic.bits == 0x3dcc_cccd
    &&& options.immutable_min_time_to_live.nanos == 86_400_000_000_000
}

/// A new client-side handler has the default options and stores bodies of up to 16 MiB.
pub proof fn new_clients_have_the_defaults<S>(storage: S, r: client::Cache<S>)
    requires
        call_ensures(client::Cache::<S>::new, (storage,), r),
    ensures
        r@.storage == storage,
        are_the_defaults(r@.options),
        r@.max_cacheable_size == 16_777_216,
{
}

/// A new server-side handler has the default options and stores bodies of up to 16 MiB.
pub proof fn new_servers_have_the_defaults<S>(storage: S, r: server::Cache<S>)
    requires
        call_ensures(server::Cache::<S>::new, (storage,), r),
    ensures
        r@.storage == storage,
        are_the_defaults(r@.options),
        r@.max_cacheable_size == 16_777_216,
{
}

/// Each setting of a client-side handler is one alone.
pub proof fn clients_are_configured_part_by_part<S>(
    cache: client::Cache<S>,
    options: CacheOptions,
    max: u64,
    a: client::Cache<S>,
    b: client::Cache<S>,
    c: client::Cache<S>,
)
    requires
        call_ensures(client::Cache::<S>::with_options, (cache, options), a),
        call_ensures(client::Cache::<S>::shared, (cache,), b),
        call_ensures(client::Cache::<S>::with_max_cacheable_size, (cache, max), c),
    ensures
        a@.options == options,
        a@.storage == cache@.storage,
        a@.max_cacheable_size == cache@.max_cacheable_size,
        b@.options.shared,
        b@.options.cache_heuristic == cache@.options.cache_heuristic,
        b@.options.immutable_min_time_to_live == cache@.options.immutable_min_time_to_live,
        b@.storage == cache@.storage,
        b@.max_cacheable_size == cache@.max_cacheable_size,
        c@.max_cacheable_size == max,
        c@.options == cache@.options,
        c@.storage == cache@.storage,
{
}

/// Each setting of a server-side handler is one alone.
pub proof fn servers_are_configured_part_by_part<S>(
    cache: server::Cache<S>,
    options: CacheOptions,
    max: usize,
    a: server::Cache<S>,
    b: server::Cache<S>,
    c: server::Cache<S>,
)
    requires
        call_ensures(server::Cache::<S>::with_options, (cache, options), a),
        call_ensures(server::Cache::<S>::shared, (cache,), b),
        call_ensures(server::Cache::<S>::with_max_cacheable_size, (cache, max), c),
    ensures
        a@.options == options,
        a@.storage == cache@.storage,
        a@.max_cacheable_size == cache@.max_cacheable_size,
        b@.options.shared,
        b@.options.cache_heuristic == cache@.options.cache_heuristic,
        b@.options.immutable_min_time_to_live == cache@.options.immutable_min_time_to_live,
        b@.storage == cache@.storage,
        b@.max_cacheable_size == cache@.max_cacheable_size,
        c@.max_cacheable_size == max,
        c@.options == cache@.options,
        c@.storage == cache@.storage,
{
}

/// Both handlers look requests up exactly where the method is read-only, under that method and the
/// URL.
pub proof fn handlers_look_read_only_requests_up<S>(
    a: &client::Cache<S>,
    b: &server::Cache<S>,
    method: Method,
    url: &str,
    at_client: Start,
    at_server: Start,
)
    requires
        call_ensures(client::Cache::<S>::begin, (a, method, url), at_client),
        call_ensures(server::Cache::<S>::begin, (b, method, url), at_server),
    ensures
        at_client is LookUp <==> is_read_only(method),
        at_client matches Start::LookUp { key } ==> key@.method == method && key@.url == url@,
        at_server is LookUp <==> is_read_only(method),
        at_server matches Start::LookUp { key } ==> key@.method == method && key@.url == url@,
{
}

/// A server-side handler takes a request for the URL that its scheme, host, path and query spell.
pub proof fn servers_spell_urls_by_their_parts<S>(
    secure: bool,
    host: Option<&str>,
    path_and_query: &str,
    r: Option<String>,
)
    requires
        call_ensures(server::Cache::<S>::url_from_conn, (secure, host, path_and_query), r),
    ensures
        host is None ==> r is None,
        host matches Some(host) ==> string_view(r) == parsed_url(
            if secure {
                seq!['h', 't', 't', 'p', 's', ':', '/', '/']
            } else {
                seq!['h', 't', 't', 'p', ':', '/', '/']
            } + host@ + path_and_query@,
        ),
{
    reveal_strlit("http");
    reveal_strlit("https");
    reveal_strlit("://");
    assert("https"@ + "://"@ =~= seq!['h', 't', 't', 'p', 's', ':', '/', '/']);
    assert("http"@ + "://"@ =~= seq!['h', 't', 't', 'p', ':', '/', '/']);
}

/// Options that nobody set are the defaults, and each is set alone.
pub proof fn options_are_set_one_by_one(
    options: CacheOptions,
    shared: bool,
    ratio: Ratio,
    span: Span,
    start: CacheOptions,
    a: CacheOptions,
    b: CacheOptions,
    c: CacheOptions,
)
    requires
        call_ensures(CacheOptions::default, (), start),
        call_ensures(CacheOptions::with_shared, (options, shared), a),
        call_ensures(CacheOptions::with_cache_heuristic, (options, ratio), b),
        call_ensures(CacheOptions::with_immutable_min_time_to_live, (options, span), c),
    ensures
        are_the_defaults(start),
        a.shared == shared && a.cache_heuristic == options.cache_heuristic
            && a.immutable_min_time_to_live == options.immutable_min_time_to_live,
        b.shared == options.shared && b.cache_heuristic == ratio && b.immutable_min_time_to_live
            == options.immutable_min_time_to_live,
        c.shared == options.shared && c.cache_heuristic == options.cache_heuristic
            && c.immutable_min_time_to_live == span,
{
}

} // verus!
