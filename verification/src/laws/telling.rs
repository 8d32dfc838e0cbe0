//! Laws on what keys, policies, entries and handlers tell of themselves: what they were made of.
use trillium_http::Headers;
use vstd::prelude::*;

use crate::client;
use crate::engine::policy_views;
use crate::headers::fields_of;
use crate::http::{Method, Status};
use crate::memory::{
    entry_views, variant_views, BucketCache, InMemoryEntry, InMemoryPutHandle, InMemoryStorage,
    Replay, Variant,
};
use crate::options::CacheOptions;
use crate::policy::{build_vary_snapshot, selection_view, CachePolicy};
use crate::ratio::Ratio;
use crate::server;
use crate::storage::{key_views, CacheKey};
use crate::text::views;
use crate::time::{Span, Timestamp};

verus! {

/// A key tells the method and the URL that it was made of, and so does a clone of it.
pub proof fn keys_tell_their_parts(
    method: Method,
    url: String,
    key: CacheKey,
    copy: CacheKey,
    a: Method,
    b: &str,
    c: Method,
    d: &str,
)
    requires
        call_ensures(CacheKey::new, (method, url), key),
        call_ensures(CacheKey::clone, (&key,), copy),
        call_ensures(CacheKey::method, (&key,), a),
        call_ensures(CacheKey::url, (&key,), b),
        call_ensures(CacheKey::method, (&copy,), c),
        call_ensures(CacheKey::url, (&copy,), d),
    ensures
        a == method && b@ == url@,
        c == method && d@ == url@,
{
}

/// A policy tells the exchange that it was captured from.
pub proof fn policies_tell_their_exchange(
    method: Method,
    request: &Headers,
    status: Status,
    response: Headers,
    time: Timestamp,
    options: CacheOptions,
    policy: CachePolicy,
    selecting: Vec<(String, Option<Vec<u8>>)>,
    a: Method,
    b: &Vec<(String, Option<Vec<u8>>)>,
    c: Status,
    d: &Headers,
    e: Timestamp,
    f: CacheOptions,
)
    requires
        call_ensures(CachePolicy::new, (method, request, status, response, time, options), policy),
        call_ensures(build_vary_snapshot, (&response, request), selecting),
        call_ensures(CachePolicy::request_method, (&policy,), a),
        call_ensures(CachePolicy::vary_snapshot, (&policy,), b),
        call_ensures(CachePolicy::response_status, (&policy,), c),
        call_ensures(CachePolicy::response_headers, (&policy,), d),
        call_ensures(CachePolicy::response_time, (&policy,), e),
        call_ensures(CachePolicy::options, (&policy,), f),
    ensures
        a == method,
        selection_view(b@) == selection_view(selecting@),
        c.code == status.code,
        fields_of(*d) == fields_of(response),
        e@ == time@,
        f == options,
{
}

/// A policy that was rebuilt tells the parts that it was rebuilt from.
pub proof fn rebuilt_policies_tell_their_parts(
    method: Method,
    selecting: Vec<(String, Option<Vec<u8>>)>,
    status: Status,
    response: Headers,
    time: Timestamp,
    options: CacheOptions,
    policy: CachePolicy,
    a: Method,
    b: &Vec<(String, Option<Vec<u8>>)>,
    c: Status,
    d: &Headers,
    e: Timestamp,
    f: CacheOptions,
)
    requires
        call_ensures(
            CachePolicy::restore,
            (method, selecting, status, response, time, options),
            policy,
        ),
        call_ensures(CachePolicy::request_method, (&policy,), a),
        call_ensures(CachePolicy::vary_snapshot, (&policy,), b),
        call_ensures(CachePolicy::response_status, (&policy,), c),
        call_ensures(CachePolicy::response_headers, (&policy,), d),
        call_ensures(CachePolicy::response_time, (&policy,), e),
        call_ensures(CachePolicy::options, (&policy,), f),
    ensures
        a == method,
        selection_view(b@) == selection_view(selecting@),
        c.code == status.code,
        fields_of(*d) == fields_of(response),
        e@ == time@,
        f == options,
{
}

/// A policy tells what it holds, and a clone of it holds the same.
pub proof fn policies_tell_what_they_hold(
    policy: &CachePolicy,
    copy: CachePolicy,
    method: Method,
    status: Status,
    time: Timestamp,
    options: CacheOptions,
    directives: Option<crate::directives::CacheControl>,
    targeted: bool,
)
    requires
        call_ensures(CachePolicy::clone, (policy,), copy),
        call_ensures(CachePolicy::request_method, (policy,), method),
        call_ensures(CachePolicy::response_status, (policy,), status),
        call_ensures(CachePolicy::response_time, (policy,), time),
        call_ensures(CachePolicy::options, (policy,), options),
        call_ensures(CachePolicy::response_cache_control, (policy,), directives),
        call_ensures(CachePolicy::targeted_cc_in_effect, (policy,), targeted),
    ensures
        copy@ == policy@,
        method == policy@.method,
        status == policy@.status,
        time@ == policy@.response_time,
        options == policy@.options,
        directives == policy@.directives,
        targeted == policy@.targeted,
{
}

/// A stored response that is looked up tells its policy, its key and its cache, and so does a clone
/// of it.
pub proof fn entries_tell_what_they_are(
    entry: &InMemoryEntry,
    copy: InMemoryEntry,
    policy: &CachePolicy,
    key: &CacheKey,
    cache: &BucketCache,
)
    requires
        call_ensures(InMemoryEntry::clone, (entry,), copy),
        call_ensures(InMemoryEntry::policy, (entry,), policy),
        call_ensures(InMemoryEntry::key, (entry,), key),
        call_ensures(InMemoryEntry::cache, (entry,), cache),
    ensures
        copy@ == entry@,
        policy@ == entry@.variant.policy,
        key@ == entry@.key,
        *cache == entry@.store,
{
}

/// A handle tells the key and the cache that it was put under.
pub proof fn handles_tell_where_they_go(
    storage: &InMemoryStorage,
    key: CacheKey,
    policy: CachePolicy,
    handle: InMemoryPutHandle,
    a: &CacheKey,
    b: &BucketCache,
    c: &BucketCache,
)
    requires
        call_ensures(InMemoryStorage::put, (storage, key, policy), handle),
        call_ensures(InMemoryPutHandle::key, (&handle,), a),
        call_ensures(InMemoryPutHandle::cache, (&handle,), b),
        call_ensures(InMemoryStorage::cache, (storage,), c),
    ensures
        a@ == key@,
        *b == *c,
{
}

/// Storage tells its limits, and a clone of it shares cache and limits.
pub proof fn storage_is_shared_by_clones(
    storage: &InMemoryStorage,
    copy: InMemoryStorage,
    a: crate::limits::Limits,
    b: crate::limits::Limits,
    c: &BucketCache,
    d: &BucketCache,
)
    requires
        call_ensures(InMemoryStorage::clone, (storage,), copy),
        call_ensures(InMemoryStorage::limits, (storage,), a),
        call_ensures(InMemoryStorage::limits, (&copy,), b),
        call_ensures(InMemoryStorage::cache, (storage,), c),
        call_ensures(InMemoryStorage::cache, (&copy,), d),
    ensures
        a == storage.configured(),
        b == a,
        *d == *c,
        crate::memory::cache_limits(*c) == a,
{
}

/// A stored response that is cloned, or read, is the one that it was.
pub proof fn stored_responses_are_read_as_they_are(variant: &Variant, copy: Variant, replay: Replay)
    requires
        call_ensures(Variant::clone, (variant,), copy),
        call_ensures(Replay::new, (variant,), replay),
    ensures
        copy@ == variant@,
        replay@.body == variant@.body,
        replay@.trailers == variant@.trailers,
        replay@.position == 0,
{
}

/// A client-side handler tells its parts, and a clone of it has the same.
pub proof fn clients_tell_their_parts<S>(
    cache: &client::Cache<S>,
    copy: client::Cache<S>,
    storage: &S,
    options: CacheOptions,
    max: u64,
)
    requires
        call_ensures(client::Cache::<S>::clone, (cache,), copy),
        call_ensures(client::Cache::<S>::storage, (cache,), storage),
        call_ensures(client::Cache::<S>::options, (cache,), options),
        call_ensures(client::Cache::<S>::max_cacheable_size, (cache,), max),
    ensures
        copy@ == cache@,
        *storage == cache@.storage,
        options == cache@.options,
        max == cache@.max_cacheable_size,
{
}

/// A server-side handler tells its parts, and a clone of it has the same.
pub proof fn servers_tell_their_parts<S>(
    cache: &server::Cache<S>,
    copy: server::Cache<S>,
    storage: &S,
    options: CacheOptions,
    max: usize,
)
    requires
        call_ensures(server::Cache::<S>::clone, (cache,), copy),
        call_ensures(server::Cache::<S>::storage, (cache,), storage),
        call_ensures(server::Cache::<S>::options, (cache,), options),
        call_ensures(server::Cache::<S>::max_cacheable_size, (cache,), max),
    ensures
        copy@ == cache@,
        *storage == cache@.storage,
        options == cache@.options,
        max == cache@.max_cacheable_size,
{
}

/// Options tell what was set, and what is changed in place is changed alone.
pub proof fn options_tell_what_was_set(
    options: &CacheOptions,
    a: bool,
    b: Ratio,
    c: Span,
    x: &mut CacheOptions,
    y: &mut CacheOptions,
    z: &mut CacheOptions,
    shared: bool,
    ratio: Ratio,
    span: Span,
    set_x: &mut CacheOptions,
    set_y: &mut CacheOptions,
    set_z: &mut CacheOptions,
)
    requires
        call_ensures(CacheOptions::is_shared, (options,), a),
        call_ensures(CacheOptions::cache_heuristic, (options,), b),
        call_ensures(CacheOptions::immutable_min_time_to_live, (options,), c),
        call_ensures(CacheOptions::set_shared, (x, shared), set_x),
        call_ensures(CacheOptions::set_cache_heuristic, (y, ratio), set_y),
        call_ensures(CacheOptions::set_immutable_min_time_to_live, (z, span), set_z),
    ensures
        a == options.shared,
        b == options.cache_heuristic,
        c == options.immutable_min_time_to_live,
        *old(set_x) == (CacheOptions { shared, ..*old(x) }),
        *final(x) == *final(set_x),
        *old(set_y) == (CacheOptions { cache_heuristic: ratio, ..*old(y) }),
        *final(y) == *final(set_y),
        *old(set_z) == (CacheOptions { immutable_min_time_to_live: span, ..*old(z) }),
        *final(z) == *final(set_z),
{
}

/// A ratio tells the bits that it was made of, and a status has its code.
pub proof fn numbers_tell_what_they_were_made_of(
    bits: u32,
    ratio: Ratio,
    r: u32,
    code: u16,
    status: Status,
)
    requires
        call_ensures(Ratio::from_bits, (bits,), ratio),
        call_ensures(Ratio::to_bits, (&ratio,), r),
        call_ensures(Status::new, (code,), status),
    ensures
        r == bits,
        status.code == code,
{
}

/// Collections are what their members are, one by one and in order.
pub proof fn collections_are_their_members(
    texts: Seq<&str>,
    keys: Seq<CacheKey>,
    policies: Seq<&CachePolicy>,
    selecting: Seq<(String, Option<Vec<u8>>)>,
    variants: Seq<Variant>,
    entries: Seq<InMemoryEntry>,
    i: int,
)
    ensures
        views(texts).len() == texts.len(),
        0 <= i < texts.len() ==> views(texts)[i] == texts[i]@,
        key_views(keys).len() == keys.len(),
        0 <= i < keys.len() ==> key_views(keys)[i] == keys[i]@,
        policy_views(policies).len() == policies.len(),
        0 <= i < policies.len() ==> policy_views(policies)[i] == policies[i]@,
        selection_view(selecting).len() == selecting.len(),
        0 <= i < selecting.len() ==> selection_view(selecting)[i].0 == selecting[i].0@,
        0 <= i < selecting.len() ==> match selecting[i].1 {
            Some(bytes) => selection_view(selecting)[i].1 == Some(bytes@),
            None => selection_view(selecting)[i].1 is None,
        },
        variant_views(variants).len() == variants.len(),
        0 <= i < variants.len() ==> variant_views(variants)[i] == variants[i]@,
        0 <= i < variants.len() ==> variants[i]@.policy == variants[i].policy@ && variants[i]@.body
            == variants[i].body@,
        entry_views(entries).len() == entries.len(),
        0 <= i < entries.len() ==> entry_views(entries)[i] == entries[i]@,
{
}

} // verus!
