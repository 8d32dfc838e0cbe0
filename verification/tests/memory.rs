//! In-memory storage over the real concurrent cache.
use futures_lite::future::block_on;
use moka::ops::compute::Op;
use std::sync::Arc;
use trillium_cache::http::{Method, Status};
use trillium_cache::limits::{Limits, MAX_EXPIRY_NANOS};
use trillium_cache::memory::{
    committed, find_variant, refresh, refreshed, upsert, weigh_bucket, Bucket, Replay, Variant,
    DEFAULT_MAX_CAPACITY_BYTES,
};
use trillium_cache::options::CacheOptions;
use trillium_cache::time::{Span, Timestamp};
use trillium_cache::{CacheKey, CachePolicy, InMemoryEntry, InMemoryStorage};
use trillium_http::Headers;

fn t0() -> Timestamp {
    Timestamp::new(1_700_000_000, 0)
}

fn key() -> CacheKey {
    CacheKey::new(Method::Get, "http://example.com/".to_string())
}

fn headers(lines: &[(&'static str, &'static str)]) -> Headers {
    let mut out = Headers::new();
    for (name, value) in lines {
        out.insert(*name, *value);
    }
    out
}

fn policy(
    request: &[(&'static str, &'static str)],
    response: &[(&'static str, &'static str)],
    time: Timestamp,
) -> CachePolicy {
    CachePolicy::new(
        Method::Get,
        &headers(request),
        Status::new(200),
        headers(response),
        time,
        CacheOptions::default(),
    )
}

fn plain_policy() -> CachePolicy {
    policy(&[], &[("cache-control", "max-age=600")], t0())
}

fn encoded_policy(encoding: &'static str) -> CachePolicy {
    policy(
        &[("accept-encoding", encoding)],
        &[("cache-control", "max-age=600"), ("vary", "Accept-Encoding")],
        t0(),
    )
}

fn store_under(
    storage: &InMemoryStorage,
    key: CacheKey,
    policy: CachePolicy,
    body: &[u8],
    trailers: Option<Headers>,
) {
    let mut handle = storage.put(key, policy);
    assert_eq!(handle.write(body), body.len());
    let cache = handle.cache().clone();
    let key = handle.key().clone();
    let variant = handle.finalize(trailers);
    block_on(cache.entry(key).and_upsert_with(|existing| async move {
        let bucket = existing.map(|entry| entry.into_value());
        committed(bucket.as_ref(), variant)
    }));
}

fn store(storage: &InMemoryStorage, policy: CachePolicy, body: &[u8]) {
    store_under(storage, key(), policy, body, None);
}

fn get(storage: &InMemoryStorage, key: &CacheKey) -> Vec<InMemoryEntry> {
    let bucket = block_on(storage.cache().get(key));
    storage.get(key, bucket.as_ref())
}

fn invalidate(storage: &InMemoryStorage, key: &CacheKey) {
    block_on(storage.cache().invalidate(key));
}

fn refresh_policy(entry: &mut InMemoryEntry, new_policy: CachePolicy) {
    let policy = entry.refresh_policy(new_policy);
    block_on(entry.cache().entry(entry.key().clone()).and_compute_with(|existing| {
        let policy = Arc::clone(&policy);
        async move {
            let bucket = existing.map(|entry| entry.into_value());
            match refreshed(bucket.as_ref(), &policy) {
                Some(bucket) => Op::Put(bucket),
                None => Op::Nop,
            }
        }
    }));
}

fn read_to_end(replay: &mut Replay, room: usize) -> Vec<u8> {
    let mut out = Vec::new();
    loop {
        let mut buf = vec![0u8; room];
        let n = replay.read(&mut buf);
        if n == 0 {
            return out;
        }
        out.extend_from_slice(&buf[..n]);
    }
}

fn read_body(entry: InMemoryEntry) -> Vec<u8> {
    read_to_end(&mut entry.open(), 3)
}

fn variant(policy: CachePolicy, body: &[u8]) -> Variant {
    Variant { policy: Arc::new(policy), body: Arc::new(body.to_vec()), trailers: None }
}

#[test]
fn memory_get_missing_key_returns_empty() {
    let storage = InMemoryStorage::new();
    assert!(get(&storage, &key()).is_empty());
}

#[test]
fn put_then_get_returns_entry() {
    let storage = InMemoryStorage::new();
    store(&storage, plain_policy(), b"hello");
    let result = get(&storage, &key());
    assert_eq!(result.len(), 1);
    assert_eq!(read_body(result[0].clone()), b"hello");
    assert_eq!(result[0].key().url(), "http://example.com/");
}

#[test]
fn memory_put_with_same_vary_replaces() {
    let storage = InMemoryStorage::new();
    store(&storage, encoded_policy("gzip"), b"v1");
    store(&storage, encoded_policy("gzip"), b"v2");
    let result = get(&storage, &key());
    assert_eq!(result.len(), 1);
    assert_eq!(read_body(result[0].clone()), b"v2");
}

#[test]
fn memory_put_with_different_vary_appends() {
    let storage = InMemoryStorage::new();
    store(&storage, encoded_policy("gzip"), b"gz");
    store(&storage, encoded_policy("br"), b"br");
    let result = get(&storage, &key());
    assert_eq!(result.len(), 2);
}

#[test]
fn memory_invalidate_removes_all_entries_for_key() {
    let storage = InMemoryStorage::new();
    store(&storage, plain_policy(), b"x");
    block_on(storage.cache().run_pending_tasks());
    assert_eq!(storage.entry_count(), 1);
    invalidate(&storage, &key());
    assert!(get(&storage, &key()).is_empty());
    block_on(storage.cache().run_pending_tasks());
    assert_eq!(storage.entry_count(), 0);
}

#[test]
fn memory_invalidate_does_not_touch_other_keys() {
    let storage = InMemoryStorage::new();
    let key_a = CacheKey::new(Method::Get, "http://a.example/".to_string());
    let key_b = CacheKey::new(Method::Get, "http://b.example/".to_string());
    store_under(&storage, key_a.clone(), plain_policy(), b"a", None);
    store_under(&storage, key_b.clone(), plain_policy(), b"b", None);
    invalidate(&storage, &key_a);
    assert!(get(&storage, &key_a).is_empty());
    assert_eq!(get(&storage, &key_b).len(), 1);
}

#[test]
fn memory_drop_put_handle_without_finalize_discards() {
    let storage = InMemoryStorage::new();
    let mut handle = storage.put(key(), plain_policy());
    handle.write(b"partial");
    drop(handle);
    assert!(get(&storage, &key()).is_empty());
}

#[test]
fn refresh_policy_updates_storage() {
    let storage = InMemoryStorage::new();
    store(&storage, plain_policy(), b"body");

    let mut entries = get(&storage, &key());
    let original_time = entries[0].policy().response_time();
    let later = Timestamp::new(original_time.secs + 100, original_time.nanos);
    let new_policy = policy(&[], &[("cache-control", "max-age=1200")], later);
    refresh_policy(&mut entries[0], new_policy);

    let fresh = get(&storage, &key());
    assert_eq!(fresh.len(), 1);
    assert_ne!(fresh[0].policy().response_time(), original_time);
    assert_eq!(fresh[0].policy().response_time(), later);
    assert_eq!(entries[0].policy().response_time(), later);
    assert_eq!(read_body(fresh[0].clone()), b"body");
}

#[test]
fn refresh_of_an_evicted_entry_stays_local() {
    let storage = InMemoryStorage::new();
    store(&storage, plain_policy(), b"body");
    let mut entries = get(&storage, &key());
    invalidate(&storage, &key());
    let later = Timestamp::new(t0().secs + 5, 0);
    refresh_policy(&mut entries[0], policy(&[], &[], later));
    assert_eq!(entries[0].policy().response_time(), later);
    assert!(get(&storage, &key()).is_empty());
}

#[test]
fn size_cap_evicts_old_entries() {
    let storage = InMemoryStorage::new().with_max_capacity_bytes(1024);
    let body = vec![b'x'; 600];
    for i in 0..10 {
        let key = CacheKey::new(Method::Get, format!("http://example.com/{i}"));
        store_under(&storage, key, plain_policy(), &body, None);
    }
    block_on(storage.cache().run_pending_tasks());
    assert!(
        storage.weighted_size() <= 1024,
        "weighted size {} should be within cap of 1024",
        storage.weighted_size()
    );
}

#[test]
fn without_a_cap_nothing_is_evicted() {
    let storage = InMemoryStorage::new().with_max_capacity_bytes(1024).unbounded();
    let body = vec![b'x'; 600];
    for i in 0..10 {
        let key = CacheKey::new(Method::Get, format!("http://example.com/{i}"));
        store_under(&storage, key, plain_policy(), &body, None);
    }
    block_on(storage.cache().run_pending_tasks());
    assert_eq!(storage.entry_count(), 10);
    assert_eq!(storage.weighted_size(), 6000);
}

#[test]
fn storage_without_room_stores_nothing() {
    let storage = InMemoryStorage::new().with_max_capacity_bytes(0);
    store(&storage, plain_policy(), b"");
    store(&storage, plain_policy(), b"hello");
    block_on(storage.cache().run_pending_tasks());
    assert_eq!(storage.entry_count(), 0);
    assert_eq!(storage.weighted_size(), 0);
    assert!(get(&storage, &key()).is_empty());
}

#[test]
fn limits_reach_the_cache() {
    let plain = InMemoryStorage::new();
    assert_eq!(
        plain.limits(),
        Limits {
            max_capacity_bytes: Some(268_435_456),
            time_to_idle: None,
            time_to_live: None,
        }
    );
    assert_eq!(DEFAULT_MAX_CAPACITY_BYTES, 268_435_456);
    assert_eq!(plain.cache().policy().max_capacity(), Some(268_435_456));
    assert_eq!(plain.cache().policy().time_to_idle(), None);
    assert_eq!(InMemoryStorage::default().limits(), plain.limits());

    let configured = InMemoryStorage::new()
        .with_max_capacity_bytes(77)
        .with_time_to_idle(Span { nanos: 1_500_000_000 })
        .with_time_to_live(Span::from_secs(60));
    let policy = configured.cache().policy();
    assert_eq!(policy.max_capacity(), Some(77));
    assert_eq!(policy.time_to_idle(), Some(std::time::Duration::from_millis(1500)));
    assert_eq!(policy.time_to_live(), Some(std::time::Duration::from_secs(60)));

    let unbounded = configured.unbounded();
    assert_eq!(unbounded.cache().policy().max_capacity(), None);
    assert_eq!(unbounded.limits().time_to_live, Some(Span::from_secs(60)));

    let longest = InMemoryStorage::new().with_time_to_live(Span { nanos: MAX_EXPIRY_NANOS });
    assert_eq!(
        longest.cache().policy().time_to_live(),
        Some(std::time::Duration::from_secs(31_536_000_000))
    );
}

#[test]
fn setters_start_over_with_an_empty_cache() {
    let storage = InMemoryStorage::new();
    store(&storage, plain_policy(), b"x");
    assert_eq!(get(&storage, &key()).len(), 1);
    assert!(get(&storage.unbounded(), &key()).is_empty());
}

#[test]
fn clones_share_what_is_stored() {
    let storage = InMemoryStorage::new();
    let other = storage.clone();
    store(&storage, plain_policy(), b"shared");
    assert_eq!(get(&other, &key()).len(), 1);
    assert_eq!(other.limits(), storage.limits());
}

#[test]
fn trailers_are_kept_and_given_once() {
    let storage = InMemoryStorage::new();
    let trailers = headers(&[("x-checksum", "abc")]);
    store_under(&storage, key(), plain_policy(), b"with trailers", Some(trailers));
    let entry = get(&storage, &key()).remove(0);
    let mut replay = entry.open();
    assert_eq!(replay.remaining(), 13);
    assert_eq!(read_to_end(&mut replay, 5), b"with trailers");
    assert_eq!(replay.remaining(), 0);
    let taken = replay.take_trailers().expect("there are trailers");
    assert_eq!(taken.get_str("x-checksum"), Some("abc"));
    assert!(replay.take_trailers().is_none());
}

#[test]
fn an_empty_trailer_section_is_not_the_same_as_none() {
    let storage = InMemoryStorage::new();
    store_under(&storage, key(), plain_policy(), b"x", Some(Headers::new()));
    assert!(get(&storage, &key()).remove(0).open().take_trailers().is_some());
    store_under(&storage, key(), plain_policy(), b"x", None);
    assert!(get(&storage, &key()).remove(0).open().take_trailers().is_none());
}

#[test]
fn reads_stop_at_the_end_and_leave_the_rest_of_the_buffer() {
    let entry = variant(plain_policy(), b"abcde");
    let mut replay = Replay::new(&entry);
    let mut buf = [9u8; 3];
    assert_eq!(replay.read(&mut buf), 3);
    assert_eq!(&buf, b"abc");
    let mut buf = [9u8; 4];
    assert_eq!(replay.read(&mut buf), 2);
    assert_eq!(buf, [b'd', b'e', 9, 9]);
    assert_eq!(replay.read(&mut buf), 0);
    assert_eq!(replay.read(&mut []), 0);
}

#[test]
fn buckets_hold_one_response_for_each_variant() {
    let first: Bucket = committed(None, variant(encoded_policy("gzip"), b"one"));
    let second = committed(Some(&first), variant(encoded_policy("br"), b"three"));
    assert_eq!(second.len(), 2);
    let third = committed(Some(&second), variant(encoded_policy("gzip"), b"eleven"));
    assert_eq!(third.len(), 2);
    assert_eq!(*third[0].body, b"three");
    assert_eq!(*third[1].body, b"eleven");
    assert_eq!(weigh_bucket(&key(), &third), 11);
    assert_eq!(find_variant(&third, &encoded_policy("gzip")), 1);
    assert_eq!(find_variant(&third, &encoded_policy("zstd")), 2);
    assert_eq!(upsert(&third, variant(plain_policy(), b"")).len(), 3);
}

#[test]
fn refreshing_replaces_one_policy_alone() {
    let bucket = committed(
        Some(&committed(None, variant(encoded_policy("gzip"), b"gz"))),
        variant(encoded_policy("br"), b"br"),
    );
    let later = Timestamp::new(t0().secs + 9, 0);
    let new = Arc::new(policy(
        &[("accept-encoding", "gzip")],
        &[("vary", "Accept-Encoding")],
        later,
    ));
    let after = refresh(&bucket, &new).expect("the variant is stored");
    assert_eq!(after.len(), 2);
    assert_eq!(after[0].policy.response_time(), later);
    assert_eq!(*after[0].body, b"gz");
    assert_eq!(after[1].policy.response_time(), t0());
    assert!(refresh(&bucket, &Arc::new(encoded_policy("zstd"))).is_none());
    assert!(refreshed(None, &new).is_none());
}
