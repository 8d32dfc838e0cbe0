//! Two tiers, each over the real concurrent cache.
use futures_lite::future::block_on;
use trillium_cache::http::{Method, Status};
use trillium_cache::memory::committed;
use trillium_cache::options::CacheOptions;
use trillium_cache::tiered::{answering_tier, entry_to_flush, Tier};
use trillium_cache::time::Timestamp;
use trillium_cache::{CacheKey, CachePolicy, InMemoryEntry, InMemoryStorage};
use trillium_http::Headers;

fn key() -> CacheKey {
    CacheKey::new(Method::Get, "http://example.com/".to_string())
}

fn policy(encoding: &'static str) -> CachePolicy {
    let mut request = Headers::new();
    request.insert("accept-encoding", encoding);
    let mut response = Headers::new();
    response.insert("cache-control", "max-age=600");
    response.insert("vary", "Accept-Encoding");
    CachePolicy::new(
        Method::Get,
        &request,
        Status::new(200),
        response,
        Timestamp::new(1_700_000_000, 0),
        CacheOptions::default(),
    )
}

fn store(storage: &InMemoryStorage, policy: CachePolicy, body: &[u8]) {
    let mut handle = storage.put(key(), policy);
    handle.write(body);
    let variant = handle.finalize(None);
    block_on(storage.cache().entry(key()).and_upsert_with(|existing| async move {
        let bucket = existing.map(|entry| entry.into_value());
        committed(bucket.as_ref(), variant)
    }));
}

fn get(storage: &InMemoryStorage) -> Vec<InMemoryEntry> {
    let bucket = block_on(storage.cache().get(&key()));
    storage.get(&key(), bucket.as_ref())
}

fn read_body(entry: &InMemoryEntry) -> Vec<u8> {
    let mut replay = entry.clone().open();
    let mut buf = vec![0u8; replay.remaining()];
    replay.read(&mut buf);
    buf
}

#[test]
fn the_hot_tier_answers_alone_where_it_can() {
    assert_eq!(answering_tier(0), Tier::Cold);
    assert_eq!(answering_tier(1), Tier::Hot);
    assert_eq!(answering_tier(usize::MAX), Tier::Hot);
}

#[test]
fn what_was_stored_is_what_is_flushed() {
    let hot = InMemoryStorage::new();
    let cold = InMemoryStorage::new();
    store(&hot, policy("gzip"), b"gz");
    store(&hot, policy("br"), b"br");
    let entries = get(&hot);
    assert_eq!(answering_tier(entries.len()), Tier::Hot);
    let policies: Vec<&CachePolicy> = entries.iter().map(|entry| entry.policy()).collect();
    let index = entry_to_flush(&policies, &policy("gzip")).expect("it is there");
    let body = read_body(&entries[index]);
    assert_eq!(body, b"gz");
    store(&cold, policy("gzip"), &body);
    let flushed = get(&cold);
    assert_eq!(flushed.len(), 1);
    assert_eq!(read_body(&flushed[0]), b"gz");
}

#[test]
fn what_is_gone_is_not_flushed() {
    let gzip = policy("gzip");
    assert_eq!(entry_to_flush(&vec![], &gzip), None);
    assert_eq!(entry_to_flush(&vec![&policy("br")], &gzip), None);
    assert_eq!(entry_to_flush(&vec![&policy("br"), &gzip, &gzip], &gzip), Some(1));
}
