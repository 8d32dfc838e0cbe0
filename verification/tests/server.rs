//! The server-side handler, driven through whole exchanges.
use futures_lite::future::block_on;
use trillium_cache::engine::{Reply, RequestPlan, RequestState, ResponsePlan, Start};
use trillium_cache::http::{Method, Status};
use trillium_cache::memory::{committed, Variant};
use trillium_cache::options::CacheOptions;
use trillium_cache::server::{Cache, DEFAULT_MAX_CACHEABLE_SIZE};
use trillium_cache::tee::{AtEnd, Give, Next, OnChunk, Tee, WritePoll};
use trillium_cache::time::Timestamp;
use trillium_cache::{CacheKey, CachePolicy, InMemoryEntry, InMemoryStorage};
use trillium_http::Headers;

fn t0() -> Timestamp {
    Timestamp::new(1_700_000_000, 0)
}

fn headers(lines: &[(&'static str, &'static str)]) -> Headers {
    let mut out = Headers::new();
    for (name, value) in lines {
        out.insert(*name, *value);
    }
    out
}

struct Response {
    status: u16,
    headers: Headers,
    body: String,
}

fn response(status: u16, lines: &[(&'static str, &'static str)], body: String) -> Response {
    Response { status, headers: headers(lines), body }
}

/// What an origin answers to the `n`th request.
type Origin = fn(usize, Method, &Headers) -> Response;

/// A cache handler before an origin.
struct World {
    cache: Cache<InMemoryStorage>,
    origin: Origin,
    hits: usize,
}

fn world(origin: Origin) -> World {
    with_cache(Cache::new(InMemoryStorage::new()), origin)
}

fn with_cache(cache: Cache<InMemoryStorage>, origin: Origin) -> World {
    World { cache, origin, hits: 0 }
}

fn get(storage: &InMemoryStorage, key: &CacheKey) -> Vec<InMemoryEntry> {
    let bucket = block_on(storage.cache().get(key));
    storage.get(key, bucket.as_ref())
}

fn commit(storage: &InMemoryStorage, key: CacheKey, variant: Variant) {
    block_on(storage.cache().entry(key).and_upsert_with(|existing| async move {
        let bucket = existing.map(|entry| entry.into_value());
        committed(bucket.as_ref(), variant)
    }));
}

fn read_body(entry: InMemoryEntry) -> String {
    let mut replay = entry.open();
    let mut buf = vec![0u8; replay.remaining()];
    replay.read(&mut buf);
    String::from_utf8(buf).unwrap()
}

/// Reads a body through a tee, a few bytes at a time. Returns what the reader got.
fn tee_through(
    storage: &InMemoryStorage,
    key: CacheKey,
    policy: CachePolicy,
    body: &str,
    cap: u64,
) -> String {
    let mut handle = Some(storage.put(key.clone(), policy));
    let mut tee = Tee::new(cap);
    let mut got = String::new();
    let mut rest = body.as_bytes();
    while !rest.is_empty() {
        assert_eq!(tee.next(), Next::Read);
        let n = rest.len().min(4);
        let chunk = &rest[..n];
        let poll = match tee.chunk_read(n) {
            OnChunk::Write => WritePoll::Accepted(handle.as_mut().unwrap().write(chunk)),
            OnChunk::DropWriter | OnChunk::PassOn => {
                handle = None;
                WritePoll::Failed
            }
        };
        assert_eq!(tee.chunk_polled(chunk, poll), Give::Bytes(n));
        got.push_str(std::str::from_utf8(chunk).unwrap());
        rest = &rest[n..];
    }
    if let AtEnd::Commit { trailers } = tee.ended(None) {
        commit(storage, key, handle.take().unwrap().finalize(trailers));
        assert!(tee.finalize_polled(true));
    }
    assert_eq!(tee.next(), Next::End);
    got
}

enum Ctx {
    Revalidation(InMemoryEntry, CacheKey),
    Miss(CacheKey),
    Unsafe(String),
}

impl World {
    fn send(&mut self, method: Method, path: &str, request: Headers) -> (u16, String) {
        let now = t0();
        let mut request = request;
        let url = Cache::<InMemoryStorage>::url_from_conn(false, Some("example.com"), path)
            .expect("the request has a URL");
        let ctx = match self.cache.begin(method, &url) {
            Start::Unsafe => Ctx::Unsafe(url),
            Start::LookUp { key } => {
                let mut entries = get(self.cache.storage(), &key);
                let plan = {
                    let policies: Vec<&CachePolicy> = entries.iter().map(|e| e.policy()).collect();
                    self.cache.run(&policies, &request, now)
                };
                match plan {
                    RequestPlan::Serve { index, head } => {
                        return (head.status.code, read_body(entries.remove(index)));
                    }
                    RequestPlan::NotModified { head, .. } => {
                        return (head.status.code, String::new());
                    }
                    RequestPlan::ServeStale { .. } => panic!("no background work here"),
                    RequestPlan::Revalidate { index, request_headers } => {
                        request = request_headers;
                        Ctx::Revalidation(entries.remove(index), key)
                    }
                    RequestPlan::Miss => Ctx::Miss(key),
                }
            }
        };
        let answer = (self.origin)(self.hits, method, &request);
        self.hits += 1;
        let plan = {
            let state = match &ctx {
                Ctx::Revalidation(stored, _) => RequestState::Revalidation(stored.policy()),
                Ctx::Miss(_) => RequestState::Miss,
                Ctx::Unsafe(url) => RequestState::Unsafe(url),
            };
            let reply = Reply {
                method,
                request_headers: &request,
                failed: false,
                status: Some(Status::new(answer.status)),
                response_headers: &answer.headers,
            };
            self.cache.before_send(&state, &reply, now)
        };
        match (plan, ctx) {
            (ResponsePlan::PassThrough, _) => (answer.status, answer.body),
            (
                ResponsePlan::ServeStale { head } | ResponsePlan::Refresh { head, .. },
                Ctx::Revalidation(stored, _),
            ) => (head.status.code, read_body(stored)),
            (ResponsePlan::Store { policy }, Ctx::Revalidation(_, key) | Ctx::Miss(key)) => {
                let cap = self.cache.max_cacheable_size() as u64;
                let got = tee_through(self.cache.storage(), key, policy, &answer.body, cap);
                (answer.status, got)
            }
            (ResponsePlan::Invalidate { keys }, Ctx::Unsafe(_)) => {
                for key in &keys {
                    block_on(self.cache.storage().cache().invalidate(key));
                }
                (answer.status, answer.body)
            }
            (plan, _) => panic!("unexpected plan {plan:?}"),
        }
    }

    fn get(&mut self, path: &str) -> (u16, String) {
        self.send(Method::Get, path, Headers::new())
    }

    fn get_body(&mut self, path: &str) -> String {
        self.get(path).1
    }
}

fn counting(n: usize, _: Method, _: &Headers) -> Response {
    response(200, &[("cache-control", "max-age=600")], format!("body-{n}"))
}

#[test]
fn server_first_request_misses_subsequent_request_hits() {
    let mut world = world(counting);
    assert_eq!(world.get("/x"), (200, "body-0".to_string()));
    assert_eq!(world.get("/x"), (200, "body-0".to_string()));
    assert_eq!(world.hits, 1, "inner handler only hit once");
}

#[test]
fn server_different_urls_dont_collide() {
    let mut world = world(counting);
    assert_eq!(world.get_body("/a"), "body-0");
    assert_eq!(world.get_body("/b"), "body-1");
    assert_eq!(world.hits, 2);
}

#[test]
fn server_no_store_response_is_not_cached() {
    let mut world =
        world(|n, _, _| response(200, &[("cache-control", "no-store")], format!("body-{n}")));
    assert_eq!(world.get_body("/x"), "body-0");
    assert_eq!(world.get_body("/x"), "body-1");
    assert_eq!(world.hits, 2);
}

#[test]
fn server_post_invalidates_existing_entry() {
    let mut world = world(counting);
    assert_eq!(world.get_body("/x"), "body-0");
    world.send(Method::Post, "/x", Headers::new());
    assert_eq!(world.get_body("/x"), "body-2");
    assert_eq!(world.hits, 3);
}

#[test]
fn server_stale_with_etag_revalidates_to_304() {
    let mut world = world(|n, _, request| {
        if request.get_str("if-none-match") == Some(r#""v1""#) {
            response(304, &[("etag", r#""v1""#)], String::new())
        } else {
            response(
                200,
                &[("cache-control", "max-age=0"), ("etag", r#""v1""#)],
                format!("body-{n}"),
            )
        }
    });
    assert_eq!(world.get_body("/x"), "body-0");
    assert_eq!(world.hits, 1);
    assert_eq!(world.get("/x"), (200, "body-0".to_string()));
    assert_eq!(world.hits, 2);
}

#[test]
fn server_vary_isolates_entries_by_request_header() {
    let mut world = world(|_, _, request| {
        let ae = request.get_str("accept-encoding").unwrap_or("none");
        response(
            200,
            &[("cache-control", "max-age=600"), ("vary", "Accept-Encoding")],
            format!("body-for-{ae}"),
        )
    });
    let gzip = headers(&[("accept-encoding", "gzip")]);
    let br = headers(&[("accept-encoding", "br")]);
    assert_eq!(world.send(Method::Get, "/x", gzip.clone()).1, "body-for-gzip");
    assert_eq!(world.send(Method::Get, "/x", br).1, "body-for-br");
    assert_eq!(world.send(Method::Get, "/x", gzip).1, "body-for-gzip");
    assert_eq!(world.hits, 2);
}

#[test]
fn server_oversized_body_is_served_but_not_cached() {
    let cache = Cache::new(InMemoryStorage::new()).with_max_cacheable_size(3);
    let mut world = with_cache(cache, counting);
    assert_eq!(world.get_body("/x"), "body-0");
    assert_eq!(world.get_body("/x"), "body-1");
    assert_eq!(world.hits, 2);
}

#[test]
fn server_declared_lengths_do_not_decide() {
    let cache = Cache::new(InMemoryStorage::new()).with_max_cacheable_size(100);
    let mut world = with_cache(cache, |n, _, _| {
        let lines = [("cache-control", "max-age=600"), ("content-length", "5000")];
        response(200, &lines, format!("{n}"))
    });
    assert_eq!(world.send(Method::Head, "/x", Headers::new()).1, "0");
    assert_eq!(world.send(Method::Head, "/x", Headers::new()).1, "0");
    assert_eq!(world.hits, 1);
}

#[test]
fn server_sie_serves_stale_on_5xx() {
    let mut world = world(|n, _, _| {
        if n == 0 {
            let lines = [("cache-control", "max-age=0, stale-if-error=3600")];
            response(200, &lines, "stable".to_string())
        } else {
            response(500, &[], String::new())
        }
    });
    assert_eq!(world.get("/x"), (200, "stable".to_string()));
    assert_eq!(world.hits, 1);
    assert_eq!(world.get("/x"), (200, "stable".to_string()));
    assert_eq!(world.hits, 2);
}

#[test]
fn server_revalidates_where_a_client_would_serve_stale() {
    let mut world = world(|n, _, _| {
        let lines = [("cache-control", "max-age=0, stale-while-revalidate=3600")];
        response(200, &lines, format!("body-{n}"))
    });
    assert_eq!(world.get_body("/x"), "body-0");
    assert_eq!(world.get_body("/x"), "body-1");
}

#[test]
fn replies_without_a_status_pass_through() {
    let cache = Cache::new(InMemoryStorage::new());
    let empty = Headers::new();
    let reply = Reply {
        method: Method::Get,
        request_headers: &empty,
        failed: false,
        status: None,
        response_headers: &empty,
    };
    for state in [RequestState::Hit, RequestState::Miss, RequestState::Unsafe("http://a/")] {
        assert!(matches!(cache.before_send(&state, &reply, t0()), ResponsePlan::PassThrough));
    }
}

#[test]
fn urls_are_made_of_scheme_host_and_path() {
    let url = |secure, host, path| Cache::<InMemoryStorage>::url_from_conn(secure, host, path);
    assert_eq!(
        url(true, Some("Example.com:443"), "/a b?c=d"),
        Some("https://example.com/a%20b?c=d".to_string())
    );
    assert_eq!(
        url(false, Some("example.com:8080"), "/"),
        Some("http://example.com:8080/".to_string())
    );
    assert_eq!(url(false, None, "/"), None);
    assert_eq!(url(false, Some(""), "/"), None);
    assert_eq!(url(false, Some("not a host"), "/"), None);
}

#[test]
fn server_settings_are_kept() {
    let cache = Cache::new(InMemoryStorage::new());
    assert_eq!(cache.max_cacheable_size(), DEFAULT_MAX_CACHEABLE_SIZE);
    assert_eq!(DEFAULT_MAX_CACHEABLE_SIZE, 16_777_216);
    assert_eq!(cache.options(), CacheOptions::default());
    let shared = cache.shared().with_max_cacheable_size(9);
    assert!(shared.options().is_shared());
    assert_eq!(shared.clone().max_cacheable_size(), 9);
    let back = shared.with_options(CacheOptions::default());
    assert!(!back.options().is_shared());
    assert_eq!(back.max_cacheable_size(), 9);
}
