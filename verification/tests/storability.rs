//! Which responses may be stored.
use trillium_cache::http::{Method, Status};
use trillium_cache::options::CacheOptions;
use trillium_cache::policy::CachePolicy;
use trillium_http::KnownHeaderName::{Authorization, CacheControl, CdnCacheControl, Pragma};
use trillium_http::{Headers, KnownHeaderName};

struct Exchange {
    method: Method,
    request: Headers,
    status: Status,
    response: Headers,
}

fn exchange(
    method: Method,
    request_headers: &[(KnownHeaderName, &str)],
    status: Status,
    response_headers: &[(KnownHeaderName, &str)],
) -> Exchange {
    let mut request = Headers::new();
    for (n, v) in request_headers {
        request.insert(*n, v.to_string());
    }
    let mut response = Headers::new();
    for (n, v) in response_headers {
        response.insert(*n, v.to_string());
    }
    Exchange { method, request, status, response }
}

fn private_cache() -> CacheOptions {
    CacheOptions::default()
}

fn shared_cache() -> CacheOptions {
    CacheOptions { shared: true, ..CacheOptions::default() }
}

fn is_storable(conn: &Exchange, options: &CacheOptions) -> bool {
    CachePolicy::is_storable(conn.method, &conn.request, conn.status, &conn.response, options)
}

#[test]
fn no_store_request_blocks_storage() {
    let conn = exchange(Method::Get, &[(CacheControl, "no-store")], Status::new(200), &[]);
    assert!(!is_storable(&conn, &private_cache()));
}

#[test]
fn no_store_response_blocks_storage() {
    let conn = exchange(Method::Get, &[], Status::new(200), &[(CacheControl, "no-store")]);
    assert!(!is_storable(&conn, &private_cache()));
}

#[test]
fn cacheable_by_default_status_is_storable() {
    let conn = exchange(Method::Get, &[], Status::new(200), &[]);
    assert!(is_storable(&conn, &private_cache()));
}

#[test]
fn non_default_status_not_storable_without_freshness() {
    let conn = exchange(Method::Get, &[], Status::new(500), &[]);
    assert!(!is_storable(&conn, &private_cache()));
}

#[test]
fn non_default_status_storable_with_explicit_freshness() {
    let conn = exchange(
        Method::Get,
        &[],
        Status::new(500),
        &[(CacheControl, "max-age=600")],
    );
    assert!(is_storable(&conn, &private_cache()));

    let conn = exchange(
        Method::Get,
        &[],
        Status::new(400),
        &[(CacheControl, "max-age=600")],
    );
    assert!(is_storable(&conn, &private_cache()));
}

#[test]
fn put_not_storable() {
    let conn = exchange(Method::Put, &[], Status::new(200), &[]);
    assert!(!is_storable(&conn, &private_cache()));
}

#[test]
fn post_with_max_age_is_storable() {
    let conn = exchange(
        Method::Post,
        &[],
        Status::new(200),
        &[(CacheControl, "max-age=600")],
    );
    assert!(is_storable(&conn, &private_cache()));
}

#[test]
fn post_without_expiration_not_storable() {
    let conn = exchange(Method::Post, &[], Status::new(200), &[]);
    assert!(!is_storable(&conn, &private_cache()));
}

#[test]
fn shared_cache_refuses_private_response() {
    let conn = exchange(
        Method::Get,
        &[],
        Status::new(200),
        &[(CacheControl, "private, max-age=600")],
    );
    assert!(!is_storable(&conn, &shared_cache()));
}

#[test]
fn private_cache_accepts_private_response() {
    let conn = exchange(
        Method::Get,
        &[],
        Status::new(200),
        &[(CacheControl, "private, max-age=600")],
    );
    assert!(is_storable(&conn, &private_cache()));
}

#[test]
fn shared_cache_refuses_authorization_by_default() {
    let conn = exchange(
        Method::Get,
        &[(Authorization, "Bearer x")],
        Status::new(200),
        &[(CacheControl, "max-age=600")],
    );
    assert!(!is_storable(&conn, &shared_cache()));
}

#[test]
fn shared_cache_allows_authorization_with_public() {
    let conn = exchange(
        Method::Get,
        &[(Authorization, "Bearer x")],
        Status::new(200),
        &[(CacheControl, "public, max-age=600")],
    );
    assert!(is_storable(&conn, &shared_cache()));
}

#[test]
fn shared_cache_allows_authorization_with_s_maxage() {
    let conn = exchange(
        Method::Get,
        &[(Authorization, "Bearer x")],
        Status::new(200),
        &[(CacheControl, "s-maxage=600")],
    );
    assert!(is_storable(&conn, &shared_cache()));
}

#[test]
fn shared_cache_allows_authorization_with_must_revalidate() {
    let conn = exchange(
        Method::Get,
        &[(Authorization, "Bearer x")],
        Status::new(200),
        &[(CacheControl, "must-revalidate, max-age=600")],
    );
    assert!(is_storable(&conn, &shared_cache()));
}

#[test]
fn private_cache_allows_authorization() {
    let conn = exchange(
        Method::Get,
        &[(Authorization, "Bearer x")],
        Status::new(200),
        &[(CacheControl, "max-age=600")],
    );
    assert!(is_storable(&conn, &private_cache()));
}

// Pragma synthesis: a 200 with only Pragma: no-cache is still storable
// (status is cacheable by default), but freshness will require
// revalidation.
#[test]
fn pragma_no_cache_does_not_block_storage() {
    let conn = exchange(Method::Get, &[], Status::new(200), &[(Pragma, "no-cache")]);
    assert!(is_storable(&conn, &private_cache()));
}

#[test]
fn shared_cache_stores_when_cdn_cc_overrides_cc_no_store() {
    let conn = exchange(
        Method::Get,
        &[],
        Status::new(200),
        &[
            (CacheControl, "no-store"),
            (CdnCacheControl, "max-age=10000"),
        ],
    );
    assert!(is_storable(&conn, &shared_cache()));
}

#[test]
fn shared_cache_refuses_when_cdn_cc_no_store_overrides_cc_max_age() {
    let conn = exchange(
        Method::Get,
        &[],
        Status::new(200),
        &[
            (CacheControl, "max-age=10000"),
            (CdnCacheControl, "no-store"),
        ],
    );
    assert!(!is_storable(&conn, &shared_cache()));
}

#[test]
fn private_cache_ignores_cdn_cache_control() {
    let conn = exchange(
        Method::Get,
        &[],
        Status::new(200),
        &[
            (CacheControl, "max-age=10000"),
            (CdnCacheControl, "no-store"),
        ],
    );
    assert!(is_storable(&conn, &private_cache()));
}

#[test]
fn no_store_blocks_storage_on_any_line() {
    let mut conn = exchange(Method::Get, &[], Status::new(200), &[(CacheControl, "max-age=600")]);
    assert!(is_storable(&conn, &private_cache()));
    conn.response.append(CacheControl, "no-store");
    assert!(!is_storable(&conn, &private_cache()));

    let mut conn = exchange(
        Method::Get,
        &[],
        Status::new(200),
        &[(CacheControl, "no-store"), (CdnCacheControl, "max-age=600")],
    );
    conn.response.append(CdnCacheControl, "public");
    assert!(is_storable(&conn, &shared_cache()));
}
