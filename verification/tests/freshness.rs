//! Ages, lifetimes and stale windows.
use std::time::{Duration, UNIX_EPOCH};
use trillium_cache::freshness::parse_age_value;
use trillium_cache::http::{Method, Status};
use trillium_cache::options::CacheOptions;
use trillium_cache::policy::CachePolicy;
use trillium_cache::time::{Span, Timestamp};
use trillium_http::KnownHeaderName::{
    Age, CacheControl, CdnCacheControl, Date, Expires, LastModified, SetCookie, Vary,
};
use trillium_http::{Headers, KnownHeaderName};

struct Exchange {
    method: Method,
    request: Headers,
    status: Status,
    response: Headers,
}

fn exchange(
    method: Method,
    request_headers: &[(KnownHeaderName, &str)],
    status: Status,
    response_headers: &[(KnownHeaderName, &str)],
) -> Exchange {
    let mut request = Headers::new();
    for (n, v) in request_headers {
        request.insert(*n, v.to_string());
    }
    let mut response = Headers::new();
    for (n, v) in response_headers {
        response.insert(*n, v.to_string());
    }
    Exchange { method, request, status, response }
}

fn private_cache() -> CacheOptions {
    CacheOptions::default()
}

fn shared_cache() -> CacheOptions {
    CacheOptions { shared: true, ..CacheOptions::default() }
}

fn t0() -> Timestamp {
    Timestamp::new(1_700_000_000, 0)
}

fn at(t: Timestamp, secs: i64) -> Timestamp {
    Timestamp::new(t.secs + secs, t.nanos)
}

fn http_date(t: Timestamp) -> String {
    httpdate::fmt_http_date(UNIX_EPOCH + Duration::from_secs(t.secs as u64))
}

fn policy_from(conn: &Exchange, response_time: Timestamp, options: CacheOptions) -> CachePolicy {
    CachePolicy::new(
        conn.method,
        &conn.request,
        conn.status,
        conn.response.clone(),
        response_time,
        options,
    )
}

#[test]
fn max_age_freshness_window() {
    let conn = exchange(
        Method::Get,
        &[],
        Status::new(200),
        &[(CacheControl, "max-age=600")],
    );
    let policy = policy_from(&conn, t0(), private_cache());
    assert!(!policy.is_stale(t0()));
    assert!(!policy.is_stale(at(t0(), 599)));
    assert!(policy.is_stale(at(t0(), 600)));
    assert_eq!(policy.time_to_live(t0()), Span::from_secs(600));
    assert_eq!(policy.time_to_live(at(t0(), 100)), Span::from_secs(500));
    assert_eq!(policy.time_to_live(at(t0(), 700)), Span::zero());
}

#[test]
fn shared_cache_prefers_s_maxage_over_max_age() {
    let conn = exchange(
        Method::Get,
        &[],
        Status::new(200),
        &[(CacheControl, "max-age=600, s-maxage=300")],
    );
    let shared = policy_from(&conn, t0(), shared_cache());
    let private = policy_from(&conn, t0(), private_cache());
    assert!(shared.is_stale(at(t0(), 301)));
    assert!(!shared.is_stale(at(t0(), 299)));
    assert!(!private.is_stale(at(t0(), 301)));
    assert!(private.is_stale(at(t0(), 601)));
}

#[test]
fn no_cache_is_immediately_stale() {
    let conn = exchange(
        Method::Get,
        &[],
        Status::new(200),
        &[(CacheControl, "max-age=600, no-cache")],
    );
    let policy = policy_from(&conn, t0(), private_cache());
    assert!(policy.is_stale(t0()));
    assert_eq!(policy.time_to_live(t0()), Span::zero());
}

#[test]
fn vary_star_is_immediately_stale() {
    let conn = exchange(
        Method::Get,
        &[],
        Status::new(200),
        &[(CacheControl, "max-age=600"), (Vary, "*")],
    );
    let policy = policy_from(&conn, t0(), private_cache());
    assert!(policy.is_stale(t0()));
}

#[test]
fn proxy_revalidate_immediately_stale_on_shared_only() {
    let conn = exchange(
        Method::Get,
        &[],
        Status::new(200),
        &[(CacheControl, "max-age=600, proxy-revalidate")],
    );
    assert!(policy_from(&conn, t0(), shared_cache()).is_stale(t0()));
    assert!(!policy_from(&conn, t0(), private_cache()).is_stale(t0()));
}

#[test]
fn set_cookie_on_shared_without_public_is_stale() {
    let conn = exchange(
        Method::Get,
        &[],
        Status::new(200),
        &[(CacheControl, "max-age=600"), (SetCookie, "k=v")],
    );
    assert!(policy_from(&conn, t0(), shared_cache()).is_stale(t0()));
    assert!(!policy_from(&conn, t0(), private_cache()).is_stale(t0()));
}

#[test]
fn set_cookie_on_shared_with_public_respects_max_age() {
    let conn = exchange(
        Method::Get,
        &[],
        Status::new(200),
        &[(CacheControl, "public, max-age=600"), (SetCookie, "k=v")],
    );
    assert!(!policy_from(&conn, t0(), shared_cache()).is_stale(t0()));
}

#[test]
fn immutable_uses_immutable_min_ttl() {
    let conn = exchange(Method::Get, &[], Status::new(200), &[(CacheControl, "immutable")]);
    let policy = policy_from(&conn, t0(), private_cache());
    // Default immutable_min_time_to_live is 24h.
    assert!(!policy.is_stale(at(t0(), 23 * 3600)));
    assert!(policy.is_stale(at(t0(), 24 * 3600 + 1)));
}

#[test]
fn max_age_overrides_expires() {
    let date = http_date(t0());
    let expires_far = http_date(at(t0(), 86400));
    let conn = exchange(
        Method::Get,
        &[],
        Status::new(200),
        &[
            (Date, &date),
            (Expires, &expires_far),
            (CacheControl, "max-age=60"),
        ],
    );
    let policy = policy_from(&conn, t0(), private_cache());
    assert!(policy.is_stale(at(t0(), 61)));
}

#[test]
fn expires_alone_uses_date_diff() {
    let date = http_date(t0());
    let expires = http_date(at(t0(), 600));
    let conn = exchange(
        Method::Get,
        &[],
        Status::new(200),
        &[(Date, &date), (Expires, &expires)],
    );
    let policy = policy_from(&conn, t0(), private_cache());
    assert!(!policy.is_stale(at(t0(), 599)));
    assert!(policy.is_stale(at(t0(), 601)));
}

#[test]
fn invalid_expires_is_stale() {
    let conn = exchange(
        Method::Get,
        &[],
        Status::new(200),
        &[(Expires, "not a real date")],
    );
    let policy = policy_from(&conn, t0(), private_cache());
    assert!(policy.is_stale(t0()));
}

#[test]
fn heuristic_freshness_from_last_modified() {
    // Last-Modified 100 days ago → heuristic 10 days fresh.
    let last_modified = at(t0(), -(100 * 86400));
    let date = http_date(t0());
    let lm = http_date(last_modified);
    let conn = exchange(
        Method::Get,
        &[],
        Status::new(200),
        &[(Date, &date), (LastModified, &lm)],
    );
    let policy = policy_from(&conn, t0(), private_cache());
    assert!(!policy.is_stale(at(t0(), 9 * 86400)));
    assert!(policy.is_stale(at(t0(), 11 * 86400)));
}

#[test]
fn age_header_increments_current_age() {
    let conn = exchange(
        Method::Get,
        &[],
        Status::new(200),
        &[(CacheControl, "max-age=600"), (Age, "300")],
    );
    let policy = policy_from(&conn, t0(), private_cache());
    assert_eq!(policy.age(t0()), Span::from_secs(300));
    assert_eq!(policy.time_to_live(t0()), Span::from_secs(300));
    assert!(policy.is_stale(at(t0(), 301)));
}

#[test]
fn resident_time_adds_to_age() {
    let conn = exchange(
        Method::Get,
        &[],
        Status::new(200),
        &[(CacheControl, "max-age=600")],
    );
    let policy = policy_from(&conn, t0(), private_cache());
    assert_eq!(policy.age(t0()), Span::zero());
    assert_eq!(policy.age(at(t0(), 250)), Span::from_secs(250));
}

#[test]
fn swr_window_parsed_from_response() {
    let conn = exchange(
        Method::Get,
        &[],
        Status::new(200),
        &[(CacheControl, "max-age=60, stale-while-revalidate=300")],
    );
    let policy = policy_from(&conn, t0(), private_cache());
    assert_eq!(
        policy.stale_while_revalidate_window(),
        Span::from_secs(300)
    );
    assert_eq!(policy.stale_if_error_window(), Span::zero());
}

#[test]
fn sie_window_parsed_from_response() {
    let conn = exchange(
        Method::Get,
        &[],
        Status::new(200),
        &[(CacheControl, "max-age=60, stale-if-error=300")],
    );
    let policy = policy_from(&conn, t0(), private_cache());
    assert_eq!(policy.stale_if_error_window(), Span::from_secs(300));
    assert_eq!(policy.stale_while_revalidate_window(), Span::zero());
}

// Fresh entries are not SWR/SIE eligible.
#[test]
fn fresh_response_not_eligible_for_stale_serving() {
    let conn = exchange(
        Method::Get,
        &[],
        Status::new(200),
        &[(CacheControl, "max-age=600, stale-while-revalidate=300")],
    );
    let policy = policy_from(&conn, t0(), private_cache());
    assert!(!policy.is_swr_eligible(t0()));
    assert!(!policy.is_swr_eligible(at(t0(), 500)));
}

// Stale within the SWR window → eligible.
#[test]
fn stale_within_swr_window_is_eligible() {
    let conn = exchange(
        Method::Get,
        &[],
        Status::new(200),
        &[(CacheControl, "max-age=60, stale-while-revalidate=300")],
    );
    let policy = policy_from(&conn, t0(), private_cache());
    // age=100, max_age=60 → staleness=40 < 300 (window).
    assert!(policy.is_swr_eligible(at(t0(), 100)));
}

// Stale past the SWR window → not eligible.
#[test]
fn stale_past_swr_window_not_eligible() {
    let conn = exchange(
        Method::Get,
        &[],
        Status::new(200),
        &[(CacheControl, "max-age=60, stale-while-revalidate=300")],
    );
    let policy = policy_from(&conn, t0(), private_cache());
    // age=400, max_age=60 → staleness=340 > 300.
    assert!(!policy.is_swr_eligible(at(t0(), 400)));
}

// must-revalidate disables both SWR and SIE.
#[test]
fn must_revalidate_disables_stale_serving() {
    let conn = exchange(
        Method::Get,
        &[],
        Status::new(200),
        &[(
            CacheControl,
            "max-age=60, must-revalidate, stale-while-revalidate=300, stale-if-error=300",
        )],
    );
    let policy = policy_from(&conn, t0(), private_cache());
    assert!(!policy.is_swr_eligible(at(t0(), 100)));
    assert!(!policy.is_sie_eligible(at(t0(), 100)));
}

// proxy-revalidate disables stale serving for shared caches only.
#[test]
fn proxy_revalidate_disables_stale_serving_on_shared() {
    let conn = exchange(
        Method::Get,
        &[],
        Status::new(200),
        &[(
            CacheControl,
            "max-age=60, proxy-revalidate, stale-while-revalidate=300",
        )],
    );
    let shared = policy_from(&conn, t0(), shared_cache());
    let private = policy_from(&conn, t0(), private_cache());
    // Shared cache: proxy-revalidate forbids stale serving.
    assert!(!shared.is_swr_eligible(at(t0(), 100)));
    assert!(private.is_swr_eligible(at(t0(), 100)));
}

// SIE window independent from SWR.
#[test]
fn sie_eligibility_uses_sie_window() {
    let conn = exchange(
        Method::Get,
        &[],
        Status::new(200),
        &[(CacheControl, "max-age=60, stale-if-error=300")],
    );
    let policy = policy_from(&conn, t0(), private_cache());
    assert!(policy.is_sie_eligible(at(t0(), 100)));
    assert!(!policy.is_sie_eligible(at(t0(), 400)));
    // No SWR set → never SWR-eligible.
    assert!(!policy.is_swr_eligible(at(t0(), 100)));
}

// No SWR/SIE directive present → no eligibility, even when stale.
#[test]
fn no_directive_means_no_eligibility() {
    let conn = exchange(
        Method::Get,
        &[],
        Status::new(200),
        &[(CacheControl, "max-age=60")],
    );
    let policy = policy_from(&conn, t0(), private_cache());
    assert!(policy.is_stale(at(t0(), 100)));
    assert!(!policy.is_swr_eligible(at(t0(), 100)));
    assert!(!policy.is_sie_eligible(at(t0(), 100)));
}

#[test]
fn age_parses_plain_integer() {
    assert_eq!(parse_age_value("7200"), Some(7200));
    assert_eq!(parse_age_value("0"), Some(0));
    assert_eq!(parse_age_value("2147483648"), Some(2147483648));
}

#[test]
fn age_takes_first_segment_of_comma_list() {
    assert_eq!(parse_age_value("7200, 0"), Some(7200));
    assert_eq!(parse_age_value("0, 7200"), Some(0));
    assert_eq!(parse_age_value("0, 0"), Some(0));
}

#[test]
fn age_takes_prefix_before_structured_field_parameter() {
    assert_eq!(parse_age_value("7200;foo=bar"), Some(7200));
    assert_eq!(parse_age_value("7200;foo=111"), Some(7200));
}

#[test]
fn shared_cache_uses_cdn_cc_max_age_and_ignores_cc_and_expires() {
    let conn = exchange(
        Method::Get,
        &[],
        Status::new(200),
        &[
            (Date, "Thu, 01 Jan 1970 00:00:00 GMT"),
            (Expires, "Thu, 01 Jan 1970 00:00:01 GMT"),
            (CacheControl, "max-age=1"),
            (CdnCacheControl, "max-age=10000"),
        ],
    );
    let policy = policy_from(&conn, t0(), shared_cache());
    assert_eq!(policy.max_age(), Span::from_secs(10000));
    // 100s past response_time, with max_age=10000 → still fresh.
    assert!(!policy.is_stale(at(t0(), 100)));
}

#[test]
fn private_cache_ignores_cdn_cc_for_freshness() {
    let conn = exchange(
        Method::Get,
        &[],
        Status::new(200),
        &[
            (Date, "Thu, 01 Jan 1970 00:00:00 GMT"),
            (CacheControl, "max-age=1"),
            (CdnCacheControl, "max-age=10000"),
        ],
    );
    let policy = policy_from(&conn, t0(), private_cache());
    assert_eq!(policy.max_age(), Span::from_secs(1));
    assert!(policy.is_stale(at(t0(), 100)));
}

#[test]
fn age_rejects_non_integer_forms() {
    assert_eq!(parse_age_value("7200.0"), None);
    assert_eq!(parse_age_value("-7200"), None);
    assert_eq!(parse_age_value("abc"), None);
    assert_eq!(parse_age_value(""), None);
}

#[test]
fn expires_bounds_immutable_responses() {
    let date = http_date(t0());
    let expires = http_date(at(t0(), 600));
    let conn = exchange(
        Method::Get,
        &[],
        Status::new(200),
        &[(Date, &date), (Expires, &expires), (CacheControl, "immutable")],
    );
    let policy = policy_from(&conn, t0(), private_cache());
    assert!(!policy.is_stale(at(t0(), 599)));
    assert!(policy.is_stale(at(t0(), 600)));
}

#[test]
fn no_cache_responses_are_not_served_while_they_are_revalidated() {
    let conn = exchange(
        Method::Get,
        &[],
        Status::new(200),
        &[(CacheControl, "no-cache, stale-while-revalidate=300")],
    );
    let policy = policy_from(&conn, t0(), private_cache());
    assert!(!policy.is_swr_eligible(t0()));
    assert!(!policy.is_swr_eligible(at(t0(), 100)));
}

#[test]
fn two_expirations_are_none() {
    let date = http_date(t0());
    let modified = http_date(at(t0(), -86400));
    let mut conn = exchange(
        Method::Get,
        &[],
        Status::new(200),
        &[(Date, &date), (LastModified, &modified)],
    );
    conn.response.append(Expires, http_date(at(t0(), 600)));
    assert!(!policy_from(&conn, t0(), private_cache()).is_stale(at(t0(), 599)));
    conn.response.append(Expires, http_date(at(t0(), 900)));
    assert!(policy_from(&conn, t0(), private_cache()).is_stale(t0()));
}

#[test]
fn directives_are_read_on_all_lines() {
    let mut conn = exchange(Method::Get, &[], Status::new(200), &[(CacheControl, "max-age=600")]);
    assert!(!policy_from(&conn, t0(), private_cache()).is_stale(t0()));
    conn.response.append(CacheControl, "s-maxage=30");
    let shared = policy_from(&conn, t0(), shared_cache());
    assert!(!shared.is_stale(at(t0(), 29)));
    assert!(shared.is_stale(at(t0(), 30)));
    conn.response.append(CacheControl, "no-cache");
    assert!(policy_from(&conn, t0(), private_cache()).is_stale(t0()));
}

#[test]
fn vary_star_is_read_on_all_lines() {
    let mut conn = exchange(
        Method::Get,
        &[],
        Status::new(200),
        &[(CacheControl, "max-age=600"), (Vary, "Accept")],
    );
    assert!(!policy_from(&conn, t0(), private_cache()).is_stale(t0()));
    conn.response.append(Vary, " * ");
    assert!(policy_from(&conn, t0(), private_cache()).is_stale(t0()));
}
