//! What a stored response means for a request, and a revalidation for it.
use std::time::{Duration, UNIX_EPOCH};
use trillium_cache::etag::{etag_opaque, inm_matches, iter_etag_opaques};
use trillium_cache::http::{Method, Status};
use trillium_cache::options::CacheOptions;
use trillium_cache::policy::CachePolicy;
use trillium_cache::time::Timestamp;
use trillium_cache::validation::{ims_matches, AfterResponse, BeforeRequest};
use trillium_http::KnownHeaderName::{
    AcceptEncoding, Age, CacheControl, Connection, ContentEncoding, ContentLength, ContentType,
    Date, Etag, IfModifiedSince, IfNoneMatch, LastModified, Pragma, TransferEncoding, Vary,
};
use trillium_http::{Headers, KnownHeaderName};

struct Exchange {
    method: Method,
    request: Headers,
    status: Status,
    response: Headers,
}

impl Exchange {
    fn response_headers_mut(&mut self) -> &mut Headers {
        &mut self.response
    }
}

fn exchange(
    method: Method,
    request_headers: &[(KnownHeaderName, &str)],
    status: Status,
    response_headers: &[(KnownHeaderName, &str)],
) -> Exchange {
    let mut request = Headers::new();
    for (n, v) in request_headers {
        request.insert(*n, v.to_string());
    }
    let mut response = Headers::new();
    for (n, v) in response_headers {
        response.insert(*n, v.to_string());
    }
    Exchange { method, request, status, response }
}

fn request(method: Method, headers: &[(KnownHeaderName, &str)]) -> Exchange {
    exchange(method, headers, Status::new(200), &[])
}

fn private_cache() -> CacheOptions {
    CacheOptions::default()
}

fn t0() -> Timestamp {
    Timestamp::new(1_700_000_000, 0)
}

fn at(t: Timestamp, secs: i64) -> Timestamp {
    Timestamp::new(t.secs + secs, t.nanos)
}

fn http_date(t: Timestamp) -> String {
    httpdate::fmt_http_date(UNIX_EPOCH + Duration::from_secs(t.secs as u64))
}

fn policy_from(conn: &Exchange, response_time: Timestamp, options: CacheOptions) -> CachePolicy {
    CachePolicy::new(
        conn.method,
        &conn.request,
        conn.status,
        conn.response.clone(),
        response_time,
        options,
    )
}

fn before_request(policy: &CachePolicy, conn: &Exchange, now: Timestamp) -> BeforeRequest {
    policy.before_request(&conn.request, now)
}

fn after_response(
    policy: &CachePolicy,
    conn: &Exchange,
    response_time: Timestamp,
) -> AfterResponse {
    policy.after_response(&conn.request, conn.status, &conn.response, response_time)
}

// Fresh stored response, fresh request → Fresh, with Age inserted
// and the origin's Date preserved.
#[test]
fn before_request_fresh_returns_cached_response() {
    let stored = exchange(
        Method::Get,
        &[],
        Status::new(200),
        &[
            (Date, "Thu, 01 Jan 1970 00:00:00 GMT"),
            (CacheControl, "max-age=600"),
            (Etag, r#""abc""#),
        ],
    );
    let policy = policy_from(&stored, t0(), private_cache());
    let new = request(Method::Get, &[]);

    match before_request(&policy, &new, at(t0(), 100)) {
        BeforeRequest::Fresh(cached) => {
            assert_eq!(cached.status, Status::new(200));
            assert_eq!(cached.headers.get_str(Age), Some("100"));
            assert_eq!(
                cached.headers.get_str(Date),
                Some("Thu, 01 Jan 1970 00:00:00 GMT"),
                "origin Date is preserved on cache hit"
            );
            assert_eq!(cached.headers.get_str(Etag), Some(r#""abc""#));
        }
        other => panic!("expected Fresh, got {other:?}"),
    }
}

// Stale stored response → Stale, with If-None-Match populated from
// ETag.
#[test]
fn before_request_stale_uses_etag_for_revalidation() {
    let stored = exchange(
        Method::Get,
        &[],
        Status::new(200),
        &[(CacheControl, "max-age=10"), (Etag, r#""abc""#)],
    );
    let policy = policy_from(&stored, t0(), private_cache());
    let new = request(Method::Get, &[]);

    match before_request(&policy, &new, at(t0(), 1000)) {
        BeforeRequest::Stale {
            request_headers,
            matches,
        } => {
            assert!(matches);
            assert_eq!(request_headers.get_str(IfNoneMatch), Some(r#""abc""#));
        }
        other => panic!("expected Stale, got {other:?}"),
    }
}

// Stale stored response, no ETag, has Last-Modified →
// If-Modified-Since.
#[test]
fn before_request_stale_uses_last_modified_for_revalidation() {
    let lm = http_date(at(t0(), -(86400)));
    let stored = exchange(
        Method::Get,
        &[],
        Status::new(200),
        &[(CacheControl, "max-age=10"), (LastModified, &lm)],
    );
    let policy = policy_from(&stored, t0(), private_cache());
    let new = request(Method::Get, &[]);

    match before_request(&policy, &new, at(t0(), 1000)) {
        BeforeRequest::Stale {
            request_headers, ..
        } => {
            assert_eq!(request_headers.get_str(IfModifiedSince), Some(lm.as_str()));
        }
        other => panic!("expected Stale, got {other:?}"),
    }
}

#[test]
fn vary_mismatch_returns_stale_not_matching() {
    let stored = exchange(
        Method::Get,
        &[(AcceptEncoding, "gzip")],
        Status::new(200),
        &[(CacheControl, "max-age=600"), (Vary, "Accept-Encoding")],
    );
    let policy = policy_from(&stored, t0(), private_cache());
    let new = request(Method::Get, &[(AcceptEncoding, "br")]);

    match before_request(&policy, &new, t0()) {
        BeforeRequest::Stale { matches, .. } => assert!(!matches),
        other => panic!("expected Stale, got {other:?}"),
    }
}

#[test]
fn vary_match_returns_fresh() {
    let stored = exchange(
        Method::Get,
        &[(AcceptEncoding, "gzip")],
        Status::new(200),
        &[(CacheControl, "max-age=600"), (Vary, "Accept-Encoding")],
    );
    let policy = policy_from(&stored, t0(), private_cache());
    let new = request(Method::Get, &[(AcceptEncoding, "gzip")]);

    assert!(matches!(
        before_request(&policy, &new, t0()),
        BeforeRequest::Fresh(_)
    ));
}

#[test]
fn request_no_cache_forces_stale() {
    let stored = exchange(
        Method::Get,
        &[],
        Status::new(200),
        &[(CacheControl, "max-age=600")],
    );
    let policy = policy_from(&stored, t0(), private_cache());
    let new = request(Method::Get, &[(CacheControl, "no-cache")]);

    assert!(matches!(
        before_request(&policy, &new, t0()),
        BeforeRequest::Stale { .. }
    ));
}

#[test]
fn request_pragma_no_cache_forces_stale() {
    let stored = exchange(
        Method::Get,
        &[],
        Status::new(200),
        &[(CacheControl, "max-age=600")],
    );
    let policy = policy_from(&stored, t0(), private_cache());
    let new = request(Method::Get, &[(Pragma, "no-cache")]);

    assert!(matches!(
        before_request(&policy, &new, t0()),
        BeforeRequest::Stale { .. }
    ));
}

#[test]
fn request_max_age_limits_freshness() {
    let stored = exchange(
        Method::Get,
        &[],
        Status::new(200),
        &[(CacheControl, "max-age=600")],
    );
    let policy = policy_from(&stored, t0(), private_cache());
    // Stored is 100s old; request demands at most 50s.
    let new = request(Method::Get, &[(CacheControl, "max-age=50")]);

    assert!(matches!(
        before_request(&policy, &new, at(t0(), 100)),
        BeforeRequest::Stale { .. }
    ));
}

#[test]
fn request_min_fresh_demands_headroom() {
    let stored = exchange(
        Method::Get,
        &[],
        Status::new(200),
        &[(CacheControl, "max-age=600")],
    );
    let policy = policy_from(&stored, t0(), private_cache());
    // 500s left; request demands 600.
    let new = request(Method::Get, &[(CacheControl, "min-fresh=600")]);

    assert!(matches!(
        before_request(&policy, &new, at(t0(), 100)),
        BeforeRequest::Stale { .. }
    ));
}

#[test]
fn request_max_stale_allows_stale_response() {
    let stored = exchange(
        Method::Get,
        &[],
        Status::new(200),
        &[(CacheControl, "max-age=100")],
    );
    let policy = policy_from(&stored, t0(), private_cache());
    // Response is now 50s past expiry (age=150, max_age=100).
    let new = request(Method::Get, &[(CacheControl, "max-stale=200")]);

    assert!(matches!(
        before_request(&policy, &new, at(t0(), 150)),
        BeforeRequest::Fresh(_)
    ));
}

#[test]
fn must_revalidate_ignores_max_stale() {
    let stored = exchange(
        Method::Get,
        &[],
        Status::new(200),
        &[(CacheControl, "max-age=100, must-revalidate")],
    );
    let policy = policy_from(&stored, t0(), private_cache());
    let new = request(Method::Get, &[(CacheControl, "max-stale=200")]);

    assert!(matches!(
        before_request(&policy, &new, at(t0(), 150)),
        BeforeRequest::Stale { .. }
    ));
}

#[test]
fn cached_response_strips_hop_by_hop_headers() {
    let stored = exchange(
        Method::Get,
        &[],
        Status::new(200),
        &[
            (CacheControl, "max-age=600"),
            (Connection, "close"),
            (TransferEncoding, "chunked"),
        ],
    );
    let policy = policy_from(&stored, t0(), private_cache());
    let new = request(Method::Get, &[]);

    match before_request(&policy, &new, t0()) {
        BeforeRequest::Fresh(cached) => {
            assert!(!cached.headers.has_header(Connection));
            assert!(!cached.headers.has_header(TransferEncoding));
        }
        other => panic!("expected Fresh, got {other:?}"),
    }
}

#[test]
fn connection_header_value_strips_named_headers() {
    let stored = exchange(
        Method::Get,
        &[],
        Status::new(200),
        &[(CacheControl, "max-age=600"), (Connection, "X-Custom-Hop")],
    );
    let stored = {
        let mut s = stored;
        s.response_headers_mut()
            .insert("x-custom-hop", "value".to_string());
        s
    };
    let policy = policy_from(&stored, t0(), private_cache());
    let new = request(Method::Get, &[]);

    match before_request(&policy, &new, t0()) {
        BeforeRequest::Fresh(cached) => {
            assert!(!cached.headers.has_header("x-custom-hop"));
        }
        other => panic!("expected Fresh, got {other:?}"),
    }
}

// 304 with matching strong ETag → NotModified, served as stored
// status (e.g. 200).
#[test]
fn after_response_304_strong_etag_match() {
    let stored = exchange(
        Method::Get,
        &[],
        Status::new(200),
        &[(CacheControl, "max-age=10"), (Etag, r#""v1""#)],
    );
    let policy = policy_from(&stored, t0(), private_cache());

    let revalidation = exchange(
        Method::Get,
        &[],
        Status::new(304),
        &[(Etag, r#""v1""#), (CacheControl, "max-age=600")],
    );

    match after_response(&policy, &revalidation, at(t0(), 100)) {
        AfterResponse::NotModified(new_policy, cached) => {
            assert_eq!(cached.status, Status::new(200));
            // 304's Cache-Control replaces stored.
            assert_eq!(
                new_policy.response_headers().get_str(CacheControl),
                Some("max-age=600")
            );
            assert_eq!(new_policy.response_headers().get_str(Etag), Some(r#""v1""#));
        }
        other => panic!("expected NotModified, got {other:?}"),
    }
}

#[test]
fn after_response_304_with_different_etag_updates_stored_validator() {
    let stored = exchange(
        Method::Get,
        &[],
        Status::new(200),
        &[(CacheControl, "max-age=10"), (Etag, r#""v1""#)],
    );
    let policy = policy_from(&stored, t0(), private_cache());
    let revalidation = exchange(Method::Get, &[], Status::new(304), &[(Etag, r#""v2""#)]);

    match after_response(&policy, &revalidation, at(t0(), 100)) {
        AfterResponse::NotModified(new_policy, _) => {
            assert_eq!(
                new_policy.response_headers().get_str(Etag),
                Some(r#""v2""#),
                "304's new ETag replaces the stored one"
            );
        }
        other => panic!("expected NotModified, got {other:?}"),
    }
}

// Weak ETag on the 304 — match by weakness-stripped equality.
#[test]
fn after_response_304_weak_etag_match() {
    let stored = exchange(
        Method::Get,
        &[],
        Status::new(200),
        &[(CacheControl, "max-age=10"), (Etag, r#"W/"v1""#)],
    );
    let policy = policy_from(&stored, t0(), private_cache());
    let revalidation = exchange(
        Method::Get,
        &[],
        Status::new(304),
        &[(Etag, r#"W/"v1""#)],
    );

    assert!(matches!(
        after_response(&policy, &revalidation, at(t0(), 100)),
        AfterResponse::NotModified(..)
    ));
}

// Last-Modified comparison when no ETag available.
#[test]
fn after_response_304_last_modified_match() {
    let lm = http_date(at(t0(), -(86400)));
    let stored = exchange(
        Method::Get,
        &[],
        Status::new(200),
        &[(CacheControl, "max-age=10"), (LastModified, &lm)],
    );
    let policy = policy_from(&stored, t0(), private_cache());
    let revalidation = exchange(
        Method::Get,
        &[],
        Status::new(304),
        &[(LastModified, &lm)],
    );

    assert!(matches!(
        after_response(&policy, &revalidation, at(t0(), 100)),
        AfterResponse::NotModified(..)
    ));
}

#[test]
fn after_response_304_without_validators_trusts_stored_entry() {
    let stored = exchange(
        Method::Get,
        &[],
        Status::new(200),
        &[(CacheControl, "max-age=10"), (Etag, r#""abcdef""#)],
    );
    let policy = policy_from(&stored, t0(), private_cache());
    let revalidation = exchange(Method::Get, &[], Status::new(304), &[]);

    assert!(matches!(
        after_response(&policy, &revalidation, at(t0(), 100)),
        AfterResponse::NotModified(..)
    ));
}

// Non-304 status → Modified.
#[test]
fn after_response_200_is_modified() {
    let stored = exchange(
        Method::Get,
        &[],
        Status::new(200),
        &[(CacheControl, "max-age=10"), (Etag, r#""v1""#)],
    );
    let policy = policy_from(&stored, t0(), private_cache());
    let fresh = exchange(
        Method::Get,
        &[],
        Status::new(200),
        &[(CacheControl, "max-age=600"), (Etag, r#""v2""#)],
    );

    assert!(matches!(
        after_response(&policy, &fresh, at(t0(), 100)),
        AfterResponse::Modified
    ));
}

#[test]
fn after_response_merge_preserves_body_headers_from_stored() {
    let stored = exchange(
        Method::Get,
        &[],
        Status::new(200),
        &[
            (CacheControl, "max-age=10"),
            (Etag, r#""v1""#),
            (ContentLength, "1234"),
            (ContentEncoding, "gzip"),
        ],
    );
    let policy = policy_from(&stored, t0(), private_cache());

    // 304 with different (lying) body headers and a new
    // non-body-description header.
    let revalidation = exchange(
        Method::Get,
        &[],
        Status::new(304),
        &[
            (Etag, r#""v1""#),
            (ContentLength, "0"),
            (ContentEncoding, "identity"),
            (CacheControl, "max-age=600"),
        ],
    );

    match after_response(&policy, &revalidation, at(t0(), 100)) {
        AfterResponse::NotModified(new_policy, _) => {
            // Body headers stay from stored.
            assert_eq!(
                new_policy.response_headers().get_str(ContentLength),
                Some("1234")
            );
            assert_eq!(
                new_policy.response_headers().get_str(ContentEncoding),
                Some("gzip")
            );
            // Non-body header from 304 wins.
            assert_eq!(
                new_policy.response_headers().get_str(CacheControl),
                Some("max-age=600")
            );
        }
        other => panic!("expected NotModified, got {other:?}"),
    }
}

#[test]
fn after_response_merge_includes_new_304_headers() {
    let stored = exchange(
        Method::Get,
        &[],
        Status::new(200),
        &[(CacheControl, "max-age=10"), (Etag, r#""v1""#)],
    );
    let policy = policy_from(&stored, t0(), private_cache());
    let revalidation = exchange(
        Method::Get,
        &[],
        Status::new(304),
        &[(Etag, r#""v1""#), (Vary, "Accept-Encoding")],
    );

    match after_response(&policy, &revalidation, at(t0(), 100)) {
        AfterResponse::NotModified(new_policy, _) => {
            assert_eq!(
                new_policy.response_headers().get_str(Vary),
                Some("Accept-Encoding")
            );
        }
        other => panic!("expected NotModified, got {other:?}"),
    }
}

#[test]
fn after_response_no_validators_treated_as_match() {
    let stored = exchange(
        Method::Get,
        &[],
        Status::new(200),
        &[(CacheControl, "max-age=10")],
    );
    let policy = policy_from(&stored, t0(), private_cache());
    let revalidation = exchange(
        Method::Get,
        &[],
        Status::new(304),
        &[(CacheControl, "max-age=600")],
    );

    assert!(matches!(
        after_response(&policy, &revalidation, at(t0(), 100)),
        AfterResponse::NotModified(..)
    ));
}

#[test]
fn etag_opaque_strips_quotes_and_weak_prefix() {
    assert_eq!(etag_opaque(r#""abc""#), Some("abc"));
    assert_eq!(etag_opaque(r#"W/"abc""#), Some("abc"));
    assert_eq!(etag_opaque(" \"abc\" "), Some("abc"));
    assert_eq!(etag_opaque("abc"), None); // no quotes
    assert_eq!(etag_opaque(""), None);
}

#[test]
fn iter_etag_opaques_handles_multi_value_lists() {
    let v = iter_etag_opaques(r#""a", W/"b", "c""#);
    assert_eq!(v, vec!["a", "b", "c"]);
    let v = iter_etag_opaques(r#""only""#);
    assert_eq!(v, vec!["only"]);
    let v = iter_etag_opaques("");
    assert!(v.is_empty());
}

#[test]
fn inm_matches_strong_and_weak_forms_via_weak_comparison() {
    assert!(inm_matches(r#""abc""#, Some(r#""abc""#)));
    assert!(inm_matches(r#"W/"abc""#, Some(r#""abc""#)));
    assert!(inm_matches(r#""abc""#, Some(r#"W/"abc""#)));
    assert!(inm_matches(r#"W/"abc""#, Some(r#"W/"abc""#)));
    // List with one matching tag.
    assert!(inm_matches(r#""x", "abc", "y""#, Some(r#""abc""#)));
    // No match.
    assert!(!inm_matches(r#""def""#, Some(r#""abc""#)));
    // No cached etag → never match.
    assert!(!inm_matches(r#""abc""#, None));
    // Wildcard.
    assert!(inm_matches("*", Some(r#""abc""#)));
    assert!(inm_matches("*", None)); // wildcard always matches in cache-hit path
}

#[test]
fn ims_matches_when_cached_lm_is_no_later_than_request_ims() {
    let lm_str = "Thu, 01 Jan 1970 00:00:00 GMT";
    let ims_str = "Thu, 01 Jan 1970 00:00:01 GMT";
    // Cached LM <= IMS → not modified (304).
    assert!(ims_matches(ims_str, Some(lm_str)));
    // Cached LM > IMS → modified.
    assert!(!ims_matches(lm_str, Some(ims_str)));
    // Equal → not modified.
    assert!(ims_matches(lm_str, Some(lm_str)));
    // Missing cached LM → can't evaluate.
    assert!(!ims_matches(ims_str, None));
    // Unparseable → can't evaluate.
    assert!(!ims_matches("not-a-date", Some(lm_str)));
    assert!(!ims_matches(ims_str, Some("not-a-date")));
}

#[test]
fn before_request_returns_not_modified_when_inm_matches() {
    let stored = exchange(
        Method::Get,
        &[],
        Status::new(200),
        &[
            (Date, "Thu, 01 Jan 1970 00:00:00 GMT"),
            (CacheControl, "max-age=600"),
            (Etag, r#""abcdef""#),
            (ContentLength, "1234"),
            (ContentType, "application/json"),
        ],
    );
    let policy = policy_from(&stored, t0(), private_cache());
    let new = request(Method::Get, &[(IfNoneMatch, r#""abcdef""#)]);

    match before_request(&policy, &new, at(t0(), 100)) {
        BeforeRequest::NotModified(cached) => {
            assert_eq!(cached.status, Status::new(304));
            assert_eq!(cached.headers.get_str(Etag), Some(r#""abcdef""#));
            assert_eq!(cached.headers.get_str(Age), Some("100"));
            assert_eq!(cached.headers.get_str(CacheControl), Some("max-age=600"));
            assert!(!cached.headers.has_header(ContentLength));
            assert!(!cached.headers.has_header(ContentType));
        }
        other => panic!("expected NotModified, got {other:?}"),
    }
}

#[test]
fn before_request_inm_takes_precedence_over_ims() {
    let stored = exchange(
        Method::Get,
        &[],
        Status::new(200),
        &[
            (CacheControl, "max-age=600"),
            (Etag, r#""abcdef""#),
            (LastModified, "Thu, 01 Jan 1970 00:00:00 GMT"),
        ],
    );
    let policy = policy_from(&stored, t0(), private_cache());
    let new = request(
        Method::Get,
        &[
            (IfNoneMatch, r#""different""#),
            (IfModifiedSince, "Thu, 01 Jan 1970 00:00:01 GMT"),
        ],
    );
    assert!(matches!(
        before_request(&policy, &new, at(t0(), 100)),
        BeforeRequest::Fresh(_)
    ));
}

#[test]
fn before_request_falls_back_to_ims_when_inm_absent() {
    let stored = exchange(
        Method::Get,
        &[],
        Status::new(200),
        &[
            (CacheControl, "max-age=600"),
            (LastModified, "Thu, 01 Jan 1970 00:00:00 GMT"),
        ],
    );
    let policy = policy_from(&stored, t0(), private_cache());
    let new = request(
        Method::Get,
        &[(IfModifiedSince, "Thu, 01 Jan 1970 00:00:01 GMT")],
    );
    assert!(matches!(
        before_request(&policy, &new, at(t0(), 100)),
        BeforeRequest::NotModified(_)
    ));
}

#[test]
fn max_stale_reaches_to_its_last_second() {
    let stored = exchange(Method::Get, &[], Status::new(200), &[(CacheControl, "max-age=100")]);
    let policy = policy_from(&stored, t0(), private_cache());
    let new = request(Method::Get, &[(CacheControl, "max-stale=50")]);
    assert!(matches!(
        before_request(&policy, &new, at(t0(), 150)),
        BeforeRequest::Fresh(_)
    ));
    assert!(matches!(
        before_request(&policy, &new, at(t0(), 151)),
        BeforeRequest::Stale { .. }
    ));
}

#[test]
fn no_cache_responses_are_revalidated_whatever_the_request_takes() {
    for lines in [
        vec![(CacheControl, "no-cache, max-age=100")],
        vec![(CacheControl, "max-age=100"), (Vary, "*")],
    ] {
        let stored = exchange(Method::Get, &[], Status::new(200), &lines);
        let policy = policy_from(&stored, t0(), private_cache());
        for taken in ["max-stale", "max-stale=1000"] {
            let new = request(Method::Get, &[(CacheControl, taken)]);
            assert!(matches!(
                before_request(&policy, &new, t0()),
                BeforeRequest::Stale { .. }
            ));
        }
    }
}

#[test]
fn connection_names_headers_on_each_of_its_lines() {
    let mut stored = exchange(
        Method::Get,
        &[],
        Status::new(200),
        &[(CacheControl, "max-age=600"), (Connection, "X-One")],
    );
    stored.response_headers_mut().append(Connection, "close, X-Two");
    for name in ["x-one", "x-two", "x-three"] {
        stored.response_headers_mut().insert(name, "value");
    }
    let policy = policy_from(&stored, t0(), private_cache());
    match before_request(&policy, &request(Method::Get, &[]), t0()) {
        BeforeRequest::Fresh(cached) => {
            assert!(!cached.headers.has_header("x-one"));
            assert!(!cached.headers.has_header("x-two"));
            assert_eq!(cached.headers.get_str("x-three"), Some("value"));
        }
        other => panic!("expected Fresh, got {other:?}"),
    }
}

#[test]
fn selecting_headers_are_compared_whole() {
    let mut stored = exchange(
        Method::Get,
        &[(AcceptEncoding, "gzip")],
        Status::new(200),
        &[(CacheControl, "max-age=600"), (Vary, "Accept-Encoding")],
    );
    stored.request.append(AcceptEncoding, "br");
    let policy = policy_from(&stored, t0(), private_cache());
    let serves = |conn: &Exchange| {
        matches!(before_request(&policy, conn, t0()), BeforeRequest::Fresh(_))
    };
    let mut same = request(Method::Get, &[(AcceptEncoding, "gzip")]);
    same.request.append(AcceptEncoding, "br");
    assert!(serves(&same));
    assert!(serves(&request(Method::Get, &[(AcceptEncoding, "gzip, br")])));
    assert!(!serves(&request(Method::Get, &[(AcceptEncoding, "gzip")])));
    let mut other = request(Method::Get, &[(AcceptEncoding, "gzip")]);
    other.request.append(AcceptEncoding, "zstd");
    assert!(!serves(&other));
    assert!(!serves(&request(Method::Get, &[])));
}

#[test]
fn selecting_headers_that_are_no_text_are_compared_by_their_bytes() {
    let mut stored = exchange(
        Method::Get,
        &[],
        Status::new(200),
        &[(CacheControl, "max-age=600"), (Vary, "X-Raw")],
    );
    stored.request.insert("x-raw", vec![0xffu8]);
    let policy = policy_from(&stored, t0(), private_cache());
    for (value, served) in [(Some(vec![0xffu8]), true), (Some(vec![0xfe]), false), (None, false)] {
        let mut new = request(Method::Get, &[]);
        if let Some(value) = value {
            new.request.insert("x-raw", value);
        }
        assert_eq!(
            matches!(before_request(&policy, &new, t0()), BeforeRequest::Fresh(_)),
            served
        );
    }
}

#[test]
fn if_none_match_is_read_on_all_of_its_lines() {
    let stored = exchange(
        Method::Get,
        &[],
        Status::new(200),
        &[
            (CacheControl, "max-age=600"),
            (Etag, r#""v2""#),
            (LastModified, "Tue, 14 Nov 2023 00:00:00 GMT"),
        ],
    );
    let policy = policy_from(&stored, t0(), private_cache());
    let mut both = request(Method::Get, &[(IfNoneMatch, r#""v1""#)]);
    both.request.append(IfNoneMatch, r#"W/"v2""#);
    assert!(matches!(
        before_request(&policy, &both, t0()),
        BeforeRequest::NotModified(_)
    ));

    // Where there is an `If-None-Match`, `If-Modified-Since` does not count.
    let mut neither = request(
        Method::Get,
        &[
            (IfNoneMatch, r#""v0""#),
            (IfModifiedSince, "Tue, 14 Nov 2023 00:00:00 GMT"),
        ],
    );
    neither.request.append(IfNoneMatch, r#""v1""#);
    assert!(matches!(
        before_request(&policy, &neither, t0()),
        BeforeRequest::Fresh(_)
    ));

    // A revalidation request keeps the tags of each line.
    match before_request(&policy, &both, at(t0(), 700)) {
        BeforeRequest::Stale { request_headers, .. } => assert_eq!(
            request_headers.get_str(IfNoneMatch),
            Some(r#""v1", W/"v2", "v2""#)
        ),
        other => panic!("expected Stale, got {other:?}"),
    }
    let head = exchange(Method::Head, &[], Status::new(200), &[(CacheControl, "max-age=0")]);
    let policy = policy_from(&head, t0(), private_cache());
    match before_request(&policy, &both, t0()) {
        BeforeRequest::Stale { request_headers, .. } => {
            assert_eq!(request_headers.get_str(IfNoneMatch), Some(r#""v1""#));
        }
        other => panic!("expected Stale, got {other:?}"),
    }
}

#[test]
fn pragma_is_read_on_all_of_its_lines() {
    let stored = exchange(Method::Get, &[], Status::new(200), &[(CacheControl, "max-age=600")]);
    let policy = policy_from(&stored, t0(), private_cache());
    let mut new = request(Method::Get, &[(Pragma, "x")]);
    assert!(matches!(before_request(&policy, &new, t0()), BeforeRequest::Fresh(_)));
    new.request.append(Pragma, "no-cache");
    assert!(matches!(
        before_request(&policy, &new, t0()),
        BeforeRequest::Stale { .. }
    ));
}
