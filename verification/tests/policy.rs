//! What a policy captures of an exchange.
use trillium_cache::http::{Method, Status};
use trillium_cache::options::CacheOptions;
use trillium_cache::policy::CachePolicy;
use trillium_cache::structured::looks_like_valid_sf_dictionary;
use trillium_cache::time::Timestamp;
use trillium_http::KnownHeaderName::{AcceptEncoding, AcceptLanguage, Vary};
use trillium_http::{Headers, KnownHeaderName};

struct Exchange {
    method: Method,
    request: Headers,
    status: Status,
    response: Headers,
}

impl Exchange {
    fn response_headers_mut(&mut self) -> &mut Headers {
        &mut self.response
    }
}

fn exchange(
    method: Method,
    request_headers: &[(KnownHeaderName, &str)],
    status: Status,
    response_headers: &[(KnownHeaderName, &str)],
) -> Exchange {
    let mut request = Headers::new();
    for (n, v) in request_headers {
        request.insert(*n, v.to_string());
    }
    let mut response = Headers::new();
    for (n, v) in response_headers {
        response.insert(*n, v.to_string());
    }
    Exchange { method, request, status, response }
}

fn private_cache() -> CacheOptions {
    CacheOptions::default()
}

fn t0() -> Timestamp {
    Timestamp::new(1_700_000_000, 0)
}

fn policy_from(conn: &Exchange, response_time: Timestamp, options: CacheOptions) -> CachePolicy {
    CachePolicy::new(
        conn.method,
        &conn.request,
        conn.status,
        conn.response.clone(),
        response_time,
        options,
    )
}

/// What was captured, with the values as text.
fn snapshot(policy: &CachePolicy) -> Vec<(String, Option<String>)> {
    policy
        .vary_snapshot()
        .iter()
        .map(|(name, value)| {
            let text = value.as_ref().map(|bytes| String::from_utf8(bytes.clone()).unwrap());
            (name.clone(), text)
        })
        .collect()
}

#[test]
fn vary_snapshot_handles_multiple_header_lines() {
    let mut conn = exchange(
        Method::Get,
        &[(AcceptEncoding, "gzip"), (AcceptLanguage, "en-US")],
        Status::new(200),
        &[(Vary, "Accept-Encoding")],
    );
    conn.response_headers_mut().append(Vary, "Accept-Language");

    let policy = policy_from(&conn, t0(), private_cache());
    assert_eq!(
        snapshot(&policy),
        vec![
            ("accept-encoding".to_string(), Some("gzip".to_string())),
            ("accept-language".to_string(), Some("en-US".to_string())),
        ]
    );
}

#[test]
fn vary_snapshot_captures_star_from_second_line() {
    let mut conn = exchange(
        Method::Get,
        &[],
        Status::new(200),
        &[(Vary, "")], // empty first line
    );
    conn.response_headers_mut().append(Vary, "*");

    let policy = policy_from(&conn, t0(), private_cache());
    // The `*` survives flattening so vary_matches will return false.
    assert!(policy.vary_snapshot().iter().any(|(name, _)| name == "*"));
}

#[test]
fn vary_snapshot_captures_named_request_headers() {
    let conn = exchange(
        Method::Get,
        &[(AcceptEncoding, "gzip"), (AcceptLanguage, "en-US")],
        Status::new(200),
        &[(Vary, "Accept-Encoding, Accept-Language")],
    );
    let policy = policy_from(&conn, t0(), private_cache());
    assert_eq!(
        snapshot(&policy),
        vec![
            ("accept-encoding".to_string(), Some("gzip".to_string())),
            ("accept-language".to_string(), Some("en-US".to_string())),
        ]
    );
}

#[test]
fn sf_dictionary_validator() {
    assert!(looks_like_valid_sf_dictionary("max-age=600"));
    assert!(looks_like_valid_sf_dictionary("no-store"));
    assert!(looks_like_valid_sf_dictionary("max-age=600, no-store"));
    // Wrong-type values are caught downstream by CC parsing, not here —
    // we only validate keys at this layer.
    assert!(looks_like_valid_sf_dictionary(r#"max-age="600""#));

    // Mixed-case keys are accepted — `CacheControlHeader::parse`
    // lowercases before parsing, so this matches the actual parser's
    // case-insensitive behavior.
    assert!(looks_like_valid_sf_dictionary("MaX-aGe=3600"));

    // Invalid: garbage-character keys.
    assert!(!looks_like_valid_sf_dictionary("max-age=10000, &&&&&"));
    assert!(!looks_like_valid_sf_dictionary("&&&&&"));
    // Invalid: empty.
    assert!(!looks_like_valid_sf_dictionary(""));
    assert!(!looks_like_valid_sf_dictionary("   "));
    // Invalid: trailing/middle empty members from stray commas.
    assert!(!looks_like_valid_sf_dictionary("max-age=600,"));
}

#[test]
fn vary_snapshot_records_absent_request_header_as_none() {
    let conn = exchange(Method::Get, &[], Status::new(200), &[(Vary, "Accept-Encoding")]);
    let policy = policy_from(&conn, t0(), private_cache());
    assert_eq!(
        snapshot(&policy),
        vec![("accept-encoding".to_string(), None)]
    );
}

#[test]
fn all_lines_of_a_selecting_header_are_captured() {
    let mut conn = exchange(
        Method::Get,
        &[(AcceptLanguage, "en")],
        Status::new(200),
        &[(Vary, "Accept-Language, Accept-Encoding, X-Raw")],
    );
    conn.request.append(AcceptLanguage, "de;q=0.5");
    conn.request.insert(AcceptEncoding, "");
    conn.request.insert("x-raw", vec![0xffu8, b'a']);
    let policy = policy_from(&conn, t0(), private_cache());
    assert_eq!(
        *policy.vary_snapshot(),
        vec![
            ("accept-language".to_string(), Some(b"en, de;q=0.5".to_vec())),
            ("accept-encoding".to_string(), Some(Vec::new())),
            ("x-raw".to_string(), Some(vec![0xff, b'a'])),
        ]
    );
}
