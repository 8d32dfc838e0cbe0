//! The laws on concrete values.
use trillium_cache::directives::{directives, effective_response_cache_control};
use trillium_cache::engine::{
    handle_miss, handle_revalidation, plan_request, plan_response, start, Reply, RequestPlan,
    RequestState, ResponsePlan, Start,
};
use trillium_cache::http::{Method, Status};
use trillium_cache::options::CacheOptions;
use trillium_cache::storability::{is_cacheable_by_default, response_has_explicit_expiration};
use trillium_cache::storage::keys_to_invalidate;
use trillium_cache::time::{Span, Timestamp};
use trillium_cache::validation::{
    copy_without_hop_by_hop_headers, is_excluded_from_revalidation_update,
    merge_revalidation_headers, strong_tag_list, AfterResponse, BeforeRequest,
};
use trillium_cache::{CacheKey, CachePolicy};
use trillium_http::Headers;

type Lines = [(&'static str, &'static str)];

fn headers(lines: &Lines) -> Headers {
    let mut out = Headers::new();
    for (name, value) in lines {
        out.append(*name, *value);
    }
    out
}

fn at(secs: i64) -> Timestamp {
    Timestamp::new(1_700_000_000 + secs, 0)
}

fn private_cache() -> CacheOptions {
    CacheOptions::default()
}

fn shared_cache() -> CacheOptions {
    CacheOptions::default().with_shared(true)
}

fn captured(request: &Lines, response: &Lines, options: CacheOptions) -> CachePolicy {
    CachePolicy::new(
        Method::Get,
        &headers(request),
        Status::new(200),
        headers(response),
        at(0),
        options,
    )
}

fn stored(response: &Lines) -> CachePolicy {
    captured(&[], response, private_cache())
}

fn storable(method: Method, request: &Lines, status: u16, response: &Lines, shared: bool) -> bool {
    CachePolicy::is_storable(
        method,
        &headers(request),
        Status::new(status),
        &headers(response),
        &CacheOptions::default().with_shared(shared),
    )
}

fn served(policy: &CachePolicy, request: &Lines, now: Timestamp) -> bool {
    !matches!(policy.before_request(&headers(request), now), BeforeRequest::Stale { .. })
}

fn reply<'a>(request: &'a Headers, status: Option<u16>, response: &'a Headers) -> Reply<'a> {
    Reply {
        method: Method::Get,
        request_headers: request,
        failed: status.is_none(),
        status: status.map(Status::new),
        response_headers: response,
    }
}

#[test]
fn age_and_time_to_live() {
    let policy = stored(&[("cache-control", "max-age=100"), ("age", "30")]);
    assert_eq!(policy.max_age(), Span::from_secs(100));
    for secs in [0, 1, 69] {
        assert_eq!(policy.age(at(secs)), Span::from_secs(30 + secs as u64));
        assert_eq!(policy.time_to_live(at(secs)), Span::from_secs(70 - secs as u64));
        assert!(!policy.is_stale(at(secs)));
    }
    for secs in [70, 71, 1_000_000] {
        assert!(policy.is_stale(at(secs)));
        assert_eq!(policy.time_to_live(at(secs)), Span::zero());
    }
    // A clock that went back does not make the response younger than it came.
    assert_eq!(policy.age(at(-5)), Span::from_secs(30));
}

#[test]
fn ages_do_not_overflow() {
    let policy = stored(&[("cache-control", "max-age=100"), ("age", "18446744073709551615")]);
    assert_eq!(policy.age(at(1)), Span { nanos: (u64::MAX as u128 + 1) * 1_000_000_000 });
    assert!(policy.is_stale(at(1)));
}

#[test]
fn always_stale() {
    let lines: [(&Lines, bool); 4] = [
        (&[("cache-control", "no-cache, max-age=100")], false),
        (&[("cache-control", "max-age=100"), ("vary", "*")], false),
        (&[("cache-control", "max-age=100, proxy-revalidate")], true),
        (&[("cache-control", "max-age=100"), ("set-cookie", "a=b")], true),
    ];
    for (response, only_shared) in lines {
        assert!(captured(&[], response, shared_cache()).is_stale(at(0)));
        assert_eq!(captured(&[], response, private_cache()).is_stale(at(0)), !only_shared);
    }
}

#[test]
fn cookies_bear_on_freshness_alone() {
    let response: &Lines = &[
        ("cache-control", "max-age=100, stale-while-revalidate=50"),
        ("set-cookie", "a=b"),
    ];
    let policy = captured(&[], response, shared_cache());
    assert!(policy.is_stale(at(0)));
    assert!(policy.is_swr_eligible(at(49)));
    assert!(!policy.is_swr_eligible(at(50)));
    assert!(!served(&policy, &[], at(0)));
    assert!(served(&policy, &[("cache-control", "max-stale=20")], at(20)));
    assert!(!served(&policy, &[("cache-control", "max-stale=20")], at(21)));
    assert!(served(&policy, &[("cache-control", "max-stale")], at(1000)));
}

#[test]
fn every_use_is_revalidated() {
    let lines: [&Lines; 2] = [
        &[("cache-control", "no-cache, stale-while-revalidate=50")],
        &[("cache-control", "max-age=100, proxy-revalidate, stale-while-revalidate=50")],
    ];
    for response in lines {
        let policy = captured(&[], response, shared_cache());
        assert!(policy.is_always_revalidated());
        assert!(!policy.is_swr_eligible(at(10)));
        assert!(!served(&policy, &[("cache-control", "max-stale")], at(10)));
    }
    let elsewhere = captured(&[], lines[1], private_cache());
    assert!(!elsewhere.is_always_revalidated());
    assert!(served(&elsewhere, &[], at(10)));
}

#[test]
fn lifetimes_by_kind_of_cache() {
    let response: &Lines = &[("cache-control", "max-age=100, s-maxage=7")];
    assert_eq!(captured(&[], response, private_cache()).max_age(), Span::from_secs(100));
    assert_eq!(captured(&[], response, shared_cache()).max_age(), Span::from_secs(7));
    let dated: &Lines = &[
        ("cache-control", "max-age=100"),
        ("date", "Tue, 14 Nov 2023 22:13:20 GMT"),
        ("expires", "Tue, 14 Nov 2023 22:13:21 GMT"),
        ("last-modified", "Tue, 14 Nov 2000 22:13:20 GMT"),
    ];
    assert_eq!(stored(dated).max_age(), Span::from_secs(100));
    assert_eq!(stored(&dated[1..]).max_age(), Span::from_secs(1));
    // There are 725,760,000 seconds between, and the default ratio is a little over a tenth.
    assert_eq!(stored(&[dated[1], dated[3]]).max_age(), Span::from_secs(72_576_001));
    assert_eq!(stored(dated).raw_server_date(), at(0));
    assert_eq!(stored(&[]).raw_server_date(), at(0));
    assert_eq!(
        stored(&[("cache-control", "immutable")]).max_age(),
        CacheOptions::default().immutable_min_time_to_live()
    );
}

#[test]
fn stale_windows() {
    let policy =
        stored(&[("cache-control", "max-age=10, stale-while-revalidate=5, stale-if-error=7")]);
    assert_eq!(policy.stale_while_revalidate_window(), Span::from_secs(5));
    assert_eq!(policy.stale_if_error_window(), Span::from_secs(7));
    let open: Vec<(bool, bool)> = [9, 10, 14, 15, 16, 17, 18, 1000]
        .iter()
        .map(|secs| (policy.is_swr_eligible(at(*secs)), policy.is_sie_eligible(at(*secs))))
        .collect();
    for pair in open.windows(2).skip(1) {
        assert!(pair[0].0 || !pair[1].0, "a closed window stays closed");
        assert!(pair[0].1 || !pair[1].1, "a closed window stays closed");
    }
    assert_eq!(open[0], (false, false));
    assert_eq!(open[2], (true, true));
    assert_eq!(open[7], (false, false));
    assert!(!policy.is_eligible_for_stale_serving(at(12), Span::zero()));
    let strict =
        stored(&[("cache-control", "max-age=10, must-revalidate, stale-while-revalidate=5")]);
    assert!(!strict.is_swr_eligible(at(12)));
}

#[test]
fn what_may_be_stored() {
    let fresh: &Lines = &[("cache-control", "max-age=60")];
    assert!(storable(Method::Get, &[], 200, fresh, true));
    assert!(!storable(Method::Get, &[("cache-control", "no-store")], 200, fresh, false));
    assert!(!storable(Method::Get, &[], 200, &[("cache-control", "max-age=60, no-store")], false));
    assert!(!storable(Method::Get, &[], 200, &[("cache-control", "max-age=60, private")], true));
    assert!(storable(Method::Get, &[], 200, &[("cache-control", "max-age=60, private")], false));
    let authorized: &Lines = &[("authorization", "Bearer x")];
    assert!(!storable(Method::Get, authorized, 200, fresh, true));
    assert!(storable(Method::Get, authorized, 200, fresh, false));
    for opt_in in ["public", "must-revalidate", "s-maxage=3"] {
        assert!(storable(Method::Get, authorized, 200, &[("cache-control", opt_in)], true));
    }
    for method in [Method::Put, Method::Delete, Method::Options, Method::Trace] {
        assert!(!storable(method, &[], 200, fresh, false));
    }
    assert!(storable(Method::Head, &[], 200, &[], false));
    assert!(storable(Method::Post, &[], 200, fresh, false));
    for code in 200..600u16 {
        let by_default = is_cacheable_by_default(Status::new(code));
        assert_eq!(storable(Method::Get, &[], code, &[], false), by_default, "{code}");
    }
    assert!(!storable(Method::Get, &[], 500, &[], false));
    assert!(storable(Method::Get, &[], 500, fresh, false));
    let response = headers(fresh);
    let governing = directives(&response, "cache-control");
    assert!(response_has_explicit_expiration(
        &governing,
        &response,
        &private_cache(),
        false
    ));
    assert!(!response_has_explicit_expiration(
        &None,
        &Headers::new(),
        &private_cache(),
        false
    ));
}

#[test]
fn the_targeted_field_speaks_for_shared_caches() {
    let both = headers(&[("cdn-cache-control", "max-age=600"), ("cache-control", "no-store")]);
    let (governing, in_effect) = effective_response_cache_control(&both, &shared_cache());
    assert_eq!((governing.unwrap().max_age, in_effect), (Some(600), true));
    let (governing, in_effect) = effective_response_cache_control(&both, &private_cache());
    assert!(governing.unwrap().no_store && !in_effect);
    for ignored in ["", "&&&&&", "max-age=1, &&&&&"] {
        let mut broken = headers(&[("cache-control", "no-store")]);
        broken.insert("cdn-cache-control", ignored);
        let (governing, in_effect) = effective_response_cache_control(&broken, &shared_cache());
        assert!(governing.unwrap().no_store && !in_effect, "{ignored:?}");
    }
}

#[test]
fn directives_are_read() {
    let all = headers(&[(
        "cache-control",
        "No-Cache, no-store, private, public, immutable, must-revalidate, proxy-revalidate, \
         max-age=1, s-maxage=2, min-fresh=3, max-stale=4, stale-while-revalidate=5, \
         stale-if-error=6, unknown=7",
    )]);
    let read = directives(&all, "Cache-Control").unwrap();
    assert!(read.no_cache && read.no_store && read.private && read.public && read.immutable);
    assert!(read.must_revalidate && read.proxy_revalidate && !read.empty);
    assert_eq!((read.max_age, read.s_maxage, read.min_fresh), (Some(1), Some(2), Some(3)));
    assert_eq!((read.stale_while_revalidate, read.stale_if_error), (Some(5), Some(6)));
    assert_eq!(read.max_stale, Some(Some(4)));
    assert!(directives(&Headers::new(), "cache-control").is_none());
    // The first number counts, and what is no number does not.
    let odd = headers(&[("cache-control", "max-age=x, max-age=7, max-age=8, no-store=1, max-stale")]);
    let read = directives(&odd, "cache-control").unwrap();
    assert_eq!((read.max_age, read.max_stale), (Some(7), Some(None)));
    assert!(!read.no_store && !read.empty);
    let spaced = headers(&[("cache-control", " , max-age =7, s-maxage= 8, min-fresh=+9 ,")]);
    let read = directives(&spaced, "cache-control").unwrap();
    assert_eq!((read.max_age, read.s_maxage, read.min_fresh), (None, None, Some(9)));
    let nothing = directives(&headers(&[("cache-control", " , ")]), "cache-control").unwrap();
    assert!(nothing.empty);
    let pragma = stored(&[("pragma", "no-cache")]);
    let said = directives(&headers(&[("cache-control", "no-cache")]), "cache-control");
    assert_eq!(pragma.response_cache_control(), said);
}

#[test]
fn selection_goes_by_the_listed_headers() {
    let response: &Lines = &[("cache-control", "max-age=60"), ("vary", "Accept"), ("vary", "X")];
    let policy = captured(&[("accept", "a"), ("x", "1")], response, private_cache());
    assert!(policy.vary_matches(&headers(&[("Accept", "a"), ("X", "1"), ("other", "y")])));
    assert!(!policy.vary_matches(&headers(&[("accept", "b"), ("x", "1")])));
    assert!(!policy.vary_matches(&headers(&[("accept", "a")])));
    let same = captured(&[("accept", "a"), ("x", "1"), ("z", "z")], response, private_cache());
    assert!(policy.same_variant_as(&same));
    let other = captured(&[("accept", "a"), ("x", "2")], response, private_cache());
    assert!(!policy.same_variant_as(&other));
    let star = captured(&[("accept", "a")], &[("vary", "*")], private_cache());
    assert!(!star.vary_matches(&headers(&[("accept", "a")])));
}

#[test]
fn requests_set_limits() {
    let policy = stored(&[("cache-control", "max-age=100")]);
    assert!(served(&policy, &[], at(50)));
    assert!(!served(&policy, &[("cache-control", "no-cache")], at(50)));
    assert!(!served(&policy, &[("pragma", "no-cache")], at(50)));
    assert!(!served(&policy, &[("cache-control", "max-age=49")], at(50)));
    assert!(served(&policy, &[("cache-control", "max-age=50")], at(50)));
    assert!(served(&policy, &[("cache-control", "min-fresh=50")], at(50)));
    assert!(!served(&policy, &[("cache-control", "min-fresh=51")], at(50)));
    assert!(!served(&policy, &[], at(150)));
    assert!(served(&policy, &[("cache-control", "max-stale=50")], at(149)));
    let strict = stored(&[("cache-control", "max-age=100, must-revalidate")]);
    assert!(!served(&strict, &[("cache-control", "max-stale=500")], at(150)));
}

#[test]
fn served_heads() {
    let policy = stored(&[
        ("cache-control", "max-age=100"),
        ("connection", "x-hop, keep-alive"),
        ("x-hop", "1"),
        ("transfer-encoding", "chunked"),
        ("content-type", "text/plain"),
        ("etag", "\"v\""),
        ("age", "3"),
    ]);
    let head = policy.cached_response(at(4));
    assert_eq!(head.status, Status::new(200));
    assert_eq!(head.headers.get_str("age"), Some("7"));
    assert_eq!(head.headers.get_str("content-type"), Some("text/plain"));
    for gone in ["connection", "x-hop", "transfer-encoding"] {
        assert!(!head.headers.has_header(gone), "{gone}");
    }
    let short = policy.cached_response_304(at(4));
    assert_eq!(short.status, Status::new(304));
    assert_eq!(short.headers.get_str("etag"), Some("\"v\""));
    assert_eq!(short.headers.get_str("age"), Some("7"));
    assert!(!short.headers.has_header("content-type"));
    assert!(policy.inbound_conditional_matches(&headers(&[("if-none-match", "W/\"v\"")])));
}

#[test]
fn end_to_end_headers_keep_every_line() {
    let mut all = headers(&[("x-two", "1"), ("x-two", "2"), ("te", "trailers")]);
    all.insert("x-bytes", b"\xff\xfe".to_vec());
    let copy = copy_without_hop_by_hop_headers(&all);
    assert_eq!(copy.get_values("x-two").map(|values| values.len()), Some(2));
    let bytes = copy.get_values("x-bytes").and_then(|values| values.one()).unwrap();
    assert_eq!(bytes.as_ref(), b"\xff\xfe");
    assert!(!copy.has_header("te"));
    assert_eq!(copy.len(), 2);
}

#[test]
fn updates() {
    let old = headers(&[("content-length", "5"), ("etag", "\"a\""), ("x", "1"), ("keep", "k")]);
    let update = headers(&[("Content-Length", "0"), ("ETag", "\"b\""), ("X", "2"), ("new", "n")]);
    let merged = merge_revalidation_headers(&old, &update);
    assert_eq!(merged.get_str("content-length"), Some("5"));
    assert_eq!(merged.get_str("etag"), Some("\"b\""));
    assert_eq!(merged.get_str("x"), Some("2"));
    assert_eq!(merged.get_str("keep"), Some("k"));
    assert_eq!(merged.get_str("new"), Some("n"));
    assert_eq!(merge_revalidation_headers(&merged, &update), merged);
    assert!(is_excluded_from_revalidation_update("Content-Encoding"));
    assert!(!is_excluded_from_revalidation_update("etag"));
}

#[test]
fn refreshing_starts_over() {
    let policy = captured(
        &[("accept", "a")],
        &[("cache-control", "max-age=10"), ("vary", "Accept"), ("age", "4")],
        private_cache(),
    );
    let request = headers(&[("accept", "a")]);
    let update = headers(&[("cache-control", "max-age=20"), ("age", "0")]);
    let answer = policy.after_response(&request, Status::new(304), &update, at(100));
    let AfterResponse::NotModified(fresh, head) = answer else {
        panic!("nothing has changed");
    };
    assert_eq!(fresh.age(at(100)), Span::zero());
    assert_eq!(fresh.max_age(), Span::from_secs(20));
    assert_eq!(fresh.response_time(), at(100));
    assert!(fresh.same_variant_as(&policy));
    assert_eq!(head.status, Status::new(200));
    let modified = policy.after_response(&request, Status::new(200), &update, at(100));
    assert!(matches!(modified, AfterResponse::Modified));
}

#[test]
fn revalidation_requests() {
    let policy = stored(&[
        ("etag", "\"v\""),
        ("last-modified", "Tue, 14 Nov 2000 22:13:20 GMT"),
    ]);
    let sent = policy.revalidation_request_headers(&headers(&[
        ("accept", "a"),
        ("if-none-match", "\"x\""),
        ("if-range", "\"v\""),
        ("connection", "close"),
    ]));
    assert_eq!(sent.get_str("accept"), Some("a"));
    assert_eq!(sent.get_str("if-none-match"), Some("\"x\", \"v\""));
    assert!(!sent.has_header("if-range"));
    assert!(!sent.has_header("connection"));
    let bare = policy.revalidation_request_headers(&Headers::new());
    assert_eq!(bare.get_str("if-none-match"), Some("\"v\""));
    assert_eq!(bare.get_str("if-modified-since"), Some("Tue, 14 Nov 2000 22:13:20 GMT"));
    assert_eq!(strong_tag_list("\"a\", W/\"b\" ,\"c\""), "\"a\", \"c\"");
    assert_eq!(strong_tag_list("W/\"b\""), "");
}

#[test]
fn requests_begin_by_their_method() {
    let url = "http://example.com/a";
    match start(Method::Head, url) {
        Start::LookUp { key } => assert_eq!(key, CacheKey::new(Method::Head, url.to_string())),
        Start::Unsafe => panic!("HEAD is safe"),
    }
    for method in [Method::Post, Method::Put, Method::Patch, Method::Delete] {
        assert!(matches!(start(method, url), Start::Unsafe));
    }
}

#[test]
fn the_first_selected_response_decides() {
    let response: &Lines = &[("cache-control", "max-age=60"), ("vary", "Accept")];
    let a = captured(&[("accept", "a")], response, private_cache());
    let b = captured(&[("accept", "b")], response, private_cache());
    let swr: &Lines = &[("cache-control", "stale-while-revalidate=9"), ("vary", "Accept")];
    let c = captured(&[("accept", "c")], swr, private_cache());
    let policies = vec![&a, &b, &c];
    let plan = |accept: &'static str, background| {
        plan_request(&policies, &headers(&[("accept", accept)]), at(1), background)
    };
    assert!(matches!(plan("b", true), RequestPlan::Serve { index: 1, .. }));
    assert!(matches!(plan("c", true), RequestPlan::ServeStale { index: 2, .. }));
    assert!(matches!(plan("c", false), RequestPlan::Revalidate { index: 2, .. }));
    assert!(matches!(plan("d", true), RequestPlan::Miss));
    assert!(matches!(plan_request(&vec![], &Headers::new(), at(1), true), RequestPlan::Miss));
}

#[test]
fn failures_are_covered_within_the_window_only() {
    let policy = stored(&[("cache-control", "max-age=10, stale-if-error=5")]);
    let empty = Headers::new();
    let state = RequestState::Revalidation(&policy);
    let plan = |status, secs| {
        plan_response(&state, &reply(&empty, status, &empty), at(secs), private_cache(), 100)
    };
    assert!(matches!(plan(Some(500), 12), ResponsePlan::ServeStale { .. }));
    assert!(matches!(plan(None, 12), ResponsePlan::ServeStale { .. }));
    assert!(!matches!(plan(Some(500), 20), ResponsePlan::ServeStale { .. }));
    assert!(matches!(plan(None, 20), ResponsePlan::PassThrough));
    assert!(!matches!(plan(Some(404), 12), ResponsePlan::ServeStale { .. }));
    match plan(Some(503), 12) {
        ResponsePlan::ServeStale { head } => {
            assert_eq!(head.status, Status::new(200));
            assert_eq!(head.headers.get_str("age"), Some("12"));
        }
        other => panic!("{other:?}"),
    }
}

#[test]
fn new_responses_are_stored_under_their_exchange() {
    let request = headers(&[("accept", "a")]);
    let response = headers(&[("cache-control", "max-age=60"), ("vary", "Accept")]);
    let reply = reply(&request, Some(200), &response);
    match handle_miss(&reply, Status::new(200), at(0), shared_cache(), 100) {
        ResponsePlan::Store { policy } => {
            assert!(policy.vary_matches(&request));
            assert_eq!(policy.response_time(), at(0));
            assert_eq!(policy.options(), shared_cache());
        }
        other => panic!("{other:?}"),
    }
    let old = stored(&[("etag", "\"v\"")]);
    let kept = handle_revalidation(&old, &reply, Status::new(304), at(9), private_cache(), 100);
    assert!(matches!(kept, ResponsePlan::Refresh { .. }));
    let replaced = handle_revalidation(&old, &reply, Status::new(200), at(9), private_cache(), 100);
    assert!(matches!(replaced, ResponsePlan::Store { .. }));
}

#[test]
fn invalidation_by_host() {
    let text = |location: &'static str| -> Vec<String> {
        let response = headers(&[("location", location)]);
        keys_to_invalidate("http://example.com/a/b", &response)
            .iter()
            .map(|key| key.to_text())
            .collect()
    };
    let own = ["GET http://example.com/a/b", "HEAD http://example.com/a/b"];
    let with = |target: &str| -> Vec<String> {
        let mut all: Vec<String> = own.iter().map(|text| text.to_string()).collect();
        all.push(format!("GET {target}"));
        all.push(format!("HEAD {target}"));
        all
    };
    assert_eq!(text("c"), with("http://example.com/a/c"));
    assert_eq!(text("/c"), with("http://example.com/c"));
    assert_eq!(text("https://EXAMPLE.com:8443/c"), with("https://example.com:8443/c"));
    assert_eq!(text("http://other.example/c"), own);
    assert_eq!(text("//other.example/c"), own);
    assert_eq!(text("mailto:someone@example.com"), own);
    assert_eq!(text("http://[bad"), own);
    let two = headers(&[("location", "/x"), ("content-location", "/y")]);
    assert_eq!(keys_to_invalidate("http://example.com/", &two).len(), 6);
}
