//! Texts, numbers, methods, statuses, times, ratios, dates and structured fields.
use std::time::{Duration, UNIX_EPOCH};
use trillium_cache::dates::parse_http_date;
use trillium_cache::etag::{etag_opaque, inm_matches, iter_etag_opaques};
use trillium_cache::freshness::parse_age_value;
use trillium_cache::http::{Method, Status};
use trillium_cache::options::CacheOptions;
use trillium_cache::ratio::Ratio;
use trillium_cache::structured::{is_valid_sf_key, looks_like_valid_sf_dictionary};
use trillium_cache::text::{
    chars_of, contains_str, find_char, list_members, lowered, parse_number, same_text, split_str,
    to_decimal, trimmed, trimmed_end, trimmed_start, white_space,
};
use trillium_cache::time::{Span, Timestamp};

#[test]
fn white_space_is_that_of_unicode() {
    for code in 0..=0x10ffffu32 {
        if let Some(c) = char::from_u32(code) {
            assert_eq!(white_space(c), c.is_whitespace(), "{code:x}");
        }
    }
}

#[test]
fn texts_are_trimmed_and_split() {
    for text in ["", " ", "a", " a ", "\t a b \u{a0}", "\u{2003}x", "é ", ",", "a,,b", ", a ,"] {
        assert_eq!(trimmed(text), text.trim());
        assert_eq!(trimmed_start(text), text.trim_start());
        assert_eq!(trimmed_end(text), text.trim_end());
        assert_eq!(split_str(text, ','), text.split(',').collect::<Vec<_>>());
        let members: Vec<&str> =
            text.split(',').map(str::trim).filter(|member| !member.is_empty()).collect();
        assert_eq!(list_members(text), members);
        assert_eq!(chars_of(text), text.chars().collect::<Vec<_>>());
        assert_eq!(lowered(text), text.to_ascii_lowercase());
    }
    assert_eq!(lowered("Accept-ÉNCODING"), "accept-Éncoding");
    assert_eq!(find_char(&chars_of("a=b=c"), '='), 1);
    assert_eq!(find_char(&chars_of("abc"), '='), 3);
    assert!(same_text("é", "é"));
    assert!(!same_text("a", "A"));
    assert!(!same_text("a", "ab"));
    assert!(contains_str("x no-cache, y", "no-cache"));
    assert!(contains_str("anything", ""));
    assert!(!contains_str("no-cach", "no-cache"));
    assert!(!contains_str("No-Cache", "no-cache"));
}

#[test]
fn numbers_are_read_as_std_reads_them() {
    for text in [
        "", "0", "7", "007", "+7", "-7", "+", "++7", " 7", "7 ", "1_000", "0x10", "1.5",
        "18446744073709551615", "18446744073709551616", "99999999999999999999999", "٣",
        "+18446744073709551615", "000000000000000000000000000000001",
    ] {
        assert_eq!(parse_number(text), text.parse::<u64>().ok(), "{text:?}");
    }
    for number in [0u128, 1, 9, 10, 205, u64::MAX as u128, u128::MAX] {
        assert_eq!(to_decimal(number), number.to_string());
    }
}

#[test]
fn ages_are_read_from_the_first_member() {
    assert_eq!(parse_age_value("60"), Some(60));
    assert_eq!(parse_age_value(" 60 "), Some(60));
    assert_eq!(parse_age_value("60, 70"), Some(60));
    assert_eq!(parse_age_value("sixty"), None);
    assert_eq!(parse_age_value("-1"), None);
    assert_eq!(parse_age_value(""), None);
}

fn methods() -> [(Method, trillium_http::Method); 40] {
    [
        (Method::Acl, trillium_http::Method::Acl),
        (Method::BaselineControl, trillium_http::Method::BaselineControl),
        (Method::Bind, trillium_http::Method::Bind),
        (Method::Checkin, trillium_http::Method::Checkin),
        (Method::Checkout, trillium_http::Method::Checkout),
        (Method::Connect, trillium_http::Method::Connect),
        (Method::Copy, trillium_http::Method::Copy),
        (Method::Delete, trillium_http::Method::Delete),
        (Method::Get, trillium_http::Method::Get),
        (Method::Head, trillium_http::Method::Head),
        (Method::Label, trillium_http::Method::Label),
        (Method::Link, trillium_http::Method::Link),
        (Method::Lock, trillium_http::Method::Lock),
        (Method::Merge, trillium_http::Method::Merge),
        (Method::MkActivity, trillium_http::Method::MkActivity),
        (Method::MkCalendar, trillium_http::Method::MkCalendar),
        (Method::MkCol, trillium_http::Method::MkCol),
        (Method::MkRedirectRef, trillium_http::Method::MkRedirectRef),
        (Method::MkWorkspace, trillium_http::Method::MkWorkspace),
        (Method::Move, trillium_http::Method::Move),
        (Method::Options, trillium_http::Method::Options),
        (Method::OrderPatch, trillium_http::Method::OrderPatch),
        (Method::Patch, trillium_http::Method::Patch),
        (Method::Post, trillium_http::Method::Post),
        (Method::Pri, trillium_http::Method::Pri),
        (Method::PropFind, trillium_http::Method::PropFind),
        (Method::PropPatch, trillium_http::Method::PropPatch),
        (Method::Put, trillium_http::Method::Put),
        (Method::Query, trillium_http::Method::Query),
        (Method::Rebind, trillium_http::Method::Rebind),
        (Method::Report, trillium_http::Method::Report),
        (Method::Search, trillium_http::Method::Search),
        (Method::Trace, trillium_http::Method::Trace),
        (Method::Unbind, trillium_http::Method::Unbind),
        (Method::Uncheckout, trillium_http::Method::Uncheckout),
        (Method::Unlink, trillium_http::Method::Unlink),
        (Method::Unlock, trillium_http::Method::Unlock),
        (Method::Update, trillium_http::Method::Update),
        (Method::UpdateRedirectRef, trillium_http::Method::UpdateRedirectRef),
        (Method::VersionControl, trillium_http::Method::VersionControl),
    ]
}

#[test]
fn methods_are_those_of_the_server() {
    for (method, outer) in methods() {
        assert_eq!(method.as_str(), outer.as_str());
        assert_eq!(method.is_safe(), outer.is_safe(), "{outer}");
    }
}

#[test]
fn statuses_are_classed_as_the_server_classes_them() {
    for code in 100..600u16 {
        if let Ok(outer) = trillium_http::Status::try_from(code) {
            let status = Status::new(code);
            assert_eq!(status.is_success(), outer.is_success());
            assert_eq!(status.is_redirection(), outer.is_redirection());
            assert_eq!(status.is_server_error(), outer.is_server_error());
        }
    }
    assert!(!Status::new(600).is_server_error());
}

#[test]
fn times_have_spans_between_them() {
    let early = Timestamp::new(-1, 999_999_999);
    let late = Timestamp::new(1, 1);
    assert_eq!(late.since(&early), Some(Span { nanos: 1_000_000_002 }));
    assert_eq!(early.since(&late), None);
    assert_eq!(late.since(&late), Some(Span::zero()));
    assert!(early.at_or_before(&late));
    assert!(late.at_or_before(&late));
    assert!(!late.at_or_before(&early));
    let span = Span { nanos: 3_000_000_007 };
    assert_eq!(span.as_secs(), 3);
    assert_eq!(span.subsec_nanos(), 7);
    assert_eq!(Span::from_secs(3).or_longer(span), span);
    assert_eq!(span.or_longer(Span::from_secs(3)), span);
    assert_eq!(span.less(Span::from_secs(3)), Span { nanos: 7 });
    assert_eq!(Span::from_secs(3).less(span), Span::zero());
    assert!(Span::zero().is_zero());
    assert!(!span.is_zero());
    let ends = Timestamp::new(i64::MAX, 0).since(&Timestamp::new(i64::MIN, 0));
    assert_eq!(ends, Some(Span { nanos: u64::MAX as u128 * 1_000_000_000 }));
}

fn scaled(ratio: f32, secs: u128) -> u64 {
    (secs as f64 * ratio as f64) as u64
}

#[test]
fn ratios_multiply_as_doubles_do() {
    let mut ratios = vec![
        0.0f32, -0.0, 0.1, 0.5, 1.0, 1.5, 2.0, -0.1, 1e-45, 1e-38, f32::MIN_POSITIVE, f32::EPSILON,
        f32::MAX, f32::MIN, f32::INFINITY, f32::NEG_INFINITY, f32::NAN, 3.4028e-5, 1e19, 16777217.0,
        0.3333333, 7.1e17,
    ];
    let mut numbers: Vec<u128> = vec![
        0, 1, 2, 3, 9, 10, 99, 86_400, 864_000, 31_536_000, 1_700_000_000, (1 << 53) - 1, 1 << 53,
        (1 << 53) + 1, (1 << 53) + 2, (1 << 53) + 3, (1 << 54) + 2, (1 << 54) + 6, (1 << 63) + 1025,
        u64::MAX as u128, (1 << 64) + 4_096, (1 << 65) - 1,
    ];
    // A few hundred more of each, spread over their range.
    let mut state: u64 = 0x9e37_79b9_7f4a_7c15;
    for _ in 0..300 {
        state = state.wrapping_mul(6364136223846793005).wrapping_add(1442695040888963407);
        ratios.push(f32::from_bits((state >> 32) as u32));
        numbers.push((state >> (state & 63)) as u128);
    }
    for ratio in &ratios {
        for secs in &numbers {
            let expected = scaled(*ratio, *secs);
            let got = Ratio::from_bits(ratio.to_bits()).scale_secs(*secs);
            assert_eq!(got, expected, "{ratio} of {secs}");
        }
    }
    assert_eq!(Ratio::from_bits(0.1f32.to_bits()).to_bits(), 0x3dcc_cccd);
}

#[test]
fn the_default_ratio_gives_a_tenth() {
    let tenth = CacheOptions::default().cache_heuristic();
    assert_eq!(tenth, Ratio::from_bits(0.1f32.to_bits()));
    assert_eq!(tenth.scale_secs(0), 0);
    assert_eq!(tenth.scale_secs(9), 0);
    assert_eq!(tenth.scale_secs(10), 1);
    assert_eq!(tenth.scale_secs(864_000), 86_400);
    assert_eq!(tenth.scale_secs(67_108_859), 6_710_885);
}

#[test]
fn options_can_be_set() {
    let mut options = CacheOptions::default();
    assert!(!options.is_shared());
    assert_eq!(options.immutable_min_time_to_live(), Span::from_secs(86_400));
    let half = Ratio::from_bits(0.5f32.to_bits());
    options.set_shared(true).set_cache_heuristic(half).set_immutable_min_time_to_live(Span::zero());
    assert!(options.is_shared());
    assert_eq!(options.cache_heuristic(), half);
    assert_eq!(options.immutable_min_time_to_live(), Span::zero());
    assert_eq!(
        CacheOptions::default()
            .with_shared(true)
            .with_cache_heuristic(half)
            .with_immutable_min_time_to_live(Span::zero()),
        options
    );
    *options.shared_mut() = false;
    *options.cache_heuristic_mut() = CacheOptions::default().cache_heuristic();
    *options.immutable_min_time_to_live_mut() = Span::from_secs(86_400);
    assert_eq!(options, CacheOptions::default());
}

#[test]
fn dates_are_read_in_their_three_forms() {
    let expected = Some(Timestamp::new(784_111_777, 0));
    assert_eq!(parse_http_date("Sun, 06 Nov 1994 08:49:37 GMT"), expected);
    assert_eq!(parse_http_date("Sunday, 06-Nov-94 08:49:37 GMT"), expected);
    assert_eq!(parse_http_date("Sun Nov  6 08:49:37 1994"), expected);
    assert_eq!(parse_http_date("Thu, 01 Jan 1970 00:00:00 GMT"), Some(Timestamp::new(0, 0)));
    assert_eq!(parse_http_date("0"), None);
    assert_eq!(parse_http_date(""), None);
    for secs in [0u64, 86_399, 951_782_400, 1_700_000_000, 253_402_300_799] {
        let text = httpdate::fmt_http_date(UNIX_EPOCH + Duration::from_secs(secs));
        assert_eq!(parse_http_date(&text), Some(Timestamp::new(secs as i64, 0)), "{text}");
    }
}

#[test]
fn dictionaries_begin_each_member_with_a_key() {
    for text in ["max-age=600", "a", "*", " a , b=1 ", "MaX-aGe=3600", "a.b_c-d*=x, e", "a =1"] {
        assert!(looks_like_valid_sf_dictionary(text), "{text:?}");
    }
    for text in ["", "  ", ",", "a,", ",a", "a,,b", "&&&&&", "max-age=1, &&&&&", "1a", "=1", "é=1"] {
        assert!(!looks_like_valid_sf_dictionary(text), "{text:?}");
    }
    assert!(is_valid_sf_key("a1"));
    assert!(is_valid_sf_key("*"));
    assert!(!is_valid_sf_key(""));
    assert!(!is_valid_sf_key("-a"));
    assert!(!is_valid_sf_key("a b"));
}

#[test]
fn tags_are_compared_by_their_opaque_part() {
    assert_eq!(etag_opaque(r#""a""#), Some("a"));
    assert_eq!(etag_opaque(r#"W/"a""#), Some("a"));
    assert_eq!(etag_opaque(r#"  W/"a"  "#), Some("a"));
    assert_eq!(etag_opaque(r#""""#), Some(""));
    assert_eq!(etag_opaque("a"), None);
    assert_eq!(etag_opaque(r#"w/"a""#), None);
    assert_eq!(etag_opaque(r#""a"b""#), None);
    assert_eq!(etag_opaque(r#"W/"a","b""#), None);
    assert_eq!(iter_etag_opaques(r#""a", W/"b,c" ,"d""#), vec!["a", "b,c", "d"]);
    assert!(iter_etag_opaques("").is_empty());
    assert!(inm_matches("*", None));
    assert!(inm_matches(r#""x", "a""#, Some(r#"W/"a""#)));
    assert!(!inm_matches(r#""x""#, Some(r#""a""#)));
    assert!(!inm_matches(r#""a""#, None));
}
