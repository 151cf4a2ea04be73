use modcache::decimal::{decimal_string, parse_digits};
use modcache::key::{compound_key_string, game_prefix_string, mod_page_url_string, CompoundKey};
use modcache::ratelimit::{
    parse_u16_text, QuotaExhausted, QuotaWindow, RateField, RateLimits, ResponseHeaders,
};
use modcache::transport::{begin_request, classify_status, settle_response, FetchError, Reply, StatusClass};

fn no_headers() -> ResponseHeaders {
    ResponseHeaders {
        hourly_limit: None,
        hourly_remaining: None,
        hourly_reset: None,
        daily_limit: None,
        daily_remaining: None,
        daily_reset: None,
        etag: None,
    }
}

#[test]
fn compound_key_text() {
    let k = CompoundKey::new("skyrimspecialedition".to_string(), 12345);
    assert_eq!(k.to_key_string(), "skyrimspecialedition/12345");
    assert_eq!(compound_key_string("fallout4", 0), "fallout4/0");
    assert_eq!(compound_key_string("g", 4294967295), "g/4294967295");
}

#[test]
fn compound_key_round_trip() {
    for (d, id) in [("skyrim", 1u32), ("fallout4", 4294967295), ("", 7), ("a/b", 12)] {
        let text = CompoundKey::new(d.to_string(), id).to_key_string();
        let back = CompoundKey::parse(&text).expect("key reads back");
        assert_eq!(back.domain_name, d);
        assert_eq!(back.mod_id, id);
    }
}

#[test]
fn compound_key_parse_refusals() {
    assert!(CompoundKey::parse("skyrim").is_none());
    assert!(CompoundKey::parse("skyrim/").is_none());
    assert!(CompoundKey::parse("skyrim/12a").is_none());
    assert!(CompoundKey::parse("skyrim/4294967296").is_none());
    assert!(CompoundKey::parse("skyrim/-1").is_none());
}

#[test]
fn game_prefix_and_page_url() {
    assert_eq!(game_prefix_string("skyrim"), "skyrim/");
    assert_eq!(mod_page_url_string("skyrim", 42), "https://www.nexusmods.com/skyrim/mods/42");
}

#[test]
fn decimal_text() {
    assert_eq!(decimal_string(0), "0");
    assert_eq!(decimal_string(1009), "1009");
    assert_eq!(decimal_string(u64::MAX), "18446744073709551615");
    assert_eq!(parse_digits("0099", 100), Some(99));
    assert_eq!(parse_digits("101", 100), None);
    assert_eq!(parse_digits("", 100), None);
}

#[test]
fn quota_counts_parse_like_std() {
    assert_eq!(parse_u16_text("100"), Some(100));
    assert_eq!(parse_u16_text("+7"), Some(7));
    assert_eq!(parse_u16_text("65535"), Some(65535));
    assert_eq!(parse_u16_text("65536"), None);
    assert_eq!(parse_u16_text("+"), None);
    assert_eq!(parse_u16_text("-1"), None);
    assert_eq!(parse_u16_text(""), None);
}

#[test]
fn default_limits() {
    let l = RateLimits::new(1000);
    assert_eq!(l.remaining_hour(), 100);
    assert_eq!(l.remaining_day(), 2500);
    assert_eq!(l.hourly_reset, 1000);
    assert!(l.requests_allowed());
    assert_eq!(l.allow_request(), Ok(()));
}

#[test]
fn hourly_quota_gate_refuses() {
    let mut l = RateLimits::new(5);
    l.hourly_remaining = 0;
    l.daily_remaining = 17;
    assert!(!l.requests_allowed());
    assert_eq!(
        l.allow_request(),
        Err(QuotaExhausted { window: QuotaWindow::Hourly, limit: 100, reset_at: 5 })
    );
    assert!(matches!(begin_request(&l), Err(FetchError::QuotaExhausted(q)) if q.window == QuotaWindow::Hourly));
    assert_eq!(l.remaining_day(), 17);
}

#[test]
fn daily_quota_gate_refuses() {
    let mut l = RateLimits::new(5);
    l.daily_remaining = 0;
    assert_eq!(
        l.allow_request(),
        Err(QuotaExhausted { window: QuotaWindow::Daily, limit: 2500, reset_at: 5 })
    );
}

#[test]
fn headers_overwrite_limits() {
    let mut l = RateLimits::new(0);
    let mut h = no_headers();
    h.hourly_limit = Some(" 500 ".to_string());
    h.hourly_remaining = Some("499\n".to_string());
    h.hourly_reset = Some("2023-01-01T01:00:00+00:00".to_string());
    h.daily_limit = Some("20000".to_string());
    h.daily_remaining = Some("19999".to_string());
    h.daily_reset = Some("2023-01-02T00:00:00+00:00".to_string());
    h.etag = Some("W/\"xyz\"".to_string());
    let etag = l.handle_headers(&h).expect("headers read");
    assert_eq!(etag, "W/\"xyz\"");
    assert_eq!(l.hourly_limit, 500);
    assert_eq!(l.hourly_remaining, 499);
    assert_eq!(l.hourly_reset, 1672534800);
    assert_eq!(l.daily_limit, 20000);
    assert_eq!(l.daily_remaining, 19999);
    assert_eq!(l.daily_reset, 1672617600);
}

#[test]
fn missing_headers_keep_limits() {
    let mut l = RateLimits::new(3);
    let etag = l.handle_headers(&no_headers()).expect("nothing to read");
    assert_eq!(etag, "");
    assert_eq!(l, RateLimits::new(3));
}

#[test]
fn bad_count_header_is_an_error_and_changes_nothing() {
    let mut l = RateLimits::new(3);
    let mut h = no_headers();
    h.hourly_limit = Some("10".to_string());
    h.daily_remaining = Some("lots".to_string());
    assert_eq!(
        l.handle_headers(&h),
        Err(modcache::ratelimit::HeaderError { field: RateField::DailyRemaining })
    );
    assert_eq!(l, RateLimits::new(3));
}

#[test]
fn bad_reset_header_is_an_error() {
    let mut l = RateLimits::new(3);
    let mut h = no_headers();
    h.hourly_reset = Some("next tuesday".to_string());
    assert_eq!(
        l.handle_headers(&h),
        Err(modcache::ratelimit::HeaderError { field: RateField::HourlyReset })
    );
}

#[test]
fn status_classes() {
    assert_eq!(classify_status(200), StatusClass::Success);
    assert_eq!(classify_status(204), StatusClass::Success);
    assert_eq!(classify_status(304), StatusClass::NotModified);
    assert_eq!(classify_status(429), StatusClass::RateLimited);
    assert_eq!(classify_status(404), StatusClass::Failure);
    assert_eq!(classify_status(500), StatusClass::Failure);
}

#[test]
fn not_modified_keeps_sent_etag() {
    let mut l = RateLimits::new(0);
    let mut h = no_headers();
    h.etag = Some("other".to_string());
    h.hourly_remaining = Some("42".to_string());
    let r = settle_response(&mut l, Some("sent".to_string()), 304, &h, String::new());
    assert!(matches!(r, Ok(Reply::NotModified { ref etag }) if etag == "sent"));
    assert_eq!(l.hourly_remaining, 42);
}

#[test]
fn success_takes_response_etag() {
    let mut l = RateLimits::new(0);
    let mut h = no_headers();
    h.etag = Some("fresh".to_string());
    let r = settle_response(&mut l, Some("sent".to_string()), 200, &h, "{}".to_string());
    assert!(matches!(r, Ok(Reply::Fresh { ref etag }) if etag == "fresh"));
}

#[test]
fn server_rate_limit_and_remote_errors() {
    let mut l = RateLimits::new(0);
    let mut h = no_headers();
    h.hourly_remaining = Some("0".to_string());
    let r = settle_response(&mut l, None, 429, &h, String::new());
    assert!(matches!(r, Err(FetchError::RateLimited)));
    assert_eq!(l.hourly_remaining, 0);
    let r = settle_response(&mut l, None, 503, &no_headers(), "down".to_string());
    assert!(matches!(r, Err(FetchError::Remote { status: 503, ref body }) if body == "down"));
}

#[test]
fn header_error_wins_over_status() {
    let mut l = RateLimits::new(0);
    let mut h = no_headers();
    h.daily_limit = Some("x".to_string());
    let r = settle_response(&mut l, None, 200, &h, String::new());
    assert!(matches!(r, Err(FetchError::Header(e)) if e.field == RateField::DailyLimit));
}

#[test]
fn remaining_above_limit_is_capped() {
    let mut l = RateLimits::new(0);
    let mut h = no_headers();
    h.hourly_limit = Some("10".to_string());
    h.hourly_remaining = Some("12".to_string());
    h.daily_remaining = Some("3000".to_string());
    l.handle_headers(&h).expect("headers read");
    assert_eq!(l.hourly_limit, 10);
    assert_eq!(l.hourly_remaining, 10);
    assert_eq!(l.daily_limit, 2500);
    assert_eq!(l.daily_remaining, 2500);
}

#[test]
fn quota_headers_trim_unicode_white_space() {
    let mut l = RateLimits::new(0);
    let mut h = no_headers();
    h.hourly_remaining = Some("\u{a0}\t7\u{3000}".to_string());
    l.handle_headers(&h).expect("header read");
    assert_eq!(l.hourly_remaining, 7);
    h.hourly_remaining = Some("7 7".to_string());
    assert_eq!(
        l.handle_headers(&h),
        Err(modcache::ratelimit::HeaderError { field: RateField::HourlyRemaining })
    );
}

#[test]
fn not_modified_without_sent_etag_is_remote_error() {
    let mut l = RateLimits::new(0);
    let mut h = no_headers();
    h.etag = Some("server".to_string());
    let r = settle_response(&mut l, None, 304, &h, "nothing".to_string());
    assert!(matches!(r, Err(FetchError::Remote { status: 304, ref body }) if body == "nothing"));
}
