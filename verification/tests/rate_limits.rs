use anthropic_messages::rate_limits::{
    parse_anthropic_rate_limit, parse_anthropic_rate_limit_window, parse_credits_snapshot,
    parse_header_bool, parse_header_i64, parse_header_str, parse_rate_limit,
    parse_rate_limit_window, used_percent_texts, CreditsSnapshot, RateLimitError, RateLimitWindow,
    UsedPercent,
};
use http::{HeaderMap, HeaderValue};

fn percent(used: UsedPercent) -> f64 {
    match used {
        UsedPercent::Bits(bits) => f64::from_bits(bits),
        UsedPercent::Share { used, limit } => (used as f64 / limit as f64) * 100.0,
    }
}

fn headers(pairs: &[(&'static str, &'static str)]) -> HeaderMap {
    let mut headers = HeaderMap::new();
    for (name, value) in pairs {
        headers.insert(*name, HeaderValue::from_static(value));
    }
    headers
}

#[test]
fn parse_anthropic_rate_limit_with_requests_and_tokens() {
    let mut headers = HeaderMap::new();
    headers.insert(
        "anthropic-ratelimit-requests-limit",
        HeaderValue::from_static("100"),
    );
    headers.insert(
        "anthropic-ratelimit-requests-remaining",
        HeaderValue::from_static("75"),
    );
    headers.insert(
        "anthropic-ratelimit-tokens-limit",
        HeaderValue::from_static("10000"),
    );
    headers.insert(
        "anthropic-ratelimit-tokens-remaining",
        HeaderValue::from_static("8000"),
    );

    let snapshot = parse_anthropic_rate_limit(&headers).expect("should parse");

    // Primary (requests): 25% used (100 - 75) / 100
    let primary = snapshot.primary.expect("primary window");
    assert!((percent(primary.used_percent) - 25.0).abs() < 0.01);

    // Secondary (tokens): 20% used (10000 - 8000) / 10000
    let secondary = snapshot.secondary.expect("secondary window");
    assert!((percent(secondary.used_percent) - 20.0).abs() < 0.01);
}

#[test]
fn parse_anthropic_rate_limit_missing_headers_returns_none() {
    let headers = HeaderMap::new();
    assert!(parse_anthropic_rate_limit(&headers).is_none());
}

#[test]
fn anthropic_window_holds_the_used_share() {
    let map = headers(&[("limit", "1000"), ("remaining", "750")]);
    assert_eq!(
        parse_anthropic_rate_limit_window(&map, "limit", "remaining"),
        Some(RateLimitWindow {
            used_percent: UsedPercent::Share { used: 250, limit: 1000 },
            window_minutes: None,
            resets_at: None,
        })
    );
    assert_eq!(parse_anthropic_rate_limit_window(&map, "limit", "absent"), None);
    assert_eq!(parse_anthropic_rate_limit_window(&map, "absent", "remaining"), None);
}

#[test]
fn anthropic_window_of_no_limit_is_unused() {
    let map = headers(&[("limit", "0"), ("remaining", "5")]);
    let window = parse_anthropic_rate_limit_window(&map, "limit", "remaining").expect("window");
    assert_eq!(window.used_percent, UsedPercent::Bits(0));
    assert_eq!(percent(window.used_percent), 0.0);
}

#[test]
fn anthropic_snapshot_may_hold_one_window() {
    let map = headers(&[
        ("anthropic-ratelimit-tokens-limit", "10"),
        ("anthropic-ratelimit-tokens-remaining", "10"),
    ]);
    let snapshot = parse_anthropic_rate_limit(&map).expect("snapshot");
    assert_eq!(snapshot.primary, None);
    assert_eq!(
        snapshot.secondary.map(|window| window.used_percent),
        Some(UsedPercent::Share { used: 0, limit: 10 })
    );
    assert_eq!(snapshot.credits, None);
    assert_eq!(snapshot.plan_type, None);
}

#[test]
fn header_text_is_read_as_it_stands() {
    let mut map = headers(&[("x-plain", "a b\tc")]);
    map.insert("x-bytes", HeaderValue::from_bytes(&[0x61, 0xff]).expect("header value"));
    map.append("x-plain", HeaderValue::from_static("second"));
    assert_eq!(parse_header_str(&map, "x-plain"), Some("a b\tc"));
    assert_eq!(parse_header_str(&map, "X-Plain"), Some("a b\tc"));
    assert_eq!(parse_header_str(&map, "x-bytes"), None);
    assert_eq!(parse_header_str(&map, "x-absent"), None);
    assert_eq!(parse_header_str(&map, "not a name"), None);
}

#[test]
fn header_integers() {
    let map = headers(&[
        ("a", "42"),
        ("b", "-9223372036854775808"),
        ("c", "9223372036854775808"),
        ("d", "+7"),
        ("e", " 7"),
        ("f", ""),
        ("g", "-"),
        ("h", "1.5"),
    ]);
    assert_eq!(parse_header_i64(&map, "a"), Some(42));
    assert_eq!(parse_header_i64(&map, "b"), Some(i64::MIN));
    assert_eq!(parse_header_i64(&map, "c"), None);
    assert_eq!(parse_header_i64(&map, "d"), Some(7));
    assert_eq!(parse_header_i64(&map, "e"), None);
    assert_eq!(parse_header_i64(&map, "f"), None);
    assert_eq!(parse_header_i64(&map, "g"), None);
    assert_eq!(parse_header_i64(&map, "h"), None);
}

#[test]
fn header_truth_values() {
    let map = headers(&[("a", "TRUE"), ("b", "1"), ("c", "False"), ("d", "0"), ("e", "yes")]);
    assert_eq!(parse_header_bool(&map, "a"), Some(true));
    assert_eq!(parse_header_bool(&map, "b"), Some(true));
    assert_eq!(parse_header_bool(&map, "c"), Some(false));
    assert_eq!(parse_header_bool(&map, "d"), Some(false));
    assert_eq!(parse_header_bool(&map, "e"), None);
    assert_eq!(parse_header_bool(&map, "f"), None);
}

#[test]
fn window_without_data_is_none() {
    let map = headers(&[("minutes", "0"), ("reset", "oops")]);
    assert_eq!(parse_rate_limit_window(&map, Some(0.0f64.to_bits()), "minutes", "reset"), None);
    assert_eq!(parse_rate_limit_window(&map, Some((-0.0f64).to_bits()), "minutes", "reset"), None);
    assert_eq!(parse_rate_limit_window(&map, None, "minutes", "reset"), None);
}

#[test]
fn window_with_any_datum_is_kept() {
    let map = headers(&[("minutes", "300"), ("zero", "0"), ("reset", "1700000000")]);
    let zero = Some(0.0f64.to_bits());
    let used = parse_rate_limit_window(&map, Some(12.5f64.to_bits()), "zero", "absent");
    assert_eq!(used.map(|w| percent(w.used_percent)), Some(12.5));
    assert_eq!(used.and_then(|w| w.window_minutes), Some(0));
    let minutes = parse_rate_limit_window(&map, zero, "minutes", "absent").expect("window");
    assert_eq!((minutes.window_minutes, minutes.resets_at), (Some(300), None));
    let reset = parse_rate_limit_window(&map, zero, "absent", "reset").expect("window");
    assert_eq!((reset.window_minutes, reset.resets_at), (None, Some(1700000000)));
}

#[test]
fn codex_headers_give_a_snapshot() {
    let map = headers(&[
        ("x-codex-primary-used-percent", "12.5"),
        ("x-codex-primary-window-minutes", "300"),
        ("x-codex-primary-reset-at", "1700000000"),
        ("x-codex-secondary-used-percent", "40"),
        ("x-codex-credits-has-credits", "true"),
        ("x-codex-credits-unlimited", "0"),
        ("x-codex-credits-balance", "  12.00 "),
    ]);
    assert_eq!(used_percent_texts(&map), (Some("12.5"), Some("40")));
    let snapshot =
        parse_rate_limit(&map, Some(12.5f64.to_bits()), Some(40.0f64.to_bits())).expect("snapshot");
    assert_eq!(
        snapshot.primary,
        Some(RateLimitWindow {
            used_percent: UsedPercent::Bits(12.5f64.to_bits()),
            window_minutes: Some(300),
            resets_at: Some(1700000000),
        })
    );
    assert_eq!(snapshot.secondary.map(|w| percent(w.used_percent)), Some(40.0));
    assert_eq!(
        snapshot.credits,
        Some(CreditsSnapshot {
            has_credits: true,
            unlimited: false,
            balance: Some("12.00".to_string()),
        })
    );
}

#[test]
fn snapshot_of_no_headers_is_empty() {
    let snapshot = parse_rate_limit(&HeaderMap::new(), None, None).expect("snapshot");
    assert_eq!(snapshot.primary, None);
    assert_eq!(snapshot.secondary, None);
    assert_eq!(snapshot.credits, None);
    assert_eq!(used_percent_texts(&HeaderMap::new()), (None, None));
}

#[test]
fn credits_need_both_flags() {
    let one = headers(&[("x-codex-credits-has-credits", "true")]);
    assert_eq!(parse_credits_snapshot(&one), None);
    let other = headers(&[("x-codex-credits-unlimited", "true")]);
    assert_eq!(parse_credits_snapshot(&other), None);
    let blank = headers(&[
        ("x-codex-credits-has-credits", "0"),
        ("x-codex-credits-unlimited", "1"),
        ("x-codex-credits-balance", " \t "),
    ]);
    assert_eq!(
        parse_credits_snapshot(&blank),
        Some(CreditsSnapshot { has_credits: false, unlimited: true, balance: None })
    );
}

#[test]
fn rate_limit_error_shows_its_message() {
    let error = RateLimitError { message: "too many requests".to_string() };
    assert_eq!(error.to_string(), "too many requests");
}

#[test]
fn percentages_that_are_not_finite_tell_of_no_window() {
    let limits = headers(&[("minutes", "60"), ("reset", "7")]);
    let window = |used: f64| {
        parse_rate_limit_window(&limits, Some(used.to_bits()), "minutes", "reset").map(|w| w.used_percent)
    };
    assert_eq!(window(f64::INFINITY), None);
    assert_eq!(window(f64::NEG_INFINITY), None);
    assert_eq!(window(f64::NAN), None);
    for used in [f64::MAX, f64::MIN, f64::MIN_POSITIVE, 12.5, -0.0] {
        assert_eq!(window(used), Some(UsedPercent::Bits(used.to_bits())));
    }
}
