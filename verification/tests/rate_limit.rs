use llm_client::rate_limit::{
    parse_count, parse_duration, OpenAIRateLimitInfo, RateLimitHandler,
};
use reqwest::header::{HeaderMap, HeaderName, HeaderValue};

fn headers(pairs: &[(&'static str, &'static str)]) -> HeaderMap {
    let mut map = HeaderMap::new();
    for (name, value) in pairs {
        map.append(HeaderName::from_static(name), HeaderValue::from_static(value));
    }
    map
}

fn info(requests_reset: Option<u64>, tokens_reset: Option<u64>) -> OpenAIRateLimitInfo {
    OpenAIRateLimitInfo {
        requests_limit: None,
        requests_remaining: None,
        requests_reset,
        tokens_limit: None,
        tokens_remaining: None,
        tokens_reset,
    }
}

#[test]
fn duration_of_seconds() {
    assert_eq!(parse_duration("1s"), Some(1));
    assert_eq!(parse_duration("90s"), Some(90));
}

#[test]
fn duration_of_minutes_and_seconds() {
    assert_eq!(parse_duration("6m0s"), Some(360));
    assert_eq!(parse_duration("1m30s"), Some(90));
    assert_eq!(parse_duration("2m"), Some(120));
}

#[test]
fn duration_without_unit_is_zero() {
    assert_eq!(parse_duration(""), Some(0));
    assert_eq!(parse_duration("42"), Some(0));
    assert_eq!(parse_duration("abc"), Some(0));
}

#[test]
fn unrecognized_character_resets_the_number() {
    assert_eq!(parse_duration("12x3s"), Some(3));
    assert_eq!(parse_duration("1.5s"), Some(5));
    assert_eq!(parse_duration("5 s"), Some(0));
    assert_eq!(parse_duration("7h2m"), Some(120));
    assert_eq!(parse_duration("120ms"), Some(7200));
}

#[test]
fn unit_without_number_counts_nothing() {
    assert_eq!(parse_duration("s"), Some(0));
    assert_eq!(parse_duration("ms3s"), Some(3));
}

#[test]
fn number_too_large_for_64_bits_counts_nothing() {
    assert_eq!(parse_duration("18446744073709551616s2s"), Some(2));
}

#[test]
fn duration_beyond_the_longest_reset_is_absent() {
    assert_eq!(parse_duration("18446744073709551614s"), Some(18446744073709551614));
    assert_eq!(parse_duration("18446744073709551615s"), None);
    assert_eq!(parse_duration("18446744073709551614s1s"), None);
    assert_eq!(parse_duration("307445734561825861m"), None);
    assert_eq!(parse_duration("307445734561825860m"), Some(18446744073709551600));
}

#[test]
fn count_of_digits() {
    assert_eq!(parse_count("0"), Some(0));
    assert_eq!(parse_count("5000"), Some(5000));
    assert_eq!(parse_count("007"), Some(7));
    assert_eq!(parse_count("4294967295"), Some(4294967295));
}

#[test]
fn count_with_plus_sign() {
    assert_eq!(parse_count("+5"), Some(5));
    assert_eq!(parse_count("+"), None);
    assert_eq!(parse_count("++5"), None);
}

#[test]
fn count_that_is_no_number_is_absent() {
    assert_eq!(parse_count(""), None);
    assert_eq!(parse_count("-1"), None);
    assert_eq!(parse_count("12a"), None);
    assert_eq!(parse_count(" 12"), None);
    assert_eq!(parse_count("1.0"), None);
    assert_eq!(parse_count("4294967296"), None);
}

#[test]
fn count_agrees_with_the_standard_parser() {
    for text in ["", "+", "-", "0", "+0", "-0", "12", "+12", "1 2", "99999999999", "١٢"] {
        assert_eq!(parse_count(text), text.parse::<u32>().ok(), "for {:?}", text);
    }
}

#[test]
fn telemetry_is_read_from_the_headers() {
    let map = headers(&[
        ("x-ratelimit-limit-requests", "5000"),
        ("x-ratelimit-remaining-requests", "4999"),
        ("x-ratelimit-reset-requests", "12ms"),
        ("x-ratelimit-limit-tokens", "160000"),
        ("x-ratelimit-remaining-tokens", "159000"),
        ("x-ratelimit-reset-tokens", "6m0s"),
        ("content-type", "application/json"),
    ]);
    assert_eq!(
        OpenAIRateLimitInfo::from_headers(&map),
        OpenAIRateLimitInfo {
            requests_limit: Some(5000),
            requests_remaining: Some(4999),
            requests_reset: Some(720),
            tokens_limit: Some(160000),
            tokens_remaining: Some(159000),
            tokens_reset: Some(360),
        }
    );
}

#[test]
fn missing_headers_give_absent_fields() {
    assert_eq!(OpenAIRateLimitInfo::from_headers(&HeaderMap::new()), OpenAIRateLimitInfo::none());
    let map = headers(&[("x-ratelimit-reset-tokens", "2s")]);
    assert_eq!(OpenAIRateLimitInfo::from_headers(&map), info(None, Some(2)));
}

#[test]
fn unreadable_header_gives_an_absent_field() {
    let mut map = headers(&[("x-ratelimit-limit-requests", "many")]);
    map.insert(
        HeaderName::from_static("x-ratelimit-reset-requests"),
        HeaderValue::from_bytes(&[0x31, 0x73, 0xe9]).unwrap(),
    );
    assert_eq!(OpenAIRateLimitInfo::from_headers(&map), OpenAIRateLimitInfo::none());
}

#[test]
fn first_value_of_a_repeated_header_is_read() {
    let map = headers(&[("x-ratelimit-limit-tokens", "1"), ("x-ratelimit-limit-tokens", "2")]);
    assert_eq!(OpenAIRateLimitInfo::from_headers(&map).tokens_limit, Some(1));
}

#[test]
fn retry_delay_is_longest_reset_plus_buffer() {
    assert_eq!(info(Some(6), Some(90)).get_retry_delay(), 91);
    assert_eq!(info(Some(90), Some(6)).get_retry_delay(), 91);
    assert_eq!(info(Some(7), None).get_retry_delay(), 8);
    assert_eq!(info(None, Some(3)).get_retry_delay(), 4);
}

#[test]
fn retry_delay_has_a_floor() {
    assert_eq!(info(None, None).get_retry_delay(), 3);
    assert_eq!(info(Some(0), Some(1)).get_retry_delay(), 3);
    assert_eq!(info(Some(2), Some(2)).get_retry_delay(), 3);
}

#[test]
fn retry_delay_of_the_longest_reset() {
    assert_eq!(info(Some(18446744073709551614), None).get_retry_delay(), 18446744073709551615);
}
