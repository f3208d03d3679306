use llm_client::error::{
    check_response_error, classify_by_status, classify_openai, decode_error_message, status_kind,
    ApiError, ApiErrorContext, ApiErrorKind, HttpStatus,
};
use llm_client::json::Json;
use llm_client::openai::OpenAIClient;
use llm_client::rate_limit::OpenAIRateLimitInfo;
use llm_client::retry::RetryStep;
use reqwest::header::{HeaderMap, HeaderName, HeaderValue};

fn status(code: u16) -> HttpStatus {
    HttpStatus::new(code).unwrap()
}

fn reset_headers(value: &'static str) -> HeaderMap {
    let mut map = HeaderMap::new();
    map.insert(HeaderName::from_static("x-ratelimit-reset-requests"), HeaderValue::from_static(value));
    map
}

#[test]
fn status_codes_have_three_digits() {
    assert_eq!(HttpStatus::new(99), None);
    assert_eq!(HttpStatus::new(1000), None);
    assert_eq!(HttpStatus::new(0), None);
    assert_eq!(HttpStatus::new(100).map(|s| s.code()), Some(100));
    assert_eq!(HttpStatus::new(999).map(|s| s.code()), Some(999));
}

#[test]
fn status_classes() {
    assert!(status(200).is_success());
    assert!(status(299).is_success());
    assert!(!status(199).is_success());
    assert!(!status(300).is_success());
    assert!(status(500).is_server_error());
    assert!(status(599).is_server_error());
    assert!(!status(499).is_server_error());
    assert!(!status(600).is_server_error());
}

#[test]
fn status_is_described_with_its_reason() {
    assert_eq!(status(404).describe(), "404 Not Found");
    assert_eq!(status(429).describe(), "429 Too Many Requests");
    assert_eq!(status(799).describe(), "799 <unknown status code>");
}

#[test]
fn kind_follows_from_the_status() {
    assert_eq!(status_kind(status(429)), ApiErrorKind::RateLimit);
    assert_eq!(status_kind(status(401)), ApiErrorKind::Authentication);
    assert_eq!(status_kind(status(400)), ApiErrorKind::InvalidRequest);
    assert_eq!(status_kind(status(500)), ApiErrorKind::ServiceError);
    assert_eq!(status_kind(status(503)), ApiErrorKind::ServiceError);
    assert_eq!(status_kind(status(599)), ApiErrorKind::ServiceError);
    assert_eq!(status_kind(status(600)), ApiErrorKind::Unknown);
    assert_eq!(status_kind(status(403)), ApiErrorKind::Unknown);
    assert_eq!(status_kind(status(404)), ApiErrorKind::Unknown);
    assert_eq!(status_kind(status(302)), ApiErrorKind::Unknown);
}

#[test]
fn classification_by_status_keeps_the_body() {
    assert_eq!(classify_by_status(status(429), "slow down"), ApiError::RateLimit("slow down".to_string()));
    assert_eq!(classify_by_status(status(401), "who?"), ApiError::Authentication("who?".to_string()));
    assert_eq!(classify_by_status(status(400), "bad"), ApiError::InvalidRequest("bad".to_string()));
    assert_eq!(classify_by_status(status(502), ""), ApiError::ServiceError("".to_string()));
}

#[test]
fn unknown_status_is_named_in_the_message() {
    assert_eq!(
        classify_by_status(status(404), "no such model"),
        ApiError::Unknown("Status 404 Not Found: no such model".to_string())
    );
    assert_eq!(
        classify_by_status(status(418), ""),
        ApiError::Unknown("Status 418 I'm a teapot: ".to_string())
    );
}

#[test]
fn structured_error_body_gives_the_vendor_message() {
    let body = "{\"error\":{\"message\":\"rate limited\",\"type\":\"rate_limit\"}}";
    assert_eq!(classify_openai(status(429), body), ApiError::RateLimit("rate limited".to_string()));
    assert_eq!(classify_openai(status(401), body), ApiError::Authentication("rate limited".to_string()));
    assert_eq!(classify_openai(status(400), body), ApiError::InvalidRequest("rate limited".to_string()));
    assert_eq!(classify_openai(status(500), body), ApiError::ServiceError("rate limited".to_string()));
    assert_eq!(classify_openai(status(404), body), ApiError::Unknown("rate limited".to_string()));
}

#[test]
fn error_type_is_optional() {
    assert_eq!(
        classify_openai(status(400), "{\"error\":{\"message\":\"m\"}}"),
        ApiError::InvalidRequest("m".to_string())
    );
    assert_eq!(
        classify_openai(status(400), "{\"error\":{\"message\":\"m\",\"type\":null,\"code\":7}}"),
        ApiError::InvalidRequest("m".to_string())
    );
}

#[test]
fn body_of_another_shape_falls_back_to_the_status() {
    for body in [
        "upstream timeout",
        "",
        "{\"error\":\"plain\"}",
        "{\"error\":{\"type\":\"x\"}}",
        "{\"error\":{\"message\":5}}",
        "{\"error\":{\"message\":\"m\",\"type\":5}}",
        "[]",
    ] {
        assert_eq!(classify_openai(status(503), body), ApiError::ServiceError(body.to_string()));
        assert_eq!(
            classify_openai(status(404), body),
            ApiError::Unknown(format!("Status 404 Not Found: {}", body))
        );
    }
}

#[test]
fn error_message_is_read_from_a_document() {
    let doc = Json::parse("{\"error\":{\"message\":\"boom\",\"type\":\"server_error\"}}").unwrap();
    assert_eq!(decode_error_message(&doc), Some("boom".to_string()));
    assert_eq!(decode_error_message(&Json::Null), None);
    assert_eq!(decode_error_message(&Json::Object(vec![])), None);
}

#[test]
fn kind_and_message_of_an_error() {
    let error = ApiError::of_kind(ApiErrorKind::NetworkError, "reset by peer".to_string());
    assert_eq!(error, ApiError::NetworkError("reset by peer".to_string()));
    assert_eq!(error.kind(), ApiErrorKind::NetworkError);
    assert_eq!(error.message(), "reset by peer");
    for kind in [
        ApiErrorKind::RateLimit,
        ApiErrorKind::Authentication,
        ApiErrorKind::InvalidRequest,
        ApiErrorKind::ServiceError,
        ApiErrorKind::NetworkError,
        ApiErrorKind::Unknown,
    ] {
        assert_eq!(ApiError::of_kind(kind, "m".to_string()).kind(), kind);
    }
}

#[test]
fn successful_response_passes_the_check() {
    let out: Result<(), ApiErrorContext<OpenAIRateLimitInfo>> =
        check_response_error(status(200), &HeaderMap::new(), "");
    assert_eq!(out, Ok(()));
    assert_eq!(OpenAIClient::check_response_error(status(204), &HeaderMap::new(), "ignored"), Ok(()));
}

#[test]
fn failed_response_carries_error_and_telemetry() {
    let out: Result<(), ApiErrorContext<OpenAIRateLimitInfo>> =
        check_response_error(status(503), &reset_headers("5s"), "overloaded");
    let context = out.unwrap_err();
    assert_eq!(context.error, ApiError::ServiceError("overloaded".to_string()));
    assert_eq!(context.rate_limits.unwrap().requests_reset, Some(5));
}

#[test]
fn generic_check_does_not_read_the_body_as_json() {
    let body = "{\"error\":{\"message\":\"rate limited\",\"type\":\"rate_limit\"}}";
    let out: Result<(), ApiErrorContext<OpenAIRateLimitInfo>> =
        check_response_error(status(429), &HeaderMap::new(), body);
    assert_eq!(out.unwrap_err().error, ApiError::RateLimit(body.to_string()));
}

#[test]
fn rate_limited_response_is_retried_after_reset_plus_buffer() {
    let body = "{\"error\":{\"message\":\"rate limited\",\"type\":\"rate_limit\"}}";
    let context =
        OpenAIClient::check_response_error(status(429), &reset_headers("2s"), body).unwrap_err();
    assert_eq!(context.error, ApiError::RateLimit("rate limited".to_string()));
    assert_eq!(context.rate_limits.map(|r| r.requests_reset), Some(Some(2)));
    let mut driver = OpenAIClient::retry_driver();
    assert_eq!(driver.on_failure(&context), RetryStep::RetryAfter(3));
    assert_eq!(driver.attempts, 1);
}
