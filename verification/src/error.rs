//! The taxonomy of request failures, and how a failed response is sorted
//! into it.

use crate::json::{parsed_json, Json, JsonValue};
use crate::rate_limit::RateLimitHandler;
use crate::wire::optional_text;
use vstd::prelude::*;
use vstd::string::StringExecFns;

verus! {

/// The kinds of request failure.
#[derive(Debug, Clone, Copy, PartialEq, Eq, Structural)]
pub enum ApiErrorKind {
    RateLimit,
    Authentication,
    InvalidRequest,
    ServiceError,
    NetworkError,
    Unknown,
}

/// A classified request failure with the message that came with it.
#[derive(Debug, Clone, PartialEq, Eq)]
pub enum ApiError {
    RateLimit(String),
    Authentication(String),
    InvalidRequest(String),
    /// The service failed (a 5xx status).
    ServiceError(String),
    /// The transport failed before any status was received.
    NetworkError(String),
    Unknown(String),
}

/// The mathematical value of an [`ApiError`].
pub struct ApiErrorView {
    pub kind: ApiErrorKind,
    pub message: Seq<char>,
}

impl DeepView for ApiError {
    type V = ApiErrorView;

    open spec fn deep_view(&self) -> ApiErrorView {
        match self {
            ApiError::RateLimit(m) => ApiErrorView { kind: ApiErrorKind::RateLimit, message: m@ },
            ApiError::Authentication(m) => ApiErrorView {
                kind: ApiErrorKind::Authentication,
                message: m@,
            },
            ApiError::InvalidRequest(m) => ApiErrorView {
                kind: ApiErrorKind::InvalidRequest,
                message: m@,
            },
            ApiError::ServiceError(m) => ApiErrorView {
                kind: ApiErrorKind::ServiceError,
                message: m@,
            },
            ApiError::NetworkError(m) => ApiErrorView {
                kind: ApiErrorKind::NetworkError,
                message: m@,
            },
            ApiError::Unknown(m) => ApiErrorView { kind: ApiErrorKind::Unknown, message: m@ },
        }
    }
}

impl ApiError {
    /// The failure of kind `kind` with the message `message`.
    pub fn of_kind(kind: ApiErrorKind, message: String) -> (error: ApiError)
        ensures
            error.deep_view() == (ApiErrorView { kind, message: message@ }),
    {
        match kind {
            ApiErrorKind::RateLimit => ApiError::RateLimit(message),
            ApiErrorKind::Authentication => ApiError::Authentication(message),
            ApiErrorKind::InvalidRequest => ApiError::InvalidRequest(message),
            ApiErrorKind::ServiceError => ApiError::ServiceError(message),
            ApiErrorKind::NetworkError => ApiError::NetworkError(message),
            ApiErrorKind::Unknown => ApiError::Unknown(message),
        }
    }

    /// The kind of this failure.
    pub fn kind(&self) -> (kind: ApiErrorKind)
        ensures
            kind == self.deep_view().kind,
    {
        match self {
            ApiError::RateLimit(_) => ApiErrorKind::RateLimit,
            ApiError::Authentication(_) => ApiErrorKind::Authentication,
            ApiError::InvalidRequest(_) => ApiErrorKind::InvalidRequest,
            ApiError::ServiceError(_) => ApiErrorKind::ServiceError,
            ApiError::NetworkError(_) => ApiErrorKind::NetworkError,
            ApiError::Unknown(_) => ApiErrorKind::Unknown,
        }
    }

    /// The message of this failure.
    pub fn message(&self) -> (message: &str)
        ensures
            message@ == self.deep_view().message,
    {
        match self {
            ApiError::RateLimit(m) => m.as_str(),
            ApiError::Authentication(m) => m.as_str(),
            ApiError::InvalidRequest(m) => m.as_str(),
            ApiError::ServiceError(m) => m.as_str(),
            ApiError::NetworkError(m) => m.as_str(),
            ApiError::Unknown(m) => m.as_str(),
        }
    }
}

/// A classified failure together with the rate-limit telemetry of the
/// response it came from, if there was a response.
#[derive(Debug, Clone, PartialEq, Eq)]
pub struct ApiErrorContext<T> {
    pub error: ApiError,
    pub rate_limits: Option<T>,
}

impl<T> ApiErrorContext<T> {
    /// The failure of a transport that broke down before any status was
    /// received: a network error, without telemetry.
    pub fn network(message: String) -> (context: ApiErrorContext<T>)
        ensures
            context.error.deep_view() == (ApiErrorView {
                kind: ApiErrorKind::NetworkError,
                message: message@,
            }),
            context.rate_limits is None,
    {
        ApiErrorContext { error: ApiError::NetworkError(message), rate_limits: None }
    }
}

/// The status code of an HTTP response: a number from 100 to 999.
#[derive(Debug, Clone, Copy, PartialEq, Eq)]
pub struct HttpStatus {
    code: u16,
}

/// What `http::StatusCode` displays for a status code: the number, a space,
/// and the canonical reason phrase of the code.
pub uninterp spec fn status_display(code: u16) -> Seq<char>;

/// Calls `StatusCode::from_u16`, which accepts the codes from 100 to 999, and
/// then the `Display` of the status code. The contract names the text.
#[verifier::external_body]
fn status_line(code: u16) -> (out: String)
    requires
        100 <= code <= 999,
    ensures
        out@ == status_display(code),
{
    reqwest::StatusCode::from_u16(code).map(|status| status.to_string()).unwrap_or_default()
}

impl HttpStatus {
    #[verifier::type_invariant]
    spec fn in_range(self) -> bool {
        100 <= self.code <= 999
    }

    /// The number of this status code.
    pub closed spec fn value(self) -> u16 {
        self.code
    }

    /// The status with the number `code`, if `code` is a status code.
    pub fn new(code: u16) -> (status: Option<HttpStatus>)
        ensures
            status is Some <==> 100 <= code <= 999,
            status matches Some(s) ==> s.value() == code,
    {
        if 100 <= code && code <= 999 {
            Some(HttpStatus { code })
        } else {
            None
        }
    }

    /// The number of this status code.
    pub fn code(&self) -> (code: u16)
        ensures
            code == self.value(),
            100 <= code <= 999,
    {
        proof {
            use_type_invariant(self);
        }
        self.code
    }

    /// Whether the status reports success (2xx).
    pub fn is_success(&self) -> (yes: bool)
        ensures
            yes == (200 <= self.value() <= 299),
    {
        200 <= self.code && self.code <= 299
    }

    /// Whether the status reports a failure of the service (5xx).
    pub fn is_server_error(&self) -> (yes: bool)
        ensures
            yes == (500 <= self.value() <= 599),
    {
        500 <= self.code && self.code <= 599
    }

    /// The status as a text: its number and its reason phrase.
    pub fn describe(&self) -> (text: String)
        ensures
            text@ == status_display(self.value()),
    {
        proof {
            use_type_invariant(self);
        }
        status_line(self.code)
    }
}

/// The kind of failure that a status code alone stands for.
pub open spec fn kind_of_status(code: u16) -> ApiErrorKind {
    if code == 429 {
        ApiErrorKind::RateLimit
    } else if code == 401 {
        ApiErrorKind::Authentication
    } else if code == 400 {
        ApiErrorKind::InvalidRequest
    } else if 500 <= code <= 599 {
        ApiErrorKind::ServiceError
    } else {
        ApiErrorKind::Unknown
    }
}

/// The message of a failure that the status code does not explain: the status
/// as a text, then the body.
pub open spec fn unexplained_message(code: u16, body: Seq<char>) -> Seq<char> {
    "Status "@ + status_display(code) + ": "@ + body
}

/// The failure that a status code and a raw body stand for. The body is the
/// message, and a status of unknown meaning is named in front of it.
pub open spec fn classified_by_status(code: u16, body: Seq<char>) -> ApiErrorView {
    let kind = kind_of_status(code);
    ApiErrorView {
        kind,
        message: if kind is Unknown {
            unexplained_message(code, body)
        } else {
            body
        },
    }
}

/// The message of a structured error body, if `v` has the shape of one: an
/// object whose member `error` is an object with a string `message` and an
/// optional string `type`.
pub open spec fn error_message_of(v: JsonValue) -> Option<Seq<char>> {
    let error = v.member_or_null("error"@);
    if v is Object && error is Object && optional_text(error.member_or_null("type"@)) is Some {
        error.member_or_null("message"@).text()
    } else {
        None
    }
}

/// The failure that a status code and the body of an OpenAI-style response
/// stand for: the kind follows from the status; the message is the vendor's
/// own when the body is a structured error, and otherwise as
/// [`classified_by_status`] has it.
pub open spec fn classified_openai(code: u16, body: Seq<char>) -> ApiErrorView {
    match parsed_json(body) {
        Ok(v) => match error_message_of(v) {
            Some(message) => ApiErrorView { kind: kind_of_status(code), message },
            None => classified_by_status(code, body),
        },
        Err(_) => classified_by_status(code, body),
    }
}

/// The kind of failure that a status code alone stands for.
pub fn status_kind(status: HttpStatus) -> (kind: ApiErrorKind)
    ensures
        kind == kind_of_status(status.value()),
{
    let code = status.code();
    if code == 429 {
        ApiErrorKind::RateLimit
    } else if code == 401 {
        ApiErrorKind::Authentication
    } else if code == 400 {
        ApiErrorKind::InvalidRequest
    } else if status.is_server_error() {
        ApiErrorKind::ServiceError
    } else {
        ApiErrorKind::Unknown
    }
}

/// Classifies a failed response by its status code alone.
pub fn classify_by_status(status: HttpStatus, body: &str) -> (error: ApiError)
    ensures
        error.deep_view() == classified_by_status(status.value(), body@),
{
    let kind = status_kind(status);
    match kind {
        ApiErrorKind::Unknown => {
            let mut message = String::from_str("Status ");
            let line = status.describe();
            message.append(line.as_str());
            message.append(": ");
            message.append(body);
            ApiError::Unknown(message)
        },
        _ => ApiError::of_kind(kind, String::from_str(body)),
    }
}

/// Reads the message of a structured error body.
pub fn decode_error_message(v: &Json) -> (out: Option<String>)
    ensures
        out.deep_view() == error_message_of(v@),
{
    if !v.is_object() {
        return None;
    }
    let error = match v.member("error") {
        Some(error) => error,
        None => { return None; },
    };
    if !error.is_object() {
        return None;
    }
    match error.member("type") {
        Some(kind) => {
            if !kind.is_null() && kind.as_text().is_none() {
                return None;
            }
        },
        None => {},
    }
    match error.member("message") {
        Some(message) => match message.as_text() {
            Some(text) => Some(String::from_str(text)),
            None => None,
        },
        None => None,
    }
}

/// Classifies a failed response of an OpenAI-style service.
pub fn classify_openai(status: HttpStatus, body: &str) -> (error: ApiError)
    ensures
        error.deep_view() == classified_openai(status.value(), body@),
{
    match Json::parse(body) {
        Ok(document) => match decode_error_message(&document) {
            Some(message) => ApiError::of_kind(status_kind(status), message),
            None => classify_by_status(status, body),
        },
        Err(_) => classify_by_status(status, body),
    }
}

/// Checks the status of a response. A response that reports success passes;
/// any other is classified by its status code alone, and the failure carries
/// the rate-limit telemetry of the response's headers.
pub fn check_response_error<T: RateLimitHandler>(
    status: HttpStatus,
    headers: &reqwest::header::HeaderMap,
    body: &str,
) -> (out: Result<(), ApiErrorContext<T>>)
    ensures
        match out {
            Ok(_) => 200 <= status.value() <= 299,
            Err(context) => {
                &&& !(200 <= status.value() <= 299)
                &&& context.error.deep_view() == classified_by_status(status.value(), body@)
                &&& context.rate_limits == Some(T::telemetry_of(*headers))
                &&& context.rate_limits->0.well_formed()
            },
        },
{
    if status.is_success() {
        return Ok(());
    }
    let rate_limits = T::from_headers(headers);
    let error = classify_by_status(status, body);
    Err(ApiErrorContext { error, rate_limits: Some(rate_limits) })
}

} // verus!
