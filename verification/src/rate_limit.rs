//! Rate-limit telemetry: what a vendor's response headers say about quotas,
//! and how long to wait before the next attempt.

use crate::text::{chars_of, decimal_within, is_ascii_digit, is_digit, parse_decimal};
use vstd::prelude::*;

verus! {

/// The delay, in seconds, used when a response reports no reset time.
pub const DEFAULT_RETRY_SECS: u64 = 2;

/// The safety margin, in seconds, added to every retry delay.
pub const RETRY_BUFFER_SECS: u64 = 1;

/// The longest reset time, in seconds, that a header can report: one that
/// still leaves room for the safety margin.
pub const MAX_RESET_SECS: u64 = 18446744073709551614;

/// The number that a header value denotes under `limit`: a run of digits,
/// which a `+` sign may precede. `None` for every other text.
pub open spec fn unsigned_numeral(text: Seq<char>, limit: nat) -> Option<nat> {
    if text.len() > 0 && text[0] == '+' {
        decimal_within(text.skip(1), limit)
    } else {
        decimal_within(text, limit)
    }
}

/// The 32-bit count that a header value denotes.
pub open spec fn header_count(text: Seq<char>) -> Option<u32> {
    match unsigned_numeral(text, u32::MAX as nat) {
        Some(v) => Some(v as u32),
        None => None,
    }
}

/// Reads a header value as a 32-bit count.
pub fn parse_count(text: &str) -> (out: Option<u32>)
    ensures
        out == header_count(text@),
{
    let chars = chars_of(text);
    let skip: usize = if chars.len() > 0 && chars[0] == '+' {
        1
    } else {
        0
    };
    let mut digits: Vec<char> = Vec::new();
    let mut i: usize = skip;
    while i < chars.len()
        invariant
            skip <= i <= chars.len(),
            digits@ == chars@.subrange(skip as int, i as int),
        decreases chars.len() - i,
    {
        digits.push(chars[i]);
        assert(digits@ =~= chars@.subrange(skip as int, i as int + 1));
        i += 1;
    }
    assert(digits@ =~= chars@.skip(skip as int));
    assert(chars@.skip(0) =~= chars@);
    match parse_decimal(digits.as_slice(), 4294967295) {
        Some(v) => Some(v as u32),
        None => None,
    }
}

/// The progress of reading a duration: the seconds counted so far and the
/// digits of the number that is being read.
pub struct DurationScan {
    pub total: nat,
    pub run: Seq<char>,
}

/// What a run of digits counts for when a unit follows it: its value, or
/// nothing when the run is empty or too large for 64 bits.
pub open spec fn run_value(run: Seq<char>) -> nat {
    match decimal_within(run, u64::MAX as nat) {
        Some(v) => v,
        None => 0,
    }
}

/// Reads one more character of a duration. A digit joins the run; `m` counts
/// the run as minutes and `s` as seconds; any other character drops the run.
pub open spec fn scan_step(st: DurationScan, c: char) -> DurationScan {
    if is_digit(c) {
        DurationScan { total: st.total, run: st.run.push(c) }
    } else if c == 'm' {
        DurationScan { total: st.total + run_value(st.run) * 60, run: Seq::empty() }
    } else if c == 's' {
        DurationScan { total: st.total + run_value(st.run), run: Seq::empty() }
    } else {
        DurationScan { total: st.total, run: Seq::empty() }
    }
}

/// Reads a duration text, first character to last.
pub open spec fn scan_duration(text: Seq<char>) -> DurationScan
    decreases text.len(),
{
    if text.len() == 0 {
        DurationScan { total: 0, run: Seq::empty() }
    } else {
        scan_step(scan_duration(text.drop_last()), text.last())
    }
}

/// The seconds that a duration text such as `6m0s` denotes. A text without
/// any unit denotes zero; one that denotes more than [`MAX_RESET_SECS`]
/// denotes nothing.
pub open spec fn duration_secs(text: Seq<char>) -> Option<u64> {
    let total = scan_duration(text).total;
    if total <= MAX_RESET_SECS {
        Some(total as u64)
    } else {
        None
    }
}

/// The seconds counted after a prefix of a text never exceed those counted
/// after the whole text.
pub proof fn lemma_scan_total_grows(text: Seq<char>, k: int)
    requires
        0 <= k <= text.len(),
    ensures
        scan_duration(text.take(k)).total <= scan_duration(text).total,
    decreases text.len() - k,
{
    if k == text.len() {
        assert(text.take(k) =~= text);
    } else {
        assert(text.take(k + 1).drop_last() =~= text.take(k));
        lemma_scan_total_grows(text, k + 1);
    }
}

/// Reads a duration text such as `1s` or `6m0s` as a number of seconds.
pub fn parse_duration(text: &str) -> (out: Option<u64>)
    ensures
        out == duration_secs(text@),
{
    let chars = chars_of(text);
    let mut total: u64 = 0;
    let mut run: Vec<char> = Vec::new();
    let mut i: usize = 0;
    assert(chars@.take(0) =~= Seq::<char>::empty());
    while i < chars.len()
        invariant
            0 <= i <= chars.len(),
            chars@ == text@,
            total as nat == scan_duration(chars@.take(i as int)).total,
            run@ == scan_duration(chars@.take(i as int)).run,
            total <= MAX_RESET_SECS,
        decreases chars.len() - i,
    {
        let c = chars[i];
        proof {
            assert(chars@.take(i as int + 1).drop_last() =~= chars@.take(i as int));
            assert(chars@.take(i as int + 1).last() == c);
            lemma_scan_total_grows(chars@, i as int + 1);
        }
        if is_ascii_digit(c) {
            run.push(c);
        } else {
            if c == 'm' || c == 's' {
                let counted = match parse_decimal(run.as_slice(), 18446744073709551615) {
                    Some(v) => v,
                    None => 0,
                };
                let seconds = if c == 'm' {
                    match counted.checked_mul(60) {
                        Some(seconds) => seconds,
                        None => { return None; },
                    }
                } else {
                    counted
                };
                if seconds > MAX_RESET_SECS - total {
                    return None;
                }
                total = total + seconds;
            }
            run = Vec::new();
        }
        i += 1;
    }
    assert(chars@.take(i as int) =~= chars@);
    Some(total)
}

/// Declares `http::HeaderMap` as a type whose inside is not looked into.
#[verifier::external_type_specification]
#[verifier::external_body]
#[verifier::reject_recursive_types(T)]
pub struct ExHeaderMap<T>(reqwest::header::HeaderMap<T>);

/// Declares `http::HeaderValue` as a type whose inside is not looked into.
#[verifier::external_type_specification]
#[verifier::external_body]
pub struct ExHeaderValue(reqwest::header::HeaderValue);

/// The text that `headers` holds under `name`: that of the first value stored
/// for the name, when that value is made of visible ASCII characters only.
pub uninterp spec fn header_text(
    headers: reqwest::header::HeaderMap,
    name: Seq<char>,
) -> Option<Seq<char>>;

/// Calls `HeaderMap::get`, which finds the first value stored under a name,
/// then `HeaderValue::to_str`, which yields the value's text if it holds
/// visible ASCII only. The contract names that text and claims no more.
#[verifier::external_body]
fn header_value(headers: &reqwest::header::HeaderMap, name: &str) -> (out: Option<String>)
    ensures
        out.deep_view() == header_text(*headers, name@),
{
    headers.get(name).and_then(|value| value.to_str().ok()).map(|text| text.to_owned())
}

/// What a response says about its sender's quotas, and how long to wait on
/// that account before the next attempt.
pub trait RateLimitHandler: Sized {
    /// Whether the telemetry leaves room for the safety margin that
    /// [`RateLimitHandler::get_retry_delay`] adds.
    spec fn well_formed(&self) -> bool;

    /// The delay, in seconds, that this telemetry calls for.
    spec fn retry_delay(&self) -> nat;

    /// The telemetry that `headers` carry.
    spec fn telemetry_of(headers: reqwest::header::HeaderMap) -> Self;

    /// Reads the telemetry from the headers of a response.
    fn from_headers(headers: &reqwest::header::HeaderMap) -> (info: Self)
        ensures
            info == Self::telemetry_of(*headers),
            info.well_formed(),
    ;

    /// The delay, in seconds, to wait before the next attempt.
    fn get_retry_delay(&self) -> (delay: u64)
        requires
            self.well_formed(),
        ensures
            delay as nat == self.retry_delay(),
    ;
}

/// The rate-limit telemetry of an OpenAI-style response. Every field is
/// optional: a vendor may leave any of them out. Reset times are in seconds.
#[derive(Debug, Clone, Copy, PartialEq, Eq)]
pub struct OpenAIRateLimitInfo {
    pub requests_limit: Option<u32>,
    pub requests_remaining: Option<u32>,
    pub requests_reset: Option<u64>,
    pub tokens_limit: Option<u32>,
    pub tokens_remaining: Option<u32>,
    pub tokens_reset: Option<u64>,
}

/// The larger of two numbers.
pub open spec fn larger(a: nat, b: nat) -> nat {
    if a >= b {
        a
    } else {
        b
    }
}

/// A reset time, with an absent one counted as zero.
pub open spec fn reset_or_zero(reset: Option<u64>) -> nat {
    match reset {
        Some(secs) => secs as nat,
        None => 0,
    }
}

/// The count that `headers` report under `name`.
pub open spec fn reported_count(headers: reqwest::header::HeaderMap, name: Seq<char>) -> Option<
    u32,
> {
    match header_text(headers, name) {
        Some(text) => header_count(text),
        None => None,
    }
}

/// The duration, in seconds, that `headers` report under `name`.
pub open spec fn reported_duration(
    headers: reqwest::header::HeaderMap,
    name: Seq<char>,
) -> Option<u64> {
    match header_text(headers, name) {
        Some(text) => duration_secs(text),
        None => None,
    }
}

/// The telemetry that `headers` carry.
pub open spec fn openai_rate_limits(headers: reqwest::header::HeaderMap) -> OpenAIRateLimitInfo {
    OpenAIRateLimitInfo {
        requests_limit: reported_count(headers, "x-ratelimit-limit-requests"@),
        requests_remaining: reported_count(headers, "x-ratelimit-remaining-requests"@),
        requests_reset: reported_duration(headers, "x-ratelimit-reset-requests"@),
        tokens_limit: reported_count(headers, "x-ratelimit-limit-tokens"@),
        tokens_remaining: reported_count(headers, "x-ratelimit-remaining-tokens"@),
        tokens_reset: reported_duration(headers, "x-ratelimit-reset-tokens"@),
    }
}

/// Reads the count that `headers` report under `name`.
fn read_count(headers: &reqwest::header::HeaderMap, name: &str) -> (out: Option<u32>)
    ensures
        out == reported_count(*headers, name@),
{
    match header_value(headers, name) {
        Some(text) => parse_count(text.as_str()),
        None => None,
    }
}

/// Reads the duration that `headers` report under `name`.
fn read_duration(headers: &reqwest::header::HeaderMap, name: &str) -> (out: Option<u64>)
    ensures
        out == reported_duration(*headers, name@),
{
    match header_value(headers, name) {
        Some(text) => parse_duration(text.as_str()),
        None => None,
    }
}

impl OpenAIRateLimitInfo {
    /// Telemetry that reports nothing.
    pub fn none() -> (info: OpenAIRateLimitInfo)
        ensures
            info == (OpenAIRateLimitInfo {
                requests_limit: None,
                requests_remaining: None,
                requests_reset: None,
                tokens_limit: None,
                tokens_remaining: None,
                tokens_reset: None,
            }),
            info.well_formed(),
    {
        OpenAIRateLimitInfo {
            requests_limit: None,
            requests_remaining: None,
            requests_reset: None,
            tokens_limit: None,
            tokens_remaining: None,
            tokens_reset: None,
        }
    }
}

impl RateLimitHandler for OpenAIRateLimitInfo {
    open spec fn well_formed(&self) -> bool {
        reset_or_zero(self.requests_reset) <= MAX_RESET_SECS && reset_or_zero(self.tokens_reset)
            <= MAX_RESET_SECS
    }

    /// The longest of the default delay and the two reset times, plus the
    /// safety margin.
    open spec fn retry_delay(&self) -> nat {
        larger(
            larger(DEFAULT_RETRY_SECS as nat, reset_or_zero(self.requests_reset)),
            reset_or_zero(self.tokens_reset),
        ) + RETRY_BUFFER_SECS as nat
    }

    open spec fn telemetry_of(headers: reqwest::header::HeaderMap) -> OpenAIRateLimitInfo {
        openai_rate_limits(headers)
    }

    fn from_headers(headers: &reqwest::header::HeaderMap) -> (info: OpenAIRateLimitInfo) {
        OpenAIRateLimitInfo {
            requests_limit: read_count(headers, "x-ratelimit-limit-requests"),
            requests_remaining: read_count(headers, "x-ratelimit-remaining-requests"),
            requests_reset: read_duration(headers, "x-ratelimit-reset-requests"),
            tokens_limit: read_count(headers, "x-ratelimit-limit-tokens"),
            tokens_remaining: read_count(headers, "x-ratelimit-remaining-tokens"),
            tokens_reset: read_duration(headers, "x-ratelimit-reset-tokens"),
        }
    }

    fn get_retry_delay(&self) -> (delay: u64) {
        let mut delay: u64 = DEFAULT_RETRY_SECS;
        match self.requests_reset {
            Some(reset) => {
                if reset > delay {
                    delay = reset;
                }
            },
            None => {},
        }
        match self.tokens_reset {
            Some(reset) => {
                if reset > delay {
                    delay = reset;
                }
            },
            None => {},
        }
        delay + RETRY_BUFFER_SECS
    }
}

} // verus!
