//! The retry policy: which failures are worth another attempt, and how long
//! to wait before it.

use crate::error::{ApiErrorContext, ApiErrorKind};
use crate::rate_limit::RateLimitHandler;
use crate::stream_model::DecodeError;
use vstd::arithmetic::power2::{
    lemma2_to64, lemma2_to64_rest, lemma_pow2_strictly_increases, lemma_pow2_unfold, pow2,
};
use vstd::prelude::*;

verus! {

/// The number of retries that a request is given.
pub const MAX_RETRIES: u32 = 3;

/// The last attempt whose exponential delay fits in 64 bits.
pub const MAX_BACKOFF_ATTEMPT: u32 = 64;

/// The exponential delay, in seconds, before retry number `attempt`, counted
/// from 1: one second, then twice the delay before.
pub open spec fn backoff(attempt: nat) -> nat {
    pow2((attempt - 1) as nat)
}

/// Whether a failure of this kind may be retried.
pub open spec fn is_retryable(kind: ApiErrorKind) -> bool {
    kind is RateLimit || kind is ServiceError || kind is NetworkError
}

/// The delay before retry number `attempt` after a failure: what the
/// rate-limit telemetry calls for when the failure is a rate limit and
/// carries telemetry, and the exponential delay otherwise.
pub open spec fn delay_after<T: RateLimitHandler>(error: ApiErrorContext<T>, attempt: nat) -> nat {
    match (error.error.deep_view().kind, error.rate_limits) {
        (ApiErrorKind::RateLimit, Some(info)) => info.retry_delay(),
        _ => backoff(attempt),
    }
}

/// Whether to retry after a failure when `attempts` attempts have been
/// counted, and after how many seconds: only a retryable failure is retried,
/// and only while `attempts` is below `max_retries`.
pub open spec fn retry_delay_for<T: RateLimitHandler>(
    error: ApiErrorContext<T>,
    attempts: nat,
    max_retries: nat,
) -> Option<nat> {
    if is_retryable(error.error.deep_view().kind) && attempts < max_retries {
        Some(delay_after(error, attempts))
    } else {
        None
    }
}

/// The exponential delay, in seconds, before retry number `attempt`.
pub fn backoff_secs(attempt: u32) -> (secs: u64)
    requires
        1 <= attempt <= MAX_BACKOFF_ATTEMPT,
    ensures
        secs as nat == backoff(attempt as nat),
{
    let mut secs: u64 = 1;
    let mut done: u32 = 1;
    proof {
        lemma2_to64();
    }
    while done < attempt
        invariant
            1 <= done <= attempt <= 64,
            secs as nat == pow2((done - 1) as nat),
        decreases attempt - done,
    {
        proof {
            lemma_pow2_unfold(done as nat);
            if done < 63 {
                lemma_pow2_strictly_increases(done as nat, 63);
            }
            lemma2_to64_rest();
        }
        secs = secs * 2;
        done += 1;
    }
    secs
}

/// The delay for a retry after `error`, where `attempt` counts the retry.
fn delay_secs<T: RateLimitHandler>(error: &ApiErrorContext<T>, attempt: u32) -> (secs: u64)
    requires
        1 <= attempt <= MAX_BACKOFF_ATTEMPT,
        error.rate_limits matches Some(info) ==> info.well_formed(),
    ensures
        secs as nat == delay_after(*error, attempt as nat),
{
    match error.error.kind() {
        ApiErrorKind::RateLimit => match &error.rate_limits {
            Some(info) => info.get_retry_delay(),
            None => backoff_secs(attempt),
        },
        _ => backoff_secs(attempt),
    }
}

/// Whether `kind` may be retried.
pub fn kind_is_retryable(kind: ApiErrorKind) -> (yes: bool)
    ensures
        yes == is_retryable(kind),
{
    match kind {
        ApiErrorKind::RateLimit => true,
        ApiErrorKind::ServiceError => true,
        ApiErrorKind::NetworkError => true,
        _ => false,
    }
}

/// Decides whether to retry after `error`, and after how many seconds.
/// `attempts` counts the attempts made, from 1. `None` says to give up.
pub fn handle_retryable_error<T: RateLimitHandler>(
    error: &ApiErrorContext<T>,
    attempts: u32,
    max_retries: u32,
) -> (delay: Option<u64>)
    requires
        attempts < max_retries ==> 1 <= attempts <= MAX_BACKOFF_ATTEMPT,
        error.rate_limits matches Some(info) ==> info.well_formed(),
    ensures
        match delay {
            Some(secs) => retry_delay_for(*error, attempts as nat, max_retries as nat) == Some(
                secs as nat,
            ),
            None => retry_delay_for(*error, attempts as nat, max_retries as nat) is None,
        },
{
    if kind_is_retryable(error.error.kind()) && attempts < max_retries {
        Some(delay_secs(error, attempts))
    } else {
        None
    }
}

/// What the driver does after a failed attempt.
#[derive(Debug, Clone, Copy, PartialEq, Eq, Structural)]
pub enum RetryStep {
    /// Wait this many seconds, then send the request again.
    RetryAfter(u64),
    /// Return the failure to the caller as it is.
    GiveUp,
}

/// The retry state of one request: how many retries have been made, and how
/// many are allowed.
#[derive(Debug, Clone, Copy, PartialEq, Eq, Structural)]
pub struct RetryDriver {
    pub attempts: u32,
    pub max_retries: u32,
}

impl RetryDriver {
    /// Whether the state is one that the driver can reach: no more retries
    /// made than allowed, and no more allowed than have a delay of 64 bits.
    pub open spec fn well_formed(self) -> bool {
        self.attempts <= self.max_retries <= MAX_BACKOFF_ATTEMPT
    }

    /// Whether the driver retries after a failure of this kind.
    pub open spec fn retries(self, kind: ApiErrorKind) -> bool {
        is_retryable(kind) && self.attempts < self.max_retries
    }

    /// The state after a failure of this kind: a retry is counted if one is
    /// made.
    pub open spec fn after(self, kind: ApiErrorKind) -> RetryDriver {
        if self.retries(kind) {
            RetryDriver { attempts: (self.attempts + 1) as u32, ..self }
        } else {
            self
        }
    }

    /// The state after `n` failures of this kind in a row.
    pub open spec fn after_repeated(self, kind: ApiErrorKind, n: nat) -> RetryDriver
        decreases n,
    {
        if n == 0 {
            self
        } else {
            self.after_repeated(kind, (n - 1) as nat).after(kind)
        }
    }

    /// The state before the first attempt of a request that is given
    /// `max_retries` retries.
    pub fn new(max_retries: u32) -> (driver: RetryDriver)
        requires
            max_retries <= MAX_BACKOFF_ATTEMPT,
        ensures
            driver == (RetryDriver { attempts: 0, max_retries }),
            driver.well_formed(),
    {
        RetryDriver { attempts: 0, max_retries }
    }

    /// Decides what to do after a failed attempt. A retryable failure is
    /// retried while retries are left: the retry is counted, and the delay is
    /// that of the retry's number.
    pub fn on_failure<T: RateLimitHandler>(&mut self, error: &ApiErrorContext<T>) -> (step:
        RetryStep)
        requires
            old(self).well_formed(),
            error.rate_limits matches Some(info) ==> info.well_formed(),
        ensures
            final(self).well_formed(),
            *final(self) == old(self).after(error.error.deep_view().kind),
            match step {
                RetryStep::RetryAfter(secs) => old(self).retries(error.error.deep_view().kind)
                    && secs as nat == delay_after(*error, final(self).attempts as nat),
                RetryStep::GiveUp => !old(self).retries(error.error.deep_view().kind),
            },
    {
        if kind_is_retryable(error.error.kind()) && self.attempts < self.max_retries {
            self.attempts = self.attempts + 1;
            RetryStep::RetryAfter(delay_secs(error, self.attempts))
        } else {
            RetryStep::GiveUp
        }
    }
}

/// Why one attempt at a request failed: the service or the transport failed,
/// or the response could not be decoded.
#[derive(Debug, Clone, PartialEq, Eq)]
pub enum AttemptFailure<T> {
    Api(ApiErrorContext<T>),
    Decode(DecodeError),
}

impl RetryDriver {
    /// Decides what to do after a failed attempt of either sort. A response
    /// that could not be decoded is never asked for again; any other failure
    /// is decided as [`RetryDriver::on_failure`] does.
    pub fn after_attempt<T: RateLimitHandler>(&mut self, failure: &AttemptFailure<T>) -> (step:
        RetryStep)
        requires
            old(self).well_formed(),
            failure matches AttemptFailure::Api(error) ==> (error.rate_limits matches Some(info)
                ==> info.well_formed()),
        ensures
            final(self).well_formed(),
            match *failure {
                AttemptFailure::Api(error) => {
                    &&& *final(self) == old(self).after(error.error.deep_view().kind)
                    &&& match step {
                        RetryStep::RetryAfter(secs) => old(self).retries(
                            error.error.deep_view().kind,
                        ) && secs as nat == delay_after(error, final(self).attempts as nat),
                        RetryStep::GiveUp => !old(self).retries(error.error.deep_view().kind),
                    }
                },
                AttemptFailure::Decode(_) => step == RetryStep::GiveUp && *final(self) == *old(
                    self,
                ),
            },
    {
        match failure {
            AttemptFailure::Api(error) => self.on_failure(error),
            AttemptFailure::Decode(_) => RetryStep::GiveUp,
        }
    }
}

/// A request that fails with a service error on every attempt is retried
/// exactly `max_retries` times, so that `max_retries + 1` attempts are made
/// in all: retry number `k` is counted as such and waits two to the power
/// `k - 1` seconds, and the failure after the last retry is given up on.
pub proof fn lemma_service_errors_exhaust_retries<T: RateLimitHandler>(
    error: ApiErrorContext<T>,
    max_retries: u32,
    k: nat,
)
    requires
        error.error.deep_view().kind is ServiceError,
        max_retries <= MAX_BACKOFF_ATTEMPT,
        k <= max_retries,
    ensures
        ({
            let start = RetryDriver { attempts: 0, max_retries };
            let reached = start.after_repeated(ApiErrorKind::ServiceError, k);
            &&& reached.attempts == k
            &&& reached.max_retries == max_retries
            &&& reached.retries(ApiErrorKind::ServiceError) <==> k < max_retries
            &&& k >= 1 ==> delay_after(error, reached.attempts as nat) == pow2((k - 1) as nat)
        }),
    decreases k,
{
    if k > 0 {
        lemma_service_errors_exhaust_retries(error, max_retries, (k - 1) as nat);
    }
}

} // verus!
