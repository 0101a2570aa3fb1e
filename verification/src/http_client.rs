//! Settings and decisions of the HTTP client that works around bot detection:
//! user-agent rotation, exponential backoff and which failures are retried.
//! Sending requests is left to the application.

use crate::clock::{duration_from_secs, duration_of_secs};
use rand::Rng;
use std::time::Duration;
use vstd::arithmetic::power2::{lemma_pow2_strictly_increases, lemma_pow2_unfold, pow2};
use vstd::prelude::*;

verus! {

/// User agents to rotate through to avoid bot detection.
pub const USER_AGENTS: [&'static str; 6] = [
    "Mozilla/5.0 (Windows NT 10.0; Win64; x64) AppleWebKit/537.36 (KHTML, like Gecko) Chrome/120.0.0.0 Safari/537.36",
    "Mozilla/5.0 (Windows NT 10.0; Win64; x64; rv:121.0) Gecko/20100101 Firefox/121.0",
    "Mozilla/5.0 (Macintosh; Intel Mac OS X 10_15_7) AppleWebKit/537.36 (KHTML, like Gecko) Chrome/120.0.0.0 Safari/537.36",
    "Mozilla/5.0 (Macintosh; Intel Mac OS X 10_15_7) AppleWebKit/605.1.15 (KHTML, like Gecko) Version/17.2 Safari/605.1.15",
    "Mozilla/5.0 (X11; Linux x86_64) AppleWebKit/537.36 (KHTML, like Gecko) Chrome/120.0.0.0 Safari/537.36",
    "Mozilla/5.0 (Windows NT 10.0; Win64; x64) AppleWebKit/537.36 (KHTML, like Gecko) Chrome/120.0.0.0 Safari/537.36 Edg/120.0.0.0",
];

/// Calls `rand::thread_rng().gen_range(0..n)`, which panics on an empty
/// range; only that the index is below `n` is stated, the draw is random.
#[verifier::external_body]
fn random_below(n: usize) -> (r: usize)
    requires
        n > 0,
    ensures
        r < n,
{
    rand::thread_rng().gen_range(0..n)
}

/// A user agent drawn at random from `USER_AGENTS`.
pub fn random_user_agent() -> (ua: &'static str)
    ensures
        exists|i: int| 0 <= i < 6 && ua == USER_AGENTS@[i],
{
    let i = random_below(6);
    USER_AGENTS[i]
}

/// Configuration for the HTTP client.
pub struct HttpClientConfig {
    pub timeout: Duration,
    pub max_retries: usize,
    pub initial_retry_delay_ms: u64,
    pub max_retry_delay_ms: u64,
    pub enable_cookies: bool,
    pub enable_gzip: bool,
}

impl Default for HttpClientConfig {
    fn default() -> (c: Self)
        ensures
            c.timeout == duration_of_secs(30),
            c.max_retries == 4,
            c.initial_retry_delay_ms == 500,
            c.max_retry_delay_ms == 8000,
            c.enable_cookies,
            c.enable_gzip,
    {
        HttpClientConfig {
            timeout: duration_from_secs(30),
            max_retries: 4,
            initial_retry_delay_ms: 500,
            max_retry_delay_ms: 8000,
            enable_cookies: true,
            enable_gzip: true,
        }
    }
}

/// The backoff before retry number `attempt`, before jitter:
/// `initial * 2^attempt`, capped at `max` (the exponent is `attempt` taken
/// as a `u32`, as the original casts it).
pub open spec fn backoff_spec(initial: u64, max: u64, attempt: usize) -> int {
    let raw = initial * pow2((attempt as u32) as nat);
    if raw < max {
        raw
    } else {
        max as int
    }
}

/// The power `2u64.pow(e)` and the product with `initial` do not overflow,
/// which is where the original would panic.
pub open spec fn backoff_defined(initial: u64, attempt: usize) -> bool {
    (attempt as u32) < 64 && initial * pow2((attempt as u32) as nat) <= u64::MAX
}

impl HttpClientConfig {
    /// The delay before retry number `attempt`, before jitter: exponential
    /// backoff from the initial delay, capped at the maximum.
    pub fn backoff_delay_ms(&self, attempt: usize) -> (d: u64)
        requires
            backoff_defined(self.initial_retry_delay_ms, attempt),
        ensures
            d == backoff_spec(self.initial_retry_delay_ms, self.max_retry_delay_ms, attempt),
    {
        let e: u32 = attempt as u32;
        let mut p: u64 = 1;
        let mut i: u32 = 0;
        proof {
            vstd::arithmetic::power2::lemma2_to64();
        }
        while i < e
            invariant
                i <= e,
                e < 64,
                p == pow2(i as nat),
            decreases e - i,
        {
            proof {
                lemma_pow2_unfold((i + 1) as nat);
                if i + 1 < 64 {
                    lemma_pow2_strictly_increases((i + 1) as nat, 64);
                }
                vstd::arithmetic::power2::lemma2_to64();
            }
            p = p * 2;
            i = i + 1;
        }
        let raw = self.initial_retry_delay_ms * p;
        if raw < self.max_retry_delay_ms {
            raw
        } else {
            self.max_retry_delay_ms
        }
    }
}

/// Whether the backoff delay of `attempt` can be computed: the exponent
/// fits and the doubled delay fits in a `u64`.
pub fn backoff_fits(initial: u64, attempt: usize) -> (b: bool)
    ensures
        b == backoff_defined(initial, attempt),
{
    let e: u32 = attempt as u32;
    if e >= 64 {
        return false;
    }
    let mut p: u64 = 1;
    let mut i: u32 = 0;
    proof {
        vstd::arithmetic::power2::lemma2_to64();
    }
    while i < e
        invariant
            i <= e,
            e < 64,
            p == pow2(i as nat),
        decreases e - i,
    {
        proof {
            lemma_pow2_unfold((i + 1) as nat);
            if i + 1 < 64 {
                lemma_pow2_strictly_increases((i + 1) as nat, 64);
            }
            vstd::arithmetic::power2::lemma2_to64();
        }
        p = p * 2;
        i = i + 1;
    }
    initial.checked_mul(p).is_some()
}

/// The backoff never exceeds the maximum delay, and it does not shrink from
/// one attempt to the next.
pub proof fn lemma_backoff_monotone(initial: u64, max: u64, attempt: usize)
    requires
        attempt < usize::MAX,
        backoff_defined(initial, (attempt + 1) as usize),
        (attempt as u32) < ((attempt + 1) as usize) as u32,
    ensures
        backoff_spec(initial, max, attempt) <= max,
        backoff_spec(initial, max, attempt) <= backoff_spec(initial, max, (attempt + 1) as usize),
{
    let e1 = (attempt as u32) as nat;
    let e2 = (((attempt + 1) as usize) as u32) as nat;
    lemma_pow2_strictly_increases(e1, e2);
    let p1 = pow2(e1);
    let p2 = pow2(e2);
    assert(initial * p1 <= initial * p2) by (nonlinear_arith)
        requires
            p1 < p2,
            initial >= 0,
    ;
}

/// Whether a response status is worth retrying: rate limiting (429), server
/// errors 500 and 502-504, and the Cloudflare errors 520-527.
pub open spec fn retryable_status(status: u16) -> bool {
    status == 429 || status == 500 || status == 502 || status == 503 || status == 504 || (520
        <= status && status <= 527)
}

/// Checks whether an HTTP status code is retryable.
pub fn is_retryable_status(status: u16) -> (r: bool)
    ensures
        r == retryable_status(status),
{
    status == 429 || status == 500 || status == 502 || status == 503 || status == 504 || (520
        <= status && status <= 527)
}

/// How one attempt at a request ended.
pub enum AttemptOutcome {
    /// A response arrived with this status.
    Response(u16),
    /// The request failed; `transient` when it timed out, could not connect or
    /// could not be sent, and `status` when the error carries one.
    Failure { transient: bool, status: Option<u16> },
}

/// What to do after an attempt.
#[derive(PartialEq, Eq, Structural, Debug)]
pub enum RetryAction {
    /// Hand the response back (even one with an error status).
    ReturnResponse,
    /// Wait for the backoff delay and try again.
    Retry,
    /// Hand the error back.
    ReturnError,
}

/// The decision after attempt number `attempt` (from 0) of at most
/// `max_retries + 1`: a response is returned unless its status is retryable
/// and attempts are left; a failure is retried when it is transient or
/// carries a retryable status and attempts are left, and returned otherwise.
pub open spec fn retry_action_spec(max_retries: usize, attempt: usize, outcome: AttemptOutcome) -> RetryAction {
    match outcome {
        AttemptOutcome::Response(s) => if retryable_status(s) && attempt < max_retries {
            RetryAction::Retry
        } else {
            RetryAction::ReturnResponse
        },
        AttemptOutcome::Failure { transient, status } => {
            let should = transient || (status matches Some(s) && retryable_status(s));
            if should && attempt < max_retries {
                RetryAction::Retry
            } else {
                RetryAction::ReturnError
            }
        },
    }
}

/// A rate-limited answer (429), a server error 500, 502, 503 or 504, or a
/// Cloudflare error 520 to 527 is retried while attempts are left, whether
/// it came as a response or with a failed request; any other response is
/// handed back.
pub proof fn lemma_retried_statuses(max_retries: usize, attempt: usize, s: u16, transient: bool)
    ensures
        (s == 429 || s == 500 || s == 502 || s == 503 || s == 504 || (520 <= s && s <= 527))
            && attempt < max_retries ==> retry_action_spec(max_retries, attempt, AttemptOutcome::Response(s))
            == RetryAction::Retry && retry_action_spec(
            max_retries,
            attempt,
            AttemptOutcome::Failure { transient, status: Some(s) },
        ) == RetryAction::Retry,
        !(s == 429 || s == 500 || s == 502 || s == 503 || s == 504 || (520 <= s && s <= 527))
            ==> retry_action_spec(max_retries, attempt, AttemptOutcome::Response(s))
            == RetryAction::ReturnResponse,
{
}

/// Decides what follows an attempt of a request.
pub fn retry_action(max_retries: usize, attempt: usize, outcome: &AttemptOutcome) -> (a: RetryAction)
    ensures
        a == retry_action_spec(max_retries, attempt, *outcome),
{
    match outcome {
        AttemptOutcome::Response(s) => {
            if is_retryable_status(*s) && attempt < max_retries {
                RetryAction::Retry
            } else {
                RetryAction::ReturnResponse
            }
        },
        AttemptOutcome::Failure { transient, status } => {
            let should = *transient || match status {
                Some(s) => is_retryable_status(*s),
                None => false,
            };
            if should && attempt < max_retries {
                RetryAction::Retry
            } else {
                RetryAction::ReturnError
            }
        },
    }
}

/// A request is tried at most `max_retries + 1` times: no attempt from number
/// `max_retries` on is followed by another.
pub proof fn lemma_retries_bounded(max_retries: usize, attempt: usize, outcome: AttemptOutcome)
    requires
        attempt >= max_retries,
    ensures
        retry_action_spec(max_retries, attempt, outcome) != RetryAction::Retry,
{
}

} // verus!
