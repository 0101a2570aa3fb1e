//! Per-source request counters and the classification of failures.

use crate::text::{chars_of, has_sub, contains_chars, lowercase, to_lowercase};
use vstd::prelude::*;

verus! {

/// What a failed request is counted as, besides a failure.
#[derive(Debug, Clone, Copy, PartialEq, Eq, Structural)]
pub enum FailureKind {
    RateLimit,
    Cloudflare,
    Timeout,
    Other,
}

/// How an error message is classified: a rate limit where it holds "429" or
/// (in lowercase) "rate limit"; else a Cloudflare challenge where it holds
/// (in lowercase) "cloudflare", or "503" or "520"; else a timeout where it
/// holds (in lowercase) "timeout".
pub open spec fn failure_kind_spec(error: Seq<char>) -> FailureKind {
    let l = lowercase(error);
    if has_sub(error, "429"@) || has_sub(l, "rate limit"@) {
        FailureKind::RateLimit
    } else if has_sub(l, "cloudflare"@) || has_sub(error, "503"@) || has_sub(error, "520"@) {
        FailureKind::Cloudflare
    } else if has_sub(l, "timeout"@) {
        FailureKind::Timeout
    } else {
        FailureKind::Other
    }
}

fn holds(v: &Vec<char>, pat: &str) -> (b: bool)
    ensures
        b == has_sub(v@, pat@),
{
    let p = chars_of(pat);
    contains_chars(v, &p)
}

/// Classifies the error message of a failed request.
pub fn classify_failure(error: &str) -> (k: FailureKind)
    ensures
        k == failure_kind_spec(error@),
{
    let e = chars_of(error);
    let lower = to_lowercase(error);
    let l = chars_of(lower.as_str());
    if holds(&e, "429") || holds(&l, "rate limit") {
        FailureKind::RateLimit
    } else if holds(&l, "cloudflare") || holds(&e, "503") || holds(&e, "520") {
        FailureKind::Cloudflare
    } else if holds(&l, "timeout") {
        FailureKind::Timeout
    } else {
        FailureKind::Other
    }
}

/// The counters of one source's requests. Times are milliseconds since the
/// epoch, as the caller's clock gives them.
#[derive(Debug)]
pub struct RequestCounters {
    pub total_requests: u64,
    pub successful_requests: u64,
    pub failed_requests: u64,
    pub total_response_time_ms: u64,
    pub retry_count: u64,
    pub cloudflare_challenges: u64,
    pub rate_limit_hits: u64,
    pub timeout_count: u64,
    pub last_success: Option<i64>,
    pub last_failure: Option<i64>,
    pub last_error: Option<String>,
}

/// Every request is a success or a failure, and the classified failures are
/// among the failures.
pub open spec fn counters_consistent(c: RequestCounters) -> bool {
    &&& c.total_requests == c.successful_requests + c.failed_requests
    &&& c.rate_limit_hits + c.cloudflare_challenges + c.timeout_count <= c.failed_requests
}

impl RequestCounters {
    /// Counters with nothing recorded.
    pub fn new() -> (c: RequestCounters)
        ensures
            c.total_requests == 0,
            c.successful_requests == 0,
            c.failed_requests == 0,
            c.total_response_time_ms == 0,
            c.retry_count == 0,
            c.cloudflare_challenges == 0,
            c.rate_limit_hits == 0,
            c.timeout_count == 0,
            c.last_success is None,
            c.last_failure is None,
            c.last_error is None,
            counters_consistent(c),
    {
        RequestCounters {
            total_requests: 0,
            successful_requests: 0,
            failed_requests: 0,
            total_response_time_ms: 0,
            retry_count: 0,
            cloudflare_challenges: 0,
            rate_limit_hits: 0,
            timeout_count: 0,
            last_success: None,
            last_failure: None,
            last_error: None,
        }
    }

    /// Records a successful request that took `response_ms` milliseconds and
    /// ended at `now`.
    pub fn record_success(&mut self, response_ms: u64, now: i64)
        requires
            old(self).total_requests < u64::MAX,
            old(self).successful_requests < u64::MAX,
            old(self).total_response_time_ms + response_ms <= u64::MAX,
        ensures
            final(self).total_requests == old(self).total_requests + 1,
            final(self).successful_requests == old(self).successful_requests + 1,
            final(self).total_response_time_ms == old(self).total_response_time_ms + response_ms,
            final(self).last_success == Some(now),
            final(self).failed_requests == old(self).failed_requests,
            final(self).retry_count == old(self).retry_count,
            final(self).cloudflare_challenges == old(self).cloudflare_challenges,
            final(self).rate_limit_hits == old(self).rate_limit_hits,
            final(self).timeout_count == old(self).timeout_count,
            final(self).last_failure == old(self).last_failure,
            final(self).last_error == old(self).last_error,
            counters_consistent(*old(self)) ==> counters_consistent(*final(self)),
    {
        self.total_requests = self.total_requests + 1;
        self.successful_requests = self.successful_requests + 1;
        self.last_success = Some(now);
        self.total_response_time_ms = self.total_response_time_ms + response_ms;
    }

    /// Records a failed request with its error message, ended at `now`: one
    /// more failure, and one more of the kind the message is classified as.
    pub fn record_failure(&mut self, error: &str, now: i64)
        requires
            old(self).total_requests < u64::MAX,
            old(self).failed_requests < u64::MAX,
            old(self).rate_limit_hits < u64::MAX,
            old(self).cloudflare_challenges < u64::MAX,
            old(self).timeout_count < u64::MAX,
        ensures
            final(self).total_requests == old(self).total_requests + 1,
            final(self).failed_requests == old(self).failed_requests + 1,
            final(self).successful_requests == old(self).successful_requests,
            final(self).last_failure == Some(now),
            match final(self).last_error {
                Some(e) => e@ == error@,
                None => false,
            },
            final(self).rate_limit_hits == old(self).rate_limit_hits + (if failure_kind_spec(error@)
                == FailureKind::RateLimit {
                1int
            } else {
                0int
            }),
            final(self).cloudflare_challenges == old(self).cloudflare_challenges + (
            if failure_kind_spec(error@) == FailureKind::Cloudflare {
                1int
            } else {
                0int
            }),
            final(self).timeout_count == old(self).timeout_count + (if failure_kind_spec(error@)
                == FailureKind::Timeout {
                1int
            } else {
                0int
            }),
            final(self).total_response_time_ms == old(self).total_response_time_ms,
            final(self).retry_count == old(self).retry_count,
            final(self).last_success == old(self).last_success,
            counters_consistent(*old(self)) ==> counters_consistent(*final(self)),
    {
        self.total_requests = self.total_requests + 1;
        self.failed_requests = self.failed_requests + 1;
        self.last_failure = Some(now);
        self.last_error = Some(String::from_str(error));
        match classify_failure(error) {
            FailureKind::RateLimit => {
                self.rate_limit_hits = self.rate_limit_hits + 1;
            },
            FailureKind::Cloudflare => {
                self.cloudflare_challenges = self.cloudflare_challenges + 1;
            },
            FailureKind::Timeout => {
                self.timeout_count = self.timeout_count + 1;
            },
            FailureKind::Other => {},
        }
    }

    /// Records a retry.
    pub fn record_retry(&mut self)
        requires
            old(self).retry_count < u64::MAX,
        ensures
            final(self).retry_count == old(self).retry_count + 1,
            final(self).total_requests == old(self).total_requests,
            final(self).successful_requests == old(self).successful_requests,
            final(self).failed_requests == old(self).failed_requests,
            final(self).total_response_time_ms == old(self).total_response_time_ms,
            final(self).cloudflare_challenges == old(self).cloudflare_challenges,
            final(self).rate_limit_hits == old(self).rate_limit_hits,
            final(self).timeout_count == old(self).timeout_count,
            final(self).last_success == old(self).last_success,
            final(self).last_failure == old(self).last_failure,
            final(self).last_error == old(self).last_error,
    {
        self.retry_count = self.retry_count + 1;
    }
}

} // verus!
