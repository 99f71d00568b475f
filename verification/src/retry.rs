//! Bounded retry with exponential backoff, decided per request: only
//! transient failures are retried, a bounded number of times, with a
//! delay that doubles after each retry.

use vstd::prelude::*;

verus! {

/// The delay before the retry that follows `attempt` prior retries: the
/// base interval doubled once per retry already made, saturating at the
/// largest representable delay.
pub open spec fn spec_backoff(base_millis: nat, attempt: nat) -> nat
    decreases attempt,
{
    if attempt == 0 {
        base_millis
    } else {
        let prior = spec_backoff(base_millis, (attempt - 1) as nat);
        if 2 * prior > u64::MAX {
            u64::MAX as nat
        } else {
            2 * prior
        }
    }
}

/// The backoff delay in milliseconds after `attempt` prior retries.
pub fn backoff_delay_millis(base_millis: u64, attempt: u32) -> (r: u64)
    ensures
        r == spec_backoff(base_millis as nat, attempt as nat),
{
    let mut delay = base_millis;
    let mut k: u32 = 0;
    while k < attempt
        invariant
            k <= attempt,
            delay == spec_backoff(base_millis as nat, k as nat),
        decreases attempt - k,
    {
        if delay > u64::MAX / 2 {
            delay = u64::MAX;
        } else {
            delay = 2 * delay;
        }
        k += 1;
    }
    delay
}

/// How the remote side disposed of one request, as the engine classifies
/// it.
#[derive(Debug, Clone, Copy, PartialEq, Eq, Structural)]
pub enum AttemptOutcome {
    /// The request was accepted.
    Accepted,
    /// The request was throttled: transient.
    Throttled,
    /// The transport failed: transient.
    TransportFailed,
    /// The remote side recomputed the checksum and rejected the request.
    ChecksumRejected,
    /// The identifier did not resolve.
    NotFound,
}

/// Bounds on retrying one request.
pub struct RetryPolicy {
    /// How many retries one request may consume.
    pub max_retries: u32,
    /// The delay before the first retry; it doubles with each further
    /// one.
    pub base_delay_millis: u64,
}

/// What to do with a request after one attempt.
#[derive(Debug, Clone, Copy, PartialEq, Eq, Structural)]
pub enum RetryDecision {
    /// The request succeeded; carry on with its result.
    Proceed,
    /// Try the same request again after this many milliseconds.
    RetryAfter { delay_millis: u64 },
    /// Give up: the failure is fatal, or the retries are exhausted.
    GiveUp,
}

/// Decide a request's fate after one attempt. Only throttling and
/// transport failures are retried — a checksum rejection or a missing
/// resource must never be masked by a retry — and only while the policy
/// leaves retries; each retry waits twice as long as the one before.
pub fn retry_decision(
    outcome: AttemptOutcome,
    retries_made: u32,
    policy: &RetryPolicy,
) -> (r: RetryDecision)
    ensures
        outcome == AttemptOutcome::Accepted ==> r == RetryDecision::Proceed,
        outcome == AttemptOutcome::ChecksumRejected || outcome == AttemptOutcome::NotFound
            ==> r == RetryDecision::GiveUp,
        outcome == AttemptOutcome::Throttled || outcome == AttemptOutcome::TransportFailed
            ==> (if retries_made < policy.max_retries {
            r matches RetryDecision::RetryAfter { delay_millis } && delay_millis == spec_backoff(
                policy.base_delay_millis as nat,
                retries_made as nat,
            )
        } else {
            r == RetryDecision::GiveUp
        }),
{
    match outcome {
        AttemptOutcome::Accepted => RetryDecision::Proceed,
        AttemptOutcome::ChecksumRejected => RetryDecision::GiveUp,
        AttemptOutcome::NotFound => RetryDecision::GiveUp,
        AttemptOutcome::Throttled | AttemptOutcome::TransportFailed => {
            if retries_made < policy.max_retries {
                RetryDecision::RetryAfter {
                    delay_millis: backoff_delay_millis(policy.base_delay_millis, retries_made),
                }
            } else {
                RetryDecision::GiveUp
            }
        },
    }
}

} // verus!
