//! Failure taxonomy of the external embedding provider, and the retry
//! policy applied to it.
//!
//! The provider call itself is network I/O and lives outside the
//! library; callers classify a failed call into an [`EmbeddingError`]
//! and ask this module whether, and after what delay, to try again.

use vstd::prelude::*;

verus! {

/// Why a call to the embedding provider failed.
#[derive(Clone, Copy, Debug, PartialEq, Eq, Structural)]
pub enum EmbeddingError {
    /// The provider turned the request away for rate reasons; the same
    /// request may succeed after a pause.
    RateLimited,
    /// The request never completed (network fault or timeout).
    Transport,
    /// The provider answered but returned no vector; retrying would
    /// return the same empty answer.
    EmptyResult,
    /// Authentication or quota failure; every further call would fail
    /// the same way, so the whole run must stop.
    AuthOrQuota,
}

impl EmbeddingError {
    /// Whether a failure of this kind may be retried at all.
    pub open spec fn spec_retryable(&self) -> bool {
        self is RateLimited || self is Transport
    }

    /// Rate-limit and transport failures are transient; an empty result
    /// or an authentication/quota failure is final.
    pub fn retryable(&self) -> (r: bool)
        ensures
            r == self.spec_retryable(),
    {
        match self {
            EmbeddingError::RateLimited => true,
            EmbeddingError::Transport => true,
            EmbeddingError::EmptyResult => false,
            EmbeddingError::AuthOrQuota => false,
        }
    }
}

/// Whether one more attempt is allowed after a failure: the failure must
/// be transient and the bounded attempt budget must not be used up.
pub fn should_retry(error: &EmbeddingError, attempts_made: u32, max_attempts: u32) -> (r: bool)
    ensures
        r == (error.spec_retryable() && attempts_made < max_attempts),
{
    error.retryable() && attempts_made < max_attempts
}

/// The delay before retry number `attempt` (counted from zero): the base
/// delay doubled `attempt` times, never above `cap_ms`.
pub open spec fn spec_backoff_delay_ms(attempt: u32, base_ms: u64, cap_ms: u64) -> u64
    decreases attempt,
{
    if attempt == 0 {
        if base_ms <= cap_ms {
            base_ms
        } else {
            cap_ms
        }
    } else {
        let prev = spec_backoff_delay_ms((attempt - 1) as u32, base_ms, cap_ms);
        if prev > cap_ms / 2 {
            cap_ms
        } else {
            (2 * prev) as u64
        }
    }
}

/// Bounded exponential backoff: doubles the base delay per attempt and
/// clamps the result at `cap_ms`.
pub fn backoff_delay_ms(attempt: u32, base_ms: u64, cap_ms: u64) -> (r: u64)
    ensures
        r == spec_backoff_delay_ms(attempt, base_ms, cap_ms),
        r <= cap_ms,
{
    let mut delay: u64 = if base_ms <= cap_ms {
        base_ms
    } else {
        cap_ms
    };
    let mut done: u32 = 0;
    while done < attempt
        invariant
            done <= attempt,
            delay == spec_backoff_delay_ms(done, base_ms, cap_ms),
            delay <= cap_ms,
        decreases attempt - done,
    {
        if delay > cap_ms / 2 {
            delay = cap_ms;
        } else {
            delay = 2 * delay;
        }
        done = done + 1;
    }
    delay
}

} // verus!
