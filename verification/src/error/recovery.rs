//! Recovery strategies: which errors are worth retrying, and after how long.
use vstd::prelude::*;
use vstd::arithmetic::power2::{pow2, lemma2_to64, lemma_pow2_strictly_increases};

use crate::error::AppError;

verus! {

/// Errors that a client may retry: an unavailable service or a timeout.
pub open spec fn retryable(error: AppError) -> bool {
    error is ServiceUnavailable || error is Timeout
}

/// Recommended delay in seconds before retry number `attempt`:
/// exponential backoff (1, 2, 4, 8, 16 ...) capped at 30.
pub open spec fn backoff(attempt: nat) -> nat {
    if pow2(attempt) < 30 {
        pow2(attempt)
    } else {
        30
    }
}

/// Whether an error is retryable.
pub fn is_retryable(error: &AppError) -> (r: bool)
    ensures
        r == retryable(*error),
{
    match error {
        AppError::ServiceUnavailable(_) | AppError::Timeout(_) => true,
        _ => false,
    }
}

/// Recommended retry delay in seconds (`min(2^attempt, 30)`), for every
/// attempt: the cap is reached from the fifth retry on.
pub fn retry_delay(attempt: u32) -> (r: u64)
    ensures
        r == backoff(attempt as nat),
{
    proof {
        lemma2_to64();
        if attempt >= 5 {
            if attempt > 5 {
                lemma_pow2_strictly_increases(5, attempt as nat);
            }
        }
    }
    if attempt == 0 {
        1
    } else if attempt == 1 {
        2
    } else if attempt == 2 {
        4
    } else if attempt == 3 {
        8
    } else if attempt == 4 {
        16
    } else {
        30
    }
}

/// Retry delays never exceed the cap and never shrink from one attempt to
/// the next.
pub proof fn lemma_backoff_bounded_monotone(a: nat, b: nat)
    requires
        a <= b,
    ensures
        1 <= backoff(a) <= 30,
        backoff(a) <= backoff(b),
{
    lemma2_to64();
    if a < b {
        lemma_pow2_strictly_increases(a, b);
    }
    if a > 0 {
        lemma_pow2_strictly_increases(0, a);
    }
}

/// Exactly the errors answered with 503 or 408 are retryable.
pub proof fn lemma_retryable_iff_status(error: AppError)
    ensures
        retryable(error) <==> (error.status() == 503 || error.status() == 408),
{
}

} // verus!
