//! Retrying with exponential backoff.
//!
//! The retrier does not run the operation itself. It is told how an
//! attempt ended and answers what is to happen next; the caller tries,
//! waits and tries again as it is told.

use vstd::arithmetic::power2::{
    lemma2_to64, lemma2_to64_rest, lemma_pow2_strictly_increases, lemma_pow2_unfold, pow2,
};
use vstd::prelude::*;

verus! {

/// The last attempt whose backoff delay fits the machine: 2^63 seconds.
pub const MAX_BACKOFF_EXPONENT: u32 = 63;

/// What follows an attempt.
#[derive(Debug)]
pub enum RetryStep<T, E> {
    /// The operation is over, with this result.
    Done(Result<T, E>),
    /// The attempt failed and another one is due: wait `delay_secs`
    /// seconds, then make the attempt with the number `attempt`.
    Retry { delay_secs: u64, attempt: u32 },
}

/// The seconds to wait after the failed attempt with the number `attempt`
/// (the first attempt has the number 0): two to the power of `attempt`.
pub fn backoff_delay(attempt: u32) -> (secs: u64)
    requires
        attempt <= MAX_BACKOFF_EXPONENT,
    ensures
        secs == pow2(attempt as nat),
{
    let mut secs: u64 = 1;
    let mut i: u32 = 0;
    proof {
        lemma2_to64();
    }
    while i < attempt
        invariant
            i <= attempt <= MAX_BACKOFF_EXPONENT,
            secs == pow2(i as nat),
        decreases attempt - i,
    {
        proof {
            lemma_pow2_unfold((i + 1) as nat);
            lemma2_to64_rest();
            if i + 1 < 63 {
                lemma_pow2_strictly_increases((i + 1) as nat, 63);
            }
        }
        secs = secs * 2;
        i = i + 1;
    }
    secs
}

/// What follows the attempt with the number `attempt` that ended in
/// `outcome`, when `max_retries` attempts may follow the first one.
pub open spec fn retry_step<T, E>(
    outcome: Result<T, E>,
    attempt: u32,
    max_retries: u32,
) -> RetryStep<T, E> {
    match outcome {
        Ok(value) => RetryStep::Done(Ok(value)),
        Err(error) => if attempt < max_retries {
            RetryStep::Retry {
                delay_secs: pow2(attempt as nat) as u64,
                attempt: (attempt + 1) as u32,
            }
        } else {
            RetryStep::Done(Err(error))
        },
    }
}

/// Decides what follows the attempt with the number `attempt`: a success
/// ends the operation, a failure is followed by another attempt after two
/// to the power of `attempt` seconds while fewer than `max_retries`
/// attempts have followed the first one, and ends the operation with the
/// failure after that.
pub fn retry_with_backoff<T, E>(outcome: Result<T, E>, attempt: u32, max_retries: u32) -> (step:
    RetryStep<T, E>)
    requires
        attempt < max_retries ==> attempt <= MAX_BACKOFF_EXPONENT,
    ensures
        step == retry_step(outcome, attempt, max_retries),
        step matches RetryStep::Retry { delay_secs, .. } ==> delay_secs == pow2(attempt as nat),
{
    match outcome {
        Ok(value) => RetryStep::Done(Ok(value)),
        Err(error) => {
            if attempt < max_retries {
                RetryStep::Retry { delay_secs: backoff_delay(attempt), attempt: attempt + 1 }
            } else {
                RetryStep::Done(Err(error))
            }
        },
    }
}

/// How an operation ends when it is retried as [`retry_step`] says: the
/// number of attempts made and the result, where `outcomes(k)` is how the
/// attempt with the number `k` ends.
pub open spec fn retried<T, E>(
    outcomes: spec_fn(u32) -> Result<T, E>,
    attempt: u32,
    max_retries: u32,
) -> (nat, Result<T, E>)
    decreases max_retries - attempt,
{
    match retry_step(outcomes(attempt), attempt, max_retries) {
        RetryStep::Done(result) => (attempt as nat + 1, result),
        RetryStep::Retry { attempt: next, .. } => retried(outcomes, next, max_retries),
    }
}

/// An operation that is retried is tried at most `max_retries + 1` times.
/// It ends with its first success; where every attempt fails, all of them
/// are made and it ends with the failure of the last one.
pub proof fn lemma_retried<T, E>(
    outcomes: spec_fn(u32) -> Result<T, E>,
    attempt: u32,
    max_retries: u32,
)
    requires
        attempt <= max_retries,
    ensures
        attempt < retried(outcomes, attempt, max_retries).0 <= max_retries + 1,
        retried(outcomes, attempt, max_retries).1 == outcomes(
            (retried(outcomes, attempt, max_retries).0 - 1) as u32,
        ),
        forall|k: u32|
            attempt <= k < retried(outcomes, attempt, max_retries).0 - 1 ==> (#[trigger] outcomes(
                k,
            )) is Err,
        retried(outcomes, attempt, max_retries).1 is Err ==> retried(
            outcomes,
            attempt,
            max_retries,
        ).0 == max_retries + 1,
    decreases max_retries - attempt,
{
    if outcomes(attempt) is Err && attempt < max_retries {
        lemma_retried(outcomes, (attempt + 1) as u32, max_retries);
    }
}

} // verus!
