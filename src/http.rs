use vstd::prelude::*;

verus! {

/// How many times a request is sent at most.
pub const REQUEST_ATTEMPTS: u32 = 3;

/// Seconds to wait before sending a timed-out request again.
pub const RETRY_DELAY_SECS: u64 = 1;

/// How one attempt at a request ended.
#[derive(Clone, Copy, Debug, PartialEq, Eq, Structural)]
pub enum Attempt {
    Responded,
    TimedOut,
    Failed,
}

/// What to do after an attempt.
#[derive(Clone, Copy, Debug, PartialEq, Eq, Structural)]
pub enum RetryStep {
    /// Hand the response to the caller.
    Deliver,
    /// Wait, then send the request again; `remaining` attempts are left after it.
    Retry { remaining: u32, delay_secs: u64 },
    /// Hand the error to the caller.
    GiveUp,
}

/// The decision after an attempt that had `remaining` more attempts behind it:
/// only a timeout is retried, and only while attempts are left.
pub open spec fn spec_after_attempt(remaining: u32, outcome: Attempt) -> RetryStep {
    match outcome {
        Attempt::Responded => RetryStep::Deliver,
        Attempt::TimedOut => if remaining > 0 {
            RetryStep::Retry { remaining: (remaining - 1) as u32, delay_secs: RETRY_DELAY_SECS }
        } else {
            RetryStep::GiveUp
        },
        Attempt::Failed => RetryStep::GiveUp,
    }
}

/// Decides what follows an attempt; the first attempt has
/// `REQUEST_ATTEMPTS - 1` attempts behind it.
pub fn after_attempt(remaining: u32, outcome: Attempt) -> (r: RetryStep)
    ensures
        r == spec_after_attempt(remaining, outcome),
{
    match outcome {
        Attempt::Responded => RetryStep::Deliver,
        Attempt::TimedOut => if remaining > 0 {
            RetryStep::Retry { remaining: remaining - 1, delay_secs: RETRY_DELAY_SECS }
        } else {
            RetryStep::GiveUp
        },
        Attempt::Failed => RetryStep::GiveUp,
    }
}

/// A retry always leaves fewer attempts than before, so a request is sent
/// at most `remaining + 1` times.
pub proof fn lemma_retries_run_out(remaining: u32, outcome: Attempt)
    ensures
        spec_after_attempt(remaining, outcome) matches RetryStep::Retry { remaining: left, .. }
            ==> left < remaining,
{
}

} // verus!
