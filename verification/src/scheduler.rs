//! The scheduler's one decision: how long to wait before the next run.
//! A failed run is retried after a fixed short interval instead of the
//! full one, for fast recovery from transient problems.

use vstd::prelude::*;
use crate::pipeline::RunOutcome;

verus! {

/// The short wait before retrying a failed run, in seconds.
pub const RETRY_INTERVAL_SECS: u64 = 60;

/// How long to wait after a run: the short retry interval when the run
/// failed, the full interval when it succeeded.
pub fn next_wait_secs(outcome: RunOutcome, interval_secs: u64, retry_interval_secs: u64) -> (r:
    u64)
    ensures
        r == (match outcome {
            RunOutcome::Failed(_) => retry_interval_secs,
            RunOutcome::Succeeded => interval_secs,
        }),
{
    match outcome {
        RunOutcome::Failed(_) => retry_interval_secs,
        RunOutcome::Succeeded => interval_secs,
    }
}

} // verus!
