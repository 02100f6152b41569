//! Decisions of the stage scheduler.
//!
//! A stage dispatches batches of `rate` concurrent actions every `interval`
//! for `during`.  The asynchronous loop that spawns the tasks and sleeps
//! lives outside the library; the decisions it takes each round — whether
//! another batch is due, when the next period starts and how long to sleep —
//! are the pure functions of this module.

use vstd::prelude::*;

verus! {

/// Loop guard of a load stage: a new batch is dispatched while the elapsed
/// time since the stage started is strictly below the stage duration.
pub fn load_stage_continues(elapsed_ms: u64, during_ms: u64) -> (r: bool)
    ensures
        r == (elapsed_ms < during_ms),
{
    elapsed_ms < during_ms
}

/// Loop guard of a warm-up stage: unlike a load stage, the boundary instant
/// `elapsed == during` still dispatches one more batch.
pub fn warm_up_stage_continues(elapsed_ms: u64, during_ms: u64) -> (r: bool)
    ensures
        r == (elapsed_ms <= during_ms),
{
    elapsed_ms <= during_ms
}

/// Next wall-clock target of the batch loop, and how long to sleep for it.
///
/// The target advances by `interval_ms` from the previous target, not from
/// `now_ms`, so small action overruns do not lower the aggregate rate.  If
/// the addition overflows, the target falls back to the stage start.  A
/// target already in the past yields a zero sleep: the next batch starts at
/// once.
pub fn next_period(stage_start_ms: u64, next_period_ms: u64, interval_ms: u64, now_ms: u64) -> (r: (
    u64,
    u64,
))
    ensures
        r.0 == if next_period_ms + interval_ms <= u64::MAX {
            next_period_ms + interval_ms
        } else {
            stage_start_ms as int
        },
        r.1 == if r.0 > now_ms {
            r.0 - now_ms
        } else {
            0int
        },
{
    let target: u64 = match next_period_ms.checked_add(interval_ms) {
        Some(t) => t,
        None => stage_start_ms,
    };
    let sleep: u64 = if target > now_ms {
        target - now_ms
    } else {
        0
    };
    (target, sleep)
}

} // verus!
