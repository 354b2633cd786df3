//! When a cycle is due.
//!
//! Ticks lie on the minute boundaries of the wall clock: tick `m` is the
//! instant `60 * m` in epoch seconds. A job that rests at `now` waits for the
//! first tick after `now`, so ticks do not drift with the time a cycle takes.

use vstd::prelude::*;

verus! {

/// Seconds between two ticks.
pub const TICK_SECONDS: i64 = 60;

/// The minute in which the instant `now` lies.
pub open spec fn minute_of(now: int) -> int {
    now / (TICK_SECONDS as int)
}

/// Seconds from `now` to the first tick after it.
pub open spec fn seconds_to_next_tick(now: int) -> int {
    TICK_SECONDS - now % (TICK_SECONDS as int)
}

/// The first tick after any instant is at most a minute away, lies on a
/// minute boundary, and is the start of the minute after the one of `now`.
pub proof fn lemma_next_tick_aligned(now: int)
    ensures
        1 <= seconds_to_next_tick(now) <= 60,
        (now + seconds_to_next_tick(now)) % 60 == 0,
        now + seconds_to_next_tick(now) == 60 * (minute_of(now) + 1),
{
}

/// A tick is due from the instant it names on, and not before.
pub proof fn lemma_due_from_tick_on(next_minute: int, now: int)
    ensures
        next_minute <= minute_of(now) <==> 60 * next_minute <= now,
{
}

/// The minute in which `now`, in epoch seconds, lies.
pub fn minute_index(now: i64) -> (minute: i64)
    ensures
        minute == minute_of(now as int),
{
    let quotient: i64 = now / TICK_SECONDS;
    let rest: i64 = now % TICK_SECONDS;
    if rest < 0 {
        quotient - 1
    } else {
        quotient
    }
}

/// Seconds to wait at `now` for the next tick.
pub fn wait_seconds(now: i64) -> (seconds: u64)
    ensures
        seconds == seconds_to_next_tick(now as int),
        1 <= seconds <= 60,
{
    let rest: i64 = now % TICK_SECONDS;
    if rest < 0 {
        (-rest) as u64
    } else {
        (TICK_SECONDS - rest) as u64
    }
}

/// Whether the tick that starts minute `next_minute` has come at `now`.
pub fn is_due(next_minute: i64, now: i64) -> (due: bool)
    ensures
        due <==> 60 * next_minute <= now,
{
    next_minute <= minute_index(now)
}

} // verus!
