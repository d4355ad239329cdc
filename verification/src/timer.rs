//! Countdowns and periodic clocks, driven by the engine's `Timer`.

use bevy::time::{Timer, TimerMode};
use std::time::Duration;
use vstd::prelude::*;

verus! {

/// Nanoseconds in one second.
pub const NANOS_PER_SECOND: u64 = 1_000_000_000;

/// What a clock that has run for `elapsed` of its `period` shows after
/// `delta` more nanoseconds: the time now on it, and whether it reached its
/// period. A repeating clock starts over with what went beyond the period; a
/// one-shot clock stops at its period.
pub open spec fn ticked(repeating: bool, period: u64, elapsed: u64, delta: u64) -> (int, bool) {
    let sum = elapsed + delta;
    if sum < period {
        (sum, false)
    } else if !repeating {
        (period as int, true)
    } else if period == 0 {
        (0, true)
    } else {
        (sum % (period as int), true)
    }
}

/// Makes a timer of the engine with `Timer::new`, of duration `period` and
/// repeating or not, sets its elapsed time to `elapsed` with
/// `Timer::set_elapsed`, runs `Timer::tick` on it with `delta`, and reads back
/// `Timer::elapsed` and `Timer::finished`. The contract restates the body of
/// `Timer::tick` for a timer that is not paused: the stopwatch adds `delta`;
/// the timer is finished when the sum has reached the duration; a finished
/// repeating timer keeps the remainder of the sum by the duration (nothing
/// for a zero duration), a finished one-shot timer shows its duration.
/// Nothing of this is proved here.
#[verifier::external_body]
pub(crate) fn timer_tick(repeating: bool, period: u64, elapsed: u64, delta: u64) -> (r: (u64, bool))
    ensures
        r.0 == ticked(repeating, period, elapsed, delta).0,
        r.1 == ticked(repeating, period, elapsed, delta).1,
{
    let mode = if repeating { TimerMode::Repeating } else { TimerMode::Once };
    let mut timer = Timer::new(Duration::from_nanos(period), mode);
    timer.set_elapsed(Duration::from_nanos(elapsed));
    timer.tick(Duration::from_nanos(delta));
    (timer.elapsed().as_nanos() as u64, timer.finished())
}

/// After a tick the clock never shows more than fits in 64 bits, and a
/// repeating clock with a positive period shows less than its period.
pub proof fn lemma_ticked_bounds(repeating: bool, period: u64, elapsed: u64, delta: u64)
    ensures
        0 <= ticked(repeating, period, elapsed, delta).0 <= u64::MAX,
        ticked(repeating, period, elapsed, delta).1 <==> elapsed + delta >= period,
        repeating && period > 0 ==> ticked(repeating, period, elapsed, delta).0 < period,
        !ticked(repeating, period, elapsed, delta).1 ==> ticked(repeating, period, elapsed, delta).0
            == elapsed + delta,
{
}

} // verus!
