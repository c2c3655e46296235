//! The arithmetic that paces the dispatch loop and the render loop.
//!
//! All times are in microseconds.

use vstd::prelude::*;

verus! {

/// The number of microseconds in one second.
pub const MICROS_PER_SECOND: u32 = 1_000_000;

/// The time that has passed between `start` and `now`; nothing where the
/// clock reads earlier than `start`.
pub open spec fn elapsed(start: u128, now: u128) -> u128 {
    if now >= start {
        (now - start) as u128
    } else {
        0
    }
}

/// The time left until `due`, seen `elapsed` after the start; nothing once
/// the due time has come.
pub open spec fn due_in(due: u128, elapsed: u128) -> u128 {
    if elapsed < due {
        (due - elapsed) as u128
    } else {
        0
    }
}

/// The nominal time between two frames at `frame_rate` frames per second.
pub open spec fn frame_period(frame_rate: u32) -> u32
    recommends
        frame_rate > 0,
{
    MICROS_PER_SECOND / frame_rate
}

/// The time a render loop waits before a frame: what is left of
/// `frame_delay` when `since_last_frame` has passed already.
pub open spec fn frame_wait(frame_delay: u32, since_last_frame: u128) -> u128 {
    if frame_delay > since_last_frame {
        (frame_delay - since_last_frame) as u128
    } else {
        0
    }
}

/// Computes [`elapsed`].
pub fn elapsed_since(start: u128, now: u128) -> (passed: u128)
    ensures
        passed == elapsed(start, now),
{
    if now >= start {
        now - start
    } else {
        0
    }
}

/// Computes [`due_in`].
pub fn time_until_due(due: u128, elapsed: u128) -> (left: u128)
    ensures
        left == due_in(due, elapsed),
{
    if elapsed < due {
        due - elapsed
    } else {
        0
    }
}

/// Computes [`frame_period`].
pub fn frame_delay(frame_rate: u32) -> (delay: u32)
    requires
        frame_rate > 0,
    ensures
        delay == frame_period(frame_rate),
{
    MICROS_PER_SECOND / frame_rate
}

/// Computes [`frame_wait`].
pub fn frame_sleep(frame_delay: u32, since_last_frame: u128) -> (wait: u128)
    ensures
        wait == frame_wait(frame_delay, since_last_frame),
{
    let delay: u128 = frame_delay as u128;
    if delay > since_last_frame {
        delay - since_last_frame
    } else {
        0
    }
}

/// No wait ends before the due time, and none is longer than needed: the
/// wait is zero exactly when the due time has come, and else ends on it.
pub proof fn lemma_wait_ends_on_due_time(due: u128, elapsed: u128)
    ensures
        elapsed + due_in(due, elapsed) >= due,
        elapsed < due ==> elapsed + due_in(due, elapsed) == due,
        due_in(due, elapsed) == 0 <==> elapsed >= due,
        due_in(due, elapsed) <= due,
{
}

/// Asked after the start and before the due time, the wait lies strictly
/// between zero and the due time.
pub proof fn lemma_wait_within_interval(due: u128, elapsed: u128)
    requires
        0 < elapsed < due,
    ensures
        0 < due_in(due, elapsed) < due,
        due_in(due, elapsed) == due - elapsed,
{
}

/// A frame never starts sooner than one frame period after the clock
/// reading of the last frame.
pub proof fn lemma_frame_wait_fills_period(frame_delay: u32, since_last_frame: u128)
    ensures
        since_last_frame + frame_wait(frame_delay, since_last_frame) >= frame_delay,
        frame_wait(frame_delay, since_last_frame) <= frame_delay,
{
}

} // verus!
