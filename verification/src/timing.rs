//! Per-frame duration arithmetic, in microseconds.

use vstd::prelude::*;

verus! {

pub const MICROS_PER_SECOND: u64 = 1_000_000;

/// Target frame duration in microseconds for a frame rate, by integer
/// division of one second by the rate.
pub fn target_frame_duration_us(fps: u32) -> (r: u64)
    requires
        fps > 0,
    ensures
        r == 1_000_000 as nat / fps as nat,
{
    MICROS_PER_SECOND / (fps as u64)
}

/// Expected sleep: the budget left after work, saturating at zero.
pub fn expected_sleep_us(target_us: u64, work_us: u64) -> (r: u64)
    ensures
        work_us <= target_us ==> r == target_us - work_us,
        work_us > target_us ==> r == 0,
{
    if work_us <= target_us {
        target_us - work_us
    } else {
        0
    }
}

/// Skew: actual sleep minus expected sleep, signed.
pub fn skew_us(actual_us: u64, expected_us: u64) -> (r: i128)
    ensures
        r == actual_us as int - expected_us as int,
{
    (actual_us as i128) - (expected_us as i128)
}

/// One frame's derived timings, all in microseconds. Produced once per
/// frame, handed to the sink, never retained.
#[derive(Clone, Copy, Debug, PartialEq, Eq, Structural)]
pub struct FrameTimingRow {
    /// The target frame duration in force when the row was computed.
    pub frame_duration_us: u64,
    /// Time the loop spent working before it began to sleep.
    pub work_us: u64,
    /// Budget left after work, saturating at zero.
    pub expected_sleep_us: u64,
    /// Measured time actually spent sleeping.
    pub actual_sleep_us: u64,
    /// Actual sleep minus expected sleep, signed.
    pub skew_us: i128,
}

impl FrameTimingRow {
    /// The defining relations among a row's fields: expected sleep is the
    /// saturating remainder of the budget, and skew is the signed
    /// difference between actual and expected sleep.
    pub open spec fn wf(&self) -> bool {
        &&& (if self.work_us <= self.frame_duration_us {
            self.expected_sleep_us == self.frame_duration_us - self.work_us
        } else {
            self.expected_sleep_us == 0
        })
        &&& self.skew_us == self.actual_sleep_us as int - self.expected_sleep_us as int
    }
}

} // verus!
