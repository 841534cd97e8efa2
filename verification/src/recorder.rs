//! The frame-timing recorder: two monotonic clock samples per frame in,
//! one timing row out.
//!
//! The caller owns the clock and the sink. It hands the recorder
//! timestamps as microseconds on one monotonic scale, calls
//! `mark_sleep_start` when its sleep phase begins and
//! `compute_and_store_frame_timings` when it ends, and appends the
//! returned row to its sink.

use vstd::prelude::*;

use crate::timing::expected_sleep_us;
use crate::timing::skew_us;
use crate::timing::target_frame_duration_us;
use crate::timing::FrameTimingRow;

verus! {

/// Why a recorder operation could not proceed.
#[derive(Clone, Copy, Debug, PartialEq, Eq, Structural)]
pub enum ProfilerError {
    /// The frame rate is zero: no finite positive frame duration exists.
    InvalidRate,
    /// The output sink could not be created or opened.
    SinkUnavailable,
    /// A per-frame write to the sink failed after initialization.
    SinkWriteFailed,
    /// Timings were requested with no pending sleep-start sample.
    NoPendingSample,
}

/// The two monotonic timestamps that bracket one frame's sleep phase.
#[derive(Clone, Copy, Debug, PartialEq, Eq, Structural)]
pub struct FrameBoundarySample {
    /// End of the previous frame: where this frame's work began.
    pub previous_frame_end_us: u64,
    /// End of this frame's work: where its intended sleep began.
    pub sleep_start_us: u64,
}

/// Converts two clock samples per frame into one timing row and lets the
/// target frame rate change between frames.
#[derive(Debug)]
pub struct FrameLimiterProfiler {
    frame_duration_us: u64,
    pending: Option<FrameBoundarySample>,
}

impl FrameLimiterProfiler {
    /// Target frame duration, microseconds.
    pub closed spec fn target_us(&self) -> u64 {
        self.frame_duration_us
    }

    /// The sample awaiting `compute_and_store_frame_timings`, if any.
    pub closed spec fn pending_sample(&self) -> Option<FrameBoundarySample> {
        self.pending
    }

    /// A pending sample never places the end of the previous frame after
    /// the start of this frame's sleep.
    pub open spec fn wf(&self) -> bool {
        self.pending_sample() matches Some(s) ==> s.previous_frame_end_us <= s.sleep_start_us
    }

    /// Creates a recorder for the given frame rate, with no pending
    /// sample; a rate of zero has no finite frame duration and is
    /// rejected.
    pub fn new(fps: u32) -> (r: Result<Self, ProfilerError>)
        ensures
            fps == 0 <==> r is Err,
            r is Err ==> r == Err::<Self, ProfilerError>(ProfilerError::InvalidRate),
            r matches Ok(p) ==> p.target_us() == 1_000_000 as nat / fps as nat
                && p.pending_sample() is None && p.wf(),
    {
        if fps == 0 {
            Err(ProfilerError::InvalidRate)
        } else {
            Ok(
                FrameLimiterProfiler {
                    frame_duration_us: target_frame_duration_us(fps),
                    pending: None,
                },
            )
        }
    }

    /// Recomputes the target frame duration from a new rate, effective
    /// for frames timed after the call; a rate of zero is rejected and
    /// leaves the recorder untouched.
    pub fn set_frame_duration(&mut self, fps: u32) -> (r: Result<(), ProfilerError>)
        ensures
            fps == 0 ==> r == Err::<(), ProfilerError>(ProfilerError::InvalidRate) && *final(self)
                == *old(self),
            fps > 0 ==> r == Ok::<(), ProfilerError>(()) && rate_set(*old(self), fps, *final(self)),
            old(self).wf() ==> final(self).wf(),
    {
        if fps == 0 {
            Err(ProfilerError::InvalidRate)
        } else {
            self.frame_duration_us = target_frame_duration_us(fps);
            Ok(())
        }
    }

    /// Records the boundary between work and intended sleep: the caller's
    /// bookkeeping timestamp for the previous frame's end, and the clock
    /// sample it took as sleep began. Overwrites any sample already
    /// pending.
    pub fn mark_sleep_start(&mut self, previous_frame_end_us: u64, sleep_start_us: u64)
        requires
            previous_frame_end_us <= sleep_start_us,
        ensures
            final(self).target_us() == old(self).target_us(),
            final(self).pending_sample() == Some(
                FrameBoundarySample { previous_frame_end_us, sleep_start_us },
            ),
            final(self).wf(),
    {
        self.pending = Some(FrameBoundarySample { previous_frame_end_us, sleep_start_us });
    }

    /// Consumes the pending sample and the caller's clock sample for the
    /// end of sleep, and derives one timing row: work, expected sleep
    /// (saturating), actual sleep, and skew. Fails with `NoPendingSample`
    /// when no `mark_sleep_start` call is pending, leaving the recorder
    /// untouched.
    ///
    /// Expected sleep saturates at zero, so a frame whose work alone
    /// exceeded the budget shows `expected_sleep_us == 0`.
    pub fn compute_and_store_frame_timings(&mut self, sleep_end_us: u64) -> (r: Result<
        FrameTimingRow,
        ProfilerError,
    >)
        requires
            old(self).wf(),
            old(self).pending_sample() matches Some(s) ==> s.sleep_start_us <= sleep_end_us,
        ensures
            final(self).target_us() == old(self).target_us(),
            final(self).wf(),
            old(self).pending_sample() is None ==> r == Err::<FrameTimingRow, ProfilerError>(
                ProfilerError::NoPendingSample,
            ) && *final(self) == *old(self),
            old(self).pending_sample() matches Some(s) ==> final(self).pending_sample() is None && (
            r matches Ok(row) && row.frame_duration_us == old(self).target_us() && row.work_us
                == s.sleep_start_us - s.previous_frame_end_us && row.actual_sleep_us == sleep_end_us
                - s.sleep_start_us && row.wf()),
    {
        match self.pending {
            None => Err(ProfilerError::NoPendingSample),
            Some(s) => {
                self.pending = None;
                let work_us: u64 = s.sleep_start_us - s.previous_frame_end_us;
                let expected_us: u64 = expected_sleep_us(self.frame_duration_us, work_us);
                let actual_us: u64 = sleep_end_us - s.sleep_start_us;
                Ok(
                    FrameTimingRow {
                        frame_duration_us: self.frame_duration_us,
                        work_us,
                        expected_sleep_us: expected_us,
                        actual_sleep_us: actual_us,
                        skew_us: skew_us(actual_us, expected_us),
                    },
                )
            },
        }
    }
}

/// The state transition of a successful rate change: the target frame
/// duration is recomputed from the rate by integer division of one second;
/// the pending sample is untouched.
pub open spec fn rate_set(pre: FrameLimiterProfiler, fps: u32, post: FrameLimiterProfiler) -> bool {
    &&& post.target_us() == 1_000_000 as nat / fps as nat
    &&& post.pending_sample() == pre.pending_sample()
}

/// Setting the same rate twice leaves the recorder exactly as setting it
/// once did: the second application changes nothing, so all subsequent
/// computations are identical.
pub proof fn lemma_set_rate_idempotent(
    p0: FrameLimiterProfiler,
    p1: FrameLimiterProfiler,
    p2: FrameLimiterProfiler,
    fps: u32,
)
    requires
        fps > 0,
        rate_set(p0, fps, p1),
        rate_set(p1, fps, p2),
    ensures
        p1 == p2,
{
}

} // verus!
