//! Frame-limiter profiling: per-frame timing capture and skew computation.
//!
//! The recorder turns two monotonic clock samples per frame into one timing
//! row (target frame duration, work, expected sleep, actual sleep, skew) and
//! encodes rows as comma-separated millisecond values for an append-oriented
//! sink. The caller supplies the clock samples and owns the sink.

pub mod codec;
pub mod recorder;
pub mod timing;

pub use codec::encode_row;
pub use codec::header_row;
pub use recorder::FrameBoundarySample;
pub use recorder::FrameLimiterProfiler;
pub use recorder::ProfilerError;
pub use timing::expected_sleep_us;
pub use timing::skew_us;
pub use timing::target_frame_duration_us;
pub use timing::FrameTimingRow;
