use vstd::prelude::*;

verus! {

/// Errors that the limiter's configuration and layout checks report.
#[derive(Clone, Copy, Debug, PartialEq, Eq, Structural)]
pub enum LimiterError {
    /// The sample rate is zero.
    InvalidSampleRate,
    /// True-peak estimation is requested at a sample rate it does not support.
    UnsupportedTruePeakSampleRate(u32),
    /// The attack time rounds to zero samples at this sample rate.
    AttackTooShort { sample_rate: u32 },
    /// The channel count is zero.
    InvalidChannelCount,
    /// The sample count is not a whole number of frames.
    InputNotFrameAligned { sample_count: usize, channels: usize },
}

} // verus!
