//! Peak detection configuration: which estimator each sample rate uses.

use vstd::prelude::*;

use crate::error::LimiterError;

pub mod collect;
pub mod fir;

pub use collect::{
    collect_sample_peaks, collect_sample_peaks_from_interleaved, collect_sample_peaks_from_planar,
    reduce_upsampled_peaks,
};
pub use fir::{calc_bs1770_interior_bounds, calc_pre_upsample_interior_bounds, source_frame_at_tap};

verus! {

/// How many phases of the BS.1770-5 interpolator are evaluated per frame.
#[derive(Clone, Copy, Debug, PartialEq, Eq, Structural)]
pub enum InterpolationFactor {
    /// Phases 0 and 2: the samples at the original positions and halfway between.
    Two,
    /// All four phases.
    Four,
}

/// The peak estimator used for one sample rate.
#[derive(Clone, Copy, Debug, PartialEq, Eq, Structural)]
pub enum PeakStrategy {
    /// The sample peak alone: the sample rate is high enough that the
    /// interpolated peak adds nothing.
    SamplePeak,
    /// The BS.1770-5 polyphase interpolator applied to the signal as it is.
    Interpolated(InterpolationFactor),
    /// The signal is first upsampled by `factor`, then interpolated.
    PreUpsampled { factor: usize, interpolation: InterpolationFactor },
}

/// The true-peak estimator for each supported sample rate; `None` for a rate
/// that true-peak estimation does not support.
pub open spec fn true_peak_strategy(sample_rate: u32) -> Option<PeakStrategy> {
    if sample_rate == 8_000 {
        Some(PeakStrategy::PreUpsampled { factor: 6, interpolation: InterpolationFactor::Four })
    } else if sample_rate == 11_025 || sample_rate == 12_000 {
        Some(PeakStrategy::PreUpsampled { factor: 4, interpolation: InterpolationFactor::Four })
    } else if sample_rate == 16_000 {
        Some(PeakStrategy::PreUpsampled { factor: 3, interpolation: InterpolationFactor::Four })
    } else if sample_rate == 22_050 || sample_rate == 24_000 {
        Some(PeakStrategy::PreUpsampled { factor: 2, interpolation: InterpolationFactor::Four })
    } else if sample_rate == 32_000 {
        Some(PeakStrategy::PreUpsampled { factor: 3, interpolation: InterpolationFactor::Two })
    } else if sample_rate == 44_100 || sample_rate == 48_000 {
        Some(PeakStrategy::Interpolated(InterpolationFactor::Four))
    } else if sample_rate == 88_200 || sample_rate == 96_000 {
        Some(PeakStrategy::Interpolated(InterpolationFactor::Two))
    } else if sample_rate >= 176_400 {
        Some(PeakStrategy::SamplePeak)
    } else {
        None
    }
}

/// The sample rates that true-peak estimation supports: 8, 11.025, 12, 16,
/// 22.05, 24, 32, 44.1, 48, 88.2 and 96 kHz, and every rate from 176.4 kHz up.
pub open spec fn is_true_peak_sample_rate(sample_rate: u32) -> bool {
    ||| sample_rate == 8_000
    ||| sample_rate == 11_025
    ||| sample_rate == 12_000
    ||| sample_rate == 16_000
    ||| sample_rate == 22_050
    ||| sample_rate == 24_000
    ||| sample_rate == 32_000
    ||| sample_rate == 44_100
    ||| sample_rate == 48_000
    ||| sample_rate == 88_200
    ||| sample_rate == 96_000
    ||| sample_rate >= 176_400
}

/// The estimator table, rate by rate: pre-upsampling below 44.1 kHz, the
/// interpolator alone at 44.1 to 96 kHz, the sample peak at every rate from
/// 176.4 kHz up, and no estimator for any other rate.
pub proof fn lemma_true_peak_strategy_table(sample_rate: u32)
    ensures
        sample_rate == 8_000 ==> true_peak_strategy(sample_rate) == Some(
            PeakStrategy::PreUpsampled { factor: 6, interpolation: InterpolationFactor::Four },
        ),
        sample_rate == 11_025 || sample_rate == 12_000 ==> true_peak_strategy(sample_rate) == Some(
            PeakStrategy::PreUpsampled { factor: 4, interpolation: InterpolationFactor::Four },
        ),
        sample_rate == 16_000 ==> true_peak_strategy(sample_rate) == Some(
            PeakStrategy::PreUpsampled { factor: 3, interpolation: InterpolationFactor::Four },
        ),
        sample_rate == 22_050 || sample_rate == 24_000 ==> true_peak_strategy(sample_rate) == Some(
            PeakStrategy::PreUpsampled { factor: 2, interpolation: InterpolationFactor::Four },
        ),
        sample_rate == 32_000 ==> true_peak_strategy(sample_rate) == Some(
            PeakStrategy::PreUpsampled { factor: 3, interpolation: InterpolationFactor::Two },
        ),
        sample_rate == 44_100 || sample_rate == 48_000 ==> true_peak_strategy(sample_rate) == Some(
            PeakStrategy::Interpolated(InterpolationFactor::Four),
        ),
        sample_rate == 88_200 || sample_rate == 96_000 ==> true_peak_strategy(sample_rate) == Some(
            PeakStrategy::Interpolated(InterpolationFactor::Two),
        ),
        sample_rate >= 176_400 ==> true_peak_strategy(sample_rate) == Some(PeakStrategy::SamplePeak),
        true_peak_strategy(sample_rate) is Some <==> is_true_peak_sample_rate(sample_rate),
{
}

/// Chooses the true-peak estimator for `sample_rate`.
pub fn true_peak_config(sample_rate: u32) -> (strategy: Option<PeakStrategy>)
    ensures
        strategy == true_peak_strategy(sample_rate),
        strategy is Some <==> is_true_peak_sample_rate(sample_rate),
        sample_rate == 8_000 ==> strategy == Some(
            PeakStrategy::PreUpsampled { factor: 6, interpolation: InterpolationFactor::Four },
        ),
        sample_rate == 11_025 || sample_rate == 12_000 ==> strategy == Some(
            PeakStrategy::PreUpsampled { factor: 4, interpolation: InterpolationFactor::Four },
        ),
        sample_rate == 16_000 ==> strategy == Some(
            PeakStrategy::PreUpsampled { factor: 3, interpolation: InterpolationFactor::Four },
        ),
        sample_rate == 22_050 || sample_rate == 24_000 ==> strategy == Some(
            PeakStrategy::PreUpsampled { factor: 2, interpolation: InterpolationFactor::Four },
        ),
        sample_rate == 32_000 ==> strategy == Some(
            PeakStrategy::PreUpsampled { factor: 3, interpolation: InterpolationFactor::Two },
        ),
        sample_rate == 44_100 || sample_rate == 48_000 ==> strategy == Some(
            PeakStrategy::Interpolated(InterpolationFactor::Four),
        ),
        sample_rate == 88_200 || sample_rate == 96_000 ==> strategy == Some(
            PeakStrategy::Interpolated(InterpolationFactor::Two),
        ),
        sample_rate >= 176_400 ==> strategy == Some(PeakStrategy::SamplePeak),
        strategy matches Some(PeakStrategy::PreUpsampled { factor, .. }) ==> (factor == 2 || factor
            == 3 || factor == 4 || factor == 6),
{
    match sample_rate {
        8_000 => Some(
            PeakStrategy::PreUpsampled { factor: 6, interpolation: InterpolationFactor::Four },
        ),
        11_025 | 12_000 => Some(
            PeakStrategy::PreUpsampled { factor: 4, interpolation: InterpolationFactor::Four },
        ),
        16_000 => Some(
            PeakStrategy::PreUpsampled { factor: 3, interpolation: InterpolationFactor::Four },
        ),
        22_050 | 24_000 => Some(
            PeakStrategy::PreUpsampled { factor: 2, interpolation: InterpolationFactor::Four },
        ),
        32_000 => Some(
            PeakStrategy::PreUpsampled { factor: 3, interpolation: InterpolationFactor::Two },
        ),
        44_100 | 48_000 => Some(PeakStrategy::Interpolated(InterpolationFactor::Four)),
        88_200 | 96_000 => Some(PeakStrategy::Interpolated(InterpolationFactor::Two)),
        _ => {
            if sample_rate >= 176_400 {
                Some(PeakStrategy::SamplePeak)
            } else {
                None
            }
        },
    }
}

/// Whether true-peak estimation supports `sample_rate`.
pub fn supports_true_peak_sample_rate(sample_rate: u32) -> (supported: bool)
    ensures
        supported == is_true_peak_sample_rate(sample_rate),
        supported == true_peak_strategy(sample_rate) is Some,
{
    true_peak_config(sample_rate).is_some()
}

impl PeakStrategy {
    /// The estimator for `sample_rate`: the sample peak unless `true_peak` is
    /// set, the true-peak estimator otherwise.
    pub fn new(sample_rate: u32, true_peak: bool) -> (result: Result<Self, LimiterError>)
        ensures
            !true_peak ==> result == Ok::<PeakStrategy, LimiterError>(PeakStrategy::SamplePeak),
            true_peak ==> result == spec_true_peak_result(sample_rate),
            true_peak ==> (result is Ok <==> is_true_peak_sample_rate(sample_rate)),
            true_peak && sample_rate >= 176_400 ==> result == Ok::<PeakStrategy, LimiterError>(
                PeakStrategy::SamplePeak,
            ),
            true_peak && !is_true_peak_sample_rate(sample_rate) ==> result == Err::<PeakStrategy, LimiterError>(
                LimiterError::UnsupportedTruePeakSampleRate(sample_rate),
            ),
    {
        if true_peak {
            Self::try_from_sample_rate_for_true_peak(sample_rate)
        } else {
            Ok(PeakStrategy::SamplePeak)
        }
    }

    /// The true-peak estimator for `sample_rate`, or the error that names an
    /// unsupported rate.
    pub fn try_from_sample_rate_for_true_peak(sample_rate: u32) -> (result: Result<Self, LimiterError>)
        ensures
            result == spec_true_peak_result(sample_rate),
            result is Ok <==> is_true_peak_sample_rate(sample_rate),
            sample_rate >= 176_400 ==> result == Ok::<PeakStrategy, LimiterError>(PeakStrategy::SamplePeak),
            !is_true_peak_sample_rate(sample_rate) ==> result == Err::<PeakStrategy, LimiterError>(
                LimiterError::UnsupportedTruePeakSampleRate(sample_rate),
            ),
    {
        match true_peak_config(sample_rate) {
            Some(strategy) => Ok(strategy),
            None => Err(LimiterError::UnsupportedTruePeakSampleRate(sample_rate)),
        }
    }
}

/// The true-peak estimator for `sample_rate` as a result.
pub open spec fn spec_true_peak_result(sample_rate: u32) -> Result<PeakStrategy, LimiterError> {
    match true_peak_strategy(sample_rate) {
        Some(strategy) => Ok(strategy),
        None => Err(LimiterError::UnsupportedTruePeakSampleRate(sample_rate)),
    }
}

} // verus!
