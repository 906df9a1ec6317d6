//! The integer checks of a limiter configuration.

use vstd::prelude::*;

use crate::error::LimiterError;
use crate::peak::{is_true_peak_sample_rate, supports_true_peak_sample_rate};

verus! {

/// The outcome of [`check_sample_rate`].
pub open spec fn spec_check_sample_rate(sample_rate: u32, true_peak: bool) -> Result<(), LimiterError> {
    if sample_rate == 0 {
        Err(LimiterError::InvalidSampleRate)
    } else if true_peak && !is_true_peak_sample_rate(sample_rate) {
        Err(LimiterError::UnsupportedTruePeakSampleRate(sample_rate))
    } else {
        Ok(())
    }
}

/// Sample-peak mode accepts every positive sample rate; true-peak mode accepts
/// a positive rate exactly when true-peak estimation supports it, and names the
/// rate when it refuses it; a zero rate is refused in either mode.
pub proof fn lemma_sample_rate_acceptance(sample_rate: u32, true_peak: bool)
    ensures
        sample_rate > 0 && !true_peak ==> spec_check_sample_rate(sample_rate, true_peak) == Ok::<(), LimiterError>(()),
        sample_rate > 0 && true_peak ==> (spec_check_sample_rate(sample_rate, true_peak) is Ok
            <==> is_true_peak_sample_rate(sample_rate)),
        sample_rate > 0 && true_peak && !is_true_peak_sample_rate(sample_rate) ==> spec_check_sample_rate(
            sample_rate,
            true_peak,
        ) == Err::<(), LimiterError>(LimiterError::UnsupportedTruePeakSampleRate(sample_rate)),
        sample_rate == 0 ==> spec_check_sample_rate(sample_rate, true_peak) == Err::<(), LimiterError>(
            LimiterError::InvalidSampleRate,
        ),
{
}

/// Refuses a zero sample rate, and with `true_peak` a sample rate that
/// true-peak estimation does not support. Sample-peak mode accepts every
/// positive rate.
pub fn check_sample_rate(sample_rate: u32, true_peak: bool) -> (result: Result<(), LimiterError>)
    ensures
        result == spec_check_sample_rate(sample_rate, true_peak),
        sample_rate == 0 ==> result == Err::<(), LimiterError>(LimiterError::InvalidSampleRate),
        sample_rate > 0 && !true_peak ==> result == Ok::<(), LimiterError>(()),
        sample_rate > 0 && true_peak ==> (result is Ok <==> is_true_peak_sample_rate(sample_rate)),
        sample_rate > 0 && true_peak && !is_true_peak_sample_rate(sample_rate) ==> result == Err::<(), LimiterError>(
            LimiterError::UnsupportedTruePeakSampleRate(sample_rate),
        ),
{
    if sample_rate == 0 {
        return Err(LimiterError::InvalidSampleRate);
    }
    if true_peak && !supports_true_peak_sample_rate(sample_rate) {
        return Err(LimiterError::UnsupportedTruePeakSampleRate(sample_rate));
    }
    Ok(())
}

/// Sample counts of the gain envelope.
#[derive(Clone, Copy, Debug, PartialEq, Eq, Structural)]
pub struct EnvelopeLengths {
    /// Look-ahead: the frames the gain starts falling before a peak.
    pub attack_samples: usize,
    /// Frames the gain stays down after the attack.
    pub hold_samples: usize,
    /// Window of the moving minimum: attack and hold together.
    pub total_hold_samples: usize,
}

/// Derives the envelope's sample counts from the attack time and the attack
/// plus hold time, both rounded to samples. An attack of zero samples is
/// refused; a hold that rounds below the attack is taken as zero.
pub fn envelope_lengths(sample_rate: u32, attack_samples: usize, attack_and_hold_samples: usize) -> (result: Result<EnvelopeLengths, LimiterError>)
    ensures
        attack_samples == 0 ==> result == Err::<EnvelopeLengths, LimiterError>(
            LimiterError::AttackTooShort { sample_rate },
        ),
        attack_samples > 0 ==> (result matches Ok(lengths) && lengths.attack_samples == attack_samples
            && lengths.total_hold_samples == (if attack_and_hold_samples > attack_samples {
            attack_and_hold_samples
        } else {
            attack_samples
        }) && lengths.hold_samples == lengths.total_hold_samples - attack_samples),
{
    if attack_samples == 0 {
        return Err(LimiterError::AttackTooShort { sample_rate });
    }
    let total_hold_samples = if attack_and_hold_samples > attack_samples {
        attack_and_hold_samples
    } else {
        attack_samples
    };
    Ok(
        EnvelopeLengths {
            attack_samples,
            hold_samples: total_hold_samples - attack_samples,
            total_hold_samples,
        },
    )
}

} // verus!
