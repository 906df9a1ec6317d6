use sf_limiter::config::{check_sample_rate, envelope_lengths, EnvelopeLengths};
use sf_limiter::dispatch::dispatch;
use sf_limiter::LimiterError;

const TRUE_PEAK_SAMPLE_RATES: [u32; 13] = [
    8_000, 11_025, 12_000, 16_000, 22_050, 24_000, 32_000, 44_100, 48_000, 88_200, 96_000, 176_400,
    192_000,
];

#[test]
fn zero_sample_rate_is_rejected() {
    assert_eq!(check_sample_rate(0, false), Err(LimiterError::InvalidSampleRate));
    assert_eq!(check_sample_rate(0, true), Err(LimiterError::InvalidSampleRate));
}

#[test]
fn true_peak_sample_rate_check_accepts_only_supported_rates() {
    for sample_rate in TRUE_PEAK_SAMPLE_RATES {
        assert_eq!(check_sample_rate(sample_rate, true), Ok(()));
    }
    for sample_rate in [10_000, 47_999, 176_399] {
        assert_eq!(
            check_sample_rate(sample_rate, true),
            Err(LimiterError::UnsupportedTruePeakSampleRate(sample_rate))
        );
        assert_eq!(check_sample_rate(sample_rate, false), Ok(()));
    }
    assert_eq!(check_sample_rate(1, false), Ok(()));
}

#[test]
fn default_timing_has_expected_lengths() {
    // 5 ms attack and 5 + 15 ms attack plus hold at 48 kHz.
    assert_eq!(
        envelope_lengths(48_000, 240, 960),
        Ok(EnvelopeLengths {
            attack_samples: 240,
            hold_samples: 720,
            total_hold_samples: 960,
        })
    );
}

#[test]
fn zero_sample_attack_is_rejected() {
    assert_eq!(
        envelope_lengths(1_000, 0, 0),
        Err(LimiterError::AttackTooShort { sample_rate: 1_000 })
    );
    assert_eq!(
        envelope_lengths(1_000, 0, 5),
        Err(LimiterError::AttackTooShort { sample_rate: 1_000 })
    );
}

#[test]
fn hold_below_the_attack_is_zero() {
    assert_eq!(
        envelope_lengths(1_000, 2, 1),
        Ok(EnvelopeLengths {
            attack_samples: 2,
            hold_samples: 0,
            total_hold_samples: 2,
        })
    );
    assert_eq!(
        envelope_lengths(1_000, 2, 4),
        Ok(EnvelopeLengths {
            attack_samples: 2,
            hold_samples: 2,
            total_hold_samples: 4,
        })
    );
}

#[test]
fn dispatch_returns_the_operation_result() {
    let samples = vec![1.0_f32, -2.0, 0.5];
    let sum = dispatch(move || samples.iter().map(|sample| sample.abs()).sum::<f32>());
    assert_eq!(sum, 3.5);
    assert_eq!(dispatch(|| 41 + 1), 42);
}
