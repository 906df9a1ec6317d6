use sf_limiter::LimiterError;
use sf_limiter::peak::fir::{
    bs1770_phase_numerators, calc_bs1770_interior_bounds, calc_pre_upsample_interior_bounds,
    source_frame_at_tap, BS1770_CENTER_TAP, BS1770_COEFFICIENT_DENOMINATOR, BS1770_PHASE_COUNT,
    BS1770_TAP_COUNT, PRE_UPSAMPLE_CENTER_TAP,
};
use sf_limiter::peak::{
    supports_true_peak_sample_rate, true_peak_config, InterpolationFactor, PeakStrategy,
};

fn bs1770_coefficients(phase: usize) -> [f32; BS1770_TAP_COUNT] {
    bs1770_phase_numerators(phase).map(|numerator| numerator as f32 / BS1770_COEFFICIENT_DENOMINATOR as f32)
}

#[test]
fn peak_true_peak_sample_rate_configuration_is_explicit() {
    for (sample_rate, factor, interpolation) in [
        (8_000, 6, InterpolationFactor::Four),
        (11_025, 4, InterpolationFactor::Four),
        (12_000, 4, InterpolationFactor::Four),
        (16_000, 3, InterpolationFactor::Four),
        (22_050, 2, InterpolationFactor::Four),
        (24_000, 2, InterpolationFactor::Four),
        (32_000, 3, InterpolationFactor::Two),
    ] {
        assert_eq!(
            true_peak_config(sample_rate),
            Some(PeakStrategy::PreUpsampled {
                factor,
                interpolation,
            })
        );
    }
    for (sample_rate, interpolation) in [
        (44_100, InterpolationFactor::Four),
        (48_000, InterpolationFactor::Four),
        (88_200, InterpolationFactor::Two),
        (96_000, InterpolationFactor::Two),
    ] {
        assert_eq!(
            true_peak_config(sample_rate),
            Some(PeakStrategy::Interpolated(interpolation))
        );
    }
    for sample_rate in [176_400, 192_000, u32::MAX] {
        assert_eq!(
            true_peak_config(sample_rate),
            Some(PeakStrategy::SamplePeak)
        );
    }
    for sample_rate in [1, 10_000, 47_999, 176_399] {
        assert_eq!(true_peak_config(sample_rate), None);
    }
}

#[test]
fn bs_1770_phase_coefficients_have_exact_mirror_symmetry() {
    for i_phase in 0..BS1770_PHASE_COUNT {
        let coefficients = bs1770_coefficients(i_phase);
        let mirror_phase = BS1770_PHASE_COUNT - 1 - i_phase;
        let mirror_coefficients = bs1770_coefficients(mirror_phase);
        for tap in 0..BS1770_TAP_COUNT {
            assert_eq!(
                coefficients[tap],
                mirror_coefficients[BS1770_TAP_COUNT - 1 - tap],
                "phase={i_phase}, tap={tap}"
            );
        }
    }
}

#[test]
fn bs_1770_coefficients_are_the_published_values() {
    assert_eq!(
        bs1770_coefficients(0),
        [
            0.0017089843750, 0.0109863281250, -0.0196533203125, 0.0332031250000,
            -0.0594482421875, 0.1373291015625, 0.9721679687500, -0.1022949218750,
            0.0476074218750, -0.0266113281250, 0.0148925781250, -0.0083007812500,
        ]
    );
    assert_eq!(
        bs1770_coefficients(1),
        [
            -0.0291748046875, 0.0292968750000, -0.0517578125000, 0.0891113281250,
            -0.1665039062500, 0.4650878906250, 0.7797851562500, -0.2003173828125,
            0.1015625000000, -0.0582275390625, 0.0330810546875, -0.0189208984375,
        ]
    );
    assert_eq!(
        bs1770_coefficients(2),
        [
            -0.0189208984375, 0.0330810546875, -0.0582275390625, 0.1015625000000,
            -0.2003173828125, 0.7797851562500, 0.4650878906250, -0.1665039062500,
            0.0891113281250, -0.0517578125000, 0.0292968750000, -0.0291748046875,
        ]
    );
    assert_eq!(
        bs1770_coefficients(3),
        [
            -0.0083007812500, 0.0148925781250, -0.0266113281250, 0.0476074218750,
            -0.1022949218750, 0.9721679687500, 0.1373291015625, -0.0594482421875,
            0.0332031250000, -0.0196533203125, 0.0109863281250, 0.0017089843750,
        ]
    );
}

#[test]
fn true_peak_support_matches_the_documented_rates() {
    for sample_rate in [
        8_000, 11_025, 12_000, 16_000, 22_050, 24_000, 32_000, 44_100, 48_000, 88_200, 96_000,
        176_400, 192_000, u32::MAX,
    ] {
        assert!(supports_true_peak_sample_rate(sample_rate), "{sample_rate}");
    }
    for sample_rate in [0, 1, 7_999, 10_000, 44_101, 47_999, 96_001, 176_399] {
        assert!(!supports_true_peak_sample_rate(sample_rate), "{sample_rate}");
    }
}

#[test]
fn interpolated_window_zero_pads_both_boundaries() {
    let frame_count = 4;
    let leading: Vec<_> = (0..BS1770_TAP_COUNT)
        .filter_map(|tap| source_frame_at_tap(0, tap, BS1770_CENTER_TAP, frame_count))
        .collect();
    assert_eq!(leading, [0, 1, 2, 3]);
    assert_eq!(source_frame_at_tap(0, BS1770_CENTER_TAP - 1, BS1770_CENTER_TAP, frame_count), None);
    assert_eq!(source_frame_at_tap(0, BS1770_CENTER_TAP, BS1770_CENTER_TAP, frame_count), Some(0));

    let trailing: Vec<_> = (0..BS1770_TAP_COUNT)
        .filter_map(|tap| source_frame_at_tap(frame_count - 1, tap, BS1770_CENTER_TAP, frame_count))
        .collect();
    assert_eq!(trailing, [0, 1, 2, 3]);
    assert_eq!(
        source_frame_at_tap(frame_count - 1, BS1770_CENTER_TAP + 1, BS1770_CENTER_TAP, frame_count),
        None
    );
    assert_eq!(source_frame_at_tap(10, 0, PRE_UPSAMPLE_CENTER_TAP, 100), None);
    assert_eq!(source_frame_at_tap(40, 0, PRE_UPSAMPLE_CENTER_TAP, 100), Some(9));
}

#[test]
fn interior_bounds_cover_exactly_the_complete_windows() {
    assert_eq!(calc_pre_upsample_interior_bounds(0), (0, 0));
    assert_eq!(calc_pre_upsample_interior_bounds(63), (63, 63));
    assert_eq!(calc_pre_upsample_interior_bounds(64), (31, 32));
    assert_eq!(calc_pre_upsample_interior_bounds(257), (31, 225));
    assert_eq!(calc_bs1770_interior_bounds(11), (11, 11));
    assert_eq!(calc_bs1770_interior_bounds(12), (6, 7));
    assert_eq!(calc_bs1770_interior_bounds(257), (6, 252));

    for frame_count in [0, 1, 11, 12, 13, 63, 64, 65, 257] {
        let (start, end) = calc_bs1770_interior_bounds(frame_count);
        for frame in 0..frame_count {
            let complete = (0..BS1770_TAP_COUNT)
                .all(|tap| source_frame_at_tap(frame, tap, BS1770_CENTER_TAP, frame_count).is_some());
            assert_eq!((start..end).contains(&frame), complete, "{frame_count}, {frame}");
        }
        let (start, end) = calc_pre_upsample_interior_bounds(frame_count);
        for frame in 0..frame_count {
            let complete = (0..64)
                .all(|tap| source_frame_at_tap(frame, tap, PRE_UPSAMPLE_CENTER_TAP, frame_count).is_some());
            assert_eq!((start..end).contains(&frame), complete, "{frame_count}, {frame}");
        }
    }
}

#[test]
fn mod_true_peak_sample_rate_configuration_is_explicit() {
    for (sample_rate, factor, interpolation) in [
        (8_000, 6, InterpolationFactor::Four),
        (11_025, 4, InterpolationFactor::Four),
        (12_000, 4, InterpolationFactor::Four),
        (16_000, 3, InterpolationFactor::Four),
        (22_050, 2, InterpolationFactor::Four),
        (24_000, 2, InterpolationFactor::Four),
        (32_000, 3, InterpolationFactor::Two),
    ] {
        assert_eq!(
            PeakStrategy::try_from_sample_rate_for_true_peak(sample_rate),
            Ok(PeakStrategy::PreUpsampled {
                factor,
                interpolation,
            })
        );
    }
    for (sample_rate, interpolation) in [
        (44_100, InterpolationFactor::Four),
        (48_000, InterpolationFactor::Four),
        (88_200, InterpolationFactor::Two),
        (96_000, InterpolationFactor::Two),
    ] {
        assert_eq!(
            PeakStrategy::try_from_sample_rate_for_true_peak(sample_rate),
            Ok(PeakStrategy::Interpolated(interpolation))
        );
    }
    for sample_rate in [176_400, 192_000, u32::MAX] {
        assert_eq!(
            PeakStrategy::try_from_sample_rate_for_true_peak(sample_rate),
            Ok(PeakStrategy::SamplePeak)
        );
    }
    for sample_rate in [1, 10_000, 47_999, 176_399] {
        assert_eq!(
            PeakStrategy::try_from_sample_rate_for_true_peak(sample_rate),
            Err(LimiterError::UnsupportedTruePeakSampleRate(sample_rate))
        );
    }
}

#[test]
fn sample_peak_mode_needs_no_true_peak_support() {
    for sample_rate in [1, 10_000, 48_000, 176_399] {
        assert_eq!(PeakStrategy::new(sample_rate, false), Ok(PeakStrategy::SamplePeak));
    }
    for (sample_rate, factor) in [
        (8_000, 6),
        (11_025, 4),
        (12_000, 4),
        (16_000, 3),
        (22_050, 2),
        (24_000, 2),
        (32_000, 3),
    ] {
        assert!(matches!(
            PeakStrategy::new(sample_rate, true),
            Ok(PeakStrategy::PreUpsampled { factor: selected, .. }) if selected == factor
        ));
    }
    for sample_rate in [44_100, 48_000, 88_200, 96_000, 176_400, 192_000] {
        assert!(!matches!(
            PeakStrategy::new(sample_rate, true),
            Ok(PeakStrategy::PreUpsampled { .. })
        ));
    }
}
