use sf_limiter::layout::{
    AudioLayout, interleaved_to_planar, normalize_axis, planar_index_to_interleaved, planar_to_interleaved,
};
use sf_limiter::{validate_layout, LimiterError};

#[test]
fn validate_layout_counts_frames() {
    assert_eq!(validate_layout(0, 2), Ok(0));
    assert_eq!(validate_layout(12, 3), Ok(4));
    assert_eq!(validate_layout(5, 1), Ok(5));
}

#[test]
fn processing_rejects_invalid_layouts() {
    assert_eq!(validate_layout(0, 0), Err(LimiterError::InvalidChannelCount));
    assert_eq!(validate_layout(2, 0), Err(LimiterError::InvalidChannelCount));
    assert_eq!(
        validate_layout(3, 2),
        Err(LimiterError::InputNotFrameAligned {
            sample_count: 3,
            channels: 2,
        })
    );
}

#[test]
fn layouts_round_trip() {
    let interleaved = [1, 10, 100, 2, 20, 200, 3, 30, 300, 4, 40, 400];
    let planar = interleaved_to_planar(&interleaved, 4, 3);
    assert_eq!(planar, [1, 2, 3, 4, 10, 20, 30, 40, 100, 200, 300, 400]);
    assert_eq!(planar_to_interleaved(&planar, 4, 3), interleaved);

    let samples: Vec<f32> = (0..257 * 6).map(|i| i as f32 * 0.5 - 3.0).collect();
    let round_trip = planar_to_interleaved(&interleaved_to_planar(&samples, 257, 6), 257, 6);
    assert_eq!(round_trip, samples);
    assert!(planar_to_interleaved::<f32>(&[], 0, 2).is_empty());
}

#[test]
fn planar_index_follows_the_sample_into_interleaved_order() {
    let planar = [1, 2, 3, 4, 10, 20, 30, 40, 100, 200, 300, 400];
    let interleaved = planar_to_interleaved(&planar, 4, 3);
    for index in 0..planar.len() {
        assert_eq!(interleaved[planar_index_to_interleaved(index, 4, 3)], planar[index]);
    }
    assert_eq!(planar_index_to_interleaved(5, 4, 3), 4);
    assert_eq!(planar_index_to_interleaved(11, 4, 3), 11);
}

#[test]
fn negative_axes_count_from_the_last_dimension() {
    assert_eq!(normalize_axis(-1, 2), Some(1));
    assert_eq!(normalize_axis(-2, 2), Some(0));
    assert_eq!(normalize_axis(0, 2), Some(0));
    assert_eq!(normalize_axis(1, 1), None);
    assert_eq!(normalize_axis(-1, 1), Some(0));
    assert_eq!(normalize_axis(-3, 2), None);
    assert_eq!(normalize_axis(2, 2), None);
}

#[test]
fn sample_index_follows_the_layout() {
    assert_eq!(AudioLayout::Interleaved.sample_index(2, 1, 4, 3), 7);
    assert_eq!(AudioLayout::Planar.sample_index(2, 1, 4, 3), 6);
    let interleaved = [1, 10, 100, 2, 20, 200, 3, 30, 300, 4, 40, 400];
    let planar = interleaved_to_planar(&interleaved, 4, 3);
    for frame in 0..4 {
        for channel in 0..3 {
            assert_eq!(
                interleaved[AudioLayout::Interleaved.sample_index(frame, channel, 4, 3)],
                planar[AudioLayout::Planar.sample_index(frame, channel, 4, 3)]
            );
        }
    }
}
