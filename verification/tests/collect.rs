use sf_limiter::layout::{interleaved_to_planar, AudioLayout};
use sf_limiter::peak::{
    collect_sample_peaks, collect_sample_peaks_from_interleaved, collect_sample_peaks_from_planar,
    reduce_upsampled_peaks,
};
use sf_limiter::LimiterError;

fn key(sample: f32) -> u32 {
    sample.abs().to_bits()
}

fn keys(samples: &[f32]) -> Vec<u32> {
    samples.iter().copied().map(key).collect()
}

fn values(keys: &[u32]) -> Vec<f32> {
    keys.iter().copied().map(f32::from_bits).collect()
}

#[test]
fn sample_peaks_take_the_largest_magnitude_of_each_frame() {
    let interleaved = [0.25, -0.5, 3.0, -4.0, 0.0, -0.0];
    let peaks = collect_sample_peaks_from_interleaved(&keys(&interleaved), 2).unwrap();
    assert_eq!(values(&peaks), [0.5, 4.0, 0.0]);

    let planar = [0.25, 3.0, 0.0, -0.5, -4.0, -0.0];
    let peaks = collect_sample_peaks_from_planar(&keys(&planar), 2).unwrap();
    assert_eq!(values(&peaks), [0.5, 4.0, 0.0]);
}

#[test]
fn planar_sample_peaks_match_interleaved_sample_peaks() {
    let frame_count = 257;
    for channels in [1, 2, 3, 4, 5, 8] {
        let interleaved: Vec<f32> = (0..frame_count * channels)
            .map(|i_sample| {
                (((i_sample as f64 * 0.731).sin() * 1.7) + ((i_sample as f64 * 0.193).cos() * 0.4))
                    as f32
            })
            .collect();
        let planar = interleaved_to_planar(&interleaved, frame_count, channels);
        let from_interleaved =
            collect_sample_peaks(&keys(&interleaved), channels, AudioLayout::Interleaved).unwrap();
        let from_planar = collect_sample_peaks(&keys(&planar), channels, AudioLayout::Planar).unwrap();
        assert_eq!(from_interleaved.len(), frame_count);
        assert_eq!(from_interleaved, from_planar, "channels={channels}");
    }
}

#[test]
fn empty_audio_has_no_peaks() {
    assert!(collect_sample_peaks_from_interleaved(&[], 2).unwrap().is_empty());
    assert!(collect_sample_peaks_from_planar(&[], 2).unwrap().is_empty());
}

#[test]
fn sample_peak_collection_rejects_invalid_layouts() {
    for layout in [AudioLayout::Interleaved, AudioLayout::Planar] {
        assert_eq!(
            collect_sample_peaks(&[], 0, layout),
            Err(LimiterError::InvalidChannelCount)
        );
        assert_eq!(
            collect_sample_peaks(&keys(&[1.0, -1.0, 0.5]), 2, layout),
            Err(LimiterError::InputNotFrameAligned {
                sample_count: 3,
                channels: 2,
            })
        );
    }
}

#[test]
fn upsampled_peaks_fold_back_to_one_peak_per_frame() {
    let upsampled = keys(&[0.1, 0.7, 0.3, 0.2, 0.0, 0.9, 1.5]);
    assert_eq!(values(&reduce_upsampled_peaks(&upsampled, 3)), [0.7, 0.9]);
    assert_eq!(values(&reduce_upsampled_peaks(&upsampled, 1)), [0.1, 0.7, 0.3, 0.2, 0.0, 0.9, 1.5]);
    assert!(reduce_upsampled_peaks(&upsampled, 8).is_empty());
}
