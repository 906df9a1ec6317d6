//! Per-frame sample peaks, taken on order keys.
//!
//! A key stands for a sample magnitude. For non-negative finite IEEE-754
//! values the raw bit pattern orders exactly as the value does, so the largest
//! key of a frame is the key of its largest magnitude, and the key 0 stands for
//! a magnitude of zero.

use vstd::prelude::*;

use crate::error::LimiterError;
use crate::layout::{
    AudioLayout, interleaved_to_planar_seq, layout_index, lemma_index_in_bounds, lemma_split_index,
    spec_validate_layout, validate_layout,
};

verus! {

/// The largest key of `keys`, folded from 0 in order; 0 when there is none.
pub open spec fn max_key(keys: Seq<u32>) -> u32
    decreases keys.len(),
{
    if keys.len() == 0 {
        0
    } else {
        let rest = max_key(keys.drop_last());
        if keys.last() > rest {
            keys.last()
        } else {
            rest
        }
    }
}

/// The keys of one frame, one per channel.
pub open spec fn frame_keys(keys: Seq<u32>, layout: AudioLayout, frames: nat, channels: nat, frame: int) -> Seq<u32> {
    Seq::new(channels, |channel: int| keys[layout_index(layout, frame, channel, frames as int, channels as int)])
}

/// The sample peak of every frame: the largest key among its channels.
pub open spec fn sample_peaks(keys: Seq<u32>, layout: AudioLayout, frames: nat, channels: nat) -> Seq<u32> {
    Seq::new(frames, |frame: int| max_key(frame_keys(keys, layout, frames, channels, frame)))
}

/// What peak collection returns for `keys` in `layout` with `channels`
/// channels: the layout error, or one sample peak per frame.
pub open spec fn spec_collect_sample_peaks(keys: Seq<u32>, layout: AudioLayout, channels: usize) -> Result<Seq<u32>, LimiterError> {
    match spec_validate_layout(keys.len() as int, channels as int) {
        Ok(frames) => Ok(sample_peaks(keys, layout, frames as nat, channels as nat)),
        Err(error) => Err(error),
    }
}

/// Whether `result` is what [`spec_collect_sample_peaks`] describes.
pub open spec fn collected_as(result: Result<Vec<u32>, LimiterError>, expected: Result<Seq<u32>, LimiterError>) -> bool {
    match expected {
        Ok(peaks) => result matches Ok(found) && found@ == peaks,
        Err(error) => result matches Err(found) && found == error,
    }
}

/// Appending one key folds it into the maximum.
proof fn lemma_max_key_push(keys: Seq<u32>, key: u32)
    ensures
        max_key(keys.push(key)) == (if key > max_key(keys) {
            key
        } else {
            max_key(keys)
        }),
{
    assert(keys.push(key).drop_last() =~= keys);
}

/// No key of a sequence exceeds its maximum, a non-empty sequence holds its
/// maximum, and the maximum of no keys is 0.
pub proof fn lemma_max_key_is_maximum(keys: Seq<u32>)
    ensures
        forall|i: int| 0 <= i < keys.len() ==> #[trigger] keys[i] <= max_key(keys),
        keys.len() > 0 ==> exists|i: int| 0 <= i < keys.len() && keys[i] == max_key(keys),
        keys.len() == 0 ==> max_key(keys) == 0,
    decreases keys.len(),
{
    if keys.len() > 0 {
        let rest = keys.drop_last();
        lemma_max_key_is_maximum(rest);
        assert forall|i: int| 0 <= i < keys.len() implies #[trigger] keys[i] <= max_key(keys) by {
            if i < keys.len() - 1 {
                assert(keys[i] == rest[i]);
            }
        }
        if keys.last() > max_key(rest) {
            assert(keys[keys.len() - 1] == max_key(keys));
        } else if rest.len() > 0 {
            let i = choose|i: int| 0 <= i < rest.len() && rest[i] == max_key(rest);
            assert(keys[i] == max_key(keys));
        } else {
            assert(keys[0] == max_key(keys));
        }
    }
}

/// A channel of `frame` whose key is the frame's sample peak.
pub open spec fn peak_channel(keys: Seq<u32>, layout: AudioLayout, frames: nat, channels: nat, frame: int) -> int {
    choose|channel: int|
        0 <= channel < channels && keys[layout_index(layout, frame, channel, frames as int, channels as int)]
            == max_key(frame_keys(keys, layout, frames, channels, frame))
}

/// The sample peak of a frame is at least the key of every channel of the
/// frame and equals the key of one of them.
pub proof fn lemma_sample_peaks_are_frame_maxima(keys: Seq<u32>, layout: AudioLayout, frames: nat, channels: nat)
    requires
        channels > 0,
    ensures
        sample_peaks(keys, layout, frames, channels).len() == frames,
        forall|frame: int, channel: int|
            0 <= frame < frames && 0 <= channel < channels ==> #[trigger] keys[layout_index(
                layout,
                frame,
                channel,
                frames as int,
                channels as int,
            )] <= sample_peaks(keys, layout, frames, channels)[frame],
        forall|frame: int|
            0 <= frame < frames ==> 0 <= #[trigger] peak_channel(keys, layout, frames, channels, frame) < channels
                && sample_peaks(keys, layout, frames, channels)[frame] == keys[layout_index(
                layout,
                frame,
                peak_channel(keys, layout, frames, channels, frame),
                frames as int,
                channels as int,
            )],
{
    assert forall|frame: int, channel: int| 0 <= frame < frames && 0 <= channel < channels implies #[trigger] keys[layout_index(
        layout,
        frame,
        channel,
        frames as int,
        channels as int,
    )] <= sample_peaks(keys, layout, frames, channels)[frame] by {
        let row = frame_keys(keys, layout, frames, channels, frame);
        lemma_max_key_is_maximum(row);
        assert(row[channel] == keys[layout_index(layout, frame, channel, frames as int, channels as int)]);
    }
    assert forall|frame: int| 0 <= frame < frames implies 0 <= #[trigger] peak_channel(
        keys,
        layout,
        frames,
        channels,
        frame,
    ) < channels && sample_peaks(keys, layout, frames, channels)[frame] == keys[layout_index(
        layout,
        frame,
        peak_channel(keys, layout, frames, channels, frame),
        frames as int,
        channels as int,
    )] by {
        let row = frame_keys(keys, layout, frames, channels, frame);
        lemma_max_key_is_maximum(row);
        let channel = choose|i: int| 0 <= i < row.len() && row[i] == max_key(row);
        assert(row[channel] == keys[layout_index(layout, frame, channel, frames as int, channels as int)]);
    }
}

/// Sample peaks of frame-interleaved keys.
pub fn collect_sample_peaks_from_interleaved(keys: &[u32], channels: usize) -> (result: Result<Vec<u32>, LimiterError>)
    ensures
        collected_as(result, spec_collect_sample_peaks(keys@, AudioLayout::Interleaved, channels)),
        result is Ok <==> (channels > 0 && (keys@.len() as int) % (channels as int) == 0),
        result matches Ok(peaks) ==> peaks@.len() * channels == keys@.len(),
        result matches Ok(peaks) ==> forall|frame: int, channel: int|
            0 <= frame < peaks@.len() && 0 <= channel < channels ==> #[trigger] keys@[layout_index(
                AudioLayout::Interleaved,
                frame,
                channel,
                peaks@.len() as int,
                channels as int,
            )] <= peaks@[frame],
        result matches Ok(peaks) ==> forall|frame: int|
            0 <= frame < peaks@.len() ==> 0 <= #[trigger] peak_channel(keys@, AudioLayout::Interleaved, peaks@.len(), channels as nat, frame)
                < channels && peaks@[frame] == keys@[layout_index(
                AudioLayout::Interleaved,
                frame,
                peak_channel(keys@, AudioLayout::Interleaved, peaks@.len(), channels as nat, frame),
                peaks@.len() as int,
                channels as int,
            )],
{
    let frames = validate_layout(keys.len(), channels)?;
    let ghost expected = sample_peaks(keys@, AudioLayout::Interleaved, frames as nat, channels as nat);
    let mut frame_peaks: Vec<u32> = Vec::with_capacity(frames);
    for frame in 0..frames
        invariant
            frames * channels == keys.len(),
            expected == sample_peaks(keys@, AudioLayout::Interleaved, frames as nat, channels as nat),
            frame_peaks@.len() == frame,
            forall|i: int| 0 <= i < frame ==> frame_peaks@[i] == #[trigger] expected[i],
    {
        let ghost frame_row = frame_keys(keys@, AudioLayout::Interleaved, frames as nat, channels as nat, frame as int);
        let mut peak: u32 = 0;
        for channel in 0..channels
            invariant
                frames * channels == keys.len(),
                frame < frames,
                frame_row == frame_keys(keys@, AudioLayout::Interleaved, frames as nat, channels as nat, frame as int),
                peak == max_key(frame_row.subrange(0, channel as int)),
        {
            proof {
                lemma_index_in_bounds(frame as int, frames as int, channel as int, channels as int);
                lemma_max_key_push(frame_row.subrange(0, channel as int), frame_row[channel as int]);
                assert(frame_row.subrange(0, channel as int).push(frame_row[channel as int])
                    =~= frame_row.subrange(0, channel + 1));
            }
            let key = keys[frame * channels + channel];
            if key > peak {
                peak = key;
            }
        }
        proof {
            assert(frame_row.subrange(0, channels as int) =~= frame_row);
        }
        frame_peaks.push(peak);
    }
    proof {
        assert(frame_peaks@ =~= expected);
    }
    proof {
        lemma_sample_peaks_are_frame_maxima(keys@, AudioLayout::Interleaved, frames as nat, channels as nat);
        assert(frame_peaks@ == expected);
    }
    Ok(frame_peaks)
}

/// Sample peaks of channel-planar keys.
pub fn collect_sample_peaks_from_planar(keys: &[u32], channels: usize) -> (result: Result<Vec<u32>, LimiterError>)
    ensures
        collected_as(result, spec_collect_sample_peaks(keys@, AudioLayout::Planar, channels)),
        result is Ok <==> (channels > 0 && (keys@.len() as int) % (channels as int) == 0),
        result matches Ok(peaks) ==> peaks@.len() * channels == keys@.len(),
        result matches Ok(peaks) ==> forall|frame: int, channel: int|
            0 <= frame < peaks@.len() && 0 <= channel < channels ==> #[trigger] keys@[layout_index(
                AudioLayout::Planar,
                frame,
                channel,
                peaks@.len() as int,
                channels as int,
            )] <= peaks@[frame],
        result matches Ok(peaks) ==> forall|frame: int|
            0 <= frame < peaks@.len() ==> 0 <= #[trigger] peak_channel(keys@, AudioLayout::Planar, peaks@.len(), channels as nat, frame)
                < channels && peaks@[frame] == keys@[layout_index(
                AudioLayout::Planar,
                frame,
                peak_channel(keys@, AudioLayout::Planar, peaks@.len(), channels as nat, frame),
                peaks@.len() as int,
                channels as int,
            )],
{
    let frames = validate_layout(keys.len(), channels)?;
    let ghost expected = sample_peaks(keys@, AudioLayout::Planar, frames as nat, channels as nat);
    let mut frame_peaks: Vec<u32> = Vec::with_capacity(frames);
    for frame in 0..frames
        invariant
            frame_peaks@.len() == frame,
            forall|i: int| 0 <= i < frame ==> frame_peaks@[i] == 0,
    {
        frame_peaks.push(0);
    }
    let mut channel: usize = 0;
    while channel < channels
        invariant
            channel <= channels,
            frames * channels == keys.len(),
            frame_peaks@.len() == frames,
            forall|i: int|
                0 <= i < frames ==> frame_peaks@[i] == max_key(
                    #[trigger] frame_keys(keys@, AudioLayout::Planar, frames as nat, channels as nat, i).subrange(
                        0,
                        channel as int,
                    ),
                ),
        decreases channels - channel,
    {
        let mut frame: usize = 0;
        while frame < frames
            invariant
                frame <= frames,
                frames * channels == keys.len(),
                channel < channels,
                frame_peaks@.len() == frames,
                forall|i: int|
                    0 <= i < frame ==> frame_peaks@[i] == max_key(
                        #[trigger] frame_keys(keys@, AudioLayout::Planar, frames as nat, channels as nat, i).subrange(
                            0,
                            channel + 1,
                        ),
                    ),
                forall|i: int|
                    frame <= i < frames ==> frame_peaks@[i] == max_key(
                        #[trigger] frame_keys(keys@, AudioLayout::Planar, frames as nat, channels as nat, i).subrange(
                            0,
                            channel as int,
                        ),
                    ),
            decreases frames - frame,
        {
            let ghost row = frame_keys(keys@, AudioLayout::Planar, frames as nat, channels as nat, frame as int);
            proof {
                lemma_index_in_bounds(channel as int, channels as int, frame as int, frames as int);
                assert(channels as int * frames as int == frames as int * channels as int) by (nonlinear_arith);
                lemma_max_key_push(row.subrange(0, channel as int), row[channel as int]);
                assert(row.subrange(0, channel as int).push(row[channel as int]) =~= row.subrange(0, channel + 1));
            }
            let key = keys[channel * frames + frame];
            if key > frame_peaks[frame] {
                frame_peaks.set(frame, key);
            }
            frame += 1;
        }
        channel += 1;
    }
    proof {
        assert forall|i: int| 0 <= i < frames implies frame_peaks@[i] == expected[i] by {
            assert(frame_keys(keys@, AudioLayout::Planar, frames as nat, channels as nat, i).subrange(0, channels as int)
                =~= frame_keys(keys@, AudioLayout::Planar, frames as nat, channels as nat, i));
        }
        assert(frame_peaks@ =~= expected);
    }
    proof {
        lemma_sample_peaks_are_frame_maxima(keys@, AudioLayout::Planar, frames as nat, channels as nat);
        assert(frame_peaks@ == expected);
    }
    Ok(frame_peaks)
}

/// Sample peaks of keys in either layout.
pub fn collect_sample_peaks(keys: &[u32], channels: usize, layout: AudioLayout) -> (result: Result<Vec<u32>, LimiterError>)
    ensures
        collected_as(result, spec_collect_sample_peaks(keys@, layout, channels)),
        result is Ok <==> (channels > 0 && (keys@.len() as int) % (channels as int) == 0),
        result matches Ok(peaks) ==> peaks@.len() * channels == keys@.len(),
        result matches Ok(peaks) ==> forall|frame: int, channel: int|
            0 <= frame < peaks@.len() && 0 <= channel < channels ==> #[trigger] keys@[layout_index(
                layout,
                frame,
                channel,
                peaks@.len() as int,
                channels as int,
            )] <= peaks@[frame],
        result matches Ok(peaks) ==> forall|frame: int|
            0 <= frame < peaks@.len() ==> 0 <= #[trigger] peak_channel(keys@, layout, peaks@.len(), channels as nat, frame)
                < channels && peaks@[frame] == keys@[layout_index(
                layout,
                frame,
                peak_channel(keys@, layout, peaks@.len(), channels as nat, frame),
                peaks@.len() as int,
                channels as int,
            )],
{
    let result = match layout {
        AudioLayout::Interleaved => collect_sample_peaks_from_interleaved(keys, channels),
        AudioLayout::Planar => collect_sample_peaks_from_planar(keys, channels),
    };
    result
}

/// Interleaved samples and their planar rearrangement have the same sample
/// peak in every frame.
pub proof fn lemma_planar_peaks_match_interleaved(keys: Seq<u32>, frames: nat, channels: nat)
    requires
        keys.len() == frames * channels,
    ensures
        sample_peaks(interleaved_to_planar_seq(keys, frames, channels), AudioLayout::Planar, frames, channels)
            == sample_peaks(keys, AudioLayout::Interleaved, frames, channels),
{
    let planar = interleaved_to_planar_seq(keys, frames, channels);
    let f = frames as int;
    let c = channels as int;
    assert forall|frame: int| 0 <= frame < frames implies frame_keys(planar, AudioLayout::Planar, frames, channels, frame)
        == frame_keys(keys, AudioLayout::Interleaved, frames, channels, frame) by {
        assert forall|channel: int| 0 <= channel < channels implies frame_keys(
            planar,
            AudioLayout::Planar,
            frames,
            channels,
            frame,
        )[channel] == frame_keys(keys, AudioLayout::Interleaved, frames, channels, frame)[channel] by {
            lemma_index_in_bounds(channel, c, frame, f);
            assert(c * f == f * c) by (nonlinear_arith);
            lemma_split_index(channel * f + frame, f, channel, frame);
        }
        assert(frame_keys(planar, AudioLayout::Planar, frames, channels, frame) =~= frame_keys(
            keys,
            AudioLayout::Interleaved,
            frames,
            channels,
            frame,
        ));
    }
    assert(sample_peaks(planar, AudioLayout::Planar, frames, channels) =~= sample_peaks(
        keys,
        AudioLayout::Interleaved,
        frames,
        channels,
    ));
}

/// The peaks of `keys` reduced in groups of `factor`: one peak per complete
/// group, a trailing incomplete group dropped.
pub open spec fn grouped_peaks(keys: Seq<u32>, factor: nat) -> Seq<u32> {
    Seq::new(keys.len() / factor, |i: int| max_key(keys.subrange(i * factor, i * factor + factor)))
}

/// Where the upsampled frame `offset` of group `group` stands.
pub open spec fn group_index(group: int, offset: int, factor: int) -> int {
    group * factor + offset
}

/// An offset within group `group` whose key is the group's peak.
pub open spec fn group_peak_offset(keys: Seq<u32>, factor: nat, group: int) -> int {
    choose|offset: int|
        0 <= offset < factor && keys[group_index(group, offset, factor as int)] == max_key(
            keys.subrange(group * factor, group * factor + factor),
        )
}

/// Every upsampled frame of a complete group lies inside `keys`.
proof fn lemma_group_index_in_bounds(len: int, factor: int, group: int, offset: int)
    requires
        factor > 0,
        len >= 0,
        0 <= group < len / factor,
        0 <= offset < factor,
    ensures
        0 <= group * factor,
        group * factor + factor <= len,
        0 <= group_index(group, offset, factor) < len,
{
    vstd::arithmetic::div_mod::lemma_fundamental_div_mod(len, factor);
    let groups = len / factor;
    let remainder = len % factor;
    assert(0 <= group * factor && group * factor + factor <= len) by (nonlinear_arith)
        requires
            len == factor * groups + remainder,
            remainder >= 0,
            0 <= group < groups,
            factor > 0,
    ;
}

/// The peak of each complete group is at least every key of the group, the
/// first one included, and equals the key of one of them.
pub proof fn lemma_grouped_peaks_are_group_maxima(keys: Seq<u32>, factor: nat)
    requires
        factor > 0,
    ensures
        grouped_peaks(keys, factor).len() == keys.len() / factor,
        forall|group: int, offset: int|
            0 <= group < keys.len() / factor && 0 <= offset < factor ==> #[trigger] keys[group_index(
                group,
                offset,
                factor as int,
            )] <= grouped_peaks(keys, factor)[group],
        forall|group: int|
            0 <= group < keys.len() / factor ==> 0 <= #[trigger] group_peak_offset(keys, factor, group) < factor
                && grouped_peaks(keys, factor)[group] == keys[group_index(
                group,
                group_peak_offset(keys, factor, group),
                factor as int,
            )],
{
    assert forall|group: int, offset: int|
        0 <= group < keys.len() / factor && 0 <= offset < factor implies #[trigger] keys[group_index(
        group,
        offset,
        factor as int,
    )] <= grouped_peaks(keys, factor)[group] by {
        lemma_group_index_in_bounds(keys.len() as int, factor as int, group, offset);
        let chunk = keys.subrange(group * factor, group * factor + factor);
        lemma_max_key_is_maximum(chunk);
        assert(chunk[offset] == keys[group_index(group, offset, factor as int)]);
    }
    assert forall|group: int| 0 <= group < keys.len() / factor implies 0 <= #[trigger] group_peak_offset(
        keys,
        factor,
        group,
    ) < factor && grouped_peaks(keys, factor)[group] == keys[group_index(
        group,
        group_peak_offset(keys, factor, group),
        factor as int,
    )] by {
        lemma_group_index_in_bounds(keys.len() as int, factor as int, group, 0);
        let chunk = keys.subrange(group * factor, group * factor + factor);
        lemma_max_key_is_maximum(chunk);
        let offset = choose|i: int| 0 <= i < chunk.len() && chunk[i] == max_key(chunk);
        assert(chunk[offset] == keys[group_index(group, offset, factor as int)]);
    }
}

/// Folds the peaks of `factor` upsampled frames back into one peak per
/// original frame.
pub fn reduce_upsampled_peaks(upsampled_peaks: &[u32], factor: usize) -> (peaks: Vec<u32>)
    requires
        factor > 0,
    ensures
        peaks@ == grouped_peaks(upsampled_peaks@, factor as nat),
        peaks@.len() == upsampled_peaks@.len() / (factor as nat),
        forall|group: int, offset: int|
            0 <= group < peaks@.len() && 0 <= offset < factor ==> #[trigger] upsampled_peaks@[group_index(
                group,
                offset,
                factor as int,
            )] <= peaks@[group],
        forall|group: int|
            0 <= group < peaks@.len() ==> 0 <= #[trigger] group_peak_offset(upsampled_peaks@, factor as nat, group)
                < factor && peaks@[group] == upsampled_peaks@[group_index(
                group,
                group_peak_offset(upsampled_peaks@, factor as nat, group),
                factor as int,
            )],
{
    let groups = upsampled_peaks.len() / factor;
    let ghost expected = grouped_peaks(upsampled_peaks@, factor as nat);
    proof {
        vstd::arithmetic::div_mod::lemma_fundamental_div_mod(upsampled_peaks.len() as int, factor as int);
        let total = upsampled_peaks.len() as int;
        let remainder = total % (factor as int);
        assert(groups * factor <= upsampled_peaks.len()) by (nonlinear_arith)
            requires
                total == factor * groups + remainder,
                remainder >= 0,
                total == upsampled_peaks.len(),
        ;
    }
    let mut peaks: Vec<u32> = Vec::with_capacity(groups);
    for group in 0..groups
        invariant
            factor > 0,
            groups * factor <= upsampled_peaks.len(),
            groups == upsampled_peaks.len() / factor,
            expected == grouped_peaks(upsampled_peaks@, factor as nat),
            peaks@.len() == group,
            forall|i: int| 0 <= i < group ==> peaks@[i] == #[trigger] expected[i],
    {
        let ghost chunk = upsampled_peaks@.subrange(group * factor, group * factor + factor);
        proof {
            assert(group * factor + factor <= groups * factor) by (nonlinear_arith)
                requires
                    group < groups,
            ;
        }
        let mut peak: u32 = 0;
        for offset in 0..factor
            invariant
                group < groups,
                groups * factor <= upsampled_peaks.len(),
                group * factor + factor <= groups * factor,
                chunk == upsampled_peaks@.subrange(group * factor, group * factor + factor),
                peak == max_key(chunk.subrange(0, offset as int)),
        {
            proof {
                lemma_max_key_push(chunk.subrange(0, offset as int), chunk[offset as int]);
                assert(chunk.subrange(0, offset as int).push(chunk[offset as int]) =~= chunk.subrange(0, offset + 1));
            }
            let key = upsampled_peaks[group * factor + offset];
            if key > peak {
                peak = key;
            }
        }
        proof {
            assert(chunk.subrange(0, factor as int) =~= chunk);
        }
        peaks.push(peak);
    }
    proof {
        assert(peaks@ =~= expected);
        lemma_grouped_peaks_are_group_maxima(upsampled_peaks@, factor as nat);
    }
    peaks
}

} // verus!
