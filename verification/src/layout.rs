use vstd::arithmetic::div_mod::lemma_fundamental_div_mod_converse;
use vstd::prelude::*;

use crate::error::LimiterError;

verus! {

/// How the samples of a multichannel buffer are ordered.
#[derive(Clone, Copy, Debug, PartialEq, Eq, Structural)]
pub enum AudioLayout {
    /// Each frame holds one sample per channel.
    Interleaved,
    /// Every frame of the first channel, then every frame of the next, and so on.
    Planar,
}

/// The outcome of [`validate_layout`]: the frame count, or why the samples do
/// not form whole frames.
pub open spec fn spec_validate_layout(sample_count: int, channels: int) -> Result<int, LimiterError> {
    if channels == 0 {
        Err(LimiterError::InvalidChannelCount)
    } else if sample_count % channels != 0 {
        Err(
            LimiterError::InputNotFrameAligned {
                sample_count: sample_count as usize,
                channels: channels as usize,
            },
        )
    } else {
        Ok(sample_count / channels)
    }
}

/// Flat position of `(frame, channel)` in a frame-interleaved buffer.
pub open spec fn interleaved_index(frame: int, channel: int, channels: int) -> int {
    frame * channels + channel
}

/// Flat position of `(frame, channel)` in a channel-planar buffer.
pub open spec fn planar_index(frame: int, channel: int, frames: int) -> int {
    channel * frames + frame
}

/// The interleaved arrangement of planar `samples`.
pub open spec fn planar_to_interleaved_seq<T>(samples: Seq<T>, frames: nat, channels: nat) -> Seq<T> {
    Seq::new(
        frames * channels,
        |j: int| samples[planar_index(j / channels as int, j % channels as int, frames as int)],
    )
}

/// The planar arrangement of interleaved `samples`.
pub open spec fn interleaved_to_planar_seq<T>(samples: Seq<T>, frames: nat, channels: nat) -> Seq<T> {
    Seq::new(
        frames * channels,
        |i: int| samples[interleaved_index(i % frames as int, i / frames as int, channels as int)],
    )
}

/// Flat position of `(frame, channel)` in a buffer with the given layout.
pub open spec fn layout_index(layout: AudioLayout, frame: int, channel: int, frames: int, channels: int) -> int {
    match layout {
        AudioLayout::Interleaved => interleaved_index(frame, channel, channels),
        AudioLayout::Planar => planar_index(frame, channel, frames),
    }
}

impl AudioLayout {
    /// Flat position of the sample of `channel` in `frame`, in a buffer of
    /// `frames` frames and `channels` channels.
    pub fn sample_index(self, frame: usize, channel: usize, frames: usize, channels: usize) -> (index: usize)
        requires
            frame < frames,
            channel < channels,
            frames * channels <= usize::MAX,
        ensures
            index == layout_index(self, frame as int, channel as int, frames as int, channels as int),
            index < frames * channels,
    {
        proof {
            lemma_index_in_bounds(frame as int, frames as int, channel as int, channels as int);
            lemma_index_in_bounds(channel as int, channels as int, frame as int, frames as int);
            assert(channels as int * frames as int == frames as int * channels as int) by (nonlinear_arith);
        }
        match self {
            AudioLayout::Interleaved => frame * channels + channel,
            AudioLayout::Planar => channel * frames + frame,
        }
    }
}

/// Writing `index` as `quotient * divisor + remainder` gives back the
/// quotient and remainder of the division.
pub proof fn lemma_split_index(index: int, divisor: int, quotient: int, remainder: int)
    requires
        divisor > 0,
        0 <= remainder < divisor,
        index == quotient * divisor + remainder,
    ensures
        index / divisor == quotient,
        index % divisor == remainder,
{
    lemma_fundamental_div_mod_converse(index, divisor, quotient, remainder);
}

/// A position built from an in-range row and column stays inside the buffer.
pub proof fn lemma_index_in_bounds(row: int, rows: int, column: int, columns: int)
    requires
        0 <= row < rows,
        0 <= column < columns,
    ensures
        0 <= row * columns + column < rows * columns,
{
    assert(0 <= row * columns + column < rows * columns) by (nonlinear_arith)
        requires
            0 <= row < rows,
            0 <= column < columns,
    ;
}

/// Checks that `sample_count` samples form whole frames of `channels`
/// samples and returns the frame count.
pub fn validate_layout(sample_count: usize, channels: usize) -> (result: Result<usize, LimiterError>)
    ensures
        match spec_validate_layout(sample_count as int, channels as int) {
            Ok(frames) => result == Ok::<usize, LimiterError>(frames as usize),
            Err(error) => result == Err::<usize, LimiterError>(error),
        },
        channels == 0 ==> result == Err::<usize, LimiterError>(LimiterError::InvalidChannelCount),
        channels > 0 && sample_count % channels != 0 ==> result == Err::<usize, LimiterError>(
            LimiterError::InputNotFrameAligned { sample_count, channels },
        ),
        channels > 0 && sample_count % channels == 0 ==> result == Ok::<usize, LimiterError>(
            sample_count / channels,
        ),
        result matches Ok(frames) ==> frames * channels == sample_count,
{
    if channels == 0 {
        return Err(LimiterError::InvalidChannelCount);
    }
    if sample_count % channels != 0 {
        return Err(LimiterError::InputNotFrameAligned { sample_count, channels });
    }
    proof {
        vstd::arithmetic::div_mod::lemma_fundamental_div_mod(sample_count as int, channels as int);
        assert((sample_count as int / channels as int) * channels as int == channels as int * (
        sample_count as int / channels as int)) by (nonlinear_arith);
    }
    Ok(sample_count / channels)
}

/// Rearranges channel-planar samples into frame-interleaved order.
pub fn planar_to_interleaved<T: Copy>(samples: &[T], frames: usize, channels: usize) -> (interleaved: Vec<T>)
    requires
        frames * channels <= samples.len(),
    ensures
        interleaved@ == planar_to_interleaved_seq(samples@, frames as nat, channels as nat),
        interleaved@.len() == frames * channels,
        forall|frame: int, channel: int|
            0 <= frame < frames && 0 <= channel < channels ==> #[trigger] interleaved@[interleaved_index(
                frame,
                channel,
                channels as int,
            )] == samples@[planar_index(frame, channel, frames as int)],
{
    let mut interleaved: Vec<T> = Vec::new();
    let ghost expected = planar_to_interleaved_seq(samples@, frames as nat, channels as nat);
    assert(0 * channels == 0);
    for frame in 0..frames
        invariant
            frames * channels <= samples.len(),
            expected == planar_to_interleaved_seq(samples@, frames as nat, channels as nat),
            interleaved@.len() == frame * channels,
            forall|j: int| 0 <= j < interleaved@.len() ==> interleaved@[j] == #[trigger] expected[j],
    {
        for channel in 0..channels
            invariant
                frames * channels <= samples.len(),
                frame < frames,
                expected == planar_to_interleaved_seq(samples@, frames as nat, channels as nat),
                interleaved@.len() == frame * channels + channel,
                forall|j: int| 0 <= j < interleaved@.len() ==> interleaved@[j] == #[trigger] expected[j],
        {
            proof {
                lemma_index_in_bounds(channel as int, channels as int, frame as int, frames as int);
                lemma_index_in_bounds(frame as int, frames as int, channel as int, channels as int);
                assert(channels as int * frames as int == frames as int * channels as int) by (nonlinear_arith);
                lemma_split_index(
                    (frame * channels + channel) as int,
                    channels as int,
                    frame as int,
                    channel as int,
                );
            }
            interleaved.push(samples[channel * frames + frame]);
        }
        proof {
            assert((frame + 1) * channels == frame * channels + channels) by (nonlinear_arith);
        }
    }
    proof {
        assert(interleaved@ =~= expected);
        lemma_conversions_place_samples(samples@, frames as nat, channels as nat);
    }
    interleaved
}

/// Rearranges frame-interleaved samples into channel-planar order.
pub fn interleaved_to_planar<T: Copy>(samples: &[T], frames: usize, channels: usize) -> (planar: Vec<T>)
    requires
        frames * channels <= samples.len(),
    ensures
        planar@ == interleaved_to_planar_seq(samples@, frames as nat, channels as nat),
        planar@.len() == frames * channels,
        forall|frame: int, channel: int|
            0 <= frame < frames && 0 <= channel < channels ==> #[trigger] planar@[planar_index(
                frame,
                channel,
                frames as int,
            )] == samples@[interleaved_index(frame, channel, channels as int)],
{
    let mut planar: Vec<T> = Vec::new();
    let ghost expected = interleaved_to_planar_seq(samples@, frames as nat, channels as nat);
    assert(0 * frames == 0);
    for channel in 0..channels
        invariant
            frames * channels <= samples.len(),
            expected == interleaved_to_planar_seq(samples@, frames as nat, channels as nat),
            planar@.len() == channel * frames,
            forall|i: int| 0 <= i < planar@.len() ==> planar@[i] == #[trigger] expected[i],
    {
        for frame in 0..frames
            invariant
                frames * channels <= samples.len(),
                channel < channels,
                expected == interleaved_to_planar_seq(samples@, frames as nat, channels as nat),
                planar@.len() == channel * frames + frame,
                forall|i: int| 0 <= i < planar@.len() ==> planar@[i] == #[trigger] expected[i],
        {
            proof {
                lemma_index_in_bounds(frame as int, frames as int, channel as int, channels as int);
                lemma_index_in_bounds(channel as int, channels as int, frame as int, frames as int);
                assert(channels as int * frames as int == frames as int * channels as int) by (nonlinear_arith);
                lemma_split_index(
                    (channel * frames + frame) as int,
                    frames as int,
                    channel as int,
                    frame as int,
                );
            }
            planar.push(samples[frame * channels + channel]);
        }
        proof {
            assert((channel + 1) * frames == channel * frames + frames) by (nonlinear_arith);
        }
    }
    proof {
        assert(channels as int * frames as int == frames as int * channels as int) by (nonlinear_arith);
        assert(planar@ =~= expected);
        lemma_conversions_place_samples(samples@, frames as nat, channels as nat);
    }
    planar
}

/// Each conversion moves the sample of every `(frame, channel)` from its place
/// in the source layout to its place in the target layout.
pub proof fn lemma_conversions_place_samples<T>(samples: Seq<T>, frames: nat, channels: nat)
    requires
        frames * channels <= samples.len(),
    ensures
        planar_to_interleaved_seq(samples, frames, channels).len() == frames * channels,
        interleaved_to_planar_seq(samples, frames, channels).len() == frames * channels,
        forall|frame: int, channel: int|
            0 <= frame < frames && 0 <= channel < channels ==> #[trigger] planar_to_interleaved_seq(
                samples,
                frames,
                channels,
            )[interleaved_index(frame, channel, channels as int)] == samples[planar_index(
                frame,
                channel,
                frames as int,
            )],
        forall|frame: int, channel: int|
            0 <= frame < frames && 0 <= channel < channels ==> #[trigger] interleaved_to_planar_seq(
                samples,
                frames,
                channels,
            )[planar_index(frame, channel, frames as int)] == samples[interleaved_index(
                frame,
                channel,
                channels as int,
            )],
{
    let f = frames as int;
    let c = channels as int;
    assert forall|frame: int, channel: int| 0 <= frame < frames && 0 <= channel < channels implies #[trigger] planar_to_interleaved_seq(
        samples,
        frames,
        channels,
    )[interleaved_index(frame, channel, c)] == samples[planar_index(frame, channel, f)] by {
        lemma_index_in_bounds(frame, f, channel, c);
        lemma_split_index(frame * c + channel, c, frame, channel);
    }
    assert forall|frame: int, channel: int| 0 <= frame < frames && 0 <= channel < channels implies #[trigger] interleaved_to_planar_seq(
        samples,
        frames,
        channels,
    )[planar_index(frame, channel, f)] == samples[interleaved_index(frame, channel, c)] by {
        lemma_index_in_bounds(channel, c, frame, f);
        assert(c * f == f * c) by (nonlinear_arith);
        lemma_split_index(channel * f + frame, f, channel, frame);
    }
}

/// Rearranging planar samples into interleaved order and back, or the other
/// way round, gives back the original buffer.
pub proof fn lemma_layout_round_trip<T>(samples: Seq<T>, frames: nat, channels: nat)
    requires
        samples.len() == frames * channels,
    ensures
        planar_to_interleaved_seq(interleaved_to_planar_seq(samples, frames, channels), frames, channels)
            == samples,
        interleaved_to_planar_seq(planar_to_interleaved_seq(samples, frames, channels), frames, channels)
            == samples,
{
    let f = frames as int;
    let c = channels as int;
    let planar = interleaved_to_planar_seq(samples, frames, channels);
    let interleaved = planar_to_interleaved_seq(samples, frames, channels);
    assert forall|j: int| 0 <= j < samples.len() implies planar_to_interleaved_seq(
        planar,
        frames,
        channels,
    )[j] == samples[j] by {
        assert(c > 0 && f > 0) by (nonlinear_arith)
            requires
                0 <= j < f * c,
                f >= 0,
                c >= 0,
        ;
        let frame = j / c;
        let channel = j % c;
        vstd::arithmetic::div_mod::lemma_fundamental_div_mod(j, c);
        assert(0 <= frame < f) by (nonlinear_arith)
            requires
                j == c * frame + channel,
                0 <= channel < c,
                0 <= j < f * c,
        ;
        lemma_index_in_bounds(channel, c, frame, f);
        lemma_split_index(channel * f + frame, f, channel, frame);
        assert(frame * c + channel == j) by (nonlinear_arith)
            requires
                j == c * frame + channel,
        ;
    }
    assert(planar_to_interleaved_seq(planar, frames, channels) =~= samples);
    assert forall|i: int| 0 <= i < samples.len() implies interleaved_to_planar_seq(
        interleaved,
        frames,
        channels,
    )[i] == samples[i] by {
        assert(c > 0 && f > 0) by (nonlinear_arith)
            requires
                0 <= i < f * c,
                f >= 0,
                c >= 0,
        ;
        let channel = i / f;
        let frame = i % f;
        vstd::arithmetic::div_mod::lemma_fundamental_div_mod(i, f);
        assert(0 <= channel < c) by (nonlinear_arith)
            requires
                i == f * channel + frame,
                0 <= frame < f,
                0 <= i < f * c,
        ;
        lemma_index_in_bounds(frame, f, channel, c);
        lemma_split_index(frame * c + channel, c, frame, channel);
        assert(channel * f + frame == i) by (nonlinear_arith)
            requires
                i == f * channel + frame,
        ;
    }
    assert(interleaved_to_planar_seq(interleaved, frames, channels) =~= samples);
}

/// Where the planar sample at flat `index` lands in the interleaved buffer of
/// `frames` frames and `channels` channels.
pub open spec fn spec_planar_index_to_interleaved(index: int, frames: int, channels: int) -> int {
    interleaved_index(index % frames, index / frames, channels)
}

/// Converts a flat position in a planar buffer to the position of the same
/// sample in the interleaved arrangement of that buffer.
pub fn planar_index_to_interleaved(index: usize, frames: usize, channels: usize) -> (interleaved: usize)
    requires
        frames > 0,
        index < frames * channels,
        frames * channels <= usize::MAX,
    ensures
        interleaved == spec_planar_index_to_interleaved(index as int, frames as int, channels as int),
        interleaved < frames * channels,
{
    let channel = index / frames;
    let frame = index % frames;
    proof {
        vstd::arithmetic::div_mod::lemma_fundamental_div_mod(index as int, frames as int);
        assert(0 <= channel < channels) by (nonlinear_arith)
            requires
                index == frames * channel + frame,
                0 <= frame < frames,
                index < frames * channels,
        ;
        lemma_index_in_bounds(frame as int, frames as int, channel as int, channels as int);
    }
    frame * channels + channel
}

/// The interleaved arrangement holds, at the converted position, the sample
/// that the planar buffer holds at `index`.
pub proof fn lemma_planar_index_to_interleaved<T>(samples: Seq<T>, frames: nat, channels: nat, index: int)
    requires
        samples.len() == frames * channels,
        0 <= index < samples.len(),
    ensures
        0 <= spec_planar_index_to_interleaved(index, frames as int, channels as int) < samples.len(),
        planar_to_interleaved_seq(samples, frames, channels)[spec_planar_index_to_interleaved(
            index,
            frames as int,
            channels as int,
        )] == samples[index],
{
    let f = frames as int;
    let c = channels as int;
    assert(f > 0 && c > 0) by (nonlinear_arith)
        requires
            0 <= index < f * c,
            f >= 0,
            c >= 0,
    ;
    let channel = index / f;
    let frame = index % f;
    vstd::arithmetic::div_mod::lemma_fundamental_div_mod(index, f);
    assert(0 <= channel < c) by (nonlinear_arith)
        requires
            index == f * channel + frame,
            0 <= frame < f,
            0 <= index < f * c,
    ;
    lemma_index_in_bounds(frame, f, channel, c);
    lemma_split_index(frame * c + channel, c, frame, channel);
    assert(channel * f + frame == index) by (nonlinear_arith)
        requires
            index == f * channel + frame,
    ;
}

/// The axis that `axis` names in an array of `dimensions` dimensions, where a
/// negative axis counts back from the last one.
pub open spec fn spec_normalize_axis(axis: int, dimensions: int) -> Option<int> {
    let normalized = if axis < 0 {
        axis + dimensions
    } else {
        axis
    };
    if 0 <= normalized < dimensions {
        Some(normalized)
    } else {
        None
    }
}

/// Resolves a possibly negative axis of an array with `dimensions`
/// dimensions; `None` when no such axis exists.
pub fn normalize_axis(axis: isize, dimensions: usize) -> (normalized: Option<usize>)
    requires
        dimensions <= isize::MAX,
    ensures
        match spec_normalize_axis(axis as int, dimensions as int) {
            Some(n) => normalized == Some(n as usize),
            None => normalized is None,
        },
        0 <= axis < dimensions ==> normalized == Some(axis as usize),
        axis < 0 && axis + dimensions >= 0 ==> normalized == Some((axis + dimensions) as usize),
        axis >= dimensions || axis + dimensions < 0 ==> normalized is None,
        normalized matches Some(n) ==> n < dimensions,
{
    let dimension_count = dimensions as isize;
    let normalized = if axis < 0 {
        axis + dimension_count
    } else {
        axis
    };
    if normalized < 0 || normalized >= dimension_count {
        return None;
    }
    Some(normalized as usize)
}

} // verus!
