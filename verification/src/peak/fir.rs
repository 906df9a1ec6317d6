//! Tap tables and window arithmetic of the FIR filters used for true-peak
//! estimation.

use vstd::prelude::*;

verus! {

/// Phases of the ITU-R BS.1770-5 Annex 2 interpolator.
pub const BS1770_PHASE_COUNT: usize = 4;

/// Taps per phase of the BS.1770-5 interpolator.
pub const BS1770_TAP_COUNT: usize = 12;

/// The tap that lines up with the frame being estimated: the window spans six
/// frames before it and five after it.
pub const BS1770_CENTER_TAP: usize = 6;

/// Every published BS.1770-5 coefficient is an exact multiple of 2^-13; the
/// table below holds each coefficient times this denominator.
pub const BS1770_COEFFICIENT_DENOMINATOR: i32 = 8192;

/// Taps per phase of the pre-upsampling filter bank.
pub const PRE_UPSAMPLE_TAPS: usize = 64;

/// The tap of the pre-upsampling filter that lines up with the source frame.
pub const PRE_UPSAMPLE_CENTER_TAP: usize = 31;

/// The order-48, four-phase interpolator published in BS.1770-5, phase-major,
/// in units of 2^-13.
pub open spec fn bs1770_numerators() -> Seq<Seq<i32>> {
    seq![
        seq![14i32, 90i32, -161i32, 272i32, -487i32, 1125i32, 7964i32, -838i32, 390i32, -218i32, 122i32, -68i32],
        seq![-239i32, 240i32, -424i32, 730i32, -1364i32, 3810i32, 6388i32, -1641i32, 832i32, -477i32, 271i32, -155i32],
        seq![-155i32, 271i32, -477i32, 832i32, -1641i32, 6388i32, 3810i32, -1364i32, 730i32, -424i32, 240i32, -239i32],
        seq![-68i32, 122i32, -218i32, 390i32, -838i32, 7964i32, 1125i32, -487i32, 272i32, -161i32, 90i32, 14i32],
    ]
}

/// The taps of one BS.1770-5 phase in units of 2^-13
/// ([`BS1770_COEFFICIENT_DENOMINATOR`]).
pub fn bs1770_phase_numerators(phase: usize) -> (taps: [i32; 12])
    requires
        phase < BS1770_PHASE_COUNT,
    ensures
        taps@ == bs1770_numerators()[phase as int],
{
    let taps: [i32; 12] = if phase == 0 {
        [14, 90, -161, 272, -487, 1125, 7964, -838, 390, -218, 122, -68]
    } else if phase == 1 {
        [-239, 240, -424, 730, -1364, 3810, 6388, -1641, 832, -477, 271, -155]
    } else if phase == 2 {
        [-155, 271, -477, 832, -1641, 6388, 3810, -1364, 730, -424, 240, -239]
    } else {
        [-68, 122, -218, 390, -838, 7964, 1125, -487, 272, -161, 90, 14]
    };
    assert(taps@ == bs1770_numerators()[phase as int]);
    taps
}

/// The BS.1770-5 phases are mirror images of each other: phase `p` read
/// backwards is phase `3 - p`. This is what lets a pair of phases share the
/// products of one mirrored convolution.
pub proof fn lemma_bs1770_phases_mirror(phase: int, tap: int)
    requires
        0 <= phase < BS1770_PHASE_COUNT,
        0 <= tap < BS1770_TAP_COUNT,
    ensures
        bs1770_numerators()[phase][tap] == bs1770_numerators()[3 - phase][11 - tap],
{
    let table = bs1770_numerators();
    assert(table[0] =~= table[3].reverse());
    assert(table[1] =~= table[2].reverse());
}

/// The source frame that tap `tap` of a window aligned at tap `center` on
/// frame `frame` reads.
pub open spec fn tap_source(frame: int, tap: int, center: int) -> int {
    frame + tap - center
}

/// Whether every tap of a `taps`-tap window aligned at tap `center` on frame
/// `frame` reads a frame inside a signal of `frame_count` frames.
pub open spec fn window_inside(frame: int, taps: int, center: int, frame_count: int) -> bool {
    forall|tap: int| 0 <= tap < taps ==> 0 <= #[trigger] tap_source(frame, tap, center) < frame_count
}

/// The frame that tap `tap` of the window on `frame` reads, or `None` where
/// the window reaches past either end of a signal of `frame_count` frames and
/// the tap reads an implicit zero.
pub fn source_frame_at_tap(frame: usize, tap: usize, center: usize, frame_count: usize) -> (source: Option<usize>)
    requires
        frame + tap <= usize::MAX,
    ensures
        0 <= tap_source(frame as int, tap as int, center as int) < frame_count ==> source == Some(
            tap_source(frame as int, tap as int, center as int) as usize,
        ),
        !(0 <= tap_source(frame as int, tap as int, center as int) < frame_count) ==> source is None,
{
    let reach = frame + tap;
    if reach < center {
        return None;
    }
    let source = reach - center;
    if source < frame_count {
        Some(source)
    } else {
        None
    }
}

/// Splits `frame_count` frames for a `taps`-tap filter aligned at `center`:
/// frames before the first returned bound and from the second one on are
/// boundary frames, the ones between are interior frames. A signal too short
/// for any complete window has no interior and is all leading boundary.
proof fn lemma_interior_bounds(frame_count: int, taps: int, center: int, start: int, end: int)
    requires
        0 < taps,
        0 <= center < taps,
        frame_count >= 0,
        frame_count < taps ==> start == frame_count && end == frame_count,
        frame_count >= taps ==> start == center && end == frame_count - (taps - center - 1),
    ensures
        forall|frame: int|
            0 <= frame < frame_count ==> (start <= frame < end <==> window_inside(
                frame,
                taps,
                center,
                frame_count,
            )),
{
    assert forall|frame: int| 0 <= frame < frame_count implies (start <= frame < end
        <==> window_inside(frame, taps, center, frame_count)) by {
        if start <= frame < end {
            assert forall|tap: int| 0 <= tap < taps implies 0 <= #[trigger] tap_source(
                frame,
                tap,
                center,
            ) < frame_count by {}
        } else if frame < center {
            assert(!(0 <= tap_source(frame, 0, center)));
        } else {
            assert(!(tap_source(frame, taps - 1, center) < frame_count));
        }
    }
}

/// Interior bounds of the pre-upsampling filter: the frames whose whole
/// window lies inside the signal are exactly those in `start..end`.
pub fn calc_pre_upsample_interior_bounds(frame_count: usize) -> (bounds: (usize, usize))
    ensures
        frame_count < PRE_UPSAMPLE_TAPS ==> bounds == (frame_count, frame_count),
        frame_count >= PRE_UPSAMPLE_TAPS ==> bounds == (
            PRE_UPSAMPLE_CENTER_TAP,
            (frame_count - (PRE_UPSAMPLE_TAPS - PRE_UPSAMPLE_CENTER_TAP - 1)) as usize,
        ),
        bounds.0 <= bounds.1 <= frame_count,
        forall|frame: int|
            0 <= frame < frame_count ==> (bounds.0 <= frame < bounds.1 <==> window_inside(
                frame,
                PRE_UPSAMPLE_TAPS as int,
                PRE_UPSAMPLE_CENTER_TAP as int,
                frame_count as int,
            )),
{
    let bounds = if frame_count < PRE_UPSAMPLE_TAPS {
        (frame_count, frame_count)
    } else {
        (PRE_UPSAMPLE_CENTER_TAP, frame_count - (PRE_UPSAMPLE_TAPS - PRE_UPSAMPLE_CENTER_TAP - 1))
    };
    proof {
        lemma_interior_bounds(
            frame_count as int,
            PRE_UPSAMPLE_TAPS as int,
            PRE_UPSAMPLE_CENTER_TAP as int,
            bounds.0 as int,
            bounds.1 as int,
        );
    }
    bounds
}

/// Interior bounds of the BS.1770-5 interpolator: the frames whose whole
/// window lies inside the signal are exactly those in `start..end`.
pub fn calc_bs1770_interior_bounds(frame_count: usize) -> (bounds: (usize, usize))
    ensures
        frame_count < BS1770_TAP_COUNT ==> bounds == (frame_count, frame_count),
        frame_count >= BS1770_TAP_COUNT ==> bounds == (
            BS1770_CENTER_TAP,
            (frame_count - (BS1770_TAP_COUNT - BS1770_CENTER_TAP - 1)) as usize,
        ),
        bounds.0 <= bounds.1 <= frame_count,
        forall|frame: int|
            0 <= frame < frame_count ==> (bounds.0 <= frame < bounds.1 <==> window_inside(
                frame,
                BS1770_TAP_COUNT as int,
                BS1770_CENTER_TAP as int,
                frame_count as int,
            )),
{
    let bounds = if frame_count < BS1770_TAP_COUNT {
        (frame_count, frame_count)
    } else {
        (BS1770_CENTER_TAP, frame_count - (BS1770_TAP_COUNT - BS1770_CENTER_TAP - 1))
    };
    proof {
        lemma_interior_bounds(
            frame_count as int,
            BS1770_TAP_COUNT as int,
            BS1770_CENTER_TAP as int,
            bounds.0 as int,
            bounds.1 as int,
        );
    }
    bounds
}

} // verus!
