//! Fixed-point plane samples.
//!
//! A plane stores one scalar per pixel. The real value `v` (nominally in
//! `[0, 1]`) is represented by the integer `v * UNIT`. `UNIT` is chosen so
//! that every value the pipeline produces is exact: it is divisible by 255
//! (channel intensities), by 10000 (the luminance weights) and by 16 (the
//! Bayer threshold matrix).

use vstd::prelude::*;

verus! {

/// Fixed-point scale: the integer that represents the real value 1.0.
pub const UNIT: i64 = 255 * 10000 * 16;

/// `UNIT / 255`: the sample step for one intensity step of a color channel.
pub const CHANNEL_STEP: i64 = 10000 * 16;

/// A plane whose samples all lie in the nominal range `[0, UNIT]`.
pub open spec fn samples_in_unit(s: Seq<i64>) -> bool {
    forall|i: int| 0 <= i < s.len() ==> 0 <= #[trigger] s[i] <= UNIT
}

/// Clamp a sample to the nominal range `[0, UNIT]`, i.e. to `[0, 1]`.
pub open spec fn clamp_unit(v: int) -> int {
    if v < 0 {
        0
    } else if v > UNIT {
        UNIT as int
    } else {
        v
    }
}

/// The channel intensity (in `0..=255`) that a sample converts back to:
/// clamp to `[0, 1]`, scale by 255, truncate.
pub open spec fn channel_of_sample(v: int) -> int {
    clamp_unit(v) * 255 / (UNIT as int)
}

/// The sample that represents a channel intensity `c / 255`.
pub open spec fn sample_of_channel(c: int) -> int {
    c * CHANNEL_STEP
}

pub proof fn lemma_channel_of_sample_bounds(v: int)
    ensures
        0 <= channel_of_sample(v) <= 255,
{
    let c = clamp_unit(v);
    assert(0 <= c * 255 / (UNIT as int) <= 255) by (nonlinear_arith)
        requires
            0 <= c <= UNIT as int,
    ;
}

/// Converting a channel intensity to a sample and back is exact.
pub proof fn lemma_channel_sample_round_trip(c: int)
    requires
        0 <= c <= 255,
    ensures
        channel_of_sample(sample_of_channel(c)) == c,
{
    let s = c * (CHANNEL_STEP as int);
    assert(0 <= s <= UNIT as int && s * 255 == c * (UNIT as int)) by (nonlinear_arith)
        requires
            0 <= c <= 255,
            s == c * (CHANNEL_STEP as int),
            CHANNEL_STEP == 160000i64,
            UNIT == 40800000i64,
    ;
    assert(c * (UNIT as int) / (UNIT as int) == c) by (nonlinear_arith)
        requires
            UNIT as int > 0,
    ;
}

pub fn clamp_to_unit(v: i64) -> (r: i64)
    ensures
        r == clamp_unit(v as int),
{
    if v < 0 {
        0
    } else if v > UNIT {
        UNIT
    } else {
        v
    }
}

/// Exact executable counterpart of [`channel_of_sample`].
pub fn sample_to_channel(v: i64) -> (r: u32)
    ensures
        r == channel_of_sample(v as int),
        r <= 255,
{
    let c = clamp_to_unit(v);
    proof {
        lemma_channel_of_sample_bounds(v as int);
        assert(c * 255 <= UNIT * 255) by (nonlinear_arith)
            requires
                0 <= c <= UNIT,
        ;
    }
    ((c * 255) / UNIT) as u32
}

/// [`sample_to_channel`] for sums that are formed outside the `i64` range.
pub fn sample_to_channel_wide(v: i128) -> (r: u32)
    ensures
        r == channel_of_sample(v as int),
        r <= 255,
{
    let clamped: i64 = if v < 0 {
        0
    } else if v > UNIT as i128 {
        UNIT
    } else {
        v as i64
    };
    assert(clamp_unit(clamped as int) == clamp_unit(v as int));
    sample_to_channel(clamped)
}

/// Exact executable counterpart of [`sample_of_channel`].
pub fn channel_to_sample(c: u32) -> (r: i64)
    requires
        c <= 255,
    ensures
        r == sample_of_channel(c as int),
        0 <= r <= UNIT,
{
    proof {
        assert((c as i64) * CHANNEL_STEP <= UNIT) by (nonlinear_arith)
            requires
                0 <= c <= 255,
        ;
    }
    (c as i64) * CHANNEL_STEP
}

} // verus!
