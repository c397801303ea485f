//! Pixel transfer: packed ARGB pixels to and from fixed-point planes.
//!
//! Four plane producers/consumers: grayscale (one luminance plane), the three
//! color planes, and the two recomposition rules (plain replace, and additive
//! blending with the original image). Each function's contract gives the
//! exact per-pixel value; the lemmas at the end state the round-trip laws.

use vstd::prelude::*;

use crate::pixel;
use crate::pixel::{alpha_of, blue_of, green_of, pack_argb, red_of};
use crate::sample;
use crate::sample::{channel_of_sample, clamp_unit, sample_of_channel, samples_in_unit, CHANNEL_STEP, UNIT};

verus! {

/// The luminance sample of a pixel: `0.2989 r + 0.5870 g + 0.1140 b` with the
/// channels normalized to `[0, 1]`, carried out exactly at scale `UNIT`
/// (`UNIT = 255 * 10000 * 16`, so one channel step times one weight step is
/// the integer 16).
pub open spec fn luma_sample(p: u32) -> int {
    16 * (2989 * red_of(p) + 5870 * green_of(p) + 1140 * blue_of(p))
}

/// The sample a color channel of a pixel decomposes to.
pub open spec fn red_sample(p: u32) -> int {
    sample_of_channel(red_of(p) as int)
}

pub open spec fn green_sample(p: u32) -> int {
    sample_of_channel(green_of(p) as int)
}

pub open spec fn blue_sample(p: u32) -> int {
    sample_of_channel(blue_of(p) as int)
}

/// The gray pixel a luminance sample converts back to: the channel intensity
/// broadcast to R, G and B, with a zero alpha byte.
pub open spec fn gray_pixel_of(v: int) -> u32 {
    (((channel_of_sample(v) as u32) << 16) | ((channel_of_sample(v) as u32) << 8) | (
    channel_of_sample(v) as u32))
}

/// The fully opaque pixel three recomposed samples pack into.
pub open spec fn recomposed_pixel(r: int, g: int, b: int) -> u32 {
    pack_argb(
        255,
        channel_of_sample(r) as u32,
        channel_of_sample(g) as u32,
        channel_of_sample(b) as u32,
    )
}

/// The luminance plane of an image.
pub open spec fn luma_plane(input: Seq<u32>) -> Seq<i64> {
    Seq::new(input.len(), |i: int| luma_sample(input[i]) as i64)
}

/// The red plane of an image.
pub open spec fn red_plane(input: Seq<u32>) -> Seq<i64> {
    Seq::new(input.len(), |i: int| red_sample(input[i]) as i64)
}

/// The green plane of an image.
pub open spec fn green_plane(input: Seq<u32>) -> Seq<i64> {
    Seq::new(input.len(), |i: int| green_sample(input[i]) as i64)
}

/// The blue plane of an image.
pub open spec fn blue_plane(input: Seq<u32>) -> Seq<i64> {
    Seq::new(input.len(), |i: int| blue_sample(input[i]) as i64)
}

/// A plane broadcast to gray pixels.
pub open spec fn gray_image(p: Seq<i64>) -> Seq<u32> {
    Seq::new(p.len(), |i: int| gray_pixel_of(p[i] as int))
}

/// Three planes clamped and repacked, fully opaque.
pub open spec fn recomposed_image(r: Seq<i64>, g: Seq<i64>, b: Seq<i64>) -> Seq<u32> {
    Seq::new(r.len(), |i: int| recomposed_pixel(r[i] as int, g[i] as int, b[i] as int))
}

/// Three delta planes added onto the original image's channels, clamped and
/// repacked, fully opaque.
pub open spec fn recomposed_image_with_original(
    r: Seq<i64>,
    g: Seq<i64>,
    b: Seq<i64>,
    original: Seq<u32>,
) -> Seq<u32> {
    Seq::new(
        r.len(),
        |i: int|
            recomposed_pixel(
                r[i] + red_sample(original[i]),
                g[i] + green_sample(original[i]),
                b[i] + blue_sample(original[i]),
            ),
    )
}

/// A zero sample broadcasts to the all-black pixel.
pub proof fn lemma_gray_pixel_zero()
    ensures
        gray_pixel_of(0) == 0u32,
{
    vstd::arithmetic::div_mod::lemma_div_of0(UNIT as int);
    assert(channel_of_sample(0) == 0);
    assert((0u32 << 16) | (0u32 << 8) | 0u32 == 0u32) by (bit_vector);
}

pub proof fn lemma_luma_sample_bounds(p: u32)
    ensures
        0 <= luma_sample(p) < UNIT,
{
    pixel::lemma_channel_bounds(p);
}

/// The luminance plane is a well-formed plane of the image's length.
pub proof fn lemma_luma_plane_wf(input: Seq<u32>)
    ensures
        luma_plane(input).len() == input.len(),
        samples_in_unit(luma_plane(input)),
{
    assert forall|i: int| 0 <= i < luma_plane(input).len() implies 0 <= #[trigger] luma_plane(
        input,
    )[i] <= UNIT by {
        lemma_luma_sample_bounds(input[i]);
    }
}

/// The color planes are well-formed planes of the image's length.
pub proof fn lemma_color_planes_wf(input: Seq<u32>)
    ensures
        red_plane(input).len() == input.len(),
        green_plane(input).len() == input.len(),
        blue_plane(input).len() == input.len(),
        samples_in_unit(red_plane(input)),
        samples_in_unit(green_plane(input)),
        samples_in_unit(blue_plane(input)),
{
    assert forall|i: int| 0 <= i < input.len() implies 0 <= #[trigger] red_plane(input)[i]
        <= UNIT by {
        pixel::lemma_channel_bounds(input[i]);
        assert(0 <= red_of(input[i]) * (CHANNEL_STEP as int) <= UNIT) by (nonlinear_arith)
            requires
                0 <= red_of(input[i]) <= 255,
                CHANNEL_STEP == 160000i64,
                UNIT == 40800000i64,
        ;
    }
    assert forall|i: int| 0 <= i < input.len() implies 0 <= #[trigger] green_plane(input)[i]
        <= UNIT by {
        pixel::lemma_channel_bounds(input[i]);
        assert(0 <= green_of(input[i]) * (CHANNEL_STEP as int) <= UNIT) by (nonlinear_arith)
            requires
                0 <= green_of(input[i]) <= 255,
                CHANNEL_STEP == 160000i64,
                UNIT == 40800000i64,
        ;
    }
    assert forall|i: int| 0 <= i < input.len() implies 0 <= #[trigger] blue_plane(input)[i]
        <= UNIT by {
        pixel::lemma_channel_bounds(input[i]);
        assert(0 <= blue_of(input[i]) * (CHANNEL_STEP as int) <= UNIT) by (nonlinear_arith)
            requires
                0 <= blue_of(input[i]) <= 255,
                CHANNEL_STEP == 160000i64,
                UNIT == 40800000i64,
        ;
    }
}

pub struct ImageConverter;

impl ImageConverter {
    /// One luminance sample per pixel.
    pub fn convert_rgb_to_grayscale(pixels: &[u32]) -> (out: Vec<i64>)
        ensures
            out@.len() == pixels@.len(),
            forall|i: int|
                0 <= i < pixels@.len() ==> out@[i] == luma_sample(
                    #[trigger] pixels@[i],
                ),
            forall|i: int| 0 <= i < out@.len() ==> 0 <= #[trigger] out@[i] < UNIT,
            out@ == luma_plane(pixels@),
            samples_in_unit(out@),
    {
        let mut out: Vec<i64> = Vec::new();
        let mut i: usize = 0;
        while i < pixels.len()
            invariant
                i <= pixels@.len(),
                out@.len() == i,
                forall|j: int|
                    0 <= j < i ==> out@[j] == luma_sample(
                        #[trigger] pixels@[j],
                    ),
                forall|j: int| 0 <= j < i ==> 0 <= #[trigger] out@[j] < UNIT,
            decreases pixels@.len() - i,
        {
            let p = pixels[i];
            let r = pixel::red(p) as i64;
            let g = pixel::green(p) as i64;
            let b = pixel::blue(p) as i64;
            let v: i64 = 16 * (2989 * r + 5870 * g + 1140 * b);
            proof {
                lemma_luma_sample_bounds(p);
            }
            out.push(v);
            i = i + 1;
        }
        proof {
            assert(out@ =~= luma_plane(pixels@));
        }
        out
    }

    /// Broadcast each luminance sample to a gray pixel.
    pub fn convert_grayscale_to_rgb(pixels: &[i64]) -> (out: Vec<u32>)
        ensures
            out@.len() == pixels@.len(),
            forall|i: int|
                0 <= i < pixels@.len() ==> out@[i] == gray_pixel_of(
                    #[trigger] pixels@[i] as int,
                ),
            out@ == gray_image(pixels@),
    {
        let mut out: Vec<u32> = Vec::new();
        let mut i: usize = 0;
        while i < pixels.len()
            invariant
                i <= pixels@.len(),
                out@.len() == i,
                forall|j: int|
                    0 <= j < i ==> out@[j] == gray_pixel_of(
                        #[trigger] pixels@[j] as int,
                    ),
            decreases pixels@.len() - i,
        {
            let c = sample::sample_to_channel(pixels[i]);
            out.push((c << 16) | (c << 8) | c);
            i = i + 1;
        }
        proof {
            assert(out@ =~= gray_image(pixels@));
        }
        out
    }

    /// Split an image into independent R, G and B planes.
    pub fn decompose_rgb(input: &[u32]) -> (out: (Vec<i64>, Vec<i64>, Vec<i64>))
        ensures
            out.0@.len() == input@.len(),
            out.1@.len() == input@.len(),
            out.2@.len() == input@.len(),
            forall|i: int|
                0 <= i < input@.len() ==> out.0@[i] == red_sample(#[trigger] input@[i]),
            forall|i: int|
                0 <= i < input@.len() ==> out.1@[i] == green_sample(#[trigger] input@[i]),
            forall|i: int|
                0 <= i < input@.len() ==> out.2@[i] == blue_sample(#[trigger] input@[i]),
            forall|i: int| 0 <= i < input@.len() ==> 0 <= #[trigger] out.0@[i] <= UNIT,
            forall|i: int| 0 <= i < input@.len() ==> 0 <= #[trigger] out.1@[i] <= UNIT,
            forall|i: int| 0 <= i < input@.len() ==> 0 <= #[trigger] out.2@[i] <= UNIT,
            out.0@ == red_plane(input@),
            out.1@ == green_plane(input@),
            out.2@ == blue_plane(input@),
            samples_in_unit(out.0@),
            samples_in_unit(out.1@),
            samples_in_unit(out.2@),
    {
        let mut r_channel: Vec<i64> = Vec::new();
        let mut g_channel: Vec<i64> = Vec::new();
        let mut b_channel: Vec<i64> = Vec::new();
        let mut i: usize = 0;
        while i < input.len()
            invariant
                i <= input@.len(),
                r_channel@.len() == i,
                g_channel@.len() == i,
                b_channel@.len() == i,
                forall|j: int|
                    0 <= j < i ==> r_channel@[j] == red_sample(#[trigger] input@[j]),
                forall|j: int|
                    0 <= j < i ==> g_channel@[j] == green_sample(#[trigger] input@[j]),
                forall|j: int|
                    0 <= j < i ==> b_channel@[j] == blue_sample(#[trigger] input@[j]),
                forall|j: int| 0 <= j < i ==> 0 <= #[trigger] r_channel@[j] <= UNIT,
                forall|j: int| 0 <= j < i ==> 0 <= #[trigger] g_channel@[j] <= UNIT,
                forall|j: int| 0 <= j < i ==> 0 <= #[trigger] b_channel@[j] <= UNIT,
            decreases input@.len() - i,
        {
            let p = input[i];
            r_channel.push(sample::channel_to_sample(pixel::red(p)));
            g_channel.push(sample::channel_to_sample(pixel::green(p)));
            b_channel.push(sample::channel_to_sample(pixel::blue(p)));
            i = i + 1;
        }
        proof {
            assert(r_channel@ =~= red_plane(input@));
            assert(g_channel@ =~= green_plane(input@));
            assert(b_channel@ =~= blue_plane(input@));
        }
        (r_channel, g_channel, b_channel)
    }

    /// Clamp each plane to `[0, 1]` and repack, fully opaque.
    pub fn recompose_rgb(r_channel: &[i64], g_channel: &[i64], b_channel: &[i64]) -> (out: Vec<
        u32,
    >)
        requires
            g_channel@.len() == r_channel@.len(),
            b_channel@.len() == r_channel@.len(),
        ensures
            out@.len() == r_channel@.len(),
            forall|i: int|
                0 <= i < r_channel@.len() ==> #[trigger] out@[i] == recomposed_pixel(
                    r_channel@[i] as int,
                    g_channel@[i] as int,
                    b_channel@[i] as int,
                ),
            out@ == recomposed_image(r_channel@, g_channel@, b_channel@),
    {
        let mut out: Vec<u32> = Vec::new();
        let mut i: usize = 0;
        while i < r_channel.len()
            invariant
                i <= r_channel@.len(),
                g_channel@.len() == r_channel@.len(),
                b_channel@.len() == r_channel@.len(),
                out@.len() == i,
                forall|j: int|
                    0 <= j < i ==> #[trigger] out@[j] == recomposed_pixel(
                        r_channel@[j] as int,
                        g_channel@[j] as int,
                        b_channel@[j] as int,
                    ),
            decreases r_channel@.len() - i,
        {
            let r = sample::sample_to_channel(r_channel[i]);
            let g = sample::sample_to_channel(g_channel[i]);
            let b = sample::sample_to_channel(b_channel[i]);
            out.push(pixel::pack(255, r, g, b));
            i = i + 1;
        }
        proof {
            assert(out@ =~= recomposed_image(r_channel@, g_channel@, b_channel@));
        }
        out
    }

    /// Add each plane to the matching channel of the original image (both at
    /// scale `UNIT`), clamp and repack, fully opaque. The planes carry
    /// *deltas* here, so they may be negative or exceed `UNIT`.
    pub fn recompose_rgb_with_original(
        r_channel: &[i64],
        g_channel: &[i64],
        b_channel: &[i64],
        original: &[u32],
    ) -> (out: Vec<u32>)
        requires
            g_channel@.len() == r_channel@.len(),
            b_channel@.len() == r_channel@.len(),
            original@.len() == r_channel@.len(),
        ensures
            out@.len() == r_channel@.len(),
            forall|i: int|
                0 <= i < r_channel@.len() ==> #[trigger] out@[i] == recomposed_pixel(
                    r_channel@[i] + red_sample(original@[i]),
                    g_channel@[i] + green_sample(original@[i]),
                    b_channel@[i] + blue_sample(original@[i]),
                ),
            out@ == recomposed_image_with_original(r_channel@, g_channel@, b_channel@, original@),
    {
        let mut out: Vec<u32> = Vec::new();
        let mut i: usize = 0;
        while i < r_channel.len()
            invariant
                i <= r_channel@.len(),
                g_channel@.len() == r_channel@.len(),
                b_channel@.len() == r_channel@.len(),
                original@.len() == r_channel@.len(),
                out@.len() == i,
                forall|j: int|
                    0 <= j < i ==> #[trigger] out@[j] == recomposed_pixel(
                        r_channel@[j] + red_sample(original@[j]),
                        g_channel@[j] + green_sample(original@[j]),
                        b_channel@[j] + blue_sample(original@[j]),
                    ),
            decreases r_channel@.len() - i,
        {
            let p = original[i];
            let orig_r = sample::channel_to_sample(pixel::red(p));
            let orig_g = sample::channel_to_sample(pixel::green(p));
            let orig_b = sample::channel_to_sample(pixel::blue(p));
            let r = sample::sample_to_channel_wide(r_channel[i] as i128 + orig_r as i128);
            let g = sample::sample_to_channel_wide(g_channel[i] as i128 + orig_g as i128);
            let b = sample::sample_to_channel_wide(b_channel[i] as i128 + orig_b as i128);
            out.push(pixel::pack(255, r, g, b));
            i = i + 1;
        }
        proof {
            assert(out@ =~= recomposed_image_with_original(
                r_channel@,
                g_channel@,
                b_channel@,
                original@,
            ));
        }
        out
    }
}

/// The intensity that the gray round trip assigns to a pixel: the exact
/// integer luminance `(2989 r + 5870 g + 1140 b) / 10000`, truncated. It
/// differs from the luminance rounded to the nearest integer by at most one.
pub open spec fn luma_channel(p: u32) -> int {
    (2989 * red_of(p) + 5870 * green_of(p) + 1140 * blue_of(p)) / 10000
}

/// Law: converting an image to grayscale and back yields a gray pixel
/// (R = G = B) whose channel value is the truncated integer luminance.
pub proof fn lemma_grayscale_round_trip(p: u32)
    ensures
        red_of(gray_pixel_of(luma_sample(p))) == luma_channel(p),
        green_of(gray_pixel_of(luma_sample(p))) == luma_channel(p),
        blue_of(gray_pixel_of(luma_sample(p))) == luma_channel(p),
        alpha_of(gray_pixel_of(luma_sample(p))) == 0,
{
    lemma_luma_sample_bounds(p);
    let w = 2989 * red_of(p) + 5870 * green_of(p) + 1140 * blue_of(p);
    let v = luma_sample(p);
    assert(clamp_unit(v) == v);
    assert(v * 255 / (UNIT as int) == w / 10000) by (nonlinear_arith)
        requires
            v == 16 * w,
            0 <= w,
            UNIT == 40800000i64,
    ;
    let c = channel_of_sample(v) as u32;
    sample::lemma_channel_of_sample_bounds(v);
    assert(red_of((c << 16) | (c << 8) | c) == c && green_of((c << 16) | (c << 8) | c) == c
        && blue_of((c << 16) | (c << 8) | c) == c && alpha_of((c << 16) | (c << 8) | c)
        == 0) by (bit_vector)
        requires
            c < 256,
    ;
}

/// Law: decomposing an image into R, G and B planes and recomposing them
/// reproduces the RGB bytes exactly, with the alpha byte forced to 255.
pub proof fn lemma_decompose_recompose(p: u32)
    ensures
        recomposed_pixel(red_sample(p), green_sample(p), blue_sample(p)) == (p & 0x00FF_FFFF)
            | 0xFF00_0000,
{
    pixel::lemma_channel_bounds(p);
    sample::lemma_channel_sample_round_trip(red_of(p) as int);
    sample::lemma_channel_sample_round_trip(green_of(p) as int);
    sample::lemma_channel_sample_round_trip(blue_of(p) as int);
    pixel::lemma_repack_opaque(p);
}

/// Law: additive recomposition of an all-zero delta plane is the identity on
/// the RGB bytes (the alpha byte is forced to 255).
pub proof fn lemma_additive_identity(p: u32)
    ensures
        recomposed_pixel(
            0 + red_sample(p),
            0 + green_sample(p),
            0 + blue_sample(p),
        ) == (p & 0x00FF_FFFF) | 0xFF00_0000,
{
    lemma_decompose_recompose(p);
}

/// [`lemma_grayscale_round_trip`], stated over a whole image.
pub proof fn lemma_grayscale_round_trip_image(pixels: Seq<u32>)
    ensures
        gray_image(luma_plane(pixels)).len() == pixels.len(),
        forall|i: int|
            0 <= i < pixels.len() ==> {
                let g = #[trigger] gray_image(luma_plane(pixels))[i];
                red_of(g) == luma_channel(pixels[i]) && green_of(g) == luma_channel(pixels[i])
                    && blue_of(g) == luma_channel(pixels[i]) && alpha_of(g) == 0
            },
{
    assert forall|i: int|
        0 <= i < pixels.len() implies {
        let g = #[trigger] gray_image(luma_plane(pixels))[i];
        red_of(g) == luma_channel(pixels[i]) && green_of(g) == luma_channel(pixels[i]) && blue_of(
            g,
        ) == luma_channel(pixels[i]) && alpha_of(g) == 0
    } by {
        lemma_grayscale_round_trip(pixels[i]);
    }
}

/// [`lemma_decompose_recompose`], stated over a whole image.
pub proof fn lemma_decompose_recompose_image(pixels: Seq<u32>)
    ensures
        recomposed_image(red_plane(pixels), green_plane(pixels), blue_plane(pixels)).len()
            == pixels.len(),
        forall|i: int|
            0 <= i < pixels.len() ==> #[trigger] recomposed_image(
                red_plane(pixels),
                green_plane(pixels),
                blue_plane(pixels),
            )[i] == (pixels[i] & 0x00FF_FFFF) | 0xFF00_0000,
{
    assert forall|i: int|
        0 <= i < pixels.len() implies #[trigger] recomposed_image(
        red_plane(pixels),
        green_plane(pixels),
        blue_plane(pixels),
    )[i] == (pixels[i] & 0x00FF_FFFF) | 0xFF00_0000 by {
        lemma_decompose_recompose(pixels[i]);
    }
}

/// [`lemma_additive_identity`], stated over a whole image: an all-zero delta
/// plane leaves the image unchanged but for the forced alpha byte.
pub proof fn lemma_additive_identity_image(pixels: Seq<u32>, deltas: Seq<i64>)
    requires
        deltas.len() == pixels.len(),
        forall|i: int| 0 <= i < deltas.len() ==> #[trigger] deltas[i] == 0i64,
    ensures
        forall|i: int|
            0 <= i < pixels.len() ==> #[trigger] recomposed_image_with_original(
                deltas,
                deltas,
                deltas,
                pixels,
            )[i] == (pixels[i] & 0x00FF_FFFF) | 0xFF00_0000,
{
    assert forall|i: int|
        0 <= i < pixels.len() implies #[trigger] recomposed_image_with_original(
        deltas,
        deltas,
        deltas,
        pixels,
    )[i] == (pixels[i] & 0x00FF_FFFF) | 0xFF00_0000 by {
        lemma_additive_identity(pixels[i]);
    }
}

} // verus!
