//! Image-loading helpers: packing decoded RGB bytes into pixels, picking
//! the files worth decoding, and the plane conversions under the names the
//! loader uses.

use vstd::prelude::*;

use crate::image_converter::{
    blue_plane, gray_image, green_plane, luma_plane, recomposed_image, red_plane, ImageConverter,
};
use crate::pixel::pack_argb;
use crate::sample::samples_in_unit;
use vstd::string::StringSliceAdditionalSpecFns;

verus! {

/// The file extensions the loader accepts: `jpg`, `png` and `jpeg`.
pub open spec fn supported_image_extension(ext: Seq<u8>) -> bool {
    ||| ext == seq![106u8, 112u8, 103u8]
    ||| ext == seq![112u8, 110u8, 103u8]
    ||| ext == seq![106u8, 112u8, 101u8, 103u8]
}

pub struct Utility;

impl Utility {
    /// Whether a file extension names a raster format the loader reads.
    pub fn is_supported_image_extension(ext: &str) -> (r: bool)
        ensures
            r == supported_image_extension(ext.spec_bytes()),
    {
        let b = ext.as_bytes();
        if b.len() == 3 {
            let r = (b[0] == 106 && b[1] == 112 && b[2] == 103) || (b[0] == 112 && b[1] == 110
                && b[2] == 103);
            proof {
                if r {
                    if b[0] == 106 {
                        assert(b@ =~= seq![106u8, 112u8, 103u8]);
                    } else {
                        assert(b@ =~= seq![112u8, 110u8, 103u8]);
                    }
                }
            }
            r
        } else if b.len() == 4 {
            let r = b[0] == 106 && b[1] == 112 && b[2] == 101 && b[3] == 103;
            proof {
                if r {
                    assert(b@ =~= seq![106u8, 112u8, 101u8, 103u8]);
                }
            }
            r
        } else {
            false
        }
    }

    /// Pack decoded 8-bit RGB triples into fully opaque ARGB pixels.
    pub fn pack_rgb_pixels(rgb: &[u8]) -> (out: Vec<u32>)
        requires
            rgb@.len() % 3 == 0,
        ensures
            out@.len() * 3 == rgb@.len(),
            forall|i: int|
                0 <= i < out@.len() ==> #[trigger] out@[i] == pack_argb(
                    255,
                    rgb@[3 * i] as u32,
                    rgb@[3 * i + 1] as u32,
                    rgb@[3 * i + 2] as u32,
                ),
    {
        let n = rgb.len() / 3;
        proof {
            vstd::arithmetic::div_mod::lemma_fundamental_div_mod(rgb@.len() as int, 3);
        }
        let mut out: Vec<u32> = Vec::new();
        let mut i: usize = 0;
        while i < n
            invariant
                i <= n,
                n == rgb@.len() / 3,
                rgb@.len() % 3 == 0,
                3 * n == rgb@.len(),
                rgb@.len() <= usize::MAX,
                out@.len() == i,
                forall|j: int|
                    0 <= j < i ==> #[trigger] out@[j] == pack_argb(
                        255,
                        rgb@[3 * j] as u32,
                        rgb@[3 * j + 1] as u32,
                        rgb@[3 * j + 2] as u32,
                    ),
            decreases n - i,
        {
            let r = rgb[3 * i] as u32;
            let g = rgb[3 * i + 1] as u32;
            let b = rgb[3 * i + 2] as u32;
            out.push((255u32 << 24) | (r << 16) | (g << 8) | b);
            i = i + 1;
        }
        out
    }

    /// One luminance sample per pixel.
    pub fn convert_rgb_to_grayscale(pixels: &[u32]) -> (out: Vec<i64>)
        ensures
            out@ == luma_plane(pixels@),
            samples_in_unit(out@),
    {
        ImageConverter::convert_rgb_to_grayscale(pixels)
    }

    /// Broadcast each luminance sample to a gray pixel.
    pub fn convert_grayscale_to_rgb(pixels: &[i64]) -> (out: Vec<u32>)
        ensures
            out@ == gray_image(pixels@),
    {
        ImageConverter::convert_grayscale_to_rgb(pixels)
    }

    /// Split an image into independent R, G and B planes.
    pub fn decompose_rgb(input: &[u32]) -> (out: (Vec<i64>, Vec<i64>, Vec<i64>))
        ensures
            out.0@ == red_plane(input@),
            out.1@ == green_plane(input@),
            out.2@ == blue_plane(input@),
            samples_in_unit(out.0@),
            samples_in_unit(out.1@),
            samples_in_unit(out.2@),
    {
        ImageConverter::decompose_rgb(input)
    }

    /// Clamp each plane to `[0, 1]` and repack, fully opaque.
    pub fn recompose_rgb(r_channel: &[i64], g_channel: &[i64], b_channel: &[i64]) -> (out: Vec<
        u32,
    >)
        requires
            g_channel@.len() == r_channel@.len(),
            b_channel@.len() == r_channel@.len(),
        ensures
            out@ == recomposed_image(r_channel@, g_channel@, b_channel@),
    {
        ImageConverter::recompose_rgb(r_channel, g_channel, b_channel)
    }
}

} // verus!
