//! Packed ARGB pixels.
//!
//! A pixel is a `u32` with byte fields alpha, red, green, blue from the most
//! significant byte down. These helpers extract and pack the fields; the
//! lemmas state the exact round trips that the recomposition rules rely on.

use vstd::prelude::*;

verus! {

pub open spec fn alpha_of(p: u32) -> u32 {
    (p >> 24) & 0xFF
}

pub open spec fn red_of(p: u32) -> u32 {
    (p >> 16) & 0xFF
}

pub open spec fn green_of(p: u32) -> u32 {
    (p >> 8) & 0xFF
}

pub open spec fn blue_of(p: u32) -> u32 {
    p & 0xFF
}

/// Pack four byte fields into one pixel.
pub open spec fn pack_argb(a: u32, r: u32, g: u32, b: u32) -> u32 {
    (a << 24) | (r << 16) | (g << 8) | b
}

pub proof fn lemma_channel_bounds(p: u32)
    ensures
        alpha_of(p) < 256,
        red_of(p) < 256,
        green_of(p) < 256,
        blue_of(p) < 256,
{
    assert((p >> 24) & 0xFF < 256 && (p >> 16) & 0xFF < 256 && (p >> 8) & 0xFF < 256 && p & 0xFF
        < 256) by (bit_vector);
}

/// Repacking a pixel's own RGB fields with a fully opaque alpha keeps the RGB
/// bytes and forces the alpha byte to 255.
pub proof fn lemma_repack_opaque(p: u32)
    ensures
        pack_argb(255, red_of(p), green_of(p), blue_of(p)) == (p & 0x00FF_FFFF) | 0xFF00_0000,
{
    assert((255u32 << 24) | (((p >> 16) & 0xFF) << 16) | (((p >> 8) & 0xFF) << 8) | (p & 0xFF) == (
    p & 0x00FF_FFFF) | 0xFF00_0000) by (bit_vector);
}

/// Repacking a pixel's RGB fields without an alpha byte masks the alpha
/// byte out and keeps the RGB bytes.
pub proof fn lemma_repack_rgb(p: u32)
    ensures
        (red_of(p) << 16) | (green_of(p) << 8) | blue_of(p) == p & 0x00FF_FFFF,
{
    assert((((p >> 16) & 0xFF) << 16) | (((p >> 8) & 0xFF) << 8) | (p & 0xFF) == p
        & 0x00FF_FFFF) by (bit_vector);
}

pub fn alpha(p: u32) -> (r: u32)
    ensures
        r == alpha_of(p),
        r < 256,
{
    proof {
        lemma_channel_bounds(p);
    }
    (p >> 24) & 0xFF
}

pub fn red(p: u32) -> (r: u32)
    ensures
        r == red_of(p),
        r < 256,
{
    proof {
        lemma_channel_bounds(p);
    }
    (p >> 16) & 0xFF
}

pub fn green(p: u32) -> (r: u32)
    ensures
        r == green_of(p),
        r < 256,
{
    proof {
        lemma_channel_bounds(p);
    }
    (p >> 8) & 0xFF
}

pub fn blue(p: u32) -> (r: u32)
    ensures
        r == blue_of(p),
        r < 256,
{
    proof {
        lemma_channel_bounds(p);
    }
    p & 0xFF
}

pub fn pack(a: u32, r: u32, g: u32, b: u32) -> (p: u32)
    requires
        a < 256,
        r < 256,
        g < 256,
        b < 256,
    ensures
        p == pack_argb(a, r, g, b),
{
    (a << 24) | (r << 16) | (g << 8) | b
}

} // verus!
