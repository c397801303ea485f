//! The compute dispatch engine's reference semantics.
//!
//! A kernel runs once per pixel over a `width x height` domain, reading an
//! input plane and a parameter vector and writing an output plane. The spec
//! functions here define, per entry point and pixel, the exact fixed-point
//! value the kernel writes; `ComputeDispatcher::process` computes that plane
//! and is verified against it. A parameter vector that does not fit the
//! entry point's layout is rejected as a parameter error; the other error
//! kinds arise only on an accelerated backend and are shared with it.

use vstd::prelude::*;

use crate::arith;
use crate::arith::isqrt;
use crate::sample::{samples_in_unit, UNIT};
use crate::filters::EntryPoint;

verus! {

/// What can go wrong in one kernel dispatch: the compute program fails to
/// build, a buffer cannot be allocated or written, the launch fails, the
/// result cannot be read back, or the parameter vector does not fit the
/// layout the kernel expects.
#[derive(Clone, Copy, Debug, PartialEq, Eq, Structural)]
pub enum DispatchError {
    ProgramBuild,
    Resource,
    Launch,
    Readback,
    Parameter,
}

/// The bound the dispatcher accepts on one convolution weight: 16.0, far
/// above the 2.0 the bundled kernels use.
pub const WEIGHT_BOUND: i64 = 652800000;

/// `WEIGHT_BOUND * UNIT`: the largest magnitude of one weighted sample.
pub const CONV_TERM_BOUND: i128 = 26634240000000000;

/// `9 * CONV_TERM_BOUND`: the largest magnitude of a 3x3 weighted sum.
pub const CONV_BOUND: i128 = 239708160000000000;

/// One half of `UNIT`: the weak-edge output level.
pub const HALF_UNIT: i64 = 20400000;

/// `255 * UNIT`: the on level of the dithering kernel, in plane units.
pub const DITHER_ON: i64 = 10404000000;

/// The largest kernel-size element the dispatcher accepts for the windowed
/// kernels.
pub const MAX_KERNEL_SIZE: i64 = 255;

// ---------------------------------------------------------------------------
// Parameter-vector layout.
// ---------------------------------------------------------------------------

/// The window side length encoded in the leading element of a parameter
/// vector, in whole units.
pub open spec fn window_size(opts: Seq<i64>) -> int {
    (opts[0] as int) / (UNIT as int)
}

/// The largest parameter index a windowed blur of size `s` reads.
pub open spec fn blur_last_index(s: int) -> int {
    (2 * (s / 2)) * s + 2 * (s / 2) + 1
}

/// Whether a parameter vector fits the layout the entry point's kernel
/// expects. `process` succeeds exactly on vectors that fit.
pub open spec fn params_wf(entry: EntryPoint, opts: Seq<i64>) -> bool {
    match entry {
        EntryPoint::SobelEdgeDetection | EntryPoint::PrewittEdgeDetection => {
            opts.len() >= 18 && forall|k: int|
                0 <= k < 18 ==> -WEIGHT_BOUND <= #[trigger] opts[k] <= WEIGHT_BOUND
        },
        EntryPoint::CannyEdgeDetection => opts.len() >= 2,
        EntryPoint::GaussianBlur => {
            &&& opts.len() >= 1
            &&& opts[0] >= 0
            &&& 1 <= window_size(opts) <= MAX_KERNEL_SIZE
            &&& opts.len() > blur_last_index(window_size(opts))
            &&& forall|k: int|
                1 <= k <= blur_last_index(window_size(opts)) ==> 0 <= #[trigger] opts[k] <= UNIT
        },
        EntryPoint::LaplacianSharpening => {
            opts.len() >= 9 && forall|k: int|
                0 <= k < 9 ==> -WEIGHT_BOUND <= #[trigger] opts[k] <= WEIGHT_BOUND
        },
        EntryPoint::BayerOrderedDithering => {
            &&& opts.len() >= 1
            &&& opts[0] >= 0
            &&& 1 <= window_size(opts) <= MAX_KERNEL_SIZE
            &&& opts.len() > window_size(opts) * window_size(opts)
        },
    }
}

// ---------------------------------------------------------------------------
// Per-pixel kernel semantics.
// ---------------------------------------------------------------------------

/// A 3x3 weighted sum around `(x, y)`, with the nine weights taken from
/// `opts` starting at `base`, row-major.
pub open spec fn conv3(input: Seq<i64>, opts: Seq<i64>, base: int, w: int, x: int, y: int) -> int {
    opts[base + 0] * input[(y - 1) * w + (x - 1)] + opts[base + 1] * input[(y - 1) * w + x] + opts[
        base + 2] * input[(y - 1) * w + (x + 1)] + opts[base + 3] * input[y * w + (x - 1)] + opts[
        base + 4] * input[y * w + x] + opts[base + 5] * input[y * w + (x + 1)] + opts[base + 6]
        * input[(y + 1) * w + (x - 1)] + opts[base + 7] * input[(y + 1) * w + x] + opts[base + 8]
        * input[(y + 1) * w + (x + 1)]
}

/// Whether `(x, y)` is an interior pixel (more than one pixel from every
/// border).
pub open spec fn interior(w: int, h: int, x: int, y: int) -> bool {
    1 <= x < w - 1 && 1 <= y < h - 1
}

/// The gradient-magnitude kernels: `sqrt(gx^2 + gy^2)` on interior pixels
/// from two 3x3 kernels in the parameter vector, zero on the border.
pub open spec fn grad_pixel(input: Seq<i64>, opts: Seq<i64>, w: int, h: int, x: int, y: int) -> int {
    if interior(w, h, x, y) {
        let gx = conv3(input, opts, 0, w, x, y);
        let gy = conv3(input, opts, 9, w, x, y);
        (isqrt((gx * gx + gy * gy) as nat) as int) / (UNIT as int)
    } else {
        0
    }
}

/// The horizontal Sobel gradient the threshold kernel hardcodes.
pub open spec fn canny_gx(input: Seq<i64>, w: int, x: int, y: int) -> int {
    -input[(y - 1) * w + (x - 1)] + input[(y - 1) * w + (x + 1)] - 2 * input[y * w + (x - 1)] + 2
        * input[y * w + (x + 1)] - input[(y + 1) * w + (x - 1)] + input[(y + 1) * w + (x + 1)]
}

/// The vertical Sobel gradient the threshold kernel hardcodes.
pub open spec fn canny_gy(input: Seq<i64>, w: int, x: int, y: int) -> int {
    -input[(y - 1) * w + (x - 1)] - 2 * input[(y - 1) * w + x] - input[(y - 1) * w + (x + 1)]
        + input[(y + 1) * w + (x - 1)] + 2 * input[(y + 1) * w + x] + input[(y + 1) * w + (x + 1)]
}

/// The gradient magnitude the threshold kernel classifies.
pub open spec fn canny_magnitude(input: Seq<i64>, w: int, x: int, y: int) -> int {
    let gx = canny_gx(input, w, x, y);
    let gy = canny_gy(input, w, x, y);
    isqrt((gx * gx + gy * gy) as nat) as int
}

/// The threshold kernel: classify each interior pixel as a strong edge
/// (1.0), a weak edge (0.5) or no edge (0.0) against the two thresholds in
/// the parameter vector; zero the border.
pub open spec fn canny_pixel(input: Seq<i64>, opts: Seq<i64>, w: int, h: int, x: int, y: int) -> int {
    if interior(w, h, x, y) {
        let m = canny_magnitude(input, w, x, y);
        if m > opts[1] {
            UNIT as int
        } else if m > opts[0] {
            HALF_UNIT as int
        } else {
            0
        }
    } else {
        0
    }
}

/// Whether window cell `(dx, dy)` (counted from the window's top-left) lands
/// inside the image when the window is centered on `(x, y)`.
pub open spec fn blur_cell_in(w: int, h: int, x: int, y: int, half: int, dx: int, dy: int) -> bool {
    x + dx >= half && x + dx - half < w && y + dy >= half && y + dy - half < h
}

/// The blur kernel's weighted sum and weight sum over the first `c` cells of
/// window row `dy`.
pub open spec fn blur_row_sums(
    input: Seq<i64>,
    opts: Seq<i64>,
    size: int,
    half: int,
    w: int,
    h: int,
    x: int,
    y: int,
    dy: int,
    c: int,
) -> (int, int)
    decreases c,
{
    if c <= 0 {
        (0, 0)
    } else {
        let prev = blur_row_sums(input, opts, size, half, w, h, x, y, dy, c - 1);
        let dx = c - 1;
        if blur_cell_in(w, h, x, y, half, dx, dy) {
            let wgt = opts[1 + dy * size + dx] as int;
            (prev.0 + wgt * input[(y + dy - half) * w + (x + dx - half)], prev.1 + wgt)
        } else {
            prev
        }
    }
}

/// The blur kernel's sums over the first `r` full window rows.
pub open spec fn blur_sums(
    input: Seq<i64>,
    opts: Seq<i64>,
    size: int,
    half: int,
    w: int,
    h: int,
    x: int,
    y: int,
    r: int,
) -> (int, int)
    decreases r,
{
    if r <= 0 {
        (0, 0)
    } else {
        let prev = blur_sums(input, opts, size, half, w, h, x, y, r - 1);
        let row = blur_row_sums(input, opts, size, half, w, h, x, y, r - 1, 2 * half + 1);
        (prev.0 + row.0, prev.1 + row.1)
    }
}

/// The blur kernel: average the in-bounds neighbors under the window,
/// weighted by the kernel and renormalized by the weights actually used; if
/// no weight was used, pass the source pixel through.
pub open spec fn blur_pixel(input: Seq<i64>, opts: Seq<i64>, w: int, h: int, x: int, y: int) -> int {
    let size = window_size(opts);
    let half = size / 2;
    let sums = blur_sums(input, opts, size, half, w, h, x, y, 2 * half + 1);
    if sums.1 > 0 {
        sums.0 / sums.1
    } else {
        input[y * w + x] as int
    }
}

/// Truncating division by `UNIT`, as the accelerator's integer conversion
/// truncates: toward zero.
pub open spec fn div_trunc_unit(s: int) -> int {
    if s >= 0 {
        s / (UNIT as int)
    } else {
        -((-s) / (UNIT as int))
    }
}

/// The sharpening kernel: a plain 3x3 weighted sum (a delta, not a
/// magnitude) on interior pixels; borders untouched (zero delta).
pub open spec fn lap_pixel(input: Seq<i64>, opts: Seq<i64>, w: int, h: int, x: int, y: int) -> int {
    if interior(w, h, x, y) {
        div_trunc_unit(conv3(input, opts, 0, w, x, y))
    } else {
        0
    }
}

/// The ordered-dithering kernel: compare each pixel against the threshold
/// matrix cell at `(x mod size, y mod size)` and output all-on (255, in
/// plane units) or zero.
pub open spec fn bayer_pixel(input: Seq<i64>, opts: Seq<i64>, w: int, h: int, x: int, y: int) -> int {
    let size = window_size(opts);
    let threshold = opts[1 + (y % size) * size + (x % size)];
    if input[y * w + x] >= threshold {
        DITHER_ON as int
    } else {
        0
    }
}

/// The value the entry point's kernel writes at `(x, y)`.
pub open spec fn pixel_output(
    entry: EntryPoint,
    input: Seq<i64>,
    opts: Seq<i64>,
    w: int,
    h: int,
    x: int,
    y: int,
) -> int {
    match entry {
        EntryPoint::SobelEdgeDetection => grad_pixel(input, opts, w, h, x, y),
        EntryPoint::PrewittEdgeDetection => grad_pixel(input, opts, w, h, x, y),
        EntryPoint::CannyEdgeDetection => canny_pixel(input, opts, w, h, x, y),
        EntryPoint::GaussianBlur => blur_pixel(input, opts, w, h, x, y),
        EntryPoint::LaplacianSharpening => lap_pixel(input, opts, w, h, x, y),
        EntryPoint::BayerOrderedDithering => bayer_pixel(input, opts, w, h, x, y),
    }
}

/// The whole output plane of one kernel run, row-major.
pub open spec fn kernel_output(
    entry: EntryPoint,
    input: Seq<i64>,
    opts: Seq<i64>,
    w: int,
    h: int,
) -> Seq<i64> {
    Seq::new((w * h) as nat, |i: int| pixel_output(entry, input, opts, w, h, i % w, i / w) as i64)
}

// ---------------------------------------------------------------------------
// Parameter checking.
// ---------------------------------------------------------------------------

/// Check that every element of `opts[from..to]` lies in `[lo, hi]`.
fn check_weight_range(opts: &[i64], from: usize, to: usize, lo: i64, hi: i64) -> (b: bool)
    requires
        to <= opts@.len(),
        from <= to,
    ensures
        b == (forall|k: int| from <= k < to ==> lo <= #[trigger] opts@[k] <= hi),
{
    let mut k = from;
    while k < to
        invariant
            from <= k <= to <= opts@.len(),
            forall|j: int| from <= j < k ==> lo <= #[trigger] opts@[j] <= hi,
        decreases to - k,
    {
        if opts[k] < lo || opts[k] > hi {
            return false;
        }
        k = k + 1;
    }
    true
}

/// Whether the parameter vector fits the entry point's layout (the exact
/// condition under which `process` succeeds).
pub fn check_params(entry: EntryPoint, opts: &[i64]) -> (b: bool)
    ensures
        b == params_wf(entry, opts@),
{
    match entry {
        EntryPoint::SobelEdgeDetection | EntryPoint::PrewittEdgeDetection => {
            opts.len() >= 18 && check_weight_range(opts, 0, 18, -WEIGHT_BOUND, WEIGHT_BOUND)
        },
        EntryPoint::CannyEdgeDetection => opts.len() >= 2,
        EntryPoint::LaplacianSharpening => {
            opts.len() >= 9 && check_weight_range(opts, 0, 9, -WEIGHT_BOUND, WEIGHT_BOUND)
        },
        EntryPoint::GaussianBlur => {
            if opts.len() == 0 {
                return false;
            }
            let first = opts[0];
            if first < 0 {
                return false;
            }
            let size = first / UNIT;
            if size < 1 || size > MAX_KERNEL_SIZE {
                return false;
            }
            proof {
                assert(0 <= (2 * (size / 2)) * size <= 65536) by (nonlinear_arith)
                    requires
                        1 <= size <= 255,
                ;
            }
            let last = (2 * (size / 2)) * size + 2 * (size / 2) + 1;
            if opts.len() <= last as usize {
                return false;
            }
            check_weight_range(opts, 1, (last + 1) as usize, 0, UNIT)
        },
        EntryPoint::BayerOrderedDithering => {
            if opts.len() == 0 {
                return false;
            }
            let first = opts[0];
            if first < 0 {
                return false;
            }
            let size = first / UNIT;
            if size < 1 || size > MAX_KERNEL_SIZE {
                return false;
            }
            proof {
                assert(1 <= size * size <= 65025) by (nonlinear_arith)
                    requires
                        1 <= size <= 255,
                ;
            }
            opts.len() > (size * size) as usize
        },
    }
}

// ---------------------------------------------------------------------------
// Executable kernel evaluation.
// ---------------------------------------------------------------------------

/// One weighted sample.
fn w_term(wv: i64, pv: i64) -> (r: i128)
    requires
        -WEIGHT_BOUND <= wv <= WEIGHT_BOUND,
        0 <= pv <= UNIT,
    ensures
        r == wv * pv,
        -CONV_TERM_BOUND <= r <= CONV_TERM_BOUND,
{
    proof {
        assert(-26634240000000000 <= (wv as int) * (pv as int) <= 26634240000000000)
            by (nonlinear_arith)
            requires
                -652800000 <= (wv as int) <= 652800000,
                0 <= (pv as int) <= 40800000,
        ;
    }
    (wv as i128) * (pv as i128)
}

/// The nine in-bounds indices a 3x3 window centered on an interior pixel
/// reads.
proof fn lemma_window_indices(w: int, h: int, x: int, y: int)
    requires
        1 <= x <= w - 2,
        1 <= y <= h - 2,
    ensures
        0 <= (y - 1) * w,
        (y - 1) * w + (x - 1) < w * h,
        (y - 1) * w + x < w * h,
        (y - 1) * w + (x + 1) < w * h,
        y * w + (x - 1) < w * h,
        y * w + x < w * h,
        y * w + (x + 1) < w * h,
        0 <= (y + 1) * w,
        (y + 1) * w + (x - 1) < w * h,
        (y + 1) * w + x < w * h,
        (y + 1) * w + (x + 1) < w * h,
        (y - 1) * w <= y * w <= (y + 1) * w,
{
    assert(0 <= (y - 1) * w && 0 <= (y + 1) * w && (y + 1) * w + (x + 1) < w * h && (y - 1) * w <= y
        * w <= (y + 1) * w) by (nonlinear_arith)
        requires
            1 <= x <= w - 2,
            1 <= y <= h - 2,
    ;
}

/// Evaluate a 3x3 weighted sum at an interior pixel.
fn conv3_at(pixels: &[i64], opts: &[i64], base: usize, w: usize, h: usize, x: usize, y: usize) -> (s:
    i128)
    requires
        pixels@.len() == (w as int) * (h as int),
        samples_in_unit(pixels@),
        opts@.len() >= base + 9,
        forall|k: int|
            base <= k < base + 9 ==> -WEIGHT_BOUND <= #[trigger] opts@[k] <= WEIGHT_BOUND,
        1 <= (x as int) <= (w as int) - 2,
        1 <= (y as int) <= (h as int) - 2,
    ensures
        s == conv3(pixels@, opts@, base as int, w as int, x as int, y as int),
        -CONV_BOUND <= s <= CONV_BOUND,
{
    let _len = pixels.len();
    proof {
        lemma_window_indices(w as int, h as int, x as int, y as int);
    }
    let r0 = (y - 1) * w;
    let r1 = y * w;
    let r2 = (y + 1) * w;
    let t0 = w_term(opts[base], pixels[r0 + (x - 1)]);
    let t1 = w_term(opts[base + 1], pixels[r0 + x]);
    let t2 = w_term(opts[base + 2], pixels[r0 + (x + 1)]);
    let t3 = w_term(opts[base + 3], pixels[r1 + (x - 1)]);
    let t4 = w_term(opts[base + 4], pixels[r1 + x]);
    let t5 = w_term(opts[base + 5], pixels[r1 + (x + 1)]);
    let t6 = w_term(opts[base + 6], pixels[r2 + (x - 1)]);
    let t7 = w_term(opts[base + 7], pixels[r2 + x]);
    let t8 = w_term(opts[base + 8], pixels[r2 + (x + 1)]);
    t0 + t1 + t2 + t3 + t4 + t5 + t6 + t7 + t8
}

/// Evaluate the gradient-magnitude kernel at one pixel.
fn grad_at(pixels: &[i64], opts: &[i64], w: usize, h: usize, x: usize, y: usize) -> (v: i64)
    requires
        pixels@.len() == (w as int) * (h as int),
        samples_in_unit(pixels@),
        opts@.len() >= 18,
        forall|k: int| 0 <= k < 18 ==> -WEIGHT_BOUND <= #[trigger] opts@[k] <= WEIGHT_BOUND,
        x < w,
        y < h,
    ensures
        v == grad_pixel(pixels@, opts@, w as int, h as int, x as int, y as int),
{
    if x >= 1 && y >= 1 && x + 1 < w && y + 1 < h {
        let gx = conv3_at(pixels, opts, 0, w, h, x, y);
        let gy = conv3_at(pixels, opts, 9, w, h, x, y);
        proof {
            assert(0 <= gx * gx && 0 <= gy * gy && gx * gx + gy * gy
                < 0x1_0000_0000_0000_0000_0000_0000_0000_00) by (nonlinear_arith)
                requires
                    -239708160000000000 <= (gx as int) <= 239708160000000000,
                    -239708160000000000 <= (gy as int) <= 239708160000000000,
            ;
        }
        let sq: i128 = gx * gx + gy * gy;
        let mag: u64 = arith::isqrt_u128(sq as u128);
        (mag / 40800000u64) as i64
    } else {
        0
    }
}

/// Evaluate the threshold edge-detection kernel at one pixel.
fn canny_at(pixels: &[i64], opts: &[i64], w: usize, h: usize, x: usize, y: usize) -> (v: i64)
    requires
        pixels@.len() == (w as int) * (h as int),
        samples_in_unit(pixels@),
        opts@.len() >= 2,
        x < w,
        y < h,
    ensures
        v == canny_pixel(pixels@, opts@, w as int, h as int, x as int, y as int),
{
    if x >= 1 && y >= 1 && x + 1 < w && y + 1 < h {
        let _len = pixels.len();
        proof {
            lemma_window_indices(w as int, h as int, x as int, y as int);
        }
        let r0 = (y - 1) * w;
        let r1 = y * w;
        let r2 = (y + 1) * w;
        let gx: i64 = -pixels[r0 + (x - 1)] + pixels[r0 + (x + 1)] - 2 * pixels[r1 + (x - 1)] + 2
            * pixels[r1 + (x + 1)] - pixels[r2 + (x - 1)] + pixels[r2 + (x + 1)];
        let gy: i64 = -pixels[r0 + (x - 1)] - 2 * pixels[r0 + x] - pixels[r0 + (x + 1)] + pixels[r2
            + (x - 1)] + 2 * pixels[r2 + x] + pixels[r2 + (x + 1)];
        proof {
            assert(0 <= (gx as int) * (gx as int) && 0 <= (gy as int) * (gy as int) && (gx as int)
                * (gx as int) + (gy as int) * (gy as int) <= 213166080000000000)
                by (nonlinear_arith)
                requires
                    -326400000 <= (gx as int) <= 326400000,
                    -326400000 <= (gy as int) <= 326400000,
            ;
        }
        let sq: i128 = (gx as i128) * (gx as i128) + (gy as i128) * (gy as i128);
        let mag: u64 = arith::isqrt_u128(sq as u128);
        proof {
            arith::lemma_isqrt_bounds(sq as nat);
            assert((mag as int) <= 0x4000_0000_0000) by (nonlinear_arith)
                requires
                    (mag as int) * (mag as int) <= sq as int,
                    0 <= (sq as int) <= 213166080000000000,
            ;
        }
        let m: i64 = mag as i64;
        if m > opts[1] {
            UNIT
        } else if m > opts[0] {
            HALF_UNIT
        } else {
            0
        }
    } else {
        0
    }
}

/// Evaluate the sharpening kernel at one pixel.
fn lap_at(pixels: &[i64], opts: &[i64], w: usize, h: usize, x: usize, y: usize) -> (v: i64)
    requires
        pixels@.len() == (w as int) * (h as int),
        samples_in_unit(pixels@),
        opts@.len() >= 9,
        forall|k: int| 0 <= k < 9 ==> -WEIGHT_BOUND <= #[trigger] opts@[k] <= WEIGHT_BOUND,
        x < w,
        y < h,
    ensures
        v == lap_pixel(pixels@, opts@, w as int, h as int, x as int, y as int),
{
    if x >= 1 && y >= 1 && x + 1 < w && y + 1 < h {
        let s = conv3_at(pixels, opts, 0, w, h, x, y);
        let s64 = s as i64;
        s64 / UNIT
    } else {
        0
    }
}

/// Evaluate the ordered-dithering kernel at one pixel.
fn bayer_at(pixels: &[i64], opts: &[i64], w: usize, h: usize, x: usize, y: usize) -> (v: i64)
    requires
        pixels@.len() == (w as int) * (h as int),
        samples_in_unit(pixels@),
        params_wf(EntryPoint::BayerOrderedDithering, opts@),
        x < w,
        y < h,
    ensures
        v == bayer_pixel(pixels@, opts@, w as int, h as int, x as int, y as int),
{
    let _len = pixels.len();
    let first = opts[0];
    let size = (first / UNIT) as usize;
    let mx = x % size;
    let my = y % size;
    proof {
        assert(my * size + mx < size * size) by (nonlinear_arith)
            requires
                0 <= mx < size,
                0 <= my < size,
        ;
        assert((y as int) * (w as int) + (x as int) < (w as int) * (h as int)) by (nonlinear_arith)
            requires
                0 <= (x as int) < (w as int),
                0 <= (y as int) < (h as int),
        ;
        assert(size * size < opts@.len());
    }
    let tidx = 1 + my * size + mx;
    let threshold = opts[tidx];
    if pixels[y * w + x] >= threshold {
        DITHER_ON
    } else {
        0
    }
}

/// Evaluate the blur kernel at one pixel.
fn blur_at(pixels: &[i64], opts: &[i64], w: usize, h: usize, x: usize, y: usize) -> (v: i64)
    requires
        pixels@.len() == (w as int) * (h as int),
        samples_in_unit(pixels@),
        params_wf(EntryPoint::GaussianBlur, opts@),
        x < w,
        y < h,
    ensures
        v == blur_pixel(pixels@, opts@, w as int, h as int, x as int, y as int),
{
    let _len = pixels.len();
    let first = opts[0];
    let size = (first / UNIT) as usize;
    let half = size / 2;
    let win = 2 * half + 1;
    proof {
        assert(2 * ((size as int) / 2) * (size as int) + 2 * ((size as int) / 2) + 1 <= 65536)
            by (nonlinear_arith)
            requires
                1 <= (size as int) <= 255,
        ;
    }
    let mut num: i128 = 0;
    let mut den: i128 = 0;
    let mut dy: usize = 0;
    while dy < win
        invariant
            dy <= win,
            1 <= (size as int) <= 255,
            size as int == window_size(opts@),
            half == size / 2,
            win == 2 * half + 1,
            x < w,
            y < h,
            pixels@.len() == (w as int) * (h as int),
            pixels@.len() <= usize::MAX,
            samples_in_unit(pixels@),
            params_wf(EntryPoint::GaussianBlur, opts@),
            num as int == blur_sums(
                pixels@,
                opts@,
                size as int,
                half as int,
                w as int,
                h as int,
                x as int,
                y as int,
                dy as int,
            ).0,
            den as int == blur_sums(
                pixels@,
                opts@,
                size as int,
                half as int,
                w as int,
                h as int,
                x as int,
                y as int,
                dy as int,
            ).1,
            0 <= den <= (dy as int) * 10404000000,
            0 <= num <= den * 40800000,
        decreases win - dy,
    {
        let mut dx: usize = 0;
        let ghost num0 = num as int;
        let ghost den0 = den as int;
        while dx < win
            invariant
                dx <= win,
                dy < win,
                1 <= (size as int) <= 255,
                size as int == window_size(opts@),
                half == size / 2,
                win == 2 * half + 1,
                x < w,
                y < h,
                pixels@.len() == (w as int) * (h as int),
                pixels@.len() <= usize::MAX,
                samples_in_unit(pixels@),
                params_wf(EntryPoint::GaussianBlur, opts@),
                num0 == blur_sums(
                    pixels@,
                    opts@,
                    size as int,
                    half as int,
                    w as int,
                    h as int,
                    x as int,
                    y as int,
                    dy as int,
                ).0,
                den0 == blur_sums(
                    pixels@,
                    opts@,
                    size as int,
                    half as int,
                    w as int,
                    h as int,
                    x as int,
                    y as int,
                    dy as int,
                ).1,
                num as int == num0 + blur_row_sums(
                    pixels@,
                    opts@,
                    size as int,
                    half as int,
                    w as int,
                    h as int,
                    x as int,
                    y as int,
                    dy as int,
                    dx as int,
                ).0,
                den as int == den0 + blur_row_sums(
                    pixels@,
                    opts@,
                    size as int,
                    half as int,
                    w as int,
                    h as int,
                    x as int,
                    y as int,
                    dy as int,
                    dx as int,
                ).1,
                0 <= den0 <= (dy as int) * 10404000000,
                den0 <= den <= den0 + (dx as int) * 40800000,
                0 <= num <= den * 40800000,
            decreases win - dx,
        {
            let xw = x as u128;
            let yw = y as u128;
            let hw = half as u128;
            if xw + dx as u128 >= hw && xw + dx as u128 - hw < w as u128 && yw + dy as u128 >= hw
                && yw + dy as u128 - hw < h as u128 {
                proof {
                    assert((dy as int) * (size as int) <= (2 * (half as int)) * (size as int)
                        && 0 <= (dy as int) * (size as int) && (dy as int) * (size as int)
                        <= 64770) by (nonlinear_arith)
                        requires
                            0 <= (dy as int) <= 2 * (half as int),
                            1 <= size as int,
                            half as int <= 127,
                            size as int <= 255,
                    ;
                    assert(blur_last_index(size as int) == (2 * (half as int)) * (size as int) + 2
                        * (half as int) + 1);
                }
                let wgt = opts[1 + dy * size + dx];
                let nx = (xw + dx as u128 - hw) as usize;
                let ny = (yw + dy as u128 - hw) as usize;
                proof {
                    assert((ny as int) * (w as int) + (nx as int) < (w as int) * (h as int))
                        by (nonlinear_arith)
                        requires
                            0 <= (nx as int) < (w as int),
                            0 <= (ny as int) < (h as int),
                    ;
                }
                let p = pixels[ny * w + nx];
                proof {
                    assert(0 <= (wgt as int) * (p as int) && (wgt as int) * (p as int) <= (
                    wgt as int) * 40800000) by (nonlinear_arith)
                        requires
                            0 <= (wgt as int),
                            0 <= (p as int) <= 40800000,
                    ;
                }
                num = num + (wgt as i128) * (p as i128);
                den = den + wgt as i128;
            }
            dx = dx + 1;
        }
        dy = dy + 1;
    }
    if den > 0 {
        proof {
            crate::arith::lemma_div_bound(num as int, den as int, 40800000);
        }
        (num / den) as i64
    } else {
        proof {
            assert((y as int) * (w as int) + (x as int) < (w as int) * (h as int))
                by (nonlinear_arith)
                requires
                    0 <= (x as int) < (w as int),
                    0 <= (y as int) < (h as int),
            ;
        }
        pixels[y * w + x]
    }
}

/// Evaluate the entry point's kernel at one pixel.
fn eval_pixel(entry: EntryPoint, pixels: &[i64], opts: &[i64], w: usize, h: usize, x: usize, y: usize) -> (v: i64)
    requires
        pixels@.len() == (w as int) * (h as int),
        samples_in_unit(pixels@),
        params_wf(entry, opts@),
        x < w,
        y < h,
    ensures
        v == pixel_output(entry, pixels@, opts@, w as int, h as int, x as int, y as int),
{
    match entry {
        EntryPoint::SobelEdgeDetection => grad_at(pixels, opts, w, h, x, y),
        EntryPoint::PrewittEdgeDetection => grad_at(pixels, opts, w, h, x, y),
        EntryPoint::CannyEdgeDetection => canny_at(pixels, opts, w, h, x, y),
        EntryPoint::GaussianBlur => blur_at(pixels, opts, w, h, x, y),
        EntryPoint::LaplacianSharpening => lap_at(pixels, opts, w, h, x, y),
        EntryPoint::BayerOrderedDithering => bayer_at(pixels, opts, w, h, x, y),
    }
}

/// Run the entry point's kernel over the whole `w x h` domain.
fn run_kernel(entry: EntryPoint, pixels: &[i64], opts: &[i64], w: usize, h: usize) -> (out: Vec<
    i64,
>)
    requires
        pixels@.len() == (w as int) * (h as int),
        samples_in_unit(pixels@),
        params_wf(entry, opts@),
    ensures
        out@ == kernel_output(entry, pixels@, opts@, w as int, h as int),
{
    let ghost full = kernel_output(entry, pixels@, opts@, w as int, h as int);
    let mut out: Vec<i64> = Vec::new();
    let mut y: usize = 0;
    while y < h
        invariant
            y <= h,
            pixels@.len() == (w as int) * (h as int),
            samples_in_unit(pixels@),
            params_wf(entry, opts@),
            full == kernel_output(entry, pixels@, opts@, w as int, h as int),
            out@.len() == (y as int) * (w as int),
            forall|j: int| 0 <= j < out@.len() ==> #[trigger] out@[j] == full[j],
        decreases h - y,
    {
        let mut x: usize = 0;
        while x < w
            invariant
                x <= w,
                y < h,
                pixels@.len() == (w as int) * (h as int),
                samples_in_unit(pixels@),
                params_wf(entry, opts@),
                full == kernel_output(entry, pixels@, opts@, w as int, h as int),
                out@.len() == (y as int) * (w as int) + x as int,
                forall|j: int| 0 <= j < out@.len() ==> #[trigger] out@[j] == full[j],
            decreases w - x,
        {
            proof {
                assert((y as int) * (w as int) + (x as int) < (w as int) * (h as int) && (y as int)
                    * (w as int) >= 0) by (nonlinear_arith)
                    requires
                        0 <= (x as int) < (w as int),
                        0 <= (y as int) < (h as int),
                ;
                vstd::arithmetic::div_mod::lemma_fundamental_div_mod_converse(
                    (y as int) * (w as int) + x as int,
                    w as int,
                    y as int,
                    x as int,
                );
            }
            let v = eval_pixel(entry, pixels, opts, w, h, x, y);
            out.push(v);
            x = x + 1;
        }
        proof {
            assert((y as int + 1) * (w as int) == (y as int) * (w as int) + w as int)
                by (nonlinear_arith);
        }
        y = y + 1;
    }
    proof {
        assert((h as int) * (w as int) == (w as int) * (h as int)) by (nonlinear_arith);
        assert(out@ =~= full);
    }
    out
}

// ---------------------------------------------------------------------------
// The dispatcher.
// ---------------------------------------------------------------------------

/// One dispatch invocation: an input plane, a parameter vector, and the 2D
/// domain the kernel runs over.
pub struct ComputeDispatcher<'a, 'b> {
    pub pixels: &'a [i64],
    pub options: &'b [i64],
    pub dimensions: (u32, u32),
}

impl<'a, 'b> ComputeDispatcher<'a, 'b> {
    pub fn new(pixels: &'a [i64], options: &'b [i64], dimensions: (u32, u32)) -> (d:
        ComputeDispatcher<'a, 'b>)
        ensures
            d.pixels == pixels,
            d.options == options,
            d.dimensions == dimensions,
    {
        ComputeDispatcher { pixels, options, dimensions }
    }

    /// Run the kernel once per pixel over the `width x height` domain and
    /// return the output plane. Succeeds if and only if the parameter
    /// vector fits the entry point's layout; the output plane then equals
    /// the kernel's per-pixel semantics exactly.
    pub fn process(&self, entry: EntryPoint) -> (r: Result<Vec<i64>, DispatchError>)
        requires
            self.pixels@.len() == (self.dimensions.0 as int) * (self.dimensions.1 as int),
            samples_in_unit(self.pixels@),
        ensures
            match r {
                Ok(out) => params_wf(entry, self.options@) && out@ == kernel_output(
                    entry,
                    self.pixels@,
                    self.options@,
                    self.dimensions.0 as int,
                    self.dimensions.1 as int,
                ),
                Err(e) => e == DispatchError::Parameter && !params_wf(entry, self.options@),
            },
    {
        if !check_params(entry, self.options) {
            return Err(DispatchError::Parameter);
        }
        let w = self.dimensions.0 as usize;
        let h = self.dimensions.1 as usize;
        Ok(run_kernel(entry, self.pixels, self.options, w, h))
    }
}

/// The buffer sizes one accelerated dispatch allocates: input and output
/// buffers sized to the image, and a parameter buffer of at least one
/// element even when the parameter vector is empty.
pub struct DispatchPlan {
    pub input_len: usize,
    pub output_len: usize,
    pub options_len: usize,
    pub global_dims: (u32, u32),
}

/// Law: the threshold kernel reports no edge anywhere on a flat field, for
/// any nonnegative thresholds: the raw gradient magnitude is exactly zero.
pub proof fn lemma_uniform_plane_canny_zero(
    input: Seq<i64>,
    opts: Seq<i64>,
    w: int,
    h: int,
    x: int,
    y: int,
)
    requires
        input.len() == w * h,
        forall|i: int| 0 <= i < input.len() ==> #[trigger] input[i] == input[0],
        opts.len() >= 2,
        opts[0] >= 0,
        opts[1] >= 0,
        0 <= x < w,
        0 <= y < h,
    ensures
        canny_pixel(input, opts, w, h, x, y) == 0,
{
    if interior(w, h, x, y) {
        lemma_window_indices(w, h, x, y);
        assert(canny_gx(input, w, x, y) == 0);
        assert(canny_gy(input, w, x, y) == 0);
        assert(0 * 0 + 0 * 0 == 0) by (nonlinear_arith);
        assert(canny_magnitude(input, w, x, y) == 0);
    }
}

/// Law: the gradient-magnitude kernels write zero everywhere on a flat
/// field, with either of the bundled gradient kernel pairs.
pub proof fn lemma_uniform_plane_gradient_zero(
    input: Seq<i64>,
    opts: Seq<i64>,
    w: int,
    h: int,
    x: int,
    y: int,
)
    requires
        input.len() == w * h,
        forall|i: int| 0 <= i < input.len() ==> #[trigger] input[i] == input[0],
        opts == crate::filters::sobel_options() || opts == crate::filters::prewitt_options(),
        0 <= x < w,
        0 <= y < h,
    ensures
        grad_pixel(input, opts, w, h, x, y) == 0,
{
    if interior(w, h, x, y) {
        lemma_window_indices(w, h, x, y);
        let v = input[0] as int;
        assert(conv3(input, opts, 0, w, x, y) == 0) by {
            assert(opts[0] + opts[1] + opts[2] + opts[3] + opts[4] + opts[5] + opts[6] + opts[7]
                + opts[8] == 0);
            lemma_conv3_const(input, opts, 0, w, x, y, v);
            assert((opts[0] + opts[1] + opts[2] + opts[3] + opts[4] + opts[5] + opts[6] + opts[7]
                + opts[8]) * v == 0) by (nonlinear_arith)
                requires
                    opts[0] + opts[1] + opts[2] + opts[3] + opts[4] + opts[5] + opts[6] + opts[7]
                        + opts[8] == 0,
            ;
        }
        assert(conv3(input, opts, 9, w, x, y) == 0) by {
            assert(opts[9] + opts[10] + opts[11] + opts[12] + opts[13] + opts[14] + opts[15]
                + opts[16] + opts[17] == 0);
            lemma_conv3_const(input, opts, 9, w, x, y, v);
            assert((opts[9] + opts[10] + opts[11] + opts[12] + opts[13] + opts[14] + opts[15]
                + opts[16] + opts[17]) * v == 0) by (nonlinear_arith)
                requires
                    opts[9] + opts[10] + opts[11] + opts[12] + opts[13] + opts[14] + opts[15]
                        + opts[16] + opts[17] == 0,
            ;
        }
        assert(0 * 0 + 0 * 0 == 0) by (nonlinear_arith);
        arith::lemma_isqrt_bounds(0);
        assert((0int) / (UNIT as int) == 0) by (nonlinear_arith)
            requires
                UNIT == 40800000i64,
        ;
    }
}

/// A 3x3 weighted sum over a constant plane is the weight sum scaled by the
/// plane's value.
proof fn lemma_conv3_const(input: Seq<i64>, opts: Seq<i64>, base: int, w: int, x: int, y: int, v: int)
    requires
        forall|i: int| 0 <= i < input.len() ==> #[trigger] input[i] == input[0],
        v == input[0],
        opts.len() >= base + 9,
        base >= 0,
        1 <= x < w - 1,
        0 <= (y - 1) * w + (x - 1),
        (y + 1) * w + (x + 1) < input.len(),
        (y - 1) * w <= y * w <= (y + 1) * w,
    ensures
        conv3(input, opts, base, w, x, y) == (opts[base + 0] + opts[base + 1] + opts[base + 2]
            + opts[base + 3] + opts[base + 4] + opts[base + 5] + opts[base + 6] + opts[base + 7]
            + opts[base + 8]) * v,
{
    let s = opts[base + 0] + opts[base + 1] + opts[base + 2] + opts[base + 3] + opts[base + 4]
        + opts[base + 5] + opts[base + 6] + opts[base + 7] + opts[base + 8];
    assert(conv3(input, opts, base, w, x, y) == opts[base + 0] * v + opts[base + 1] * v + opts[base
        + 2] * v + opts[base + 3] * v + opts[base + 4] * v + opts[base + 5] * v + opts[base + 6]
        * v + opts[base + 7] * v + opts[base + 8] * v);
    assert(opts[base + 0] * v + opts[base + 1] * v + opts[base + 2] * v + opts[base + 3] * v
        + opts[base + 4] * v + opts[base + 5] * v + opts[base + 6] * v + opts[base + 7] * v
        + opts[base + 8] * v == s * v) by (nonlinear_arith)
        requires
            s == opts[base + 0] + opts[base + 1] + opts[base + 2] + opts[base + 3] + opts[base + 4]
                + opts[base + 5] + opts[base + 6] + opts[base + 7] + opts[base + 8],
    ;
}

/// Law: the dithering kernel turns a constant plane all-on when the plane's
/// value is at least every threshold matrix entry.
pub proof fn lemma_uniform_dither_all_on(
    input: Seq<i64>,
    opts: Seq<i64>,
    w: int,
    h: int,
    x: int,
    y: int,
)
    requires
        input.len() == w * h,
        forall|i: int| 0 <= i < input.len() ==> #[trigger] input[i] == input[0],
        params_wf(EntryPoint::BayerOrderedDithering, opts),
        forall|k: int|
            1 <= k <= window_size(opts) * window_size(opts) ==> input[0] >= #[trigger] opts[k],
        0 <= x < w,
        0 <= y < h,
    ensures
        bayer_pixel(input, opts, w, h, x, y) == DITHER_ON,
{
    let size = window_size(opts);
    vstd::arithmetic::div_mod::lemma_mod_division_less_than_divisor(x, size);
    vstd::arithmetic::div_mod::lemma_mod_division_less_than_divisor(y, size);
    let mx = x % size;
    let my = y % size;
    assert(1 <= 1 + my * size + mx <= size * size) by (nonlinear_arith)
        requires
            0 <= mx < size,
            0 <= my < size,
    ;
    assert(0 <= y * w + x < w * h) by (nonlinear_arith)
        requires
            0 <= x < w,
            0 <= y < h,
    ;
    assert(input[y * w + x] == input[0]);
    assert(input[0] >= opts[1 + my * size + mx]);
}

/// Compute the buffer sizes for one dispatch over a `width x height` domain.
pub fn plan_dispatch(width: u32, height: u32, n_options: usize) -> (p: DispatchPlan)
    requires
        (width as int) * (height as int) <= usize::MAX,
    ensures
        p.input_len == (width as int) * (height as int),
        p.output_len == p.input_len,
        p.options_len == if n_options == 0 { 1int } else { n_options as int },
        p.global_dims == (width, height),
{
    let len = (width as usize) * (height as usize);
    let options_len = if n_options == 0 {
        1
    } else {
        n_options
    };
    DispatchPlan { input_len: len, output_len: len, options_len, global_dims: (width, height) }
}

} // verus!
