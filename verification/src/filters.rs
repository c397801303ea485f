//! The filter contract and the six concrete filters.
//!
//! Each filter supplies a compute-program source, an entry point, and a rule
//! that derives its numeric parameter vector from the image's luminance
//! plane. Parameter vectors carry fixed-point samples at scale `UNIT` (a
//! convolution weight of -2.0 is stored as `-2 * UNIT`); their exact
//! contents are given by the `*_options` spec functions below.

use vstd::prelude::*;

use crate::arith;
use crate::arith::{isqrt, lemma_div_bound, sum_seq, sum_sq_dev};
use crate::sample::{samples_in_unit, UNIT};

verus! {

/// The kernel entry points. The channel-routing policy switches on this
/// identity, so it stands as an explicit tag rather than as a string match.
#[derive(Clone, Copy, Debug, PartialEq, Eq, Structural)]
pub enum EntryPoint {
    SobelEdgeDetection,
    PrewittEdgeDetection,
    CannyEdgeDetection,
    GaussianBlur,
    LaplacianSharpening,
    BayerOrderedDithering,
}

/// The function name a kernel entry point is invoked through.
pub open spec fn entry_name(e: EntryPoint) -> Seq<char> {
    match e {
        EntryPoint::SobelEdgeDetection => "sobelEdgeDetection"@,
        EntryPoint::PrewittEdgeDetection => "prewittEdgeDetection"@,
        EntryPoint::CannyEdgeDetection => "cannyEdgeDetection"@,
        EntryPoint::GaussianBlur => "gaussianBlur"@,
        EntryPoint::LaplacianSharpening => "laplacianSharpening"@,
        EntryPoint::BayerOrderedDithering => "bayerOrderedDithering"@,
    }
}

// ---------------------------------------------------------------------------
// The compute programs. Each kernel's per-pixel semantics is stated by the
// dispatcher's spec functions; the text here is what an accelerated backend
// compiles and runs.
// ---------------------------------------------------------------------------

pub const SOBEL_KERNEL_SOURCE: &'static str = r#"
            __kernel void sobelEdgeDetection(
                __global const float* inputImage,
                __global float* outputImage,
                __global const float* options,
                const int width, const int height) {

                int x = get_global_id(0);
                int y = get_global_id(1);

                if (x < 1 || y < 1 || x >= width - 1 || y >= height - 1)
                    return; // Skip the borders

                float edgeX = 0.0, edgeY = 0.0;
                for (int i = -1; i <= 1; i++)
                {
                    for (int j = -1; j <= 1; j++)
                    {
                        float pixel = inputImage[(y + i) * width + (x + j)];
                        edgeX += options[(i + 1) * 3 + (j + 1)] * pixel;
                        edgeY += options[9 + (i + 1) * 3 + (j + 1)] * pixel;
                    }
                }

                // Calculate magnitude of gradient
                float magnitude = sqrt(edgeX * edgeX + edgeY * edgeY);
                outputImage[y * width + x] = magnitude;
            }
            "#;

/// The program text of the Sobel kernel.
pub open spec fn sobel_kernel_source() -> Seq<char> {
    SOBEL_KERNEL_SOURCE@
}

pub const PREWITT_KERNEL_SOURCE: &'static str = r#"
            __kernel void prewittEdgeDetection(
                __global const float* inputImage,
                __global float* outputImage,
                __global const float* options,
                const int width, const int height) {

                int x = get_global_id(0);
                int y = get_global_id(1);

                if (x < 1 || y < 1 || x >= width - 1 || y >= height - 1)
                    return; // Skip the borders

                float edgeX = 0.0, edgeY = 0.0;
                for (int i = -1; i <= 1; i++)
                {
                    for (int j = -1; j <= 1; j++)
                    {
                        float pixel = inputImage[(y + i) * width + (x + j)];
                        edgeX += options[(i + 1) * 3 + (j + 1)] * pixel;
                        edgeY += options[9 + (i + 1) * 3 + (j + 1)] * pixel;
                    }
                }

                // Calculate magnitude of gradient
                float magnitude = sqrt(edgeX * edgeX + edgeY * edgeY);
                outputImage[y * width + x] = magnitude;
            }
            "#;

/// The program text of the Prewitt kernel.
pub open spec fn prewitt_kernel_source() -> Seq<char> {
    PREWITT_KERNEL_SOURCE@
}

pub const CANNY_KERNEL_SOURCE: &'static str = r#"
            __kernel void cannyEdgeDetection(
                __global const float* inputImage,
                __global float* outputImage,
                __global const float* options,
                const int width,
                const int height) {
                int x = get_global_id(0);
                int y = get_global_id(1);

                if (x < 1 || y < 1 || x >= width - 1 || y >= height - 1) {
                    outputImage[y * width + x] = 0.0;
                    return; // Skip the borders
                }

                // Sobel X and Y kernels
                float Gx[3][3] = {{-1, 0, 1}, {-2, 0, 2}, {-1, 0, 1}};
                float Gy[3][3] = {{-1, -2, -1}, {0, 0, 0}, {1, 2, 1}};

                float edgeX = 0.0;
                float edgeY = 0.0;

                for (int i = -1; i <= 1; i++) {
                    for (int j = -1; j <= 1; j++) {
                        float pixel = inputImage[(y + i) * width + (x + j)];
                        edgeX += Gx[i + 1][j + 1] * pixel;
                        edgeY += Gy[i + 1][j + 1] * pixel;
                    }
                }

                // Calculate magnitude of gradient
                float magnitude = sqrt(edgeX * edgeX + edgeY * edgeY);

                // Apply thresholds
                float lowThreshold = options[0];
                float highThreshold = options[1];
                if (magnitude > highThreshold) {
                    outputImage[y * width + x] = 1.0; // Strong edge
                } else if (magnitude > lowThreshold) {
                    outputImage[y * width + x] = 0.5; // Weak edge
                } else {
                    outputImage[y * width + x] = 0.0; // No edge
                }
            }
            "#;

/// The program text of the threshold edge-detection kernel.
pub open spec fn canny_kernel_source() -> Seq<char> {
    CANNY_KERNEL_SOURCE@
}

pub const GAUSSIAN_KERNEL_SOURCE: &'static str = r#"
            __kernel void gaussianBlur(
                __global const float* inputImage,
                __global float* outputImage,
                __global const float* options,
                const int width,
                const int height) {

                int x = get_global_id(0);
                int y = get_global_id(1);

                int kernelOffset = 1;
                int kernelSize = (int)options[0];
                int halfKernel = kernelSize / 2;

                float sum = 0.0;
                float weightSum = 0.0;

                for (int ky = -halfKernel; ky <= halfKernel; ky++) {
                    for (int kx = -halfKernel; kx <= halfKernel; kx++) {
                        int nx = x + kx;
                        int ny = y + ky;

                        if (nx >= 0 && ny >= 0 && nx < width && ny < height) {
                            float pixel = inputImage[ny * width + nx];
                            int kernelIndex = (ky + halfKernel) * kernelSize + (kx + halfKernel);
                            float weight = options[kernelIndex + kernelOffset];
                            sum += pixel * weight;
                            weightSum += weight;
                        }
                    }
                }

                if (weightSum > 0.0) {
                    outputImage[y * width + x] = sum / weightSum;
                } else {
                    outputImage[y * width + x] = inputImage[y * width + x];
                }
            }
            "#;

/// The program text of the Gaussian blur kernel.
pub open spec fn gaussian_kernel_source() -> Seq<char> {
    GAUSSIAN_KERNEL_SOURCE@
}

pub const LAPLACIAN_KERNEL_SOURCE: &'static str = r#"
                __kernel void laplacianSharpening(
                    __global const float* inputImage,
                    __global float* outputImage,
                    __global const float* options,
                    const int width, const int height) {

                    int x = get_global_id(0);
                    int y = get_global_id(1);

                    if (x < 1 || y < 1 || x >= width - 1 || y >= height - 1)
                        return; // Skip the borders

                    float value = 0.0;
                    for (int i = -1; i <= 1; i++)
                    {
                        for (int j = -1; j <= 1; j++)
                        {
                            float pixel = inputImage[(y + i) * width + (x + j)];
                            value += options[(i + 1) * 3 + (j + 1)] * pixel;
                        }
                    }

                    outputImage[y * width + x] = value;
                }
            "#;

/// The program text of the Laplacian sharpening kernel.
pub open spec fn laplacian_kernel_source() -> Seq<char> {
    LAPLACIAN_KERNEL_SOURCE@
}

pub const BAYER_KERNEL_SOURCE: &'static str = r#"
                __kernel void bayerOrderedDithering(
                    __global const float* inputImage,
                    __global float* outputImage,
                    __global const float* options,
                    const int width,
                    const int height) {

                    int x = get_global_id(0);
                    int y = get_global_id(1);

                    // Check if the current pixel is within bounds
                    if (x >= width || y >= height) {
                        return;
                    }

                    int idx = y * width + x;
                    float old_pixel = inputImage[idx];

                    // Get the threshold matrix size (first element in options)
                    int matrix_size = (int)options[0];

                    // Get the corresponding threshold value from the threshold matrix
                    int matrix_x = x % matrix_size;
                    int matrix_y = y % matrix_size;
                    float threshold = options[1 + matrix_y * matrix_size + matrix_x]; // Flattened matrix

                    // Quantize the pixel based on the threshold
                    float new_pixel = old_pixel >= threshold ? 255.0f : 0.0f;

                    // Set the output pixel to the quantized value
                    outputImage[idx] = new_pixel;
                }
            "#;

/// The program text of the ordered-dithering kernel.
pub open spec fn bayer_kernel_source() -> Seq<char> {
    BAYER_KERNEL_SOURCE@
}

/// A filter: a compute program, an entry point, and a parameter derivation.
pub trait ImageFilter {
    /// The entry point this filter's kernel is invoked through.
    spec fn entry(&self) -> EntryPoint;

    /// What `compute_options` asks of the luminance plane it is given.
    spec fn options_req(&self, pixels: Seq<i64>) -> bool;

    /// The exact parameter vector this filter derives.
    spec fn spec_options(&self, pixels: Seq<i64>) -> Seq<i64>;

    /// The compute-program text this filter supplies, constant per filter.
    spec fn kernel_text(&self) -> Seq<char>;

    fn entry_point(&self) -> (e: EntryPoint)
        ensures
            e == self.entry(),
    ;

    /// The compute-program source and the name of its entry point.
    fn get_kernel(&self) -> (k: (&'static str, &'static str))
        ensures
            k.0@ == self.kernel_text(),
            k.1@ == entry_name(self.entry()),
    ;

    /// Derive the parameter vector from the image's luminance plane.
    fn compute_options(&self, pixels: &[i64]) -> (opts: Vec<i64>)
        requires
            self.options_req(pixels@),
        ensures
            opts@ == self.spec_options(pixels@),
    ;
}

pub struct SobelFilter;

pub struct PrewittFilter;

pub struct CannyFilter;

pub struct GaussianBlur;

pub struct LaplacianSharpening;

pub struct BayerOrderedDithering;

/// A closed choice of filter, for heterogeneous filter lists.
#[derive(Clone, Copy, Debug, PartialEq, Eq, Structural)]
pub enum FilterKind {
    Sobel,
    Prewitt,
    Canny,
    Gaussian,
    Laplacian,
    Bayer,
}

pub const NEG_UNIT: i64 = 0 - UNIT;

pub const TWO_UNIT: i64 = 2 * UNIT;

pub const NEG_TWO_UNIT: i64 = 0 - 2 * UNIT;

pub const FOUR_UNIT: i64 = 4 * UNIT;

pub const FIVE_UNIT: i64 = 5 * UNIT;

/// `UNIT / 16`: one step of the normalized Bayer threshold matrix.
pub const BAYER_STEP: i64 = 2550000;

/// Two flattened 3x3 kernels: horizontal then vertical Sobel gradient.
pub open spec fn sobel_options() -> Seq<i64> {
    seq![
        NEG_UNIT,
        0i64,
        UNIT,
        NEG_TWO_UNIT,
        0i64,
        TWO_UNIT,
        NEG_UNIT,
        0i64,
        UNIT,
        NEG_UNIT,
        NEG_TWO_UNIT,
        NEG_UNIT,
        0i64,
        0i64,
        0i64,
        UNIT,
        TWO_UNIT,
        UNIT,
    ]
}

/// Two flattened 3x3 kernels: horizontal then vertical Prewitt gradient.
pub open spec fn prewitt_options() -> Seq<i64> {
    seq![
        NEG_UNIT,
        0i64,
        UNIT,
        NEG_UNIT,
        0i64,
        UNIT,
        NEG_UNIT,
        0i64,
        UNIT,
        NEG_UNIT,
        NEG_UNIT,
        NEG_UNIT,
        0i64,
        0i64,
        0i64,
        UNIT,
        UNIT,
        UNIT,
    ]
}

/// The flattened 3x3 Laplacian kernel: center 4, orthogonal neighbors -1.
pub open spec fn laplacian_options() -> Seq<i64> {
    seq![0i64, NEG_UNIT, 0i64, NEG_UNIT, FOUR_UNIT, NEG_UNIT, 0i64, NEG_UNIT, 0i64]
}

/// The matrix size followed by the flattened 4x4 Bayer matrix, each cell
/// divided by 16.
pub open spec fn bayer_options() -> Seq<i64> {
    seq![
        FOUR_UNIT,
        0i64,
        (8 * BAYER_STEP) as i64,
        (2 * BAYER_STEP) as i64,
        (10 * BAYER_STEP) as i64,
        (12 * BAYER_STEP) as i64,
        (4 * BAYER_STEP) as i64,
        (14 * BAYER_STEP) as i64,
        (6 * BAYER_STEP) as i64,
        (3 * BAYER_STEP) as i64,
        (11 * BAYER_STEP) as i64,
        (1 * BAYER_STEP) as i64,
        (9 * BAYER_STEP) as i64,
        (15 * BAYER_STEP) as i64,
        (7 * BAYER_STEP) as i64,
        (13 * BAYER_STEP) as i64,
        (5 * BAYER_STEP) as i64,
    ]
}

// ---------------------------------------------------------------------------
// Gaussian weight derivation.
// ---------------------------------------------------------------------------
// The unnormalized weight of a cell at squared distance d2 from the center is
// exp(-d2 / 2) for sigma 1, tabulated here at scale UNIT. A 5x5 kernel only
// ever sees d2 in {0, 1, 2, 4, 5, 8}.

pub const GAUSS_EXP_0: i64 = 40800000;

pub const GAUSS_EXP_1: i64 = 24746451;

pub const GAUSS_EXP_2: i64 = 15009481;

pub const GAUSS_EXP_4: i64 = 5521680;

pub const GAUSS_EXP_5: i64 = 3349068;

pub const GAUSS_EXP_8: i64 = 747278;

/// The unnormalized 5x5 Gaussian kernel (sigma 1), flattened row-major.
pub open spec fn gaussian_base() -> Seq<i64> {
    seq![
        GAUSS_EXP_8,
        GAUSS_EXP_5,
        GAUSS_EXP_4,
        GAUSS_EXP_5,
        GAUSS_EXP_8,
        GAUSS_EXP_5,
        GAUSS_EXP_2,
        GAUSS_EXP_1,
        GAUSS_EXP_2,
        GAUSS_EXP_5,
        GAUSS_EXP_4,
        GAUSS_EXP_1,
        GAUSS_EXP_0,
        GAUSS_EXP_1,
        GAUSS_EXP_4,
        GAUSS_EXP_5,
        GAUSS_EXP_2,
        GAUSS_EXP_1,
        GAUSS_EXP_2,
        GAUSS_EXP_5,
        GAUSS_EXP_8,
        GAUSS_EXP_5,
        GAUSS_EXP_4,
        GAUSS_EXP_5,
        GAUSS_EXP_8,
    ]
}

/// Weights scaled so that they sum to `UNIT` (i.e. to 1.0), up to one unit
/// of truncation per weight.
pub open spec fn normalized_seq(s: Seq<i64>) -> Seq<i64> {
    s.map(|i: int, w: i64| ((w * UNIT) / sum_seq(s)) as i64)
}

/// The kernel size followed by the flattened normalized Gaussian kernel.
pub open spec fn gaussian_options() -> Seq<i64> {
    seq![FIVE_UNIT] + normalized_seq(gaussian_base())
}

/// Scale a vector of positive weights so that it sums to `UNIT`.
pub fn normalize_weights(weights: &Vec<i64>) -> (out: Vec<i64>)
    requires
        1 <= weights@.len() <= 1000,
        forall|i: int| 0 <= i < weights@.len() ==> 0 < #[trigger] weights@[i] <= UNIT,
    ensures
        out@ == normalized_seq(weights@),
        forall|i: int| 0 <= i < out@.len() ==> 0 <= #[trigger] out@[i] <= UNIT,
{
    let n = weights.len();
    let mut total: i64 = 0;
    let mut i: usize = 0;
    while i < n
        invariant
            i <= n,
            n == weights@.len() <= 1000,
            forall|k: int| 0 <= k < weights@.len() ==> 0 < #[trigger] weights@[k] <= UNIT,
            total == sum_seq(weights@.take(i as int)),
            0 <= total <= (i as int) * (UNIT as int),
        decreases n - i,
    {
        proof {
            assert(weights@.take(i as int + 1).drop_last() =~= weights@.take(i as int));
            assert(((i as int) + 1) * (UNIT as int) == (i as int) * (UNIT as int) + UNIT as int)
                by (nonlinear_arith);
        }
        total = total + weights[i];
        i = i + 1;
    }
    proof {
        assert(weights@.take(n as int) =~= weights@);
        arith::lemma_sum_seq_bounds(weights@, 1, UNIT as int);
        assert(weights@.len() * 1 == weights@.len()) by (nonlinear_arith);
    }
    let mut out: Vec<i64> = Vec::new();
    i = 0;
    while i < n
        invariant
            i <= n,
            n == weights@.len() <= 1000,
            forall|k: int| 0 <= k < weights@.len() ==> 0 < #[trigger] weights@[k] <= UNIT,
            total == sum_seq(weights@),
            weights@.len() <= total <= weights@.len() * (UNIT as int),
            out@.len() == i,
            forall|k: int|
                0 <= k < i ==> #[trigger] out@[k] == ((weights@[k] * UNIT) / sum_seq(weights@))
                    as i64,
            forall|k: int| 0 <= k < i ==> 0 <= #[trigger] out@[k] <= UNIT,
        decreases n - i,
    {
        let w = weights[i];
        proof {
            arith::lemma_sum_seq_elem(weights@, i as int);
            assert(w * UNIT <= total * (UNIT as int)) by (nonlinear_arith)
                requires
                    0 < w <= total,
                    UNIT > 0,
            ;
            lemma_div_bound(w * UNIT, total as int, UNIT as int);
            assert(0 <= w * UNIT) by (nonlinear_arith)
                requires
                    0 < w,
                    UNIT > 0,
            ;
        }
        out.push((w * UNIT) / total);
        i = i + 1;
    }
    proof {
        assert(out@ =~= normalized_seq(weights@));
    }
    out
}

/// Law: however the weights are configured, the normalized weight vector
/// sums to `UNIT` (i.e. to 1.0), short at most one truncation unit per
/// weight. For the 25 Gaussian weights that error is below 25 / UNIT, far
/// inside a 1e-4 tolerance.
pub proof fn lemma_normalized_weights_sum(s: Seq<i64>)
    requires
        s.len() >= 1,
        forall|i: int| 0 <= i < s.len() ==> 0 < #[trigger] s[i] <= UNIT,
    ensures
        UNIT - s.len() <= sum_seq(normalized_seq(s)) <= UNIT,
{
    arith::lemma_sum_seq_bounds(s, 1, UNIT as int);
    assert(s.len() * 1 == s.len()) by (nonlinear_arith);
    let total = sum_seq(s);
    lemma_normalized_prefix(s, s.len() as int);
    assert(s.take(s.len() as int) =~= s);
    assert(normalized_seq(s).take(s.len() as int) =~= normalized_seq(s));
    vstd::arithmetic::div_mod::lemma_div_multiples_vanish(UNIT as int, total);
    assert(total * (UNIT as int) == sum_seq(s) * (UNIT as int));
}

proof fn lemma_normalized_prefix(s: Seq<i64>, k: int)
    requires
        s.len() >= 1,
        forall|i: int| 0 <= i < s.len() ==> 0 < #[trigger] s[i] <= UNIT,
        0 <= k <= s.len(),
        sum_seq(s) > 0,
    ensures
        sum_seq(s.take(k)) * (UNIT as int) / sum_seq(s) - k <= sum_seq(normalized_seq(s).take(k)),
        sum_seq(normalized_seq(s).take(k)) <= sum_seq(s.take(k)) * (UNIT as int) / sum_seq(s),
    decreases k,
{
    let total = sum_seq(s);
    let ns = normalized_seq(s);
    if k == 0 {
        assert(sum_seq(s.take(0)) == 0);
        assert(sum_seq(ns.take(0)) == 0);
        assert(0 * (UNIT as int) == 0) by (nonlinear_arith);
    } else {
        lemma_normalized_prefix(s, k - 1);
        assert(s.take(k).drop_last() =~= s.take(k - 1));
        assert(ns.take(k).drop_last() =~= ns.take(k - 1));
        let sp = sum_seq(s.take(k - 1));
        let w = s[k - 1] as int;
        assert(sum_seq(s.take(k)) == sp + w);
        assert(ns[k - 1] == ((w * UNIT) / total) as i64);
        arith::lemma_sum_seq_bounds(s.take(k - 1), 1, UNIT as int);
        assert((k - 1) * 1 <= sp) by (nonlinear_arith)
            requires
                sp >= (k - 1) * 1,
        ;
        assert(0 <= sp * (UNIT as int) && 0 <= w * (UNIT as int) && (sp + w) * (UNIT as int) == sp
            * (UNIT as int) + w * (UNIT as int)) by (nonlinear_arith)
            requires
                0 <= sp,
                0 < w,
                UNIT > 0,
        ;
        arith::lemma_div_sum_bounds(sp * (UNIT as int), w * (UNIT as int), total);
        // The stored normalized weight is the exact quotient: it is in i64 range.
        arith::lemma_sum_seq_elem(s, k - 1);
        assert(w * UNIT <= total * (UNIT as int)) by (nonlinear_arith)
            requires
                0 < w <= total,
                UNIT > 0,
        ;
        lemma_div_bound(w * (UNIT as int), total, UNIT as int);
        assert(sum_seq(ns.take(k)) == sum_seq(ns.take(k - 1)) + (w * UNIT) / total);
    }
}

// ---------------------------------------------------------------------------
// Canny threshold derivation: mean and standard deviation of the plane.
// ---------------------------------------------------------------------------

pub open spec fn canny_mean(s: Seq<i64>) -> int {
    sum_seq(s) / s.len() as int
}

pub open spec fn canny_variance(s: Seq<i64>) -> int {
    sum_sq_dev(s, canny_mean(s)) / s.len() as int
}

pub open spec fn canny_sd(s: Seq<i64>) -> int {
    isqrt(canny_variance(s) as nat) as int
}

/// `mean - stddev`, clamped to be nonnegative.
pub open spec fn canny_low(s: Seq<i64>) -> int {
    if canny_mean(s) - canny_sd(s) > 0 {
        canny_mean(s) - canny_sd(s)
    } else {
        0
    }
}

/// `mean + stddev`, clamped to be at most 1.0.
pub open spec fn canny_high(s: Seq<i64>) -> int {
    if canny_mean(s) + canny_sd(s) < UNIT {
        canny_mean(s) + canny_sd(s)
    } else {
        UNIT as int
    }
}

/// The low and high classification thresholds.
pub open spec fn canny_options(s: Seq<i64>) -> Seq<i64> {
    seq![canny_low(s) as i64, canny_high(s) as i64]
}

/// Derive the Canny thresholds `mean -/+ stddev` from a luminance plane.
fn canny_thresholds(pixels: &[i64]) -> (out: Vec<i64>)
    requires
        pixels@.len() >= 1,
        samples_in_unit(pixels@),
    ensures
        out@ == canny_options(pixels@),
{
    let n = pixels.len();
    let mut total: i128 = 0;
    let mut i: usize = 0;
    while i < n
        invariant
            i <= n,
            n == pixels@.len(),
            samples_in_unit(pixels@),
            total == sum_seq(pixels@.take(i as int)),
            0 <= total <= (i as int) * (UNIT as int),
        decreases n - i,
    {
        proof {
            assert(pixels@.take(i as int + 1).drop_last() =~= pixels@.take(i as int));
            assert(((i as int) + 1) * (UNIT as int) == (i as int) * (UNIT as int) + UNIT as int)
                by (nonlinear_arith);
        }
        total = total + pixels[i] as i128;
        i = i + 1;
    }
    proof {
        assert(pixels@.take(n as int) =~= pixels@);
    }
    let len = n as i128;
    let mean: i128 = total / len;
    proof {
        lemma_div_bound(total as int, len as int, UNIT as int);
    }
    let mut dev_total: i128 = 0;
    i = 0;
    while i < n
        invariant
            i <= n,
            n == pixels@.len(),
            samples_in_unit(pixels@),
            mean == canny_mean(pixels@),
            0 <= mean <= UNIT as int,
            dev_total == sum_sq_dev(pixels@.take(i as int), mean as int),
            0 <= dev_total <= (i as int) * ((UNIT as int) * (UNIT as int)),
        decreases n - i,
    {
        let d: i128 = pixels[i] as i128 - mean;
        proof {
            assert(pixels@.take(i as int + 1).drop_last() =~= pixels@.take(i as int));
            assert(0 <= d * d <= (UNIT as int) * (UNIT as int)) by (nonlinear_arith)
                requires
                    0 - (UNIT as int) <= d <= UNIT as int,
            ;
            assert(((i as int) + 1) * ((UNIT as int) * (UNIT as int)) == (i as int) * ((UNIT as int)
                * (UNIT as int)) + (UNIT as int) * (UNIT as int)) by (nonlinear_arith);
            assert(((i as int) + 1) * ((UNIT as int) * (UNIT as int))
                <= 0x4000_0000_0000_0000_0000_0000_0000_0000) by (nonlinear_arith)
                requires
                    0 <= (i as int) + 1 <= 0x1_0000_0000_0000_0000,
                    UNIT == 40800000i64,
            ;
        }
        dev_total = dev_total + d * d;
        i = i + 1;
    }
    proof {
        assert(pixels@.take(n as int) =~= pixels@);
    }
    let variance: i128 = dev_total / len;
    proof {
        lemma_div_bound(dev_total as int, len as int, (UNIT as int) * (UNIT as int));
        assert((UNIT as int) * (UNIT as int) < 0x1_0000_0000_0000_0000_0000_0000_0000_00)
            by (nonlinear_arith)
            requires
                UNIT == 40800000i64,
        ;
    }
    let sd: u64 = arith::isqrt_u128(variance as u128);
    proof {
        arith::lemma_isqrt_ordered(variance as nat, ((UNIT as int) * (UNIT as int)) as nat);
        arith::lemma_isqrt_square(UNIT as nat);
    }
    let mean64: i64 = mean as i64;
    let sd64: i64 = sd as i64;
    let low: i64 = if mean64 - sd64 > 0 {
        mean64 - sd64
    } else {
        0
    };
    let high: i64 = if mean64 + sd64 < UNIT {
        mean64 + sd64
    } else {
        UNIT
    };
    let out = vec![low, high];
    proof {
        assert(out@ =~= canny_options(pixels@));
    }
    out
}

impl ImageFilter for SobelFilter {
    open spec fn entry(&self) -> EntryPoint {
        EntryPoint::SobelEdgeDetection
    }

    open spec fn options_req(&self, pixels: Seq<i64>) -> bool {
        true
    }

    open spec fn spec_options(&self, pixels: Seq<i64>) -> Seq<i64> {
        sobel_options()
    }

    fn entry_point(&self) -> EntryPoint {
        EntryPoint::SobelEdgeDetection
    }

    open spec fn kernel_text(&self) -> Seq<char> {
        sobel_kernel_source()
    }

    fn get_kernel(&self) -> (&'static str, &'static str) {
        (SOBEL_KERNEL_SOURCE, "sobelEdgeDetection")
    }

    fn compute_options(&self, _pixels: &[i64]) -> (opts: Vec<i64>) {
        let opts: Vec<i64> = vec![
            NEG_UNIT,
            0,
            UNIT,
            NEG_TWO_UNIT,
            0,
            TWO_UNIT,
            NEG_UNIT,
            0,
            UNIT,
            NEG_UNIT,
            NEG_TWO_UNIT,
            NEG_UNIT,
            0,
            0,
            0,
            UNIT,
            TWO_UNIT,
            UNIT,
        ];
        proof {
            assert(opts@ =~= sobel_options());
        }
        opts
    }
}

impl ImageFilter for PrewittFilter {
    open spec fn entry(&self) -> EntryPoint {
        EntryPoint::PrewittEdgeDetection
    }

    open spec fn options_req(&self, pixels: Seq<i64>) -> bool {
        true
    }

    open spec fn spec_options(&self, pixels: Seq<i64>) -> Seq<i64> {
        prewitt_options()
    }

    fn entry_point(&self) -> EntryPoint {
        EntryPoint::PrewittEdgeDetection
    }

    open spec fn kernel_text(&self) -> Seq<char> {
        prewitt_kernel_source()
    }

    fn get_kernel(&self) -> (&'static str, &'static str) {
        (PREWITT_KERNEL_SOURCE, "prewittEdgeDetection")
    }

    fn compute_options(&self, _pixels: &[i64]) -> (opts: Vec<i64>) {
        let opts: Vec<i64> = vec![
            NEG_UNIT,
            0,
            UNIT,
            NEG_UNIT,
            0,
            UNIT,
            NEG_UNIT,
            0,
            UNIT,
            NEG_UNIT,
            NEG_UNIT,
            NEG_UNIT,
            0,
            0,
            0,
            UNIT,
            UNIT,
            UNIT,
        ];
        proof {
            assert(opts@ =~= prewitt_options());
        }
        opts
    }
}

impl ImageFilter for CannyFilter {
    open spec fn entry(&self) -> EntryPoint {
        EntryPoint::CannyEdgeDetection
    }

    open spec fn options_req(&self, pixels: Seq<i64>) -> bool {
        pixels.len() >= 1 && samples_in_unit(pixels)
    }

    open spec fn spec_options(&self, pixels: Seq<i64>) -> Seq<i64> {
        canny_options(pixels)
    }

    fn entry_point(&self) -> EntryPoint {
        EntryPoint::CannyEdgeDetection
    }

    open spec fn kernel_text(&self) -> Seq<char> {
        canny_kernel_source()
    }

    fn get_kernel(&self) -> (&'static str, &'static str) {
        (CANNY_KERNEL_SOURCE, "cannyEdgeDetection")
    }

    fn compute_options(&self, pixels: &[i64]) -> (opts: Vec<i64>) {
        canny_thresholds(pixels)
    }
}

impl ImageFilter for GaussianBlur {
    open spec fn entry(&self) -> EntryPoint {
        EntryPoint::GaussianBlur
    }

    open spec fn options_req(&self, pixels: Seq<i64>) -> bool {
        true
    }

    open spec fn spec_options(&self, pixels: Seq<i64>) -> Seq<i64> {
        gaussian_options()
    }

    fn entry_point(&self) -> EntryPoint {
        EntryPoint::GaussianBlur
    }

    open spec fn kernel_text(&self) -> Seq<char> {
        gaussian_kernel_source()
    }

    fn get_kernel(&self) -> (&'static str, &'static str) {
        (GAUSSIAN_KERNEL_SOURCE, "gaussianBlur")
    }

    fn compute_options(&self, _pixels: &[i64]) -> (opts: Vec<i64>) {
        let base: Vec<i64> = vec![
            GAUSS_EXP_8,
            GAUSS_EXP_5,
            GAUSS_EXP_4,
            GAUSS_EXP_5,
            GAUSS_EXP_8,
            GAUSS_EXP_5,
            GAUSS_EXP_2,
            GAUSS_EXP_1,
            GAUSS_EXP_2,
            GAUSS_EXP_5,
            GAUSS_EXP_4,
            GAUSS_EXP_1,
            GAUSS_EXP_0,
            GAUSS_EXP_1,
            GAUSS_EXP_4,
            GAUSS_EXP_5,
            GAUSS_EXP_2,
            GAUSS_EXP_1,
            GAUSS_EXP_2,
            GAUSS_EXP_5,
            GAUSS_EXP_8,
            GAUSS_EXP_5,
            GAUSS_EXP_4,
            GAUSS_EXP_5,
            GAUSS_EXP_8,
        ];
        proof {
            assert(base@ =~= gaussian_base());
        }
        let mut kernel = normalize_weights(&base);
        let mut opts: Vec<i64> = vec![FIVE_UNIT];
        opts.append(&mut kernel);
        proof {
            assert(opts@ =~= gaussian_options());
        }
        opts
    }
}

impl ImageFilter for LaplacianSharpening {
    open spec fn entry(&self) -> EntryPoint {
        EntryPoint::LaplacianSharpening
    }

    open spec fn options_req(&self, pixels: Seq<i64>) -> bool {
        true
    }

    open spec fn spec_options(&self, pixels: Seq<i64>) -> Seq<i64> {
        laplacian_options()
    }

    fn entry_point(&self) -> EntryPoint {
        EntryPoint::LaplacianSharpening
    }

    open spec fn kernel_text(&self) -> Seq<char> {
        laplacian_kernel_source()
    }

    fn get_kernel(&self) -> (&'static str, &'static str) {
        (LAPLACIAN_KERNEL_SOURCE, "laplacianSharpening")
    }

    fn compute_options(&self, _pixels: &[i64]) -> (opts: Vec<i64>) {
        let opts: Vec<i64> = vec![
            0,
            NEG_UNIT,
            0,
            NEG_UNIT,
            FOUR_UNIT,
            NEG_UNIT,
            0,
            NEG_UNIT,
            0,
        ];
        proof {
            assert(opts@ =~= laplacian_options());
        }
        opts
    }
}

impl ImageFilter for BayerOrderedDithering {
    open spec fn entry(&self) -> EntryPoint {
        EntryPoint::BayerOrderedDithering
    }

    open spec fn options_req(&self, pixels: Seq<i64>) -> bool {
        true
    }

    open spec fn spec_options(&self, pixels: Seq<i64>) -> Seq<i64> {
        bayer_options()
    }

    fn entry_point(&self) -> EntryPoint {
        EntryPoint::BayerOrderedDithering
    }

    open spec fn kernel_text(&self) -> Seq<char> {
        bayer_kernel_source()
    }

    fn get_kernel(&self) -> (&'static str, &'static str) {
        (BAYER_KERNEL_SOURCE, "bayerOrderedDithering")
    }

    fn compute_options(&self, _pixels: &[i64]) -> (opts: Vec<i64>) {
        let opts: Vec<i64> = vec![
            FOUR_UNIT,
            0,
            8 * BAYER_STEP,
            2 * BAYER_STEP,
            10 * BAYER_STEP,
            12 * BAYER_STEP,
            4 * BAYER_STEP,
            14 * BAYER_STEP,
            6 * BAYER_STEP,
            3 * BAYER_STEP,
            11 * BAYER_STEP,
            1 * BAYER_STEP,
            9 * BAYER_STEP,
            15 * BAYER_STEP,
            7 * BAYER_STEP,
            13 * BAYER_STEP,
            5 * BAYER_STEP,
        ];
        proof {
            assert(opts@ =~= bayer_options());
        }
        opts
    }
}

impl ImageFilter for FilterKind {
    open spec fn entry(&self) -> EntryPoint {
        match self {
            FilterKind::Sobel => EntryPoint::SobelEdgeDetection,
            FilterKind::Prewitt => EntryPoint::PrewittEdgeDetection,
            FilterKind::Canny => EntryPoint::CannyEdgeDetection,
            FilterKind::Gaussian => EntryPoint::GaussianBlur,
            FilterKind::Laplacian => EntryPoint::LaplacianSharpening,
            FilterKind::Bayer => EntryPoint::BayerOrderedDithering,
        }
    }

    open spec fn options_req(&self, pixels: Seq<i64>) -> bool {
        match self {
            FilterKind::Canny => pixels.len() >= 1 && samples_in_unit(pixels),
            _ => true,
        }
    }

    open spec fn spec_options(&self, pixels: Seq<i64>) -> Seq<i64> {
        match self {
            FilterKind::Sobel => sobel_options(),
            FilterKind::Prewitt => prewitt_options(),
            FilterKind::Canny => canny_options(pixels),
            FilterKind::Gaussian => gaussian_options(),
            FilterKind::Laplacian => laplacian_options(),
            FilterKind::Bayer => bayer_options(),
        }
    }

    open spec fn kernel_text(&self) -> Seq<char> {
        match self {
            FilterKind::Sobel => sobel_kernel_source(),
            FilterKind::Prewitt => prewitt_kernel_source(),
            FilterKind::Canny => canny_kernel_source(),
            FilterKind::Gaussian => gaussian_kernel_source(),
            FilterKind::Laplacian => laplacian_kernel_source(),
            FilterKind::Bayer => bayer_kernel_source(),
        }
    }

    fn entry_point(&self) -> EntryPoint {
        match self {
            FilterKind::Sobel => EntryPoint::SobelEdgeDetection,
            FilterKind::Prewitt => EntryPoint::PrewittEdgeDetection,
            FilterKind::Canny => EntryPoint::CannyEdgeDetection,
            FilterKind::Gaussian => EntryPoint::GaussianBlur,
            FilterKind::Laplacian => EntryPoint::LaplacianSharpening,
            FilterKind::Bayer => EntryPoint::BayerOrderedDithering,
        }
    }

    fn get_kernel(&self) -> (&'static str, &'static str) {
        match self {
            FilterKind::Sobel => SobelFilter.get_kernel(),
            FilterKind::Prewitt => PrewittFilter.get_kernel(),
            FilterKind::Canny => CannyFilter.get_kernel(),
            FilterKind::Gaussian => GaussianBlur.get_kernel(),
            FilterKind::Laplacian => LaplacianSharpening.get_kernel(),
            FilterKind::Bayer => BayerOrderedDithering.get_kernel(),
        }
    }

    fn compute_options(&self, pixels: &[i64]) -> (opts: Vec<i64>) {
        match self {
            FilterKind::Sobel => SobelFilter.compute_options(pixels),
            FilterKind::Prewitt => PrewittFilter.compute_options(pixels),
            FilterKind::Canny => CannyFilter.compute_options(pixels),
            FilterKind::Gaussian => GaussianBlur.compute_options(pixels),
            FilterKind::Laplacian => LaplacianSharpening.compute_options(pixels),
            FilterKind::Bayer => BayerOrderedDithering.compute_options(pixels),
        }
    }
}

/// Law: on a plane of uniform luminance the standard deviation is zero, so
/// both thresholds equal the mean, which is the plane's value itself.
pub proof fn lemma_uniform_plane_thresholds(s: Seq<i64>)
    requires
        s.len() >= 1,
        samples_in_unit(s),
        forall|i: int| 0 <= i < s.len() ==> #[trigger] s[i] == s[0],
    ensures
        canny_options(s) == seq![s[0], s[0]],
        canny_low(s) == s[0],
        canny_high(s) == s[0],
{
    let v = s[0] as int;
    arith::lemma_sum_seq_const(s, v);
    vstd::arithmetic::div_mod::lemma_div_multiples_vanish(v, s.len() as int);
    assert(s.len() as int * v == v * s.len() as int) by (nonlinear_arith);
    assert(canny_mean(s) == v);
    arith::lemma_sum_sq_dev_const(s, v);
    assert(0int / (s.len() as int) == 0) by (nonlinear_arith)
        requires
            s.len() >= 1,
    ;
    assert(canny_variance(s) == 0);
    assert(canny_sd(s) == 0);
    assert(canny_options(s) =~= seq![s[0], s[0]]);
}

} // verus!
