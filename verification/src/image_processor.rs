//! The pipeline: compose pixel transfer, parameter derivation, channel
//! routing, dispatch and recomposition for one image and a list of filters.

use vstd::prelude::*;

use crate::arith;
use crate::channel_policy::{spec_mode_for, ChannelMode, ChannelPolicy};
use crate::dispatcher::{
    blur_last_index, kernel_output, params_wf, window_size, ComputeDispatcher, WEIGHT_BOUND,
};
use crate::filters::{
    bayer_options, canny_options, gaussian_base, gaussian_options, laplacian_options,
    normalized_seq, prewitt_options, sobel_options, EntryPoint, FilterKind, ImageFilter,
};
use crate::image_converter::{
    blue_plane, gray_image, green_plane, luma_plane, recomposed_image,
    recomposed_image_with_original, red_plane, ImageConverter,
};
use crate::sample::UNIT;

verus! {

/// The displayable image one filter produces from an input image: derive the
/// parameter vector from the luminance plane, run the filter's kernel on the
/// plane(s) its channel mode selects, and recompose by the mode's rule.
pub open spec fn pipeline_output(input: Seq<u32>, w: int, h: int, f: FilterKind) -> Seq<u32> {
    let lum = luma_plane(input);
    let opts = f.spec_options(lum);
    let e = f.entry();
    match spec_mode_for(e) {
        ChannelMode::SinglePlane => gray_image(kernel_output(e, lum, opts, w, h)),
        ChannelMode::ThreePlaneReplace => recomposed_image(
            kernel_output(e, red_plane(input), opts, w, h),
            kernel_output(e, green_plane(input), opts, w, h),
            kernel_output(e, blue_plane(input), opts, w, h),
        ),
        ChannelMode::ThreePlaneAdditive => recomposed_image_with_original(
            kernel_output(e, red_plane(input), opts, w, h),
            kernel_output(e, green_plane(input), opts, w, h),
            kernel_output(e, blue_plane(input), opts, w, h),
            input,
        ),
    }
}

/// Law: every filter derives a parameter vector that fits its own kernel's
/// layout, so a dispatch of a filter's own options never fails.
pub proof fn lemma_filter_options_wf(f: FilterKind, lum: Seq<i64>)
    requires
        f.options_req(lum),
    ensures
        params_wf(f.entry(), f.spec_options(lum)),
{
    match f {
        FilterKind::Sobel => {
            assert forall|k: int| 0 <= k < 18 implies -WEIGHT_BOUND <= #[trigger] sobel_options()[k]
                <= WEIGHT_BOUND by {}
        },
        FilterKind::Prewitt => {
            assert forall|k: int|
                0 <= k < 18 implies -WEIGHT_BOUND <= #[trigger] prewitt_options()[k]
                <= WEIGHT_BOUND by {}
        },
        FilterKind::Canny => {
            assert(canny_options(lum).len() == 2);
        },
        FilterKind::Laplacian => {
            assert forall|k: int|
                0 <= k < 9 implies -WEIGHT_BOUND <= #[trigger] laplacian_options()[k]
                <= WEIGHT_BOUND by {}
        },
        FilterKind::Gaussian => {
            let opts = gaussian_options();
            let base = gaussian_base();
            let ns = normalized_seq(base);
            assert(opts[0] == 204000000i64);
            assert(window_size(opts) == 5);
            assert(blur_last_index(5) == 25);
            assert(opts.len() == 26);
            assert forall|j: int| 0 <= j < 25 implies 0 < #[trigger] base[j] <= UNIT by {}
            arith::lemma_sum_seq_bounds(base, 1, UNIT as int);
            let total = arith::sum_seq(base);
            assert(25 * 1 <= total <= 25 * (UNIT as int)) by (nonlinear_arith)
                requires
                    base.len() * 1 <= total <= base.len() * (UNIT as int),
                    base.len() == 25,
            ;
            assert forall|k: int| 1 <= k <= 25 implies 0 <= #[trigger] opts[k] <= UNIT by {
                let j = k - 1;
                assert(opts[k] == ns[j]);
                arith::lemma_sum_seq_elem(base, j);
                assert(0 <= base[j] * UNIT <= total * (UNIT as int)) by (nonlinear_arith)
                    requires
                        0 < base[j] <= total,
                        UNIT > 0,
                ;
                arith::lemma_div_bound(base[j] * UNIT, total, UNIT as int);
            }
        },
        FilterKind::Bayer => {
            let opts = bayer_options();
            assert(opts[0] == 163200000i64);
            assert(window_size(opts) == 4);
            assert(opts.len() == 17);
        },
    }
}

/// The all-on dithering level recomposes to a pure white pixel.
proof fn lemma_white_pixel()
    ensures
        crate::image_converter::recomposed_pixel(
            crate::dispatcher::DITHER_ON as int,
            crate::dispatcher::DITHER_ON as int,
            crate::dispatcher::DITHER_ON as int,
        ) == 0xFFFF_FFFFu32,
{
    let d = crate::dispatcher::DITHER_ON as int;
    assert(crate::sample::clamp_unit(d) == UNIT as int);
    vstd::arithmetic::div_mod::lemma_div_multiples_vanish(255, UNIT as int);
    assert(crate::sample::channel_of_sample(d) == 255);
    assert((255u32 << 24) | (255u32 << 16) | (255u32 << 8) | 255u32 == 0xFFFF_FFFFu32)
        by (bit_vector);
}

/// Law: an image of uniform pixels run through a gradient-magnitude edge
/// detector produces an all-zero output image: there is no gradient
/// anywhere, and the declared border pixels are zeroed.
pub proof fn lemma_flat_field_gradient_black(input: Seq<u32>, w: int, h: int, f: FilterKind)
    requires
        w >= 0,
        input.len() == w * h,
        input.len() >= 1,
        forall|i: int| 0 <= i < input.len() ==> #[trigger] input[i] == input[0],
        f == FilterKind::Sobel || f == FilterKind::Prewitt,
    ensures
        forall|j: int|
            0 <= j < w * h ==> #[trigger] pipeline_output(input, w, h, f)[j] == 0u32,
{
    let lum = luma_plane(input);
    let opts = f.spec_options(lum);
    let e = f.entry();
    assert forall|i: int| 0 <= i < lum.len() implies #[trigger] lum[i] == lum[0] by {}
    assert forall|j: int|
        0 <= j < w * h implies #[trigger] pipeline_output(input, w, h, f)[j] == 0u32 by {
        arith::lemma_grid_index(j, w, h);
        crate::dispatcher::lemma_uniform_plane_gradient_zero(lum, opts, w, h, j % w, j / w);
        assert(kernel_output(e, lum, opts, w, h)[j] == 0i64);
        crate::image_converter::lemma_gray_pixel_zero();
    }
}

/// Law: on an image of uniform pixels the threshold detector's low and high
/// thresholds both equal the mean luminance (the standard deviation of a
/// flat field is zero), and the detector classifies every pixel as no edge:
/// its output image is black.
pub proof fn lemma_uniform_luminance_no_edges(input: Seq<u32>, w: int, h: int)
    requires
        w >= 0,
        input.len() == w * h,
        input.len() >= 1,
        forall|i: int| 0 <= i < input.len() ==> #[trigger] input[i] == input[0],
    ensures
        canny_options(luma_plane(input)) == seq![
            luma_plane(input)[0],
            luma_plane(input)[0],
        ],
        forall|j: int|
            0 <= j < w * h ==> #[trigger] pipeline_output(input, w, h, FilterKind::Canny)[j]
                == 0u32,
{
    let lum = luma_plane(input);
    crate::image_converter::lemma_luma_plane_wf(input);
    assert forall|i: int| 0 <= i < lum.len() implies #[trigger] lum[i] == lum[0] by {}
    crate::filters::lemma_uniform_plane_thresholds(lum);
    let opts = canny_options(lum);
    let e = EntryPoint::CannyEdgeDetection;
    assert forall|j: int|
        0 <= j < w * h implies #[trigger] pipeline_output(input, w, h, FilterKind::Canny)[j]
        == 0u32 by {
        arith::lemma_grid_index(j, w, h);
        crate::dispatcher::lemma_uniform_plane_canny_zero(lum, opts, w, h, j % w, j / w);
        assert(kernel_output(e, lum, opts, w, h)[j] == 0i64);
        crate::image_converter::lemma_gray_pixel_zero();
    }
}

/// Law: dithering an image whose pixels everywhere hold every channel at or
/// above every Bayer threshold (intensity 240 and up) saturates: the output
/// image is pure white.
pub proof fn lemma_dither_saturates(input: Seq<u32>, w: int, h: int)
    requires
        w >= 0,
        input.len() == w * h,
        forall|i: int| 0 <= i < input.len() ==> #[trigger] input[i] == input[0],
        input.len() >= 1,
        crate::pixel::red_of(input[0]) >= 240,
        crate::pixel::green_of(input[0]) >= 240,
        crate::pixel::blue_of(input[0]) >= 240,
    ensures
        forall|j: int|
            0 <= j < w * h ==> #[trigger] pipeline_output(input, w, h, FilterKind::Bayer)[j]
                == 0xFFFF_FFFFu32,
{
    let opts = bayer_options();
    let e = EntryPoint::BayerOrderedDithering;
    lemma_filter_options_wf(FilterKind::Bayer, luma_plane(input));
    assert(opts[0] == 163200000i64);
    assert(window_size(opts) == 4);
    assert forall|k: int| 1 <= k <= 16 implies #[trigger] opts[k] <= 38250000 by {}
    let rp = red_plane(input);
    let gp = green_plane(input);
    let bp = blue_plane(input);
    assert forall|i: int| 0 <= i < input.len() implies #[trigger] rp[i] == rp[0] && gp[i] == gp[0]
        && bp[i] == bp[0] by {}
    assert(rp[0] >= 38400000 && gp[0] >= 38400000 && bp[0] >= 38400000) by (nonlinear_arith)
        requires
            rp[0] == crate::pixel::red_of(input[0]) * 160000,
            gp[0] == crate::pixel::green_of(input[0]) * 160000,
            bp[0] == crate::pixel::blue_of(input[0]) * 160000,
            crate::pixel::red_of(input[0]) >= 240,
            crate::pixel::green_of(input[0]) >= 240,
            crate::pixel::blue_of(input[0]) >= 240,
    ;
    assert forall|j: int|
        0 <= j < w * h implies #[trigger] pipeline_output(input, w, h, FilterKind::Bayer)[j]
        == 0xFFFF_FFFFu32 by {
        arith::lemma_grid_index(j, w, h);
        crate::dispatcher::lemma_uniform_dither_all_on(rp, opts, w, h, j % w, j / w);
        crate::dispatcher::lemma_uniform_dither_all_on(gp, opts, w, h, j % w, j / w);
        crate::dispatcher::lemma_uniform_dither_all_on(bp, opts, w, h, j % w, j / w);
        assert(kernel_output(e, rp, opts, w, h)[j] == crate::dispatcher::DITHER_ON);
        assert(kernel_output(e, gp, opts, w, h)[j] == crate::dispatcher::DITHER_ON);
        assert(kernel_output(e, bp, opts, w, h)[j] == crate::dispatcher::DITHER_ON);
        lemma_white_pixel();
    }
}

/// One pipeline run: an input image, its dimensions, and the ordered list of
/// filters to apply.
pub struct ImageProcessor<'a, 'b> {
    pub input: &'a [u32],
    pub dimensions: (u32, u32),
    pub filters: &'b [FilterKind],
}

impl<'a, 'b> ImageProcessor<'a, 'b> {
    /// A processor whose input image matches its dimensions and is not
    /// empty.
    pub open spec fn wf(&self) -> bool {
        &&& self.input@.len() == (self.dimensions.0 as int) * (self.dimensions.1 as int)
        &&& self.input@.len() >= 1
    }

    pub fn new(input: &'a [u32], dimensions: (u32, u32), filters: &'b [FilterKind]) -> (p:
        ImageProcessor<'a, 'b>)
        ensures
            p.input == input,
            p.dimensions == dimensions,
            p.filters == filters,
    {
        ImageProcessor { input, dimensions, filters }
    }

    /// Derive the planes and the parameter vector one filter runs on: the
    /// luminance plane alone in single-plane mode, the three color planes
    /// otherwise. The parameter vector is derived from the luminance plane
    /// in either mode.
    pub fn preprocess_image(&self, filter: &FilterKind) -> (r: ((Vec<i64>, Vec<i64>, Vec<i64>), Vec<
        i64,
    >))
        requires
            self.wf(),
        ensures
            r.1@ == filter.spec_options(luma_plane(self.input@)),
            spec_mode_for(filter.entry()) == ChannelMode::SinglePlane ==> r.0.0@ == luma_plane(
                self.input@,
            ) && r.0.1@ == Seq::<i64>::empty() && r.0.2@ == Seq::<i64>::empty(),
            spec_mode_for(filter.entry()) != ChannelMode::SinglePlane ==> r.0.0@ == red_plane(
                self.input@,
            ) && r.0.1@ == green_plane(self.input@) && r.0.2@ == blue_plane(self.input@),
    {
        let grayscale = ImageConverter::convert_rgb_to_grayscale(self.input);
        let options = filter.compute_options(grayscale.as_slice());
        let entry = filter.entry_point();
        match ChannelPolicy::mode_for(entry) {
            ChannelMode::SinglePlane => ((grayscale, Vec::new(), Vec::new()), options),
            _ => {
                let channels = ImageConverter::decompose_rgb(self.input);
                (channels, options)
            },
        }
    }

    /// Recompose one filter's output planes into a displayable image, by the
    /// entry point's channel mode.
    pub fn postprocess_image(&self, channels: &[Vec<i64>], entry: EntryPoint) -> (out: Vec<u32>)
        requires
            spec_mode_for(entry) == ChannelMode::SinglePlane ==> channels@.len() >= 1,
            spec_mode_for(entry) != ChannelMode::SinglePlane ==> channels@.len() >= 3
                && channels@[1]@.len() == channels@[0]@.len() && channels@[2]@.len()
                == channels@[0]@.len(),
            spec_mode_for(entry) == ChannelMode::ThreePlaneAdditive ==> channels@[0]@.len()
                == self.input@.len(),
        ensures
            spec_mode_for(entry) == ChannelMode::SinglePlane ==> out@ == gray_image(
                channels@[0]@,
            ),
            spec_mode_for(entry) == ChannelMode::ThreePlaneReplace ==> out@ == recomposed_image(
                channels@[0]@,
                channels@[1]@,
                channels@[2]@,
            ),
            spec_mode_for(entry) == ChannelMode::ThreePlaneAdditive ==> out@
                == recomposed_image_with_original(
                channels@[0]@,
                channels@[1]@,
                channels@[2]@,
                self.input@,
            ),
    {
        match ChannelPolicy::mode_for(entry) {
            ChannelMode::ThreePlaneReplace => ImageConverter::recompose_rgb(
                channels[0].as_slice(),
                channels[1].as_slice(),
                channels[2].as_slice(),
            ),
            ChannelMode::ThreePlaneAdditive => ImageConverter::recompose_rgb_with_original(
                channels[0].as_slice(),
                channels[1].as_slice(),
                channels[2].as_slice(),
                self.input,
            ),
            ChannelMode::SinglePlane => ImageConverter::convert_grayscale_to_rgb(
                channels[0].as_slice(),
            ),
        }
    }

    /// Run one filter: preprocess, dispatch once or three times with the
    /// same parameter vector, recompose.
    fn run_filter(&self, filter: FilterKind) -> (out: Vec<u32>)
        requires
            self.wf(),
        ensures
            out@ == pipeline_output(
                self.input@,
                self.dimensions.0 as int,
                self.dimensions.1 as int,
                filter,
            ),
    {
        proof {
            crate::image_converter::lemma_luma_plane_wf(self.input@);
            crate::image_converter::lemma_color_planes_wf(self.input@);
        }
        let (channels, options) = self.preprocess_image(&filter);
        let entry = filter.entry_point();
        proof {
            lemma_filter_options_wf(filter, luma_plane(self.input@));
        }
        let mode = ChannelPolicy::mode_for(entry);
        let outputs: Vec<Vec<i64>> = match mode {
            ChannelMode::SinglePlane => {
                let d = ComputeDispatcher::new(
                    channels.0.as_slice(),
                    options.as_slice(),
                    self.dimensions,
                );
                let plane = d.process(entry).unwrap();
                vec![plane]
            },
            _ => {
                let d0 = ComputeDispatcher::new(
                    channels.0.as_slice(),
                    options.as_slice(),
                    self.dimensions,
                );
                let p0 = d0.process(entry).unwrap();
                let d1 = ComputeDispatcher::new(
                    channels.1.as_slice(),
                    options.as_slice(),
                    self.dimensions,
                );
                let p1 = d1.process(entry).unwrap();
                let d2 = ComputeDispatcher::new(
                    channels.2.as_slice(),
                    options.as_slice(),
                    self.dimensions,
                );
                let p2 = d2.process(entry).unwrap();
                vec![p0, p1, p2]
            },
        };
        self.postprocess_image(outputs.as_slice(), entry)
    }

    /// Run every filter in order; the i-th output image is the i-th
    /// filter's, each produced independently from the same input image.
    pub fn process_image(&self) -> (outs: Vec<Vec<u32>>)
        requires
            self.wf(),
        ensures
            outs@.len() == self.filters@.len(),
            forall|i: int|
                0 <= i < self.filters@.len() ==> #[trigger] outs@[i]@ == pipeline_output(
                    self.input@,
                    self.dimensions.0 as int,
                    self.dimensions.1 as int,
                    self.filters@[i],
                ),
    {
        let mut outs: Vec<Vec<u32>> = Vec::new();
        let mut i: usize = 0;
        while i < self.filters.len()
            invariant
                i <= self.filters@.len(),
                self.wf(),
                outs@.len() == i,
                forall|j: int|
                    0 <= j < i ==> #[trigger] outs@[j]@ == pipeline_output(
                        self.input@,
                        self.dimensions.0 as int,
                        self.dimensions.1 as int,
                        self.filters@[j],
                    ),
            decreases self.filters@.len() - i,
        {
            let out = self.run_filter(self.filters[i]);
            outs.push(out);
            i = i + 1;
        }
        outs
    }
}

} // verus!
