use filter_pipeline::channel_policy::{ChannelMode, ChannelPolicy};
use filter_pipeline::dispatcher::{plan_dispatch, ComputeDispatcher, DispatchError, DITHER_ON};
use filter_pipeline::filters::{
    normalize_weights, BayerOrderedDithering, CannyFilter, EntryPoint, FilterKind, GaussianBlur,
    ImageFilter, LaplacianSharpening, PrewittFilter, SobelFilter,
};
use filter_pipeline::image_processor::ImageProcessor;
use filter_pipeline::preprocessor::Preprocessor;
use filter_pipeline::sample::UNIT;

fn gray_image(value: u32, n: usize) -> Vec<u32> {
    vec![0xFF00_0000 | (value << 16) | (value << 8) | value; n]
}

/// Each filter names the kernel entry point its source defines.
#[test]
fn kernel_entry_points() {
    assert_eq!(SobelFilter.get_kernel().1, "sobelEdgeDetection");
    assert_eq!(PrewittFilter.get_kernel().1, "prewittEdgeDetection");
    assert_eq!(CannyFilter.get_kernel().1, "cannyEdgeDetection");
    assert_eq!(GaussianBlur.get_kernel().1, "gaussianBlur");
    assert_eq!(LaplacianSharpening.get_kernel().1, "laplacianSharpening");
    assert_eq!(BayerOrderedDithering.get_kernel().1, "bayerOrderedDithering");
    assert!(SobelFilter.get_kernel().0.contains("sobelEdgeDetection"));
    assert!(GaussianBlur.get_kernel().0.contains("gaussianBlur"));
}

/// The channel policy routes the edge detectors to the luminance plane and
/// the rest to the three color planes, with sharpening blended additively.
#[test]
fn channel_policy_modes() {
    assert_eq!(ChannelPolicy::mode_for(EntryPoint::SobelEdgeDetection), ChannelMode::SinglePlane);
    assert_eq!(ChannelPolicy::mode_for(EntryPoint::PrewittEdgeDetection), ChannelMode::SinglePlane);
    assert_eq!(ChannelPolicy::mode_for(EntryPoint::CannyEdgeDetection), ChannelMode::SinglePlane);
    assert_eq!(ChannelPolicy::mode_for(EntryPoint::GaussianBlur), ChannelMode::ThreePlaneReplace);
    assert_eq!(
        ChannelPolicy::mode_for(EntryPoint::BayerOrderedDithering),
        ChannelMode::ThreePlaneReplace
    );
    assert_eq!(
        ChannelPolicy::mode_for(EntryPoint::LaplacianSharpening),
        ChannelMode::ThreePlaneAdditive
    );
    assert_eq!(ChannelPolicy::plane_count(ChannelMode::SinglePlane), 1);
    assert_eq!(ChannelPolicy::plane_count(ChannelMode::ThreePlaneReplace), 3);
    assert_eq!(ChannelPolicy::plane_count(ChannelMode::ThreePlaneAdditive), 3);
}

/// The Sobel parameter vector holds the two flattened gradient kernels at
/// scale UNIT.
#[test]
fn sobel_options_exact() {
    let opts = SobelFilter.compute_options(&[]);
    let u = UNIT;
    assert_eq!(
        opts,
        vec![
            -u, 0, u, -2 * u, 0, 2 * u, -u, 0, u, -u, -2 * u, -u, 0, 0, 0, u, 2 * u, u
        ]
    );
}

/// The Gaussian blur parameter vector: leading size element, then a 5x5
/// kernel that sums to 1.0 within float tolerance.
#[test]
fn gaussian_options_sum_to_one() {
    let opts = GaussianBlur.compute_options(&[]);
    assert_eq!(opts.len(), 26);
    assert_eq!(opts[0], 5 * UNIT);
    let sum: i64 = opts[1..].iter().sum();
    assert!(UNIT - 25 <= sum && sum <= UNIT);
    let ratio = sum as f64 / UNIT as f64;
    assert!((ratio - 1.0).abs() < 1e-4);
}

/// Normalizing four equal weights gives four quarters of UNIT, summing to
/// exactly 1.0.
#[test]
fn normalize_equal_weights_exact() {
    let out = normalize_weights(&vec![7, 7, 7, 7]);
    assert_eq!(out, vec![UNIT / 4; 4]);
    assert_eq!(out.iter().sum::<i64>(), UNIT);
}

/// The Bayer parameter vector: size 4, then the flattened matrix over 16.
#[test]
fn bayer_options_exact() {
    let opts = BayerOrderedDithering.compute_options(&[]);
    let s = UNIT / 16;
    assert_eq!(
        opts,
        vec![
            4 * UNIT,
            0,
            8 * s,
            2 * s,
            10 * s,
            12 * s,
            4 * s,
            14 * s,
            6 * s,
            3 * s,
            11 * s,
            1 * s,
            9 * s,
            15 * s,
            7 * s,
            13 * s,
            5 * s
        ]
    );
}

/// On a uniform luminance plane the thresholds are mean +- 0: both equal the
/// plane's value.
#[test]
fn canny_thresholds_on_flat_field() {
    let lum = 16i64 * 9999 * 128;
    let plane = vec![lum; 9];
    let opts = CannyFilter.compute_options(&plane);
    assert_eq!(opts, vec![lum, lum]);
}

/// The thresholds clamp: low at 0, high at 1.0.
#[test]
fn canny_thresholds_clamp() {
    // Half the plane at 0, half at UNIT: mean UNIT/2, large deviation.
    let mut plane = vec![0i64; 8];
    plane.extend(vec![UNIT; 8]);
    let opts = CannyFilter.compute_options(&plane);
    assert_eq!(opts.len(), 2);
    assert!(opts[0] >= 0);
    assert!(opts[1] <= UNIT);
    assert!(opts[0] <= opts[1]);
}

/// A dispatch with a parameter vector that does not fit the kernel's layout
/// fails with a parameter error.
#[test]
fn dispatch_rejects_malformed_parameters() {
    let plane = vec![0i64; 4];
    let empty: Vec<i64> = Vec::new();
    let d = ComputeDispatcher::new(&plane, &empty, (2, 2));
    assert_eq!(d.process(EntryPoint::SobelEdgeDetection), Err(DispatchError::Parameter));
    assert_eq!(d.process(EntryPoint::CannyEdgeDetection), Err(DispatchError::Parameter));
    assert_eq!(d.process(EntryPoint::GaussianBlur), Err(DispatchError::Parameter));
    assert_eq!(d.process(EntryPoint::LaplacianSharpening), Err(DispatchError::Parameter));
    assert_eq!(d.process(EntryPoint::BayerOrderedDithering), Err(DispatchError::Parameter));
    // A size element of zero is rejected even with a long enough vector.
    let bad = vec![0i64; 30];
    let d2 = ComputeDispatcher::new(&plane, &bad, (2, 2));
    assert_eq!(d2.process(EntryPoint::GaussianBlur), Err(DispatchError::Parameter));
}

/// The dispatcher allocates planes sized to the domain and a parameter
/// buffer of at least one element.
#[test]
fn dispatch_plan_sizes() {
    let p = plan_dispatch(4, 3, 0);
    assert_eq!(p.input_len, 12);
    assert_eq!(p.output_len, 12);
    assert_eq!(p.options_len, 1);
    assert_eq!(p.global_dims, (4, 3));
    let q = plan_dispatch(4, 3, 7);
    assert_eq!(q.options_len, 7);
}

/// A strong vertical step is classified as a strong edge at the interior
/// pixel; the border is zeroed.
#[test]
fn canny_classifies_strong_edge() {
    // 3x3 plane: left column dark, the rest bright.
    let plane = vec![0, UNIT, UNIT, 0, UNIT, UNIT, 0, UNIT, UNIT];
    let opts = vec![0i64, UNIT];
    let d = ComputeDispatcher::new(&plane, &opts, (3, 3));
    let out = d.process(EntryPoint::CannyEdgeDetection).unwrap();
    assert_eq!(out.len(), 9);
    for (i, v) in out.iter().enumerate() {
        if i == 4 {
            assert_eq!(*v, UNIT); // magnitude 4.0 > high threshold 1.0
        } else {
            assert_eq!(*v, 0);
        }
    }
}

/// The gradient magnitude of a horizontal step under the Sobel kernels is
/// exactly 4.0 at the interior pixel.
#[test]
fn sobel_magnitude_exact_value() {
    // 3x3 plane: top two rows dark, bottom row bright.
    let plane = vec![0, 0, 0, 0, 0, 0, UNIT, UNIT, UNIT];
    let opts = SobelFilter.compute_options(&[]);
    let d = ComputeDispatcher::new(&plane, &opts, (3, 3));
    let out = d.process(EntryPoint::SobelEdgeDetection).unwrap();
    // gx = 0 by symmetry; gy = (1 + 2 + 1) * 1.0 = 4.0.
    assert_eq!(out[4], 4 * UNIT);
    for (i, v) in out.iter().enumerate() {
        if i != 4 {
            assert_eq!(*v, 0);
        }
    }
}

/// The sharpening kernel's delta for an isolated bright center is exactly
/// 4.0; the output is a delta plane, zero at the border.
#[test]
fn laplacian_delta_exact_value() {
    let plane = vec![0, 0, 0, 0, UNIT, 0, 0, 0, 0];
    let opts = LaplacianSharpening.compute_options(&[]);
    let d = ComputeDispatcher::new(&plane, &opts, (3, 3));
    let out = d.process(EntryPoint::LaplacianSharpening).unwrap();
    assert_eq!(out[4], 4 * UNIT);
    for (i, v) in out.iter().enumerate() {
        if i != 4 {
            assert_eq!(*v, 0);
        }
    }
}

/// A magnitude between the two thresholds is classified as a weak edge
/// (0.5).
#[test]
fn canny_classifies_weak_edge() {
    let plane = vec![0, UNIT, UNIT, 0, UNIT, UNIT, 0, UNIT, UNIT];
    // The step's magnitude is 4.0: above low 1.0, below high 5.0.
    let opts = vec![UNIT, 5 * UNIT];
    let d = ComputeDispatcher::new(&plane, &opts, (3, 3));
    let out = d.process(EntryPoint::CannyEdgeDetection).unwrap();
    assert_eq!(out[4], UNIT / 2);
}

/// A one-cell blur window with a unit weight averages nothing: the output
/// plane is the input plane.
#[test]
fn blur_size_one_kernel_is_identity() {
    let plane = vec![0, 1_000_000, UNIT, 37];
    let opts = vec![UNIT, UNIT]; // size 1, single weight 1.0
    let d = ComputeDispatcher::new(&plane, &opts, (2, 2));
    let out = d.process(EntryPoint::GaussianBlur).unwrap();
    assert_eq!(out, plane);
}

/// Dithering compares each sample to its matrix cell: at or above goes all
/// on, below goes black.
#[test]
fn dither_thresholds_per_cell() {
    let opts = BayerOrderedDithering.compute_options(&[]);
    // Cell (0,0) has threshold 0; cell (1,0) has threshold 8/16.
    let plane = vec![0i64, 10_000_000];
    let d = ComputeDispatcher::new(&plane, &opts, (2, 1));
    let out = d.process(EntryPoint::BayerOrderedDithering).unwrap();
    assert_eq!(out, vec![DITHER_ON, 0]);
}

/// A 4x4 all-mid-gray image run through the gradient-magnitude detector
/// produces an all-zero output image: no gradient anywhere, border zeroed.
#[test]
fn sobel_on_flat_field_is_black() {
    let pixels = gray_image(128, 16);
    let filters = [FilterKind::Sobel];
    let processor = ImageProcessor::new(&pixels, (4, 4), &filters);
    let outs = processor.process_image();
    assert_eq!(outs.len(), 1);
    assert_eq!(outs[0], vec![0u32; 16]);
}

/// The same flat field through the threshold detector: thresholds collapse
/// to the mean and every pixel reads no edge.
#[test]
fn canny_on_flat_field_is_black() {
    let pixels = gray_image(128, 16);
    let filters = [FilterKind::Canny];
    let processor = ImageProcessor::new(&pixels, (4, 4), &filters);
    let outs = processor.process_image();
    assert_eq!(outs[0], vec![0u32; 16]);
}

/// Dithering an image whose channels everywhere exceed every matrix
/// threshold produces an all-white image.
#[test]
fn dither_saturates_to_white() {
    let pixels = gray_image(240, 16);
    let filters = [FilterKind::Bayer];
    let processor = ImageProcessor::new(&pixels, (4, 4), &filters);
    let outs = processor.process_image();
    assert_eq!(outs[0], vec![0xFFFF_FFFFu32; 16]);
}

/// Blurring a uniform image changes nothing: the weighted average of equal
/// samples is the sample.
#[test]
fn blur_preserves_flat_field() {
    let pixels = vec![0xFF40_2060u32; 16];
    let filters = [FilterKind::Gaussian];
    let processor = ImageProcessor::new(&pixels, (4, 4), &filters);
    let outs = processor.process_image();
    assert_eq!(outs[0], pixels);
}

/// Sharpening a uniform image is the identity: the Laplacian of a flat
/// field is zero, and a zero delta leaves the original.
#[test]
fn sharpen_preserves_flat_field() {
    let pixels = vec![0xFF40_2060u32; 16];
    let filters = [FilterKind::Laplacian];
    let processor = ImageProcessor::new(&pixels, (4, 4), &filters);
    let outs = processor.process_image();
    assert_eq!(outs[0], pixels);
}

/// Filters run independently and in order.
#[test]
fn process_image_keeps_filter_order() {
    let pixels = gray_image(128, 16);
    let filters = [FilterKind::Sobel, FilterKind::Canny, FilterKind::Laplacian];
    let processor = ImageProcessor::new(&pixels, (4, 4), &filters);
    let outs = processor.process_image();
    assert_eq!(outs.len(), 3);
    assert_eq!(outs[0], vec![0u32; 16]);
    assert_eq!(outs[1], vec![0u32; 16]);
    assert_eq!(outs[2], pixels);
}

/// Both preparation steps route by the channel policy: dithering gets the
/// three color planes, the edge detectors the luminance plane alone.
#[test]
fn preprocessing_routes_planes() {
    let pixels = gray_image(10, 4);
    let filters = [FilterKind::Bayer];
    let processor = ImageProcessor::new(&pixels, (2, 2), &filters);
    let ((_, g1, b1), _) = processor.preprocess_image(&FilterKind::Bayer);
    assert_eq!(g1.len(), 4);
    assert_eq!(b1.len(), 4);
    let ((r2, g2, b2), opts) = Preprocessor::prepare(&pixels, &FilterKind::Bayer);
    assert_eq!(r2.len(), 4);
    assert_eq!(g2.len(), 4);
    assert_eq!(b2.len(), 4);
    assert_eq!(opts, BayerOrderedDithering.compute_options(&[]));
    let ((lum, g3, b3), _) = Preprocessor::prepare(&pixels, &FilterKind::Sobel);
    assert_eq!(lum.len(), 4);
    assert!(g3.is_empty());
    assert!(b3.is_empty());
}

/// `get_kernel` is constant per filter: the same program text and entry
/// point on every call, shared with the tagged filter list.
#[test]
fn kernel_source_is_constant() {
    let (src_a, name_a) = SobelFilter.get_kernel();
    let (src_b, name_b) = SobelFilter.get_kernel();
    assert_eq!(src_a, src_b);
    assert_eq!(name_a, name_b);
    assert_eq!(FilterKind::Sobel.get_kernel().0, src_a);
    assert_eq!(FilterKind::Gaussian.get_kernel().0, GaussianBlur.get_kernel().0);
    assert_eq!(FilterKind::Bayer.get_kernel().0, BayerOrderedDithering.get_kernel().0);
    assert!(src_a.contains("__kernel void sobelEdgeDetection"));
}
