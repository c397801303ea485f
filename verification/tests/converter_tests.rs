use filter_pipeline::image_converter::ImageConverter;
use filter_pipeline::sample::UNIT;
use filter_pipeline::utility::Utility;

/// Luminance of (51, 102, 153): (2989*51 + 5870*102 + 1140*153) / 10000,
/// truncated, is 92.
#[test]
fn grayscale_round_trip_exact_value() {
    let pixels = vec![0xFF33_6699u32];
    let gray = ImageConverter::convert_rgb_to_grayscale(&pixels);
    assert_eq!(gray, vec![16 * 925_599i64]);
    let rgb = ImageConverter::convert_grayscale_to_rgb(&gray);
    assert_eq!(rgb, vec![0x005C_5C5Cu32]);
}

/// The gray round trip yields R = G = B on every pixel.
#[test]
fn grayscale_round_trip_is_gray() {
    let pixels = vec![0xFF00_0000u32, 0xFFFF_FFFF, 0xFF12_3456, 0x00FE_DCBA];
    let gray = ImageConverter::convert_rgb_to_grayscale(&pixels);
    let rgb = ImageConverter::convert_grayscale_to_rgb(&gray);
    for p in rgb {
        let r = (p >> 16) & 0xFF;
        let g = (p >> 8) & 0xFF;
        let b = p & 0xFF;
        assert_eq!(r, g);
        assert_eq!(g, b);
        assert_eq!(p >> 24, 0);
    }
}

/// Decompose then recompose reproduces the RGB bytes exactly and forces the
/// alpha byte to 255.
#[test]
fn decompose_recompose_identity() {
    let pixels = vec![0xFF33_6699u32, 0x0000_0000, 0x7F01_0203, 0xFFFF_FFFF, 0x12E0_0D42];
    let (r, g, b) = ImageConverter::decompose_rgb(&pixels);
    let back = ImageConverter::recompose_rgb(&r, &g, &b);
    let expected: Vec<u32> = pixels.iter().map(|p| (p & 0x00FF_FFFF) | 0xFF00_0000).collect();
    assert_eq!(back, expected);
}

/// Additive recomposition with all-zero delta planes is the identity on the
/// RGB bytes.
#[test]
fn additive_identity_on_zero_deltas() {
    let pixels = vec![0xFFA0_B0C0u32, 0x0001_0203, 0xFF00_0000, 0x44D5_E6F7];
    let zeros = vec![0i64; pixels.len()];
    let back = ImageConverter::recompose_rgb_with_original(&zeros, &zeros, &zeros, &pixels);
    let expected: Vec<u32> = pixels.iter().map(|p| (p & 0x00FF_FFFF) | 0xFF00_0000).collect();
    assert_eq!(back, expected);
}

/// Recomposition clamps out-of-range samples to [0, 1] before scaling.
#[test]
fn recompose_clamps_out_of_range_samples() {
    let over = vec![UNIT + 12345, -99, UNIT, 0];
    let zero = vec![0i64; 4];
    let out = ImageConverter::recompose_rgb(&over, &zero, &zero);
    assert_eq!(out[0], 0xFFFF_0000);
    assert_eq!(out[1], 0xFF00_0000);
    assert_eq!(out[2], 0xFFFF_0000);
    assert_eq!(out[3], 0xFF00_0000);
}

/// Grayscale broadcast clamps and truncates: UNIT - one channel step maps
/// to 254, anything at or above UNIT to 255, negatives to 0.
#[test]
fn grayscale_broadcast_clamps() {
    let plane = vec![-100i64, 0, UNIT, UNIT + 5, UNIT - 160_000];
    let rgb = ImageConverter::convert_grayscale_to_rgb(&plane);
    assert_eq!(rgb, vec![0, 0, 0x00FF_FFFF, 0x00FF_FFFF, 0x00FE_FEFE]);
}

/// The Utility front ends agree with the converter they delegate to.
#[test]
fn utility_conversions_delegate() {
    let pixels = vec![0xFF12_3456u32, 0xFFAB_CDEF];
    assert_eq!(
        Utility::convert_rgb_to_grayscale(&pixels),
        ImageConverter::convert_rgb_to_grayscale(&pixels)
    );
    let (r, g, b) = Utility::decompose_rgb(&pixels);
    let out = Utility::recompose_rgb(&r, &g, &b);
    assert_eq!(out, vec![0xFF12_3456u32, 0xFFAB_CDEF]);
    let gray = Utility::convert_rgb_to_grayscale(&pixels);
    assert_eq!(
        Utility::convert_grayscale_to_rgb(&gray),
        ImageConverter::convert_grayscale_to_rgb(&gray)
    );
}

/// Packing decoded RGB byte triples: full alpha, bytes in place.
#[test]
fn pack_rgb_pixels_layout() {
    let rgb = vec![1u8, 2, 3, 255, 0, 128];
    let out = Utility::pack_rgb_pixels(&rgb);
    assert_eq!(out, vec![0xFF01_0203u32, 0xFFFF_0080]);
}

/// Only jpg, png and jpeg name supported raster formats.
#[test]
fn supported_image_extensions() {
    assert!(Utility::is_supported_image_extension("jpg"));
    assert!(Utility::is_supported_image_extension("png"));
    assert!(Utility::is_supported_image_extension("jpeg"));
    assert!(!Utility::is_supported_image_extension("gif"));
    assert!(!Utility::is_supported_image_extension("jpgx"));
    assert!(!Utility::is_supported_image_extension(""));
    assert!(!Utility::is_supported_image_extension("jp"));
}
