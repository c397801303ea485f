use filter_pipeline::viewer::{view_images, ImageViewer};

/// One processed image: one column, two rows; the original sits on top and
/// both cells drop their alpha byte.
#[test]
fn viewer_single_output_layout() {
    let original = vec![0xFFAA_BBCCu32];
    let processed = vec![vec![0xFF11_2233u32]];
    let v = ImageViewer::new(original, processed, (1, 1));
    assert_eq!(v.width, 1);
    assert_eq!(v.height, 2);
    assert_eq!(v.buffer, vec![0x00AA_BBCCu32, 0x0011_2233]);
}

/// Two processed images: two columns, two rows; the original is centered in
/// the top row and uncovered positions stay black.
#[test]
fn viewer_two_outputs_layout() {
    let original = vec![0xFFAA_BBCCu32];
    let processed = vec![vec![0xFF11_2233u32], vec![0xFF44_5566u32]];
    let v = view_images(original, processed, (1, 1));
    assert_eq!(v.width, 2);
    assert_eq!(v.height, 2);
    assert_eq!(v.buffer, vec![0x00AA_BBCCu32, 0, 0x0011_2233, 0x0044_5566]);
}

/// Four processed images wrap into a second grid row, with the original
/// centered in the top row.
#[test]
fn viewer_grid_wraps_after_three_columns() {
    let original = vec![0xFF0F_0F0Fu32];
    let processed = vec![
        vec![0xFF01_0000u32],
        vec![0xFF02_0000u32],
        vec![0xFF03_0000u32],
        vec![0xFF04_0000u32],
    ];
    let v = view_images(original, processed, (1, 1));
    assert_eq!(v.width, 3);
    assert_eq!(v.height, 3);
    assert_eq!(
        v.buffer,
        vec![
            0,
            0x000F_0F0Fu32,
            0,
            0x0001_0000,
            0x0002_0000,
            0x0003_0000,
            0x0004_0000,
            0,
            0
        ]
    );
}

/// A wider image: cells land at their offsets row-major.
#[test]
fn viewer_cell_offsets() {
    let original = vec![0xFF01_0101u32, 0xFF02_0202, 0xFF03_0303, 0xFF04_0404];
    let processed = vec![vec![0xFF0A_0A0Au32, 0xFF0B_0B0B, 0xFF0C_0C0C, 0xFF0D_0D0D]];
    let v = view_images(original, processed, (2, 2));
    assert_eq!(v.width, 2);
    assert_eq!(v.height, 4);
    assert_eq!(
        v.buffer,
        vec![
            0x0001_0101u32,
            0x0002_0202,
            0x0003_0303,
            0x0004_0404,
            0x000A_0A0A,
            0x000B_0B0B,
            0x000C_0C0C,
            0x000D_0D0D
        ]
    );
}
