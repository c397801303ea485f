//! Tiled composition of the original image and the filter outputs.
//!
//! The viewer lays the original image centered in a top row and the
//! processed images in a grid of up to three columns below it, painting each
//! cell's pixels (alpha byte dropped) into one framebuffer. The framebuffer
//! and its dimensions are the viewer's whole state; displaying it is a
//! caller's concern.

use vstd::prelude::*;

use crate::pixel;

verus! {

/// One image placed at an offset inside the framebuffer.
pub struct Cell {
    pub image: Vec<u32>,
    pub width: u32,
    pub height: u32,
    pub x_offset: u32,
    pub y_offset: u32,
}

impl Cell {
    /// The cell's image matches its dimensions.
    pub open spec fn wf(&self) -> bool {
        self.image@.len() == (self.width as int) * (self.height as int)
    }
}

/// An all-black framebuffer.
pub open spec fn zero_buffer(len: int) -> Seq<u32> {
    Seq::new(len as nat, |t: int| 0u32)
}

/// Paint one cell over a framebuffer of width `w`: every buffer position
/// under the cell takes the cell pixel's RGB bytes (alpha dropped); the
/// cell's parts outside the buffer are clipped.
pub open spec fn paint_cell(
    buf: Seq<u32>,
    image: Seq<u32>,
    cw: int,
    ch: int,
    xo: int,
    yo: int,
    w: int,
) -> Seq<u32> {
    Seq::new(
        buf.len(),
        |t: int|
            {
                let ty = t / w;
                let tx = t % w;
                if yo <= ty < yo + ch && xo <= tx < xo + cw {
                    image[(ty - yo) * cw + (tx - xo)] & 0x00FF_FFFF
                } else {
                    buf[t]
                }
            },
    )
}

/// Paint the cells from index `i` on, in order.
pub open spec fn paint_cells(buf: Seq<u32>, cells: Seq<Cell>, w: int, i: int) -> Seq<u32>
    decreases cells.len() - i,
{
    if i < 0 || i >= cells.len() {
        buf
    } else {
        paint_cells(
            paint_cell(
                buf,
                cells[i].image@,
                cells[i].width as int,
                cells[i].height as int,
                cells[i].x_offset as int,
                cells[i].y_offset as int,
                w,
            ),
            cells,
            w,
            i + 1,
        )
    }
}

/// The number of grid columns: up to three processed images side by side.
pub open spec fn grid_cols(n: int) -> int {
    if n < 3 {
        n
    } else {
        3
    }
}

/// The number of grid rows: the processed images' rows, plus the top row
/// that holds the original image.
pub open spec fn grid_rows(n: int) -> int {
    (n + grid_cols(n) - 1) / grid_cols(n) + 1
}

/// The framebuffer width for `n` processed images of width `cw`.
pub open spec fn window_width(cw: int, n: int) -> int {
    cw * grid_cols(n)
}

/// The framebuffer height for `n` processed images of height `ch`.
pub open spec fn window_height(ch: int, n: int) -> int {
    ch * grid_rows(n)
}

/// Paint the processed images from index `i` on into their grid cells:
/// image `i` sits in column `i mod cols` of row `i / cols`, below the top
/// row.
pub open spec fn paint_processed(
    buf: Seq<u32>,
    processed: Seq<Seq<u32>>,
    cw: int,
    ch: int,
    cols: int,
    w: int,
    i: int,
) -> Seq<u32>
    decreases processed.len() - i,
{
    if i < 0 || i >= processed.len() {
        buf
    } else {
        paint_processed(
            paint_cell(buf, processed[i], cw, ch, (i % cols) * cw, (i / cols + 1) * ch, w),
            processed,
            cw,
            ch,
            cols,
            w,
            i + 1,
        )
    }
}

/// The composed framebuffer: the original image centered in the top row and
/// each processed image in its grid cell below, over a black background.
pub open spec fn composed_view(
    original: Seq<u32>,
    processed: Seq<Seq<u32>>,
    cw: int,
    ch: int,
) -> Seq<u32> {
    let n = processed.len() as int;
    let cols = grid_cols(n);
    let w = window_width(cw, n);
    let h = window_height(ch, n);
    paint_processed(
        paint_cell(zero_buffer(w * h), original, cw, ch, (w - cw) / 2, 0, w),
        processed,
        cw,
        ch,
        cols,
        w,
        0,
    )
}

/// The row and column of a framebuffer index.
proof fn lemma_row_of_index(t: int, w: int, h: int)
    requires
        w > 0,
        0 <= t < w * h,
    ensures
        0 <= t / w < h,
        0 <= t % w < w,
        t == (t / w) * w + (t % w),
    decreases 0int,
{
    vstd::arithmetic::div_mod::lemma_fundamental_div_mod(t, w);
    vstd::arithmetic::div_mod::lemma_remainder_lower(t, w);
    vstd::arithmetic::div_mod::lemma_remainder_upper(t, w);
    vstd::arithmetic::div_mod::lemma_div_pos_is_pos(t, w);
    assert(t / w < h && t == (t / w) * w + (t % w)) by (nonlinear_arith)
        requires
            t == w * (t / w) + (t % w),
            0 <= t % w < w,
            0 <= t / w,
            t < w * h,
    ;
}

/// Compose a list of cells into one framebuffer of `width x height`.
fn render(cells: &[Cell], width: usize, height: usize) -> (buffer: Vec<u32>)
    requires
        (width as int) * (height as int) <= usize::MAX,
        forall|i: int| 0 <= i < cells@.len() ==> (#[trigger] cells@[i]).wf(),
    ensures
        buffer@ == paint_cells(
            zero_buffer((width as int) * (height as int)),
            cells@,
            width as int,
            0,
        ),
{
    proof {
        assert(0 <= (width as int) * (height as int)) by (nonlinear_arith);
    }
    let len = width * height;
    let mut buffer: Vec<u32> = Vec::new();
    let mut t: usize = 0;
    while t < len
        invariant
            t <= len,
            buffer@.len() == t,
            forall|j: int| 0 <= j < t ==> #[trigger] buffer@[j] == 0u32,
        decreases len - t,
    {
        buffer.push(0);
        t = t + 1;
    }
    proof {
        assert(buffer@ =~= zero_buffer((width as int) * (height as int)));
    }
    let ghost zeros = buffer@;
    let mut i: usize = 0;
    while i < cells.len()
        invariant
            i <= cells@.len(),
            (width as int) * (height as int) <= usize::MAX,
            forall|k: int| 0 <= k < cells@.len() ==> (#[trigger] cells@[k]).wf(),
            buffer@.len() == zeros.len(),
            paint_cells(buffer@, cells@, width as int, i as int) == paint_cells(
                zeros,
                cells@,
                width as int,
                0,
            ),
            buffer@.len() == (width as int) * (height as int),
        decreases cells@.len() - i,
    {
        render_cell(&cells[i], &mut buffer, width, height);
        i = i + 1;
    }
    buffer
}

/// Paint one cell's in-bounds pixels into the framebuffer, masking the
/// alpha byte out.
fn render_cell(cell: &Cell, buffer: &mut Vec<u32>, width: usize, height: usize)
    requires
        old(buffer)@.len() == (width as int) * (height as int),
        cell.wf(),
    ensures
        final(buffer)@ == paint_cell(
            old(buffer)@,
            cell.image@,
            cell.width as int,
            cell.height as int,
            cell.x_offset as int,
            cell.y_offset as int,
            width as int,
        ),
{
    let _buffer_len = buffer.len();
    let _image_len = cell.image.len();
    let image_width = cell.width as usize;
    let image_height = cell.height as usize;
    let xo = cell.x_offset as usize;
    let yo = cell.y_offset as usize;
    let y_max: usize = if yo >= height {
        0
    } else if image_height < height - yo {
        image_height
    } else {
        height - yo
    };
    let x_max: usize = if xo >= width {
        0
    } else if image_width < width - xo {
        image_width
    } else {
        width - xo
    };
    let ghost w = width as int;
    let ghost h = height as int;
    let ghost cw = cell.width as int;
    let ghost ch = cell.height as int;
    let ghost xoi = cell.x_offset as int;
    let ghost yoi = cell.y_offset as int;
    let ghost orig = old(buffer)@;
    let mut y: usize = 0;
    while y < y_max
        invariant
            y <= y_max,
            cell.wf(),
            w == width as int,
            h == height as int,
            cw == cell.width as int,
            ch == cell.height as int,
            xoi == cell.x_offset as int,
            yoi == cell.y_offset as int,
            orig.len() == w * h,
            buffer@.len() == w * h,
            w * h <= usize::MAX,
            cw * ch <= usize::MAX,
            image_height == ch,
            image_width == cw,
            xo == xoi,
            yo == yoi,
            y_max <= image_height,
            y_max > 0 ==> yoi < h && yoi + y_max <= h,
            yoi < h ==> y_max == if ch < h - yoi {
                ch
            } else {
                h - yoi
            },
            x_max <= image_width,
            x_max > 0 ==> xoi < w && xoi + x_max <= w,
            xoi >= w ==> x_max == 0,
            xoi < w ==> x_max == if cw < w - xoi {
                cw
            } else {
                w - xoi
            },
            forall|t: int|
                0 <= t < w * h ==> #[trigger] buffer@[t] == {
                    let ty = t / w;
                    let tx = t % w;
                    if yoi <= ty < yoi + ch && xoi <= tx < xoi + cw && ty - yoi < y {
                        cell.image@[(ty - yoi) * cw + (tx - xoi)] & 0x00FF_FFFF
                    } else {
                        orig[t]
                    }
                },
        decreases y_max - y,
    {
        let mut x: usize = 0;
        while x < x_max
            invariant
                x <= x_max,
                y < y_max,
                cell.wf(),
                w == width as int,
                h == height as int,
                cw == cell.width as int,
                ch == cell.height as int,
                xoi == cell.x_offset as int,
                yoi == cell.y_offset as int,
                orig.len() == w * h,
                buffer@.len() == w * h,
                w * h <= usize::MAX,
                cw * ch <= usize::MAX,
                image_height == ch,
                image_width == cw,
                xo == xoi,
                yo == yoi,
                y_max <= image_height,
                y_max > 0 ==> yoi < h && yoi + y_max <= h,
                x_max <= image_width,
                x_max > 0 ==> xoi < w && xoi + x_max <= w,
                xoi >= w ==> x_max == 0,
                xoi < w ==> x_max == if cw < w - xoi {
                    cw
                } else {
                    w - xoi
                },
                forall|t: int|
                    0 <= t < w * h ==> #[trigger] buffer@[t] == {
                        let ty = t / w;
                        let tx = t % w;
                        if yoi <= ty < yoi + ch && xoi <= tx < xoi + cw && (ty - yoi < y || (ty
                            - yoi == y && tx - xoi < x)) {
                            cell.image@[(ty - yoi) * cw + (tx - xoi)] & 0x00FF_FFFF
                        } else {
                            orig[t]
                        }
                    },
            decreases x_max - x,
        {
            let target_y = y + yo;
            let target_x = x + xo;
            proof {
                assert((target_y as int) * w + (target_x as int) < w * h && 0 <= (target_y as int)
                    * w) by (nonlinear_arith)
                    requires
                        0 <= (target_x as int) < w,
                        0 <= (target_y as int) < h,
                ;
                vstd::arithmetic::div_mod::lemma_fundamental_div_mod_converse(
                    (target_y as int) * w + (target_x as int),
                    w,
                    target_y as int,
                    target_x as int,
                );
                assert(0 <= (y as int) * cw && (y as int) * cw + (x as int) < cw * ch)
                    by (nonlinear_arith)
                    requires
                        0 <= (x as int) < cw,
                        0 <= (y as int) < ch,
                ;
            }
            let target_index = target_y * width + target_x;
            let pixel_index = y * image_width + x;
            let p = cell.image[pixel_index];
            let r = pixel::red(p);
            let g = pixel::green(p);
            let b = pixel::blue(p);
            proof {
                pixel::lemma_repack_rgb(p);
            }
            buffer.set(target_index, (r << 16) | (g << 8) | b);
            proof {
                assert forall|t: int|
                    0 <= t < w * h implies #[trigger] buffer@[t] == {
                        let ty = t / w;
                        let tx = t % w;
                        if yoi <= ty < yoi + ch && xoi <= tx < xoi + cw && (ty - yoi < y || (ty
                            - yoi == y && tx - xoi < x + 1)) {
                            cell.image@[(ty - yoi) * cw + (tx - xoi)] & 0x00FF_FFFF
                        } else {
                            orig[t]
                        }
                    } by {
                    lemma_row_of_index(t, w, h);
                }
            }
            x = x + 1;
        }
        proof {
            assert forall|t: int|
                0 <= t < w * h implies #[trigger] buffer@[t] == {
                    let ty = t / w;
                    let tx = t % w;
                    if yoi <= ty < yoi + ch && xoi <= tx < xoi + cw && ty - yoi < y + 1 {
                        cell.image@[(ty - yoi) * cw + (tx - xoi)] & 0x00FF_FFFF
                    } else {
                        orig[t]
                    }
                } by {
                lemma_row_of_index(t, w, h);
            }
        }
        y = y + 1;
    }
    proof {
        let painted = paint_cell(orig, cell.image@, cw, ch, xoi, yoi, w);
        assert forall|t: int| 0 <= t < w * h implies buffer@[t] == painted[t] by {
            lemma_row_of_index(t, w, h);
        }
        assert(buffer@ =~= painted);
    }
}

/// The cells after the first follow the grid formula, so painting them is
/// painting the processed images into their grid cells.
proof fn lemma_paint_cells_grid(
    buf: Seq<u32>,
    cells: Seq<Cell>,
    processed: Seq<Seq<u32>>,
    cw: int,
    ch: int,
    cols: int,
    w: int,
    i: int,
)
    requires
        cols >= 1,
        cells.len() == processed.len() + 1,
        forall|j: int|
            0 <= j < processed.len() ==> {
                &&& (#[trigger] cells[j + 1]).image@ == processed[j]
                &&& cells[j + 1].width as int == cw
                &&& cells[j + 1].height as int == ch
                &&& cells[j + 1].x_offset as int == (j % cols) * cw
                &&& cells[j + 1].y_offset as int == (j / cols + 1) * ch
            },
        1 <= i <= cells.len(),
    ensures
        paint_cells(buf, cells, w, i) == paint_processed(buf, processed, cw, ch, cols, w, i - 1),
    decreases cells.len() - i,
{
    if i >= cells.len() {
    } else {
        let painted = paint_cell(
            buf,
            cells[i].image@,
            cells[i].width as int,
            cells[i].height as int,
            cells[i].x_offset as int,
            cells[i].y_offset as int,
            w,
        );
        lemma_paint_cells_grid(painted, cells, processed, cw, ch, cols, w, i + 1);
    }
}

/// The composed framebuffer, with the dimensions it was laid out for.
pub struct ImageViewer {
    pub width: u32,
    pub height: u32,
    pub buffer: Vec<u32>,
}

impl ImageViewer {
    /// Lay the original image and the processed images out as a grid and
    /// compose them into one framebuffer.
    pub fn new(original: Vec<u32>, processed: Vec<Vec<u32>>, image_dimensions: (u32, u32)) -> (v:
        ImageViewer)
        requires
            1 <= processed@.len() <= 0xFFFF_FFFF,
            image_dimensions.0 >= 1,
            image_dimensions.1 >= 1,
            original@.len() == (image_dimensions.0 as int) * (image_dimensions.1 as int),
            forall|i: int|
                0 <= i < processed@.len() ==> (#[trigger] processed@[i])@.len() == (
                image_dimensions.0 as int) * (image_dimensions.1 as int),
            window_width(image_dimensions.0 as int, processed@.len() as int) <= u32::MAX,
            window_height(image_dimensions.1 as int, processed@.len() as int) <= u32::MAX,
            window_width(image_dimensions.0 as int, processed@.len() as int) * window_height(
                image_dimensions.1 as int,
                processed@.len() as int,
            ) <= usize::MAX,
        ensures
            v.width as int == window_width(image_dimensions.0 as int, processed@.len() as int),
            v.height as int == window_height(image_dimensions.1 as int, processed@.len() as int),
            v.buffer@ == composed_view(
                original@,
                processed.deep_view(),
                image_dimensions.0 as int,
                image_dimensions.1 as int,
            ),
    {
        let ghost all = processed.deep_view();
        let ghost processed0 = processed@;
        let ghost orig_view = original@;
        let ghost n_g = processed@.len() as int;
        proof {
            assert(all.len() == n_g);
            assert forall|j: int| 0 <= j < n_g implies #[trigger] all[j] == processed0[j]@ by {
                assert(all[j] == processed0[j].deep_view());
                assert(processed0[j].deep_view() =~= processed0[j]@);
            }
        }
        let cell_width = image_dimensions.0;
        let cell_height = image_dimensions.1;
        let ghost cw = cell_width as int;
        let ghost ch = cell_height as int;
        let n = processed.len();
        let cols: usize = if n < 3 {
            n
        } else {
            3
        };
        proof {
            assert(cols as int == grid_cols(n_g));
        }
        let rows64: u64 = ((n as u64) + (cols as u64) - 1) / (cols as u64) + 1;
        proof {
            assert(rows64 as int == grid_rows(n_g));
            assert(grid_rows(n_g) >= 1) by {
                vstd::arithmetic::div_mod::lemma_div_pos_is_pos(
                    n_g + grid_cols(n_g) - 1,
                    grid_cols(n_g),
                );
            }
            assert(grid_rows(n_g) <= 0xFFFF_FFFF) by (nonlinear_arith)
                requires
                    ch * grid_rows(n_g) <= 0xFFFF_FFFF,
                    ch >= 1,
                    grid_rows(n_g) >= 1,
            ;
        }
        let grid_rows_v: u32 = rows64 as u32;
        let window_width_v: u32 = cell_width * (cols as u32);
        let window_height_v: u32 = cell_height * grid_rows_v;
        let ghost w = window_width_v as int;
        let ghost h = window_height_v as int;
        proof {
            assert(cw * 1 <= cw * grid_cols(n_g)) by (nonlinear_arith)
                requires
                    1 <= grid_cols(n_g),
                    cw >= 1,
            ;
        }
        let original_cell = Cell {
            image: original,
            width: cell_width,
            height: cell_height,
            x_offset: (window_width_v - cell_width) / 2,
            y_offset: 0,
        };
        let mut cells: Vec<Cell> = Vec::new();
        cells.push(original_cell);
        let mut processed = processed;
        let mut i: usize = 0;
        while i < n
            invariant
                i <= n,
                n == n_g,
                1 <= n_g <= 0xFFFF_FFFF,
                all.len() == n_g,
                cw == cell_width as int,
                ch == cell_height as int,
                cw >= 1,
                ch >= 1,
                cols as int == grid_cols(n_g),
                1 <= cols <= 3,
                rows64 as int == grid_rows(n_g),
                window_width_v as int == cw * grid_cols(n_g),
                window_height_v as int == ch * grid_rows(n_g),
                processed@.len() == n - i,
                processed.deep_view() == all.skip(i as int),
                cells@.len() == i + 1,
                cells@[0].image@ == orig_view,
                cells@[0].width == cell_width,
                cells@[0].height == cell_height,
                cells@[0].x_offset as int == (window_width_v as int - cw) / 2,
                cells@[0].y_offset == 0u32,
                forall|j: int|
                    0 <= j < i ==> {
                        &&& (#[trigger] cells@[j + 1]).image@ == all[j]
                        &&& cells@[j + 1].width as int == cw
                        &&& cells@[j + 1].height as int == ch
                        &&& cells@[j + 1].x_offset as int == (j % (cols as int)) * cw
                        &&& cells@[j + 1].y_offset as int == (j / (cols as int) + 1) * ch
                    },
            decreases n - i,
        {
            proof {
                assert(processed.deep_view()[0] == processed@[0].deep_view());
                assert(processed@[0].deep_view() =~= processed@[0]@);
                assert(all.skip(i as int)[0] == all[i as int]);
            }
            let ghost before = processed@;
            let ghost before_dv = processed.deep_view();
            let img = processed.remove(0);
            proof {
                assert(processed@ =~= before.subrange(1, before.len() as int));
                assert forall|j: int|
                    0 <= j < processed@.len() implies #[trigger] processed.deep_view()[j]
                    == all.skip(i as int + 1)[j] by {
                    assert(processed@[j] == before[j + 1]);
                    assert(processed.deep_view()[j] == processed@[j].deep_view());
                    assert(before_dv[j + 1] == before[j + 1].deep_view());
                    assert(before_dv[j + 1] == all.skip(i as int)[j + 1]);
                    assert(all.skip(i as int)[j + 1] == all[i as int + 1 + j]);
                    assert(all.skip(i as int + 1)[j] == all[i as int + 1 + j]);
                }
                assert(processed.deep_view() =~= all.skip(i as int + 1));
            }
            let col = i % cols;
            let row = i / cols;
            proof {
                let ci = cols as int;
                assert((col as int) * cw + cw <= ci * cw && 0 <= (col as int) * cw)
                    by (nonlinear_arith)
                    requires
                        0 <= (col as int) < ci,
                        cw >= 1,
                ;
                vstd::arithmetic::div_mod::lemma_div_is_ordered(i as int, n_g - 1, ci);
                vstd::arithmetic::div_mod::lemma_hoist_over_denominator(n_g - 1, 1, ci as nat);
                assert(grid_rows(n_g) == (n_g - 1 + ci) / ci + 1);
                assert((row as int) + 1 <= grid_rows(n_g) - 1);
                assert(((row as int) + 1) * ch + ch <= grid_rows(n_g) * ch && 0 <= ((row as int)
                    + 1) * ch) by (nonlinear_arith)
                    requires
                        0 <= (row as int) + 1 <= grid_rows(n_g) - 1,
                        ch >= 1,
                ;
                assert(grid_rows(n_g) * ch == ch * grid_rows(n_g)) by (nonlinear_arith);
            }
            let cell = Cell {
                image: img,
                width: cell_width,
                height: cell_height,
                x_offset: (col as u32) * cell_width,
                y_offset: ((row as u32) + 1) * cell_height,
            };
            cells.push(cell);
            i = i + 1;
        }
        proof {
            assert(0 <= w * h) by (nonlinear_arith)
                requires
                    w >= 0,
                    h >= 0,
            ;
        }
        proof {
            assert forall|j: int| 0 <= j < cells@.len() implies (#[trigger] cells@[j]).wf() by {
                if j >= 1 {
                    let k = j - 1;
                    assert(cells@[k + 1].image@ == all[k]);
                    assert(all[k] == processed0[k]@);
                    assert(processed0[k]@.len() == cw * ch);
                }
            }
        }
        let buffer = render(cells.as_slice(), window_width_v as usize, window_height_v as usize);
        proof {
            let zeros = zero_buffer(w * h);
            let base = paint_cell(zeros, orig_view, cw, ch, (w - cw) / 2, 0, w);
            assert(cells@[0].image@ == orig_view);
            assert(cells@[0].width as int == cw && cells@[0].height as int == ch);
            assert(cells@[0].x_offset as int == (w - cw) / 2 && cells@[0].y_offset as int == 0);
            assert(paint_cell(
                zeros,
                cells@[0].image@,
                cells@[0].width as int,
                cells@[0].height as int,
                cells@[0].x_offset as int,
                cells@[0].y_offset as int,
                w,
            ) == base);
            assert(paint_cells(zeros, cells@, w, 0) == paint_cells(base, cells@, w, 1));
            lemma_paint_cells_grid(base, cells@, all, cw, ch, cols as int, w, 1);
            assert(buffer@ == composed_view(orig_view, all, cw, ch));
        }
        ImageViewer { width: window_width_v, height: window_height_v, buffer }
    }
}

/// Compose an input image and its filter outputs into one viewable
/// framebuffer.
pub fn view_images(input: Vec<u32>, outputs: Vec<Vec<u32>>, dimensions: (u32, u32)) -> (v:
    ImageViewer)
    requires
        1 <= outputs@.len() <= 0xFFFF_FFFF,
        dimensions.0 >= 1,
        dimensions.1 >= 1,
        input@.len() == (dimensions.0 as int) * (dimensions.1 as int),
        forall|i: int|
            0 <= i < outputs@.len() ==> (#[trigger] outputs@[i])@.len() == (dimensions.0 as int) * (
            dimensions.1 as int),
        window_width(dimensions.0 as int, outputs@.len() as int) <= u32::MAX,
        window_height(dimensions.1 as int, outputs@.len() as int) <= u32::MAX,
        window_width(dimensions.0 as int, outputs@.len() as int) * window_height(
            dimensions.1 as int,
            outputs@.len() as int,
        ) <= usize::MAX,
    ensures
        v.width as int == window_width(dimensions.0 as int, outputs@.len() as int),
        v.height as int == window_height(dimensions.1 as int, outputs@.len() as int),
        v.buffer@ == composed_view(
            input@,
            outputs.deep_view(),
            dimensions.0 as int,
            dimensions.1 as int,
        ),
{
    ImageViewer::new(input, outputs, dimensions)
}

} // verus!
