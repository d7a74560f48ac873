//! The composition of pixels from the intensities of the channels.

use crate::grid::{cell_index, IntensityGrid};
use crate::img::{pixel_offset, Image, RGB};
use crate::modes::{ColFmt, Spec, SpecView};
use vstd::arithmetic::div_mod::{lemma_fundamental_div_mod, lemma_mod_bound};
use vstd::prelude::*;

verus! {

/// A cell of the grid of a mode, the cells lying in the order of the scan.
pub open spec fn cell(m: SpecView, cells: Seq<u8>, line: int, chan: int, col: int) -> u8 {
    cells[cell_index(m.chan_count as int, m.line_width as int, line, chan, col)]
}

/// The pixel in column `x` of line `y`.
///
/// With two channels, luminance and a chroma that adjacent lines share, the
/// pixel takes the luminance of its line, the chroma of the odd line of its
/// pair and the chroma of the even line of its pair. With three channels the
/// colour model gives the order: green, blue, red are turned into red, green,
/// blue; luminance and two chromas come out as luminance, second chroma,
/// first chroma; red, green, blue stay. Anything else is black.
pub open spec fn composed(m: SpecView, cells: Seq<u8>, x: int, y: int) -> RGB {
    if m.chan_count == 2 {
        if m.has_alt_scan && m.color == ColFmt::YUV {
            RGB {
                r: cell(m, cells, y, 0, x),
                g: cell(m, cells, y + 1 - y % 2, 1, x),
                b: cell(m, cells, y - y % 2, 1, x),
            }
        } else {
            RGB { r: 0, g: 0, b: 0 }
        }
    } else if m.chan_count == 3 {
        match m.color {
            ColFmt::GBR => RGB {
                r: cell(m, cells, y, 2, x),
                g: cell(m, cells, y, 0, x),
                b: cell(m, cells, y, 1, x),
            },
            ColFmt::YUV => RGB {
                r: cell(m, cells, y, 0, x),
                g: cell(m, cells, y, 2, x),
                b: cell(m, cells, y, 1, x),
            },
            ColFmt::RGB => RGB {
                r: cell(m, cells, y, 0, x),
                g: cell(m, cells, y, 1, x),
                b: cell(m, cells, y, 2, x),
            },
            ColFmt::BW => RGB { r: 0, g: 0, b: 0 },
        }
    } else {
        RGB { r: 0, g: 0, b: 0 }
    }
}

/// Whether the bytes at the place of a pixel are those of the composed
/// pixel.
pub open spec fn pixel_drawn(m: SpecView, cells: Seq<u8>, bytes: Seq<u8>, x: int, y: int) -> bool {
    let offset = pixel_offset(m.line_width as int, x, y);
    &&& 0 <= offset
    &&& offset + 2 < bytes.len()
    &&& bytes[offset] == composed(m, cells, x, y).r
    &&& bytes[offset + 1] == composed(m, cells, x, y).g
    &&& bytes[offset + 2] == composed(m, cells, x, y).b
}

/// The bytes of the picture of a grid: its pixels row by row, three bytes
/// each, red, green and blue.
pub open spec fn picture(m: SpecView, cells: Seq<u8>) -> Seq<u8> {
    Seq::new(
        (3 * m.line_count * m.line_width) as nat,
        |i: int|
            {
                let pixel = composed(
                    m,
                    cells,
                    (i / 3) % (m.line_width as int),
                    (i / 3) / (m.line_width as int),
                );
                if i % 3 == 0 {
                    pixel.r
                } else if i % 3 == 1 {
                    pixel.g
                } else {
                    pixel.b
                }
            },
    )
}

/// Bytes in which every pixel is drawn are the picture.
pub proof fn lemma_picture(m: SpecView, cells: Seq<u8>, bytes: Seq<u8>)
    requires
        m.wf(),
        bytes.len() == 3 * m.line_count * m.line_width,
        forall|x: int, y: int|
            0 <= x < m.line_width && 0 <= y < m.line_count ==> #[trigger] pixel_drawn(
                m,
                cells,
                bytes,
                x,
                y,
            ),
    ensures
        bytes == picture(m, cells),
{
    let w = m.line_width as int;
    let h = m.line_count as int;
    assert forall|i: int| 0 <= i < bytes.len() implies bytes[i] == picture(m, cells)[i] by {
        let q = i / 3;
        let x = q % w;
        let y = q / w;
        lemma_fundamental_div_mod(q, w);
        lemma_mod_bound(q, w);
        assert(0 <= y < h && pixel_offset(w, x, y) == 3 * q) by (nonlinear_arith)
            requires
                q == w * y + x,
                0 <= x < w,
                0 <= q,
                3 * q < 3 * h * w,
        ;
        assert(pixel_drawn(m, cells, bytes, x, y));
    }
    assert(bytes =~= picture(m, cells));
}

proof fn lemma_rows_in_order(width: int, x: int, y: int, later: int)
    by (nonlinear_arith)
    requires
        0 <= x < width,
        0 <= y < later,
    ensures
        0 <= pixel_offset(width, x, y),
        pixel_offset(width, x, y) + 3 <= pixel_offset(width, 0, later),
        pixel_offset(width, 0, y) + 3 * width == pixel_offset(width, 0, y + 1),
        pixel_offset(width, x, y) == pixel_offset(width, 0, y) + 3 * x,
{
}

fn compose_pixel(mode: &Spec, grid: &IntensityGrid, x: usize, y: usize) -> (pixel: RGB)
    requires
        mode@.wf(),
        grid.spec_lines() == mode@.line_count,
        grid.spec_channels() == mode@.chan_count,
        grid.spec_columns() == mode@.line_width,
        x < mode@.line_width,
        y < mode@.line_count,
    ensures
        pixel == composed(mode@, grid.cells(), x as int, y as int),
{
    if mode.chan_count == 2 {
        if mode.has_alt_scan && mode.color == ColFmt::YUV {
            let odd: usize = y % 2;
            RGB {
                r: grid.get(y, 0, x),
                g: grid.get(y + 1 - odd, 1, x),
                b: grid.get(y - odd, 1, x),
            }
        } else {
            RGB { r: 0, g: 0, b: 0 }
        }
    } else if mode.chan_count == 3 {
        match mode.color {
            ColFmt::GBR => RGB { r: grid.get(y, 2, x), g: grid.get(y, 0, x), b: grid.get(y, 1, x) },
            ColFmt::YUV => RGB { r: grid.get(y, 0, x), g: grid.get(y, 2, x), b: grid.get(y, 1, x) },
            ColFmt::RGB => RGB { r: grid.get(y, 0, x), g: grid.get(y, 1, x), b: grid.get(y, 2, x) },
            ColFmt::BW => RGB { r: 0, g: 0, b: 0 },
        }
    } else {
        RGB { r: 0, g: 0, b: 0 }
    }
}

/// Renders the picture from the intensities that a decode has read.
pub fn draw_image(mode: &Spec, image_data: &IntensityGrid) -> (image: Image)
    requires
        mode@.wf(),
        image_data.spec_lines() == mode@.line_count,
        image_data.spec_channels() == mode@.chan_count,
        image_data.spec_columns() == mode@.line_width,
    ensures
        image.spec_height() == mode@.line_count,
        image.spec_width() == mode@.line_width,
        image.bytes() == picture(mode@, image_data.cells()),
        forall|x: int, y: int|
            0 <= x < mode@.line_width && 0 <= y < mode@.line_count ==> #[trigger] pixel_drawn(
                mode@,
                image_data.cells(),
                image.bytes(),
                x,
                y,
            ),
{
    let width: usize = mode.line_width;
    let height: usize = mode.line_count;
    let ghost m = mode@;
    let ghost cells = image_data.cells();
    let mut data: Vec<u8> = Vec::new();
    let mut y: usize = 0;
    while y < height
        invariant
            y <= height,
            m == mode@,
            m.wf(),
            cells == image_data.cells(),
            width == m.line_width,
            height == m.line_count,
            image_data.spec_lines() == m.line_count,
            image_data.spec_channels() == m.chan_count,
            image_data.spec_columns() == m.line_width,
            data@.len() == pixel_offset(width as int, 0, y as int),
            forall|x1: int, y1: int|
                0 <= x1 < width && 0 <= y1 < y ==> #[trigger] pixel_drawn(m, cells, data@, x1, y1),
        decreases height - y,
    {
        let mut x: usize = 0;
        while x < width
            invariant
                y < height,
                x <= width,
                m == mode@,
                m.wf(),
                cells == image_data.cells(),
                width == m.line_width,
                height == m.line_count,
                image_data.spec_lines() == m.line_count,
                image_data.spec_channels() == m.chan_count,
                image_data.spec_columns() == m.line_width,
                data@.len() == pixel_offset(width as int, 0, y as int) + 3 * x,
                forall|x1: int, y1: int|
                    0 <= x1 < width && 0 <= y1 < y ==> #[trigger] pixel_drawn(
                        m,
                        cells,
                        data@,
                        x1,
                        y1,
                    ),
                forall|x1: int| 0 <= x1 < x ==> #[trigger] pixel_drawn(m, cells, data@, x1, y as int),
            decreases width - x,
        {
            let pixel = compose_pixel(mode, image_data, x, y);
            let ghost before = data@;
            proof {
                lemma_rows_in_order(width as int, x as int, y as int, y + 1);
            }
            data.push(pixel.r);
            data.push(pixel.g);
            data.push(pixel.b);
            proof {
                assert forall|x1: int, y1: int| 0 <= x1 < width && 0 <= y1 < y implies #[trigger] pixel_drawn(
                    m,
                    cells,
                    data@,
                    x1,
                    y1,
                ) by {
                    assert(pixel_drawn(m, cells, before, x1, y1));
                }
                assert forall|x1: int| 0 <= x1 < x + 1 implies #[trigger] pixel_drawn(
                    m,
                    cells,
                    data@,
                    x1,
                    y as int,
                ) by {
                    if x1 < x {
                        assert(pixel_drawn(m, cells, before, x1, y as int));
                    }
                }
            }
            x = x + 1;
        }
        proof {
            lemma_rows_in_order(width as int, 0, y as int, y + 1);
        }
        y = y + 1;
    }
    proof {
        assert(pixel_offset(width as int, 0, height as int) == 3 * m.line_count * m.line_width)
            by (nonlinear_arith)
            requires
                width == m.line_width,
                height == m.line_count,
        ;
        lemma_picture(m, cells, data@);
    }
    match Image::from_data(height as u32, width as u32, data) {
        Some(image) => image,
        None => Image::new(0, 0),
    }
}

} // verus!
