//! Rasterization of an escape-time grid: quantize every count to its palette
//! colour and lay the RGB triples out in a flat row-major byte buffer, ready
//! for an image encoder.

use crate::color::map_escape_time_to_color;
use crate::color::spec_classify;
use crate::color::spec_rgb;
use crate::color::PixelColor;
use vstd::prelude::*;

verus! {

/// Byte offset of pixel `(x, y)` in a flat row-major RGB raster of width
/// `w`: origin at the top left, `x` rightward, `y` downward.
pub open spec fn pixel_base(x: int, y: int, w: int) -> int {
    3 * (y * w + x)
}

/// The three bytes of pixel `(x, y)` in `buf` are the RGB triple of the
/// quantized escape-time count of that pixel.
pub open spec fn pixel_rendered(
    buf: Seq<u8>,
    grid: Seq<Vec<usize>>,
    x: int,
    y: int,
    w: int,
) -> bool {
    buf[pixel_base(x, y, w)] == spec_rgb(spec_classify(grid[x][y] as nat)).0 && buf[pixel_base(
        x,
        y,
        w,
    ) + 1] == spec_rgb(spec_classify(grid[x][y] as nat)).1 && buf[pixel_base(x, y, w) + 2]
        == spec_rgb(spec_classify(grid[x][y] as nat)).2
}

/// Raster offsets follow the raster order: a pixel of an earlier row, or an
/// earlier pixel of the same row, has all three of its bytes before the
/// offset of `(x, y)`.
proof fn lemma_raster_order(a: int, b: int, x: int, y: int, w: int)
    requires
        0 <= a < w,
        0 <= b,
        0 <= x,
        b < y || (b == y && a < x),
    ensures
        pixel_base(a, b, w) + 2 < pixel_base(x, y, w),
{
    if b < y {
        assert(b * w + a < y * w + x) by (nonlinear_arith)
            requires
                0 <= a < w,
                0 <= b,
                0 <= x,
                b < y,
        ;
    }
}

/// Render the grid as a flat row-major RGB byte buffer: pixel `(x, y)` gets
/// the triple of its quantized escape-time count, at offset
/// `pixel_base(x, y, width)`.  Every pixel is written, so no background
/// shows through.
pub fn render_rgb_buffer(grid: &Vec<Vec<usize>>, width: usize, height: usize) -> (buf: Vec<u8>)
    requires
        grid@.len() == width,
        forall|x: int| 0 <= x < width ==> (#[trigger] grid@[x]).len() == height,
        3 * (width as int) * (height as int) <= usize::MAX,
    ensures
        buf@.len() == 3 * (width as int) * (height as int),
        forall|x: int, y: int|
            0 <= x < width && 0 <= y < height ==> #[trigger] pixel_rendered(
                buf@,
                grid@,
                x,
                y,
                width as int,
            ),
{
    let mut buf: Vec<u8> = Vec::new();
    let mut y: usize = 0;
    while y < height
        invariant
            y <= height,
            grid@.len() == width,
            forall|x: int| 0 <= x < width ==> (#[trigger] grid@[x]).len() == height,
            buf@.len() == pixel_base(0, y as int, width as int),
            forall|a: int, b: int|
                0 <= a < width && 0 <= b < y ==> #[trigger] pixel_rendered(
                    buf@,
                    grid@,
                    a,
                    b,
                    width as int,
                ),
        decreases height - y,
    {
        let mut x: usize = 0;
        while x < width
            invariant
                x <= width,
                y < height,
                grid@.len() == width,
                forall|a: int| 0 <= a < width ==> (#[trigger] grid@[a]).len() == height,
                buf@.len() == pixel_base(x as int, y as int, width as int),
                forall|a: int, b: int|
                    0 <= a < width && 0 <= b < y ==> #[trigger] pixel_rendered(
                        buf@,
                        grid@,
                        a,
                        b,
                        width as int,
                    ),
                forall|a: int|
                    0 <= a < x ==> #[trigger] pixel_rendered(
                        buf@,
                        grid@,
                        a,
                        y as int,
                        width as int,
                    ),
            decreases width - x,
        {
            let count: usize = grid[x][y];
            let color: PixelColor = map_escape_time_to_color(count);
            let triple: (u8, u8, u8) = color.rgb();
            let ghost prev: Seq<u8> = buf@;
            buf.push(triple.0);
            buf.push(triple.1);
            buf.push(triple.2);
            proof {
                assert(pixel_rendered(buf@, grid@, x as int, y as int, width as int));
                assert forall|a: int, b: int|
                    0 <= a < width && 0 <= b < y as int implies #[trigger] pixel_rendered(
                    buf@,
                    grid@,
                    a,
                    b,
                    width as int,
                ) by {
                    lemma_raster_order(a, b, x as int, y as int, width as int);
                    assert(pixel_rendered(prev, grid@, a, b, width as int));
                }
                assert forall|a: int| 0 <= a < x as int implies #[trigger] pixel_rendered(
                    buf@,
                    grid@,
                    a,
                    y as int,
                    width as int,
                ) by {
                    lemma_raster_order(a, y as int, x as int, y as int, width as int);
                    assert(pixel_rendered(prev, grid@, a, y as int, width as int));
                }
            }
            x = x + 1;
        }
        proof {
            assert((y as int + 1) * (width as int) == y as int * (width as int) + width as int)
                by (nonlinear_arith);
        }
        y = y + 1;
    }
    proof {
        assert(3 * ((height as int) * (width as int) + 0) == 3 * (width as int) * (height as int))
            by (nonlinear_arith);
    }
    buf
}

} // verus!
