//! Pixel-space to complex-plane mapping and the grid sampler.
//!
//! A pixel `(x, y)` of a `width * height` image is sent to the plane by the
//! fixed affine transform `real = (x - width/2) * 10 / width` and
//! `imaginary = (y - height/2) * 10 / height` (the same span constant on both
//! axes, so a non-square image is not aspect-corrected), rounded toward zero
//! onto the fixed-point grid.  The sampler evaluates the escape time of every
//! pixel and collects the counts in a dense column-indexed grid.

use crate::complex::Complex;
use crate::complex::abs_int;
use crate::escape::calculate_mandelbrot;
use crate::escape::spec_escape_time;
use vstd::prelude::*;

verus! {

/// Division rounding toward zero, for a positive divisor.
pub open spec fn trunc_div(a: int, d: int) -> int {
    if a >= 0 {
        a / d
    } else {
        -((-a) / d)
    }
}

/// Raw fixed-point coordinate of pixel index `p` on an axis of `d` pixels:
/// the exact ratio `(p - d/2) * 10 / d`, scaled by `SCALE` and rounded toward
/// zero.
pub open spec fn spec_axis(p: int, d: int) -> int {
    trunc_div((2 * p - d) * 5 * 65536, d)
}

/// The complex point sampled for pixel `(x, y)` of a `w * h` image.
pub open spec fn spec_pixel_to_complex(x: int, y: int, w: int, h: int) -> (int, int) {
    (spec_axis(x, w), spec_axis(y, h))
}

fn axis_coordinate(p: usize, d: usize) -> (r: i64)
    requires
        0 < d,
        p < d,
    ensures
        r as int == spec_axis(p as int, d as int),
        abs_int(r as int) <= 5 * 65536,
{
    let pd: u128 = d as u128;
    let pp: u128 = p as u128;
    if pp * 2 >= pd {
        let k: u128 = pp * 2 - pd;
        proof {
            assert(k * 327680 <= pd * 327680) by (nonlinear_arith)
                requires
                    0 <= k <= pd,
            ;
        }
        let num: u128 = k * 327680;
        let q: u128 = num / pd;
        proof {
            vstd::arithmetic::div_mod::lemma_div_is_ordered(
                num as int,
                pd as int * 327680,
                pd as int,
            );
            vstd::arithmetic::div_mod::lemma_div_multiples_vanish(327680, pd as int);
        }
        q as i64
    } else {
        let k: u128 = pd - pp * 2;
        proof {
            assert(k * 327680 <= pd * 327680) by (nonlinear_arith)
                requires
                    0 <= k <= pd,
            ;
        }
        let num: u128 = k * 327680;
        let q: u128 = num / pd;
        proof {
            vstd::arithmetic::div_mod::lemma_div_is_ordered(
                num as int,
                pd as int * 327680,
                pd as int,
            );
            vstd::arithmetic::div_mod::lemma_div_multiples_vanish(327680, pd as int);
        }
        -(q as i64)
    }
}

/// Map pixel `(x, y)` of a `image_width * image_height` image to its point of
/// the complex plane, centring the sampled region on the origin.
pub fn pixel_to_complex(x: usize, y: usize, image_width: usize, image_height: usize) -> (c: Complex)
    requires
        0 < image_width,
        0 < image_height,
        x < image_width,
        y < image_height,
    ensures
        c@ == spec_pixel_to_complex(x as int, y as int, image_width as int, image_height as int),
        c.wf(),
{
    let re: i64 = axis_coordinate(x, image_width);
    let im: i64 = axis_coordinate(y, image_height);
    Complex { real: re, imaginary: im }
}

/// The centre pixel of an even-sized image maps exactly to the origin.
pub proof fn lemma_center_pixel_maps_to_origin(w: int, h: int)
    requires
        0 < w,
        w % 2 == 0,
        0 < h,
        h % 2 == 0,
    ensures
        spec_pixel_to_complex(w / 2, h / 2, w, h) == (0int, 0int),
{
    vstd::arithmetic::div_mod::lemma_fundamental_div_mod(w, 2);
    vstd::arithmetic::div_mod::lemma_fundamental_div_mod(h, 2);
    assert(2 * (w / 2) - w == 0);
    assert(2 * (h / 2) - h == 0);
    vstd::arithmetic::div_mod::lemma_div_of0(w);
    vstd::arithmetic::div_mod::lemma_div_of0(h);
    assert(spec_axis(w / 2, w) == 0);
    assert(spec_axis(h / 2, h) == 0);
}

/// Sample the whole pixel grid: for every pixel `(x, y)` of a
/// `max_width * max_height` image, evaluate the escape time of its complex
/// point under the budget `max_iter`.  The result is dense and
/// column-indexed: entry `[x][y]` holds the count for pixel `(x, y)`, always
/// in `0 ..= max_iter`.
pub fn mandelbrot_mapper(max_width: u64, max_height: u64, max_iter: u64) -> (grid: Vec<Vec<usize>>)
    requires
        max_width <= usize::MAX,
        max_height <= usize::MAX,
        max_iter <= usize::MAX,
    ensures
        grid@.len() == max_width,
        forall|x: int| 0 <= x < max_width ==> (#[trigger] grid@[x]).len() == max_height,
        forall|x: int, y: int|
            0 <= x < max_width && 0 <= y < max_height ==> (#[trigger] grid@[x][y])
                == spec_escape_time(
                spec_pixel_to_complex(x, y, max_width as int, max_height as int),
                max_iter as nat,
            ) && grid@[x][y] <= max_iter,
{
    let w: usize = max_width as usize;
    let h: usize = max_height as usize;
    let mut grid: Vec<Vec<usize>> = Vec::new();
    let mut i: usize = 0;
    while i < w
        invariant
            i <= w,
            w == max_width,
            h == max_height,
            max_iter <= usize::MAX,
            grid@.len() == i,
            forall|x: int| 0 <= x < i ==> (#[trigger] grid@[x]).len() == max_height,
            forall|x: int, y: int|
                0 <= x < i && 0 <= y < max_height ==> (#[trigger] grid@[x][y])
                    == spec_escape_time(
                    spec_pixel_to_complex(x, y, max_width as int, max_height as int),
                    max_iter as nat,
                ) && grid@[x][y] <= max_iter,
        decreases w - i,
    {
        let mut row: Vec<usize> = Vec::new();
        let mut j: usize = 0;
        while j < h
            invariant
                j <= h,
                i < w,
                w == max_width,
                h == max_height,
                max_iter <= usize::MAX,
                row@.len() == j,
                forall|y: int|
                    0 <= y < j ==> (#[trigger] row@[y]) == spec_escape_time(
                        spec_pixel_to_complex(i as int, y, max_width as int, max_height as int),
                        max_iter as nat,
                    ) && row@[y] <= max_iter,
            decreases h - j,
        {
            let complex: Complex = pixel_to_complex(i, j, w, h);
            let escape_time: usize = calculate_mandelbrot(complex, max_iter);
            row.push(escape_time);
            j = j + 1;
        }
        grid.push(row);
        i = i + 1;
    }
    grid
}

/// Sampling is deterministic: two grids that both satisfy the sampler's
/// contract for the same dimensions and the same iteration budget are equal
/// entry for entry, hence equal.
pub proof fn lemma_mapper_deterministic(
    g1: Seq<Seq<usize>>,
    g2: Seq<Seq<usize>>,
    width: int,
    height: int,
    fuel: nat,
)
    requires
        g1.len() == width,
        g2.len() == width,
        forall|x: int| 0 <= x < width ==> (#[trigger] g1[x]).len() == height,
        forall|x: int| 0 <= x < width ==> (#[trigger] g2[x]).len() == height,
        forall|x: int, y: int|
            0 <= x < width && 0 <= y < height ==> (#[trigger] g1[x][y]) == spec_escape_time(
                spec_pixel_to_complex(x, y, width, height),
                fuel,
            ),
        forall|x: int, y: int|
            0 <= x < width && 0 <= y < height ==> (#[trigger] g2[x][y]) == spec_escape_time(
                spec_pixel_to_complex(x, y, width, height),
                fuel,
            ),
    ensures
        g1 == g2,
{
    assert forall|x: int| 0 <= x < width implies g1[x] == g2[x] by {
        assert forall|y: int| 0 <= y < height implies g1[x][y] == g2[x][y] by {
            assert(g1[x][y] == spec_escape_time(spec_pixel_to_complex(x, y, width, height), fuel));
            assert(g2[x][y] == spec_escape_time(spec_pixel_to_complex(x, y, width, height), fuel));
        }
        assert(g1[x] =~= g2[x]);
    }
    assert(g1 =~= g2);
}

} // verus!
