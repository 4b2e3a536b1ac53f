//! End-to-end tests of the escape-time evaluator, the pixel mapping, the
//! grid sampler, the colour quantization and the rasterizer, all on the
//! fixed-point grid of 1/65536 steps per unit.

use mandelbrot::color::map_escape_time_to_color;
use mandelbrot::color::PixelColor;
use mandelbrot::complex::Complex;
use mandelbrot::complex::SCALE;
use mandelbrot::escape::calculate_mandelbrot;
use mandelbrot::mapping::mandelbrot_mapper;
use mandelbrot::mapping::pixel_to_complex;
use mandelbrot::render::render_rgb_buffer;

fn units(v: i64) -> i64 {
    v * SCALE
}

#[test]
fn evaluator_at_origin_spends_whole_budget() {
    // 0 is inside the Mandelbrot set: the orbit never escapes, so the
    // evaluator returns exactly its budget, for every small budget.
    let origin = Complex { real: 0, imaginary: 0 };
    for n in 0..=5u64 {
        assert_eq!(calculate_mandelbrot(origin, n), n as usize);
    }
    assert_eq!(calculate_mandelbrot(origin, 1000), 1000);
}

#[test]
fn evaluator_interior_point_never_escapes() {
    // -1 cycles 0 -> -1 -> 0 -> ... exactly on the fixed-point grid.
    let c = Complex { real: units(-1), imaginary: 0 };
    assert_eq!(calculate_mandelbrot(c, 50), 50);
}

#[test]
fn evaluator_boundary_point_two() {
    // c = 2 + 0i: z runs 0 -> 2 -> 6; the magnitude check sees |0| <= 2 and
    // |2| <= 2 (not strictly greater), so exactly two passes are counted.
    let c = Complex { real: units(2), imaginary: 0 };
    assert_eq!(calculate_mandelbrot(c, 100), 2);
}

#[test]
fn evaluator_far_point_counts_single_pass() {
    // The orbit starts at the origin, so even a far point costs one pass
    // (0 -> c) before the entry check fires.
    let c = Complex { real: units(3), imaginary: 0 };
    assert_eq!(calculate_mandelbrot(c, 100), 1);
    let d = Complex { real: units(-5), imaginary: units(4) };
    assert_eq!(calculate_mandelbrot(d, 100), 1);
}

#[test]
fn evaluator_zero_budget_returns_zero() {
    let c = Complex { real: units(3), imaginary: 0 };
    assert_eq!(calculate_mandelbrot(c, 0), 0);
    let origin = Complex { real: 0, imaginary: 0 };
    assert_eq!(calculate_mandelbrot(origin, 0), 0);
}

#[test]
fn escape_test_is_strict_at_radius_two() {
    // |2| is not strictly greater than 2; the slightest step beyond is.
    let on_circle = Complex { real: units(2), imaginary: 0 };
    assert!(!on_circle.escapes());
    let beyond = Complex { real: units(2), imaginary: 1 };
    assert!(beyond.escapes());
    let diagonal = Complex { real: units(2), imaginary: units(2) };
    assert!(diagonal.escapes());
}

#[test]
fn abs_squared_is_exact() {
    // |3 + 4i|^2 = 25, in SCALE^2 steps.
    let c = Complex { real: units(3), imaginary: units(4) };
    assert_eq!(c.abs_squared(), 25 * (SCALE as u128) * (SCALE as u128));
}

#[test]
fn complex_product_matches_hand_computation() {
    // (1 + 2i) * (3 + 4i) = -5 + 10i, exactly representable.
    let a = Complex { real: units(1), imaginary: units(2) };
    let b = Complex { real: units(3), imaginary: units(4) };
    let p = a.mul(b);
    assert_eq!(p, Complex { real: units(-5), imaginary: units(10) });
    let s = a.add(b);
    assert_eq!(s, Complex { real: units(4), imaginary: units(6) });
}

#[test]
fn product_rounds_toward_zero() {
    // 1/65536 * 1/65536 underflows to zero from either sign: the rescaling
    // truncates toward zero rather than flooring.
    let tiny = Complex { real: 1, imaginary: 0 };
    let neg_tiny = Complex { real: -1, imaginary: 0 };
    assert_eq!(tiny.mul(tiny).real, 0);
    assert_eq!(neg_tiny.mul(tiny).real, 0);
}

#[test]
fn center_pixel_maps_to_origin() {
    let c = pixel_to_complex(5, 5, 10, 10);
    assert_eq!(c, Complex { real: 0, imaginary: 0 });
    let d = pixel_to_complex(2500, 1000, 5000, 2000);
    assert_eq!(d, Complex { real: 0, imaginary: 0 });
}

#[test]
fn corner_pixels_span_the_view() {
    // x = 0 of a width-10 axis sits at (0 - 5) * 10 / 10 = -5 exactly.
    let top_left = pixel_to_complex(0, 0, 10, 10);
    assert_eq!(top_left, Complex { real: units(-5), imaginary: units(-5) });
    // x = 9 sits at (9 - 5) * 10 / 10 = 4 exactly.
    let bottom_right = pixel_to_complex(9, 9, 10, 10);
    assert_eq!(bottom_right, Complex { real: units(4), imaginary: units(4) });
}

#[test]
fn mapper_fills_every_pixel_within_budget() {
    let grid = mandelbrot_mapper(10, 10, 50);
    assert_eq!(grid.len(), 10);
    let mut entries: usize = 0;
    for row in &grid {
        assert_eq!(row.len(), 10);
        for &count in row {
            assert!(count <= 50);
            entries += 1;
        }
    }
    assert_eq!(entries, 100);
}

#[test]
fn mapper_center_pixel_spends_whole_budget() {
    // The centre pixel maps to the origin, which never escapes.
    let grid = mandelbrot_mapper(10, 10, 50);
    assert_eq!(grid[5][5], 50);
}

#[test]
fn mapper_is_deterministic() {
    let first = mandelbrot_mapper(10, 10, 50);
    let second = mandelbrot_mapper(10, 10, 50);
    assert_eq!(first, second);
}

#[test]
fn classification_boundaries() {
    assert_eq!(map_escape_time_to_color(0), PixelColor::Black);
    assert_eq!(map_escape_time_to_color(1), PixelColor::Red);
    assert_eq!(map_escape_time_to_color(4), PixelColor::Red);
    assert_eq!(map_escape_time_to_color(5), PixelColor::Indigo);
    assert_eq!(map_escape_time_to_color(6), PixelColor::Indigo);
    assert_eq!(map_escape_time_to_color(7), PixelColor::Violet);
    assert_eq!(map_escape_time_to_color(8), PixelColor::Violet);
    assert_eq!(map_escape_time_to_color(9), PixelColor::Blue);
    assert_eq!(map_escape_time_to_color(10), PixelColor::Blue);
    assert_eq!(map_escape_time_to_color(11), PixelColor::White);
    assert_eq!(map_escape_time_to_color(1000), PixelColor::White);
}

#[test]
fn palette_triples() {
    assert_eq!(PixelColor::Black.rgb(), (0, 0, 0));
    assert_eq!(PixelColor::Red.rgb(), (255, 0, 0));
    assert_eq!(PixelColor::Blue.rgb(), (0, 0, 255));
    assert_eq!(PixelColor::Violet.rgb(), (143, 0, 255));
    assert_eq!(PixelColor::Indigo.rgb(), (75, 0, 130));
    assert_eq!(PixelColor::White.rgb(), (255, 255, 255));
    assert_eq!(PixelColor::Purple.rgb(), (128, 0, 128));
}

#[test]
fn render_lays_out_rows_top_down() {
    // Column-indexed grid: entry [x][y] colours pixel (x, y).
    let grid = vec![vec![0usize, 11], vec![4, 9]];
    let buf = render_rgb_buffer(&grid, 2, 2);
    assert_eq!(buf.len(), 12);
    // (0,0): count 0, black; (1,0): count 4, red.
    assert_eq!(&buf[0..6], &[0, 0, 0, 255, 0, 0]);
    // (0,1): count 11, white; (1,1): count 9, blue.
    assert_eq!(&buf[6..12], &[255, 255, 255, 0, 0, 255]);
}

#[test]
fn render_agrees_with_classification_of_sampled_grid() {
    let grid = mandelbrot_mapper(4, 4, 20);
    let buf = render_rgb_buffer(&grid, 4, 4);
    assert_eq!(buf.len(), 48);
    for x in 0..4usize {
        for y in 0..4usize {
            let expected = map_escape_time_to_color(grid[x][y]).rgb();
            let base = 3 * (y * 4 + x);
            assert_eq!(buf[base], expected.0);
            assert_eq!(buf[base + 1], expected.1);
            assert_eq!(buf[base + 2], expected.2);
        }
    }
}
