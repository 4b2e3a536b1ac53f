//! Complex values on a fixed-point grid.
//!
//! A coordinate of the complex plane is stored as a signed count of `1/SCALE`
//! steps, so every value the renderer works with is an exact integer and all
//! arithmetic below is fully specified: addition is exact, multiplication
//! rescales the double-width product back down rounding toward zero, and the
//! squared magnitude is computed without any rescaling at all.

use vstd::prelude::*;

verus! {

/// Number of fixed-point steps per unit of the complex plane.
pub const SCALE: i64 = 65536;

/// Largest component magnitude (in raw `1/SCALE` steps) that the arithmetic
/// accepts: with both factors bounded by this, a rescaled product still fits
/// comfortably in `i64`.
pub const COMPONENT_LIMIT: i64 = 0x40_0000_0000;

/// Squared magnitude, in `1/SCALE^2` steps, beyond which an orbit counts as
/// escaped: `|z| > 2` exactly when `|z|^2 > 4`.
pub const ESCAPE_THRESHOLD_SQUARED: u128 = 4 * 65536 * 65536;

pub open spec fn abs_int(a: int) -> int {
    if a >= 0 {
        a
    } else {
        -a
    }
}

/// Division by `SCALE` rounding toward zero, the rounding rule of this
/// library's fixed-point multiplication.
pub open spec fn div_scale_trunc(p: int) -> int {
    if p >= 0 {
        p / (SCALE as int)
    } else {
        -((-p) / (SCALE as int))
    }
}

/// Fixed-point product of two raw coordinates: the integer product counts
/// `1/SCALE^2` steps, so it is scaled back down, rounding toward zero.
pub open spec fn fx_mul(a: int, b: int) -> int {
    div_scale_trunc(a * b)
}

/// An immutable point of the complex plane; each component is a signed count
/// of `1/SCALE` steps.
#[derive(Clone, Copy, Debug, PartialEq, Eq, Structural)]
pub struct Complex {
    pub real: i64,
    pub imaginary: i64,
}

impl View for Complex {
    type V = (int, int);

    open spec fn view(&self) -> (int, int) {
        (self.real as int, self.imaginary as int)
    }
}

pub open spec fn spec_add(a: (int, int), b: (int, int)) -> (int, int) {
    (a.0 + b.0, a.1 + b.1)
}

pub open spec fn spec_mul(a: (int, int), b: (int, int)) -> (int, int) {
    (fx_mul(a.0, b.0) - fx_mul(a.1, b.1), fx_mul(a.1, b.0) + fx_mul(a.0, b.1))
}

/// Squared magnitude in `1/SCALE^2` steps; exact, no rescaling.
pub open spec fn spec_abs_squared(z: (int, int)) -> int {
    z.0 * z.0 + z.1 * z.1
}

/// Whether the point lies strictly outside the circle of radius 2.
pub open spec fn spec_escaped(z: (int, int)) -> bool {
    spec_abs_squared(z) > ESCAPE_THRESHOLD_SQUARED
}

/// The magnitude of an integer product is the product of the magnitudes, and
/// its sign is determined by the factors' signs.
proof fn lemma_abs_mul(a: int, b: int)
    ensures
        abs_int(a * b) == abs_int(a) * abs_int(b),
        a * b < 0 ==> ((a < 0) != (b < 0)),
        a >= 0 && b >= 0 ==> a * b >= 0,
        a < 0 && b >= 0 ==> a * b <= 0,
        a >= 0 && b < 0 ==> a * b <= 0,
        a < 0 && b < 0 ==> a * b > 0,
{
    if a >= 0 && b >= 0 {
        assert(a * b >= 0) by (nonlinear_arith)
            requires
                a >= 0,
                b >= 0,
        ;
    } else if a < 0 && b >= 0 {
        assert(a * b <= 0 && (-a) * b == -(a * b)) by (nonlinear_arith)
            requires
                a < 0,
                b >= 0,
        ;
    } else if a >= 0 && b < 0 {
        assert(a * b <= 0 && a * (-b) == -(a * b)) by (nonlinear_arith)
            requires
                a >= 0,
                b < 0,
        ;
    } else {
        assert(a * b > 0 && (-a) * (-b) == a * b) by (nonlinear_arith)
            requires
                a < 0,
                b < 0,
        ;
    }
}

/// A nonnegative value at most `65536 * bound` divides by 65536 to at most
/// `bound`.
proof fn lemma_udiv_scale_bound(p: int, bound: int)
    requires
        0 <= p,
        0 <= bound,
        p <= 65536 * bound,
    ensures
        p / 65536 <= bound,
{
    vstd::arithmetic::div_mod::lemma_div_is_ordered(p, 65536 * bound, 65536);
    vstd::arithmetic::div_mod::lemma_div_multiples_vanish(bound, 65536);
}

/// Rescaling a product toward zero keeps the magnitude of the exact
/// quotient: `|p / SCALE|` truncated equals `|p| / SCALE` floored.
pub proof fn lemma_div_scale_trunc_abs(p: int)
    ensures
        abs_int(div_scale_trunc(p)) == abs_int(p) / 65536,
{
    if p >= 0 {
        vstd::arithmetic::div_mod::lemma_div_pos_is_pos(p, 65536);
    } else {
        vstd::arithmetic::div_mod::lemma_div_pos_is_pos(-p, 65536);
    }
}

/// For a point inside the escape circle (`|z|^2 <= 4`), each component is at
/// most 2 in magnitude and every rescaled component product is at most 4, so
/// one recurrence step stays far inside the arithmetic's range.
pub proof fn lemma_bounded_products(a: int, b: int)
    requires
        spec_abs_squared((a, b)) <= 4 * 65536 * 65536,
    ensures
        0 <= fx_mul(a, a) <= 4 * 65536,
        0 <= fx_mul(b, b) <= 4 * 65536,
        -(2 * 65536) <= fx_mul(a, b) <= 2 * 65536,
        -(2 * 65536) <= fx_mul(b, a) <= 2 * 65536,
        -(2 * 65536) <= a <= 2 * 65536,
        -(2 * 65536) <= b <= 2 * 65536,
{
    assert(0 <= a * a && 0 <= b * b && -(2 * 65536) <= a <= 2 * 65536 && -(2 * 65536) <= b <= 2
        * 65536 && -(2 * 65536 * 65536) <= a * b <= 2 * 65536 * 65536) by (nonlinear_arith)
        requires
            a * a + b * b <= 4 * 65536 * 65536,
    ;
    lemma_div_scale_trunc_abs(a * a);
    lemma_div_scale_trunc_abs(b * b);
    lemma_div_scale_trunc_abs(a * b);
    lemma_div_scale_trunc_abs(b * a);
    assert(a * b == b * a) by (nonlinear_arith);
    lemma_udiv_scale_bound(a * a, 4 * 65536int);
    lemma_udiv_scale_bound(b * b, 4 * 65536int);
    lemma_udiv_scale_bound(abs_int(a * b), 2 * 65536int);
    vstd::arithmetic::div_mod::lemma_div_pos_is_pos(a * a, 65536);
    vstd::arithmetic::div_mod::lemma_div_pos_is_pos(b * b, 65536);
    vstd::arithmetic::div_mod::lemma_div_pos_is_pos(abs_int(a * b), 65536);
}

/// Fixed-point multiply of two raw coordinates, rounding toward zero.
fn mul_scaled(a: i64, b: i64) -> (r: i64)
    requires
        abs_int(a as int) <= COMPONENT_LIMIT,
        abs_int(b as int) <= COMPONENT_LIMIT,
    ensures
        r as int == fx_mul(a as int, b as int),
        abs_int(r as int) <= 0x1000_0000_0000_0000,
{
    let neg: bool = (a < 0) != (b < 0);
    let ma: u64 = if a < 0 {
        (-a) as u64
    } else {
        a as u64
    };
    let mb: u64 = if b < 0 {
        (-b) as u64
    } else {
        b as u64
    };
    proof {
        assert(ma as int == abs_int(a as int));
        assert(mb as int == abs_int(b as int));
        assert((ma as int) * (mb as int) <= 65536 * 0x1000_0000_0000_0000) by (nonlinear_arith)
            requires
                0 <= ma as int <= 0x40_0000_0000,
                0 <= mb as int <= 0x40_0000_0000,
        ;
    }
    let prod: u128 = (ma as u128) * (mb as u128);
    let q: u128 = prod / 65536u128;
    proof {
        let ai: int = a as int;
        let bi: int = b as int;
        let p: int = ai * bi;
        lemma_abs_mul(ai, bi);
        assert(prod as int == abs_int(p));
        lemma_udiv_scale_bound(prod as int, 0x1000_0000_0000_0000);
        assert(q as int == abs_int(p) / 65536);
        vstd::arithmetic::div_mod::lemma_div_pos_is_pos(abs_int(p), 65536);
        if p >= 0 {
            assert(div_scale_trunc(p) == p / 65536);
            assert(q as int == p / 65536);
        } else {
            assert(div_scale_trunc(p) == -((-p) / 65536));
            assert(q as int == (-p) / 65536);
        }
    }
    if neg {
        -(q as i64)
    } else {
        q as i64
    }
}

impl Complex {
    /// Every component small enough for the fixed-point arithmetic.
    pub open spec fn wf(self) -> bool {
        abs_int(self.real as int) <= COMPONENT_LIMIT && abs_int(self.imaginary as int)
            <= COMPONENT_LIMIT
    }

    /// Componentwise complex addition; exact.
    pub fn add(self, other: Self) -> (r: Self)
        requires
            i64::MIN <= self.real + other.real <= i64::MAX,
            i64::MIN <= self.imaginary + other.imaginary <= i64::MAX,
        ensures
            r@ == spec_add(self@, other@),
    {
        Self { real: self.real + other.real, imaginary: self.imaginary + other.imaginary }
    }

    /// Complex multiplication on the fixed-point grid: each of the four
    /// component products is rescaled (rounding toward zero) before the
    /// combination.
    pub fn mul(self, other: Self) -> (r: Self)
        requires
            self.wf(),
            other.wf(),
        ensures
            r@ == spec_mul(self@, other@),
    {
        let rr: i64 = mul_scaled(self.real, other.real);
        let ii: i64 = mul_scaled(self.imaginary, other.imaginary);
        let ir: i64 = mul_scaled(self.imaginary, other.real);
        let ri: i64 = mul_scaled(self.real, other.imaginary);
        Self { real: rr - ii, imaginary: ir + ri }
    }

    /// Squared magnitude in `1/SCALE^2` steps; total, exact for every value.
    pub fn abs_squared(&self) -> (r: u128)
        ensures
            r as int == spec_abs_squared(self@),
    {
        let ra: i128 = self.real as i128;
        let ia: i128 = self.imaginary as i128;
        proof {
            assert(0 <= ra * ra <= 0x4000_0000_0000_0000_0000_0000_0000_0000) by (nonlinear_arith)
                requires
                    -0x8000_0000_0000_0000 <= ra <= 0x8000_0000_0000_0000,
            ;
            assert(0 <= ia * ia <= 0x4000_0000_0000_0000_0000_0000_0000_0000) by (nonlinear_arith)
                requires
                    -0x8000_0000_0000_0000 <= ia <= 0x8000_0000_0000_0000,
            ;
        }
        let sr: u128 = (ra * ra) as u128;
        let si: u128 = (ia * ia) as u128;
        sr + si
    }

    /// Whether the point lies strictly outside the circle of radius 2, the
    /// escape test of the iteration.
    pub fn escapes(&self) -> (b: bool)
        ensures
            b == spec_escaped(self@),
    {
        self.abs_squared() > ESCAPE_THRESHOLD_SQUARED
    }
}

} // verus!
