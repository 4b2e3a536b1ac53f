//! The escape-time evaluator: iterate `z := z*z + c` from the origin and
//! count the passes made before the orbit leaves the radius-2 circle, capped
//! by the iteration budget.

use crate::complex::Complex;
use crate::complex::abs_int;
use crate::complex::fx_mul;
use crate::complex::lemma_bounded_products;
use crate::complex::spec_abs_squared;
use crate::complex::spec_add;
use crate::complex::spec_escaped;
use crate::complex::spec_mul;
use vstd::prelude::*;

verus! {

/// One pass of the quadratic recurrence: `z*z + c`.
pub open spec fn spec_step(z: (int, int), c: (int, int)) -> (int, int) {
    spec_add(spec_mul(z, z), c)
}

/// Number of recurrence passes made when iterating from orbit value `z`:
/// each pass first tests the escape condition and stops without counting if
/// the orbit has already escaped; at most `fuel` passes are made.
pub open spec fn spec_escape_time_from(z: (int, int), c: (int, int), fuel: nat) -> nat
    decreases fuel,
{
    if fuel == 0 || spec_escaped(z) {
        0
    } else {
        1 + spec_escape_time_from(spec_step(z, c), c, (fuel - 1) as nat)
    }
}

/// Escape time of the point `c`: passes made from the origin before the
/// orbit escapes, capped at `fuel`.
pub open spec fn spec_escape_time(c: (int, int), fuel: nat) -> nat {
    spec_escape_time_from((0int, 0int), c, fuel)
}

/// An orbit that starts already outside the radius-2 circle makes no pass at
/// all: the entry check fires before the first recurrence application, for
/// every `c` and every iteration budget.
pub proof fn lemma_escaped_start_yields_zero(z: (int, int), c: (int, int), fuel: nat)
    requires
        spec_escaped(z),
    ensures
        spec_escape_time_from(z, c, fuel) == 0,
{
}

/// The escape time never exceeds the iteration budget.
pub proof fn lemma_escape_time_at_most_fuel(z: (int, int), c: (int, int), fuel: nat)
    ensures
        spec_escape_time_from(z, c, fuel) <= fuel,
    decreases fuel,
{
    if fuel == 0 || spec_escaped(z) {
    } else {
        lemma_escape_time_at_most_fuel(spec_step(z, c), c, (fuel - 1) as nat);
    }
}

/// The origin is a fixed point of the recurrence for `c = 0`, and it never
/// escapes: the evaluator spends its whole budget and returns exactly `fuel`.
pub proof fn lemma_origin_never_escapes(fuel: nat)
    ensures
        spec_escape_time((0int, 0int), fuel) == fuel,
{
    lemma_origin_fixed_point(fuel);
}

proof fn lemma_origin_fixed_point(fuel: nat)
    ensures
        spec_escape_time_from((0int, 0int), (0int, 0int), fuel) == fuel,
    decreases fuel,
{
    if fuel == 0 {
    } else {
        assert(!spec_escaped((0int, 0int)));
        assert(fx_mul(0, 0) == 0) by {
            vstd::arithmetic::div_mod::lemma_div_of0(65536);
        }
        assert(spec_step((0int, 0int), (0int, 0int)) == (0int, 0int));
        lemma_origin_fixed_point((fuel - 1) as nat);
    }
}

/// Escape-time evaluation of the point `c`: starting from `z = 0`, repeat up
/// to `max_iter` times — stop if `|z| > 2`, else replace `z` by `z*z + c` and
/// count the pass.  Returns the count, which is `max_iter` exactly when the
/// orbit never escapes within the budget.
pub fn calculate_mandelbrot(c: Complex, max_iter: u64) -> (iterations: usize)
    requires
        c.wf(),
        max_iter <= usize::MAX,
    ensures
        iterations == spec_escape_time(c@, max_iter as nat),
        iterations <= max_iter,
{
    let m: usize = max_iter as usize;
    let mut iterations: usize = 0;
    let mut z = Complex { real: 0, imaginary: 0 };
    while iterations < m
        invariant_except_break
            iterations <= m,
            m == max_iter,
            c.wf(),
            spec_escape_time(c@, max_iter as nat) == iterations + spec_escape_time_from(
                z@,
                c@,
                (m - iterations) as nat,
            ),
        ensures
            iterations <= m,
            iterations == spec_escape_time(c@, max_iter as nat),
        decreases m - iterations,
    {
        if z.escapes() {
            proof {
                lemma_escaped_start_yields_zero(z@, c@, (m - iterations) as nat);
            }
            break ;
        }
        proof {
            lemma_bounded_products(z@.0, z@.1);
            assert(spec_escape_time_from(z@, c@, (m - iterations) as nat) == 1
                + spec_escape_time_from(spec_step(z@, c@), c@, (m - iterations - 1) as nat));
        }
        z = z.mul(z).add(c);
        iterations = iterations + 1;
    }
    iterations
}

} // verus!
