//! Derivatives of functions on the reals.

use vstd::prelude::*;

use super::numbers::{
    distance, lemma_bounded_product, lemma_distribute, lemma_rearrange, lemma_times_nonneg,
    lemma_times_zero,
};

verus! {

/// Whether, closer to `x` than `r`, the straight line with slope `slope` through
/// `f` at `x` is off by at most `m` times the square of the distance from `x`.
pub open spec fn touches(
    f: spec_fn(real) -> real,
    x: real,
    slope: real,
    r: real,
    m: real,
) -> bool {
    forall|y: real|
        x - r < y < x + r ==> distance(#[trigger] f(y), f(x) + (y - x) * slope) <= m * ((y - x)
            * (y - x))
}

/// Whether `slope` is the derivative of `f` at `x`, with an error of the tangent
/// that is of second order.
pub open spec fn has_derivative(f: spec_fn(real) -> real, x: real, slope: real) -> bool {
    exists|r: real, m: real| r > 0real && m >= 0real && #[trigger] touches(f, x, slope, r, m)
}

/// Derivatives of weighted sums.
pub(crate) proof fn lemma_weighted_sum(
    f: spec_fn(real) -> real,
    g: spec_fn(real) -> real,
    h: spec_fn(real) -> real,
    w: real,
    x: real,
    f_slope: real,
    g_slope: real,
)
    requires
        has_derivative(f, x, f_slope),
        has_derivative(g, x, g_slope),
        forall|y: real| #[trigger] h(y) == f(y) + w * g(y),
    ensures
        has_derivative(h, x, f_slope + w * g_slope),
{
    let (r0, m0) = choose|r: real, m: real|
        r > 0real && m >= 0real && #[trigger] touches(f, x, f_slope, r, m);
    let (r1, m1) = choose|r: real, m: real|
        r > 0real && m >= 0real && #[trigger] touches(g, x, g_slope, r, m);
    let r = if r0 < r1 {
        r0
    } else {
        r1
    };
    let size = distance(w, 0real);
    let m = m0 + size * m1;
    lemma_times_nonneg(size, m1);
    let slope = f_slope + w * g_slope;
    assert forall|y: real| x - r < y < x + r implies distance(
        #[trigger] h(y),
        h(x) + (y - x) * slope,
    ) <= m * ((y - x) * (y - x)) by {
        let d = y - x;
        let sq = d * d;
        let fe = f(y) - (f(x) + d * f_slope);
        let ge = g(y) - (g(x) + d * g_slope);
        assert(distance(f(y), f(x) + d * f_slope) <= m0 * sq);
        assert(distance(g(y), g(x) + d * g_slope) <= m1 * sq);
        assert(h(y) == f(y) + w * g(y) && h(x) == f(x) + w * g(x));
        lemma_combined_error(w, d, f(x), g(x), f_slope, g_slope, fe, ge, m0, m1);
    }
    assert(touches(h, x, slope, r, m));
}

/// The error of the tangent of a weighted sum.
#[verifier::spinoff_prover]
proof fn lemma_combined_error(
    w: real,
    d: real,
    fx: real,
    gx: real,
    f_slope: real,
    g_slope: real,
    fe: real,
    ge: real,
    m0: real,
    m1: real,
)
    requires
        -(m0 * (d * d)) <= fe <= m0 * (d * d),
        -(m1 * (d * d)) <= ge <= m1 * (d * d),
    ensures
        ({
            let off = ((fx + d * f_slope + fe) + w * (gx + d * g_slope + ge)) - ((fx + w * gx) + d
                * (f_slope + w * g_slope));
            let most = (m0 + distance(w, 0real) * m1) * (d * d);
            -most <= off <= most
        }),
{
    let sq = d * d;
    let size = distance(w, 0real);
    lemma_distribute(w, gx + d * g_slope, ge);
    lemma_distribute(w, gx, d * g_slope);
    lemma_rearrange(w, d, g_slope);
    lemma_distribute(d, f_slope, w * g_slope);
    lemma_bounded_product(w, size, ge, m1 * sq);
    lemma_distribute(sq, m0, size * m1);
    lemma_rearrange(size, m1, sq);
}

/// A constant function has slope zero.
pub(crate) proof fn lemma_constant(f: spec_fn(real) -> real, x: real)
    requires
        forall|y: real| #[trigger] f(y) == f(x),
    ensures
        has_derivative(f, x, 0real),
{
    assert forall|y: real| x - 1real < y < x + 1real implies distance(
        #[trigger] f(y),
        f(x) + (y - x) * 0real,
    ) <= 0real * ((y - x) * (y - x)) by {
        lemma_times_zero(y - x, 0real);
        lemma_times_zero((y - x) * (y - x), 0real);
        assert(f(y) == f(x));
    }
    assert(touches(f, x, 0real, 1real, 0real));
}

} // verus!
