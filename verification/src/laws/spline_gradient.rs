//! The backward operation on B-splines computes derivatives, over the reals.

use vstd::prelude::*;

use super::derivative::{has_derivative, lemma_constant, lemma_weighted_sum};
use super::numbers::{lemma_distribute, lemma_over_sign, lemma_times_zero, sum};
use super::spline::{fall, lemma_recursion, local_support, nondecreasing, rise};
use super::spline_slope::{basis_function, increasing, slope_is_derivative};
use crate::basis::spline::{
    basis_slope, basis_slopes, basis_value, basis_values, num_basis, num_knots,
};
use crate::device::operation::bspline;
use crate::scalar::dot;

verus! {

/// A weighted sum of the first `n` basis functions as a function of the point.
pub open spec fn weighted_function(
    knots: Seq<real>,
    k: usize,
    weights: Seq<real>,
    n: nat,
) -> spec_fn(real) -> real {
    |y: real| dot(weights, basis_values(y, knots, k as nat), n)
}

/// A weighted sum of the first `n` basis functions has the derivative that the
/// weighted sum of their slopes gives.
proof fn lemma_sum_derivative(
    x: real,
    knots: Seq<real>,
    k: usize,
    weights: Seq<real>,
    n: nat,
)
    requires
        increasing(knots),
        1 <= k,
        n + k < knots.len(),
        k >= 2 || forall|j: int| 0 <= j < knots.len() - 1 ==> knots[j] != x,
    ensures
        has_derivative(
            weighted_function(knots, k, weights, n),
            x,
            dot(weights, basis_slopes(x, knots, k), n),
        ),
    decreases n,
{
    let h = weighted_function(knots, k, weights, n);
    if n == 0 {
        lemma_constant(h, x);
    } else {
        let i = (n - 1) as nat;
        let f = weighted_function(knots, k, weights, i);
        let g = basis_function(knots, k, i as int);
        let w = weights[i as int];
        lemma_sum_derivative(x, knots, k, weights, i);
        slope_is_derivative(x, knots, k, i as int);
        assert forall|y: real| #[trigger] h(y) == f(y) + w * g(y) by {
            assert(basis_values(y, knots, k as nat)[i as int] == basis_value(
                y,
                knots,
                k as nat,
                i as int,
            ));
        }
        assert(basis_slopes(x, knots, k)[i as int] == basis_slope(x, knots, k, i as int));
        lemma_weighted_sum(
            f,
            g,
            h,
            w,
            x,
            dot(weights, basis_slopes(x, knots, k), i),
            basis_slope(x, knots, k, i as int),
        );
    }
}

/// What the backward operation adds to the gradient of a point is the derivative
/// of the weighted sum of the basis values that the forward operation computes
/// there. Linear splines have kinks at their knots, other than the last.
pub proof fn spline_gradient_is_derivative(
    x: real,
    knots: Seq<real>,
    k: usize,
    weights: Seq<real>,
)
    requires
        increasing(knots),
        1 <= k < knots.len(),
        k >= 2 || forall|j: int| 0 <= j < knots.len() - 1 ==> knots[j] != x,
    ensures
        ({
            let n = (knots.len() - 1 - k) as nat;
            has_derivative(
                weighted_function(knots, k, weights, n),
                x,
                dot(weights, basis_slopes(x, knots, k), n),
            )
        }),
{
    lemma_sum_derivative(x, knots, k, weights, (knots.len() - 1 - k) as nat);
}

/// Basis functions of degree zero are flat between two knots, which is why the
/// backward operation leaves the gradients alone.
pub proof fn degree_zero_is_flat(x: real, y: real, knots: Seq<real>, i: int, j: int)
    requires
        increasing(knots),
        0 <= i,
        i + 1 < knots.len(),
        0 <= j,
        j + 1 < knots.len(),
        knots[j] <= x < knots[j + 1],
        knots[j] <= y < knots[j + 1],
    ensures
        basis_value(x, knots, 0, i) == basis_value(y, knots, 0, i),
{
}

/// A basis function of degree `q` divided by the width of its support, or zero if
/// the support is empty.
#[verifier::opaque]
spec fn share(x: real, knots: Seq<real>, q: nat, i: int) -> real {
    if knots[i + q + 1] == knots[i] {
        0real
    } else {
        basis_value(x, knots, q, i) / (knots[i + q + 1] - knots[i])
    }
}

/// A slope is a multiple of the difference of two neighbours.
#[verifier::spinoff_prover]
proof fn lemma_slope_is_difference(x: real, knots: Seq<real>, k: usize, i: int)
    requires
        1 <= k,
    ensures
        basis_slope(x, knots, k, i) == (k as int as real) * (share(x, knots, (k - 1) as nat, i)
            - share(x, knots, (k - 1) as nat, i + 1)),
{
    reveal(share);
}

/// In a sum of slopes, all but the two ends cancel.
#[verifier::spinoff_prover]
proof fn lemma_slopes_telescope(x: real, knots: Seq<real>, k: usize, n: nat)
    requires
        1 <= k,
        n + k < knots.len(),
    ensures
        sum(basis_slopes(x, knots, k), n) == (k as int as real) * (share(
            x,
            knots,
            (k - 1) as nat,
            0,
        ) - share(x, knots, (k - 1) as nat, n as int)),
    decreases n,
{
    let c = k as int as real;
    let q = (k - 1) as nat;
    let first = share(x, knots, q, 0);
    if n == 0 {
        lemma_times_zero(c, first - first);
    } else {
        let i = n - 1;
        lemma_slopes_telescope(x, knots, k, i as nat);
        lemma_slope_is_difference(x, knots, k, i);
        assert(basis_slopes(x, knots, k)[i] == basis_slope(x, knots, k, i));
        let a = share(x, knots, q, i);
        let b = share(x, knots, q, n as int);
        lemma_distribute(c, first - a, a - b);
    }
}

/// At its first knot, a basis function of degree one or higher is zero, unless
/// its second knot is there too.
proof fn lemma_zero_at_start(x: real, knots: Seq<real>, p: nat, i: int)
    requires
        nondecreasing(knots),
        1 <= p,
        0 <= i,
        i + p + 1 < knots.len(),
        x == knots[i],
        knots[i] < knots[i + 1],
    ensures
        basis_value(x, knots, p, i) == 0real,
{
    let below = (p - 1) as nat;
    lemma_recursion(x, knots, p, i);
    local_support(x, knots, below, i + 1);
    lemma_times_zero(fall(x, knots, p, i), basis_value(x, knots, below, i + 1));
    assert(rise(x, knots, p, i) == 0real) by {
        reveal(rise);
        lemma_over_sign(x - knots[i], knots[i + p] - knots[i]);
    }
    lemma_times_zero(basis_value(x, knots, below, i), rise(x, knots, p, i));
}

/// Where the basis functions of degree `k` sum to one, their slopes sum to zero:
/// `k` knots away from either end. At the upper end itself, linear splines have a
/// kink, and so have others if the next knot is there too.
pub proof fn slopes_sum_to_zero(x: real, knots: Seq<real>, k: usize)
    requires
        nondecreasing(knots),
        1 <= k,
        2 * k + 1 < knots.len(),
        knots[k as int] <= x,
        x < knots[knots.len() - 1 - k] || (k >= 2 && x == knots[knots.len() - 1 - k] && x
            < knots[knots.len() - k]),
    ensures
        sum(basis_slopes(x, knots, k), (knots.len() - 1 - k) as nat) == 0real,
{
    let n = (knots.len() - 1 - k) as nat;
    let q = (k - 1) as nat;
    lemma_slopes_telescope(x, knots, k, n);
    local_support(x, knots, q, 0);
    if x < knots[n as int] {
        local_support(x, knots, q, n as int);
    } else {
        lemma_zero_at_start(x, knots, q, n as int);
    }
    lemma_share_zero(x, knots, q, 0);
    lemma_share_zero(x, knots, q, n as int);
    lemma_times_zero(k as int as real, 0real);
}

/// What is zero is zero per width.
proof fn lemma_share_zero(x: real, knots: Seq<real>, q: nat, i: int)
    requires
        nondecreasing(knots),
        0 <= i,
        i + q + 1 < knots.len(),
        basis_value(x, knots, q, i) == 0real,
    ensures
        share(x, knots, q, i) == 0real,
{
    reveal(share);
    if knots[i + q + 1] != knots[i] {
        lemma_over_sign(0real, knots[i + q + 1] - knots[i]);
    }
}

/// A sum with equal weights.
proof fn lemma_equal_weights(weights: Seq<real>, values: Seq<real>, c: real, n: nat)
    requires
        forall|i: int| 0 <= i < n ==> #[trigger] weights[i] == c,
    ensures
        dot(weights, values, n) == c * sum(values, n),
    decreases n,
{
    if n == 0 {
        lemma_times_zero(c, 0real);
    } else {
        let m = (n - 1) as nat;
        lemma_equal_weights(weights, values, c, m);
        assert(weights[m as int] == c);
        lemma_distribute(c, sum(values, m), values[m as int]);
    }
}

/// Equal gradients of all basis values of a point cancel: the backward operation
/// leaves the gradient of a point inside of the range as it was.
pub proof fn equal_gradients_cancel(
    points: int,
    grid_size: usize,
    spline_order: usize,
    input: Seq<real>,
    grid: Seq<real>,
    output_grad: Seq<real>,
    input_grad: Seq<real>,
    c: real,
    q: int,
)
    requires
        0 <= q < points <= input.len(),
        q < input_grad.len(),
        grid_size >= 1,
        spline_order >= 1,
        num_knots(grid_size as int, spline_order as int) <= grid.len(),
        points * num_basis(grid_size as int, spline_order as int) <= output_grad.len(),
        nondecreasing(grid.take(num_knots(grid_size as int, spline_order as int))),
        grid[spline_order as int] <= input[q],
        input[q] < grid[spline_order + grid_size] || (spline_order >= 2 && input[q]
            == grid[spline_order + grid_size] && input[q] < grid[spline_order + grid_size + 1]),
        ({
            let width = num_basis(grid_size as int, spline_order as int);
            forall|i: int| 0 <= i < width ==> #[trigger] output_grad[q * width + i] == c
        }),
    ensures
        bspline::backward_output(
            points,
            grid_size as int,
            spline_order,
            input,
            grid,
            output_grad,
            input_grad,
        )[q] == input_grad[q],
{
    let width = num_basis(grid_size as int, spline_order as int);
    let knots = grid.take(num_knots(grid_size as int, spline_order as int));
    assert(0 <= q * width && q * width + width <= points * width) by (nonlinear_arith)
        requires
            0 <= q < points,
            0 <= width,
    ;
    let weights = output_grad.subrange(q * width, q * width + width);
    assert forall|i: int| 0 <= i < width implies #[trigger] weights[i] == c by {
        assert(weights[i] == output_grad[q * width + i]);
    }
    let slopes = basis_slopes(input[q], knots, spline_order);
    assert(knots[spline_order as int] == grid[spline_order as int]);
    assert(knots[spline_order + grid_size] == grid[spline_order + grid_size]);
    assert(knots[spline_order + grid_size + 1] == grid[spline_order + grid_size + 1]);
    slopes_sum_to_zero(input[q], knots, spline_order);
    lemma_equal_weights(weights, slopes, c, width as nat);
    lemma_times_zero(c, 0real);
}

} // verus!
