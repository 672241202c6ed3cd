//! What the ReLU-KAN operations do to the buffers of a batch.

use vstd::arithmetic::div_mod::lemma_fundamental_div_mod_converse;
use vstd::prelude::*;

use super::bump::{lemma_bump_inside, lemma_normalizer, zero_outside_support};
use super::bump_slope::{bump_gradient_is_derivative, bumps_at, curvature, total_curvature};
use super::derivative::{has_derivative, touches};
use super::numbers::{distance, lemma_times_nonneg};
use crate::basis::bump::{bump_value, normalizer};
use crate::device::operation::relu_kan::{backward_output, forward_output};
use crate::scalar::{dot, Algebra};

verus! {

/// The bump between `s` and `e` is sixteen times the square of the product of the
/// distances from `x` to both ends, over the fourth power of the width. Outside of
/// the support it is zero.
pub proof fn bump_from_distances(x: real, s: real, e: real)
    ensures
        s < x < e ==> bump_value(x, s, e) * (((e - s) * (e - s)) * ((e - s) * (e - s))) == 16real
            * (((e - x) * (x - s)) * ((e - x) * (x - s))),
        x <= s || e <= x ==> bump_value(x, s, e) == 0real,
{
    if s < x < e {
        let n = normalizer(e - s);
        let p = ((e - x) * (x - s)) * ((e - x) * (x - s));
        let q = ((e - s) * (e - s)) * ((e - s) * (e - s));
        lemma_normalizer(e - s);
        lemma_bump_inside(x, s, e);
        assert((n * p) * q == (n * q) * p) by (nonlinear_arith);
    } else {
        zero_outside_support(x, s, e);
    }
}

/// Where the values of a point stand among those of a batch.
proof fn lemma_place_of(points: int, width: int, q: int, i: int)
    requires
        0 <= q < points,
        0 <= i < width,
    ensures
        (q * width + i) / width == q,
        (q * width + i) % width == i,
        0 <= q * width,
        q * width + i < points * width,
        q * width + width <= points * width,
{
    assert(width * q == q * width) by (nonlinear_arith);
    lemma_fundamental_div_mod_converse(q * width + i, width, q, i);
    assert(0 <= q * width && q * width + i < points * width && q * width + width <= points
        * width) by (nonlinear_arith)
        requires
            0 <= q < points,
            0 <= i < width,
    ;
}

/// After the forward operation, the value `i` of the point `q` is the bump between
/// the `i`-th start and the `i`-th end of a support at that point. The starts make
/// up the first half of the grid, the ends the second. What lies behind the values
/// of the last point is as it was.
pub proof fn forward_writes_bumps<T: Algebra>(
    points: int,
    width: int,
    input: Seq<T>,
    grid: Seq<T>,
    output: Seq<T>,
)
    requires
        0 <= points <= input.len(),
        0 <= width,
        2 * width <= grid.len(),
        points * width <= output.len(),
    ensures
        ({
            let after = forward_output(points, width, input, grid, output);
            &&& after.len() == output.len()
            &&& forall|q: int, i: int|
                0 <= q < points && 0 <= i < width ==> #[trigger] after[q * width + i]
                    == bump_value(input[q], grid[i], grid[width + i])
            &&& forall|n: int| points * width <= n < output.len() ==> after[n] == output[n]
        }),
{
    let after = forward_output(points, width, input, grid, output);
    assert forall|q: int, i: int| 0 <= q < points && 0 <= i < width implies #[trigger] after[q
        * width + i] == bump_value(input[q], grid[i], grid[width + i]) by {
        lemma_place_of(points, width, q, i);
    }
}

/// The weighted sum of bumps at `y`.
pub open spec fn weighted_bumps(
    starts: Seq<real>,
    ends: Seq<real>,
    weights: Seq<real>,
    width: nat,
) -> spec_fn(real) -> real {
    |y: real|
        dot(weights, Seq::new(width, |i: int| bump_value(y, starts[i], ends[i])), width)
}

/// The bound on how fast weighted bumps leave their tangent is not negative.
proof fn lemma_curvature_nonneg(
    starts: Seq<real>,
    ends: Seq<real>,
    weights: Seq<real>,
    n: nat,
)
    ensures
        total_curvature(starts, ends, weights, n) >= 0real,
    decreases n,
{
    if n > 0 {
        lemma_curvature_nonneg(starts, ends, weights, (n - 1) as nat);
        let s = starts[n - 1];
        let e = ends[n - 1];
        if s < e {
            lemma_normalizer(e - s);
            lemma_times_nonneg(normalizer(e - s), (e - s) * (e - s));
        }
        lemma_times_nonneg(distance(weights[n - 1], 0real), curvature(s, e));
    }
}

/// After the backward operation, what a point has gained is the derivative at that
/// point of the sum of its basis values, weighted by their gradients.
pub proof fn backward_adds_derivative(
    points: int,
    width: int,
    input: Seq<real>,
    grid: Seq<real>,
    output_grad: Seq<real>,
    input_grad: Seq<real>,
    q: int,
)
    requires
        0 <= q < points <= input.len(),
        q < input_grad.len(),
        0 < width,
        2 * width <= grid.len(),
        points * width <= output_grad.len(),
    ensures
        has_derivative(
            weighted_bumps(
                grid.take(width),
                grid.skip(width),
                Seq::new(width as nat, |i: int| output_grad[q * width + i]),
                width as nat,
            ),
            input[q],
            backward_output(points, width, input, grid, output_grad, input_grad)[q]
                - input_grad[q],
        ),
{
    let weights = Seq::new(width as nat, |i: int| output_grad[q * width + i]);
    let f = weighted_bumps(grid.take(width), grid.skip(width), weights, width as nat);
    let starts = grid.take(width);
    let ends = grid.subrange(width, 2 * width);
    let x = input[q];
    let slope = backward_output(points, width, input, grid, output_grad, input_grad)[q]
        - input_grad[q];
    lemma_place_of(points, width, q, 0);
    assert(weights =~= output_grad.subrange(q * width, q * width + width));
    let m = total_curvature(starts, ends, weights, width as nat);
    lemma_curvature_nonneg(starts, ends, weights, width as nat);
    assert forall|y: real| f(y) == dot(weights, bumps_at(y, starts, ends), width as nat) by {
        assert(Seq::new(
            width as nat,
            |i: int| bump_value(y, grid.take(width)[i], grid.skip(width)[i]),
        ) =~= bumps_at(y, starts, ends));
    }
    assert forall|y: real| x - 1real < y < x + 1real implies distance(
        #[trigger] f(y),
        f(x) + (y - x) * slope,
    ) <= m * ((y - x) * (y - x)) by {
        bump_gradient_is_derivative(x, y, starts, ends, weights, width as nat);
        assert(f(x) == dot(weights, bumps_at(x, starts, ends), width as nat));
    }
    assert(touches(f, x, slope, 1real, m));
}

/// What a point of a batch gains in the backward operation is what it gains on its
/// own.
pub proof fn backward_is_pointwise<T: Algebra>(
    points: int,
    width: int,
    input: Seq<T>,
    grid: Seq<T>,
    output_grad: Seq<T>,
    input_grad: Seq<T>,
    q: int,
)
    requires
        0 <= q < points <= input.len(),
        q < input_grad.len(),
        0 < width,
        points * width <= output_grad.len(),
    ensures
        backward_output(points, width, input, grid, output_grad, input_grad)[q]
            == backward_output(
            1,
            width,
            seq![input[q]],
            grid,
            output_grad.subrange(q * width, q * width + width),
            seq![input_grad[q]],
        )[0],
{
    lemma_place_of(points, width, q, 0);
    let slice = output_grad.subrange(q * width, q * width + width);
    assert(0 * width == 0) by (nonlinear_arith);
    assert(slice.subrange(0, width) =~= slice);
}

/// The backward operation changes nothing but the gradients of the points.
pub proof fn backward_leaves_the_rest<T: Algebra>(
    points: int,
    width: int,
    input: Seq<T>,
    grid: Seq<T>,
    output_grad: Seq<T>,
    input_grad: Seq<T>,
)
    ensures
        ({
            let after = backward_output(points, width, input, grid, output_grad, input_grad);
            &&& after.len() == input_grad.len()
            &&& forall|q: int|
                points <= q < input_grad.len() && 0 <= q ==> after[q] == input_grad[q]
        }),
{
}

} // verus!
