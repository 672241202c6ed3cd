//! What the B-spline operations do to the buffers of a batch.

use vstd::arithmetic::div_mod::lemma_fundamental_div_mod_converse;
use vstd::prelude::*;

use super::arithmetic::dot_is_sum;
use super::derivative::{has_derivative, touches};
use super::numbers::{distance, lemma_times_zero, sum};
use super::spline_gradient::{spline_gradient_is_derivative, weighted_function};
use super::spline_slope::increasing;
use crate::basis::spline::{basis_slope, basis_slopes, basis_value, basis_values};
use crate::device::operation::bspline::{backward_output, forward_output};
use crate::scalar::{dot, Algebra};

verus! {

/// The basis functions of degree zero: one on the half-open interval between two
/// knots and zero elsewhere, except that from the last knot on, the last one is
/// one.
pub proof fn degree_zero(x: real, knots: Seq<real>, i: int)
    requires
        0 <= i < knots.len() - 1,
    ensures
        x < knots.last() ==> basis_value(x, knots, 0, i) == (if knots[i] <= x < knots[i + 1] {
            1real
        } else {
            0real
        }),
        x >= knots.last() ==> basis_value(x, knots, 0, i) == (if i == knots.len() - 2 {
            1real
        } else {
            0real
        }),
{
}

/// The recursion from one degree to the next. A term with two knots that coincide
/// in its denominator is left out.
pub proof fn next_degree(x: real, knots: Seq<real>, p: nat, i: int)
    requires
        0 <= i,
        i + p + 2 < knots.len(),
    ensures
        ({
            let left = if knots[i + p + 1] == knots[i] {
                0real
            } else {
                (x - knots[i]) / (knots[i + p + 1] - knots[i]) * basis_value(x, knots, p, i)
            };
            let right = if knots[i + p + 2] == knots[i + 1] {
                0real
            } else {
                (knots[i + p + 2] - x) / (knots[i + p + 2] - knots[i + 1]) * basis_value(
                    x,
                    knots,
                    p,
                    i + 1,
                )
            };
            basis_value(x, knots, p + 1, i) == left + right
        }),
{
    let below = ((p + 1) - 1) as nat;
    assert(below == p);
}

/// The slope of a basis function, in terms of those of the degree below. A term
/// with two knots that coincide in its denominator is left out.
pub proof fn slope_from_degree_below(x: real, knots: Seq<real>, k: usize, i: int)
    requires
        1 <= k,
        0 <= i,
        i + k + 1 < knots.len(),
    ensures
        ({
            let left = if knots[i + k] == knots[i] {
                0real
            } else {
                basis_value(x, knots, (k - 1) as nat, i) / (knots[i + k] - knots[i])
            };
            let right = if knots[i + k + 1] == knots[i + 1] {
                0real
            } else {
                basis_value(x, knots, (k - 1) as nat, i + 1) / (knots[i + k + 1] - knots[i + 1])
            };
            basis_slope(x, knots, k, i) == (k as int as real) * (left - right)
        }),
{
}

/// Where the values of a point stand among those of a batch.
proof fn lemma_place_of(points: int, width: int, q: int, i: int)
    requires
        0 <= q < points,
        0 <= i < width,
    ensures
        (q * width + i) / width == q,
        (q * width + i) % width == i,
        0 <= q * width,
        q * width + i < points * width,
        q * width + width <= points * width,
{
    assert(width * q == q * width) by (nonlinear_arith);
    lemma_fundamental_div_mod_converse(q * width + i, width, q, i);
    assert(0 <= q * width && q * width + i < points * width && q * width + width <= points
        * width) by (nonlinear_arith)
        requires
            0 <= q < points,
            0 <= i < width,
    ;
}

/// After the forward operation, the value `i` of the point `q` is the `i`-th of
/// the `grid_size + spline_order` basis functions at that point. What lies behind
/// the values of the last point is as it was.
pub proof fn forward_writes_basis_values<T: Algebra>(
    points: int,
    grid_size: int,
    spline_order: int,
    input: Seq<T>,
    grid: Seq<T>,
    output: Seq<T>,
)
    requires
        0 <= points <= input.len(),
        0 <= grid_size,
        0 <= spline_order,
        grid_size + 2 * spline_order + 1 <= grid.len(),
        points * (grid_size + spline_order) <= output.len(),
    ensures
        ({
            let width = grid_size + spline_order;
            let knots = grid.take(grid_size + 2 * spline_order + 1);
            let after = forward_output(points, grid_size, spline_order, input, grid, output);
            &&& after.len() == output.len()
            &&& forall|q: int, i: int|
                0 <= q < points && 0 <= i < width ==> #[trigger] after[q * width + i]
                    == basis_value(input[q], knots, spline_order as nat, i)
            &&& forall|n: int| points * width <= n < output.len() ==> after[n] == output[n]
        }),
{
    let width = grid_size + spline_order;
    let knots = grid.take(grid_size + 2 * spline_order + 1);
    let after = forward_output(points, grid_size, spline_order, input, grid, output);
    assert forall|q: int, i: int| 0 <= q < points && 0 <= i < width implies #[trigger] after[q
        * width + i] == basis_value(input[q], knots, spline_order as nat, i) by {
        lemma_place_of(points, width, q, i);
    }
}

/// After the backward operation, what a point has gained is the derivative at that
/// point of the sum of its basis values, weighted by their gradients. Linear
/// splines have kinks at their knots, other than the last.
pub proof fn backward_adds_derivative(
    points: int,
    grid_size: int,
    spline_order: usize,
    input: Seq<real>,
    grid: Seq<real>,
    output_grad: Seq<real>,
    input_grad: Seq<real>,
    q: int,
)
    requires
        0 <= q < points <= input.len(),
        q < input_grad.len(),
        0 <= grid_size,
        1 <= spline_order,
        grid_size + spline_order > 0,
        grid_size + 2 * spline_order + 1 <= grid.len(),
        points * (grid_size + spline_order) <= output_grad.len(),
        increasing(grid.take(grid_size + 2 * spline_order + 1)),
        spline_order >= 2 || forall|j: int|
            0 <= j < grid_size + 2 * spline_order ==> grid[j] != input[q],
    ensures
        ({
            let width = grid_size + spline_order;
            let knots = grid.take(grid_size + 2 * spline_order + 1);
            let weights = Seq::new(width as nat, |i: int| output_grad[q * width + i]);
            let after = backward_output(
                points,
                grid_size,
                spline_order,
                input,
                grid,
                output_grad,
                input_grad,
            );
            has_derivative(
                |y: real| dot(weights, basis_values(y, knots, spline_order as nat), width as nat),
                input[q],
                after[q] - input_grad[q],
            )
        }),
{
    let width = grid_size + spline_order;
    let knots = grid.take(grid_size + 2 * spline_order + 1);
    let weights = Seq::new(width as nat, |i: int| output_grad[q * width + i]);
    let slice = output_grad.subrange(q * width, q * width + width);
    lemma_place_of(points, width, q, 0);
    assert(weights =~= slice);
    assert forall|j: int| 0 <= j < knots.len() - 1 implies knots[j] == grid[j] by {}
    spline_gradient_is_derivative(input[q], knots, spline_order, weights);
    assert(weighted_function(knots, spline_order, weights, width as nat) =~= (|y: real|
        dot(weights, basis_values(y, knots, spline_order as nat), width as nat)));
}

/// Between two knots, the basis functions of degree zero do not change.
proof fn lemma_flat(knots: Seq<real>, x: real, y: real, low: real, high: real, i: int)
    requires
        0 <= i < knots.len() - 1,
        low < x < high,
        low < y < high,
        forall|j: int| 0 <= j < knots.len() ==> #[trigger] knots[j] <= low || knots[j] >= high,
    ensures
        basis_value(x, knots, 0, i) == basis_value(y, knots, 0, i),
{
    assert(knots[i] <= low || knots[i] >= high);
    assert(knots[i + 1] <= low || knots[i + 1] >= high);
    let last = knots.len() - 1;
    assert(knots[last] <= low || knots[last] >= high);
}

/// For splines of order zero, too, what a point gains in the backward operation, which
/// is nothing, is the derivative of the sum of its basis values, weighted by their
/// gradients, where no knot lies between `low` and `high`, and the point does.
pub proof fn order_zero_adds_derivative(
    points: int,
    grid_size: int,
    input: Seq<real>,
    grid: Seq<real>,
    output_grad: Seq<real>,
    input_grad: Seq<real>,
    q: int,
    low: real,
    high: real,
)
    requires
        0 <= q < points <= input.len(),
        q < input_grad.len(),
        0 < grid_size,
        grid_size + 1 <= grid.len(),
        low < input[q] < high,
        forall|j: int| 0 <= j <= grid_size ==> #[trigger] grid[j] <= low || grid[j] >= high,
    ensures
        ({
            let knots = grid.take(grid_size + 1);
            let weights = Seq::new(grid_size as nat, |i: int| output_grad[q * grid_size + i]);
            let after = backward_output(
                points,
                grid_size,
                0,
                input,
                grid,
                output_grad,
                input_grad,
            );
            has_derivative(
                |y: real| dot(weights, basis_values(y, knots, 0), grid_size as nat),
                input[q],
                after[q] - input_grad[q],
            )
        }),
{
    let x = input[q];
    let knots = grid.take(grid_size + 1);
    let weights = Seq::new(grid_size as nat, |i: int| output_grad[q * grid_size + i]);
    let f = |y: real| dot(weights, basis_values(y, knots, 0), grid_size as nat);
    let r = if x - low < high - x {
        x - low
    } else {
        high - x
    };
    assert forall|j: int| 0 <= j < knots.len() implies #[trigger] knots[j] <= low || knots[j]
        >= high by {
        assert(knots[j] == grid[j]);
    }
    assert forall|y: real| x - r < y < x + r implies distance(
        #[trigger] f(y),
        f(x) + (y - x) * 0real,
    ) <= 0real * ((y - x) * (y - x)) by {
        assert forall|i: int| 0 <= i < grid_size implies #[trigger] basis_values(y, knots, 0)[i]
            == basis_values(x, knots, 0)[i] by {
            lemma_flat(knots, x, y, low, high, i);
        }
        assert(basis_values(y, knots, 0) =~= basis_values(x, knots, 0));
        lemma_times_zero(y - x, 0real);
        lemma_times_zero((y - x) * (y - x), 0real);
    }
    assert(touches(f, x, 0real, r, 0real));
}

/// After the backward operation, what a point has gained is the sum of the slopes
/// of the basis functions there, weighted by their gradients. This holds at kinks
/// too.
pub proof fn backward_adds_weighted_slopes(
    points: int,
    grid_size: int,
    spline_order: usize,
    input: Seq<real>,
    grid: Seq<real>,
    output_grad: Seq<real>,
    input_grad: Seq<real>,
    q: int,
)
    requires
        0 <= q < points <= input.len(),
        q < input_grad.len(),
        0 <= grid_size,
        1 <= spline_order,
        grid_size + 2 * spline_order + 1 <= grid.len(),
        points * (grid_size + spline_order) <= output_grad.len(),
    ensures
        ({
            let width = grid_size + spline_order;
            let knots = grid.take(grid_size + 2 * spline_order + 1);
            let terms = Seq::new(
                width as nat,
                |i: int|
                    output_grad[q * width + i] * basis_slope(input[q], knots, spline_order, i),
            );
            backward_output(
                points,
                grid_size,
                spline_order,
                input,
                grid,
                output_grad,
                input_grad,
            )[q] == input_grad[q] + sum(terms, width as nat)
        }),
{
    let width = grid_size + spline_order;
    let knots = grid.take(grid_size + 2 * spline_order + 1);
    let terms = Seq::new(
        width as nat,
        |i: int| output_grad[q * width + i] * basis_slope(input[q], knots, spline_order, i),
    );
    let slice = output_grad.subrange(q * width, q * width + width);
    let slopes = basis_slopes(input[q], knots, spline_order);
    lemma_place_of(points, width, q, 0);
    assert forall|i: int| 0 <= i < width implies #[trigger] terms[i] == slice[i] * slopes[i] by {}
    dot_is_sum(slice, slopes, terms, width as nat);
}

/// What a point of a batch gains in the backward operation is what it gains on its
/// own.
pub proof fn backward_is_pointwise<T: Algebra>(
    points: int,
    grid_size: int,
    spline_order: usize,
    input: Seq<T>,
    grid: Seq<T>,
    output_grad: Seq<T>,
    input_grad: Seq<T>,
    q: int,
)
    requires
        0 <= q < points <= input.len(),
        q < input_grad.len(),
        0 <= grid_size,
        grid_size + spline_order > 0,
        points * (grid_size + spline_order) <= output_grad.len(),
    ensures
        ({
            let width = grid_size + spline_order;
            backward_output(
                points,
                grid_size,
                spline_order,
                input,
                grid,
                output_grad,
                input_grad,
            )[q] == backward_output(
                1,
                grid_size,
                spline_order,
                seq![input[q]],
                grid,
                output_grad.subrange(q * width, q * width + width),
                seq![input_grad[q]],
            )[0]
        }),
{
    let width = grid_size + spline_order;
    lemma_place_of(points, width, q, 0);
    let slice = output_grad.subrange(q * width, q * width + width);
    assert(0 * width == 0) by (nonlinear_arith);
    assert(slice.subrange(0, width) =~= slice);
}

/// The backward operation changes nothing but the gradients of the points, and for
/// splines of order zero not even those.
pub proof fn backward_leaves_the_rest<T: Algebra>(
    points: int,
    grid_size: int,
    spline_order: usize,
    input: Seq<T>,
    grid: Seq<T>,
    output_grad: Seq<T>,
    input_grad: Seq<T>,
)
    ensures
        ({
            let after = backward_output(
                points,
                grid_size,
                spline_order,
                input,
                grid,
                output_grad,
                input_grad,
            );
            &&& after.len() == input_grad.len()
            &&& forall|q: int|
                0 <= q < input_grad.len() && (q >= points || spline_order == 0) ==> after[q]
                    == input_grad[q]
        }),
{
}

} // verus!
