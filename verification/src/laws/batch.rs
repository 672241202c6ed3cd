//! Points of a batch do not influence each other. These theorems hold for every
//! kind of number.

use vstd::arithmetic::div_mod::lemma_fundamental_div_mod_converse;
use vstd::prelude::*;

use crate::basis::spline::{basis_values, num_basis, num_knots};
use crate::device::operation::bspline;
use crate::device::operation::relu_kan;
use crate::scalar::Algebra;

verus! {

/// Where the values of a point stand in the output of a batch.
proof fn lemma_position(points: int, width: int, q: int, b: int)
    requires
        0 <= q < points,
        0 <= b < width,
    ensures
        (q * width + b) / width == q,
        (q * width + b) % width == b,
        0 <= q * width,
        q * width + b < points * width,
{
    assert(width * q == q * width) by (nonlinear_arith);
    lemma_fundamental_div_mod_converse(q * width + b, width, q, b);
    assert(0 <= q * width && q * width + b < points * width) by (nonlinear_arith)
        requires
            0 <= q < points,
            0 <= b < width,
    ;
}

/// A point of a batch gets the B-spline basis values that it gets on its own.
pub proof fn spline_batch_is_pointwise<T: Algebra>(
    points: int,
    grid_size: int,
    spline_order: int,
    input: Seq<T>,
    grid: Seq<T>,
    output: Seq<T>,
    q: int,
)
    requires
        0 <= q < points <= input.len(),
        0 <= grid_size,
        0 <= spline_order,
        num_knots(grid_size, spline_order) <= grid.len(),
        points * num_basis(grid_size, spline_order) <= output.len(),
    ensures
        ({
            let width = num_basis(grid_size, spline_order);
            bspline::forward_output(
                points,
                grid_size,
                spline_order,
                input,
                grid,
                output,
            ).subrange(q * width, q * width + width) == basis_values(
                input[q],
                grid.take(num_knots(grid_size, spline_order)),
                spline_order as nat,
            )
        }),
{
    let width = num_basis(grid_size, spline_order);
    let all = bspline::forward_output(points, grid_size, spline_order, input, grid, output);
    let own = basis_values(
        input[q],
        grid.take(num_knots(grid_size, spline_order)),
        spline_order as nat,
    );
    assert(0 <= q * width && q * width + width <= points * width) by (nonlinear_arith)
        requires
            0 <= q < points,
            0 <= width,
    ;
    assert forall|b: int| 0 <= b < width implies all.subrange(q * width, q * width + width)[b]
        == own[b] by {
        lemma_position(points, width, q, b);
    }
    assert(all.subrange(q * width, q * width + width) =~= own);
}

/// A point of a batch gets the ReLU-KAN basis values that it gets on its own.
pub proof fn bump_batch_is_pointwise<T: Algebra>(
    points: int,
    width: int,
    input: Seq<T>,
    grid: Seq<T>,
    output: Seq<T>,
    q: int,
)
    requires
        0 <= q < points <= input.len(),
        0 <= width,
        2 * width <= grid.len(),
        points * width <= output.len(),
    ensures
        relu_kan::forward_output(points, width, input, grid, output).subrange(
            q * width,
            q * width + width,
        ) == relu_kan::forward_output(
            1,
            width,
            seq![input[q]],
            grid,
            output.subrange(q * width, q * width + width),
        ),
{
    let all = relu_kan::forward_output(points, width, input, grid, output);
    assert(0 <= q * width && q * width + width <= points * width) by (nonlinear_arith)
        requires
            0 <= q < points,
            0 <= width,
    ;
    let single = relu_kan::forward_output(
        1,
        width,
        seq![input[q]],
        grid,
        output.subrange(q * width, q * width + width),
    );
    assert forall|b: int| 0 <= b < width implies all.subrange(q * width, q * width + width)[b]
        == single[b] by {
        lemma_position(points, width, q, b);
        lemma_position(1, width, 0, b);
        assert(0 * width == 0 && 1 * width == width) by (nonlinear_arith);
    }
    assert(all.subrange(q * width, q * width + width) =~= single);
}

} // verus!
