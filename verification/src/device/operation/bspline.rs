//! Evaluation of B-spline basis functions on a device.

use vstd::prelude::*;

use crate::basis::spline::{basis_slopes, basis_value, num_basis, num_knots};
use crate::device::{Device, OperationError};
use crate::scalar::{dot, Algebra, Scalar};

verus! {

/// What the buffers of the forward operation must hold for it to run.
///
/// `input` has one value per point, where there are `batch_size * in_features`
/// points, `grid` has all knots, and `output` has room for one value per point
/// and basis function. Without a single knot interval, no point may lie at the
/// only knot or beyond.
pub open spec fn forward_fits<T: Algebra>(
    batch_size: int,
    in_features: int,
    grid_size: int,
    spline_order: int,
    input: Seq<T>,
    grid: Seq<T>,
    output: Seq<T>,
) -> bool {
    let points = batch_size * in_features;
    &&& points <= input.len()
    &&& num_knots(grid_size, spline_order) <= grid.len()
    &&& points * num_basis(grid_size, spline_order) <= output.len()
    &&& grid_size + spline_order > 0 || forall|q: int|
        0 <= q < points ==> !grid[0].at_most(#[trigger] input[q])
}

/// The output of the forward operation: for each point in turn the values of
/// all basis functions there. What lies behind them stays as it was.
pub open spec fn forward_output<T: Algebra>(
    points: int,
    grid_size: int,
    spline_order: int,
    input: Seq<T>,
    grid: Seq<T>,
    output: Seq<T>,
) -> Seq<T> {
    let width = num_basis(grid_size, spline_order);
    let knots = grid.take(num_knots(grid_size, spline_order));
    Seq::new(
        output.len(),
        |n: int|
            if n < points * width {
                basis_value(input[n / width], knots, spline_order as nat, n % width)
            } else {
                output[n]
            },
    )
}

/// What the buffers of the backward operation must hold for it to run. Splines
/// of order zero are flat, and the gradients are then not touched.
pub open spec fn backward_fits<T: Algebra>(
    batch_size: int,
    in_features: int,
    grid_size: int,
    spline_order: int,
    input: Seq<T>,
    grid: Seq<T>,
    output_grad: Seq<T>,
    input_grad: Seq<T>,
) -> bool {
    let points = batch_size * in_features;
    &&& points <= input.len()
    &&& num_knots(grid_size, spline_order) <= grid.len()
    &&& spline_order > 0 ==> points * num_basis(grid_size, spline_order) <= output_grad.len()
    &&& spline_order > 0 ==> points <= input_grad.len()
}

/// The gradient that reaches the point `q`: by the chain rule, the gradients of
/// its basis values weighted by the derivatives of the basis functions.
pub open spec fn point_gradient<T: Algebra>(
    q: int,
    grid_size: int,
    spline_order: usize,
    input: Seq<T>,
    grid: Seq<T>,
    output_grad: Seq<T>,
) -> T {
    let width = num_basis(grid_size, spline_order as int);
    let knots = grid.take(num_knots(grid_size, spline_order as int));
    dot(
        output_grad.subrange(q * width, q * width + width),
        basis_slopes(input[q], knots, spline_order),
        width as nat,
    )
}

/// The input gradient after the backward operation, which adds to what was
/// there before.
pub open spec fn backward_output<T: Algebra>(
    points: int,
    grid_size: int,
    spline_order: usize,
    input: Seq<T>,
    grid: Seq<T>,
    output_grad: Seq<T>,
    input_grad: Seq<T>,
) -> Seq<T> {
    Seq::new(
        input_grad.len(),
        |q: int|
            if spline_order > 0 && q < points {
                input_grad[q].plus(
                    point_gradient(q, grid_size, spline_order, input, grid, output_grad),
                )
            } else {
                input_grad[q]
            },
    )
}

/// Device-level B-spline basis evaluation.
///
/// For each input feature there are `grid_size + spline_order` basis values,
/// computed over one knot vector that all features share.
pub trait BSplineOps<T: Scalar>: Device {
    /// Evaluates the basis functions.
    ///
    /// - `input`: `batch_size * in_features` points
    /// - `grid`: `grid_size + 2 * spline_order + 1` knots
    /// - `output`: `grid_size + spline_order` values for each point
    fn bspline_basis_fwd(
        batch_size: usize,
        in_features: usize,
        grid_size: usize,
        spline_order: usize,
        input: &Vec<T>,
        grid: &Vec<T>,
        output: &mut Vec<T>,
    ) -> (r: Result<(), OperationError<Self::DeviceError>>)
        requires
            forward_fits(
                batch_size as int,
                in_features as int,
                grid_size as int,
                spline_order as int,
                input@,
                grid@,
                old(output)@,
            ),
        ensures
            r is Ok ==> final(output)@ == forward_output(
                batch_size * in_features,
                grid_size as int,
                spline_order as int,
                input@,
                grid@,
                old(output)@,
            ),
            final(output)@.len() == old(output)@.len(),
            Self::never_fails() ==> r is Ok,
            r matches Err(e) ==> e is DeviceError,
    ;

    /// Carries the gradient of the basis values back to the input.
    ///
    /// Accumulates into `input_grad` and does not clear it first.
    fn bspline_basis_bwd(
        batch_size: usize,
        in_features: usize,
        grid_size: usize,
        spline_order: usize,
        input: &Vec<T>,
        grid: &Vec<T>,
        output_grad: &Vec<T>,
        input_grad: &mut Vec<T>,
    ) -> (r: Result<(), OperationError<Self::DeviceError>>)
        requires
            backward_fits(
                batch_size as int,
                in_features as int,
                grid_size as int,
                spline_order as int,
                input@,
                grid@,
                output_grad@,
                old(input_grad)@,
            ),
        ensures
            r is Ok ==> final(input_grad)@ == backward_output(
                batch_size * in_features,
                grid_size as int,
                spline_order,
                input@,
                grid@,
                output_grad@,
                old(input_grad)@,
            ),
            final(input_grad)@.len() == old(input_grad)@.len(),
            Self::never_fails() ==> r is Ok,
            r matches Err(e) ==> e is DeviceError,
    ;
}

} // verus!
