//! Evaluation of ReLU-KAN basis functions on a device.

use vstd::prelude::*;

use crate::basis::bump::{bump_value, slope_sum};
use crate::device::{Device, OperationError};
use crate::scalar::{Algebra, Scalar};

verus! {

/// What the buffers of the forward operation must hold for it to run.
///
/// `input` has one value per point, where there are `batch_size * in_features`
/// points, `grid` has the starts of all supports and then their ends, and
/// `output` has room for one value per point and basis function.
pub open spec fn forward_fits<T: Algebra>(
    batch_size: int,
    in_features: int,
    width: int,
    input: Seq<T>,
    grid: Seq<T>,
    output: Seq<T>,
) -> bool {
    let points = batch_size * in_features;
    &&& points <= input.len()
    &&& 2 * width <= grid.len()
    &&& points * width <= output.len()
}

/// The output of the forward operation: for each point in turn the values of
/// all `width` basis functions there. What lies behind them stays as it was.
pub open spec fn forward_output<T: Algebra>(
    points: int,
    width: int,
    input: Seq<T>,
    grid: Seq<T>,
    output: Seq<T>,
) -> Seq<T> {
    Seq::new(
        output.len(),
        |n: int|
            if n < points * width {
                bump_value(input[n / width], grid[n % width], grid[width + n % width])
            } else {
                output[n]
            },
    )
}

/// What the buffers of the backward operation must hold for it to run.
pub open spec fn backward_fits<T: Algebra>(
    batch_size: int,
    in_features: int,
    width: int,
    input: Seq<T>,
    grid: Seq<T>,
    output_grad: Seq<T>,
    input_grad: Seq<T>,
) -> bool {
    let points = batch_size * in_features;
    &&& points <= input.len()
    &&& 2 * width <= grid.len()
    &&& points * width <= output_grad.len()
    &&& points <= input_grad.len()
}

/// The gradient that reaches the point `q`: by the chain rule, the gradients of
/// its basis values weighted by the derivatives of the basis functions.
pub open spec fn point_gradient<T: Algebra>(
    q: int,
    width: int,
    input: Seq<T>,
    grid: Seq<T>,
    output_grad: Seq<T>,
) -> T {
    slope_sum(
        input[q],
        grid.take(width),
        grid.subrange(width, 2 * width),
        output_grad.subrange(q * width, q * width + width),
        width as nat,
    )
}

/// The input gradient after the backward operation, which adds to what was
/// there before.
pub open spec fn backward_output<T: Algebra>(
    points: int,
    width: int,
    input: Seq<T>,
    grid: Seq<T>,
    output_grad: Seq<T>,
    input_grad: Seq<T>,
) -> Seq<T> {
    Seq::new(
        input_grad.len(),
        |q: int|
            if q < points {
                input_grad[q].plus(point_gradient(q, width, input, grid, output_grad))
            } else {
                input_grad[q]
            },
    )
}

/// Device-level ReLU-KAN basis evaluation.
///
/// For each input feature there are `grid_size + support_width` basis values.
/// The grid is one buffer of twice that length: the first half holds where the
/// supports start, the second half where they end.
pub trait ReluKanOps<T: Scalar>: Device {
    /// Evaluates the basis functions.
    ///
    /// - `input`: `batch_size * in_features` points
    /// - `grid`: `2 * (grid_size + support_width)` bounds, starts before ends
    /// - `output`: `grid_size + support_width` values for each point
    fn relu_kan_basis_fwd(
        batch_size: usize,
        in_features: usize,
        grid_size: usize,
        support_width: usize,
        input: &Vec<T>,
        grid: &Vec<T>,
        output: &mut Vec<T>,
    ) -> (r: Result<(), OperationError<Self::DeviceError>>)
        requires
            forward_fits(
                batch_size as int,
                in_features as int,
                grid_size + support_width,
                input@,
                grid@,
                old(output)@,
            ),
        ensures
            r is Ok ==> final(output)@ == forward_output(
                batch_size * in_features,
                grid_size + support_width,
                input@,
                grid@,
                old(output)@,
            ),
            final(output)@.len() == old(output)@.len(),
            Self::never_fails() ==> r is Ok,
            r matches Err(e) ==> e is DeviceError,
    ;

    /// Carries the gradient of the basis values back to the input.
    ///
    /// Accumulates into `input_grad` and does not clear it first.
    fn relu_kan_basis_bwd(
        batch_size: usize,
        in_features: usize,
        grid_size: usize,
        support_width: usize,
        input: &Vec<T>,
        grid: &Vec<T>,
        output_grad: &Vec<T>,
        input_grad: &mut Vec<T>,
    ) -> (r: Result<(), OperationError<Self::DeviceError>>)
        requires
            backward_fits(
                batch_size as int,
                in_features as int,
                grid_size + support_width,
                input@,
                grid@,
                output_grad@,
                old(input_grad)@,
            ),
        ensures
            r is Ok ==> final(input_grad)@ == backward_output(
                batch_size * in_features,
                grid_size + support_width,
                input@,
                grid@,
                output_grad@,
                old(input_grad)@,
            ),
            final(input_grad)@.len() == old(input_grad)@.len(),
            Self::never_fails() ==> r is Ok,
            r matches Err(e) ==> e is DeviceError,
    ;
}

} // verus!
