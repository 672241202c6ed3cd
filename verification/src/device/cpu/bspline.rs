//! B-spline basis evaluation on the processor.

use vstd::arithmetic::div_mod::lemma_fundamental_div_mod_converse;
use vstd::arithmetic::mul::{lemma_mul_inequality, lemma_mul_is_distributive_add_other_way};
use vstd::prelude::*;

use super::{CpuError, CpuThread};
use crate::basis::spline::{
    basis_value, basis_values, cox_de_boor, cox_de_boor_slopes, num_basis, num_knots,
};
use crate::device::operation::bspline::{
    backward_output, forward_output, point_gradient, BSplineOps,
};
use crate::device::OperationError;
use crate::scalar::{dot, Scalar};

verus! {

impl<T: Scalar> BSplineOps<T> for CpuThread {
    fn bspline_basis_fwd(
        batch_size: usize,
        in_features: usize,
        grid_size: usize,
        spline_order: usize,
        input: &Vec<T>,
        grid: &Vec<T>,
        output: &mut Vec<T>,
    ) -> (r: Result<(), OperationError<CpuError>>) {
        assert(input@.len() == input.len() && grid@.len() == grid.len());
        let points: usize = batch_size * in_features;
        let intervals: usize = grid_size + 2 * spline_order;
        let width: usize = grid_size + spline_order;
        let ghost before = output@;
        let ghost after = forward_output(
            points as int,
            grid_size as int,
            spline_order as int,
            input@,
            grid@,
            before,
        );
        let ghost knots = grid@.take(intervals + 1);
        assert(0 * width == 0) by (nonlinear_arith);

        for q in 0..points
            invariant
                points == batch_size * in_features <= input.len(),
                points * width <= output.len(),
                intervals == grid_size + 2 * spline_order,
                intervals < grid.len(),
                width == grid_size + spline_order,
                knots == grid@.take(intervals + 1),
                after == forward_output(
                    points as int,
                    grid_size as int,
                    spline_order as int,
                    input@,
                    grid@,
                    before,
                ),
                output@.len() == before.len(),
                forall|n: int| 0 <= n < q * width ==> output@[n] == after[n],
                forall|n: int| q * width <= n < before.len() ==> output@[n] == before[n],
        {
            proof {
                lemma_mul_inequality(q + 1, points as int, width as int);
                lemma_mul_is_distributive_add_other_way(width as int, q as int, 1);
            }
            let values: Vec<T> = cox_de_boor(input[q], grid, intervals, spline_order);
            let offset: usize = q * width;
            for i in 0..width
                invariant
                    q < points,
                    offset == q * width,
                    offset + width <= points * width <= output.len(),
                    values@.len() == width,
                    values@ == basis_values(input@[q as int], knots, spline_order as nat),
                    knots == grid@.take(num_knots(grid_size as int, spline_order as int)),
                    width == num_basis(grid_size as int, spline_order as int),
                    after == forward_output(
                        points as int,
                        grid_size as int,
                        spline_order as int,
                        input@,
                        grid@,
                        before,
                    ),
                    output@.len() == before.len(),
                    forall|n: int| 0 <= n < offset + i ==> output@[n] == after[n],
                    forall|n: int| offset + i <= n < before.len() ==> output@[n] == before[n],
            {
                proof {
                    lemma_fundamental_div_mod_converse(offset + i, width as int, q as int, i as int);
                    assert(width * q == q * width) by (nonlinear_arith);
                    assert(after[offset + i] == basis_value(
                        input@[q as int],
                        knots,
                        spline_order as nat,
                        i as int,
                    ));
                }
                output.set(offset + i, values[i]);
            }
        }
        assert(output@ =~= after);
        Ok(())
    }

    fn bspline_basis_bwd(
        batch_size: usize,
        in_features: usize,
        grid_size: usize,
        spline_order: usize,
        input: &Vec<T>,
        grid: &Vec<T>,
        output_grad: &Vec<T>,
        input_grad: &mut Vec<T>,
    ) -> (r: Result<(), OperationError<CpuError>>) {
        assert(input@.len() == input.len() && grid@.len() == grid.len());
        let points: usize = batch_size * in_features;
        let intervals: usize = grid_size + 2 * spline_order;
        let width: usize = grid_size + spline_order;
        let ghost before = input_grad@;
        let ghost after = backward_output(
            points as int,
            grid_size as int,
            spline_order,
            input@,
            grid@,
            output_grad@,
            before,
        );
        if spline_order == 0 {
            // Degree-0 B-splines have a zero derivative.
            assert(input_grad@ =~= after);
            return Ok(());
        }
        for q in 0..points
            invariant
                spline_order > 0,
                points == batch_size * in_features <= input.len(),
                points <= input_grad.len(),
                points * width <= output_grad.len(),
                intervals == grid_size + 2 * spline_order,
                intervals < grid.len(),
                width == grid_size + spline_order,
                after == backward_output(
                    points as int,
                    grid_size as int,
                    spline_order,
                    input@,
                    grid@,
                    output_grad@,
                    before,
                ),
                input_grad@.len() == before.len(),
                forall|n: int| 0 <= n < q ==> input_grad@[n] == after[n],
                forall|n: int| q <= n < before.len() ==> input_grad@[n] == before[n],
        {
            proof {
                lemma_mul_inequality(q + 1, points as int, width as int);
                lemma_mul_is_distributive_add_other_way(width as int, q as int, 1);
            }
            let slopes: Vec<T> = cox_de_boor_slopes(input[q], grid, intervals, spline_order);
            let offset: usize = q * width;
            let ghost incoming = output_grad@.subrange(offset as int, offset + width);
            let mut grad: T = T::from_count(0);
            for i in 0..width
                invariant
                    offset + width <= output_grad.len(),
                    incoming == output_grad@.subrange(offset as int, offset + width),
                    slopes@.len() == width,
                    grad == dot(incoming, slopes@, i as nat),
            {
                grad = grad.add(output_grad[offset + i].mul(slopes[i]));
            }
            assert(grad == point_gradient(
                q as int,
                grid_size as int,
                spline_order,
                input@,
                grid@,
                output_grad@,
            ));
            input_grad.set(q, input_grad[q].add(grad));
        }
        assert(input_grad@ =~= after);
        Ok(())
    }
}

} // verus!
