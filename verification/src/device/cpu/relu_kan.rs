//! ReLU-KAN basis evaluation on the processor.

use vstd::arithmetic::div_mod::lemma_fundamental_div_mod_converse;
use vstd::arithmetic::mul::{lemma_mul_inequality, lemma_mul_is_distributive_add_other_way};
use vstd::prelude::*;

use super::{CpuError, CpuThread};
use crate::basis::bump::{bump, weighted_slopes};
use crate::device::operation::relu_kan::{
    backward_output, forward_output, ReluKanOps,
};
use crate::device::OperationError;
use crate::scalar::Scalar;

verus! {

impl<T: Scalar> ReluKanOps<T> for CpuThread {
    fn relu_kan_basis_fwd(
        batch_size: usize,
        in_features: usize,
        grid_size: usize,
        support_width: usize,
        input: &Vec<T>,
        grid: &Vec<T>,
        output: &mut Vec<T>,
    ) -> (r: Result<(), OperationError<CpuError>>) {
        assert(input@.len() == input.len() && grid@.len() == grid.len());
        let points: usize = batch_size * in_features;
        let width: usize = grid_size + support_width;
        let ghost before = output@;
        let ghost after = forward_output(points as int, width as int, input@, grid@, before);
        assert(0 * width == 0) by (nonlinear_arith);

        for q in 0..points
            invariant
                points <= input.len(),
                points * width <= output.len(),
                2 * width <= grid.len(),
                after == forward_output(points as int, width as int, input@, grid@, before),
                output@.len() == before.len(),
                forall|n: int| 0 <= n < q * width ==> output@[n] == after[n],
                forall|n: int| q * width <= n < before.len() ==> output@[n] == before[n],
        {
            proof {
                lemma_mul_inequality(q + 1, points as int, width as int);
                lemma_mul_is_distributive_add_other_way(width as int, q as int, 1);
            }
            let x: T = input[q];
            let offset: usize = q * width;
            for i in 0..width
                invariant
                    q < points <= input.len(),
                    x == input@[q as int],
                    offset == q * width,
                    offset + width <= points * width <= output.len(),
                    2 * width <= grid.len(),
                    after == forward_output(points as int, width as int, input@, grid@, before),
                    output@.len() == before.len(),
                    forall|n: int| 0 <= n < offset + i ==> output@[n] == after[n],
                    forall|n: int| offset + i <= n < before.len() ==> output@[n] == before[n],
            {
                proof {
                    lemma_fundamental_div_mod_converse(offset + i, width as int, q as int, i as int);
                    assert(width * q == q * width) by (nonlinear_arith);
                }
                output.set(offset + i, bump(x, grid[i], grid[width + i]));
            }
        }
        assert(output@ =~= after);
        Ok(())
    }

    fn relu_kan_basis_bwd(
        batch_size: usize,
        in_features: usize,
        grid_size: usize,
        support_width: usize,
        input: &Vec<T>,
        grid: &Vec<T>,
        output_grad: &Vec<T>,
        input_grad: &mut Vec<T>,
    ) -> (r: Result<(), OperationError<CpuError>>) {
        assert(input@.len() == input.len() && grid@.len() == grid.len());
        let points: usize = batch_size * in_features;
        let width: usize = grid_size + support_width;
        let ghost before = input_grad@;
        let ghost after = backward_output(
            points as int,
            width as int,
            input@,
            grid@,
            output_grad@,
            before,
        );

        for q in 0..points
            invariant
                points <= input.len(),
                points <= input_grad.len(),
                points * width <= output_grad.len(),
                2 * width <= grid.len(),
                after == backward_output(
                    points as int,
                    width as int,
                    input@,
                    grid@,
                    output_grad@,
                    before,
                ),
                input_grad@.len() == before.len(),
                forall|n: int| 0 <= n < q ==> input_grad@[n] == after[n],
                forall|n: int| q <= n < before.len() ==> input_grad@[n] == before[n],
        {
            proof {
                lemma_mul_inequality(q + 1, points as int, width as int);
                lemma_mul_is_distributive_add_other_way(width as int, q as int, 1);
            }
            let grad: T = weighted_slopes(input[q], grid, width, output_grad, q * width);
            input_grad.set(q, input_grad[q].add(grad));
        }
        assert(input_grad@ =~= after);
        Ok(())
    }
}

} // verus!
