//! What the instructions that an operation compiles to leave in memory.

use vstd::prelude::*;

use super::bump_operation;
use super::derivative::has_derivative;
use super::numbers::sum;
use super::spline_operation;
use crate::basis::bump::bump_value;
use crate::basis::spline::{basis_slope, basis_value};
use crate::device::cpu::CpuThread;
use crate::device::function::{
    BSplineBasisBwd, BSplineBasisFwd, DeviceOp, MaybeUpdateBatchSize, ReluKanBasisBwd,
    ReluKanBasisFwd,
};
use crate::device::operation::{bspline, relu_kan};
use crate::device::Device;
use crate::graph::ir::operation::bspline::BSplineBasis;
use crate::graph::ir::operation::relu_kan::ReluKanBasis;
use crate::graph::{Graph, GraphNodeIdTy, NodeId};
use crate::scalar::{Algebra, Scalar};
use crate::tensor::{Tensor, TensorRef};

verus! {

/// The processor carries out every operation on buffers that are large enough.
pub proof fn processor_never_fails()
    ensures
        <CpuThread as Device>::never_fails(),
{
}

/// A tensor that is not batched holds one matrix.
pub proof fn matrices_of_tensor<T>(tensor: Tensor<T>)
    ensures
        tensor.batch_size is None ==> tensor.matrices() == 1,
        tensor.batch_size matches Some(n) ==> tensor.matrices() == n,
{
}

/// The tensor of a node that is found is the first one with this use, and none is
/// found where there is none.
pub proof fn first_tensor_is_located<T>(
    graph: Graph<T>,
    id: NodeId,
    ty: GraphNodeIdTy,
    at: int,
)
    requires
        0 <= at <= graph.entries.len(),
        forall|n: int|
            0 <= n < at ==> (#[trigger] graph.entries[n]).id != id || graph.entries[n].ty != ty,
        at < graph.entries.len() ==> graph.entries[at].id == id && graph.entries[at].ty == ty,
    ensures
        at < graph.entries.len() ==> graph.locate(id, ty) == Some(
            TensorRef { slot: at as usize },
        ),
        at == graph.entries.len() ==> graph.locate(id, ty) is None,
{
    lemma_locate_passes(graph, id, ty, 0, at);
}

/// Tensors of other nodes or for other uses are passed over.
proof fn lemma_locate_passes<T>(
    graph: Graph<T>,
    id: NodeId,
    ty: GraphNodeIdTy,
    from: int,
    to: int,
)
    requires
        0 <= from <= to <= graph.entries.len(),
        forall|n: int|
            from <= n < to ==> (#[trigger] graph.entries[n]).id != id || graph.entries[n].ty != ty,
    ensures
        graph.locate_from(from, id, ty) == graph.locate_from(to, id, ty),
    decreases to - from,
{
    if from < to {
        assert(graph.entries[from].id != id || graph.entries[from].ty != ty);
        lemma_locate_passes(graph, id, ty, from + 1, to);
    }
}

/// A graph that is the same except for the buffer at one place has the same tensors
/// everywhere else, and for the same nodes, uses and batch sizes.
pub proof fn only_one_buffer_differs<T>(
    before: Graph<T>,
    after: Graph<T>,
    place: TensorRef,
    i: int,
)
    requires
        after.same_except(before, place),
        before.contains(place),
        0 <= i < before.entries.len(),
    ensures
        after.entries.len() == before.entries.len(),
        i != place.slot ==> after.entries[i] == before.entries[i],
        after.entries[i].id == before.entries[i].id,
        after.entries[i].ty == before.entries[i].ty,
        after.entries[i].tensor.batch_size == before.entries[i].tensor.batch_size,
{
}

/// What it takes for the basis functions of splines to be evaluated: tensors that
/// are there, an output of its own and, where the batch sizes are the same, room in
/// all buffers. Without a knot interval, no point may reach the only knot.
pub proof fn spline_forward_fits<T: Scalar>(f: BSplineBasisFwd, graph: Graph<T>)
    ensures
        f.batches_match(graph) <==> graph.entries[f.input.slot as int].tensor.batch_size
            == graph.entries[f.output.slot as int].tensor.batch_size,
        f.fits(graph) <==> {
            let points = graph.at(f.input).matrices() * f.in_features;
            &&& f.input.slot < graph.entries.len()
            &&& f.grid.slot < graph.entries.len()
            &&& f.output.slot < graph.entries.len()
            &&& f.output.slot != f.input.slot
            &&& f.output.slot != f.grid.slot
            &&& graph.at(f.input).batch_size == graph.at(f.output).batch_size ==> {
                &&& points <= graph.at(f.input).buf@.len()
                &&& f.grid_size + 2 * f.spline_order + 1 <= graph.at(f.grid).buf@.len()
                &&& points * (f.grid_size + f.spline_order) <= graph.at(f.output).buf@.len()
                &&& f.grid_size == 0 && f.spline_order == 0 ==> forall|q: int|
                    0 <= q < points ==> !graph.at(f.grid).buf@[0].at_most(
                        #[trigger] graph.at(f.input).buf@[q],
                    )
            }
        },
{
}

/// What it takes for gradients to be carried back through the basis functions of
/// splines. Order zero leaves the gradients alone.
pub proof fn spline_backward_fits<T: Scalar>(f: BSplineBasisBwd, graph: Graph<T>)
    ensures
        f.batches_match(graph) <==> {
            &&& graph.entries[f.input.slot as int].tensor.batch_size
                == graph.entries[f.output_grad.slot as int].tensor.batch_size
            &&& graph.entries[f.input.slot as int].tensor.batch_size
                == graph.entries[f.input_grad.slot as int].tensor.batch_size
        },
        f.fits(graph) <==> {
            let points = graph.at(f.input).matrices() * f.in_features;
            &&& f.input.slot < graph.entries.len()
            &&& f.grid.slot < graph.entries.len()
            &&& f.output_grad.slot < graph.entries.len()
            &&& f.input_grad.slot < graph.entries.len()
            &&& f.input_grad.slot != f.input.slot
            &&& f.input_grad.slot != f.grid.slot
            &&& f.input_grad.slot != f.output_grad.slot
            &&& graph.at(f.input).batch_size == graph.at(f.output_grad).batch_size && graph.at(
                f.input,
            ).batch_size == graph.at(f.input_grad).batch_size ==> {
                &&& points <= graph.at(f.input).buf@.len()
                &&& f.grid_size + 2 * f.spline_order + 1 <= graph.at(f.grid).buf@.len()
                &&& f.spline_order > 0 ==> points * (f.grid_size + f.spline_order) <= graph.at(
                    f.output_grad,
                ).buf@.len()
                &&& f.spline_order > 0 ==> points <= graph.at(f.input_grad).buf@.len()
            }
        },
{
}

/// What it takes for bumps to be evaluated.
pub proof fn bump_forward_fits<T: Scalar>(f: ReluKanBasisFwd, graph: Graph<T>)
    ensures
        f.batches_match(graph) <==> graph.entries[f.input.slot as int].tensor.batch_size
            == graph.entries[f.output.slot as int].tensor.batch_size,
        f.fits(graph) <==> {
            let points = graph.at(f.input).matrices() * f.in_features;
            let count = f.grid_size + f.support_width;
            &&& f.input.slot < graph.entries.len()
            &&& f.grid.slot < graph.entries.len()
            &&& f.output.slot < graph.entries.len()
            &&& f.output.slot != f.input.slot
            &&& f.output.slot != f.grid.slot
            &&& graph.at(f.input).batch_size == graph.at(f.output).batch_size ==> {
                &&& points <= graph.at(f.input).buf@.len()
                &&& 2 * count <= graph.at(f.grid).buf@.len()
                &&& points * count <= graph.at(f.output).buf@.len()
            }
        },
{
}

/// What it takes for gradients to be carried back through bumps.
pub proof fn bump_backward_fits<T: Scalar>(f: ReluKanBasisBwd, graph: Graph<T>)
    ensures
        f.batches_match(graph) <==> {
            &&& graph.entries[f.input.slot as int].tensor.batch_size
                == graph.entries[f.output_grad.slot as int].tensor.batch_size
            &&& graph.entries[f.input.slot as int].tensor.batch_size
                == graph.entries[f.input_grad.slot as int].tensor.batch_size
        },
        f.fits(graph) <==> {
            let points = graph.at(f.input).matrices() * f.in_features;
            let count = f.grid_size + f.support_width;
            &&& f.input.slot < graph.entries.len()
            &&& f.grid.slot < graph.entries.len()
            &&& f.output_grad.slot < graph.entries.len()
            &&& f.input_grad.slot < graph.entries.len()
            &&& f.input_grad.slot != f.input.slot
            &&& f.input_grad.slot != f.grid.slot
            &&& f.input_grad.slot != f.output_grad.slot
            &&& graph.at(f.input).batch_size == graph.at(f.output_grad).batch_size && graph.at(
                f.input,
            ).batch_size == graph.at(f.input_grad).batch_size ==> {
                &&& points <= graph.at(f.input).buf@.len()
                &&& 2 * count <= graph.at(f.grid).buf@.len()
                &&& points * count <= graph.at(f.output_grad).buf@.len()
                &&& points <= graph.at(f.input_grad).buf@.len()
            }
        },
{
}

/// Where a point lies in a batch.
proof fn lemma_point(batch: int, features: int, b: int, i: int)
    requires
        0 <= b < batch,
        0 <= i < features,
    ensures
        0 <= b * features + i < batch * features,
{
    assert(0 <= b * features + i < batch * features) by (nonlinear_arith)
        requires
            0 <= b < batch,
            0 <= i < features,
    ;
}

/// The compiled forward pass of a spline basis brings the batch size of the output
/// up to date and then leaves there, for each element of the batch and each input
/// feature, the values of all basis functions.
pub proof fn spline_forward_pass_writes_values<T: Scalar>(
    op: BSplineBasis,
    input: TensorRef,
    grid: TensorRef,
    output: TensorRef,
    memory: Graph<T>,
    b: int,
    i: int,
    c: int,
)
    requires
        memory.at(input).matrices() * op.input.shape.rows <= memory.at(input).buf@.len(),
        op.grid_size + 2 * op.spline_order + 1 <= memory.at(grid).buf@.len(),
        memory.at(input).matrices() * op.input.shape.rows * (op.grid_size + op.spline_order)
            <= memory.at(output).buf@.len(),
        0 <= b < memory.at(input).matrices(),
        0 <= i < op.input.shape.rows,
        0 <= c < op.grid_size + op.spline_order,
    ensures
        ({
            let ops = op.forward_ops::<T>(input, grid, output);
            &&& ops.len() == 2
            &&& ops[0] == DeviceOp::<T>::MaybeUpdateBatchSize(
                MaybeUpdateBatchSize { input, output },
            )
            &&& ops[1] matches DeviceOp::BSplineBasisFwd(f) && {
                &&& f.output == output
                &&& f.written(memory)[(b * op.input.shape.rows + i) * (op.grid_size + op.spline_order) + c]
                    == basis_value(
                    memory.at(input).buf@[b * op.input.shape.rows + i],
                    memory.at(grid).buf@.take(op.grid_size + 2 * op.spline_order + 1),
                    op.spline_order as nat,
                    c,
                )
            }
        }),
{
    let points = memory.at(input).matrices() * op.input.shape.rows;
    lemma_point(memory.at(input).matrices() as int, op.input.shape.rows as int, b, i);
    let q = b * op.input.shape.rows + i;
    spline_operation::forward_writes_basis_values(
        points,
        op.grid_size as int,
        op.spline_order as int,
        memory.at(input).buf@,
        memory.at(grid).buf@,
        memory.at(output).buf@,
    );
    assert(0 <= q < points && 0 <= c < op.grid_size + op.spline_order);
    let after = bspline::forward_output(
        points,
        op.grid_size as int,
        op.spline_order as int,
        memory.at(input).buf@,
        memory.at(grid).buf@,
        memory.at(output).buf@,
    );
    assert(after[q * (op.grid_size + op.spline_order) + c] == basis_value(
        memory.at(input).buf@[q],
        memory.at(grid).buf@.take(op.grid_size + 2 * op.spline_order + 1),
        op.spline_order as nat,
        c,
    ));
}

/// The compiled backward pass of a spline basis brings the batch size of the input
/// gradient up to date and then adds to it, for each element of the batch and each
/// input feature, the weighted slopes of the basis functions.
pub proof fn spline_backward_pass_adds_gradients(
    op: BSplineBasis,
    input: TensorRef,
    grid: TensorRef,
    output_grad: TensorRef,
    input_grad: TensorRef,
    memory: Graph<real>,
    b: int,
    i: int,
)
    requires
        op.spline_order >= 1,
        memory.at(input).matrices() * op.input.shape.rows <= memory.at(input).buf@.len(),
        op.grid_size + 2 * op.spline_order + 1 <= memory.at(grid).buf@.len(),
        memory.at(input).matrices() * op.input.shape.rows * (op.grid_size + op.spline_order)
            <= memory.at(output_grad).buf@.len(),
        memory.at(input).matrices() * op.input.shape.rows <= memory.at(input_grad).buf@.len(),
        0 <= b < memory.at(input).matrices(),
        0 <= i < op.input.shape.rows,
    ensures
        ({
            let ops = op.backward_ops::<real>(input, grid, output_grad, input_grad);
            let q = b * op.input.shape.rows + i;
            let count = op.grid_size + op.spline_order;
            &&& ops.len() == 2
            &&& ops[0] == DeviceOp::<real>::MaybeUpdateBatchSize(
                MaybeUpdateBatchSize { input, output: input_grad },
            )
            &&& ops[1] matches DeviceOp::BSplineBasisBwd(f) && {
                &&& f.input_grad == input_grad
                &&& f.written(memory)[q] == memory.at(input_grad).buf@[q] + sum(
                    Seq::new(
                        count as nat,
                        |c: int|
                            memory.at(output_grad).buf@[q * count + c] * basis_slope(
                                memory.at(input).buf@[q],
                                memory.at(grid).buf@.take(op.grid_size + 2 * op.spline_order + 1),
                                op.spline_order,
                                c,
                            ),
                    ),
                    count as nat,
                )
            }
        }),
{
    let points = memory.at(input).matrices() * op.input.shape.rows;
    lemma_point(memory.at(input).matrices() as int, op.input.shape.rows as int, b, i);
    spline_operation::backward_adds_weighted_slopes(
        points,
        op.grid_size as int,
        op.spline_order,
        memory.at(input).buf@,
        memory.at(grid).buf@,
        memory.at(output_grad).buf@,
        memory.at(input_grad).buf@,
        b * op.input.shape.rows + i,
    );
}

/// The compiled forward pass of a ReLU-KAN basis brings the batch size of the output
/// up to date and then leaves there, for each element of the batch and each input
/// feature, the values of all bumps.
pub proof fn bump_forward_pass_writes_values<T: Scalar>(
    op: ReluKanBasis,
    input: TensorRef,
    grid: TensorRef,
    output: TensorRef,
    memory: Graph<T>,
    b: int,
    i: int,
    c: int,
)
    requires
        memory.at(input).matrices() * op.input.shape.rows <= memory.at(input).buf@.len(),
        2 * (op.grid_size + op.support_width) <= memory.at(grid).buf@.len(),
        memory.at(input).matrices() * op.input.shape.rows * (op.grid_size + op.support_width)
            <= memory.at(output).buf@.len(),
        0 <= b < memory.at(input).matrices(),
        0 <= i < op.input.shape.rows,
        0 <= c < op.grid_size + op.support_width,
    ensures
        ({
            let ops = op.forward_ops::<T>(input, grid, output);
            let count = op.grid_size + op.support_width;
            &&& ops.len() == 2
            &&& ops[0] == DeviceOp::<T>::MaybeUpdateBatchSize(
                MaybeUpdateBatchSize { input, output },
            )
            &&& ops[1] matches DeviceOp::ReluKanBasisFwd(f) && {
                &&& f.output == output
                &&& f.written(memory)[(b * op.input.shape.rows + i) * count + c] == bump_value(
                    memory.at(input).buf@[b * op.input.shape.rows + i],
                    memory.at(grid).buf@[c],
                    memory.at(grid).buf@[count + c],
                )
                &&& f.grid_size == op.grid_size
                &&& f.support_width == op.support_width
            }
        }),
{
    let points = memory.at(input).matrices() * op.input.shape.rows;
    let count = op.grid_size + op.support_width;
    lemma_point(memory.at(input).matrices() as int, op.input.shape.rows as int, b, i);
    let q = b * op.input.shape.rows + i;
    bump_operation::forward_writes_bumps(
        points,
        count,
        memory.at(input).buf@,
        memory.at(grid).buf@,
        memory.at(output).buf@,
    );
    let after = relu_kan::forward_output(
        points,
        count,
        memory.at(input).buf@,
        memory.at(grid).buf@,
        memory.at(output).buf@,
    );
    assert(after[q * count + c] == bump_value(
        memory.at(input).buf@[q],
        memory.at(grid).buf@[c],
        memory.at(grid).buf@[count + c],
    ));
}

/// The compiled backward pass of a ReLU-KAN basis brings the batch size of the input
/// gradient up to date and then adds to it, for each element of the batch and each
/// input feature, the derivative of the weighted bumps.
pub proof fn bump_backward_pass_adds_gradients(
    op: ReluKanBasis,
    input: TensorRef,
    grid: TensorRef,
    output_grad: TensorRef,
    input_grad: TensorRef,
    memory: Graph<real>,
    b: int,
    i: int,
)
    requires
        op.grid_size + op.support_width > 0,
        memory.at(input).matrices() * op.input.shape.rows <= memory.at(input).buf@.len(),
        2 * (op.grid_size + op.support_width) <= memory.at(grid).buf@.len(),
        memory.at(input).matrices() * op.input.shape.rows * (op.grid_size + op.support_width)
            <= memory.at(output_grad).buf@.len(),
        memory.at(input).matrices() * op.input.shape.rows <= memory.at(input_grad).buf@.len(),
        0 <= b < memory.at(input).matrices(),
        0 <= i < op.input.shape.rows,
    ensures
        ({
            let ops = op.backward_ops::<real>(input, grid, output_grad, input_grad);
            let q = b * op.input.shape.rows + i;
            let count = op.grid_size + op.support_width;
            &&& ops.len() == 2
            &&& ops[0] == DeviceOp::<real>::MaybeUpdateBatchSize(
                MaybeUpdateBatchSize { input, output: input_grad },
            )
            &&& ops[1] matches DeviceOp::ReluKanBasisBwd(f) && {
                &&& f.input_grad == input_grad
                &&& f.grid_size == op.grid_size
                &&& f.support_width == op.support_width
                &&& has_derivative(
                    bump_operation::weighted_bumps(
                        memory.at(grid).buf@.take(count),
                        memory.at(grid).buf@.skip(count),
                        Seq::new(
                            count as nat,
                            |c: int| memory.at(output_grad).buf@[q * count + c],
                        ),
                        count as nat,
                    ),
                    memory.at(input).buf@[q],
                    f.written(memory)[q] - memory.at(input_grad).buf@[q],
                )
            }
        }),
{
    let points = memory.at(input).matrices() * op.input.shape.rows;
    lemma_point(memory.at(input).matrices() as int, op.input.shape.rows as int, b, i);
    bump_operation::backward_adds_derivative(
        points,
        op.grid_size + op.support_width,
        memory.at(input).buf@,
        memory.at(grid).buf@,
        memory.at(output_grad).buf@,
        memory.at(input_grad).buf@,
        b * op.input.shape.rows + i,
    );
}

} // verus!
