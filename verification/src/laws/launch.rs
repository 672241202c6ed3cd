//! Theorems about the instructions that a fused KAN layer compiles to.

use vstd::prelude::*;

use super::meaning::entry;
use super::numbers::sum;
use crate::cuda::kan::FusedKanLayer;
use crate::cuda::kan_kernels::{blocks, launches, threads, wider};
use crate::cuda::kernel::{Expr, KernelInput};
use crate::device::function::{DeviceOp, Matmul, MatmulType, MaybeUpdateBatchSize};
use crate::graph::{Graph, GraphNodeIdTy, NodeId};
use crate::scalar::dot;
use crate::tensor::{Shape, TensorRef};

verus! {

/// What the numbers are that a launch is described with. A quotient is the largest
/// number whose product with the divisor does not exceed the dividend.
pub proof fn numbers_of_a_launch(a: Expr, b: Expr, c: i32, batch: int)
    ensures
        Expr::Var.value(batch) == batch,
        Expr::Const(c).value(batch) == c,
        Expr::Add(Box::new(a), Box::new(b)).value(batch) == a.value(batch) + b.value(batch),
        Expr::Sub(Box::new(a), Box::new(b)).value(batch) == a.value(batch) - b.value(batch),
        b.value(batch) > 0 ==> {
            let q = Expr::Div(Box::new(a), Box::new(b)).value(batch);
            q * b.value(batch) <= a.value(batch) < q * b.value(batch) + b.value(batch)
        },
        ({
            let least = Expr::Min(Box::new(a), Box::new(b)).value(batch);
            &&& least <= a.value(batch)
            &&& least <= b.value(batch)
            &&& least == a.value(batch) || least == b.value(batch)
        }),
{
    if b.value(batch) > 0 {
        let n = a.value(batch);
        let d = b.value(batch);
        let q = n / d;
        assert(q * d <= n < q * d + d) by (nonlinear_arith)
            requires
                d > 0,
                q == n / d,
        ;
        assert(Expr::Div(Box::new(a), Box::new(b)).value(batch) == q);
    }
}

/// A launch has one block for each element of the batch: as many rows of blocks as
/// there are elements, but at most 32768, and as many columns as it takes. A block
/// has as many threads as it is to have, but at most 1024.
pub proof fn launch_dimensions(n: usize, batch: int)
    requires
        batch >= 1,
    ensures
        ({
            let columns = blocks()[0].value(batch);
            let rows = blocks()[1].value(batch);
            &&& blocks().len() == 3
            &&& rows == (if batch < 32768 {
                batch
            } else {
                32768
            })
            &&& (columns - 1) * 32768 < batch <= columns * 32768
            &&& blocks()[2].value(batch) == 1
        }),
        threads(n).len() == 3,
        threads(n)[0].value(batch) == (if n < 1024 {
            n as int
        } else {
            1024
        }),
        threads(n)[1].value(batch) == 1,
        threads(n)[2].value(batch) == 1,
{
    reveal_with_fuel(Expr::value, 4);
    let columns = blocks()[0].value(batch);
    assert(columns == (batch + 32768 - 1) / 32768);
    assert(batch <= columns * 32768 && (columns - 1) * 32768 < batch) by (nonlinear_arith)
        requires
            columns == (batch + 32768 - 1) / 32768,
    ;
}

/// The larger of two counts is one of them and not less than either.
pub proof fn wider_is_largest(a: usize, b: usize)
    ensures
        wider(a, b) >= a,
        wider(a, b) >= b,
        wider(a, b) == a || wider(a, b) == b,
{
}

/// A block of the forward kernel shares four bytes for each knot, each basis value
/// and each input feature. A block of the backward kernel shares four bytes for
/// each knot and each output.
pub proof fn shared_memory_has_room(layer: FusedKanLayer)
    ensures
        layer.forward_shared_bytes() == 4 * ((layer.grid_size + 2 * layer.spline_order + 1)
            + layer.input.shape.rows * (layer.grid_size + layer.spline_order)
            + layer.input.shape.rows),
        layer.backward_shared_bytes() == 4 * ((layer.grid_size + 2 * layer.spline_order + 1)
            + layer.spline_weight.shape.rows),
{
}

/// A layer can be compiled where the values of all nodes that it takes are in
/// memory.
pub proof fn what_a_layer_reads<T>(layer: FusedKanLayer, graph: Graph<T>)
    ensures
        layer.inputs_located(graph) <==> {
            &&& graph.locate(layer.input.idx, GraphNodeIdTy::Values) is Some
            &&& graph.locate(layer.grid.idx, GraphNodeIdTy::Values) is Some
            &&& graph.locate(layer.spline_weight.idx, GraphNodeIdTy::Values) is Some
            &&& graph.locate(layer.base_weight.idx, GraphNodeIdTy::Values) is Some
        },
{
}

/// Whether an argument of a kernel is this dense tensor.
pub open spec fn is_tensor(
    argument: KernelInput,
    place: Option<TensorRef>,
    batched: bool,
    mutable: bool,
    rows: int,
    cols: int,
) -> bool {
    &&& argument matches KernelInput::Slice { slice, layout, mutable: m, batched: b, shape }
    &&& place == Some(slice)
    &&& layout is None
    &&& m == mutable
    &&& b == batched
    &&& shape.rows == rows
    &&& shape.cols == cols
}

/// Both kernels are handed the batch size and then what the layer takes: its input,
/// of which there is one for each element of the batch, the knots, and both weights.
/// They write to none of these.
pub proof fn kernels_read_what_the_layer_takes<T>(
    layer: FusedKanLayer,
    graph: Graph<T>,
    node: NodeId,
    input_grad: TensorRef,
    batch: int,
)
    requires
        layer.inputs_located(graph),
    ensures
        ({
            let forward = layer.forward_inputs(graph, node);
            let backward = layer.backward_inputs(graph, node, input_grad);
            let values = GraphNodeIdTy::Values;
            &&& forward.len() == 8
            &&& backward.len() == 7
            &&& forward.take(5) == backward.take(5)
            &&& forward[0] matches KernelInput::Size(size) && size.value(batch) == batch
            &&& is_tensor(
                forward[1],
                graph.locate(layer.input.idx, values),
                true,
                false,
                layer.input.shape.rows as int,
                layer.input.shape.cols as int,
            )
            &&& is_tensor(
                forward[2],
                graph.locate(layer.grid.idx, values),
                false,
                false,
                layer.grid.shape.rows as int,
                layer.grid.shape.cols as int,
            )
            &&& is_tensor(
                forward[3],
                graph.locate(layer.spline_weight.idx, values),
                false,
                false,
                layer.spline_weight.shape.rows as int,
                layer.spline_weight.shape.cols as int,
            )
            &&& is_tensor(
                forward[4],
                graph.locate(layer.base_weight.idx, values),
                false,
                false,
                layer.base_weight.shape.rows as int,
                layer.base_weight.shape.cols as int,
            )
        }),
{
    assert(layer.forward_inputs(graph, node).take(5) =~= layer.backward_inputs(
        graph,
        node,
        input_grad,
    ).take(5));
}

/// The forward kernel writes the output of the layer, the basis values and the SiLU
/// values, each with one column for each element of the batch.
pub proof fn forward_kernel_writes<T>(layer: FusedKanLayer, graph: Graph<T>, node: NodeId)
    requires
        layer.fits(),
        graph.locate(node, GraphNodeIdTy::Values) is Some,
        graph.locate(node, GraphNodeIdTy::Ancillary(0)) is Some,
        graph.locate(node, GraphNodeIdTy::Ancillary(1)) is Some,
    ensures
        ({
            let forward = layer.forward_inputs(graph, node);
            &&& is_tensor(
                forward[5],
                graph.locate(node, GraphNodeIdTy::Values),
                true,
                true,
                layer.spline_weight.shape.rows as int,
                1,
            )
            &&& is_tensor(
                forward[6],
                graph.locate(node, GraphNodeIdTy::Ancillary(0)),
                true,
                true,
                layer.input.shape.rows * (layer.grid_size + layer.spline_order),
                1,
            )
            &&& is_tensor(
                forward[7],
                graph.locate(node, GraphNodeIdTy::Ancillary(1)),
                true,
                true,
                layer.input.shape.rows as int,
                1,
            )
        }),
{
}

/// The backward kernel reads the gradient of the output and writes the gradient of
/// the input, each with one column for each element of the batch.
pub proof fn backward_kernel_writes<T>(
    layer: FusedKanLayer,
    graph: Graph<T>,
    node: NodeId,
    input_grad: TensorRef,
)
    requires
        graph.locate(node, GraphNodeIdTy::Gradients) is Some,
    ensures
        ({
            let backward = layer.backward_inputs(graph, node, input_grad);
            &&& is_tensor(
                backward[5],
                graph.locate(node, GraphNodeIdTy::Gradients),
                true,
                false,
                layer.spline_weight.shape.rows as int,
                1,
            )
            &&& is_tensor(
                backward[6],
                Some(input_grad),
                true,
                true,
                layer.input.shape.rows as int,
                layer.input.shape.cols as int,
            )
        }),
{
}

/// An instruction that launches a kernel has its name, its code, its arguments and
/// its dimensions.
pub proof fn launch_is_described<T>(
    op: DeviceOp<T>,
    name: Seq<char>,
    code: Seq<char>,
    inputs: Seq<KernelInput>,
    block: usize,
    shared_bytes: int,
    batch: int,
)
    requires
        launches(op, name, code, inputs, block, shared_bytes),
        0 <= shared_bytes <= i32::MAX,
        batch >= 1,
    ensures
        op matches DeviceOp::Kernel(kernel) && {
            &&& kernel.name@ == name
            &&& kernel.code@ == code
            &&& kernel.args.inputs@ == inputs
            &&& kernel.args.shared_mem_bytes.value(batch) == shared_bytes
            &&& kernel.args.grid_dim@.len() == 3
            &&& kernel.args.grid_dim@[0].value(batch) * kernel.args.grid_dim@[1].value(batch)
                >= batch
            &&& kernel.args.block_dim@[0].value(batch) == (if block < 1024 {
                block as int
            } else {
                1024
            })
        },
{
    launch_dimensions(block, batch);
    let columns = blocks()[0].value(batch);
    if batch < 32768 {
        assert(columns >= 1) by (nonlinear_arith)
            requires
                1 <= batch <= columns * 32768,
        ;
        assert(columns * batch >= batch) by (nonlinear_arith)
            requires
                columns >= 1,
                batch >= 1,
        ;
    }
}

/// The forward pass of a layer gives both scratch tensors and the output the batch
/// size of the input. It then launches one kernel, with a thread for each input
/// feature and each output, whichever are more, up to 1024, and with shared memory
/// for the knots, the basis values and the SiLU values.
pub proof fn forward_pass_launches_kernel<T>(
    layer: FusedKanLayer,
    graph: Graph<T>,
    node: NodeId,
    template: Seq<char>,
    ops: Seq<DeviceOp<T>>,
    batch: int,
)
    requires
        layer.forward_compiled(graph, node, template, ops),
        layer.inputs_located(graph),
        graph.locate(node, GraphNodeIdTy::Ancillary(0)) is Some,
        graph.locate(node, GraphNodeIdTy::Ancillary(1)) is Some,
        graph.locate(node, GraphNodeIdTy::Values) is Some,
        layer.forward_shared_bytes() <= i32::MAX,
        batch >= 1,
    ensures
        ops.len() == 4,
        ops[0] matches DeviceOp::MaybeUpdateBatchSize(op) && {
            &&& graph.locate(layer.input.idx, GraphNodeIdTy::Values) == Some(op.input)
            &&& graph.locate(node, GraphNodeIdTy::Ancillary(0)) == Some(op.output)
        },
        ops[1] matches DeviceOp::MaybeUpdateBatchSize(op) && {
            &&& graph.locate(layer.input.idx, GraphNodeIdTy::Values) == Some(op.input)
            &&& graph.locate(node, GraphNodeIdTy::Ancillary(1)) == Some(op.output)
        },
        ops[2] matches DeviceOp::MaybeUpdateBatchSize(op) && {
            &&& graph.locate(layer.input.idx, GraphNodeIdTy::Values) == Some(op.input)
            &&& graph.locate(node, GraphNodeIdTy::Values) == Some(op.output)
        },
        ops[3] matches DeviceOp::Kernel(kernel) && {
            let threads = kernel.args.block_dim@[0].value(batch);
            &&& kernel.name@ == "FusedKanLayerFwd"@
            &&& kernel.code@ == layer.specialised(template)
            &&& kernel.args.inputs@ == layer.forward_inputs(graph, node)
            &&& threads <= 1024
            &&& threads < 1024 ==> threads >= layer.input.shape.rows && threads
                >= layer.spline_weight.shape.rows
            &&& threads <= layer.input.shape.rows || threads <= layer.spline_weight.shape.rows
            &&& kernel.args.shared_mem_bytes.value(batch) == 4 * ((layer.grid_size + 2
                * layer.spline_order + 1) + layer.input.shape.rows * (layer.grid_size
                + layer.spline_order) + layer.input.shape.rows)
            &&& kernel.args.grid_dim@[0].value(batch) * kernel.args.grid_dim@[1].value(batch)
                >= batch
        },
{
    assert(layer.forward_shared_bytes() >= 0) by {
        assert(layer.input.shape.rows * (layer.grid_size + layer.spline_order) >= 0)
            by (nonlinear_arith);
    }
    launch_is_described(
        ops[3],
        "FusedKanLayerFwd"@,
        layer.specialised(template),
        layer.forward_inputs(graph, node),
        wider(layer.input.shape.rows, layer.spline_weight.shape.rows),
        layer.forward_shared_bytes(),
        batch,
    );
}

/// The backward pass of a layer adds to the gradients of the weights. If the input
/// has a gradient, it then gives that gradient the batch size of the input and
/// launches one kernel, with a thread for each input feature, up to 1024, and with
/// shared memory for the knots and the output gradient.
pub proof fn backward_pass_launches_kernel(
    layer: FusedKanLayer,
    graph: Graph<real>,
    node: NodeId,
    template: Seq<char>,
    ops: Seq<DeviceOp<real>>,
    batch: int,
)
    requires
        layer.backward_compiled(graph, node, template, ops),
        layer.inputs_located(graph),
        layer.backward_shared_bytes() <= i32::MAX,
        batch >= 1,
    ensures
        graph.locate(layer.input.idx, GraphNodeIdTy::Gradients) is None ==> ops
            == layer.weight_ops(graph, node),
        graph.locate(layer.input.idx, GraphNodeIdTy::Gradients) matches Some(input_grad) ==> {
            let n = layer.weight_ops(graph, node).len() as int;
            &&& ops.len() == n + 2
            &&& ops.take(n) == layer.weight_ops(graph, node)
            &&& ops[n] matches DeviceOp::MaybeUpdateBatchSize(op) && {
                &&& graph.locate(layer.input.idx, GraphNodeIdTy::Values) == Some(op.input)
                &&& op.output == input_grad
            }
            &&& ops[n + 1] matches DeviceOp::Kernel(kernel) && {
                &&& kernel.name@ == "FusedKanLayerBwdInput"@
                &&& kernel.code@ == layer.specialised(template)
                &&& kernel.args.inputs@ == layer.backward_inputs(graph, node, input_grad)
                &&& kernel.args.block_dim@[0].value(batch) == (if layer.input.shape.rows
                    < 1024 {
                    layer.input.shape.rows as int
                } else {
                    1024
                })
                &&& kernel.args.shared_mem_bytes.value(batch) == 4 * ((layer.grid_size + 2
                    * layer.spline_order + 1) + layer.spline_weight.shape.rows)
                &&& kernel.args.grid_dim@[0].value(batch) * kernel.args.grid_dim@[1].value(batch)
                    >= batch
            }
        },
{
    if let Some(input_grad) = graph.locate(layer.input.idx, GraphNodeIdTy::Gradients) {
        launch_is_described(
            ops[layer.weight_ops(graph, node).len() as int + 1],
            "FusedKanLayerBwdInput"@,
            layer.specialised(template),
            layer.backward_inputs(graph, node, input_grad),
            layer.input.shape.rows,
            layer.backward_shared_bytes(),
            batch,
        );
    }
}

/// The scratch memory of a layer: a column for the basis values and one for the SiLU
/// values, each for every element of the batch, and neither sparse.
pub proof fn scratch_memory(layer: FusedKanLayer)
    requires
        layer.fits(),
    ensures
        layer.scratch().len() == 2,
        layer.scratch()[0].0.rows == layer.input.shape.rows * (layer.grid_size
            + layer.spline_order),
        layer.scratch()[1].0.rows == layer.input.shape.rows,
        forall|i: int|
            0 <= i < 2 ==> (#[trigger] layer.scratch()[i]).0.cols == 1 && layer.scratch()[i].1 is None
                && layer.scratch()[i].2,
{
}

/// What a product that is added up over a batch of `n` leaves in the entry in row
/// `r` and column `c` of its output, which held `old` before: `alpha` times the sum
/// of the products, and `beta` times `old`. The buffers `a` and `b` hold one factor
/// after the other.
pub open spec fn reduced_entry(
    op: Matmul<real>,
    n: nat,
    a: Seq<real>,
    b: Seq<real>,
    old_entry: real,
    r: int,
    c: int,
) -> real {
    let inner = if op.cfg.trans_a {
        op.cfg.shape_a.rows
    } else {
        op.cfg.shape_a.cols
    };
    let size_a = op.cfg.shape_a.rows * op.cfg.shape_a.cols;
    let size_b = op.cfg.shape_b.rows * op.cfg.shape_b.cols;
    op.cfg.alpha * sum(
        Seq::new(
            n,
            |e: int|
                dot(
                    Seq::new(
                        inner as nat,
                        |k: int|
                            entry(a.skip(e * size_a), op.cfg.shape_a, op.cfg.trans_a, r, k),
                    ),
                    Seq::new(
                        inner as nat,
                        |k: int|
                            entry(b.skip(e * size_b), op.cfg.shape_b, op.cfg.trans_b, k, c),
                    ),
                    inner as nat,
                ),
        ),
        n,
    ) + op.cfg.beta * old_entry
}

/// Sums of equal numbers are equal.
proof fn lemma_same_sum(s: Seq<real>, t: Seq<real>, n: nat)
    requires
        forall|i: int| 0 <= i < n ==> #[trigger] s[i] == t[i],
    ensures
        sum(s, n) == sum(t, n),
    decreases n,
{
    if n > 0 {
        lemma_same_sum(s, t, (n - 1) as nat);
        assert(s[n - 1] == t[n - 1]);
    }
}

/// The instructions for the gradient of a weight bring its batch size up to date and
/// then add, over the batch, the products of the output gradient in row `r` with the
/// value in row `c`. Without a gradient there are none.
pub proof fn weight_gradient_is_added(
    layer: FusedKanLayer,
    weight: TensorRef,
    output: TensorRef,
    output_grad: TensorRef,
    values: TensorRef,
    rows: int,
    batch: nat,
    a: Seq<real>,
    b: Seq<real>,
    old_entry: real,
    r: int,
    c: int,
)
    requires
        0 <= rows <= usize::MAX,
        0 <= r < layer.spline_weight.shape.rows,
        0 <= c < rows,
        a.len() == batch * layer.spline_weight.shape.rows,
        b.len() == batch * rows,
    ensures
        layer.weight_grad_ops::<real>(weight, None, output_grad, values, rows).len() == 0,
        ({
            let ops = layer.weight_grad_ops::<real>(
                weight,
                Some(output),
                output_grad,
                values,
                rows,
            );
            &&& ops.len() == 2
            &&& ops[0] == DeviceOp::<real>::MaybeUpdateBatchSize(
                MaybeUpdateBatchSize { input: weight, output },
            )
            &&& ops[1] matches DeviceOp::Matmul(op) && {
                &&& op.ty == MatmulType::BatBatRed
                &&& op.input_a == output_grad
                &&& op.input_b == values
                &&& op.output == output
                &&& reduced_entry(op, batch, a, b, old_entry, r, c) == old_entry + sum(
                    Seq::new(
                        batch,
                        |e: int| a[e * layer.spline_weight.shape.rows + r] * b[e * rows + c],
                    ),
                    batch,
                )
            }
        }),
{
    let ops = layer.weight_grad_ops::<real>(weight, Some(output), output_grad, values, rows);
    let op = ops[1]->Matmul_0;
    let outputs = layer.spline_weight.shape.rows as int;
    assert(op.cfg.shape_a == Shape { rows: layer.spline_weight.shape.rows, cols: 1 });
    assert(op.cfg.shape_b == Shape { rows: rows as usize, cols: 1 });
    let size_a = op.cfg.shape_a.rows * op.cfg.shape_a.cols;
    let size_b = op.cfg.shape_b.rows * op.cfg.shape_b.cols;
    assert(outputs * 1 == outputs && rows * 1 == rows) by (nonlinear_arith);
    assert(size_a == outputs && size_b == rows);
    let expected = Seq::new(batch, |e: int| a[e * outputs + r] * b[e * rows + c]);
    let found = Seq::new(
        batch,
        |e: int|
            dot(
                Seq::new(
                    1nat,
                    |k: int| entry(a.skip(e * size_a), op.cfg.shape_a, op.cfg.trans_a, r, k),
                ),
                Seq::new(
                    1nat,
                    |k: int| entry(b.skip(e * size_b), op.cfg.shape_b, op.cfg.trans_b, k, c),
                ),
                1,
            ),
    );
    assert forall|e: int| 0 <= e < batch implies #[trigger] found[e] == expected[e] by {
        let left = Seq::new(
            1nat,
            |k: int| entry(a.skip(e * size_a), op.cfg.shape_a, op.cfg.trans_a, r, k),
        );
        let right = Seq::new(
            1nat,
            |k: int| entry(b.skip(e * size_b), op.cfg.shape_b, op.cfg.trans_b, k, c),
        );
        assert(0 <= e * outputs && e * outputs + outputs <= batch * outputs) by (nonlinear_arith)
            requires
                0 <= e < batch,
                0 <= outputs,
        ;
        assert(0 <= e * rows && e * rows + rows <= batch * rows) by (nonlinear_arith)
            requires
                0 <= e < batch,
                0 <= rows,
        ;
        assert(0 * outputs == 0 && 0 * rows == 0) by (nonlinear_arith);
        assert(left[0] == a[e * outputs + r]);
        assert(right[0] == b[e * rows + c]);
        assert(dot(left, right, 0) == 0real);
        assert(dot(left, right, 1) == dot(left, right, 0) + left[0] * right[0]);
    }
    lemma_same_sum(found, expected, batch);
    assert(reduced_entry(op, batch, a, b, old_entry, r, c) == 1real * sum(found, batch) + 1real
        * old_entry);
}

/// The gradients of both weights are added to: that of the spline weights from the
/// basis values, that of the base weights from the SiLU values.
pub proof fn both_weights_are_trained(layer: FusedKanLayer, graph: Graph<real>, node: NodeId)
    requires
        layer.fits(),
    ensures
        layer.weight_ops(graph, node) == layer.weight_grad_ops::<real>(
            graph.locate(layer.spline_weight.idx, GraphNodeIdTy::Values)->0,
            graph.locate(layer.spline_weight.idx, GraphNodeIdTy::Gradients),
            graph.locate(node, GraphNodeIdTy::Gradients)->0,
            graph.locate(node, GraphNodeIdTy::Ancillary(0))->0,
            layer.input.shape.rows * (layer.grid_size + layer.spline_order),
        ) + layer.weight_grad_ops::<real>(
            graph.locate(layer.base_weight.idx, GraphNodeIdTy::Values)->0,
            graph.locate(layer.base_weight.idx, GraphNodeIdTy::Gradients),
            graph.locate(node, GraphNodeIdTy::Gradients)->0,
            graph.locate(node, GraphNodeIdTy::Ancillary(1))->0,
            layer.input.shape.rows as int,
        ),
{
}

} // verus!
