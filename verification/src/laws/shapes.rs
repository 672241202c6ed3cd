//! What operations take, what they yield, and how often nodes are used.

use vstd::prelude::*;

use crate::cuda::kan::FusedKanLayer;
use crate::graph::ir::operation::bspline::BSplineBasis;
use crate::graph::ir::operation::relu_kan::ReluKanBasis;
use crate::graph::ir::operation::util::{batch_error, grad_error, layout_error, verdict};
use crate::graph::ir::operation::{Concat, Matmul, Operation, PairwiseMul};
use crate::graph::ir::{
    derived_data, occurrences, parent_error, AnnotatedNode, GraphIR, GraphIRError,
    GraphIROperationError, IrNode, NodeData,
};
use crate::graph::NodeId;
use crate::tensor::Shape;

verus! {

/// Whether a node is there and dense.
pub open spec fn is_dense<T>(ir: GraphIR<T>, node: AnnotatedNode) -> bool {
    node.idx.0 < ir.nodes.len() && ir.nodes[node.idx.0 as int].data.info.sparse is None
}

/// Whether a node is there and the same for the whole batch.
pub open spec fn is_shared<T>(ir: GraphIR<T>, node: AnnotatedNode) -> bool {
    node.idx.0 < ir.nodes.len() && !ir.nodes[node.idx.0 as int].data.info.batched
}

/// Whether a node is there and trained.
pub open spec fn is_trained<T>(ir: GraphIR<T>, node: AnnotatedNode) -> bool {
    node.idx.0 < ir.nodes.len() && ir.nodes[node.idx.0 as int].data.info.requires_grad
}

/// What the checks of a node find: first whether it is there, and then whether it is
/// stored as it should be, shared by the batch, or trained.
pub proof fn checks_of_a_node<T>(ir: GraphIR<T>, node: AnnotatedNode)
    ensures
        node.idx.0 >= ir.nodes.len() ==> {
            let missing = Err::<(), GraphIRError>(GraphIRError::NodeDoesNotExist);
            &&& verdict(layout_error(ir, node, true)) == missing
            &&& verdict(layout_error(ir, node, false)) == missing
            &&& verdict(batch_error(ir, node)) == missing
            &&& verdict(grad_error(ir, node)) == missing
        },
        node.idx.0 < ir.nodes.len() ==> {
            let layout = Err::<(), GraphIRError>(
                GraphIRError::Op(GraphIROperationError::IncorrectDataLayout),
            );
            &&& verdict(layout_error(ir, node, true)) == (if is_dense(ir, node) {
                Ok(())
            } else {
                layout
            })
            &&& verdict(layout_error(ir, node, false)) == (if is_dense(ir, node) {
                layout
            } else {
                Ok(())
            })
            &&& verdict(batch_error(ir, node)) == (if is_shared(ir, node) {
                Ok(())
            } else {
                Err(GraphIRError::Op(GraphIROperationError::BatchedInputNotSupported))
            })
            &&& verdict(grad_error(ir, node)) == (if is_trained(ir, node) {
                Ok(())
            } else {
                Err(GraphIRError::Op(GraphIROperationError::GradientNotAvailable))
            })
        },
{
}

/// A graph is in order if and only if every node is a leaf, or is what its operation
/// yields from earlier nodes.
pub proof fn graph_in_order<T>(ir: GraphIR<T>)
    ensures
        ir.wf() <==> forall|i: int|
            0 <= i < ir.nodes.len() ==> {
                let node = #[trigger] ir.nodes[i];
                ||| node.op is Input || node.op is Weights || node.op is Constant
                ||| {
                    &&& node.op.fits()
                    &&& ir.result(node.op) == Ok::<NodeData, GraphIRError>(node.data)
                    &&& forall|j: int|
                        0 <= j < node.op.parents().len() ==> (
                        #[trigger] node.op.parents()[j]).idx.0 < i
                }
            },
{
    if ir.wf() {
        assert forall|i: int| 0 <= i < ir.nodes.len() implies {
            let node = #[trigger] ir.nodes[i];
            ||| node.op is Input || node.op is Weights || node.op is Constant
            ||| {
                &&& node.op.fits()
                &&& ir.result(node.op) == Ok::<NodeData, GraphIRError>(node.data)
                &&& forall|j: int|
                    0 <= j < node.op.parents().len() ==> (
                    #[trigger] node.op.parents()[j]).idx.0 < i
            }
        } by {
            assert(ir.node_wf(i));
        }
    } else {
        let i = choose|i: int| 0 <= i < ir.nodes.len() && !#[trigger] ir.node_wf(i);
        assert(!ir.node_wf(i));
        let node = ir.nodes[i];
        assert(!node.op.is_leaf());
    }
}

/// The sizes that an operation of a graph works out have to be representable.
pub proof fn operation_sizes_fit<T>(op: Operation<T>)
    ensures
        op matches Operation::Concat(o) ==> (op.fits() <==> o.a.shape.rows + o.b.shape.rows
            <= usize::MAX),
        op matches Operation::BSplineBasis(o) ==> (op.fits() <==> o.fits()),
        op matches Operation::ReluKanBasis(o) ==> (op.fits() <==> o.fits()),
        op matches Operation::FusedKanLayer(o) ==> (op.fits() <==> o.fits()),
        !(op is Concat || op is BSplineBasis || op is ReluKanBasis || op is FusedKanLayer)
            ==> op.fits(),
{
}

/// A spline basis takes a dense column and a dense column of knots that all
/// elements of the batch share. It yields a column with `grid_size + spline_order`
/// values for each entry of the input.
pub proof fn spline_basis_shape<T>(op: BSplineBasis, ir: GraphIR<T>)
    requires
        op.fits(),
    ensures
        op.shape_in(ir) is Ok <==> {
            &&& is_dense(ir, op.input)
            &&& is_dense(ir, op.grid)
            &&& is_shared(ir, op.grid)
            &&& op.input.shape.cols == 1
            &&& op.grid.shape.rows == op.grid_size + 2 * op.spline_order + 1
            &&& op.grid.shape.cols == 1
        },
        op.shape_in(ir) matches Ok(shape) ==> shape.rows == op.input.shape.rows * (op.grid_size
            + op.spline_order) && shape.cols == 1,
        op.parents() == seq![op.input, op.grid],
{
}

/// What a spline basis that does not take its inputs reports.
pub proof fn spline_basis_error<T>(op: BSplineBasis, ir: GraphIR<T>)
    requires
        op.fits(),
        op.shape_in(ir) is Err,
    ensures
        op.shape_in(ir)->Err_0 == (if op.input.idx.0 >= ir.nodes.len() {
            GraphIRError::NodeDoesNotExist
        } else if !is_dense(ir, op.input) {
            GraphIRError::Op(GraphIROperationError::IncorrectDataLayout)
        } else if op.grid.idx.0 >= ir.nodes.len() {
            GraphIRError::NodeDoesNotExist
        } else if !is_dense(ir, op.grid) {
            GraphIRError::Op(GraphIROperationError::IncorrectDataLayout)
        } else if !is_shared(ir, op.grid) {
            GraphIRError::Op(GraphIROperationError::BatchedInputNotSupported)
        } else if op.input.shape.cols != 1 {
            GraphIRError::Op(GraphIROperationError::InvalidInputShape(op.input.shape))
        } else {
            GraphIRError::Op(
                GraphIROperationError::MismatchedInputShapes {
                    found: op.grid.shape,
                    expected: Shape {
                        rows: (op.grid_size + 2 * op.spline_order + 1) as usize,
                        cols: 1,
                    },
                },
            )
        }),
{
}

/// A ReLU-KAN basis takes a dense column and a dense column of starts and ends that
/// all elements of the batch share. It yields a column with `grid_size +
/// support_width` values for each entry of the input.
pub proof fn bump_basis_shape<T>(op: ReluKanBasis, ir: GraphIR<T>)
    requires
        op.fits(),
    ensures
        op.shape_in(ir) is Ok <==> {
            &&& is_dense(ir, op.input)
            &&& is_dense(ir, op.grid)
            &&& is_shared(ir, op.grid)
            &&& op.input.shape.cols == 1
            &&& op.grid.shape.rows == 2 * (op.grid_size + op.support_width)
            &&& op.grid.shape.cols == 1
        },
        op.shape_in(ir) matches Ok(shape) ==> shape.rows == op.input.shape.rows * (op.grid_size
            + op.support_width) && shape.cols == 1,
        op.parents() == seq![op.input, op.grid],
{
}

/// What a ReLU-KAN basis that does not take its inputs reports.
pub proof fn bump_basis_error<T>(op: ReluKanBasis, ir: GraphIR<T>)
    requires
        op.fits(),
        op.shape_in(ir) is Err,
    ensures
        op.shape_in(ir)->Err_0 == (if op.input.idx.0 >= ir.nodes.len() {
            GraphIRError::NodeDoesNotExist
        } else if !is_dense(ir, op.input) {
            GraphIRError::Op(GraphIROperationError::IncorrectDataLayout)
        } else if op.grid.idx.0 >= ir.nodes.len() {
            GraphIRError::NodeDoesNotExist
        } else if !is_dense(ir, op.grid) {
            GraphIRError::Op(GraphIROperationError::IncorrectDataLayout)
        } else if !is_shared(ir, op.grid) {
            GraphIRError::Op(GraphIROperationError::BatchedInputNotSupported)
        } else if op.input.shape.cols != 1 {
            GraphIRError::Op(GraphIROperationError::InvalidInputShape(op.input.shape))
        } else {
            GraphIRError::Op(
                GraphIROperationError::MismatchedInputShapes {
                    found: op.grid.shape,
                    expected: Shape {
                        rows: (2 * (op.grid_size + op.support_width)) as usize,
                        cols: 1,
                    },
                },
            )
        }),
{
}

/// The sizes that a basis works out have to be representable.
pub proof fn basis_sizes_fit(spline: BSplineBasis, bump: ReluKanBasis, layer: FusedKanLayer)
    ensures
        spline.fits() <==> {
            &&& spline.grid_size + 2 * spline.spline_order + 1 <= usize::MAX
            &&& spline.input.shape.rows * (spline.grid_size + spline.spline_order) <= usize::MAX
        },
        bump.fits() <==> {
            &&& 2 * (bump.grid_size + bump.support_width) <= usize::MAX
            &&& bump.input.shape.rows * (bump.grid_size + bump.support_width) <= usize::MAX
        },
        layer.fits() <==> {
            &&& layer.grid_size + 2 * layer.spline_order + 1 <= usize::MAX
            &&& layer.input.shape.rows * (layer.grid_size + layer.spline_order) <= usize::MAX
        },
        layer.knots() == layer.grid_size + 2 * layer.spline_order + 1,
        layer.basis_rows() == layer.input.shape.rows * (layer.grid_size + layer.spline_order),
{
}

/// A whole layer takes a dense column, shared dense knots, and shared dense weights
/// that are trained, with shapes that go together. It yields a column with an entry
/// for each row of the weights.
pub proof fn fused_layer_shape<T>(layer: FusedKanLayer, ir: GraphIR<T>)
    requires
        layer.fits(),
    ensures
        layer.shape_in(ir) is Ok <==> {
            &&& is_dense(ir, layer.input)
            &&& is_dense(ir, layer.grid)
            &&& is_shared(ir, layer.grid)
            &&& is_dense(ir, layer.spline_weight)
            &&& is_dense(ir, layer.base_weight)
            &&& is_shared(ir, layer.spline_weight)
            &&& is_shared(ir, layer.base_weight)
            &&& is_trained(ir, layer.spline_weight)
            &&& is_trained(ir, layer.base_weight)
            &&& layer.input.shape.cols == 1
            &&& layer.spline_weight.shape.cols == layer.input.shape.rows * (layer.grid_size
                + layer.spline_order)
            &&& layer.base_weight.shape.rows == layer.spline_weight.shape.rows
            &&& layer.base_weight.shape.cols == layer.input.shape.rows
            &&& layer.grid.shape.rows == layer.grid_size + 2 * layer.spline_order + 1
            &&& layer.grid.shape.cols == 1
        },
        layer.shape_in(ir) matches Ok(shape) ==> shape.rows == layer.spline_weight.shape.rows
            && shape.cols == 1,
        layer.parents() == seq![layer.input, layer.grid, layer.spline_weight, layer.base_weight],
{
}

/// What a whole layer that does not take its inputs reports.
pub proof fn fused_layer_error<T>(layer: FusedKanLayer, ir: GraphIR<T>)
    requires
        layer.fits(),
        layer.shape_in(ir) is Err,
    ensures
        ({
            let error = layer.shape_in(ir)->Err_0;
            let known = ir.nodes.len();
            if layer.input.idx.0 >= known {
                error == GraphIRError::NodeDoesNotExist
            } else if !is_dense(ir, layer.input) {
                error == GraphIRError::Op(GraphIROperationError::IncorrectDataLayout)
            } else if layer.grid.idx.0 >= known {
                error == GraphIRError::NodeDoesNotExist
            } else if !is_dense(ir, layer.grid) {
                error == GraphIRError::Op(GraphIROperationError::IncorrectDataLayout)
            } else if !is_shared(ir, layer.grid) {
                error == GraphIRError::Op(GraphIROperationError::BatchedInputNotSupported)
            } else if layer.spline_weight.idx.0 >= known {
                error == GraphIRError::NodeDoesNotExist
            } else if !is_dense(ir, layer.spline_weight) {
                error == GraphIRError::Op(GraphIROperationError::IncorrectDataLayout)
            } else if layer.base_weight.idx.0 >= known {
                error == GraphIRError::NodeDoesNotExist
            } else if !is_dense(ir, layer.base_weight) {
                error == GraphIRError::Op(GraphIROperationError::IncorrectDataLayout)
            } else if !is_shared(ir, layer.spline_weight) || !is_shared(ir, layer.base_weight) {
                error == GraphIRError::Op(GraphIROperationError::BatchedInputNotSupported)
            } else if !is_trained(ir, layer.spline_weight) || !is_trained(ir, layer.base_weight) {
                error == GraphIRError::Op(GraphIROperationError::GradientNotAvailable)
            } else if layer.input.shape.cols != 1 {
                error == GraphIRError::Op(
                    GraphIROperationError::InvalidInputShape(layer.input.shape),
                )
            } else {
                let columns = layer.input.shape.rows * (layer.grid_size + layer.spline_order);
                let outputs = layer.spline_weight.shape.rows;
                let base = Shape { rows: outputs, cols: layer.input.shape.rows };
                let (found, expected) = if layer.spline_weight.shape.cols != columns {
                    (layer.spline_weight.shape, Shape { rows: outputs, cols: columns as usize })
                } else if layer.base_weight.shape != base {
                    (layer.base_weight.shape, base)
                } else {
                    (
                        layer.grid.shape,
                        Shape {
                            rows: (layer.grid_size + 2 * layer.spline_order + 1) as usize,
                            cols: 1,
                        },
                    )
                };
                error == GraphIRError::Op(
                    GraphIROperationError::MismatchedInputShapes { found, expected },
                )
            }
        }),
{
}

/// The product of two matrices, each as it is or transposed: as many columns on the
/// left as rows on the right, and the rows of the left with the columns of the
/// right.
pub proof fn product_shape(op: Matmul)
    ensures
        ({
            let (rows, inner) = if op.transa {
                (op.a.shape.cols, op.a.shape.rows)
            } else {
                (op.a.shape.rows, op.a.shape.cols)
            };
            let (other, cols) = if op.transb {
                (op.b.shape.cols, op.b.shape.rows)
            } else {
                (op.b.shape.rows, op.b.shape.cols)
            };
            op.shape_in() == (if inner == other {
                Ok::<Shape, GraphIRError>(Shape { rows, cols })
            } else {
                Err(
                    GraphIRError::Op(
                        GraphIROperationError::MismatchedInputShapes {
                            found: Shape { rows: other, cols },
                            expected: Shape { rows: inner, cols },
                        },
                    ),
                )
            })
        }),
{
}

/// Two halves of a matrix have the same number of rows, or there are none.
pub proof fn halves_shape(op: PairwiseMul)
    ensures
        op.shape_in() matches Ok(shape) ==> {
            &&& shape.rows + shape.rows == op.input.shape.rows
            &&& shape.cols == op.input.shape.cols
        },
        op.shape_in() is Err <==> op.input.shape.rows % 2 == 1,
        op.shape_in() matches Err(e) ==> e == GraphIRError::Op(
            GraphIROperationError::InvalidInputShape(op.input.shape),
        ),
{
}

/// Matrices on top of each other have the same number of columns.
pub proof fn stack_shape(op: Concat)
    requires
        op.a.shape.rows + op.b.shape.rows <= usize::MAX,
    ensures
        op.shape_in() matches Ok(shape) ==> {
            &&& shape.rows == op.a.shape.rows + op.b.shape.rows
            &&& shape.cols == op.a.shape.cols
        },
        op.shape_in() is Err <==> op.a.shape.cols != op.b.shape.cols,
        op.shape_in() matches Err(e) ==> e == GraphIRError::Op(
            GraphIROperationError::MismatchedInputShapes {
                found: op.b.shape,
                expected: Shape { rows: op.b.shape.rows, cols: op.a.shape.cols },
            },
        ),
{
}

/// The nodes that an operation takes, and the shape of what the other operations
/// yield.
pub proof fn nodes_taken<T>(op: Operation<T>, ir: GraphIR<T>)
    ensures
        op.is_leaf() ==> op.parents() == Seq::<AnnotatedNode>::empty(),
        op matches Operation::Matmul(o) ==> op.parents() == seq![o.a, o.b] && op.shape_in(ir)
            == o.shape_in(),
        op matches Operation::PairwiseMul(o) ==> op.parents() == seq![o.input] && op.shape_in(ir)
            == o.shape_in(),
        op matches Operation::Concat(o) ==> op.parents() == seq![o.a, o.b] && op.shape_in(ir)
            == o.shape_in(),
        op matches Operation::Unary(o) ==> op.parents() == seq![o.input] && op.shape_in(ir) == Ok::<
            Shape,
            GraphIRError,
        >(o.input.shape),
        op matches Operation::LinearCombination(o) ==> {
            &&& op.parents().len() == o.items@.len()
            &&& forall|i: int|
                0 <= i < o.items@.len() ==> (#[trigger] op.parents()[i]).idx == o.items@[i].0
                    && op.parents()[i].shape == o.shape
            &&& op.shape_in(ir) == Ok::<Shape, GraphIRError>(o.shape)
        },
        op matches Operation::BSplineBasis(o) ==> op.parents() == seq![o.input, o.grid]
            && op.shape_in(ir) == o.shape_in(ir),
        op matches Operation::ReluKanBasis(o) ==> op.parents() == seq![o.input, o.grid]
            && op.shape_in(ir) == o.shape_in(ir),
        op matches Operation::FusedKanLayer(o) ==> op.parents() == seq![
            o.input,
            o.grid,
            o.spline_weight,
            o.base_weight,
        ] && op.shape_in(ir) == o.shape_in(ir),
        op.is_leaf() <==> op is Input || op is Weights || op is Constant,
{
}

/// What is wrong with the parents of an operation: the first of them that is not
/// there or has another shape than it is said to have.
pub proof fn first_wrong_parent_is_reported<T>(
    ir: GraphIR<T>,
    op: Operation<T>,
    at: int,
)
    requires
        0 <= at < op.parents().len(),
        forall|j: int|
            0 <= j < at ==> (#[trigger] op.parents()[j]).idx.0 < ir.nodes.len()
                && ir.nodes[op.parents()[j].idx.0 as int].data.shape == op.parents()[j].shape,
        op.parents()[at].idx.0 >= ir.nodes.len() || ir.nodes[op.parents()[at].idx.0 as int].data.shape
            != op.parents()[at].shape,
    ensures
        ir.result(op) == Err::<NodeData, GraphIRError>(
            if op.parents()[at].idx.0 >= ir.nodes.len() {
                GraphIRError::NodeDoesNotExist
            } else {
                GraphIRError::NodeDataDoesNotMatchExpected
            },
        ),
{
    lemma_parents_pass(ir, op.parents(), 0, at);
}

/// Parents that are in order are passed over.
proof fn lemma_parents_pass<T>(
    ir: GraphIR<T>,
    parents: Seq<AnnotatedNode>,
    from: int,
    to: int,
)
    requires
        0 <= from <= to <= parents.len(),
        forall|j: int|
            from <= j < to ==> (#[trigger] parents[j]).idx.0 < ir.nodes.len()
                && ir.nodes[parents[j].idx.0 as int].data.shape == parents[j].shape,
    ensures
        parent_error(ir, parents, from) == parent_error(ir, parents, to),
    decreases to - from,
{
    if from < to {
        assert(parents[from].idx.0 < ir.nodes.len());
        lemma_parents_pass(ir, parents, from + 1, to);
    }
}

/// Where all parents are in order, a node has the shape that its operation yields
/// and is dense. It is trained if one of the parents is, and batched if one of them
/// is. An operation that does not take its inputs has no result.
pub proof fn data_of_node<T>(ir: GraphIR<T>, op: Operation<T>)
    requires
        forall|j: int|
            0 <= j < op.parents().len() ==> (#[trigger] op.parents()[j]).idx.0 < ir.nodes.len()
                && ir.nodes[op.parents()[j].idx.0 as int].data.shape == op.parents()[j].shape,
    ensures
        op.shape_in(ir) matches Err(e) ==> ir.result(op) == Err::<NodeData, GraphIRError>(e),
        op.shape_in(ir) matches Ok(shape) ==> ir.result(op) matches Ok(data) && {
            &&& data.shape == shape
            &&& data.info.sparse is None
            &&& data.info.requires_grad <==> exists|j: int|
                0 <= j < op.parents().len() && ir.nodes[(
                #[trigger] op.parents()[j]).idx.0 as int].data.info.requires_grad
            &&& data.info.batched <==> exists|j: int|
                0 <= j < op.parents().len() && ir.nodes[(
                #[trigger] op.parents()[j]).idx.0 as int].data.info.batched
        },
{
    let parents = op.parents();
    lemma_parents_pass(ir, parents, 0, parents.len() as int);
    if let Ok(shape) = op.shape_in(ir) {
        let data = derived_data(ir, parents, shape);
        if data.info.requires_grad {
            let j = choose|j: int|
                0 <= j < parents.len() && ir.data((#[trigger] parents[j]).idx).info.requires_grad;
            assert(ir.nodes[parents[j].idx.0 as int].data.info.requires_grad);
        }
        if data.info.batched {
            let j = choose|j: int|
                0 <= j < parents.len() && ir.data((#[trigger] parents[j]).idx).info.batched;
            assert(ir.nodes[parents[j].idx.0 as int].data.info.batched);
        }
    }
}

/// When the operation of a node can be replaced by another one: the node is there,
/// and the other operation has the same result and takes earlier nodes only.
pub proof fn when_replaceable<T>(ir: GraphIR<T>, target: NodeId, op: Operation<T>)
    ensures
        ir.replacement(target, op) is Ok <==> {
            &&& target.0 < ir.nodes.len()
            &&& ir.result(op) == Ok::<NodeData, GraphIRError>(ir.nodes[target.0 as int].data)
            &&& forall|j: int|
                0 <= j < op.parents().len() ==> (#[trigger] op.parents()[j]).idx.0 < target.0
        },
        target.0 >= ir.nodes.len() ==> ir.replacement(target, op) == Err::<(), GraphIRError>(
            GraphIRError::NodeDoesNotExist,
        ),
        target.0 < ir.nodes.len() ==> (ir.result(op) matches Err(e) ==> ir.replacement(target, op)
            == Err::<(), GraphIRError>(e)),
        target.0 < ir.nodes.len() && ir.result(op) is Ok && (exists|j: int|
            0 <= j < op.parents().len() && (#[trigger] op.parents()[j]).idx.0 >= target.0)
            ==> ir.replacement(target, op) == Err::<(), GraphIRError>(GraphIRError::Cyclic),
        target.0 < ir.nodes.len() && ir.result(op) is Ok && (forall|j: int|
            0 <= j < op.parents().len() ==> (#[trigger] op.parents()[j]).idx.0 < target.0)
            && ir.result(op)->Ok_0 != ir.nodes[target.0 as int].data ==> ir.replacement(target, op)
            == Err::<(), GraphIRError>(GraphIRError::NodeDataDoesNotMatchExpected),
{
}

/// The number of times that a node is used grows with each node by the number of
/// times that it is among the parents of that node.
pub proof fn uses_add_up<T>(
    before: GraphIR<T>,
    after: GraphIR<T>,
    node: IrNode<T>,
    id: NodeId,
)
    requires
        after.nodes@ == before.nodes@.push(node),
    ensures
        after.uses(id) == before.uses(id) + node.op.parents().filter(
            |parent: AnnotatedNode| parent.idx == id,
        ).len(),
{
    let parents = node.op.parents();
    lemma_uses_kept(before, after, node, id, before.nodes@.len());
    lemma_occurrences_filter(parents, id, parents.len());
    assert(parents.take(parents.len() as int) =~= parents);
    assert(after.nodes@[before.nodes@.len() as int] == node);
}

/// In a graph without nodes, no node is used.
pub proof fn nothing_used_in_empty_graph<T>(ir: GraphIR<T>, id: NodeId)
    requires
        ir.nodes@.len() == 0,
    ensures
        ir.uses(id) == 0,
{
}

/// Earlier nodes use a node as often as before.
proof fn lemma_uses_kept<T>(
    before: GraphIR<T>,
    after: GraphIR<T>,
    node: IrNode<T>,
    id: NodeId,
    n: nat,
)
    requires
        after.nodes@ == before.nodes@.push(node),
        n <= before.nodes@.len(),
    ensures
        after.uses_before(id, n) == before.uses_before(id, n),
    decreases n,
{
    if n > 0 {
        lemma_uses_kept(before, after, node, id, (n - 1) as nat);
        assert(after.nodes@[n - 1] == before.nodes@[n - 1]);
    }
}

/// Occurrences are what a filter leaves.
proof fn lemma_occurrences_filter(parents: Seq<AnnotatedNode>, id: NodeId, n: nat)
    requires
        n <= parents.len(),
    ensures
        occurrences(parents, id, n) == parents.take(n as int).filter(
            |parent: AnnotatedNode| parent.idx == id,
        ).len(),
    decreases n,
{
    reveal(Seq::filter);
    let same = |parent: AnnotatedNode| parent.idx == id;
    if n > 0 {
        lemma_occurrences_filter(parents, id, (n - 1) as nat);
        let part = parents.take(n as int);
        assert(part.drop_last() =~= parents.take(n - 1));
        assert(part.last() == parents[n - 1]);
    } else {
        assert(parents.take(0) =~= Seq::<AnnotatedNode>::empty());
    }
}

} // verus!
