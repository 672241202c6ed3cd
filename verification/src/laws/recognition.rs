//! Which graphs the pass that fuses KAN layers takes for a layer, and what it makes
//! of them.

use vstd::prelude::*;

use crate::cuda::kan::{fused, kan_layer_at, kan_pattern, plain_sum, FusedKanLayer};
use crate::graph::ir::operation::{DiffableFromOutput, Operation, UnaryOp};
use crate::graph::ir::{GraphIR, GraphIRError, IrNode};
use crate::graph::NodeId;
use crate::scalar::{one, Algebra};

verus! {

/// Whether `layer` is the layer whose spline path ends in `spline` and whose base
/// path ends in `base`.
///
/// The spline path is a product of weights with the values of a spline basis. The
/// base path is a product of weights with the products of the halves of a node that
/// has the input on top of its logistic function. Nothing is transposed, no node in
/// between is used elsewhere, both paths take the same input, and the weights have
/// the shapes of one layer.
pub open spec fn ends_layer<T>(
    ir: GraphIR<T>,
    spline: NodeId,
    base: NodeId,
    layer: FusedKanLayer,
) -> bool {
    &&& ir.op(spline) matches Operation::Matmul(outer)
    &&& ir.op(outer.b.idx) matches Operation::BSplineBasis(basis)
    &&& ir.op(base) matches Operation::Matmul(scaled)
    &&& ir.op(scaled.b.idx) matches Operation::PairwiseMul(halves)
    &&& ir.op(halves.input.idx) matches Operation::Concat(pair)
    &&& ir.op(pair.b.idx) matches Operation::Unary(gate)
    &&& gate.op == UnaryOp::DiffableFromOutput(DiffableFromOutput::Sigmoid)
    &&& !outer.transa && !outer.transb && !scaled.transa && !scaled.transb
    &&& ir.uses(spline) == 1 && ir.uses(outer.b.idx) == 1
    &&& ir.uses(base) == 1 && ir.uses(scaled.b.idx) == 1
    &&& ir.uses(halves.input.idx) == 1 && ir.uses(pair.b.idx) == 1
    &&& pair.a.idx == basis.input.idx && gate.input.idx == basis.input.idx
    &&& layer.input == basis.input && layer.grid == basis.grid
    &&& layer.spline_weight == outer.a && layer.base_weight == scaled.a
    &&& layer.grid_size == basis.grid_size && layer.spline_order == basis.spline_order
    &&& outer.a.shape.cols == basis.input.shape.rows * (basis.grid_size + basis.spline_order)
    &&& scaled.a.shape.rows == outer.a.shape.rows
    &&& scaled.a.shape.cols == basis.input.shape.rows
}

/// Two paths make up a layer if and only if they look as they should.
pub proof fn pattern_is_layer<T>(
    ir: GraphIR<T>,
    spline: NodeId,
    base: NodeId,
    layer: FusedKanLayer,
)
    ensures
        kan_pattern(ir, spline, base) == Some(layer) <==> ends_layer(ir, spline, base, layer),
{
}

/// Only a sum of two nodes, each with weight one, can be the end of a layer.
pub proof fn only_plain_sums_end_layers<T: Algebra>(ir: GraphIR<T>, target: NodeId)
    ensures
        plain_sum(ir, target) matches Some((a, b)) ==> ir.op(target) matches
            Operation::LinearCombination(sum) && {
            &&& sum.items@.len() == 2
            &&& sum.items@[0].0 == a && sum.items@[1].0 == b
            &&& sum.items@[0].1.same(one::<T>()) && sum.items@[1].1.same(one::<T>())
        },
        ir.op(target) matches Operation::LinearCombination(sum) ==> (sum.items@.len() == 2
            && sum.items@[0].1.same(one::<T>()) && sum.items@[1].1.same(one::<T>())
            ==> plain_sum(ir, target) is Some),
        plain_sum(ir, target) is None ==> kan_layer_at(ir, target) is None,
{
}

/// The layer that ends in a sum: its paths can be added up in either order.
pub proof fn layer_of_sum<T: Algebra>(
    ir: GraphIR<T>,
    target: NodeId,
    a: NodeId,
    b: NodeId,
    layer: FusedKanLayer,
)
    requires
        plain_sum(ir, target) == Some((a, b)),
    ensures
        ends_layer(ir, a, b, layer) ==> kan_layer_at(ir, target) == Some(layer),
        ends_layer(ir, b, a, layer) ==> kan_layer_at(ir, target) is Some,
        kan_layer_at(ir, target) == Some(layer) ==> ends_layer(ir, a, b, layer) || ends_layer(
            ir,
            b,
            a,
            layer,
        ),
{
    pattern_is_layer(ir, a, b, layer);
    pattern_is_layer(ir, b, a, layer);
}

/// What comes of an attempt to fuse: nothing where there is no layer, nothing but
/// an error where the layer cannot be put in the place of the node, and else the
/// whole layer in the place of the node.
pub proof fn what_fusing_does<T>(
    ir: GraphIR<T>,
    target: NodeId,
    layer: FusedKanLayer,
)
    requires
        target.0 < ir.nodes.len(),
    ensures
        fused(ir, target, None) == (Ok::<bool, GraphIRError>(false), ir.nodes@),
        ({
            let op = Operation::<T>::FusedKanLayer(layer);
            let (outcome, nodes) = fused(ir, target, Some(layer));
            match ir.replacement(target, op) {
                Ok(_) => {
                    &&& outcome == Ok::<bool, GraphIRError>(true)
                    &&& nodes.len() == ir.nodes@.len()
                    &&& nodes[target.0 as int] == (IrNode::<T> {
                        op,
                        data: ir.nodes[target.0 as int].data,
                    })
                    &&& forall|i: int|
                        0 <= i < nodes.len() && i != target.0 ==> nodes[i] == ir.nodes@[i]
                },
                Err(e) => outcome == Err::<bool, GraphIRError>(e) && nodes == ir.nodes@,
            }
        }),
{
}

} // verus!
