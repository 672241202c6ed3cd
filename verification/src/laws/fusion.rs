//! Theorems about the pass that makes one operation of a KAN layer.

use vstd::prelude::*;

use crate::cuda::kan::{
    base_path, fused, kan_layer_at, kan_pattern, lemma_parents_exist, plain_sum, silu_argument,
    spline_path, FusedKanLayer,
};
use crate::graph::builder::GraphBuilder;
use crate::graph::ir::operation::Operation;
use crate::graph::ir::{
    derived_data, occurrences, parent_error, AnnotatedNode, GraphIR, GraphIRError, NodeData,
    NodeInfo,
};
use crate::graph::NodeId;
use crate::nn::activation::{BaseActivation, Silu};
use crate::nn::kan::KanLayer;
use crate::scalar::{one, Algebra, Scalar};
use crate::tensor::Shape;

verus! {

/// Whether a node holds trained weights, dense and the same for the whole batch.
pub open spec fn trained<T>(ir: GraphIR<T>, node: AnnotatedNode) -> bool {
    ir.data(node.idx).info == (NodeInfo { requires_grad: true, sparse: None, batched: false })
}

/// What is known of a node that is in order and no leaf.
proof fn lemma_inner_node<T>(ir: GraphIR<T>, id: NodeId)
    requires
        ir.wf(),
        ir.contains(id),
        !ir.op(id).is_leaf(),
    ensures
        ir.op(id).fits(),
        ir.op(id).shape_in(ir) is Ok,
        ir.data(id) == derived_data(ir, ir.op(id).parents(), ir.op(id).shape_in(ir)->Ok_0),
        forall|j: int|
            0 <= j < ir.op(id).parents().len() ==> {
                let parent = #[trigger] ir.op(id).parents()[j];
                &&& parent.idx.0 < id.0
                &&& ir.contains(parent.idx)
                &&& ir.data(parent.idx).shape == parent.shape
            },
{
    assert(ir.node_wf(id.0 as int));
    lemma_parents_exist(ir, ir.op(id));
}

/// The data of a node with one parent.
proof fn lemma_one_info<T>(ir: GraphIR<T>, a: AnnotatedNode, shape: Shape)
    ensures
        derived_data(ir, seq![a], shape).info.requires_grad == ir.data(a.idx).info.requires_grad,
        derived_data(ir, seq![a], shape).info.batched == ir.data(a.idx).info.batched,
{
    let parents = seq![a];
    assert(parents[0] == a);
}

/// The data of a node with two parents.
proof fn lemma_two_info<T>(ir: GraphIR<T>, a: AnnotatedNode, b: AnnotatedNode, shape: Shape)
    ensures
        derived_data(ir, seq![a, b], shape).info.requires_grad == (ir.data(
            a.idx,
        ).info.requires_grad || ir.data(b.idx).info.requires_grad),
        derived_data(ir, seq![a, b], shape).info.batched == (ir.data(a.idx).info.batched
            || ir.data(b.idx).info.batched),
{
    let parents = seq![a, b];
    assert(parents[0] == a && parents[1] == b);
}

/// What the product at the end of a spline path looks like.
proof fn lemma_spline_end<T>(ir: GraphIR<T>, spline: NodeId, layer: FusedKanLayer)
    requires
        ir.wf(),
        ir.contains(spline),
        spline_path(ir, spline) matches Some((weights, basis))
            && weights == layer.spline_weight && basis.input == layer.input && basis.grid
            == layer.grid && basis.grid_size == layer.grid_size && basis.spline_order
            == layer.spline_order,
        trained(ir, layer.spline_weight),
    ensures
        ir.data(spline) == (NodeData {
            shape: Shape { rows: layer.spline_weight.shape.rows, cols: 1 },
            info: NodeInfo {
                requires_grad: true,
                sparse: None,
                batched: ir.data(layer.input.idx).info.batched,
            },
        }),
        layer.fits(),
        layer.input.shape.cols == 1,
        layer.grid.shape == (Shape { rows: layer.knots() as usize, cols: 1 }),
        layer.input.idx.0 < spline.0,
        layer.grid.idx.0 < spline.0,
        layer.spline_weight.idx.0 < spline.0,
        ir.data(layer.input.idx).shape == layer.input.shape,
        ir.data(layer.grid.idx).shape == layer.grid.shape,
        ir.data(layer.spline_weight.idx).shape == layer.spline_weight.shape,
        ir.data(layer.input.idx).info.sparse is None,
        ir.data(layer.grid.idx).info.sparse is None,
        !ir.data(layer.grid.idx).info.batched,
{
    lemma_inner_node(ir, spline);
    let product = ir.op(spline)->Matmul_0;
    let parents = ir.op(spline).parents();
    assert(parents[0] == product.a && parents[1] == product.b);
    lemma_two_info(ir, product.a, product.b, ir.op(spline).shape_in(ir)->Ok_0);
    lemma_inner_node(ir, product.b.idx);
    let basis = ir.op(product.b.idx)->BSplineBasis_0;
    let below = ir.op(product.b.idx).parents();
    assert(below[0] == basis.input && below[1] == basis.grid);
    lemma_two_info(ir, basis.input, basis.grid, ir.op(product.b.idx).shape_in(ir)->Ok_0);
}

/// What the product at the end of a base path looks like.
proof fn lemma_base_end<T>(ir: GraphIR<T>, base: NodeId, weights: AnnotatedNode, input: NodeId)
    requires
        ir.wf(),
        ir.contains(base),
        base_path(ir, base) == Some((weights, input)),
        trained(ir, weights),
    ensures
        ir.data(base).info == (NodeInfo {
            requires_grad: true,
            sparse: None,
            batched: ir.data(input).info.batched,
        }),
        weights.idx.0 < base.0,
        ir.data(weights.idx).shape == weights.shape,
{
    lemma_inner_node(ir, base);
    let product = ir.op(base)->Matmul_0;
    let parents = ir.op(base).parents();
    assert(parents[0] == product.a && parents[1] == product.b);
    lemma_two_info(ir, product.a, product.b, ir.op(base).shape_in(ir)->Ok_0);
    let silu = product.b.idx;
    lemma_inner_node(ir, silu);
    let halves = ir.op(silu)->PairwiseMul_0;
    assert(ir.op(silu).parents()[0] == halves.input);
    lemma_one_info(ir, halves.input, ir.op(silu).shape_in(ir)->Ok_0);
    let both = halves.input.idx;
    lemma_inner_node(ir, both);
    let pair = ir.op(both)->Concat_0;
    assert(ir.op(both).parents()[0] == pair.a && ir.op(both).parents()[1] == pair.b);
    lemma_two_info(ir, pair.a, pair.b, ir.op(both).shape_in(ir)->Ok_0);
    let gate = pair.b.idx;
    lemma_inner_node(ir, gate);
    let unary = ir.op(gate)->Unary_0;
    assert(ir.op(gate).parents()[0] == unary.input);
    lemma_one_info(ir, unary.input, ir.op(gate).shape_in(ir)->Ok_0);
}

/// The fused operation has the result that the sum of the two paths had.
#[verifier::spinoff_prover]
proof fn lemma_pattern_fuses<T: Algebra>(
    ir: GraphIR<T>,
    target: NodeId,
    spline: NodeId,
    base: NodeId,
    layer: FusedKanLayer,
)
    requires
        ir.wf(),
        ir.contains(target),
        plain_sum(ir, target) == Some((spline, base)) || plain_sum(ir, target) == Some(
            (base, spline),
        ),
        kan_pattern(ir, spline, base) == Some(layer),
        trained(ir, layer.spline_weight),
        trained(ir, layer.base_weight),
    ensures
        ir.replacement(target, Operation::FusedKanLayer(layer)) is Ok,
{
    lemma_inner_node(ir, target);
    let sum = ir.op(target)->LinearCombination_0;
    let parents = ir.op(target).parents();
    assert(parents =~= seq![parents[0], parents[1]]);
    lemma_two_info(ir, parents[0], parents[1], sum.shape);
    lemma_spline_end(ir, spline, layer);
    lemma_base_end(ir, base, layer.base_weight, layer.input.idx);
    let op = Operation::<T>::FusedKanLayer(layer);
    let fused_parents = op.parents();
    assert(fused_parents[0] == layer.input && fused_parents[1] == layer.grid);
    assert(fused_parents[2] == layer.spline_weight && fused_parents[3] == layer.base_weight);
    assert(parent_error(ir, fused_parents, 4) is None);
    assert(parent_error(ir, fused_parents, 3) is None);
    assert(parent_error(ir, fused_parents, 2) is None);
    assert(parent_error(ir, fused_parents, 1) is None);
    assert(parent_error(ir, fused_parents, 0) is None);
    let shape = Shape { rows: layer.spline_weight.shape.rows, cols: 1 };
    assert(op.shape_in(ir) == Ok::<Shape, GraphIRError>(shape));
    let data = derived_data(ir, fused_parents, shape);
    assert(data.info.requires_grad) by {
        assert(ir.data(fused_parents[2].idx).info.requires_grad);
    }
    assert(data.info.batched == ir.data(layer.input.idx).info.batched);
    assert(data == ir.data(target));
}

/// A KAN layer whose weights are trained, dense and the same for the whole batch
/// is always fused.
pub proof fn trained_layer_is_fused<T: Algebra>(
    ir: GraphIR<T>,
    target: NodeId,
    layer: FusedKanLayer,
)
    requires
        ir.wf(),
        ir.contains(target),
        kan_layer_at(ir, target) == Some(layer),
        trained(ir, layer.spline_weight),
        trained(ir, layer.base_weight),
    ensures
        fused(ir, target, kan_layer_at(ir, target)).0 == Ok::<bool, GraphIRError>(true),
        fused(ir, target, kan_layer_at(ir, target)).1[target.0 as int].op
            == Operation::<T>::FusedKanLayer(layer),
{
    let (a, b) = plain_sum(ir, target)->0;
    if kan_pattern(ir, a, b) == Some(layer) {
        lemma_pattern_fuses(ir, target, a, b, layer);
    } else {
        lemma_pattern_fuses(ir, target, b, a, layer);
    }
}

/// Where a layer has been fused, there is nothing left to fuse.
pub proof fn fused_only_once<T: Algebra>(before: GraphIR<T>, after: GraphIR<T>, target: NodeId)
    requires
        before.contains(target),
        fused(before, target, kan_layer_at(before, target)) == (
            Ok::<bool, GraphIRError>(true),
            after.nodes@,
        ),
    ensures
        kan_layer_at(after, target) is None,
{
    let layer = kan_layer_at(before, target)->0;
    assert(after.nodes@[target.0 as int].op == Operation::<T>::FusedKanLayer(layer));
}

/// Fusing changes no other node.
pub proof fn fusing_is_local<T: Algebra>(before: GraphIR<T>, target: NodeId, i: int)
    requires
        before.contains(target),
        0 <= i < before.nodes.len(),
        i != target.0,
    ensures
        fused(before, target, kan_layer_at(before, target)).1.len() == before.nodes@.len(),
        fused(before, target, kan_layer_at(before, target)).1[i] == before.nodes@[i],
        fused(before, target, kan_layer_at(before, target)).1[target.0 as int].data
            == before.data(target),
{
}

/// Nodes in front of a node do not use it.
proof fn lemma_unused_before<T>(ir: GraphIR<T>, id: NodeId, n: nat)
    requires
        ir.wf(),
        n <= id.0,
        n <= ir.nodes@.len(),
    ensures
        ir.uses_before(id, n) == 0,
    decreases n,
{
    if n > 0 {
        lemma_unused_before(ir, id, (n - 1) as nat);
        assert(ir.node_wf(n - 1));
        let op = ir.nodes@[n - 1].op;
        let parents = op.parents();
        assert forall|j: int| 0 <= j < parents.len() implies (#[trigger] parents[j]).idx.0
            < id.0 by {
            if op.is_leaf() {
                assert(parents.len() == 0);
            }
        }
        lemma_absent(parents, id, parents.len());
    }
}

/// A node that is not among the parents does not occur.
proof fn lemma_absent(parents: Seq<AnnotatedNode>, id: NodeId, n: nat)
    requires
        n <= parents.len(),
        forall|j: int| 0 <= j < parents.len() ==> (#[trigger] parents[j]).idx != id,
    ensures
        occurrences(parents, id, n) == 0,
    decreases n,
{
    if n > 0 {
        lemma_absent(parents, id, (n - 1) as nat);
    }
}

/// The uses by a node with one parent.
proof fn lemma_uses_one<T>(ir: GraphIR<T>, id: NodeId, n: nat, a: NodeId)
    requires
        ir.nodes@[n as int].op.parents().len() == 1,
        ir.nodes@[n as int].op.parents()[0].idx == a,
    ensures
        ir.uses_before(id, n + 1) == ir.uses_before(id, n) + (if a == id {
            1nat
        } else {
            0nat
        }),
{
    let parents = ir.nodes@[n as int].op.parents();
    assert(occurrences(parents, id, 0) == 0);
    assert(occurrences(parents, id, 1) == (if a == id {
        1nat
    } else {
        0nat
    }));
}

/// The uses by a node with two parents.
proof fn lemma_uses_two<T>(ir: GraphIR<T>, id: NodeId, n: nat, a: NodeId, b: NodeId)
    requires
        ir.nodes@[n as int].op.parents().len() == 2,
        ir.nodes@[n as int].op.parents()[0].idx == a,
        ir.nodes@[n as int].op.parents()[1].idx == b,
    ensures
        ir.uses_before(id, n + 1) == ir.uses_before(id, n) + (if a == id {
            1nat
        } else {
            0nat
        }) + (if b == id {
            1nat
        } else {
            0nat
        }),
{
    let parents = ir.nodes@[n as int].op.parents();
    assert(occurrences(parents, id, 0) == 0);
    assert(occurrences(parents, id, 1) == (if a == id {
        1nat
    } else {
        0nat
    }));
    assert(occurrences(parents, id, 2) == occurrences(parents, id, 1) + (if b == id {
        1nat
    } else {
        0nat
    }));
}

/// Each inner node of a layer with SiLU in its base path is used once.
proof fn lemma_layer_uses<T: Scalar>(
    layer: KanLayer,
    before: GraphBuilder<T>,
    after: GraphBuilder<T>,
    input: AnnotatedNode,
    r: AnnotatedNode,
    i: nat,
)
    requires
        before.wf(),
        after.wf(),
        before.knows(input),
        before.knows(layer.grid),
        before.knows(layer.spline_weight),
        layer.base_weight is Some,
        before.knows(layer.base_weight->0),
        layer.applied(before, after, input, Silu, r),
        i < 6,
    ensures
        after.ir.uses(NodeId((before.size() + i) as usize)) == 1,
{
    let ir = after.ir;
    let n = before.size() as nat;
    let id = NodeId((n + i) as usize);
    let nodes = ir.nodes@;
    let added: Seq<Operation<T>> = Silu.added(n as int + 2, input);
    assert(ir.nodes@.len() == ir.nodes.len());
    assert(nodes[n as int + 2].op == added[0]);
    assert(nodes[n as int + 3].op == added[1]);
    assert(nodes[n as int + 4].op == added[2]);
    lemma_unused_before(ir, id, n);
    let weight = layer.base_weight->0;
    lemma_uses_two(ir, id, n, input.idx, layer.grid.idx);
    lemma_uses_two(ir, id, n + 1, layer.spline_weight.idx, NodeId(n as usize));
    lemma_uses_one(ir, id, n + 2, input.idx);
    lemma_uses_two(ir, id, n + 3, input.idx, NodeId((n + 2) as usize));
    lemma_uses_one(ir, id, n + 4, NodeId((n + 3) as usize));
    lemma_uses_two(ir, id, n + 5, weight.idx, NodeId((n + 4) as usize));
    lemma_uses_two(ir, id, n + 6, NodeId((n + 1) as usize), NodeId((n + 5) as usize));
    assert(ir.uses(id) == ir.uses_before(id, n + 7));
}

/// The pass recognises a KAN layer that was applied with SiLU in its base path.
pub proof fn silu_layer_is_recognised<T: Scalar>(
    layer: KanLayer,
    before: GraphBuilder<T>,
    after: GraphBuilder<T>,
    input: AnnotatedNode,
    r: AnnotatedNode,
)
    requires
        before.wf(),
        after.wf(),
        layer.spline_path_fits(before, input),
        layer.base_path_fits(before, input, Silu),
        layer.applied(before, after, input, Silu, r),
        one::<T>().same(one()),
    ensures
        kan_layer_at(after.ir, r.idx) == Some(
            FusedKanLayer {
                input,
                grid: layer.grid,
                spline_weight: layer.spline_weight,
                base_weight: layer.base_weight->0,
                grid_size: layer.grid_size,
                spline_order: layer.spline_order,
            },
        ),
{
    let ir = after.ir;
    let n = before.size();
    let nodes = ir.nodes@;
    let added: Seq<Operation<T>> = Silu.added(n + 2, input);
    assert(ir.nodes@.len() == ir.nodes.len());
    assert(nodes[n + 2].op == added[0]);
    assert(nodes[n + 3].op == added[1]);
    assert(nodes[n + 4].op == added[2]);
    lemma_layer_uses(layer, before, after, input, r, 0);
    lemma_layer_uses(layer, before, after, input, r, 1);
    lemma_layer_uses(layer, before, after, input, r, 2);
    lemma_layer_uses(layer, before, after, input, r, 3);
    lemma_layer_uses(layer, before, after, input, r, 4);
    lemma_layer_uses(layer, before, after, input, r, 5);
    let spline = NodeId((n + 1) as usize);
    let base = NodeId((n + 5) as usize);
    assert(plain_sum(ir, r.idx) == Some((spline, base)));
    assert(spline_path(ir, spline) == Some(
        (layer.spline_weight, layer.basis(input)),
    ));
    assert(silu_argument(ir, NodeId((n + 4) as usize)) == Some(input.idx));
    assert(base_path(ir, base) == Some((layer.base_weight->0, input.idx)));
}

} // verus!
