//! Theorems about layers as they are created and applied.

use vstd::prelude::*;

use super::fusion::{silu_layer_is_recognised, trained, trained_layer_is_fused};
use super::grid::support_grids_agree;
use crate::basis::spline::num_knots;
use crate::cuda::kan::{fused, kan_layer_at, FusedKanLayer};
use crate::graph::builder::GraphBuilder;
use crate::graph::ir::operation::Operation;
use crate::graph::ir::{AnnotatedNode, GraphIRError};
use crate::nn::activation::{BaseActivation, Linear, Screlu, Silu};
use crate::nn::grid::{support_ends_from_starts, support_starts, uniform_knots};
use crate::nn::kan::KanLayer;
use crate::nn::relu_kan::ReluKanLayer;
use crate::scalar::{one, Algebra, Scalar};
use crate::tensor::Shape;

verus! {

/// Whether a node is a dense column with `in_features` entries.
pub open spec fn is_dense_column<T>(
    builder: GraphBuilder<T>,
    node: AnnotatedNode,
    in_features: usize,
) -> bool {
    &&& builder.knows(node)
    &&& node.shape == (Shape { rows: in_features, cols: 1 })
    &&& builder.ir.data(node.idx).info.sparse is None
}

/// A KAN layer can be applied to every dense column of its input dimension, with
/// any activation function in its base path that takes the column as it is.
pub proof fn kan_layer_takes_columns<T: Scalar>(
    layer: KanLayer,
    builder: GraphBuilder<T>,
    in_features: usize,
    out_features: usize,
    input: AnnotatedNode,
)
    requires
        layer.belongs_to(builder, in_features, out_features),
        is_dense_column(builder, input, in_features),
    ensures
        layer.spline_path_fits(builder, input),
        layer.base_weight is Some ==> {
            &&& layer.base_path_fits(builder, input, Linear)
            &&& layer.base_path_fits(builder, input, Screlu)
            &&& 2 * in_features <= usize::MAX ==> layer.base_path_fits(builder, input, Silu)
        },
{
}

/// A KAN layer stays where it is when a graph grows.
pub proof fn kan_layer_stays<T>(
    layer: KanLayer,
    before: GraphBuilder<T>,
    after: GraphBuilder<T>,
    in_features: usize,
    out_features: usize,
)
    requires
        layer.belongs_to(before, in_features, out_features),
        after.extends(before),
    ensures
        layer.belongs_to(after, in_features, out_features),
{
    after.lemma_extends_knows(before, layer.spline_weight);
    after.lemma_extends_knows(before, layer.grid);
    if let Some(weight) = layer.base_weight {
        after.lemma_extends_knows(before, weight);
    }
}

/// A ReLU-KAN layer can be applied to every dense column of its input dimension.
pub proof fn relu_kan_layer_takes_columns<T: Scalar>(
    layer: ReluKanLayer,
    builder: GraphBuilder<T>,
    in_features: usize,
    out_features: usize,
    input: AnnotatedNode,
)
    requires
        layer.belongs_to(builder, in_features, out_features),
        is_dense_column(builder, input, in_features),
    ensures
        layer.takes(builder, input),
{
}

/// A KAN layer that is applied to a dense column with SiLU in its base path
/// becomes one operation.
pub proof fn silu_layer_is_fused<T: Scalar>(
    layer: KanLayer,
    before: GraphBuilder<T>,
    after: GraphBuilder<T>,
    in_features: usize,
    out_features: usize,
    input: AnnotatedNode,
    r: AnnotatedNode,
)
    requires
        before.wf(),
        after.wf(),
        layer.belongs_to(before, in_features, out_features),
        layer.base_weight is Some,
        is_dense_column(before, input, in_features),
        2 * in_features <= usize::MAX,
        layer.applied(before, after, input, Silu, r),
        one::<T>().same(one()),
    ensures
        fused(after.ir, r.idx, kan_layer_at(after.ir, r.idx)).0 == Ok::<bool, GraphIRError>(true),
        kan_layer_at(after.ir, r.idx) == Some(
            FusedKanLayer {
                input,
                grid: layer.grid,
                spline_weight: layer.spline_weight,
                base_weight: layer.base_weight->0,
                grid_size: layer.grid_size,
                spline_order: layer.spline_order,
            },
        ),
{
    kan_layer_takes_columns(layer, before, in_features, out_features, input);
    silu_layer_is_recognised(layer, before, after, input, r);
    kan_layer_stays(layer, before, after, in_features, out_features);
    assert(after.ir.nodes@.len() == after.ir.nodes.len());
    let added: Seq<Operation<T>> = Silu.added(before.size() + 2, input);
    assert(after.ir.contains(r.idx));
    let found = kan_layer_at(after.ir, r.idx)->0;
    assert(trained(after.ir, found.spline_weight));
    assert(trained(after.ir, found.base_weight));
    trained_layer_is_fused(after.ir, r.idx, found);
}

/// The grid of a KAN layer is the one that its table is sampled over: `made`, the
/// uniform knots of the same range.
pub proof fn kan_grid_is_made_grid<T: Algebra>(
    layer: KanLayer,
    builder: GraphBuilder<T>,
    grid_range: (T, T),
    made: Seq<T>,
)
    requires
        layer.has_grid(builder, grid_range.0, grid_range.1),
        made == uniform_knots(
            layer.grid_size,
            layer.spline_order,
            grid_range.0,
            grid_range.1,
        ),
    ensures
        made.len() == num_knots(layer.grid_size as int, layer.spline_order as int),
        builder.ir.op(layer.grid.idx) matches Operation::Constant(vals) && vals@ == made,
{
}

/// The grid of a ReLU-KAN layer is the one that its table is sampled over: `starts`
/// and then `ends`, where each end is measured from its start.
pub proof fn relu_kan_grid_is_made_grid(
    layer: ReluKanLayer,
    builder: GraphBuilder<real>,
    grid_range: (real, real),
    starts: Seq<real>,
    ends: Seq<real>,
)
    requires
        layer.has_grid(builder, grid_range.0, grid_range.1),
        layer.grid_size > 0,
        layer.grid_size + layer.support_width <= usize::MAX,
        starts == support_starts(
            layer.grid_size,
            layer.support_width,
            grid_range.0,
            grid_range.1,
        ),
        ends == support_ends_from_starts(
            layer.grid_size,
            layer.support_width,
            grid_range.0,
            grid_range.1,
        ),
    ensures
        builder.ir.op(layer.grid.idx) matches Operation::Constant(vals) && vals@ == starts + ends,
{
    support_grids_agree(layer.grid_size, layer.support_width, grid_range.0, grid_range.1);
}

} // verus!
