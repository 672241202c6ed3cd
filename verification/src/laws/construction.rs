//! What layers are made of: their weights, their grids, and the tables that are
//! sampled from them.

use vstd::prelude::*;

use super::arithmetic::real_root;
use super::grid::{knots_evenly_spaced, samples_evenly_spaced, supports_evenly_spaced};
use super::meaning::exponential_is_positive;
use super::numbers::{lemma_over_sign, lemma_quotient};
use crate::basis::spline::{basis_slope, basis_slopes, basis_value, basis_values};
use crate::graph::builder::{
    constant_data, input_data, node_at, weight_data, GraphBuilder, InitSettings, Weight,
};
use crate::graph::ir::operation::Operation;
use crate::graph::ir::AnnotatedNode;
use crate::graph::save::{Source, WeightStore};
use crate::nn::activation::BaseActivation;
use crate::nn::grid::{
    support_end, support_ends, support_ends_from_starts, support_start, support_starts,
    uniform_knots,
};
use crate::nn::kan::{base_stdev, is_normal_weight, spline_stdev, KanLayer};
use crate::nn::kan_lut::{self, evaluable, silu_value};
use crate::nn::lut::{sample_point, sample_points};
use crate::nn::relu_kan::ReluKanLayer;
use crate::nn::relu_kan_lut::{self, of_signed};
use crate::scalar::{zero, Algebra, Scalar};
use crate::tensor::Shape;

verus! {

/// Untrained spline weights are spread by a tenth over the square root of the number
/// of basis values.
pub proof fn spline_spread(width: usize, root: real)
    requires
        width > 0,
        root >= 0real,
        root * root == width as int as real,
    ensures
        spline_stdev::<real>(width) * (10real * root) == 1real,
{
    real_root(root, width as int as real);
    if root == 0real {
        assert(root * root == 0real) by (nonlinear_arith)
            requires
                root == 0real,
        ;
    }
    let tenth = 1real / 10real;
    let s = tenth / root;
    lemma_over_sign(tenth, root);
    assert(spline_stdev::<real>(width) == s);
    assert(s * (10real * root) == 10real * (s * root)) by (nonlinear_arith);
}

/// Untrained base weights are spread by the square root of two over the number of
/// input features.
pub proof fn base_spread(in_features: usize, root: real)
    requires
        in_features > 0,
        root >= 0real,
        root * root * (in_features as int as real) == 2real,
    ensures
        base_stdev::<real>(in_features) == root,
{
    lemma_quotient(2real, in_features as int as real, root * root);
    real_root(root, 2real / (in_features as int as real));
}

/// Weights that are drawn before training have their name, their node, mean zero,
/// and their spread.
pub proof fn drawn_weights<T: Algebra>(
    weight: Weight<T>,
    name: Seq<char>,
    node: AnnotatedNode,
    stdev: T,
)
    ensures
        is_normal_weight(weight, name, node, stdev) <==> {
            &&& weight.name@ == name
            &&& weight.node == node.idx
            &&& weight.init matches InitSettings::Normal { mean, stdev: spread } && mean == zero::<
                T,
            >() && spread == stdev
        },
{
}

/// What is known of new nodes: weights are trained and shared by the batch,
/// constants are shared and not trained, inputs are batched and not trained. All
/// are dense.
pub proof fn data_of_leaves(shape: Shape, i: usize)
    ensures
        weight_data(shape).shape == shape,
        weight_data(shape).info.requires_grad,
        !weight_data(shape).info.batched,
        weight_data(shape).info.sparse is None,
        constant_data(shape).shape == shape,
        !constant_data(shape).info.requires_grad,
        !constant_data(shape).info.batched,
        constant_data(shape).info.sparse is None,
        input_data(shape).shape == shape,
        !input_data(shape).info.requires_grad,
        input_data(shape).info.batched,
        input_data(shape).info.sparse is None,
        node_at(i as int, shape).idx.0 == i,
        node_at(i as int, shape).shape == shape,
{
}

/// What a graph that has grown has in common with the graph before: all nodes of
/// that graph, at their places, and its weights.
pub proof fn grown_graph<T>(before: GraphBuilder<T>, after: GraphBuilder<T>, i: int)
    requires
        after.extends(before),
        0 <= i < before.ir.nodes@.len(),
    ensures
        after.ir.nodes@.len() >= before.ir.nodes@.len(),
        after.ir.nodes@[i] == before.ir.nodes@[i],
        after.weights == before.weights,
{
    assert(after.ir.nodes@.take(before.size())[i] == after.ir.nodes@[i]);
}

/// Which nodes and weights a graph has.
pub proof fn nodes_and_weights<T>(builder: GraphBuilder<T>, node: AnnotatedNode, name: Seq<char>)
    ensures
        builder.knows(node) <==> node.idx.0 < builder.ir.nodes@.len()
            && builder.ir.nodes@[node.idx.0 as int].data.shape == node.shape,
        builder.has_weight(name) <==> exists|i: int|
            0 <= i < builder.weights@.len() && (#[trigger] builder.weights@[i]).name@ == name,
        builder.size() == builder.ir.nodes@.len(),
{
    if builder.has_weight(name) {
        let i = choose|i: int|
            0 <= i < builder.weights.len() && (#[trigger] builder.weights[i]).name@ == name;
        assert(builder.weights@[i].name@ == name);
    }
    if exists|i: int|
        0 <= i < builder.weights@.len() && (#[trigger] builder.weights@[i]).name@ == name {
        let i = choose|i: int|
            0 <= i < builder.weights@.len() && (#[trigger] builder.weights@[i]).name@ == name;
        assert(builder.weights[i].name@ == name);
    }
}

/// A layer that is applied leaves the graph as it was but for new nodes: two of the
/// spline path, those of the activation, and two behind them. The last one is the
/// output.
pub proof fn applied_layer_adds_nodes<T: Scalar, F: BaseActivation<T>>(
    layer: KanLayer,
    before: GraphBuilder<T>,
    after: GraphBuilder<T>,
    input: AnnotatedNode,
    activation: F,
    r: AnnotatedNode,
)
    requires
        layer.applied(before, after, input, activation, r),
    ensures
        after.ir.nodes@.take(before.ir.nodes@.len() as int) == before.ir.nodes@,
        after.weights == before.weights,
        after.ir.nodes@.len() == before.ir.nodes@.len() + 4 + activation.added(
            before.ir.nodes@.len() as int + 2,
            input,
        ).len(),
        r.idx.0 == after.ir.nodes@.len() - 1,
        r.shape.rows == layer.spline_weight.shape.rows,
        r.shape.cols == 1,
{
    assert(after.ir.nodes@.len() == after.ir.nodes.len());
}

/// Without a single basis function, only points below the only knot can be
/// evaluated. All other points always can.
pub proof fn points_that_can_be_evaluated<T: Algebra>(
    grid_size: usize,
    spline_order: usize,
    knots: Seq<T>,
    x: T,
)
    ensures
        grid_size + spline_order > 0 ==> evaluable(grid_size, spline_order, knots, x),
        grid_size + spline_order == 0 ==> (evaluable(grid_size, spline_order, knots, x)
            <==> !knots[0].at_most(x)),
{
}

/// The grid of a KAN layer holds `grid_size + 2 * spline_order + 1` knots, one
/// interval apart, the first of them `spline_order` intervals below the range.
pub proof fn grid_of_kan_layer(
    layer: KanLayer,
    builder: GraphBuilder<real>,
    min: real,
    max: real,
    n: int,
)
    requires
        layer.has_grid(builder, min, max),
        layer.grid_size > 0,
        layer.grid_size + 2 * layer.spline_order + 1 <= usize::MAX,
        0 <= n < layer.grid_size + 2 * layer.spline_order + 1,
    ensures
        builder.ir.data(layer.grid.idx).shape.rows == layer.grid_size + 2 * layer.spline_order + 1,
        builder.ir.data(layer.grid.idx).shape.cols == 1,
        !builder.ir.data(layer.grid.idx).info.requires_grad,
        !builder.ir.data(layer.grid.idx).info.batched,
        builder.ir.op(layer.grid.idx) matches Operation::Constant(vals) && {
            &&& vals@.len() == layer.grid_size + 2 * layer.spline_order + 1
            &&& vals@[n] == min + ((n - layer.spline_order) as real) * ((max - min) / (
            layer.grid_size as int as real))
        },
{
    knots_evenly_spaced(layer.grid_size, layer.spline_order, min, max, n);
}

/// The grid of a ReLU-KAN layer holds where its supports start, and then where they
/// end: one interval apart, the first of them `support_width` intervals below the
/// range, and each `support_width + 1` intervals wide.
pub proof fn grid_of_relu_kan_layer(
    layer: ReluKanLayer,
    builder: GraphBuilder<real>,
    min: real,
    max: real,
    i: int,
)
    requires
        layer.has_grid(builder, min, max),
        layer.grid_size > 0,
        2 * (layer.grid_size + layer.support_width) <= usize::MAX,
        0 <= i < layer.grid_size + layer.support_width,
    ensures
        builder.ir.data(layer.grid.idx).shape.rows == 2 * (layer.grid_size + layer.support_width),
        builder.ir.data(layer.grid.idx).shape.cols == 1,
        !builder.ir.data(layer.grid.idx).info.requires_grad,
        !builder.ir.data(layer.grid.idx).info.batched,
        builder.ir.op(layer.grid.idx) matches Operation::Constant(vals) && {
            let count = layer.grid_size + layer.support_width;
            let step = (max - min) / (layer.grid_size as int as real);
            &&& vals@.len() == 2 * count
            &&& vals@[i] == min + ((i - layer.support_width) as real) * step
            &&& vals@[count + i] == min + ((i + 1) as real) * step
        },
{
    supports_evenly_spaced(layer.grid_size, layer.support_width, min, max, i);
    let starts = support_starts(layer.grid_size, layer.support_width, min, max);
    let ends = support_ends(layer.grid_size, layer.support_width, min, max);
    let count = layer.grid_size + layer.support_width;
    assert((starts + ends)[i] == starts[i]);
    assert((starts + ends)[count + i] == ends[i]);
    assert(starts[i] == support_start(layer.grid_size, layer.support_width, min, max, i));
    assert(ends[i] == support_end(layer.grid_size, layer.support_width, min, max, i));
}

/// A KAN layer that has been created leaves all nodes and weights as they were. Its
/// weights are named after it. They are drawn around zero, those of the spline path
/// with a spread of a tenth over the square root of the number of basis values,
/// those of the base path with a spread of the square root of two over the number of
/// input features. The last node holds its knots.
pub proof fn created_kan_layer(
    layer: KanLayer,
    before: GraphBuilder<real>,
    after: GraphBuilder<real>,
    id: Seq<char>,
    in_features: usize,
    out_features: usize,
    grid_range: (real, real),
    with_base: bool,
    spline_root: real,
    base_root: real,
)
    requires
        layer.created(before, after, id, in_features, out_features, grid_range, with_base),
        in_features * (layer.grid_size + layer.spline_order) <= usize::MAX,
        in_features > 0,
        layer.grid_size > 0,
        spline_root >= 0real,
        spline_root * spline_root == (in_features * (layer.grid_size + layer.spline_order)) as real,
        base_root >= 0real,
        base_root * base_root * (in_features as int as real) == 2real,
    ensures
        ({
            let n = before.ir.nodes@.len() as int;
            let m = before.weights@.len() as int;
            let count = if with_base {
                2int
            } else {
                1int
            };
            &&& layer.belongs_to(after, in_features, out_features)
            &&& layer.has_grid(after, grid_range.0, grid_range.1)
            &&& layer.base_weight is Some <==> with_base
            &&& after.ir.nodes@.len() == n + count + 1
            &&& after.ir.nodes@.take(n) == before.ir.nodes@
            &&& after.weights@.len() == m + count
            &&& after.weights@.take(m) == before.weights@
            &&& layer.spline_weight.idx.0 == n
            &&& with_base ==> layer.base_weight->0.idx.0 == n + 1
            &&& layer.grid.idx.0 == n + count
            &&& after.ir.nodes@[n].op is Weights
            &&& after.weights@[m].name@ == id + "_sw"@
            &&& after.weights@[m].node == layer.spline_weight.idx
            &&& after.weights@[m].init matches InitSettings::Normal { mean, stdev } && mean
                == 0real && stdev * (10real * spline_root) == 1real
            &&& with_base ==> {
                &&& after.ir.nodes@[n + 1].op is Weights
                &&& after.weights@[m + 1].name@ == id + "_bw"@
                &&& after.weights@[m + 1].node == layer.base_weight->0.idx
                &&& after.weights@[m + 1].init matches InitSettings::Normal { mean, stdev } && mean
                    == 0real && stdev == base_root
            }
        }),
{
    let width = (in_features * (layer.grid_size + layer.spline_order)) as usize;
    assert(in_features * (layer.grid_size + layer.spline_order) > 0) by (nonlinear_arith)
        requires
            in_features > 0,
            layer.grid_size + layer.spline_order > 0,
    ;
    spline_spread(width, spline_root);
    base_spread(in_features, base_root);
    assert(after.ir.nodes@.len() == after.ir.nodes.len());
}

/// A ReLU-KAN layer that has been created leaves all nodes and weights as they were.
/// Its weights are named after it and drawn around zero, with a spread of a tenth
/// over the square root of the number of basis values. The last node holds its grid.
pub proof fn created_relu_kan_layer(
    layer: ReluKanLayer,
    before: GraphBuilder<real>,
    after: GraphBuilder<real>,
    id: Seq<char>,
    in_features: usize,
    out_features: usize,
    grid_range: (real, real),
    root: real,
)
    requires
        layer.created(before, after, id, in_features, out_features, grid_range),
        in_features * (layer.grid_size + layer.support_width) <= usize::MAX,
        in_features > 0,
        layer.grid_size > 0,
        root >= 0real,
        root * root == (in_features * (layer.grid_size + layer.support_width)) as real,
    ensures
        ({
            let n = before.ir.nodes@.len() as int;
            let m = before.weights@.len() as int;
            &&& layer.belongs_to(after, in_features, out_features)
            &&& layer.has_grid(after, grid_range.0, grid_range.1)
            &&& after.ir.nodes@.len() == n + 2
            &&& after.ir.nodes@.take(n) == before.ir.nodes@
            &&& after.weights@.len() == m + 1
            &&& after.weights@.drop_last() == before.weights@
            &&& layer.spline_weight.idx.0 == n
            &&& layer.grid.idx.0 == n + 1
            &&& after.ir.nodes@[n].op is Weights
            &&& after.weights@[m].name@ == id + "_sw"@
            &&& after.weights@[m].node == layer.spline_weight.idx
            &&& after.weights@[m].init matches InitSettings::Normal { mean, stdev } && mean
                == 0real && stdev * (10real * root) == 1real
        }),
{
    let width = (in_features * (layer.grid_size + layer.support_width)) as usize;
    assert(in_features * (layer.grid_size + layer.support_width) > 0) by (nonlinear_arith)
        requires
            in_features > 0,
            layer.grid_size + layer.support_width > 0,
    ;
    spline_spread(width, root);
    assert(after.ir.nodes@.len() == after.ir.nodes.len());
}

/// A KAN layer has a column of spline weights for each basis value of each input
/// feature and a column of base weights for each input feature, in as many rows as
/// it has outputs. They are trained.
pub proof fn weights_of_kan_layer<T>(
    layer: KanLayer,
    builder: GraphBuilder<T>,
    in_features: usize,
    out_features: usize,
)
    requires
        layer.belongs_to(builder, in_features, out_features),
    ensures
        layer.spline_weight.shape.rows == out_features,
        layer.spline_weight.shape.cols == in_features * (layer.grid_size + layer.spline_order),
        layer.grid.shape.rows == layer.grid_size + 2 * layer.spline_order + 1,
        layer.grid.shape.cols == 1,
        builder.knows(layer.spline_weight),
        builder.knows(layer.grid),
        builder.ir.data(layer.spline_weight.idx).info.requires_grad,
        !builder.ir.data(layer.grid.idx).info.requires_grad,
        layer.base_weight matches Some(weight) ==> {
            &&& weight.shape.rows == out_features
            &&& weight.shape.cols == in_features
            &&& builder.knows(weight)
            &&& builder.ir.data(weight.idx).info.requires_grad
        },
{
}

/// A ReLU-KAN layer has a column of weights for each bump of each input feature, in
/// as many rows as it has outputs. They are trained.
pub proof fn weights_of_relu_kan_layer<T>(
    layer: ReluKanLayer,
    builder: GraphBuilder<T>,
    in_features: usize,
    out_features: usize,
)
    requires
        layer.belongs_to(builder, in_features, out_features),
    ensures
        layer.spline_weight.shape.rows == out_features,
        layer.spline_weight.shape.cols == in_features * (layer.grid_size + layer.support_width),
        layer.grid.shape.rows == 2 * (layer.grid_size + layer.support_width),
        layer.grid.shape.cols == 1,
        builder.knows(layer.spline_weight),
        builder.knows(layer.grid),
        builder.ir.data(layer.spline_weight.idx).info.requires_grad,
        !builder.ir.data(layer.grid.idx).info.requires_grad,
{
}

/// What a KAN layer makes of its input has one row for each row of its weights.
pub proof fn parts_of_kan_layer(layer: KanLayer, input: AnnotatedNode)
    ensures
        layer.basis(input).input == input,
        layer.basis(input).grid == layer.grid,
        layer.basis(input).grid_size == layer.grid_size,
        layer.basis(input).spline_order == layer.spline_order,
        layer.basis_rows(input) == input.shape.rows * (layer.grid_size + layer.spline_order),
        layer.output_shape().rows == layer.spline_weight.shape.rows,
        layer.output_shape().cols == 1,
{
}

/// What a ReLU-KAN layer makes of its input.
pub proof fn parts_of_relu_kan_layer(layer: ReluKanLayer, input: AnnotatedNode)
    ensures
        layer.basis(input).input == input,
        layer.basis(input).grid == layer.grid,
        layer.basis(input).grid_size == layer.grid_size,
        layer.basis(input).support_width == layer.support_width,
        layer.basis_rows(input) == input.shape.rows * (layer.grid_size + layer.support_width),
{
}

/// All basis functions at a point: one for each knot that has `p + 1` knots behind
/// it.
pub proof fn all_basis_functions<T: Algebra>(x: T, knots: Seq<T>, p: nat, k: usize, i: int)
    requires
        p < knots.len(),
        1 <= k < knots.len(),
    ensures
        basis_values(x, knots, p).len() == knots.len() - 1 - p,
        0 <= i < knots.len() - 1 - p ==> basis_values(x, knots, p)[i] == basis_value(
            x,
            knots,
            p,
            i,
        ),
        basis_slopes(x, knots, k).len() == knots.len() - 1 - k,
        0 <= i < knots.len() - 1 - k ==> basis_slopes(x, knots, k)[i] == basis_slope(
            x,
            knots,
            k,
            i,
        ),
{
}

/// The SiLU function of a number, times one plus the exponential of its opposite, is
/// the number.
pub proof fn silu_times_denominator(x: real)
    ensures
        silu_value(x) * (1real + (0real - x).exponential()) == x,
{
    exponential_is_positive(-x);
    assert(0real - x == -x);
    lemma_over_sign(x, 1real + (-x).exponential());
}

/// The grids of a layer and the sample points of a table, as sequences.
pub proof fn sampled_sequences(
    grid_size: usize,
    width: usize,
    min: real,
    max: real,
    num_samples: usize,
    k: int,
)
    requires
        0 <= k < num_samples,
    ensures
        uniform_knots(grid_size, width, min, max).len() == grid_size + 2 * width + 1,
        support_starts(grid_size, width, min, max).len() == grid_size + width,
        support_ends(grid_size, width, min, max).len() == grid_size + width,
        support_ends_from_starts(grid_size, width, min, max).len() == grid_size + width,
        sample_points(min, max, num_samples).len() == num_samples,
        num_samples == 1 ==> sample_points(min, max, num_samples)[k] == min,
        num_samples >= 2 ==> sample_points(min, max, num_samples)[k] == min + (k as real) * ((max
            - min) / ((num_samples - 1) as real)),
{
    assert(sample_points(min, max, num_samples)[k] == sample_point(min, max, num_samples, k));
    if num_samples >= 2 {
        samples_evenly_spaced(min, max, num_samples, k);
    }
}

/// A signed integer stands for itself.
pub proof fn signed_integers(n: i16)
    ensures
        of_signed::<real>(n) == n as int as real,
{
}

/// What the weights of a KAN layer must be for its table to be sampled.
pub proof fn kan_table_fits<T: Algebra>(
    sw: Seq<T>,
    bw: Seq<T>,
    in_features: usize,
    out_features: usize,
    grid_size: usize,
    spline_order: usize,
    grid_range: (T, T),
    sample_range: (T, T),
    num_samples: usize,
)
    requires
        grid_size + spline_order > 0,
    ensures
        kan_lut::lut_fits(
            sw,
            bw,
            in_features,
            out_features,
            grid_size,
            spline_order,
            grid_range,
            sample_range,
            num_samples,
        ) <==> {
            &&& grid_size + 2 * spline_order + 1 <= usize::MAX
            &&& sw.len() == out_features * in_features * (grid_size + spline_order)
            &&& bw.len() == out_features * in_features
            &&& out_features * in_features * num_samples <= usize::MAX
        },
{
}

/// What the weights of a ReLU-KAN layer must be for its table to be sampled.
pub proof fn relu_kan_table_fits<T: Algebra>(
    sw: Seq<T>,
    in_features: usize,
    out_features: usize,
    grid_size: usize,
    support_width: usize,
    num_samples: usize,
)
    ensures
        relu_kan_lut::lut_fits(
            sw,
            in_features,
            out_features,
            grid_size,
            support_width,
            num_samples,
        ) <==> {
            &&& grid_size + support_width <= usize::MAX
            &&& sw.len() == out_features * in_features * (grid_size + support_width)
            &&& in_features * num_samples <= usize::MAX
            &&& in_features * num_samples * out_features <= usize::MAX
        },
{
}

/// An export can be worked out where its weights are stored under the names that
/// begin with its own, and fit its layer.
pub proof fn when_export_is_available(
    id: String,
    in_features: usize,
    out_features: usize,
    grid_size: usize,
    width: usize,
    grid_range: (real, real),
    sample_range: (real, real),
    num_samples: usize,
    limit: real,
    store: WeightStore<real>,
)
    requires
        grid_size > 0,
        grid_size + 2 * width + 1 <= usize::MAX,
        in_features * num_samples <= usize::MAX,
        out_features * in_features * num_samples <= usize::MAX,
        in_features * num_samples * out_features <= usize::MAX,
        limit >= 0real,
    ensures
        (Source::KanLut {
            id,
            in_features,
            out_features,
            grid_size,
            spline_order: width,
            grid_range,
            sample_range,
            num_samples,
        }).available(store) <==> {
            &&& store.lookup(id@ + "_sw"@) matches Some(sw) && sw.len() == out_features
                * in_features * (grid_size + width)
            &&& store.lookup(id@ + "_bw"@) matches Some(bw) && bw.len() == out_features
                * in_features
        },
        (Source::ReluKanLut {
            id,
            in_features,
            out_features,
            grid_size,
            support_width: width,
            grid_range,
            sample_range,
            num_samples,
            limit,
        }).available(store) <==> {
            store.lookup(id@ + "_sw"@) matches Some(sw) && sw.len() == out_features * in_features
                * (grid_size + width)
        },
{
}

} // verus!
