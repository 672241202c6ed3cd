//! What the output of an applied layer stands for over the reals.

use vstd::arithmetic::div_mod::{lemma_fundamental_div_mod, lemma_mod_bound};
use vstd::prelude::*;

use super::arithmetic::dot_is_sum;
use super::lut::{lemma_place, row};
use super::meaning::{
    blank, bump_values, combined, entries, halves_multiplied, layer_values, lemma_product_column,
    mapped, matrix_product, silu_is_gated, spline_values, stacked, times_column, values,
};
use super::numbers::sum;
use crate::basis::bump::bump_value;
use crate::basis::spline::basis_value;
use crate::graph::builder::{node_at, GraphBuilder};
use crate::graph::ir::operation::{
    DiffableFromOutput, LinearCombination, Matmul, Operation, UnaryOp,
};
use crate::graph::ir::{AnnotatedNode, GraphIR};
use crate::nn::activation::{BaseActivation, Linear, Screlu, Silu};
use crate::nn::kan::KanLayer;
use crate::nn::relu_kan::ReluKanLayer;
use crate::scalar::{one, Algebra, Scalar};
use crate::tensor::Shape;

verus! {

/// The values of the node at index `id`, for one element of the batch, where
/// `number` says which real number a constant of the graph stands for. `leaves`
/// holds the values of inputs and weights.
pub open spec fn valued<T>(
    ir: GraphIR<T>,
    number: spec_fn(T) -> real,
    leaves: Seq<Seq<real>>,
    id: nat,
) -> Seq<real>
    decreases id, 1nat, 0nat,
{
    match ir.nodes[id as int].op {
        Operation::Input => leaves[id as int],
        Operation::Weights => leaves[id as int],
        Operation::Constant(fixed) => Seq::new(fixed@.len(), |n: int| number(fixed@[n])),
        Operation::Matmul(op) => if op.a.idx.0 < id && op.b.idx.0 < id {
            matrix_product(
                op,
                valued(ir, number, leaves, op.a.idx.0 as nat),
                valued(ir, number, leaves, op.b.idx.0 as nat),
            )
        } else {
            seq![]
        },
        Operation::LinearCombination(op) => weighted(
            ir,
            number,
            leaves,
            id,
            op,
            op.items@.len(),
        ),
        Operation::PairwiseMul(op) => if op.input.idx.0 < id {
            halves_multiplied(op.input.shape, valued(ir, number, leaves, op.input.idx.0 as nat))
        } else {
            seq![]
        },
        Operation::Concat(op) => if op.a.idx.0 < id && op.b.idx.0 < id {
            stacked(
                op.a.shape,
                op.b.shape,
                valued(ir, number, leaves, op.a.idx.0 as nat),
                valued(ir, number, leaves, op.b.idx.0 as nat),
            )
        } else {
            seq![]
        },
        Operation::Unary(op) => if op.input.idx.0 < id {
            mapped(op.op, op.input.shape, valued(ir, number, leaves, op.input.idx.0 as nat))
        } else {
            seq![]
        },
        Operation::BSplineBasis(op) => if op.input.idx.0 < id && op.grid.idx.0 < id {
            spline_values(
                op,
                valued(ir, number, leaves, op.input.idx.0 as nat),
                valued(ir, number, leaves, op.grid.idx.0 as nat),
            )
        } else {
            seq![]
        },
        Operation::ReluKanBasis(op) => if op.input.idx.0 < id && op.grid.idx.0 < id {
            bump_values(
                op,
                valued(ir, number, leaves, op.input.idx.0 as nat),
                valued(ir, number, leaves, op.grid.idx.0 as nat),
            )
        } else {
            seq![]
        },
        Operation::FusedKanLayer(op) => if op.input.idx.0 < id && op.grid.idx.0 < id
            && op.spline_weight.idx.0 < id && op.base_weight.idx.0 < id {
            layer_values(
                op,
                valued(ir, number, leaves, op.input.idx.0 as nat),
                valued(ir, number, leaves, op.grid.idx.0 as nat),
                valued(ir, number, leaves, op.spline_weight.idx.0 as nat),
                valued(ir, number, leaves, op.base_weight.idx.0 as nat),
            )
        } else {
            seq![]
        },
    }
}

/// The weighted sum of the first `k` items of the node at index `id`.
pub open spec fn weighted<T>(
    ir: GraphIR<T>,
    number: spec_fn(T) -> real,
    leaves: Seq<Seq<real>>,
    id: nat,
    op: LinearCombination<T>,
    k: nat,
) -> Seq<real>
    decreases id, 0nat, k,
{
    if k == 0 || op.items@[k - 1].0.0 >= id {
        blank(entries(op.shape) as int)
    } else {
        let rest = weighted(ir, number, leaves, id, op, (k - 1) as nat);
        let weight = number(op.items@[k - 1].1);
        let item = valued(ir, number, leaves, op.items@[k - 1].0.0 as nat);
        Seq::new(entries(op.shape), |n: int| rest[n] + weight * item[n])
    }
}

/// Where the constants of a graph are real numbers, they stand for themselves.
pub proof fn real_constants_stand_for_themselves(
    ir: GraphIR<real>,
    number: spec_fn(real) -> real,
    leaves: Seq<Seq<real>>,
    id: nat,
)
    requires
        forall|x: real| #[trigger] number(x) == x,
    ensures
        valued(ir, number, leaves, id) == values(ir, leaves, id),
    decreases id, 1nat, 0nat,
{
    assert forall|j: nat| j < id implies #[trigger] valued(ir, number, leaves, j) == values(
        ir,
        leaves,
        j,
    ) by {
        real_constants_stand_for_themselves(ir, number, leaves, j);
    }
    match ir.nodes[id as int].op {
        Operation::Constant(fixed) => {
            assert(Seq::new(fixed@.len(), |n: int| number(fixed@[n])) =~= fixed@);
        },
        Operation::Matmul(op) => {
            lemma_real_node(ir, number, leaves, op.a.idx.0 as nat, id);
            lemma_real_node(ir, number, leaves, op.b.idx.0 as nat, id);
        },
        Operation::LinearCombination(op) => {
            lemma_real_sum(ir, number, leaves, id, op, op.items@.len());
        },
        Operation::PairwiseMul(op) => {
            lemma_real_node(ir, number, leaves, op.input.idx.0 as nat, id);
        },
        Operation::Concat(op) => {
            lemma_real_node(ir, number, leaves, op.a.idx.0 as nat, id);
            lemma_real_node(ir, number, leaves, op.b.idx.0 as nat, id);
        },
        Operation::Unary(op) => {
            lemma_real_node(ir, number, leaves, op.input.idx.0 as nat, id);
        },
        Operation::BSplineBasis(op) => {
            lemma_real_node(ir, number, leaves, op.input.idx.0 as nat, id);
            lemma_real_node(ir, number, leaves, op.grid.idx.0 as nat, id);
        },
        Operation::ReluKanBasis(op) => {
            lemma_real_node(ir, number, leaves, op.input.idx.0 as nat, id);
            lemma_real_node(ir, number, leaves, op.grid.idx.0 as nat, id);
        },
        Operation::FusedKanLayer(op) => {
            lemma_real_node(ir, number, leaves, op.input.idx.0 as nat, id);
            lemma_real_node(ir, number, leaves, op.grid.idx.0 as nat, id);
            lemma_real_node(ir, number, leaves, op.spline_weight.idx.0 as nat, id);
            lemma_real_node(ir, number, leaves, op.base_weight.idx.0 as nat, id);
        },
        _ => {},
    }
}

/// One earlier node.
proof fn lemma_real_node(
    ir: GraphIR<real>,
    number: spec_fn(real) -> real,
    leaves: Seq<Seq<real>>,
    j: nat,
    id: nat,
)
    requires
        forall|i: nat|
            i < id ==> #[trigger] valued(ir, number, leaves, i) == values(ir, leaves, i),
    ensures
        j < id ==> valued(ir, number, leaves, j) == values(ir, leaves, j),
{
}

/// The same for a weighted sum.
proof fn lemma_real_sum(
    ir: GraphIR<real>,
    number: spec_fn(real) -> real,
    leaves: Seq<Seq<real>>,
    id: nat,
    op: LinearCombination<real>,
    k: nat,
)
    requires
        forall|x: real| #[trigger] number(x) == x,
        forall|i: nat|
            i < id ==> #[trigger] valued(ir, number, leaves, i) == values(ir, leaves, i),
    ensures
        weighted(ir, number, leaves, id, op, k) == combined(ir, leaves, id, op, k),
    decreases k,
{
    if k > 0 && op.items@[k - 1].0.0 < id {
        lemma_real_sum(ir, number, leaves, id, op, (k - 1) as nat);
        lemma_real_node(ir, number, leaves, op.items@[k - 1].0.0 as nat, id);
        assert(weighted(ir, number, leaves, id, op, k) =~= combined(ir, leaves, id, op, k));
    }
}

/// The values of the nodes that a graph has stay the same when it grows.
pub proof fn growing_keeps_values<T>(
    before: GraphBuilder<T>,
    after: GraphBuilder<T>,
    number: spec_fn(T) -> real,
    leaves: Seq<Seq<real>>,
    id: nat,
)
    requires
        after.extends(before),
        id < before.size(),
    ensures
        valued(after.ir, number, leaves, id) == valued(before.ir, number, leaves, id),
    decreases id,
{
    assert forall|j: nat| j < id implies #[trigger] valued(after.ir, number, leaves, j) == valued(
        before.ir,
        number,
        leaves,
        j,
    ) by {
        growing_keeps_values(before, after, number, leaves, j);
    }
    assert(after.ir.nodes@.take(before.size())[id as int] == after.ir.nodes@[id as int]);
    assert(after.ir.nodes[id as int] == before.ir.nodes[id as int]);
    match before.ir.nodes[id as int].op {
        Operation::Matmul(op) => {
            lemma_kept_node(before.ir, after.ir, number, leaves, op.a.idx.0 as nat, id);
            lemma_kept_node(before.ir, after.ir, number, leaves, op.b.idx.0 as nat, id);
        },
        Operation::LinearCombination(op) => {
            lemma_kept_sum(before.ir, after.ir, number, leaves, id, op, op.items@.len());
        },
        Operation::PairwiseMul(op) => {
            lemma_kept_node(before.ir, after.ir, number, leaves, op.input.idx.0 as nat, id);
        },
        Operation::Concat(op) => {
            lemma_kept_node(before.ir, after.ir, number, leaves, op.a.idx.0 as nat, id);
            lemma_kept_node(before.ir, after.ir, number, leaves, op.b.idx.0 as nat, id);
        },
        Operation::Unary(op) => {
            lemma_kept_node(before.ir, after.ir, number, leaves, op.input.idx.0 as nat, id);
        },
        Operation::BSplineBasis(op) => {
            lemma_kept_node(before.ir, after.ir, number, leaves, op.input.idx.0 as nat, id);
            lemma_kept_node(before.ir, after.ir, number, leaves, op.grid.idx.0 as nat, id);
        },
        Operation::ReluKanBasis(op) => {
            lemma_kept_node(before.ir, after.ir, number, leaves, op.input.idx.0 as nat, id);
            lemma_kept_node(before.ir, after.ir, number, leaves, op.grid.idx.0 as nat, id);
        },
        Operation::FusedKanLayer(op) => {
            lemma_kept_node(before.ir, after.ir, number, leaves, op.input.idx.0 as nat, id);
            lemma_kept_node(before.ir, after.ir, number, leaves, op.grid.idx.0 as nat, id);
            lemma_kept_node(before.ir, after.ir, number, leaves, op.spline_weight.idx.0 as nat, id);
            lemma_kept_node(before.ir, after.ir, number, leaves, op.base_weight.idx.0 as nat, id);
        },
        _ => {},
    }
}

/// One earlier node.
proof fn lemma_kept_node<T>(
    before: GraphIR<T>,
    after: GraphIR<T>,
    number: spec_fn(T) -> real,
    leaves: Seq<Seq<real>>,
    j: nat,
    id: nat,
)
    requires
        forall|i: nat|
            i < id ==> #[trigger] valued(after, number, leaves, i) == valued(
                before,
                number,
                leaves,
                i,
            ),
    ensures
        j < id ==> valued(after, number, leaves, j) == valued(before, number, leaves, j),
{
}

/// The same for a weighted sum.
proof fn lemma_kept_sum<T>(
    before: GraphIR<T>,
    after: GraphIR<T>,
    number: spec_fn(T) -> real,
    leaves: Seq<Seq<real>>,
    id: nat,
    op: LinearCombination<T>,
    k: nat,
)
    requires
        forall|i: nat|
            i < id ==> #[trigger] valued(after, number, leaves, i) == valued(
                before,
                number,
                leaves,
                i,
            ),
    ensures
        weighted(after, number, leaves, id, op, k) == weighted(before, number, leaves, id, op, k),
    decreases k,
{
    if k > 0 && op.items@[k - 1].0.0 < id {
        lemma_kept_sum(before, after, number, leaves, id, op, (k - 1) as nat);
        lemma_kept_node(before, after, number, leaves, op.items@[k - 1].0.0 as nat, id);
    }
}

/// Whether the nodes that an activation adds for `input` stand in a graph at `at`
/// and behind.
pub open spec fn holds_activation<T: Scalar, F: BaseActivation<T>>(
    ir: GraphIR<T>,
    f: F,
    at: int,
    input: AnnotatedNode,
) -> bool {
    let added = f.added(at, input);
    &&& input.idx.0 < at
    &&& at + added.len() <= ir.nodes.len()
    &&& forall|i: int|
        at <= i < at + added.len() ==> (#[trigger] ir.nodes@[i]).op == added[i - at]
}

/// [`Linear`] and [`Screlu`] take nodes of every shape, [`Silu`] those of which two fit
/// on top of each other.
pub proof fn shapes_that_activations_take<T: Scalar>(shape: Shape)
    ensures
        BaseActivation::<T>::accepts(Linear, shape),
        BaseActivation::<T>::accepts(Screlu, shape),
        BaseActivation::<T>::accepts(Silu, shape) <==> shape.rows + shape.rows <= usize::MAX,
{
}

/// The part of a number between zero and one.
pub open spec fn clamped(x: real) -> real {
    if x < 0real {
        0real
    } else if x > 1real {
        1real
    } else {
        x
    }
}

/// The node that [`Screlu`] leads to holds, entry by entry, the square of the part
/// of its input between zero and one.
pub proof fn screlu_squares_clamped_entries<T: Scalar>(
    ir: GraphIR<T>,
    number: spec_fn(T) -> real,
    leaves: Seq<Seq<real>>,
    at: int,
    input: AnnotatedNode,
)
    requires
        holds_activation(ir, Screlu, at, input),
    ensures
        ({
            let r = BaseActivation::<T>::output(Screlu, at, input);
            let x = valued(ir, number, leaves, input.idx.0 as nat);
            let y = valued(ir, number, leaves, r.idx.0 as nat);
            &&& r.shape == input.shape
            &&& r.idx.0 < at + BaseActivation::<T>::added(Screlu, at, input).len()
            &&& y.len() == input.shape.rows * input.shape.cols
            &&& forall|n: int|
                0 <= n < input.shape.rows * input.shape.cols ==> #[trigger] y[n] == clamped(x[n])
                    * clamped(x[n])
        }),
{
    assert(ir.nodes@.len() == ir.nodes.len());
    assert(ir.nodes@[at].op == BaseActivation::<T>::added(Screlu, at, input)[0]);
    assert(0 <= input.shape.rows * input.shape.cols) by (nonlinear_arith);
}

/// The node that [`Linear`] leads to is its input.
pub proof fn linear_changes_nothing<T: Scalar>(at: int, input: AnnotatedNode)
    ensures
        BaseActivation::<T>::output(Linear, at, input) == input,
        BaseActivation::<T>::added(Linear, at, input).len() == 0,
{
}

/// The node that [`Silu`] leads to holds, entry by entry, its input over one plus
/// the exponential of the opposite of its input.
pub proof fn silu_applies_to_entries<T: Scalar>(
    ir: GraphIR<T>,
    number: spec_fn(T) -> real,
    leaves: Seq<Seq<real>>,
    at: int,
    input: AnnotatedNode,
)
    requires
        holds_activation(ir, Silu, at, input),
        2 * input.shape.rows <= usize::MAX,
    ensures
        ({
            let r = BaseActivation::<T>::output(Silu, at, input);
            let x = valued(ir, number, leaves, input.idx.0 as nat);
            let y = valued(ir, number, leaves, r.idx.0 as nat);
            &&& r.shape == input.shape
            &&& r.idx.0 < at + BaseActivation::<T>::added(Silu, at, input).len()
            &&& y.len() == input.shape.rows * input.shape.cols
            &&& forall|n: int|
                0 <= n < input.shape.rows * input.shape.cols ==> #[trigger] y[n] == x[n] / (1real
                    + (0real - x[n]).exponential())
        }),
{
    assert(ir.nodes@.len() == ir.nodes.len());
    let added = BaseActivation::<T>::added(Silu, at, input);
    assert(ir.nodes@[at].op == added[0]);
    assert(ir.nodes@[at + 1].op == added[1]);
    assert(ir.nodes@[at + 2].op == added[2]);
    let shape = input.shape;
    let rows = shape.rows as int;
    let cols = shape.cols as int;
    let both = Shape { rows: (2 * shape.rows) as usize, cols: shape.cols };
    let x = valued(ir, number, leaves, input.idx.0 as nat);
    let sigmoids = mapped(UnaryOp::DiffableFromOutput(DiffableFromOutput::Sigmoid), shape, x);
    assert(valued(ir, number, leaves, at as nat) == sigmoids);
    let pair = stacked(shape, shape, x, sigmoids);
    assert(valued(ir, number, leaves, (at + 1) as nat) == pair);
    let y = halves_multiplied(both, pair);
    assert(valued(ir, number, leaves, (at + 2) as nat) == y);
    assert(0 <= rows * cols) by (nonlinear_arith)
        requires
            0 <= rows,
            0 <= cols,
    ;
    assert(both.rows as int / 2 == rows);
    assert forall|n: int| 0 <= n < rows * cols implies #[trigger] y[n] == x[n] / (1real + (0real
        - x[n]).exponential()) by {
        assert(rows > 0) by (nonlinear_arith)
            requires
                0 <= n < rows * cols,
                0 <= rows,
        ;
        let q = n / rows;
        let i = n % rows;
        lemma_fundamental_div_mod(n, rows);
        lemma_mod_bound(n, rows);
        assert(rows * q == q * rows) by (nonlinear_arith);
        assert(0 <= q < cols) by (nonlinear_arith)
            requires
                n == q * rows + i,
                0 <= i < rows,
                0 <= n < rows * cols,
        ;
        lemma_place(rows + rows, q, i, cols);
        lemma_place(rows + rows, q, rows + i, cols);
        assert(cols * (rows + rows) == (rows + rows) * cols) by (nonlinear_arith);
        assert(pair[q * (rows + rows) + i] == x[n]);
        assert(pair[q * (rows + rows) + (rows + i)] == sigmoids[n]);
        silu_is_gated(x[n]);
        assert(0real - x[n] == -x[n]);
    }
}

/// The sum over all basis values of a layer with `rows` outputs of the weight for
/// the output `j` times the basis function, at the input feature that it belongs
/// to. Each feature has `grid_size + spline_order` basis functions.
pub open spec fn weighted_splines(
    weights: Seq<real>,
    rows: int,
    inputs: Seq<real>,
    in_features: int,
    knots: Seq<real>,
    grid_size: int,
    spline_order: int,
    j: int,
) -> real {
    let count = grid_size + spline_order;
    sum(
        Seq::new(
            (in_features * count) as nat,
            |c: int|
                weights[c * rows + j] * basis_value(
                    inputs[c / count],
                    knots,
                    spline_order as nat,
                    c % count,
                ),
        ),
        (in_features * count) as nat,
    )
}

/// The sum over all input features of the weight for the output `j` times a value
/// for the feature.
pub open spec fn weighted_features(
    weights: Seq<real>,
    rows: int,
    features: Seq<real>,
    in_features: int,
    j: int,
) -> real {
    sum(
        Seq::new(in_features as nat, |i: int| weights[i * rows + j] * features[i]),
        in_features as nat,
    )
}

/// An entry of a matrix times a column.
proof fn lemma_column_entry(shape: Shape, m: Seq<real>, v: Seq<real>, terms: Seq<real>, j: int)
    requires
        0 <= j < shape.rows,
        forall|c: int|
            0 <= c < shape.cols ==> #[trigger] terms[c] == m[c * shape.rows + j] * v[c],
    ensures
        times_column(shape, m, v)[j] == sum(terms, shape.cols as nat),
{
    let weights = row(m, shape.rows as int, shape.cols as int, j);
    assert forall|c: int| 0 <= c < shape.cols implies #[trigger] terms[c] == weights[c] * v[c] by {}
    dot_is_sum(weights, v, terms, shape.cols as nat);
}

/// The values at the end of the spline path of a layer.
proof fn lemma_spline_path<T>(
    layer: KanLayer,
    builder: GraphBuilder<T>,
    number: spec_fn(T) -> real,
    leaves: Seq<Seq<real>>,
    input: AnnotatedNode,
    at: int,
    j: int,
)
    requires
        0 <= at < builder.size() - 1,
        input.idx.0 < at,
        layer.grid.idx.0 < at,
        layer.spline_weight.idx.0 < at,
        layer.spline_weight.shape.cols == layer.basis_rows(input),
        layer.has_spline_path(builder, input, at),
        0 <= j < layer.spline_weight.shape.rows,
    ensures
        valued(builder.ir, number, leaves, (at + 1) as nat).len() == layer.spline_weight.shape.rows,
        valued(builder.ir, number, leaves, (at + 1) as nat)[j] == weighted_splines(
            valued(builder.ir, number, leaves, layer.spline_weight.idx.0 as nat),
            layer.spline_weight.shape.rows as int,
            valued(builder.ir, number, leaves, input.idx.0 as nat),
            input.shape.rows as int,
            valued(builder.ir, number, leaves, layer.grid.idx.0 as nat).take(
                layer.grid_size + 2 * layer.spline_order + 1,
            ),
            layer.grid_size as int,
            layer.spline_order as int,
            j,
        ),
{
    let ir = builder.ir;
    assert(ir.nodes@.len() == ir.nodes.len());
    assert(ir.nodes@[at] == ir.nodes[at]);
    assert(ir.nodes@[at + 1] == ir.nodes[at + 1]);
    let count = layer.grid_size + layer.spline_order;
    let x = valued(ir, number, leaves, input.idx.0 as nat);
    let grid = valued(ir, number, leaves, layer.grid.idx.0 as nat);
    let weights = valued(ir, number, leaves, layer.spline_weight.idx.0 as nat);
    let basis = valued(ir, number, leaves, at as nat);
    assert(basis == spline_values(layer.basis(input), x, grid));
    let op = Matmul {
        a: layer.spline_weight,
        transa: false,
        b: node_at(at, Shape { rows: layer.basis_rows(input) as usize, cols: 1 }),
        transb: false,
    };
    lemma_product_column(op, weights, basis);
    let knots = grid.take(layer.grid_size + 2 * layer.spline_order + 1);
    let rows = layer.spline_weight.shape.rows as int;
    let terms = Seq::new(
        (input.shape.rows * count) as nat,
        |c: int|
            weights[c * rows + j] * basis_value(
                x[c / count],
                knots,
                layer.spline_order as nat,
                c % count,
            ),
    );
    lemma_column_entry(layer.spline_weight.shape, weights, basis, terms, j);
}

/// What has to hold of a layer that is applied with its base path for its output
/// to stand for something: the layer took its input, and a constant that is one
/// stands for one.
pub open spec fn applied_in_order<T: Scalar, F: BaseActivation<T>>(
    layer: KanLayer,
    before: GraphBuilder<T>,
    after: GraphBuilder<T>,
    input: AnnotatedNode,
    activation: F,
    r: AnnotatedNode,
    number: spec_fn(T) -> real,
) -> bool {
    &&& layer.spline_path_fits(before, input)
    &&& layer.base_path_fits(before, input, activation)
    &&& layer.applied(before, after, input, activation, r)
    &&& number(one::<T>()) == 1real
}

/// The nodes of the activation stand behind the spline path.
proof fn lemma_activation_held<T: Scalar, F: BaseActivation<T>>(
    layer: KanLayer,
    before: GraphBuilder<T>,
    after: GraphBuilder<T>,
    input: AnnotatedNode,
    activation: F,
    r: AnnotatedNode,
    number: spec_fn(T) -> real,
)
    requires
        applied_in_order(layer, before, after, input, activation, r, number),
    ensures
        holds_activation(after.ir, activation, before.size() + 2, input),
{
    assert(after.ir.nodes@.len() == after.ir.nodes.len());
}

/// The output of a layer, for values that the activation leads to.
proof fn lemma_layer_output<T: Scalar, F: BaseActivation<T>>(
    layer: KanLayer,
    before: GraphBuilder<T>,
    after: GraphBuilder<T>,
    input: AnnotatedNode,
    activation: F,
    r: AnnotatedNode,
    number: spec_fn(T) -> real,
    leaves: Seq<Seq<real>>,
    features: Seq<real>,
    j: int,
)
    requires
        applied_in_order(layer, before, after, input, activation, r, number),
        activation.output(before.size() + 2, input).idx.0 < before.size() + 2 + activation.added(
            before.size() + 2,
            input,
        ).len(),
        layer.base_weight->0.shape.cols == input.shape.rows,
        forall|i: int|
            0 <= i < input.shape.rows ==> #[trigger] features[i] == valued(
                after.ir,
                number,
                leaves,
                activation.output(before.size() + 2, input).idx.0 as nat,
            )[i],
        0 <= j < layer.spline_weight.shape.rows,
    ensures
        valued(after.ir, number, leaves, r.idx.0 as nat).len() == layer.spline_weight.shape.rows,
        valued(after.ir, number, leaves, r.idx.0 as nat)[j] == weighted_splines(
            valued(after.ir, number, leaves, layer.spline_weight.idx.0 as nat),
            layer.spline_weight.shape.rows as int,
            valued(after.ir, number, leaves, input.idx.0 as nat),
            input.shape.rows as int,
            valued(after.ir, number, leaves, layer.grid.idx.0 as nat).take(
                layer.grid_size + 2 * layer.spline_order + 1,
            ),
            layer.grid_size as int,
            layer.spline_order as int,
            j,
        ) + weighted_features(
            valued(after.ir, number, leaves, layer.base_weight->0.idx.0 as nat),
            layer.spline_weight.shape.rows as int,
            features,
            input.shape.rows as int,
            j,
        ),
{
    let ir = after.ir;
    let n = before.size();
    let m = n + 2 + activation.added(n + 2, input).len();
    let nodes = ir.nodes@;
    assert(ir.nodes@.len() == ir.nodes.len());
    lemma_spline_path(layer, after, number, leaves, input, n, j);
    let spline = valued(ir, number, leaves, (n + 1) as nat);
    let weight = layer.base_weight->0;
    let activated = activation.output(n + 2, input);
    let weights = valued(ir, number, leaves, weight.idx.0 as nat);
    let acted = valued(ir, number, leaves, activated.idx.0 as nat);
    let op = Matmul { a: weight, transa: false, b: activated, transb: false };
    assert(ir.nodes[m] == nodes[m]);
    lemma_product_column(op, weights, acted);
    let base = valued(ir, number, leaves, m as nat);
    assert(base == times_column(weight.shape, weights, acted));
    let rows = layer.spline_weight.shape.rows as int;
    let terms = Seq::new(
        input.shape.rows as nat,
        |i: int| weights[i * rows + j] * features[i],
    );
    assert forall|c: int| 0 <= c < weight.shape.cols implies #[trigger] terms[c] == weights[c
        * weight.shape.rows + j] * acted[c] by {
        assert(features[c] == acted[c]);
    }
    lemma_column_entry(weight.shape, weights, acted, terms, j);
    let total = nodes[m + 1].op->LinearCombination_0;
    assert(ir.nodes[m + 1] == nodes[m + 1]);
    let shape = layer.output_shape();
    assert(entries(shape) == shape.rows) by {
        assert(shape.rows * 1 == shape.rows) by (nonlinear_arith);
    }
    assert(total.items@[0] == (node_at(n + 1, shape).idx, one::<T>()));
    assert(total.items@[1] == (node_at(m, shape).idx, one::<T>()));
    let none = weighted(ir, number, leaves, (m + 1) as nat, total, 0);
    let first = weighted(ir, number, leaves, (m + 1) as nat, total, 1);
    let second = weighted(ir, number, leaves, (m + 1) as nat, total, 2);
    assert(none == blank(entries(shape) as int));
    assert(first[j] == none[j] + 1real * spline[j]);
    assert(second[j] == first[j] + 1real * base[j]);
    assert(valued(ir, number, leaves, (m + 1) as nat) == second);
}

/// The output `j` of a KAN layer that is applied with [`Screlu`]: the weighted basis
/// functions of all inputs, and the weighted squares of the parts of the inputs
/// between zero and one.
pub proof fn screlu_layer_output<T: Scalar>(
    layer: KanLayer,
    before: GraphBuilder<T>,
    after: GraphBuilder<T>,
    input: AnnotatedNode,
    r: AnnotatedNode,
    number: spec_fn(T) -> real,
    leaves: Seq<Seq<real>>,
    j: int,
)
    requires
        applied_in_order(layer, before, after, input, Screlu, r, number),
        0 <= j < layer.spline_weight.shape.rows,
    ensures
        ({
            let x = valued(after.ir, number, leaves, input.idx.0 as nat);
            valued(after.ir, number, leaves, r.idx.0 as nat)[j] == weighted_splines(
                valued(after.ir, number, leaves, layer.spline_weight.idx.0 as nat),
                layer.spline_weight.shape.rows as int,
                x,
                input.shape.rows as int,
                valued(after.ir, number, leaves, layer.grid.idx.0 as nat).take(
                    layer.grid_size + 2 * layer.spline_order + 1,
                ),
                layer.grid_size as int,
                layer.spline_order as int,
                j,
            ) + weighted_features(
                valued(after.ir, number, leaves, layer.base_weight->0.idx.0 as nat),
                layer.spline_weight.shape.rows as int,
                Seq::new(input.shape.rows as nat, |i: int| clamped(x[i]) * clamped(x[i])),
                input.shape.rows as int,
                j,
            )
        }),
{
    let at = before.size() + 2;
    let x = valued(after.ir, number, leaves, input.idx.0 as nat);
    let features = Seq::new(input.shape.rows as nat, |i: int| clamped(x[i]) * clamped(x[i]));
    lemma_activation_held(layer, before, after, input, Screlu, r, number);
    screlu_squares_clamped_entries(after.ir, number, leaves, at, input);
    assert(input.shape.cols == 1);
    lemma_layer_output(layer, before, after, input, Screlu, r, number, leaves, features, j);
}

/// The output `j` of a KAN layer that is applied with [`Silu`]: the weighted basis
/// functions of all inputs, and the weighted SiLU functions of the inputs.
pub proof fn silu_layer_output<T: Scalar>(
    layer: KanLayer,
    before: GraphBuilder<T>,
    after: GraphBuilder<T>,
    input: AnnotatedNode,
    r: AnnotatedNode,
    number: spec_fn(T) -> real,
    leaves: Seq<Seq<real>>,
    j: int,
)
    requires
        applied_in_order(layer, before, after, input, Silu, r, number),
        0 <= j < layer.spline_weight.shape.rows,
    ensures
        ({
            let x = valued(after.ir, number, leaves, input.idx.0 as nat);
            valued(after.ir, number, leaves, r.idx.0 as nat)[j] == weighted_splines(
                valued(after.ir, number, leaves, layer.spline_weight.idx.0 as nat),
                layer.spline_weight.shape.rows as int,
                x,
                input.shape.rows as int,
                valued(after.ir, number, leaves, layer.grid.idx.0 as nat).take(
                    layer.grid_size + 2 * layer.spline_order + 1,
                ),
                layer.grid_size as int,
                layer.spline_order as int,
                j,
            ) + weighted_features(
                valued(after.ir, number, leaves, layer.base_weight->0.idx.0 as nat),
                layer.spline_weight.shape.rows as int,
                Seq::new(
                    input.shape.rows as nat,
                    |i: int| x[i] / (1real + (0real - x[i]).exponential()),
                ),
                input.shape.rows as int,
                j,
            )
        }),
{
    let at = before.size() + 2;
    let x = valued(after.ir, number, leaves, input.idx.0 as nat);
    let features = Seq::new(
        input.shape.rows as nat,
        |i: int| x[i] / (1real + (0real - x[i]).exponential()),
    );
    lemma_activation_held(layer, before, after, input, Silu, r, number);
    silu_applies_to_entries(after.ir, number, leaves, at, input);
    assert(input.shape.cols == 1);
    lemma_layer_output(layer, before, after, input, Silu, r, number, leaves, features, j);
}

/// The output `j` of a KAN layer that is applied with [`Linear`]: the weighted basis
/// functions of all inputs, and the weighted inputs.
pub proof fn linear_layer_output<T: Scalar>(
    layer: KanLayer,
    before: GraphBuilder<T>,
    after: GraphBuilder<T>,
    input: AnnotatedNode,
    r: AnnotatedNode,
    number: spec_fn(T) -> real,
    leaves: Seq<Seq<real>>,
    j: int,
)
    requires
        applied_in_order(layer, before, after, input, Linear, r, number),
        0 <= j < layer.spline_weight.shape.rows,
    ensures
        ({
            let x = valued(after.ir, number, leaves, input.idx.0 as nat);
            valued(after.ir, number, leaves, r.idx.0 as nat)[j] == weighted_splines(
                valued(after.ir, number, leaves, layer.spline_weight.idx.0 as nat),
                layer.spline_weight.shape.rows as int,
                x,
                input.shape.rows as int,
                valued(after.ir, number, leaves, layer.grid.idx.0 as nat).take(
                    layer.grid_size + 2 * layer.spline_order + 1,
                ),
                layer.grid_size as int,
                layer.spline_order as int,
                j,
            ) + weighted_features(
                valued(after.ir, number, leaves, layer.base_weight->0.idx.0 as nat),
                layer.spline_weight.shape.rows as int,
                x,
                input.shape.rows as int,
                j,
            )
        }),
{
    let x = valued(after.ir, number, leaves, input.idx.0 as nat);
    linear_changes_nothing::<T>(before.size() + 2, input);
    lemma_layer_output(layer, before, after, input, Linear, r, number, leaves, x, j);
}

/// The output `j` of a KAN layer without a base path: the weighted basis functions
/// of all inputs.
pub proof fn pure_layer_output<T>(
    layer: KanLayer,
    before: GraphBuilder<T>,
    after: GraphBuilder<T>,
    input: AnnotatedNode,
    r: AnnotatedNode,
    number: spec_fn(T) -> real,
    leaves: Seq<Seq<real>>,
    j: int,
)
    requires
        layer.spline_path_fits(before, input),
        layer.applied_pure(before, after, input, r),
        0 <= j < layer.spline_weight.shape.rows,
    ensures
        r.shape.rows == layer.spline_weight.shape.rows,
        r.shape.cols == 1,
        valued(after.ir, number, leaves, r.idx.0 as nat)[j] == weighted_splines(
            valued(after.ir, number, leaves, layer.spline_weight.idx.0 as nat),
            layer.spline_weight.shape.rows as int,
            valued(after.ir, number, leaves, input.idx.0 as nat),
            input.shape.rows as int,
            valued(after.ir, number, leaves, layer.grid.idx.0 as nat).take(
                layer.grid_size + 2 * layer.spline_order + 1,
            ),
            layer.grid_size as int,
            layer.spline_order as int,
            j,
        ),
{
    assert(after.ir.nodes@.len() == after.ir.nodes.len());
    lemma_spline_path(layer, after, number, leaves, input, before.size(), j);
}

/// The sum over all basis values of a ReLU-KAN layer with `rows` outputs of the
/// weight for the output `j` times the bump, at the input feature that it belongs
/// to. The first half of the grid holds where the `count` supports start, the
/// second half where they end.
pub open spec fn weighted_bumps(
    weights: Seq<real>,
    rows: int,
    inputs: Seq<real>,
    in_features: int,
    grid: Seq<real>,
    count: int,
    j: int,
) -> real {
    sum(
        Seq::new(
            (in_features * count) as nat,
            |c: int|
                weights[c * rows + j] * bump_value(
                    inputs[c / count],
                    grid[c % count],
                    grid[count + c % count],
                ),
        ),
        (in_features * count) as nat,
    )
}

/// The output `j` of a ReLU-KAN layer: the weighted bumps of all inputs.
pub proof fn relu_kan_layer_output<T>(
    layer: ReluKanLayer,
    before: GraphBuilder<T>,
    after: GraphBuilder<T>,
    input: AnnotatedNode,
    r: AnnotatedNode,
    number: spec_fn(T) -> real,
    leaves: Seq<Seq<real>>,
    j: int,
)
    requires
        layer.takes(before, input),
        layer.applied(before, after, input, r),
        0 <= j < layer.spline_weight.shape.rows,
    ensures
        r.shape.rows == layer.spline_weight.shape.rows,
        r.shape.cols == 1,
        valued(after.ir, number, leaves, r.idx.0 as nat)[j] == weighted_bumps(
            valued(after.ir, number, leaves, layer.spline_weight.idx.0 as nat),
            layer.spline_weight.shape.rows as int,
            valued(after.ir, number, leaves, input.idx.0 as nat),
            input.shape.rows as int,
            valued(after.ir, number, leaves, layer.grid.idx.0 as nat),
            layer.grid_size + layer.support_width,
            j,
        ),
{
    let ir = after.ir;
    let at = before.size();
    assert(ir.nodes@.len() == ir.nodes.len());
    assert(before.ir.nodes@.len() == before.ir.nodes.len());
    assert(ir.nodes@[at] == ir.nodes[at]);
    assert(ir.nodes@[at + 1] == ir.nodes[at + 1]);
    let count = layer.grid_size + layer.support_width;
    let x = valued(ir, number, leaves, input.idx.0 as nat);
    let grid = valued(ir, number, leaves, layer.grid.idx.0 as nat);
    let weights = valued(ir, number, leaves, layer.spline_weight.idx.0 as nat);
    let basis = valued(ir, number, leaves, at as nat);
    assert(basis == bump_values(layer.basis(input), x, grid));
    let op = Matmul {
        a: layer.spline_weight,
        transa: false,
        b: node_at(at, Shape { rows: layer.basis_rows(input) as usize, cols: 1 }),
        transb: false,
    };
    lemma_product_column(op, weights, basis);
    let rows = layer.spline_weight.shape.rows as int;
    let terms = Seq::new(
        (input.shape.rows * count) as nat,
        |c: int|
            weights[c * rows + j] * bump_value(
                x[c / count],
                grid[c % count],
                grid[count + c % count],
            ),
    );
    lemma_column_entry(layer.spline_weight.shape, weights, basis, terms, j);
}

} // verus!
