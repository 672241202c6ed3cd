//! What the nodes of a graph stand for over the reals, and that fusing a KAN
//! layer does not change it.

use vstd::prelude::*;

use super::lut::{kan_output, row, silus};
use super::numbers::{lemma_over_is_times, lemma_square_nonneg, lemma_times_zero};
use crate::basis::spline::num_basis;
use crate::cuda::kan::{
    base_path, fused, kan_layer_at, kan_pattern, lemma_parents_exist, plain_sum, silu_argument,
    spline_path, FusedKanLayer,
};
use crate::device::operation::bspline;
use crate::device::operation::relu_kan;
use crate::graph::ir::operation::bspline::BSplineBasis;
use crate::graph::ir::operation::relu_kan::ReluKanBasis;
use crate::graph::ir::operation::{
    transposed_if, DiffableFromOutput, LinearCombination, Matmul, Operation, UnaryOp,
};
use crate::graph::ir::{AnnotatedNode, GraphIR, GraphIRError};
use crate::graph::NodeId;
use crate::nn::kan_lut::silu_value;
use crate::scalar::{dot, is_exponential, Algebra};
use crate::tensor::Shape;

verus! {

/// The logistic function.
pub open spec fn sigmoid(x: real) -> real {
    1real / (1real + (-x).exponential())
}

/// A function that is applied to each entry of a node.
pub open spec fn unary_value(op: UnaryOp, x: real) -> real {
    match op {
        UnaryOp::DiffableFromOutput(f) => match f {
            DiffableFromOutput::Identity => x,
            DiffableFromOutput::ReLU => x.larger(0real),
            DiffableFromOutput::CReLU => x.limited(0real, 1real),
            DiffableFromOutput::SCReLU => x.limited(0real, 1real) * x.limited(0real, 1real),
            DiffableFromOutput::Sigmoid => sigmoid(x),
        },
        UnaryOp::Abs => x.larger(-x),
    }
}

/// The number of entries of a matrix.
pub open spec fn entries(shape: Shape) -> nat {
    (shape.rows * shape.cols) as nat
}

/// A function of each entry.
pub open spec fn mapped(op: UnaryOp, shape: Shape, v: Seq<real>) -> Seq<real> {
    Seq::new(entries(shape), |n: int| unary_value(op, v[n]))
}

/// The entry in a row and a column of a matrix that is stored column by column,
/// or of its transpose.
pub open spec fn entry(m: Seq<real>, shape: Shape, transposed: bool, r: int, c: int) -> real {
    if transposed {
        m[r * shape.rows + c]
    } else {
        m[c * shape.rows + r]
    }
}

/// The product of two matrices.
pub open spec fn matrix_product(op: Matmul, a: Seq<real>, b: Seq<real>) -> Seq<real> {
    let left = transposed_if(op.a.shape, op.transa);
    let right = transposed_if(op.b.shape, op.transb);
    Seq::new(
        entries(Shape { rows: left.rows, cols: right.cols }),
        |n: int|
            dot(
                Seq::new(
                    left.cols as nat,
                    |k: int| entry(a, op.a.shape, op.transa, n % (left.rows as int), k),
                ),
                Seq::new(
                    left.cols as nat,
                    |k: int| entry(b, op.b.shape, op.transb, k, n / (left.rows as int)),
                ),
                left.cols as nat,
            ),
    )
}

/// A matrix times a single column.
pub open spec fn times_column(shape: Shape, m: Seq<real>, v: Seq<real>) -> Seq<real> {
    Seq::new(
        shape.rows as nat,
        |r: int| dot(row(m, shape.rows as int, shape.cols as int, r), v, shape.cols as nat),
    )
}

/// One matrix on top of another one.
pub open spec fn stacked(upper: Shape, lower: Shape, a: Seq<real>, b: Seq<real>) -> Seq<real> {
    let rows = upper.rows + lower.rows;
    Seq::new(
        (rows * upper.cols) as nat,
        |n: int|
            if n % rows < upper.rows {
                a[(n / rows) * upper.rows + n % rows]
            } else {
                b[(n / rows) * lower.rows + (n % rows - upper.rows)]
            },
    )
}

/// The products of the entries in the upper half with those in the lower half.
pub open spec fn halves_multiplied(shape: Shape, v: Seq<real>) -> Seq<real> {
    let half = shape.rows as int / 2;
    Seq::new(
        (half * shape.cols) as nat,
        |n: int|
            v[(n / half) * shape.rows + n % half] * v[(n / half) * shape.rows + (half + n % half)],
    )
}

/// A buffer to write `n` values to.
pub open spec fn blank(n: int) -> Seq<real> {
    Seq::new(n as nat, |i: int| 0real)
}

/// The values of the B-spline basis functions.
pub open spec fn spline_values(op: BSplineBasis, input: Seq<real>, grid: Seq<real>) -> Seq<real> {
    bspline::forward_output(
        op.input.shape.rows as int,
        op.grid_size as int,
        op.spline_order as int,
        input,
        grid,
        blank(op.input.shape.rows * num_basis(op.grid_size as int, op.spline_order as int)),
    )
}

/// The values of the ReLU-KAN basis functions.
pub open spec fn bump_values(op: ReluKanBasis, input: Seq<real>, grid: Seq<real>) -> Seq<real> {
    relu_kan::forward_output(
        op.input.shape.rows as int,
        op.grid_size + op.support_width,
        input,
        grid,
        blank(op.input.shape.rows * (op.grid_size + op.support_width)),
    )
}

/// `x * sigmoid(x)` for each of `n` entries.
pub open spec fn gated(n: nat, x: Seq<real>) -> Seq<real> {
    Seq::new(n, |i: int| x[i] * sigmoid(x[i]))
}

/// The output of a whole KAN layer: the spline path and the base path, added up.
pub open spec fn layer_values(
    layer: FusedKanLayer,
    input: Seq<real>,
    grid: Seq<real>,
    spline_weight: Seq<real>,
    base_weight: Seq<real>,
) -> Seq<real> {
    let basis = BSplineBasis {
        input: layer.input,
        grid: layer.grid,
        grid_size: layer.grid_size,
        spline_order: layer.spline_order,
    };
    let spline = times_column(
        layer.spline_weight.shape,
        spline_weight,
        spline_values(basis, input, grid),
    );
    let base = times_column(
        layer.base_weight.shape,
        base_weight,
        gated(layer.input.shape.rows as nat, input),
    );
    Seq::new(layer.spline_weight.shape.rows as nat, |n: int| spline[n] + base[n])
}

/// The values of the node at index `id`, for one element of the batch. `leaves`
/// holds the values of inputs and weights.
pub open spec fn values(ir: GraphIR<real>, leaves: Seq<Seq<real>>, id: nat) -> Seq<real>
    decreases id, 1nat, 0nat,
{
    match ir.nodes[id as int].op {
        Operation::Input => leaves[id as int],
        Operation::Weights => leaves[id as int],
        Operation::Constant(fixed) => fixed@,
        Operation::Matmul(op) => if op.a.idx.0 < id && op.b.idx.0 < id {
            matrix_product(
                op,
                values(ir, leaves, op.a.idx.0 as nat),
                values(ir, leaves, op.b.idx.0 as nat),
            )
        } else {
            seq![]
        },
        Operation::LinearCombination(op) => combined(ir, leaves, id, op, op.items@.len()),
        Operation::PairwiseMul(op) => if op.input.idx.0 < id {
            halves_multiplied(op.input.shape, values(ir, leaves, op.input.idx.0 as nat))
        } else {
            seq![]
        },
        Operation::Concat(op) => if op.a.idx.0 < id && op.b.idx.0 < id {
            stacked(
                op.a.shape,
                op.b.shape,
                values(ir, leaves, op.a.idx.0 as nat),
                values(ir, leaves, op.b.idx.0 as nat),
            )
        } else {
            seq![]
        },
        Operation::Unary(op) => if op.input.idx.0 < id {
            mapped(op.op, op.input.shape, values(ir, leaves, op.input.idx.0 as nat))
        } else {
            seq![]
        },
        Operation::BSplineBasis(op) => if op.input.idx.0 < id && op.grid.idx.0 < id {
            spline_values(
                op,
                values(ir, leaves, op.input.idx.0 as nat),
                values(ir, leaves, op.grid.idx.0 as nat),
            )
        } else {
            seq![]
        },
        Operation::ReluKanBasis(op) => if op.input.idx.0 < id && op.grid.idx.0 < id {
            bump_values(
                op,
                values(ir, leaves, op.input.idx.0 as nat),
                values(ir, leaves, op.grid.idx.0 as nat),
            )
        } else {
            seq![]
        },
        Operation::FusedKanLayer(op) => if op.input.idx.0 < id && op.grid.idx.0 < id
            && op.spline_weight.idx.0 < id && op.base_weight.idx.0 < id {
            layer_values(
                op,
                values(ir, leaves, op.input.idx.0 as nat),
                values(ir, leaves, op.grid.idx.0 as nat),
                values(ir, leaves, op.spline_weight.idx.0 as nat),
                values(ir, leaves, op.base_weight.idx.0 as nat),
            )
        } else {
            seq![]
        },
    }
}

/// The weighted sum of the first `k` items of the node at index `id`.
pub open spec fn combined(
    ir: GraphIR<real>,
    leaves: Seq<Seq<real>>,
    id: nat,
    op: LinearCombination<real>,
    k: nat,
) -> Seq<real>
    decreases id, 0nat, k,
{
    if k == 0 || op.items@[k - 1].0.0 >= id {
        blank(entries(op.shape) as int)
    } else {
        let rest = combined(ir, leaves, id, op, (k - 1) as nat);
        let weight = op.items@[k - 1].1;
        let item = values(ir, leaves, op.items@[k - 1].0.0 as nat);
        Seq::new(entries(op.shape), |n: int| rest[n] + weight * item[n])
    }
}

/// A sum of products depends on the factors alone.
proof fn lemma_dot_same(a: Seq<real>, b: Seq<real>, c: Seq<real>, d: Seq<real>, n: nat)
    requires
        forall|i: int| 0 <= i < n ==> #[trigger] a[i] == c[i],
        forall|i: int| 0 <= i < n ==> #[trigger] b[i] == d[i],
    ensures
        dot(a, b, n) == dot(c, d, n),
    decreases n,
{
    if n > 0 {
        lemma_dot_same(a, b, c, d, (n - 1) as nat);
        assert(a[n - 1] == c[n - 1] && b[n - 1] == d[n - 1]);
    }
}

/// An index that is less than the divisor.
proof fn lemma_single_column(n: int, rows: int)
    requires
        0 <= n < rows,
    ensures
        n % rows == n,
        n / rows == 0,
        (n / rows) * rows == 0,
{
    vstd::arithmetic::div_mod::lemma_small_mod(n as nat, rows as nat);
    vstd::arithmetic::div_mod::lemma_basic_div(n, rows);
    assert(0 * rows == 0) by (nonlinear_arith);
}

/// A product with a single column.
pub(crate) proof fn lemma_product_column(op: Matmul, a: Seq<real>, b: Seq<real>)
    requires
        !op.transa,
        !op.transb,
        op.b.shape.cols == 1,
    ensures
        matrix_product(op, a, b) == times_column(op.a.shape, a, b),
{
    let rows = op.a.shape.rows as int;
    let cols = op.a.shape.cols as nat;
    let full = matrix_product(op, a, b);
    let column = times_column(op.a.shape, a, b);
    assert(rows * 1 == rows) by (nonlinear_arith);
    assert forall|n: int| 0 <= n < rows implies full[n] == column[n] by {
        lemma_single_column(n, rows);
        let left = Seq::new(cols, |k: int| entry(a, op.a.shape, false, n % rows, k));
        let right = Seq::new(cols, |k: int| entry(b, op.b.shape, false, k, n / rows));
        let m = op.b.shape.rows as int;
        assert(0 * m == 0) by (nonlinear_arith);
        lemma_dot_same(left, right, row(a, rows, cols as int, n), b, cols);
        assert(full[n] == dot(left, right, cols));
    }
    assert(full =~= column);
}

/// What is known of the parents of a node that is in order and no leaf.
proof fn lemma_parents_in_order(ir: GraphIR<real>, id: NodeId)
    requires
        ir.wf(),
        ir.contains(id),
        !ir.op(id).is_leaf(),
    ensures
        ir.op(id).shape_in(ir) == Ok::<Shape, GraphIRError>(ir.data(id).shape),
        ir.op(id).fits(),
        forall|j: int|
            0 <= j < ir.op(id).parents().len() ==> {
                let parent = #[trigger] ir.op(id).parents()[j];
                &&& parent.idx.0 < id.0
                &&& ir.contains(parent.idx)
                &&& ir.data(parent.idx).shape == parent.shape
            },
{
    assert(ir.node_wf(id.0 as int));
    lemma_parents_exist(ir, ir.op(id));
}

/// The upper half times the lower half, where the lower half is the logistic
/// function of the upper half.
proof fn lemma_gate(shape: Shape, x: Seq<real>)
    requires
        shape.cols == 1,
        2 * shape.rows <= usize::MAX,
    ensures
        ({
            let both = Shape { rows: (2 * shape.rows) as usize, cols: 1 };
            let op = UnaryOp::DiffableFromOutput(DiffableFromOutput::Sigmoid);
            halves_multiplied(both, stacked(shape, shape, x, mapped(op, shape, x))) == gated(
                shape.rows as nat,
                x,
            )
        }),
{
    let rows = shape.rows as int;
    let both = Shape { rows: (2 * shape.rows) as usize, cols: 1 };
    let op = UnaryOp::DiffableFromOutput(DiffableFromOutput::Sigmoid);
    let lower = mapped(op, shape, x);
    let v = stacked(shape, shape, x, lower);
    let result = halves_multiplied(both, v);
    assert(rows * 1 == rows && (rows + rows) * 1 == rows + rows) by (nonlinear_arith);
    assert(0 * rows == 0 && 0 * (rows + rows) == 0) by (nonlinear_arith);
    assert(both.rows as int / 2 == rows);
    assert forall|n: int| 0 <= n < rows implies result[n] == gated(rows as nat, x)[n] by {
        lemma_single_column(n, rows);
        lemma_single_column(n, rows + rows);
        lemma_single_column(rows + n, rows + rows);
        assert(v[n] == x[n]);
        assert(v[rows + n] == lower[n]);
        assert(result[n] == v[0 * both.rows + n] * v[0 * both.rows + (rows + n)]);
    }
    assert(result =~= gated(rows as nat, x));
}

/// The values at the end of a SiLU.
proof fn lemma_silu_values(ir: GraphIR<real>, leaves: Seq<Seq<real>>, id: NodeId, input: NodeId)
    requires
        ir.wf(),
        ir.contains(id),
        silu_argument(ir, id) == Some(input),
        ir.data(input).shape.cols == 1,
    ensures
        input.0 < id.0,
        ir.data(id).shape == ir.data(input).shape,
        values(ir, leaves, id.0 as nat) == gated(
            ir.data(input).shape.rows as nat,
            values(ir, leaves, input.0 as nat),
        ),
{
    lemma_parents_in_order(ir, id);
    let halves = ir.op(id)->PairwiseMul_0;
    assert(ir.op(id).parents()[0] == halves.input);
    let both = halves.input.idx;
    lemma_parents_in_order(ir, both);
    let pair = ir.op(both)->Concat_0;
    assert(ir.op(both).parents()[0] == pair.a && ir.op(both).parents()[1] == pair.b);
    let gate = pair.b.idx;
    lemma_parents_in_order(ir, gate);
    let unary = ir.op(gate)->Unary_0;
    assert(ir.op(gate).parents()[0] == unary.input);
    let x = values(ir, leaves, input.0 as nat);
    let shape = ir.data(input).shape;
    assert(values(ir, leaves, gate.0 as nat) == mapped(unary.op, shape, x));
    assert(values(ir, leaves, both.0 as nat) == stacked(
        shape,
        shape,
        x,
        mapped(unary.op, shape, x),
    ));
    lemma_gate(shape, x);
}

/// The values at the end of a spline path.
proof fn lemma_spline_values(
    ir: GraphIR<real>,
    leaves: Seq<Seq<real>>,
    id: NodeId,
    weights: AnnotatedNode,
    basis: BSplineBasis,
)
    requires
        ir.wf(),
        ir.contains(id),
        spline_path(ir, id) == Some((weights, basis)),
    ensures
        weights.idx.0 < id.0,
        basis.input.idx.0 < id.0,
        basis.grid.idx.0 < id.0,
        basis.input.shape.cols == 1,
        ir.data(basis.input.idx).shape == basis.input.shape,
        ir.data(id).shape == (Shape { rows: weights.shape.rows, cols: 1 }),
        values(ir, leaves, id.0 as nat) == times_column(
            weights.shape,
            values(ir, leaves, weights.idx.0 as nat),
            spline_values(
                basis,
                values(ir, leaves, basis.input.idx.0 as nat),
                values(ir, leaves, basis.grid.idx.0 as nat),
            ),
        ),
{
    lemma_parents_in_order(ir, id);
    let product = ir.op(id)->Matmul_0;
    assert(ir.op(id).parents()[0] == product.a && ir.op(id).parents()[1] == product.b);
    let inner = product.b.idx;
    lemma_parents_in_order(ir, inner);
    assert(ir.op(inner).parents()[0] == basis.input && ir.op(inner).parents()[1] == basis.grid);
    lemma_product_column(
        product,
        values(ir, leaves, product.a.idx.0 as nat),
        values(ir, leaves, inner.0 as nat),
    );
}

/// The values at the end of a base path.
proof fn lemma_base_values(
    ir: GraphIR<real>,
    leaves: Seq<Seq<real>>,
    id: NodeId,
    weights: AnnotatedNode,
    input: NodeId,
)
    requires
        ir.wf(),
        ir.contains(id),
        base_path(ir, id) == Some((weights, input)),
        ir.data(input).shape.cols == 1,
    ensures
        weights.idx.0 < id.0,
        values(ir, leaves, id.0 as nat) == times_column(
            weights.shape,
            values(ir, leaves, weights.idx.0 as nat),
            gated(ir.data(input).shape.rows as nat, values(ir, leaves, input.0 as nat)),
        ),
{
    lemma_parents_in_order(ir, id);
    let product = ir.op(id)->Matmul_0;
    assert(ir.op(id).parents()[0] == product.a && ir.op(id).parents()[1] == product.b);
    lemma_silu_values(ir, leaves, product.b.idx, input);
    lemma_product_column(
        product,
        values(ir, leaves, product.a.idx.0 as nat),
        values(ir, leaves, product.b.idx.0 as nat),
    );
}

/// The values of a sum of two nodes.
proof fn lemma_sum_values(
    ir: GraphIR<real>,
    leaves: Seq<Seq<real>>,
    id: NodeId,
    a: NodeId,
    b: NodeId,
)
    requires
        ir.wf(),
        ir.contains(id),
        plain_sum(ir, id) == Some((a, b)),
    ensures
        a.0 < id.0,
        b.0 < id.0,
        ir.data(a).shape == ir.data(id).shape,
        ir.data(b).shape == ir.data(id).shape,
        values(ir, leaves, id.0 as nat) == Seq::new(
            entries(ir.data(id).shape),
            |n: int| values(ir, leaves, a.0 as nat)[n] + values(ir, leaves, b.0 as nat)[n],
        ),
{
    lemma_parents_in_order(ir, id);
    let op = ir.op(id)->LinearCombination_0;
    let parents = ir.op(id).parents();
    assert(parents[0].idx == a && parents[1].idx == b);
    let at = id.0 as nat;
    let none = combined(ir, leaves, at, op, 0);
    let first = combined(ir, leaves, at, op, 1);
    let all = combined(ir, leaves, at, op, 2);
    let va = values(ir, leaves, a.0 as nat);
    let vb = values(ir, leaves, b.0 as nat);
    let len = entries(op.shape);
    assert(none == blank(len as int));
    assert(first == Seq::new(len, |n: int| none[n] + 1real * va[n]));
    assert(all == Seq::new(len, |n: int| first[n] + 1real * vb[n]));
    assert(all =~= Seq::new(len, |n: int| va[n] + vb[n]));
}

/// The sum of the two paths of a layer is what the layer stands for.
proof fn lemma_pattern_values(
    ir: GraphIR<real>,
    leaves: Seq<Seq<real>>,
    target: NodeId,
    spline: NodeId,
    base: NodeId,
    layer: FusedKanLayer,
)
    requires
        ir.wf(),
        ir.contains(target),
        plain_sum(ir, target) == Some((spline, base)) || plain_sum(ir, target) == Some(
            (base, spline),
        ),
        kan_pattern(ir, spline, base) == Some(layer),
    ensures
        values(ir, leaves, target.0 as nat) == layer_values(
            layer,
            values(ir, leaves, layer.input.idx.0 as nat),
            values(ir, leaves, layer.grid.idx.0 as nat),
            values(ir, leaves, layer.spline_weight.idx.0 as nat),
            values(ir, leaves, layer.base_weight.idx.0 as nat),
        ),
{
    let (first, second) = plain_sum(ir, target)->0;
    lemma_sum_values(ir, leaves, target, first, second);
    let (_, basis) = spline_path(ir, spline)->0;
    lemma_spline_values(ir, leaves, spline, layer.spline_weight, basis);
    lemma_base_values(ir, leaves, base, layer.base_weight, layer.input.idx);
    let rows = layer.spline_weight.shape.rows as int;
    assert(rows * 1 == rows) by (nonlinear_arith);
    assert(basis == BSplineBasis {
        input: layer.input,
        grid: layer.grid,
        grid_size: layer.grid_size,
        spline_order: layer.spline_order,
    });
    assert(values(ir, leaves, target.0 as nat) =~= layer_values(
        layer,
        values(ir, leaves, layer.input.idx.0 as nat),
        values(ir, leaves, layer.grid.idx.0 as nat),
        values(ir, leaves, layer.spline_weight.idx.0 as nat),
        values(ir, leaves, layer.base_weight.idx.0 as nat),
    ));
}

/// A weighted sum of nodes that keep their values keeps its value.
proof fn lemma_combined_kept(
    before: GraphIR<real>,
    after: GraphIR<real>,
    leaves: Seq<Seq<real>>,
    id: nat,
    op: LinearCombination<real>,
    k: nat,
)
    requires
        forall|j: nat| j < id ==> #[trigger] values(after, leaves, j) == values(before, leaves, j),
    ensures
        combined(after, leaves, id, op, k) == combined(before, leaves, id, op, k),
    decreases k,
{
    if k > 0 && op.items@[k - 1].0.0 < id {
        lemma_combined_kept(before, after, leaves, id, op, (k - 1) as nat);
        let j = op.items@[k - 1].0.0 as nat;
        assert(values(after, leaves, j) == values(before, leaves, j));
    }
}

/// One of the nodes in front of `id` that keep their values.
proof fn lemma_node_kept(
    before: GraphIR<real>,
    after: GraphIR<real>,
    leaves: Seq<Seq<real>>,
    node: NodeId,
    id: nat,
)
    requires
        forall|j: nat| j < id ==> #[trigger] values(after, leaves, j) == values(before, leaves, j),
    ensures
        node.0 < id ==> values(after, leaves, node.0 as nat) == values(
            before,
            leaves,
            node.0 as nat,
        ),
{
}

/// Fusing a KAN layer changes the value of no node of the graph.
pub proof fn fusing_keeps_values(
    before: GraphIR<real>,
    after: GraphIR<real>,
    leaves: Seq<Seq<real>>,
    target: NodeId,
    id: nat,
)
    requires
        before.wf(),
        before.contains(target),
        fused(before, target, kan_layer_at(before, target)) == (
            Ok::<bool, GraphIRError>(true),
            after.nodes@,
        ),
        id < before.nodes.len(),
    ensures
        values(after, leaves, id) == values(before, leaves, id),
    decreases id,
{
    assert forall|j: nat| j < id implies #[trigger] values(after, leaves, j) == values(
        before,
        leaves,
        j,
    ) by {
        fusing_keeps_values(before, after, leaves, target, j);
    }
    if id == target.0 {
        let layer = kan_layer_at(before, target)->0;
        let op = Operation::<real>::FusedKanLayer(layer);
        let (a, b) = plain_sum(before, target)->0;
        if kan_pattern(before, a, b) == Some(layer) {
            lemma_pattern_values(before, leaves, target, a, b, layer);
        } else {
            lemma_pattern_values(before, leaves, target, b, a, layer);
        }
        assert(after.nodes[id as int].op == op);
        let parents = op.parents();
        assert(parents[0] == layer.input && parents[1] == layer.grid);
        assert(parents[2] == layer.spline_weight && parents[3] == layer.base_weight);
        lemma_node_kept(before, after, leaves, layer.input.idx, id);
        lemma_node_kept(before, after, leaves, layer.grid.idx, id);
        lemma_node_kept(before, after, leaves, layer.spline_weight.idx, id);
        lemma_node_kept(before, after, leaves, layer.base_weight.idx, id);
    } else {
        assert(after.nodes[id as int] == before.nodes[id as int]);
        match before.nodes[id as int].op {
            Operation::Matmul(op) => {
                lemma_node_kept(before, after, leaves, op.a.idx, id);
                lemma_node_kept(before, after, leaves, op.b.idx, id);
            },
            Operation::LinearCombination(op) => {
                lemma_combined_kept(before, after, leaves, id, op, op.items@.len());
            },
            Operation::PairwiseMul(op) => {
                lemma_node_kept(before, after, leaves, op.input.idx, id);
            },
            Operation::Concat(op) => {
                lemma_node_kept(before, after, leaves, op.a.idx, id);
                lemma_node_kept(before, after, leaves, op.b.idx, id);
            },
            Operation::Unary(op) => {
                lemma_node_kept(before, after, leaves, op.input.idx, id);
            },
            Operation::BSplineBasis(op) => {
                lemma_node_kept(before, after, leaves, op.input.idx, id);
                lemma_node_kept(before, after, leaves, op.grid.idx, id);
            },
            Operation::ReluKanBasis(op) => {
                lemma_node_kept(before, after, leaves, op.input.idx, id);
                lemma_node_kept(before, after, leaves, op.grid.idx, id);
            },
            Operation::FusedKanLayer(op) => {
                lemma_node_kept(before, after, leaves, op.input.idx, id);
                lemma_node_kept(before, after, leaves, op.grid.idx, id);
                lemma_node_kept(before, after, leaves, op.spline_weight.idx, id);
                lemma_node_kept(before, after, leaves, op.base_weight.idx, id);
            },
            _ => {},
        }
    }
}

/// The exponential function is positive.
pub proof fn exponential_is_positive(x: real)
    ensures
        x.exponential() > 0real,
{
    let f = choose|f: spec_fn(real) -> real| is_exponential(f);
    if is_exponential(f) {
        let half = x / 2real;
        assert(f(half + half) == f(half) * f(half));
        assert(half + half == x);
        lemma_square_nonneg(f(half));
        assert(f(x + (-x)) == f(x) * f(-x));
        assert(f(0real) >= 1real + 0real);
        if f(x) == 0real {
            lemma_times_zero(f(-x), f(x));
        }
    }
}

/// The SiLU function that a table is sampled from is the one that the layer
/// applies.
pub proof fn silu_is_gated(x: real)
    ensures
        silu_value(x) == x * sigmoid(x),
{
    exponential_is_positive(-x);
    lemma_over_is_times(x, 1real + (-x).exponential());
}

/// What a fused layer stands for is what its table is sampled from.
pub proof fn layer_is_tabled(
    layer: FusedKanLayer,
    input: Seq<real>,
    grid: Seq<real>,
    spline_weight: Seq<real>,
    base_weight: Seq<real>,
    j: int,
)
    requires
        input.len() == layer.input.shape.rows,
        layer.spline_weight.shape.cols == layer.basis_rows(),
        layer.base_weight.shape == (Shape {
            rows: layer.spline_weight.shape.rows,
            cols: layer.input.shape.rows,
        }),
        0 <= j < layer.spline_weight.shape.rows,
    ensures
        layer_values(layer, input, grid, spline_weight, base_weight)[j] == kan_output(
            spline_weight,
            base_weight,
            layer.input.shape.rows as int,
            layer.spline_weight.shape.rows as int,
            layer.grid_size as int,
            layer.spline_order as int,
            grid,
            input,
            blank(layer.basis_rows()),
            j,
        ),
{
    let n = layer.input.shape.rows as nat;
    let weights = row(
        base_weight,
        layer.base_weight.shape.rows as int,
        layer.base_weight.shape.cols as int,
        j,
    );
    assert forall|i: int| 0 <= i < n implies #[trigger] gated(n, input)[i] == silus(input)[i] by {
        silu_is_gated(input[i]);
    }
    lemma_dot_same(weights, gated(n, input), weights, silus(input), n);
}

} // verus!
