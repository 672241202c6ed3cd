//! A KAN layer as one operation, and the pass that finds such layers.

use vstd::prelude::*;

use crate::basis::spline::{num_basis, num_knots};
use crate::graph::ir::operation::util::{
    batch_error, check_dense_eq, check_has_grad, check_not_batched, either, grad_error,
    layout_error,
};
use crate::graph::ir::operation::bspline::BSplineBasis;
use crate::graph::ir::operation::{
    Concat, DiffableFromOutput, Matmul, Operation, PairwiseMul, Unary, UnaryOp,
};
use crate::graph::ir::{
    parent_error, AnnotatedNode, GraphIR, GraphIRError, GraphIROperationError, IrNode,
};
use crate::graph::NodeId;
use crate::scalar::{one, Algebra, Scalar};
use crate::tensor::Shape;
use crate::text::{decimal, decimal_of};

verus! {

/// The weights and the basis of a spline path that ends in the node `id`:
/// `Matmul(weights, BSplineBasis(input, grid))`, where nothing else uses the two
/// nodes.
pub open spec fn spline_path<T>(ir: GraphIR<T>, id: NodeId) -> Option<
    (AnnotatedNode, BSplineBasis),
> {
    match ir.op(id) {
        Operation::Matmul(product) => match ir.op(product.b.idx) {
            Operation::BSplineBasis(basis) => if ir.uses(id) == 1 && !product.transa
                && !product.transb && ir.uses(product.b.idx) == 1 {
                Some((product.a, basis))
            } else {
                None
            },
            _ => None,
        },
        _ => None,
    }
}

/// The node that `id` computes the SiLU function of:
/// `PairwiseMul(Concat(input, Sigmoid(input)))`, where nothing else uses the
/// three nodes.
pub open spec fn silu_argument<T>(ir: GraphIR<T>, id: NodeId) -> Option<NodeId> {
    match ir.op(id) {
        Operation::PairwiseMul(product) => match ir.op(product.input.idx) {
            Operation::Concat(pair) => match ir.op(pair.b.idx) {
                Operation::Unary(gate) => if ir.uses(id) == 1 && ir.uses(product.input.idx) == 1
                    && ir.uses(pair.b.idx) == 1 && gate.op == UnaryOp::DiffableFromOutput(
                    DiffableFromOutput::Sigmoid,
                ) && gate.input.idx == pair.a.idx {
                    Some(pair.a.idx)
                } else {
                    None
                },
                _ => None,
            },
            _ => None,
        },
        _ => None,
    }
}

/// The weights and the input of a base path that ends in the node `id`:
/// `Matmul(weights, silu(input))`, where nothing else uses any of its nodes.
pub open spec fn base_path<T>(ir: GraphIR<T>, id: NodeId) -> Option<(AnnotatedNode, NodeId)> {
    match ir.op(id) {
        Operation::Matmul(product) => match silu_argument(ir, product.b.idx) {
            Some(input) => if ir.uses(id) == 1 && !product.transa && !product.transb {
                Some((product.a, input))
            } else {
                None
            },
            None => None,
        },
        _ => None,
    }
}

/// The KAN layer whose spline path ends in the node `spline` and whose base path
/// ends in the node `base`, if the two take the same input and their weights
/// have the shapes of one layer.
pub open spec fn kan_pattern<T>(ir: GraphIR<T>, spline: NodeId, base: NodeId) -> Option<
    FusedKanLayer,
> {
    match (spline_path(ir, spline), base_path(ir, base)) {
        (Some((spline_weight, basis)), Some((base_weight, base_input))) => {
            let layer = FusedKanLayer {
                input: basis.input,
                grid: basis.grid,
                spline_weight,
                base_weight,
                grid_size: basis.grid_size,
                spline_order: basis.spline_order,
            };
            if base_input == basis.input.idx && spline_weight.shape.cols == layer.basis_rows()
                && base_weight.shape == (Shape {
                rows: spline_weight.shape.rows,
                cols: basis.input.shape.rows,
            }) {
                Some(layer)
            } else {
                None
            }
        },
        _ => None,
    }
}

/// The two nodes that the node `target` adds up, if it does nothing else.
pub open spec fn plain_sum<T: Algebra>(ir: GraphIR<T>, target: NodeId) -> Option<
    (NodeId, NodeId),
> {
    match ir.op(target) {
        Operation::LinearCombination(sum) => if sum.items@.len() == 2 && sum.items@[0].1.same(one())
            && sum.items@[1].1.same(one()) {
            Some((sum.items@[0].0, sum.items@[1].0))
        } else {
            None
        },
        _ => None,
    }
}

/// The KAN layer that ends in the node `target`, with its paths in either order.
pub open spec fn kan_layer_at<T: Algebra>(ir: GraphIR<T>, target: NodeId) -> Option<
    FusedKanLayer,
> {
    match plain_sum(ir, target) {
        Some((a, b)) => match kan_pattern(ir, a, b) {
            Some(layer) => Some(layer),
            None => kan_pattern(ir, b, a),
        },
        None => None,
    }
}

/// What comes of an attempt to put `layer` in the place of the node `target`.
pub open spec fn fused<T>(before: GraphIR<T>, target: NodeId, layer: Option<FusedKanLayer>) -> (
    Result<bool, GraphIRError>,
    Seq<IrNode<T>>,
) {
    match layer {
        Some(layer) => {
            let op = Operation::FusedKanLayer(layer);
            match before.replacement(target, op) {
                Ok(_) => (
                    Ok(true),
                    before.nodes@.update(
                        target.0 as int,
                        IrNode { op, data: before.data(target) },
                    ),
                ),
                Err(e) => (Err(e), before.nodes@),
            }
        },
        None => (Ok(false), before.nodes@),
    }
}

/// Finds KAN layers and makes one operation of each.
#[derive(Clone, Copy, Debug)]
pub struct FuseKanLayer;

impl FuseKanLayer {
    /// Replaces the node `target` if it is the end of a KAN layer. Says whether
    /// it did.
    pub fn try_pass_on_node<T: Scalar>(&self, ir: &mut GraphIR<T>, target: NodeId) -> (r: Result<
        bool,
        GraphIRError,
    >)
        requires
            old(ir).wf(),
        ensures
            final(ir).wf(),
            (r, final(ir).nodes@) == (if old(ir).contains(target) {
                fused(*old(ir), target, kan_layer_at(*old(ir), target))
            } else {
                (Err(GraphIRError::NodeDoesNotExist), old(ir).nodes@)
            }),
            !(r matches Ok(true)) ==> *final(ir) == *old(ir),
    {
        let mut pair: Option<(NodeId, NodeId)> = None;
        let node = ir.get(target)?;
        // Look for a sum of exactly two nodes, both with weight one.
        if let Operation::LinearCombination(sum) = &node.op {
            if sum.items.len() == 2 {
                let (a, a_weight) = sum.items[0];
                let (b, b_weight) = sum.items[1];
                let unit: T = T::from_count(1);
                if a_weight.is_same(unit) && b_weight.is_same(unit) {
                    pair = Some((a, b));
                    proof {
                        assert(ir.node_wf(target.0 as int));
                        let parents = node.op.parents();
                        lemma_parents_exist(*ir, node.op);
                        assert(parents[0].idx == a && parents[1].idx == b);
                    }
                }
            }
        }
        if let Some((a, b)) = pair {
            // Either of the two can be the spline path.
            if try_fuse(ir, target, a, b)? {
                return Ok(true);
            }
            if try_fuse(ir, target, b, a)? {
                return Ok(true);
            }
        }
        Ok(false)
    }
}

/// The parents of an operation with a result are nodes of the graph.
pub(crate) proof fn lemma_parents_exist<T>(ir: GraphIR<T>, op: Operation<T>)
    requires
        ir.result(op) is Ok,
    ensures
        forall|j: int|
            0 <= j < op.parents().len() ==> ir.contains((#[trigger] op.parents()[j]).idx)
                && ir.data(op.parents()[j].idx).shape == op.parents()[j].shape,
{
    lemma_parents_exist_from(ir, op.parents(), 0);
}

proof fn lemma_parents_exist_from<T>(ir: GraphIR<T>, parents: Seq<AnnotatedNode>, from: int)
    requires
        parent_error(ir, parents, from) is None,
        0 <= from,
    ensures
        forall|j: int|
            from <= j < parents.len() ==> ir.contains((#[trigger] parents[j]).idx) && ir.data(
                parents[j].idx,
            ).shape == parents[j].shape,
    decreases parents.len() - from,
{
    if from < parents.len() {
        lemma_parents_exist_from(ir, parents, from + 1);
    }
}

/// Makes one operation in the place of `target` of the KAN layer whose paths end
/// in the two candidates. Says whether there is such a layer.
///
/// The graph that is looked for:
/// ```text
///   target
///     +-- Matmul(spline_weight, BSplineBasis(input, grid))
///     +-- Matmul(base_weight, PairwiseMul(Concat(input, Sigmoid(input))))
/// ```
pub fn try_fuse<T>(
    ir: &mut GraphIR<T>,
    target: NodeId,
    spline_candidate: NodeId,
    base_candidate: NodeId,
) -> (r: Result<bool, GraphIRError>)
    requires
        old(ir).wf(),
    ensures
        final(ir).wf(),
        (r, final(ir).nodes@) == (if old(ir).contains(spline_candidate) && old(ir).contains(
            base_candidate,
        ) {
            fused(*old(ir), target, kan_pattern(*old(ir), spline_candidate, base_candidate))
        } else {
            (Err(GraphIRError::NodeDoesNotExist), old(ir).nodes@)
        }),
        !(r matches Ok(true)) ==> *final(ir) == *old(ir),
{
    let spline_data = ir.get(spline_candidate)?;
    let base_data = ir.get(base_candidate)?;
    assert(ir.node_wf(spline_candidate.0 as int) && ir.node_wf(base_candidate.0 as int));

    // Nothing but the sum may use the two products.
    if !ir.used_once(spline_candidate) || !ir.used_once(base_candidate) {
        return Ok(false);
    }
    // The spline path.
    let spline: Matmul = match &spline_data.op {
        Operation::Matmul(product) => *product,
        _ => {
            return Ok(false);
        },
    };
    if spline.transa || spline.transb {
        return Ok(false);
    }
    proof {
        lemma_parents_exist(*ir, spline_data.op);
        assert(spline_data.op.parents()[1] == spline.b);
        assert(ir.node_wf(spline.b.idx.0 as int));
    }
    let basis_data = ir.get(spline.b.idx)?;
    if !ir.used_once(spline.b.idx) {
        return Ok(false);
    }
    let basis: BSplineBasis = match &basis_data.op {
        Operation::BSplineBasis(basis) => *basis,
        _ => {
            return Ok(false);
        },
    };

    // The base path.
    let base: Matmul = match &base_data.op {
        Operation::Matmul(product) => *product,
        _ => {
            return Ok(false);
        },
    };
    if base.transa || base.transb {
        return Ok(false);
    }
    proof {
        lemma_parents_exist(*ir, base_data.op);
        assert(base_data.op.parents()[1] == base.b);
        assert(ir.node_wf(base.b.idx.0 as int));
    }
    let silu_data = ir.get(base.b.idx)?;
    if !ir.used_once(base.b.idx) {
        return Ok(false);
    }
    let halves: PairwiseMul = match &silu_data.op {
        Operation::PairwiseMul(product) => *product,
        _ => {
            return Ok(false);
        },
    };
    proof {
        lemma_parents_exist(*ir, silu_data.op);
        assert(silu_data.op.parents()[0] == halves.input);
        assert(ir.node_wf(halves.input.idx.0 as int));
    }
    let concat_data = ir.get(halves.input.idx)?;
    if !ir.used_once(halves.input.idx) {
        return Ok(false);
    }
    let pair: Concat = match &concat_data.op {
        Operation::Concat(pair) => *pair,
        _ => {
            return Ok(false);
        },
    };
    // Both paths must take the same input.
    if pair.a.idx != basis.input.idx {
        assert(kan_pattern(*ir, spline_candidate, base_candidate) is None);
        return Ok(false);
    }
    proof {
        lemma_parents_exist(*ir, concat_data.op);
        assert(concat_data.op.parents()[1] == pair.b);
        assert(ir.node_wf(pair.b.idx.0 as int));
    }
    let gate_data = ir.get(pair.b.idx)?;
    if !ir.used_once(pair.b.idx) {
        return Ok(false);
    }
    let gate: Unary = match &gate_data.op {
        Operation::Unary(gate) => *gate,
        _ => {
            return Ok(false);
        },
    };
    if gate.op != UnaryOp::DiffableFromOutput(DiffableFromOutput::Sigmoid) {
        return Ok(false);
    }
    if gate.input.idx != basis.input.idx {
        return Ok(false);
    }
    // The weights must have the shapes of one layer.
    let in_features: usize = basis.input.shape.rows();
    let out_features: usize = spline.a.shape.rows();
    if spline.a.shape.cols() != in_features * (basis.grid_size + basis.spline_order) {
        return Ok(false);
    }
    if base.a.shape.rows() != out_features || base.a.shape.cols() != in_features {
        return Ok(false);
    }
    let layer: FusedKanLayer = FusedKanLayer {
        input: basis.input,
        grid: basis.grid,
        spline_weight: spline.a,
        base_weight: base.a,
        grid_size: basis.grid_size,
        spline_order: basis.spline_order,
    };
    ir.replace(target, Operation::FusedKanLayer(layer))?;
    Ok(true)
}

/// A KAN layer with SiLU in its base path:
/// `spline_weight * basis(input) + base_weight * silu(input)`.
#[derive(Clone, Copy, Debug, PartialEq, Eq, Structural)]
pub struct FusedKanLayer {
    /// The points.
    pub input: AnnotatedNode,
    /// The knots.
    pub grid: AnnotatedNode,
    /// The weights of the basis values.
    pub spline_weight: AnnotatedNode,
    /// The weights of the base path.
    pub base_weight: AnnotatedNode,
    /// The number of intervals that the input range is divided into.
    pub grid_size: usize,
    /// The degree of the splines.
    pub spline_order: usize,
}

impl FusedKanLayer {
    /// The nodes that the operation takes.
    pub open spec fn parents(self) -> Seq<AnnotatedNode> {
        seq![self.input, self.grid, self.spline_weight, self.base_weight]
    }

    /// The number of basis values for the whole input.
    pub open spec fn basis_rows(self) -> int {
        self.input.shape.rows * num_basis(self.grid_size as int, self.spline_order as int)
    }

    /// The number of knots.
    pub open spec fn knots(self) -> int {
        num_knots(self.grid_size as int, self.spline_order as int)
    }

    /// Whether the sizes that the operation works out can be represented.
    pub open spec fn fits(self) -> bool {
        self.knots() <= usize::MAX && self.basis_rows() <= usize::MAX
    }

    /// The shape of the layer's output, or what is wrong with the inputs.
    pub open spec fn shape_in<T>(self, ir: GraphIR<T>) -> Result<Shape, GraphIRError> {
        let out_features = self.spline_weight.shape.rows;
        let spline = Shape { rows: out_features, cols: self.basis_rows() as usize };
        let base = Shape { rows: out_features, cols: self.input.shape.rows };
        let knots = Shape { rows: self.knots() as usize, cols: 1 };
        let layout = either(
            layout_error(ir, self.input, true),
            either(
                layout_error(ir, self.grid, true),
                either(
                    batch_error(ir, self.grid),
                    either(
                        layout_error(ir, self.spline_weight, true),
                        layout_error(ir, self.base_weight, true),
                    ),
                ),
            ),
        );
        let training = either(
            batch_error(ir, self.spline_weight),
            either(
                batch_error(ir, self.base_weight),
                either(grad_error(ir, self.spline_weight), grad_error(ir, self.base_weight)),
            ),
        );
        match either(layout, training) {
            Some(e) => Err(e),
            None => if self.input.shape.cols != 1 {
                Err(GraphIRError::Op(GraphIROperationError::InvalidInputShape(self.input.shape)))
            } else if self.spline_weight.shape.cols != self.basis_rows() {
                Err(
                    GraphIRError::Op(
                        GraphIROperationError::MismatchedInputShapes {
                            found: self.spline_weight.shape,
                            expected: spline,
                        },
                    ),
                )
            } else if self.base_weight.shape != base {
                Err(
                    GraphIRError::Op(
                        GraphIROperationError::MismatchedInputShapes {
                            found: self.base_weight.shape,
                            expected: base,
                        },
                    ),
                )
            } else if self.grid.shape != knots {
                Err(
                    GraphIRError::Op(
                        GraphIROperationError::MismatchedInputShapes {
                            found: self.grid.shape,
                            expected: knots,
                        },
                    ),
                )
            } else {
                Ok(Shape { rows: out_features, cols: 1 })
            },
        }
    }

    /// Lists the nodes that the operation takes.
    pub fn nodes(&self) -> (r: Vec<AnnotatedNode>)
        ensures
            r@ == self.parents(),
    {
        vec![self.input, self.grid, self.spline_weight, self.base_weight]
    }

    /// Works out the shape of the layer's output.
    pub fn output_shape<T>(&self, ir: &GraphIR<T>) -> (r: Result<Shape, GraphIRError>)
        requires
            self.fits(),
        ensures
            r == self.shape_in(*ir),
    {
        check_dense_eq(ir, &self.input, true)?;
        check_dense_eq(ir, &self.grid, true)?;
        check_not_batched(ir, &self.grid)?;
        check_dense_eq(ir, &self.spline_weight, true)?;
        check_dense_eq(ir, &self.base_weight, true)?;
        check_not_batched(ir, &self.spline_weight)?;
        check_not_batched(ir, &self.base_weight)?;
        check_has_grad(ir, &self.spline_weight)?;
        check_has_grad(ir, &self.base_weight)?;

        let in_features: usize = self.input.shape.rows();
        let width: usize = self.grid_size + self.spline_order;
        let out_features: usize = self.spline_weight.shape.rows();

        if self.input.shape.cols() != 1 {
            return Err(
                GraphIRError::Op(GraphIROperationError::InvalidInputShape(self.input.shape)),
            );
        }
        if self.spline_weight.shape.cols() != in_features * width {
            return Err(
                GraphIRError::Op(
                    GraphIROperationError::MismatchedInputShapes {
                        found: self.spline_weight.shape,
                        expected: Shape::new(out_features, in_features * width),
                    },
                ),
            );
        }
        if self.base_weight.shape != Shape::new(out_features, in_features) {
            return Err(
                GraphIRError::Op(
                    GraphIROperationError::MismatchedInputShapes {
                        found: self.base_weight.shape,
                        expected: Shape::new(out_features, in_features),
                    },
                ),
            );
        }
        let knots: Shape = Shape::new(self.grid_size + 2 * self.spline_order + 1, 1);
        if self.grid.shape != knots {
            return Err(
                GraphIRError::Op(
                    GraphIROperationError::MismatchedInputShapes {
                        found: self.grid.shape,
                        expected: knots,
                    },
                ),
            );
        }
        Ok(Shape::new(out_features, 1))
    }

    /// The shapes of the scratch memory, how many entries can be nonzero where it is
    /// sparse, and whether it is batched.
    pub open spec fn scratch(self) -> Seq<(Shape, Option<usize>, bool)> {
        seq![
            (Shape { rows: self.basis_rows() as usize, cols: 1 }, None, true),
            (Shape { rows: self.input.shape.rows, cols: 1 }, None, true),
        ]
    }

    /// The scratch memory that the layer needs: room for the basis values and
    /// for the SiLU values, both dense and batched.
    pub fn ancillary_buffers<T>(&self, _ir: &GraphIR<T>) -> (r: Result<
        Vec<(Shape, Option<usize>, bool)>,
        GraphIRError,
    >)
        requires
            self.fits(),
        ensures
            r is Ok,
            r->Ok_0@ == seq![
                (Shape { rows: self.basis_rows() as usize, cols: 1 }, None::<usize>, true),
                (Shape { rows: self.input.shape.rows, cols: 1 }, None::<usize>, true),
            ],
            r->Ok_0@ == self.scratch(),
    {
        let in_features: usize = self.input.shape.rows();
        let width: usize = self.grid_size + self.spline_order;
        Ok(
            vec![
                (Shape::new(in_features * width, 1), None, true),
                (Shape::new(in_features, 1), None, true),
            ],
        )
    }

    /// The name of the operation, with its sizes.
    pub open spec fn label(self) -> Seq<char> {
        "FusedKanLayer(grid="@ + decimal_of(self.grid_size as nat) + ", order="@ + decimal_of(
            self.spline_order as nat,
        ) + ")"@
    }

    /// A short description of the operation.
    pub fn shorthand(&self) -> (r: String)
        ensures
            r@ == "FusedKanLayer(grid="@ + decimal_of(self.grid_size as nat) + ", order="@
                + decimal_of(self.spline_order as nat) + ")"@,
            r@ == self.label(),
    {
        String::from_str("FusedKanLayer(grid=").concat(decimal(self.grid_size).as_str()).concat(
            ", order=",
        ).concat(decimal(self.spline_order).as_str()).concat(")")
    }
}

} // verus!
