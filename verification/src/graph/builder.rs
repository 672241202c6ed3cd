//! Building graphs node by node.

use vstd::prelude::*;

use crate::graph::ir::operation::bspline::BSplineBasis;
use crate::graph::ir::operation::relu_kan::ReluKanBasis;
use crate::graph::ir::operation::{
    Concat, DiffableFromOutput, LinearCombination, Matmul, Operation, PairwiseMul, Unary, UnaryOp,
};
use crate::graph::ir::{parent_error, AnnotatedNode, GraphIR, IrNode, NodeData, NodeInfo};
use crate::graph::NodeId;
use crate::scalar::{one, Scalar};
use crate::tensor::Shape;

verus! {

/// What weights are before training.
#[derive(Debug)]
pub enum InitSettings<T> {
    /// All zero.
    Zeroed,
    /// Drawn from a normal distribution.
    Normal {
        /// The mean of the distribution.
        mean: T,
        /// Its standard deviation.
        stdev: T,
    },
}

/// Weights that are to be trained.
pub struct Weight<T> {
    /// The name of the weights.
    pub name: String,
    /// Their node.
    pub node: NodeId,
    /// What they are before training.
    pub init: InitSettings<T>,
}

/// A graph under construction.
pub struct GraphBuilder<T> {
    /// The nodes so far.
    pub ir: GraphIR<T>,
    /// The weights so far.
    pub weights: Vec<Weight<T>>,
}

/// The node at index `i`, with values of shape `shape`.
pub open spec fn node_at(i: int, shape: Shape) -> AnnotatedNode {
    AnnotatedNode { idx: NodeId(i as usize), shape }
}

/// The data of trained weights of shape `shape`.
pub open spec fn weight_data(shape: Shape) -> NodeData {
    NodeData { shape, info: NodeInfo { requires_grad: true, sparse: None, batched: false } }
}

/// The data of constants of shape `shape`.
pub open spec fn constant_data(shape: Shape) -> NodeData {
    NodeData { shape, info: NodeInfo { requires_grad: false, sparse: None, batched: false } }
}

/// The data of inputs of shape `shape`, of which there is one for each element
/// of the batch.
pub open spec fn input_data(shape: Shape) -> NodeData {
    NodeData { shape, info: NodeInfo { requires_grad: false, sparse: None, batched: true } }
}

impl<T> GraphBuilder<T> {
    /// Whether the graph is in order.
    pub open spec fn wf(self) -> bool {
        self.ir.wf()
    }

    /// The number of nodes so far.
    pub open spec fn size(self) -> int {
        self.ir.nodes@.len() as int
    }

    /// Whether there are weights of this name.
    pub open spec fn has_weight(self, name: Seq<char>) -> bool {
        exists|i: int| 0 <= i < self.weights.len() && (#[trigger] self.weights[i]).name@ == name
    }

    /// Whether `node` is a node of the graph, with the shape that it is said to
    /// have.
    pub open spec fn knows(self, node: AnnotatedNode) -> bool {
        self.ir.contains(node.idx) && self.ir.data(node.idx).shape == node.shape
    }

    /// Whether `self` is `before` with further nodes.
    pub open spec fn extends(self, before: GraphBuilder<T>) -> bool {
        &&& self.size() >= before.size()
        &&& self.ir.nodes@.take(before.size()) == before.ir.nodes@
        &&& self.weights == before.weights
    }

    /// An empty graph.
    pub fn new() -> (r: Self)
        ensures
            r.wf(),
            r.size() == 0,
            r.weights@.len() == 0,
    {
        GraphBuilder { ir: GraphIR::new(), weights: Vec::new() }
    }

    /// Adds inputs, of which there is one for each element of the batch.
    pub fn new_dense_input(&mut self, shape: Shape) -> (r: AnnotatedNode)
        requires
            old(self).wf(),
        ensures
            final(self).wf(),
            final(self).ir.nodes@ == old(self).ir.nodes@.push(
                IrNode { op: Operation::Input, data: input_data(shape) },
            ),
            final(self).weights == old(self).weights,
            r == node_at(old(self).size(), shape),
    {
        let info: NodeInfo = NodeInfo { requires_grad: false, sparse: None, batched: true };
        self.ir.add_leaf(Operation::Input, NodeData { shape, info })
    }

    /// Adds weights under a new name.
    pub fn new_weights(&mut self, id: &str, shape: Shape, init: InitSettings<T>) -> (r:
        AnnotatedNode)
        requires
            old(self).wf(),
            !old(self).has_weight(id@),
        ensures
            final(self).wf(),
            final(self).ir.nodes@ == old(self).ir.nodes@.push(
                IrNode { op: Operation::Weights, data: weight_data(shape) },
            ),
            final(self).weights@.len() == old(self).weights@.len() + 1,
            final(self).weights@.drop_last() == old(self).weights@,
            final(self).weights@.last().name@ == id@,
            final(self).weights@.last().node == r.idx,
            final(self).weights@.last().init == init,
            r == node_at(old(self).size(), shape),
    {
        let info: NodeInfo = NodeInfo { requires_grad: true, sparse: None, batched: false };
        let node: AnnotatedNode = self.ir.add_leaf(Operation::Weights, NodeData { shape, info });
        self.weights.push(Weight { name: id.to_string(), node: node.idx, init });
        assert(self.weights@.drop_last() =~= old(self).weights@);
        node
    }

    /// Adds constants.
    pub fn new_constant(&mut self, shape: Shape, vals: Vec<T>) -> (r: AnnotatedNode)
        requires
            old(self).wf(),
            vals.len() == shape.rows * shape.cols,
        ensures
            final(self).wf(),
            final(self).ir.nodes@ == old(self).ir.nodes@.push(
                IrNode { op: Operation::Constant(vals), data: constant_data(shape) },
            ),
            final(self).weights == old(self).weights,
            r == node_at(old(self).size(), shape),
    {
        let info: NodeInfo = NodeInfo { requires_grad: false, sparse: None, batched: false };
        self.ir.add_leaf(Operation::Constant(vals), NodeData { shape, info })
    }

    /// Adds a node with an operation that must be possible.
    pub fn apply(&mut self, op: Operation<T>) -> (r: AnnotatedNode)
        requires
            old(self).wf(),
            op.fits(),
            !op.is_leaf(),
            old(self).ir.result(op) is Ok,
        ensures
            final(self).wf(),
            final(self).extends(*old(self)),
            final(self).ir.nodes@ == old(self).ir.nodes@.push(
                IrNode { op, data: old(self).ir.result(op)->Ok_0 },
            ),
            r == node_at(old(self).size(), old(self).ir.result(op)->Ok_0.shape),
    {
        let r: AnnotatedNode = self.ir.add(op).unwrap();
        assert(self.ir.nodes@.take(old(self).size()) =~= old(self).ir.nodes@);
        r
    }

    /// Nodes that are known stay known.
    pub(crate) proof fn lemma_extends_knows(self, before: GraphBuilder<T>, node: AnnotatedNode)
        requires
            self.extends(before),
            before.knows(node),
        ensures
            self.knows(node),
            self.ir.data(node.idx) == before.ir.data(node.idx),
    {
        assert(self.ir.nodes@.take(before.size())[node.idx.0 as int]
            == self.ir.nodes@[node.idx.0 as int]);
    }

    /// Adds the product of two matrices.
    pub fn matmul(&mut self, a: AnnotatedNode, b: AnnotatedNode) -> (r: AnnotatedNode)
        requires
            old(self).wf(),
            old(self).knows(a),
            old(self).knows(b),
            a.shape.cols == b.shape.rows,
        ensures
            final(self).wf(),
            final(self).extends(*old(self)),
            final(self).size() == old(self).size() + 1,
            final(self).ir.op(r.idx) == Operation::<T>::Matmul(
                Matmul { a, transa: false, b, transb: false },
            ),
            final(self).knows(r),
            r == node_at(old(self).size(), Shape { rows: a.shape.rows, cols: b.shape.cols }),
    {
        let op: Operation<T> = Operation::Matmul(Matmul { a, transa: false, b, transb: false });
        proof {
            lemma_two_parents(self.ir, op.parents());
        }
        self.apply(op)
    }

    /// Adds the values of B-spline basis functions.
    pub fn bspline_basis(
        &mut self,
        input: AnnotatedNode,
        grid: AnnotatedNode,
        grid_size: usize,
        spline_order: usize,
    ) -> (r: AnnotatedNode)
        requires
            old(self).wf(),
            old(self).knows(input),
            old(self).knows(grid),
            (BSplineBasis { input, grid, grid_size, spline_order }).fits(),
            (BSplineBasis { input, grid, grid_size, spline_order }).shape_in(old(self).ir) is Ok,
        ensures
            final(self).wf(),
            final(self).extends(*old(self)),
            final(self).size() == old(self).size() + 1,
            final(self).ir.op(r.idx) == Operation::<T>::BSplineBasis(
                BSplineBasis { input, grid, grid_size, spline_order },
            ),
            final(self).knows(r),
            r == node_at(
                old(self).size(),
                (BSplineBasis { input, grid, grid_size, spline_order }).shape_in(
                    old(self).ir,
                )->Ok_0,
            ),
    {
        let op: Operation<T> = Operation::BSplineBasis(
            BSplineBasis { input, grid, grid_size, spline_order },
        );
        proof {
            lemma_two_parents(self.ir, op.parents());
        }
        self.apply(op)
    }

    /// Adds the values of ReLU-KAN basis functions.
    pub fn relu_kan_basis(
        &mut self,
        input: AnnotatedNode,
        grid: AnnotatedNode,
        grid_size: usize,
        support_width: usize,
    ) -> (r: AnnotatedNode)
        requires
            old(self).wf(),
            old(self).knows(input),
            old(self).knows(grid),
            (ReluKanBasis { input, grid, grid_size, support_width }).fits(),
            (ReluKanBasis { input, grid, grid_size, support_width }).shape_in(old(self).ir) is Ok,
        ensures
            final(self).wf(),
            final(self).extends(*old(self)),
            final(self).size() == old(self).size() + 1,
            final(self).ir.op(r.idx) == Operation::<T>::ReluKanBasis(
                ReluKanBasis { input, grid, grid_size, support_width },
            ),
            final(self).knows(r),
            r == node_at(
                old(self).size(),
                (ReluKanBasis { input, grid, grid_size, support_width }).shape_in(
                    old(self).ir,
                )->Ok_0,
            ),
    {
        let op: Operation<T> = Operation::ReluKanBasis(
            ReluKanBasis { input, grid, grid_size, support_width },
        );
        proof {
            lemma_two_parents(self.ir, op.parents());
        }
        self.apply(op)
    }

    /// Adds a function of each entry of a node.
    pub fn unary(&mut self, input: AnnotatedNode, function: DiffableFromOutput) -> (r:
        AnnotatedNode)
        requires
            old(self).wf(),
            old(self).knows(input),
        ensures
            final(self).wf(),
            final(self).extends(*old(self)),
            final(self).size() == old(self).size() + 1,
            final(self).ir.op(r.idx) == Operation::<T>::Unary(
                Unary { input, op: UnaryOp::DiffableFromOutput(function) },
            ),
            final(self).knows(r),
            r == node_at(old(self).size(), input.shape),
    {
        let op: Operation<T> = Operation::Unary(
            Unary { input, op: UnaryOp::DiffableFromOutput(function) },
        );
        proof {
            lemma_one_parent(self.ir, op.parents());
        }
        self.apply(op)
    }

    /// Adds the products of the entries of two nodes: the nodes on top of each
    /// other, and then the products of the halves.
    pub fn product(&mut self, a: AnnotatedNode, b: AnnotatedNode) -> (r: AnnotatedNode)
        requires
            old(self).wf(),
            old(self).knows(a),
            old(self).knows(b),
            a.shape == b.shape,
            2 * a.shape.rows <= usize::MAX,
        ensures
            final(self).wf(),
            final(self).extends(*old(self)),
            final(self).size() == old(self).size() + 2,
            final(self).ir.nodes@[old(self).size()].op == Operation::<T>::Concat(Concat { a, b }),
            final(self).ir.op(r.idx) == Operation::<T>::PairwiseMul(
                PairwiseMul {
                    input: node_at(
                        old(self).size(),
                        Shape { rows: (2 * a.shape.rows) as usize, cols: a.shape.cols },
                    ),
                },
            ),
            final(self).knows(r),
            r == node_at(old(self).size() + 1, a.shape),
    {
        let both: Operation<T> = Operation::Concat(Concat { a, b });
        proof {
            lemma_two_parents(self.ir, both.parents());
        }
        let input: AnnotatedNode = self.apply(both);
        let ghost between = *self;
        let halves: Operation<T> = Operation::PairwiseMul(PairwiseMul { input });
        proof {
            lemma_one_parent(self.ir, halves.parents());
        }
        let r: AnnotatedNode = self.apply(halves);
        assert(self.ir.nodes@.take(old(self).size()) =~= old(self).ir.nodes@);
        r
    }
}

impl<T: Scalar> GraphBuilder<T> {
    /// Adds the sum of two nodes.
    pub fn sum(&mut self, a: AnnotatedNode, b: AnnotatedNode) -> (r: AnnotatedNode)
        requires
            old(self).wf(),
            old(self).knows(a),
            old(self).knows(b),
            a.shape == b.shape,
        ensures
            final(self).wf(),
            final(self).extends(*old(self)),
            final(self).size() == old(self).size() + 1,
            final(self).ir.op(r.idx) matches Operation::LinearCombination(sum) && sum.items@
                == seq![(a.idx, one::<T>()), (b.idx, one::<T>())] && sum.shape == a.shape,
            final(self).knows(r),
            r == node_at(old(self).size(), a.shape),
    {
        let items: Vec<(NodeId, T)> = vec![(a.idx, T::from_count(1)), (b.idx, T::from_count(1))];
        let op: Operation<T> = Operation::LinearCombination(
            LinearCombination { items, shape: a.shape },
        );
        proof {
            assert(op.parents() =~= seq![a, b]);
            lemma_two_parents(self.ir, op.parents());
        }
        self.apply(op)
    }
}

/// A single parent that is a node of the graph is in order.
proof fn lemma_one_parent<T>(ir: GraphIR<T>, parents: Seq<AnnotatedNode>)
    requires
        parents.len() == 1,
        ir.contains(parents[0].idx) && ir.data(parents[0].idx).shape == parents[0].shape,
    ensures
        parent_error(ir, parents, 0) is None,
{
    assert(parent_error(ir, parents, 1) is None);
}

/// Two parents that are nodes of the graph are in order.
proof fn lemma_two_parents<T>(ir: GraphIR<T>, parents: Seq<AnnotatedNode>)
    requires
        parents.len() == 2,
        ir.contains(parents[0].idx) && ir.data(parents[0].idx).shape == parents[0].shape,
        ir.contains(parents[1].idx) && ir.data(parents[1].idx).shape == parents[1].shape,
    ensures
        parent_error(ir, parents, 0) is None,
{
    assert(parent_error(ir, parents, 2) is None);
    assert(parent_error(ir, parents, 1) is None);
}

} // verus!
