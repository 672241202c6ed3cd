//! Activation functions for the base path of a KAN layer.

use vstd::prelude::*;

use crate::graph::builder::{node_at, GraphBuilder};
use crate::graph::ir::operation::{
    Concat, DiffableFromOutput, Operation, PairwiseMul, Unary, UnaryOp,
};
use crate::graph::ir::AnnotatedNode;
use crate::scalar::Scalar;
use crate::tensor::Shape;

verus! {

/// A way to turn a node into another one by adding nodes to a graph.
pub trait BaseActivation<T: Scalar>: Sized {
    /// Whether it takes nodes of this shape.
    spec fn accepts(self, shape: Shape) -> bool;

    /// The operations of the nodes that it adds to a graph of `size` nodes.
    spec fn added(self, size: int, input: AnnotatedNode) -> Seq<Operation<T>>;

    /// The node that it leads to.
    spec fn output(self, size: int, input: AnnotatedNode) -> AnnotatedNode;

    /// Adds the nodes.
    fn apply(self, builder: &mut GraphBuilder<T>, input: AnnotatedNode) -> (r: AnnotatedNode)
        requires
            old(builder).wf(),
            old(builder).knows(input),
            self.accepts(input.shape),
        ensures
            final(builder).wf(),
            final(builder).extends(*old(builder)),
            final(builder).size() == old(builder).size() + self.added(
                old(builder).size(),
                input,
            ).len(),
            forall|i: int|
                old(builder).size() <= i < final(builder).size() ==> (
                #[trigger] final(builder).ir.nodes@[i]).op == self.added(
                    old(builder).size(),
                    input,
                )[i - old(builder).size()],
            final(builder).knows(r),
            r == self.output(old(builder).size(), input),
    ;
}

/// `x * sigmoid(x)`.
#[derive(Clone, Copy, Debug)]
pub struct Silu;

/// The square of the part of `x` between zero and one.
#[derive(Clone, Copy, Debug)]
pub struct Screlu;

/// `x` itself.
#[derive(Clone, Copy, Debug)]
pub struct Linear;

impl<T: Scalar> BaseActivation<T> for Silu {
    open spec fn accepts(self, shape: Shape) -> bool {
        2 * shape.rows <= usize::MAX
    }

    open spec fn added(self, size: int, input: AnnotatedNode) -> Seq<Operation<T>> {
        let both = Shape { rows: (2 * input.shape.rows) as usize, cols: input.shape.cols };
        seq![
            Operation::Unary(
                Unary { input, op: UnaryOp::DiffableFromOutput(DiffableFromOutput::Sigmoid) },
            ),
            Operation::Concat(Concat { a: input, b: node_at(size, input.shape) }),
            Operation::PairwiseMul(PairwiseMul { input: node_at(size + 1, both) }),
        ]
    }

    open spec fn output(self, size: int, input: AnnotatedNode) -> AnnotatedNode {
        node_at(size + 2, input.shape)
    }

    fn apply(self, builder: &mut GraphBuilder<T>, input: AnnotatedNode) -> (r: AnnotatedNode) {
        let gate: AnnotatedNode = builder.unary(input, DiffableFromOutput::Sigmoid);
        let ghost between = *builder;
        proof {
            between.lemma_extends_knows(*old(builder), input);
        }
        let r: AnnotatedNode = builder.product(input, gate);
        proof {
            assert(builder.ir.nodes@.take(between.size())[gate.idx.0 as int]
                == builder.ir.nodes@[gate.idx.0 as int]);
            assert(builder.ir.nodes@.take(old(builder).size()) =~= builder.ir.nodes@.take(
                between.size(),
            ).take(old(builder).size()));
        }
        r
    }
}

impl<T: Scalar> BaseActivation<T> for Screlu {
    open spec fn accepts(self, shape: Shape) -> bool {
        true
    }

    open spec fn added(self, size: int, input: AnnotatedNode) -> Seq<Operation<T>> {
        seq![
            Operation::Unary(
                Unary { input, op: UnaryOp::DiffableFromOutput(DiffableFromOutput::SCReLU) },
            ),
        ]
    }

    open spec fn output(self, size: int, input: AnnotatedNode) -> AnnotatedNode {
        node_at(size, input.shape)
    }

    fn apply(self, builder: &mut GraphBuilder<T>, input: AnnotatedNode) -> (r: AnnotatedNode) {
        builder.unary(input, DiffableFromOutput::SCReLU)
    }
}

impl<T: Scalar> BaseActivation<T> for Linear {
    open spec fn accepts(self, shape: Shape) -> bool {
        true
    }

    open spec fn added(self, size: int, input: AnnotatedNode) -> Seq<Operation<T>> {
        seq![]
    }

    open spec fn output(self, size: int, input: AnnotatedNode) -> AnnotatedNode {
        input
    }

    fn apply(self, builder: &mut GraphBuilder<T>, input: AnnotatedNode) -> (r: AnnotatedNode) {
        assert(builder.ir.nodes@.take(builder.size()) =~= builder.ir.nodes@);
        input
    }
}

} // verus!
