//! The operations that nodes of a graph can have.

pub mod bspline;
pub mod relu_kan;
pub mod util;

use vstd::prelude::*;

use crate::cuda::kan::FusedKanLayer;
use crate::graph::ir::{AnnotatedNode, GraphIR, GraphIRError, GraphIROperationError};
use crate::graph::NodeId;
use crate::tensor::Shape;
use bspline::BSplineBasis;
use relu_kan::ReluKanBasis;

verus! {

/// The product of two matrices, either of which can be transposed first.
#[derive(Clone, Copy, Debug, PartialEq, Eq, Structural)]
pub struct Matmul {
    /// The left factor.
    pub a: AnnotatedNode,
    /// Whether the left factor is transposed.
    pub transa: bool,
    /// The right factor.
    pub b: AnnotatedNode,
    /// Whether the right factor is transposed.
    pub transb: bool,
}

/// A weighted sum of nodes that all have the same shape.
pub struct LinearCombination<T> {
    /// The nodes and their weights.
    pub items: Vec<(NodeId, T)>,
    /// The shape of all nodes.
    pub shape: Shape,
}

/// The products of the entries in the upper half of a node with those in its
/// lower half.
#[derive(Clone, Copy, Debug, PartialEq, Eq, Structural)]
pub struct PairwiseMul {
    /// The node.
    pub input: AnnotatedNode,
}

/// Two nodes, one on top of the other.
#[derive(Clone, Copy, Debug, PartialEq, Eq, Structural)]
pub struct Concat {
    /// The upper node.
    pub a: AnnotatedNode,
    /// The lower node.
    pub b: AnnotatedNode,
}

/// Functions whose derivative follows from their value.
#[derive(Clone, Copy, Debug, PartialEq, Eq, Structural)]
pub enum DiffableFromOutput {
    /// The function that changes nothing.
    Identity,
    /// The positive part.
    ReLU,
    /// The part between zero and one.
    CReLU,
    /// The square of the part between zero and one.
    SCReLU,
    /// The logistic function.
    Sigmoid,
}

/// Functions that are applied to each entry of a node.
#[derive(Clone, Copy, Debug, PartialEq, Eq, Structural)]
pub enum UnaryOp {
    /// A function whose derivative follows from its value.
    DiffableFromOutput(DiffableFromOutput),
    /// The absolute value.
    Abs,
}

/// A function applied to each entry of a node.
#[derive(Clone, Copy, Debug, PartialEq, Eq, Structural)]
pub struct Unary {
    /// The node.
    pub input: AnnotatedNode,
    /// The function.
    pub op: UnaryOp,
}

/// What computes the values of a node.
pub enum Operation<T> {
    /// Nothing: the values are handed in.
    Input,
    /// Nothing: the values are trained.
    Weights,
    /// Nothing: the values are fixed.
    Constant(Vec<T>),
    /// A matrix product.
    Matmul(Matmul),
    /// A weighted sum.
    LinearCombination(LinearCombination<T>),
    /// A product of halves.
    PairwiseMul(PairwiseMul),
    /// A concatenation.
    Concat(Concat),
    /// A function of each entry.
    Unary(Unary),
    /// The values of B-spline basis functions.
    BSplineBasis(BSplineBasis),
    /// The values of ReLU-KAN basis functions.
    ReluKanBasis(ReluKanBasis),
    /// A whole KAN layer.
    FusedKanLayer(FusedKanLayer),
}

/// The shape of a matrix, or of its transpose.
pub open spec fn transposed_if(shape: Shape, transposed: bool) -> Shape {
    if transposed {
        Shape { rows: shape.cols, cols: shape.rows }
    } else {
        shape
    }
}

impl<T> Operation<T> {
    /// Whether the operation has no parents because the values of its node come
    /// from elsewhere.
    pub open spec fn is_leaf(self) -> bool {
        self is Input || self is Weights || self is Constant
    }

    /// The nodes that the operation takes.
    pub open spec fn parents(self) -> Seq<AnnotatedNode> {
        match self {
            Operation::Input => seq![],
            Operation::Weights => seq![],
            Operation::Constant(_) => seq![],
            Operation::Matmul(op) => seq![op.a, op.b],
            Operation::LinearCombination(op) => Seq::new(
                op.items@.len(),
                |i: int| AnnotatedNode { idx: op.items@[i].0, shape: op.shape },
            ),
            Operation::PairwiseMul(op) => seq![op.input],
            Operation::Concat(op) => seq![op.a, op.b],
            Operation::Unary(op) => seq![op.input],
            Operation::BSplineBasis(op) => op.parents(),
            Operation::ReluKanBasis(op) => op.parents(),
            Operation::FusedKanLayer(op) => op.parents(),
        }
    }

    /// Whether the sizes that the operation works out can be represented.
    pub open spec fn fits(self) -> bool {
        match self {
            Operation::Concat(op) => op.a.shape.rows + op.b.shape.rows <= usize::MAX,
            Operation::BSplineBasis(op) => op.fits(),
            Operation::ReluKanBasis(op) => op.fits(),
            Operation::FusedKanLayer(op) => op.fits(),
            _ => true,
        }
    }

    /// The shape that the operation yields in `ir`, or what is wrong with its
    /// inputs.
    pub open spec fn shape_in(self, ir: GraphIR<T>) -> Result<Shape, GraphIRError> {
        match self {
            Operation::Matmul(op) => op.shape_in(),
            Operation::PairwiseMul(op) => op.shape_in(),
            Operation::Concat(op) => op.shape_in(),
            Operation::LinearCombination(op) => Ok(op.shape),
            Operation::Unary(op) => Ok(op.input.shape),
            Operation::BSplineBasis(op) => op.shape_in(ir),
            Operation::ReluKanBasis(op) => op.shape_in(ir),
            Operation::FusedKanLayer(op) => op.shape_in(ir),
            _ => Ok(Shape { rows: 0, cols: 0 }),
        }
    }
}

impl<T> Operation<T> {
    /// Lists the nodes that the operation takes.
    pub fn nodes(&self) -> (r: Vec<AnnotatedNode>)
        ensures
            r@ == self.parents(),
    {
        match self {
            Operation::Input => Vec::new(),
            Operation::Weights => Vec::new(),
            Operation::Constant(_) => Vec::new(),
            Operation::Matmul(op) => vec![op.a, op.b],
            Operation::LinearCombination(op) => {
                let mut nodes: Vec<AnnotatedNode> = Vec::with_capacity(op.items.len());
                for i in 0..op.items.len()
                    invariant
                        nodes@ =~= self.parents().take(i as int),
                        self.parents().len() == op.items@.len(),
                        *self == Operation::LinearCombination(*op),
                {
                    nodes.push(AnnotatedNode { idx: op.items[i].0, shape: op.shape });
                }
                nodes
            },
            Operation::PairwiseMul(op) => vec![op.input],
            Operation::Concat(op) => vec![op.a, op.b],
            Operation::Unary(op) => vec![op.input],
            Operation::BSplineBasis(op) => op.nodes(),
            Operation::ReluKanBasis(op) => op.nodes(),
            Operation::FusedKanLayer(op) => op.nodes(),
        }
    }

    /// Works out the shape that the operation yields.
    pub fn output_shape(&self, ir: &GraphIR<T>) -> (r: Result<Shape, GraphIRError>)
        requires
            self.fits(),
            !self.is_leaf(),
        ensures
            r == self.shape_in(*ir),
    {
        match self {
            Operation::Matmul(op) => op.output_shape(),
            Operation::LinearCombination(op) => Ok(op.shape),
            Operation::PairwiseMul(op) => op.output_shape(),
            Operation::Concat(op) => op.output_shape(),
            Operation::Unary(op) => Ok(op.input.shape),
            Operation::BSplineBasis(op) => op.output_shape(ir),
            Operation::ReluKanBasis(op) => op.output_shape(ir),
            Operation::FusedKanLayer(op) => op.output_shape(ir),
            _ => Ok(Shape::new(0, 0)),
        }
    }
}

/// The shape of a matrix, or of its transpose.
fn transpose_if(shape: Shape, transposed: bool) -> (r: Shape)
    ensures
        r == transposed_if(shape, transposed),
{
    if transposed {
        Shape::new(shape.cols(), shape.rows())
    } else {
        shape
    }
}

impl Matmul {
    /// Works out the shape of the product.
    pub fn output_shape(&self) -> (r: Result<Shape, GraphIRError>)
        ensures
            r == self.shape_in(),
    {
        let a: Shape = transpose_if(self.a.shape, self.transa);
        let b: Shape = transpose_if(self.b.shape, self.transb);
        if a.cols() != b.rows() {
            let expected: Shape = Shape::new(a.cols(), b.cols());
            return Err(
                GraphIRError::Op(
                    GraphIROperationError::MismatchedInputShapes { found: b, expected },
                ),
            );
        }
        Ok(Shape::new(a.rows(), b.cols()))
    }

    /// The shape of the product.
    pub open spec fn shape_in(self) -> Result<Shape, GraphIRError> {
        let a = transposed_if(self.a.shape, self.transa);
        let b = transposed_if(self.b.shape, self.transb);
        if a.cols != b.rows {
            Err(
                GraphIRError::Op(
                    GraphIROperationError::MismatchedInputShapes {
                        found: b,
                        expected: Shape { rows: a.cols, cols: b.cols },
                    },
                ),
            )
        } else {
            Ok(Shape { rows: a.rows, cols: b.cols })
        }
    }
}

impl PairwiseMul {
    /// Works out the shape of the products.
    pub fn output_shape(&self) -> (r: Result<Shape, GraphIRError>)
        ensures
            r == self.shape_in(),
    {
        let shape: Shape = self.input.shape;
        if shape.rows() % 2 != 0 {
            return Err(GraphIRError::Op(GraphIROperationError::InvalidInputShape(shape)));
        }
        Ok(Shape::new(shape.rows() / 2, shape.cols()))
    }

    /// The shape of the products: half as many rows.
    pub open spec fn shape_in(self) -> Result<Shape, GraphIRError> {
        if self.input.shape.rows % 2 != 0 {
            Err(GraphIRError::Op(GraphIROperationError::InvalidInputShape(self.input.shape)))
        } else {
            Ok(
                Shape {
                    rows: (self.input.shape.rows as int / 2) as usize,
                    cols: self.input.shape.cols,
                },
            )
        }
    }
}

impl Concat {
    /// Works out the shape of the two nodes together.
    pub fn output_shape(&self) -> (r: Result<Shape, GraphIRError>)
        requires
            self.a.shape.rows + self.b.shape.rows <= usize::MAX,
        ensures
            r == self.shape_in(),
    {
        let a: Shape = self.a.shape;
        let b: Shape = self.b.shape;
        if a.cols() != b.cols() {
            let expected: Shape = Shape::new(b.rows(), a.cols());
            return Err(
                GraphIRError::Op(
                    GraphIROperationError::MismatchedInputShapes { found: b, expected },
                ),
            );
        }
        Ok(Shape::new(a.rows() + b.rows(), a.cols()))
    }

    /// The shape of the two nodes together.
    pub open spec fn shape_in(self) -> Result<Shape, GraphIRError> {
        if self.a.shape.cols != self.b.shape.cols {
            Err(
                GraphIRError::Op(
                    GraphIROperationError::MismatchedInputShapes {
                        found: self.b.shape,
                        expected: Shape { rows: self.b.shape.rows, cols: self.a.shape.cols },
                    },
                ),
            )
        } else {
            Ok(
                Shape {
                    rows: (self.a.shape.rows + self.b.shape.rows) as usize,
                    cols: self.a.shape.cols,
                },
            )
        }
    }
}

} // verus!
