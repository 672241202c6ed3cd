//! Shapes and buffers of tensors.

use vstd::prelude::*;

verus! {

/// The dimensions of a matrix.
#[derive(Clone, Copy, Debug, PartialEq, Eq, Structural)]
pub struct Shape {
    /// The number of rows.
    pub rows: usize,
    /// The number of columns.
    pub cols: usize,
}

impl Shape {
    /// A shape with the given dimensions.
    pub fn new(rows: usize, cols: usize) -> (r: Self)
        ensures
            r == (Shape { rows, cols }),
    {
        Shape { rows, cols }
    }

    /// The number of rows.
    pub fn rows(&self) -> (r: usize)
        ensures
            r == self.rows,
    {
        self.rows
    }

    /// The number of columns.
    pub fn cols(&self) -> (r: usize)
        ensures
            r == self.cols,
    {
        self.cols
    }
}

/// A dense tensor: one matrix, or a batch of them one after the other.
pub struct Tensor<T> {
    /// The number of matrices, or none if the tensor is not batched.
    pub batch_size: Option<usize>,
    /// The entries of all matrices.
    pub buf: Vec<T>,
}

impl<T> Tensor<T> {
    /// The number of matrices, where a tensor that is not batched has one.
    pub open spec fn matrices(&self) -> usize {
        match self.batch_size {
            Some(n) => n,
            None => 1,
        }
    }
}

/// A place in the memory of a graph.
#[derive(Clone, Copy, Debug, PartialEq, Eq, Structural)]
pub struct TensorRef {
    /// The index of the place.
    pub slot: usize,
}

} // verus!
