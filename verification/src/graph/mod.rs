//! Computation graphs and the memory that they run in.

pub mod builder;
pub mod ir;
pub mod save;

use vstd::prelude::*;

use crate::tensor::{Tensor, TensorRef};

verus! {

/// The name of a node of a graph.
#[derive(Clone, Copy, Debug, PartialEq, Eq, Structural)]
pub struct NodeId(pub usize);

/// What a tensor of a node is for.
#[derive(Clone, Copy, Debug, PartialEq, Eq, Structural)]
pub enum GraphNodeIdTy {
    /// The values that the node computes.
    Values,
    /// The gradients with respect to these values.
    Gradients,
    /// Scratch memory of the node.
    Ancillary(u16),
}

/// One tensor in the memory of a graph.
pub struct GraphTensor<T> {
    /// The node that it belongs to.
    pub id: NodeId,
    /// What the node uses it for.
    pub ty: GraphNodeIdTy,
    /// The tensor.
    pub tensor: Tensor<T>,
}

/// The memory of a graph that is ready to run.
pub struct Graph<T> {
    /// All tensors.
    pub entries: Vec<GraphTensor<T>>,
}

impl<T> Graph<T> {
    /// The first place at `from` or behind that holds the tensor for `ty` of the
    /// node `id`.
    pub open spec fn locate_from(self, from: int, id: NodeId, ty: GraphNodeIdTy) -> Option<
        TensorRef,
    >
        decreases self.entries.len() - from,
    {
        if from < 0 || from >= self.entries.len() {
            None
        } else if self.entries[from].id == id && self.entries[from].ty == ty {
            Some(TensorRef { slot: from as usize })
        } else {
            self.locate_from(from + 1, id, ty)
        }
    }

    /// The place of the tensor for `ty` of the node `id`.
    pub open spec fn locate(self, id: NodeId, ty: GraphNodeIdTy) -> Option<TensorRef> {
        self.locate_from(0, id, ty)
    }

    /// The tensor at a place.
    pub open spec fn at(self, place: TensorRef) -> Tensor<T> {
        self.entries[place.slot as int].tensor
    }

    /// Whether `place` is in this memory.
    pub open spec fn contains(self, place: TensorRef) -> bool {
        place.slot < self.entries.len()
    }

    /// Whether `self` differs from `before` in the buffer at `place` at most.
    pub open spec fn same_except(self, before: Graph<T>, place: TensorRef) -> bool {
        &&& self.entries.len() == before.entries.len()
        &&& forall|i: int|
            0 <= i < self.entries.len() && i != place.slot ==> self.entries[i] == before.entries[i]
        &&& self.entries[place.slot as int].id == before.entries[place.slot as int].id
        &&& self.entries[place.slot as int].ty == before.entries[place.slot as int].ty
        &&& self.at(place).batch_size == before.at(place).batch_size
    }

    /// Looks a tensor up.
    pub fn maybe_get_ref(&self, id: NodeId, ty: GraphNodeIdTy) -> (r: Option<TensorRef>)
        ensures
            r == self.locate(id, ty),
    {
        let mut i: usize = 0;
        while i < self.entries.len()
            invariant
                i <= self.entries.len(),
                self.locate(id, ty) == self.locate_from(i as int, id, ty),
            decreases self.entries.len() - i,
        {
            if self.entries[i].id == id && self.entries[i].ty == ty {
                return Some(TensorRef { slot: i });
            }
            i = i + 1;
        }
        None
    }

    /// Looks a tensor up that must be there.
    pub fn get_ref(&self, id: NodeId, ty: GraphNodeIdTy) -> (r: TensorRef)
        requires
            self.locate(id, ty) is Some,
        ensures
            Some(r) == self.locate(id, ty),
    {
        self.maybe_get_ref(id, ty).unwrap()
    }

    /// A place that was found is in the memory and holds the tensor.
    pub proof fn located(self, id: NodeId, ty: GraphNodeIdTy)
        ensures
            self.locate(id, ty) matches Some(place) ==> self.contains(place)
                && self.entries[place.slot as int].id == id && self.entries[place.slot as int].ty
                == ty,
    {
        self.located_from(0, id, ty);
    }

    proof fn located_from(self, from: int, id: NodeId, ty: GraphNodeIdTy)
        requires
            0 <= from,
        ensures
            self.locate_from(from, id, ty) matches Some(place) ==> self.contains(place)
                && self.entries[place.slot as int].id == id && self.entries[place.slot as int].ty
                == ty,
        decreases self.entries.len() - from,
    {
        if from < self.entries.len() && !(self.entries[from].id == id && self.entries[from].ty
            == ty) {
            self.located_from(from + 1, id, ty);
        }
    }
}

} // verus!
