//! The intermediate representation that graphs are built and optimised in.

pub mod operation;

use vstd::prelude::*;

use crate::graph::ir::operation::Operation;
use crate::graph::NodeId;
use crate::tensor::Shape;

verus! {

/// A node together with the shape of its values.
#[derive(Clone, Copy, Debug, PartialEq, Eq, Structural)]
pub struct AnnotatedNode {
    /// The node.
    pub idx: NodeId,
    /// The shape of its values.
    pub shape: Shape,
}

/// What is known of the values of a node.
#[derive(Clone, Copy, Debug, PartialEq, Eq, Structural)]
pub struct NodeInfo {
    /// Whether gradients flow to them.
    pub requires_grad: bool,
    /// How many of them can be nonzero if they are stored sparsely.
    pub sparse: Option<usize>,
    /// Whether there is one set of values per element of the batch.
    pub batched: bool,
}

/// The shape of a node and what is known of its values.
#[derive(Clone, Copy, Debug, PartialEq, Eq, Structural)]
pub struct NodeData {
    /// The shape.
    pub shape: Shape,
    /// The rest.
    pub info: NodeInfo,
}

/// Why an operation does not take its inputs.
#[derive(Clone, Copy, Debug, PartialEq, Eq, Structural)]
pub enum GraphIROperationError {
    /// An input has a shape that the operation does not take.
    InvalidInputShape(Shape),
    /// An input has another shape than the rest of the operation asks for.
    MismatchedInputShapes {
        /// The shape of the input.
        found: Shape,
        /// The shape that it should have.
        expected: Shape,
    },
    /// An input is sparse that has to be dense, or the other way round.
    IncorrectDataLayout,
    /// An input is batched that must not be.
    BatchedInputNotSupported,
    /// No gradients flow to an input that is to be trained.
    GradientNotAvailable,
}

/// Why a graph could not be changed or read.
#[derive(Clone, Copy, Debug, PartialEq, Eq, Structural)]
pub enum GraphIRError {
    /// There is no such node.
    NodeDoesNotExist,
    /// A node is not what it was said to be.
    NodeDataDoesNotMatchExpected,
    /// A node would depend on itself.
    Cyclic,
    /// An operation does not take its inputs.
    Op(GraphIROperationError),
}

/// A node of a graph.
pub struct IrNode<T> {
    /// What computes the values of the node.
    pub op: Operation<T>,
    /// The shape of the values and what is known of them.
    pub data: NodeData,
}

/// A graph. Every node depends on earlier nodes only.
pub struct GraphIR<T> {
    /// All nodes, each at the index that names it.
    pub nodes: Vec<IrNode<T>>,
}

/// How often `id` is among the first `n` of `parents`.
pub open spec fn occurrences(parents: Seq<AnnotatedNode>, id: NodeId, n: nat) -> nat
    decreases n,
{
    if n == 0 {
        0
    } else {
        occurrences(parents, id, (n - 1) as nat) + (if parents[n - 1].idx == id {
            1nat
        } else {
            0nat
        })
    }
}

/// The data of a node whose operation yields values of shape `shape` from
/// `parents`: it is dense, and batched or trained if one of the parents is.
pub open spec fn derived_data<T>(
    ir: GraphIR<T>,
    parents: Seq<AnnotatedNode>,
    shape: Shape,
) -> NodeData {
    NodeData {
        shape,
        info: NodeInfo {
            requires_grad: exists|i: int|
                0 <= i < parents.len() && ir.data(#[trigger] parents[i].idx).info.requires_grad,
            sparse: None,
            batched: exists|i: int|
                0 <= i < parents.len() && ir.data(#[trigger] parents[i].idx).info.batched,
        },
    }
}

/// What is wrong with the first of `parents` at index `from` or behind that is
/// not a node of `ir` or has another shape there.
pub open spec fn parent_error<T>(
    ir: GraphIR<T>,
    parents: Seq<AnnotatedNode>,
    from: int,
) -> Option<GraphIRError>
    decreases parents.len() - from,
{
    if from < 0 || from >= parents.len() {
        None
    } else if !ir.contains(parents[from].idx) {
        Some(GraphIRError::NodeDoesNotExist)
    } else if ir.data(parents[from].idx).shape != parents[from].shape {
        Some(GraphIRError::NodeDataDoesNotMatchExpected)
    } else {
        parent_error(ir, parents, from + 1)
    }
}

impl<T> GraphIR<T> {
    /// The data that a node with the operation `op` would have, or what is wrong
    /// with that operation: first with its parents, then with their shapes.
    pub open spec fn result(self, op: Operation<T>) -> Result<NodeData, GraphIRError> {
        match parent_error(self, op.parents(), 0) {
            Some(e) => Err(e),
            None => match op.shape_in(self) {
                Ok(shape) => Ok(derived_data(self, op.parents(), shape)),
                Err(e) => Err(e),
            },
        }
    }

    /// Whether the node at index `i` is in order: it is a leaf, or its operation
    /// has the data of the node as its result and depends on earlier nodes only.
    pub open spec fn node_wf(self, i: int) -> bool {
        let node = self.nodes[i];
        node.op.is_leaf() || {
            &&& node.op.fits()
            &&& self.result(node.op) == Ok::<NodeData, GraphIRError>(node.data)
            &&& forall|j: int|
                0 <= j < node.op.parents().len() ==> (#[trigger] node.op.parents()[j]).idx.0 < i
        }
    }

    /// Whether all nodes are in order.
    pub open spec fn wf(self) -> bool {
        forall|i: int| 0 <= i < self.nodes.len() ==> #[trigger] self.node_wf(i)
    }

    /// How often the first `n` nodes use the node `id`.
    pub open spec fn uses_before(self, id: NodeId, n: nat) -> nat
        decreases n,
    {
        if n == 0 {
            0
        } else {
            let parents = self.nodes[n - 1].op.parents();
            self.uses_before(id, (n - 1) as nat) + occurrences(parents, id, parents.len())
        }
    }

    /// How often the nodes of the graph use the node `id`.
    pub open spec fn uses(self, id: NodeId) -> nat {
        self.uses_before(id, self.nodes@.len())
    }
}

impl<T> GraphIR<T> {
    /// Whether there is a node `id`.
    pub open spec fn contains(self, id: NodeId) -> bool {
        id.0 < self.nodes.len()
    }

    /// The data of the node `id`.
    pub open spec fn data(self, id: NodeId) -> NodeData {
        self.nodes[id.0 as int].data
    }

    /// The operation of the node `id`.
    pub open spec fn op(self, id: NodeId) -> Operation<T> {
        self.nodes[id.0 as int].op
    }

    /// Looks a node up.
    pub fn get(&self, id: NodeId) -> (r: Result<&IrNode<T>, GraphIRError>)
        ensures
            r == (if self.contains(id) {
                Ok(&self.nodes[id.0 as int])
            } else {
                Err(GraphIRError::NodeDoesNotExist)
            }),
    {
        if id.0 < self.nodes.len() {
            Ok(&self.nodes[id.0])
        } else {
            Err(GraphIRError::NodeDoesNotExist)
        }
    }
}

/// Whether `later` has all nodes of `earlier` with the same data.
pub open spec fn keeps_data<T>(earlier: GraphIR<T>, later: GraphIR<T>) -> bool {
    &&& earlier.nodes.len() <= later.nodes.len()
    &&& forall|i: int|
        0 <= i < earlier.nodes.len() ==> (#[trigger] later.nodes[i]).data == earlier.nodes[i].data
}

/// Parents are found again where the data is kept.
proof fn lemma_parent_error_kept<T>(
    earlier: GraphIR<T>,
    later: GraphIR<T>,
    parents: Seq<AnnotatedNode>,
    from: int,
)
    requires
        keeps_data(earlier, later),
        0 <= from,
        parent_error(earlier, parents, from) is None,
    ensures
        parent_error(later, parents, from) is None,
        forall|j: int|
            from <= j < parents.len() ==> earlier.contains((#[trigger] parents[j]).idx)
                && earlier.data(parents[j].idx).shape == parents[j].shape,
    decreases parents.len() - from,
{
    if from < parents.len() {
        lemma_parent_error_kept(earlier, later, parents, from + 1);
    }
}

/// An operation that is possible stays possible, with the same result, where the
/// data of the nodes is kept.
proof fn lemma_result_kept<T>(earlier: GraphIR<T>, later: GraphIR<T>, op: Operation<T>)
    requires
        keeps_data(earlier, later),
        earlier.result(op) is Ok,
    ensures
        later.result(op) == earlier.result(op),
{
    let parents = op.parents();
    lemma_parent_error_kept(earlier, later, parents, 0);
    assert forall|j: int| 0 <= j < parents.len() implies later.data(
        (#[trigger] parents[j]).idx,
    ) == earlier.data(parents[j].idx) by {}
    let shape = op.shape_in(earlier)->Ok_0;
    match op {
        Operation::BSplineBasis(o) => {
            assert(parents[0] == o.input && parents[1] == o.grid);
        },
        Operation::ReluKanBasis(o) => {
            assert(parents[0] == o.input && parents[1] == o.grid);
        },
        Operation::FusedKanLayer(o) => {
            assert(parents[0] == o.input && parents[1] == o.grid);
            assert(parents[2] == o.spline_weight && parents[3] == o.base_weight);
        },
        _ => {},
    }
    assert(op.shape_in(later) == op.shape_in(earlier));
    assert(derived_data(later, parents, shape) == derived_data(earlier, parents, shape));
}

impl<T> GraphIR<T> {
    /// The outcome of replacing the operation of `target` by `op`.
    pub open spec fn replacement(self, target: NodeId, op: Operation<T>) -> Result<
        (),
        GraphIRError,
    > {
        if !self.contains(target) {
            Err(GraphIRError::NodeDoesNotExist)
        } else {
            match self.result(op) {
                Err(e) => Err(e),
                Ok(data) => if exists|j: int|
                    0 <= j < op.parents().len() && (#[trigger] op.parents()[j]).idx.0 >= target.0 {
                    Err(GraphIRError::Cyclic)
                } else if data != self.data(target) {
                    Err(GraphIRError::NodeDataDoesNotMatchExpected)
                } else {
                    Ok(())
                },
            }
        }
    }

    /// Works out the data of a node with the operation `op`.
    pub fn result_of(&self, op: &Operation<T>) -> (r: Result<NodeData, GraphIRError>)
        requires
            op.fits(),
            !op.is_leaf(),
        ensures
            r == self.result(*op),
    {
        let parents: Vec<AnnotatedNode> = op.nodes();
        let mut requires_grad: bool = false;
        let mut batched: bool = false;
        for i in 0..parents.len()
            invariant
                parents@ == op.parents(),
                parent_error(*self, parents@, 0) == parent_error(*self, parents@, i as int),
                forall|j: int| 0 <= j < i ==> self.contains((#[trigger] parents@[j]).idx),
                requires_grad == exists|j: int|
                    0 <= j < i && self.data((#[trigger] parents@[j]).idx).info.requires_grad,
                batched == exists|j: int|
                    0 <= j < i && self.data((#[trigger] parents@[j]).idx).info.batched,
        {
            let found = self.get(parents[i].idx)?;
            if found.data.shape != parents[i].shape {
                return Err(GraphIRError::NodeDataDoesNotMatchExpected);
            }
            requires_grad = requires_grad || found.data.info.requires_grad;
            batched = batched || found.data.info.batched;
        }
        let shape: Shape = op.output_shape(self)?;
        Ok(NodeData { shape, info: NodeInfo { requires_grad, sparse: None, batched } })
    }

    /// An empty graph.
    pub fn new() -> (r: Self)
        ensures
            r.wf(),
            r.nodes@.len() == 0,
    {
        GraphIR { nodes: Vec::new() }
    }

    /// Adds a node whose values come from elsewhere.
    pub fn add_leaf(&mut self, op: Operation<T>, data: NodeData) -> (r: AnnotatedNode)
        requires
            old(self).wf(),
            op.is_leaf(),
        ensures
            final(self).wf(),
            final(self).nodes@ == old(self).nodes@.push(IrNode { op, data }),
            r == (AnnotatedNode { idx: NodeId(old(self).nodes.len()), shape: data.shape }),
    {
        let ghost before = *self;
        let idx: NodeId = NodeId(self.nodes.len());
        self.nodes.push(IrNode { op, data });
        proof {
            self.lemma_wf_kept(before, before.nodes@.len() as int);
        }
        AnnotatedNode { idx, shape: data.shape }
    }

    /// Adds a node with the operation `op`.
    pub fn add(&mut self, op: Operation<T>) -> (r: Result<AnnotatedNode, GraphIRError>)
        requires
            old(self).wf(),
            op.fits(),
            !op.is_leaf(),
        ensures
            final(self).wf(),
            match old(self).result(op) {
                Ok(data) => {
                    &&& final(self).nodes@ == old(self).nodes@.push(IrNode { op, data })
                    &&& r == Ok::<AnnotatedNode, GraphIRError>(
                        AnnotatedNode { idx: NodeId(old(self).nodes.len()), shape: data.shape },
                    )
                },
                Err(e) => *final(self) == *old(self) && r == Err::<AnnotatedNode, GraphIRError>(e),
            },
    {
        let ghost before = *self;
        let data: NodeData = self.result_of(&op)?;
        let idx: NodeId = NodeId(self.nodes.len());
        self.nodes.push(IrNode { op, data });
        proof {
            lemma_result_kept(before, *self, op);
            lemma_parent_error_kept(before, *self, op.parents(), 0);
            self.lemma_wf_kept(before, before.nodes@.len() as int);
        }
        Ok(AnnotatedNode { idx, shape: data.shape })
    }

    /// Replaces the operation of the node `target` by one with the same result.
    pub fn replace(&mut self, target: NodeId, op: Operation<T>) -> (r: Result<(), GraphIRError>)
        requires
            old(self).wf(),
            op.fits(),
            !op.is_leaf(),
        ensures
            final(self).wf(),
            r == old(self).replacement(target, op),
            r is Ok ==> final(self).nodes@ == old(self).nodes@.update(
                target.0 as int,
                IrNode { op, data: old(self).data(target) },
            ),
            r is Err ==> *final(self) == *old(self),
    {
        let ghost before = *self;
        if target.0 >= self.nodes.len() {
            return Err(GraphIRError::NodeDoesNotExist);
        }
        let data: NodeData = self.result_of(&op)?;
        let parents: Vec<AnnotatedNode> = op.nodes();
        for j in 0..parents.len()
            invariant
                before == *self,
                before.wf(),
                parents@ == op.parents(),
                before.contains(target),
                before.result(op) == Ok::<NodeData, GraphIRError>(data),
                forall|i: int| 0 <= i < j ==> (#[trigger] parents@[i]).idx.0 < target.0,
        {
            if parents[j].idx.0 >= target.0 {
                assert(op.parents()[j as int].idx.0 >= target.0);
                return Err(GraphIRError::Cyclic);
            }
        }
        if data != self.nodes[target.0].data {
            return Err(GraphIRError::NodeDataDoesNotMatchExpected);
        }
        self.nodes.set(target.0, IrNode { op, data });
        proof {
            lemma_result_kept(before, *self, op);
            self.lemma_wf_kept(before, target.0 as int);
        }
        Ok(())
    }

    /// A graph stays in order if one node that is in order is added or replaced.
    proof fn lemma_wf_kept(self, before: GraphIR<T>, at: int)
        requires
            before.wf(),
            keeps_data(before, self),
            0 <= at < self.nodes.len(),
            self.nodes.len() <= before.nodes.len() || at == before.nodes.len() && self.nodes.len()
                == at + 1,
            forall|i: int|
                0 <= i < before.nodes.len() && i != at ==> self.nodes[i] == before.nodes[i],
            self.node_wf(at),
        ensures
            self.wf(),
    {
        assert forall|i: int| 0 <= i < self.nodes.len() implies #[trigger] self.node_wf(i) by {
            if i != at {
                assert(before.node_wf(i));
                if !before.nodes[i].op.is_leaf() {
                    lemma_result_kept(before, self, before.nodes[i].op);
                }
            }
        }
    }

    /// Whether the nodes of the graph use the node `id` exactly once.
    pub fn used_once(&self, id: NodeId) -> (r: bool)
        ensures
            r == (self.uses(id) == 1),
    {
        let mut found: bool = false;
        for n in 0..self.nodes.len()
            invariant
                self.uses_before(id, n as nat) == (if found {
                    1nat
                } else {
                    0nat
                }),
        {
            let parents: Vec<AnnotatedNode> = self.nodes[n].op.nodes();
            let ghost earlier = self.uses_before(id, n as nat);
            for i in 0..parents.len()
                invariant
                    n < self.nodes.len(),
                    parents@ == self.nodes[n as int].op.parents(),
                    earlier == self.uses_before(id, n as nat),
                    earlier + occurrences(parents@, id, i as nat) == (if found {
                        1nat
                    } else {
                        0nat
                    }),
            {
                if parents[i].idx == id {
                    if found {
                        proof {
                            lemma_occurrences_grow(
                                parents@,
                                id,
                                (i + 1) as nat,
                                parents@.len(),
                            );
                            self.lemma_uses_grow(id, (n + 1) as nat, self.nodes@.len());
                        }
                        return false;
                    }
                    found = true;
                }
            }
        }
        found
    }

    /// More nodes do not use a node less often.
    proof fn lemma_uses_grow(self, id: NodeId, n: nat, m: nat)
        requires
            n <= m,
        ensures
            self.uses_before(id, n) <= self.uses_before(id, m),
        decreases m,
    {
        if n < m {
            self.lemma_uses_grow(id, n, (m - 1) as nat);
        }
    }
}

/// More parents do not contain a node less often.
proof fn lemma_occurrences_grow(parents: Seq<AnnotatedNode>, id: NodeId, n: nat, m: nat)
    requires
        n <= m,
    ensures
        occurrences(parents, id, n) <= occurrences(parents, id, m),
    decreases m,
{
    if n < m {
        lemma_occurrences_grow(parents, id, n, (m - 1) as nat);
    }
}

} // verus!
