//! Checks that operations make of their inputs.

use vstd::prelude::*;

use crate::graph::ir::{AnnotatedNode, GraphIR, GraphIRError, GraphIROperationError};

verus! {

/// What [`check_dense_eq`] finds wrong.
pub open spec fn layout_error<T>(ir: GraphIR<T>, node: AnnotatedNode, dense: bool) -> Option<
    GraphIRError,
> {
    if !ir.contains(node.idx) {
        Some(GraphIRError::NodeDoesNotExist)
    } else if (ir.data(node.idx).info.sparse is None) != dense {
        Some(GraphIRError::Op(GraphIROperationError::IncorrectDataLayout))
    } else {
        None
    }
}

/// What [`check_not_batched`] finds wrong.
pub open spec fn batch_error<T>(ir: GraphIR<T>, node: AnnotatedNode) -> Option<GraphIRError> {
    if !ir.contains(node.idx) {
        Some(GraphIRError::NodeDoesNotExist)
    } else if ir.data(node.idx).info.batched {
        Some(GraphIRError::Op(GraphIROperationError::BatchedInputNotSupported))
    } else {
        None
    }
}

/// What [`check_has_grad`] finds wrong.
pub open spec fn grad_error<T>(ir: GraphIR<T>, node: AnnotatedNode) -> Option<GraphIRError> {
    if !ir.contains(node.idx) {
        Some(GraphIRError::NodeDoesNotExist)
    } else if !ir.data(node.idx).info.requires_grad {
        Some(GraphIRError::Op(GraphIROperationError::GradientNotAvailable))
    } else {
        None
    }
}

/// The error of two checks made one after the other.
pub open spec fn either(first: Option<GraphIRError>, second: Option<GraphIRError>) -> Option<
    GraphIRError,
> {
    if first is Some {
        first
    } else {
        second
    }
}

/// The result of a check.
pub open spec fn verdict(error: Option<GraphIRError>) -> Result<(), GraphIRError> {
    match error {
        Some(e) => Err(e),
        None => Ok(()),
    }
}

/// Checks that a node is dense, or that it is not.
pub fn check_dense_eq<T>(ir: &GraphIR<T>, node: &AnnotatedNode, dense: bool) -> (r: Result<
    (),
    GraphIRError,
>)
    ensures
        r == verdict(layout_error(*ir, *node, dense)),
{
    let found = ir.get(node.idx)?;
    if found.data.info.sparse.is_none() == dense {
        Ok(())
    } else {
        Err(GraphIRError::Op(GraphIROperationError::IncorrectDataLayout))
    }
}

/// Checks that a node has one set of values for the whole batch.
pub fn check_not_batched<T>(ir: &GraphIR<T>, node: &AnnotatedNode) -> (r: Result<
    (),
    GraphIRError,
>)
    ensures
        r == verdict(batch_error(*ir, *node)),
{
    let found = ir.get(node.idx)?;
    if found.data.info.batched {
        Err(GraphIRError::Op(GraphIROperationError::BatchedInputNotSupported))
    } else {
        Ok(())
    }
}

/// Checks that gradients flow to a node.
pub fn check_has_grad<T>(ir: &GraphIR<T>, node: &AnnotatedNode) -> (r: Result<(), GraphIRError>)
    ensures
        r == verdict(grad_error(*ir, *node)),
{
    let found = ir.get(node.idx)?;
    if found.data.info.requires_grad {
        Ok(())
    } else {
        Err(GraphIRError::Op(GraphIROperationError::GradientNotAvailable))
    }
}

} // verus!
