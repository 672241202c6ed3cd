//! What runs on a device: the basis operations, their processor
//! implementation, and the instructions that call them.

pub mod cpu;
pub mod function;
pub mod operation;

use vstd::prelude::*;

verus! {

/// Something that operations are carried out on.
pub trait Device {
    /// What a failed operation reports.
    type DeviceError;

    /// Whether the operations of this device succeed whenever they are called
    /// on buffers that are large enough.
    spec fn never_fails() -> bool;
}

/// Why an operation was not carried out.
#[derive(Debug)]
pub enum OperationError<E> {
    /// The tensors of one operation do not have the same batch size.
    MismatchedBatchSizes,
    /// The device reported an error of its own.
    DeviceError(E),
}

} // verus!
