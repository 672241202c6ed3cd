//! The processor as a device.

pub mod bspline;
pub mod relu_kan;

use vstd::prelude::*;

use crate::device::Device;

verus! {

/// The calling thread, whose buffers are plain vectors.
pub struct CpuThread;

/// The error of the processor, which it never reports.
#[derive(Debug)]
pub struct CpuError;

impl Device for CpuThread {
    type DeviceError = CpuError;

    open spec fn never_fails() -> bool {
        true
    }
}

} // verus!
