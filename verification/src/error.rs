//! Error taxonomy of the compiler. Errors are reported at the call that
//! introduced them; a failing kernel aborts the remaining items of its
//! schedule and leaves unrealized buffers re-realizable.

use vstd::prelude::*;
use crate::dtype::DType;

verus! {

/// Everything that can go wrong while building, scheduling, lowering or
/// executing a computation graph.
#[derive(Clone, Copy, Debug, PartialEq, Eq, Structural)]
pub enum Error {
    /// Incompatible dimensions for an operation.
    ShapeError,
    /// Incompatible or unsupported element type for an operation.
    DTypeError,
    /// No lowering rule for the operation.
    LoweringError,
    /// Backend code generation or compilation failed.
    CompileError,
    /// Allocation, launch, or execution fault reported by a device.
    DeviceError,
    /// Host/device transfer with disagreeing lengths.
    SizeMismatch { expected: usize, got: usize },
    /// Host/device transfer with disagreeing element types.
    DTypeMismatch { expected: DType, got: DType },
    /// A structural invariant that correct use cannot break was broken;
    /// not recoverable.
    InternalInvariantViolation,
}

pub type Result<T> = core::result::Result<T, Error>;

} // verus!
