//! Element types supported by the compiler, as tags carried on buffers and
//! kernels. Values of the floating-point types travel through the pipeline as
//! their raw bit patterns.

use vstd::prelude::*;

verus! {

/// The element type of a tensor. Floating-point elements are held as bit
/// patterns (`u16` for the 16-bit types, `u32` for single precision).
#[derive(Clone, Copy, Debug, PartialEq, Eq, Hash, Structural)]
pub enum DType {
    F16,
    BF16,
    F32,
    I32,
    I64,
}

impl DType {
    /// Width of one element of this type in bytes.
    pub fn size_in_bytes(self) -> (r: usize)
        ensures
            r == self.spec_size_in_bytes(),
    {
        match self {
            DType::F16 => 2,
            DType::BF16 => 2,
            DType::F32 => 4,
            DType::I32 => 4,
            DType::I64 => 8,
        }
    }

    pub open spec fn spec_size_in_bytes(self) -> usize {
        match self {
            DType::F16 => 2usize,
            DType::BF16 => 2usize,
            DType::F32 => 4usize,
            DType::I32 => 4usize,
            DType::I64 => 8usize,
        }
    }

    /// Whether this is one of the floating-point element types.
    pub fn is_float(self) -> (r: bool)
        ensures
            r == self.spec_is_float(),
    {
        match self {
            DType::F16 | DType::BF16 | DType::F32 => true,
            DType::I32 | DType::I64 => false,
        }
    }

    pub open spec fn spec_is_float(self) -> bool {
        match self {
            DType::F16 | DType::BF16 | DType::F32 => true,
            DType::I32 | DType::I64 => false,
        }
    }
}

} // verus!
