//! Scalar values and scalar arithmetic, all over raw bit patterns.
//!
//! Every element, whatever its [`DType`], is carried through the pipeline as a
//! `u64`: integers zero-extended from their width, floating-point values as
//! their (zero-extended) IEEE bit patterns. Integer arithmetic wraps at the
//! type's width; floating-point arithmetic is the bit-level arithmetic of
//! [`crate::fp`].

use vstd::prelude::*;
use crate::dtype::DType;
use crate::fp;

verus! {

/// A binary elementwise operation.
#[derive(Clone, Copy, Debug, PartialEq, Eq, Structural)]
pub enum BinaryOp {
    Add,
    Sub,
    Mul,
}

/// The value of `op` over two `f16` bit patterns.
pub open spec fn spec_binary_f16(op: BinaryOp, a: u16, b: u16) -> u16 {
    match op {
        BinaryOp::Add => fp::f16_add(a, b),
        BinaryOp::Sub => fp::f16_sub(a, b),
        BinaryOp::Mul => fp::f16_mul(a, b),
    }
}

/// The value of `op` over two `bf16` bit patterns.
pub open spec fn spec_binary_bf16(op: BinaryOp, a: u16, b: u16) -> u16 {
    match op {
        BinaryOp::Add => fp::bf16_add(a, b),
        BinaryOp::Sub => fp::bf16_sub(a, b),
        BinaryOp::Mul => fp::bf16_mul(a, b),
    }
}

/// The value of `op` over two `f32` bit patterns.
pub open spec fn spec_binary_f32(op: BinaryOp, a: u32, b: u32) -> u32 {
    match op {
        BinaryOp::Add => fp::f32_add(a, b),
        BinaryOp::Sub => fp::f32_sub(a, b),
        BinaryOp::Mul => fp::f32_mul(a, b),
    }
}

/// The value of `op` at type `dt` over two elements encoded as `u64` bits.
/// Integer operations wrap at the type's width; the result is again in
/// canonical (zero-extended) form.
pub open spec fn spec_binary(op: BinaryOp, dt: DType, a: u64, b: u64) -> u64 {
    match dt {
        DType::F16 => spec_binary_f16(op, a as u16, b as u16) as u64,
        DType::BF16 => spec_binary_bf16(op, a as u16, b as u16) as u64,
        DType::F32 => spec_binary_f32(op, a as u32, b as u32) as u64,
        DType::I32 => match op {
            BinaryOp::Add => (a as u32).wrapping_add(b as u32) as u64,
            BinaryOp::Sub => (a as u32).wrapping_sub(b as u32) as u64,
            BinaryOp::Mul => (a as u32).wrapping_mul(b as u32) as u64,
        },
        DType::I64 => match op {
            BinaryOp::Add => a.wrapping_add(b),
            BinaryOp::Sub => a.wrapping_sub(b),
            BinaryOp::Mul => a.wrapping_mul(b),
        },
    }
}

/// Computes `op` at type `dt` over two encoded elements.
pub fn eval_binary(op: BinaryOp, dt: DType, a: u64, b: u64) -> (r: u64)
    ensures
        r == spec_binary(op, dt, a, b),
{
    match dt {
        DType::F16 => {
            let x = match op {
                BinaryOp::Add => fp::f16_add_exec(a as u16, b as u16),
                BinaryOp::Sub => fp::f16_sub_exec(a as u16, b as u16),
                BinaryOp::Mul => fp::f16_mul_exec(a as u16, b as u16),
            };
            x as u64
        },
        DType::BF16 => {
            let x = match op {
                BinaryOp::Add => fp::bf16_add_exec(a as u16, b as u16),
                BinaryOp::Sub => fp::bf16_sub_exec(a as u16, b as u16),
                BinaryOp::Mul => fp::bf16_mul_exec(a as u16, b as u16),
            };
            x as u64
        },
        DType::F32 => {
            let x = match op {
                BinaryOp::Add => fp::f32_add_exec(a as u32, b as u32),
                BinaryOp::Sub => fp::f32_sub_exec(a as u32, b as u32),
                BinaryOp::Mul => fp::f32_mul_exec(a as u32, b as u32),
            };
            x as u64
        },
        DType::I32 => {
            let x = match op {
                BinaryOp::Add => (a as u32).wrapping_add(b as u32),
                BinaryOp::Sub => (a as u32).wrapping_sub(b as u32),
                BinaryOp::Mul => (a as u32).wrapping_mul(b as u32),
            };
            x as u64
        },
        DType::I64 => match op {
            BinaryOp::Add => a.wrapping_add(b),
            BinaryOp::Sub => a.wrapping_sub(b),
            BinaryOp::Mul => a.wrapping_mul(b),
        },
    }
}

/// The identity element of a sum at type `dt`: integer zero, or the
/// all-zero bit pattern, which encodes floating-point `+0.0`.
pub open spec fn spec_sum_identity(dt: DType) -> u64 {
    0u64
}

/// Exec twin of [`spec_sum_identity`]: the accumulator's starting value.
pub fn sum_identity(dt: DType) -> (r: u64)
    ensures
        r == spec_sum_identity(dt),
{
    0
}

/// A host-side element type that corresponds to one [`DType`] and converts
/// to and from the pipeline's canonical `u64` encoding without loss.
pub trait WithDType: Copy + Sized {
    spec fn spec_dtype() -> DType;

    spec fn spec_to_bits(self) -> u64;

    spec fn spec_from_bits(b: u64) -> Self;

    /// The element type this host type carries.
    fn dtype() -> (r: DType)
        ensures
            r == Self::spec_dtype(),
    ;

    /// Encode one element as canonical `u64` bits.
    fn to_bits(self) -> (r: u64)
        ensures
            r == self.spec_to_bits(),
    ;

    /// Decode one element from its `u64` encoding.
    fn from_bits(b: u64) -> (r: Self)
        ensures
            r == Self::spec_from_bits(b),
    ;

    /// The zero element (all-zero encoding).
    fn zero() -> (r: Self)
        ensures
            r == Self::spec_from_bits(0),
    ;

    /// Decoding inverts encoding: a host element survives the trip through
    /// the canonical bit form unchanged.
    proof fn lemma_bits_round_trip(self)
        ensures
            Self::spec_from_bits(self.spec_to_bits()) == self,
    ;
}

/// IEEE-754 binary16 value, held as its bit pattern.
#[derive(Clone, Copy, Debug, PartialEq, Eq, Structural)]
pub struct F16(pub u16);

/// bfloat16 value, held as its bit pattern.
#[derive(Clone, Copy, Debug, PartialEq, Eq, Structural)]
pub struct BF16(pub u16);

/// IEEE-754 binary32 value, held as its bit pattern.
#[derive(Clone, Copy, Debug, PartialEq, Eq, Structural)]
pub struct F32(pub u32);

impl WithDType for F16 {
    open spec fn spec_dtype() -> DType {
        DType::F16
    }

    open spec fn spec_to_bits(self) -> u64 {
        self.0 as u64
    }

    open spec fn spec_from_bits(b: u64) -> Self {
        F16(b as u16)
    }

    fn dtype() -> DType {
        DType::F16
    }

    fn to_bits(self) -> u64 {
        self.0 as u64
    }

    fn from_bits(b: u64) -> Self {
        F16(b as u16)
    }

    fn zero() -> Self {
        F16(0)
    }

    proof fn lemma_bits_round_trip(self) {
        let x = self.0;
        assert((x as u64) as u16 == x) by (bit_vector);
    }
}

impl WithDType for BF16 {
    open spec fn spec_dtype() -> DType {
        DType::BF16
    }

    open spec fn spec_to_bits(self) -> u64 {
        self.0 as u64
    }

    open spec fn spec_from_bits(b: u64) -> Self {
        BF16(b as u16)
    }

    fn dtype() -> DType {
        DType::BF16
    }

    fn to_bits(self) -> u64 {
        self.0 as u64
    }

    fn from_bits(b: u64) -> Self {
        BF16(b as u16)
    }

    fn zero() -> Self {
        BF16(0)
    }

    proof fn lemma_bits_round_trip(self) {
        let x = self.0;
        assert((x as u64) as u16 == x) by (bit_vector);
    }
}

impl WithDType for F32 {
    open spec fn spec_dtype() -> DType {
        DType::F32
    }

    open spec fn spec_to_bits(self) -> u64 {
        self.0 as u64
    }

    open spec fn spec_from_bits(b: u64) -> Self {
        F32(b as u32)
    }

    fn dtype() -> DType {
        DType::F32
    }

    fn to_bits(self) -> u64 {
        self.0 as u64
    }

    fn from_bits(b: u64) -> Self {
        F32(b as u32)
    }

    fn zero() -> Self {
        F32(0)
    }

    proof fn lemma_bits_round_trip(self) {
        let x = self.0;
        assert((x as u64) as u32 == x) by (bit_vector);
    }
}

impl WithDType for i32 {
    open spec fn spec_dtype() -> DType {
        DType::I32
    }

    open spec fn spec_to_bits(self) -> u64 {
        (self as u32) as u64
    }

    open spec fn spec_from_bits(b: u64) -> Self {
        (b as u32) as i32
    }

    fn dtype() -> DType {
        DType::I32
    }

    #[verifier::truncate]
    fn to_bits(self) -> u64 {
        (self as u32) as u64
    }

    #[verifier::truncate]
    fn from_bits(b: u64) -> Self {
        (b as u32) as i32
    }

    fn zero() -> Self {
        0
    }

    proof fn lemma_bits_round_trip(self) {
        let x: i32 = self;
        assert((((x as u32) as u64) as u32) as i32 == x) by (bit_vector);
    }
}

impl WithDType for i64 {
    open spec fn spec_dtype() -> DType {
        DType::I64
    }

    open spec fn spec_to_bits(self) -> u64 {
        self as u64
    }

    open spec fn spec_from_bits(b: u64) -> Self {
        b as i64
    }

    fn dtype() -> DType {
        DType::I64
    }

    #[verifier::truncate]
    fn to_bits(self) -> u64 {
        self as u64
    }

    #[verifier::truncate]
    fn from_bits(b: u64) -> Self {
        b as i64
    }

    fn zero() -> Self {
        0
    }

    proof fn lemma_bits_round_trip(self) {
        let x: i64 = self;
        assert(((x as u64) as i64) == x) by (bit_vector);
    }
}

/// A scalar constant: one element of a given type, in canonical encoding.
#[derive(Clone, Copy, Debug, PartialEq, Eq, Structural)]
pub struct Const {
    pub dtype: DType,
    pub bits: u64,
}

impl Const {
    /// The constant holding one host element.
    pub fn of<DT: WithDType>(v: DT) -> (r: Const)
        ensures
            r.dtype == DT::spec_dtype(),
            r.bits == v.spec_to_bits(),
    {
        Const { dtype: DT::dtype(), bits: v.to_bits() }
    }
}

} // verus!
