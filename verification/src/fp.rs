//! Software floating-point arithmetic on raw bit patterns.
//!
//! The pipeline carries floating-point elements as bit patterns (`u16` for the
//! 16-bit formats, `u32` for single precision) so that every stage stays in
//! plain integer data. The arithmetic itself is IEEE-754 rounding work that is
//! done by `rustc_apfloat`; each operation's result is a pure function of the
//! operand bits, named below by an uninterpreted function.

use vstd::prelude::*;
use rustc_apfloat::Float;
use rustc_apfloat::Round;
use rustc_apfloat::ieee::{BFloat, Half, Single};

verus! {

pub uninterp spec fn f16_add(a: u16, b: u16) -> u16;

pub uninterp spec fn f16_sub(a: u16, b: u16) -> u16;

pub uninterp spec fn f16_mul(a: u16, b: u16) -> u16;

pub uninterp spec fn bf16_add(a: u16, b: u16) -> u16;

pub uninterp spec fn bf16_sub(a: u16, b: u16) -> u16;

pub uninterp spec fn bf16_mul(a: u16, b: u16) -> u16;

pub uninterp spec fn f32_add(a: u32, b: u32) -> u32;

pub uninterp spec fn f32_sub(a: u32, b: u32) -> u32;

pub uninterp spec fn f32_mul(a: u32, b: u32) -> u32;

/// Relies on rustc_apfloat::ieee::Half::add_r: IEEE-754 binary16 addition,
/// round to nearest even; the result depends on the operand bits alone.
#[verifier::external_body]
pub fn f16_add_exec(a: u16, b: u16) -> (r: u16)
    ensures
        r == f16_add(a, b),
{
    let x = Half::from_bits(a as u128);
    let y = Half::from_bits(b as u128);
    x.add_r(y, Round::NearestTiesToEven).value.to_bits() as u16
}

/// Relies on rustc_apfloat::ieee::Half::sub_r: IEEE-754 binary16 subtraction,
/// round to nearest even; the result depends on the operand bits alone.
#[verifier::external_body]
pub fn f16_sub_exec(a: u16, b: u16) -> (r: u16)
    ensures
        r == f16_sub(a, b),
{
    let x = Half::from_bits(a as u128);
    let y = Half::from_bits(b as u128);
    x.sub_r(y, Round::NearestTiesToEven).value.to_bits() as u16
}

/// Relies on rustc_apfloat::ieee::Half::mul_r: IEEE-754 binary16
/// multiplication, round to nearest even; the result depends on the operand
/// bits alone.
#[verifier::external_body]
pub fn f16_mul_exec(a: u16, b: u16) -> (r: u16)
    ensures
        r == f16_mul(a, b),
{
    let x = Half::from_bits(a as u128);
    let y = Half::from_bits(b as u128);
    x.mul_r(y, Round::NearestTiesToEven).value.to_bits() as u16
}

/// Relies on rustc_apfloat::ieee::BFloat::add_r: bfloat16 addition, round to
/// nearest even; the result depends on the operand bits alone.
#[verifier::external_body]
pub fn bf16_add_exec(a: u16, b: u16) -> (r: u16)
    ensures
        r == bf16_add(a, b),
{
    let x = BFloat::from_bits(a as u128);
    let y = BFloat::from_bits(b as u128);
    x.add_r(y, Round::NearestTiesToEven).value.to_bits() as u16
}

/// Relies on rustc_apfloat::ieee::BFloat::sub_r: bfloat16 subtraction, round
/// to nearest even; the result depends on the operand bits alone.
#[verifier::external_body]
pub fn bf16_sub_exec(a: u16, b: u16) -> (r: u16)
    ensures
        r == bf16_sub(a, b),
{
    let x = BFloat::from_bits(a as u128);
    let y = BFloat::from_bits(b as u128);
    x.sub_r(y, Round::NearestTiesToEven).value.to_bits() as u16
}

/// Relies on rustc_apfloat::ieee::BFloat::mul_r: bfloat16 multiplication,
/// round to nearest even; the result depends on the operand bits alone.
#[verifier::external_body]
pub fn bf16_mul_exec(a: u16, b: u16) -> (r: u16)
    ensures
        r == bf16_mul(a, b),
{
    let x = BFloat::from_bits(a as u128);
    let y = BFloat::from_bits(b as u128);
    x.mul_r(y, Round::NearestTiesToEven).value.to_bits() as u16
}

/// Relies on rustc_apfloat::ieee::Single::add_r: IEEE-754 binary32 addition,
/// round to nearest even; the result depends on the operand bits alone.
#[verifier::external_body]
pub fn f32_add_exec(a: u32, b: u32) -> (r: u32)
    ensures
        r == f32_add(a, b),
{
    let x = Single::from_bits(a as u128);
    let y = Single::from_bits(b as u128);
    x.add_r(y, Round::NearestTiesToEven).value.to_bits() as u32
}

/// Relies on rustc_apfloat::ieee::Single::sub_r: IEEE-754 binary32
/// subtraction, round to nearest even; the result depends on the operand bits
/// alone.
#[verifier::external_body]
pub fn f32_sub_exec(a: u32, b: u32) -> (r: u32)
    ensures
        r == f32_sub(a, b),
{
    let x = Single::from_bits(a as u128);
    let y = Single::from_bits(b as u128);
    x.sub_r(y, Round::NearestTiesToEven).value.to_bits() as u32
}

/// Relies on rustc_apfloat::ieee::Single::mul_r: IEEE-754 binary32
/// multiplication, round to nearest even; the result depends on the operand
/// bits alone.
#[verifier::external_body]
pub fn f32_mul_exec(a: u32, b: u32) -> (r: u32)
    ensures
        r == f32_mul(a, b),
{
    let x = Single::from_bits(a as u128);
    let y = Single::from_bits(b as u128);
    x.mul_r(y, Round::NearestTiesToEven).value.to_bits() as u32
}

} // verus!
