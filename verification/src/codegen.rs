//! Per-backend source emission: the SSA IR as C-like CPU code, as a CUDA
//! kernel, or as a Metal shader.
//!
//! Emission is a line-per-instruction mechanical translation of the IR; the
//! dialects differ only in the function header and address-space qualifiers.
//! The reference interpreter remains the semantic anchor — these renderings
//! are what a native toolchain would compile.

use vstd::prelude::*;
use crate::dtype::DType;
use crate::lang::{Instr, Kernel};
use crate::scalar::BinaryOp;

verus! {

/// Relies on String::push_str: appends the string slice onto the end.
pub assume_specification[ String::push_str ](s: &mut String, other: &str)
    ensures
        final(s)@ == old(s)@ + other@,
;

/// Relies on String::push: appends the character onto the end.
pub assume_specification[ String::push ](s: &mut String, c: char)
    ensures
        final(s)@ == old(s)@.push(c),
;

/// Appends `x` in decimal.
fn push_u64(s: &mut String, x: u64)
    ensures
        final(s)@.len() > old(s)@.len(),
{
    let mut digits: Vec<u8> = Vec::new();
    let mut v: u64 = x;
    loop
        invariant
            true,
        ensures
            digits@.len() > 0,
        decreases v,
    {
        let d = (v % 10) as u8;
        digits.push(d);
        v = v / 10;
        if v == 0 {
            break;
        }
    }
    let mut i: usize = digits.len();
    while i > 0
        invariant
            0 <= i <= digits@.len(),
            s@.len() >= old(s)@.len() + (digits@.len() - i),
        decreases i,
    {
        let d = digits[i - 1];
        let c = match d {
            0 => '0',
            1 => '1',
            2 => '2',
            3 => '3',
            4 => '4',
            5 => '5',
            6 => '6',
            7 => '7',
            8 => '8',
            _ => '9',
        };
        s.push(c);
        i = i - 1;
    }
}

/// The scalar C type that carries one element of `dt` (bit patterns for the
/// 16-bit floating formats).
fn ctype_name(dt: DType) -> (r: &'static str) {
    match dt {
        DType::F16 => "unsigned short",
        DType::BF16 => "unsigned short",
        DType::F32 => "float",
        DType::I32 => "int",
        DType::I64 => "long long",
    }
}

fn op_symbol(op: BinaryOp) -> (r: &'static str) {
    match op {
        BinaryOp::Add => " + ",
        BinaryOp::Sub => " - ",
        BinaryOp::Mul => " * ",
    }
}

/// Appends `v<id>`.
fn push_var(s: &mut String, id: usize)
    ensures
        final(s)@.len() > old(s)@.len(),
{
    s.push('v');
    push_u64(s, id as u64);
}

/// Appends `a<idx>`, the name of kernel argument `idx`.
fn push_arg(s: &mut String, idx: usize)
    ensures
        final(s)@.len() > old(s)@.len(),
{
    s.push('a');
    push_u64(s, idx as u64);
}

/// Renders the kernel's instruction list as C-like statements, one per
/// instruction, loops as `for` nests.
fn emit_body(s: &mut String, k: &Kernel)
    ensures
        final(s)@.len() >= old(s)@.len(),
{
    let n = k.instrs.len();
    let mut i: usize = 0;
    while i < n
        invariant
            0 <= i <= n,
            n == k.instrs@.len(),
            s@.len() >= old(s)@.len(),
        decreases n - i,
    {
        match k.instrs[i] {
            Instr::Const { dtype, bits } => {
                s.push_str("  ");
                s.push_str(ctype_name(dtype));
                s.push(' ');
                push_var(s, i);
                s.push_str(" = (");
                s.push_str(ctype_name(dtype));
                s.push_str(")");
                push_u64(s, bits);
                s.push_str("ULL;\n");
            },
            Instr::Range { end } => {
                s.push_str("  for (long long ");
                push_var(s, i);
                s.push_str(" = 0; ");
                push_var(s, i);
                s.push_str(" < ");
                push_u64(s, end as u64);
                s.push_str("; ");
                push_var(s, i);
                s.push_str("++) {\n");
            },
            Instr::Binary { op, dtype, lhs, rhs } => {
                s.push_str("  ");
                s.push_str(ctype_name(dtype));
                s.push(' ');
                push_var(s, i);
                s.push_str(" = ");
                push_var(s, lhs);
                s.push_str(op_symbol(op));
                push_var(s, rhs);
                s.push_str(";\n");
            },
            Instr::Load { src, offset, dtype } => {
                s.push_str("  ");
                s.push_str(ctype_name(dtype));
                s.push(' ');
                push_var(s, i);
                s.push_str(" = ");
                push_arg(s, src);
                s.push('[');
                push_var(s, offset);
                s.push_str("];\n");
            },
            Instr::Store { dst, offset, value, dtype } => {
                s.push_str("  ");
                push_arg(s, dst);
                s.push('[');
                push_var(s, offset);
                s.push_str("] = ");
                push_var(s, value);
                s.push_str(";\n");
            },
            Instr::DefineAcc { dtype, init } => {
                s.push_str("  ");
                s.push_str(ctype_name(dtype));
                s.push(' ');
                push_var(s, i);
                s.push_str(" = (");
                s.push_str(ctype_name(dtype));
                s.push_str(")");
                push_u64(s, init);
                s.push_str("ULL;\n");
            },
            Instr::Accumulate { op, dtype, acc, value } => {
                s.push_str("  ");
                push_var(s, acc);
                s.push_str(" = ");
                push_var(s, acc);
                s.push_str(op_symbol(op));
                push_var(s, value);
                s.push_str(";\n");
            },
            Instr::EndRange { start } => {
                s.push_str("  }\n");
            },
        }
        i = i + 1;
    }
}

/// Appends the argument list `type* a0, type* a1, ...` with the given
/// pointer qualifier.
fn emit_params(s: &mut String, k: &Kernel, qualifier: &str)
    ensures
        final(s)@.len() >= old(s)@.len(),
{
    let n = k.args.len();
    let mut i: usize = 0;
    while i < n
        invariant
            0 <= i <= n,
            n == k.args@.len(),
            s@.len() >= old(s)@.len(),
        decreases n - i,
    {
        if i > 0 {
            s.push_str(", ");
        }
        s.push_str(qualifier);
        s.push_str(ctype_name(k.args[i].dtype));
        s.push_str(" *");
        push_arg(s, i);
        i = i + 1;
    }
}

/// The kernel as a plain C function for the CPU backend's toolchain.
pub fn cpu_c_source(k: &Kernel, name: &str) -> (r: String)
    ensures
        r@.len() > 0,
{
    let mut s = String::new();
    s.push_str("void ");
    s.push_str(name);
    s.push('(');
    emit_params(&mut s, k, "");
    s.push_str(") {\n");
    emit_body(&mut s, k);
    s.push_str("}\n");
    s
}

/// The kernel as CUDA source, one thread walking the whole iteration space.
pub fn cuda_source(k: &Kernel, name: &str) -> (r: String)
    ensures
        r@.len() > 0,
{
    let mut s = String::new();
    s.push_str("extern \"C\" __global__ void ");
    s.push_str(name);
    s.push('(');
    emit_params(&mut s, k, "");
    s.push_str(") {\n  if (blockIdx.x * blockDim.x + threadIdx.x != 0) return;\n");
    emit_body(&mut s, k);
    s.push_str("}\n");
    s
}

/// The kernel as a Metal compute shader.
pub fn metal_source(k: &Kernel, name: &str) -> (r: String)
    ensures
        r@.len() > 0,
{
    let mut s = String::new();
    s.push_str("#include <metal_stdlib>\nusing namespace metal;\nkernel void ");
    s.push_str(name);
    s.push('(');
    emit_params(&mut s, k, "device ");
    s.push_str(", uint tid [[thread_position_in_grid]]) {\n  if (tid != 0) return;\n");
    emit_body(&mut s, k);
    s.push_str("}\n");
    s
}

} // verus!
