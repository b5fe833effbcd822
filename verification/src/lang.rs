//! The backend-neutral SSA kernel IR.
//!
//! A [`Kernel`] is a flat ordered list of instructions, each producing one
//! value named by its own position. Operands only ever point backwards, loop
//! bodies are bracketed by `Range`/`EndRange` pairs that nest properly, and
//! the only mutable cells are explicit accumulators.

use vstd::prelude::*;
use crate::dtype::DType;
use crate::error::{Error, Result};
use crate::scalar::BinaryOp;

verus! {

/// One buffer argument of a kernel: its element type and element count.
/// By convention argument 0 is the kernel's output.
#[derive(Clone, Copy, Debug, PartialEq, Eq, Structural)]
pub struct ArgDef {
    pub dtype: DType,
    pub len: usize,
}

/// One SSA instruction. `usize` operands name earlier instructions by
/// position; `src`/`dst` name kernel arguments.
#[derive(Clone, Copy, Debug, PartialEq, Eq, Structural)]
pub enum Instr {
    /// Materialize a constant with the given canonical bit encoding.
    Const { dtype: DType, bits: u64 },
    /// Open a loop running its counter from 0 to `end` (exclusive); the
    /// instruction's value is the counter.
    Range { end: usize },
    /// Apply a binary operation at `dtype` to two earlier values.
    Binary { op: BinaryOp, dtype: DType, lhs: usize, rhs: usize },
    /// Read element `offset` (an earlier value) of argument `src`.
    Load { src: usize, offset: usize, dtype: DType },
    /// Write the earlier value `value` to element `offset` of argument `dst`.
    Store { dst: usize, offset: usize, value: usize, dtype: DType },
    /// Open an accumulator cell starting at `init`.
    DefineAcc { dtype: DType, init: u64 },
    /// Fold the earlier value `value` into the accumulator cell `acc`.
    Accumulate { op: BinaryOp, dtype: DType, acc: usize, value: usize },
    /// Close the loop opened at position `start`.
    EndRange { start: usize },
}

/// A backend-neutral kernel program.
#[derive(Clone, Debug)]
pub struct Kernel {
    pub args: Vec<ArgDef>,
    pub instrs: Vec<Instr>,
}

/// Every operand of the instruction at `i` names an earlier instruction (of
/// the right kind where one is required) or an existing argument.
pub open spec fn instr_operands_ok(instrs: Seq<Instr>, n_args: int, i: int) -> bool {
    match instrs[i] {
        Instr::Const { .. } => true,
        Instr::Range { .. } => true,
        Instr::Binary { lhs, rhs, .. } => lhs < i && rhs < i,
        Instr::Load { src, offset, .. } => src < n_args && offset < i,
        Instr::Store { dst, offset, value, .. } => dst < n_args && offset < i && value < i,
        Instr::DefineAcc { .. } => true,
        Instr::Accumulate { acc, value, .. } => acc < i && value < i && instrs[acc as int]
            is DefineAcc,
        Instr::EndRange { start } => start < i && instrs[start as int] is Range,
    }
}

/// The static-assignment discipline: no instruction reads forward.
pub open spec fn operands_ok(instrs: Seq<Instr>, n_args: int) -> bool {
    forall|i: int| 0 <= i < instrs.len() ==> instr_operands_ok(instrs, n_args, i)
}

/// `ends` assigns to every `Range` in `[lo, hi)` its matching `EndRange`, and
/// the pairs nest properly: the interval is a well-bracketed block.
pub open spec fn block_ok(instrs: Seq<Instr>, ends: Seq<usize>, lo: int, hi: int) -> bool
    decreases hi - lo
{
    if lo >= hi {
        lo == hi
    } else {
        match instrs[lo] {
            Instr::Range { .. } => {
                &&& lo < ends[lo] < hi
                &&& instrs[ends[lo] as int] matches Instr::EndRange { start } && start == lo
                &&& block_ok(instrs, ends, lo + 1, ends[lo] as int)
                &&& block_ok(instrs, ends, ends[lo] as int + 1, hi)
            },
            Instr::EndRange { .. } => false,
            _ => block_ok(instrs, ends, lo + 1, hi),
        }
    }
}

/// A kernel is valid for a bracket map `ends` when its operands respect the
/// SSA discipline and its whole instruction list is one well-bracketed block.
pub open spec fn kernel_ok(args: Seq<ArgDef>, instrs: Seq<Instr>, ends: Seq<usize>) -> bool {
    &&& operands_ok(instrs, args.len() as int)
    &&& ends.len() == instrs.len()
    &&& block_ok(instrs, ends, 0, instrs.len() as int)
}

impl Kernel {
    /// [`kernel_ok`] of this kernel's own parts.
    pub open spec fn valid_with(self, ends: Seq<usize>) -> bool {
        kernel_ok(self.args@, self.instrs@, ends)
    }

    /// Checks the kernel and computes the bracket map that the interpreter
    /// walks. Any structural violation is a `CompileError`.
    pub fn validate(&self) -> (r: Result<Vec<usize>>)
        ensures
            match r {
                Ok(ends) => self.valid_with(ends@),
                Err(e) => e == Error::CompileError,
            },
    {
        let n = self.instrs.len();
        let n_args = self.args.len();
        // pair every Range with its EndRange by a scan over a stack of the
        // currently open loops
        let mut ends: Vec<usize> = Vec::new();
        let mut i: usize = 0;
        while i < n
            invariant
                0 <= i <= n,
                ends@.len() == i,
                n == self.instrs@.len(),
            decreases n - i,
        {
            ends.push(0);
            i = i + 1;
        }
        let mut open: Vec<usize> = Vec::new();
        let mut i: usize = 0;
        while i < n
            invariant
                0 <= i <= n,
                ends@.len() == n,
                n == self.instrs@.len(),
                forall|j: int| 0 <= j < open@.len() ==> open@[j] < n,
            decreases n - i,
        {
            match self.instrs[i] {
                Instr::Range { .. } => {
                    open.push(i);
                },
                Instr::EndRange { .. } => {
                    match open.pop() {
                        Some(start) => {
                            ends.set(start, i);
                        },
                        None => {
                            return Err(Error::CompileError);
                        },
                    }
                },
                _ => {},
            }
            i = i + 1;
        }
        if open.len() != 0 {
            return Err(Error::CompileError);
        }
        // check the computed map against the structural definition
        let mut i: usize = 0;
        while i < n
            invariant
                0 <= i <= n,
                n == self.instrs@.len(),
                forall|j: int| 0 <= j < i ==> instr_operands_ok(self.instrs@, n_args as int, j),
                n_args == self.args@.len(),
            decreases n - i,
        {
            let ok = match self.instrs[i] {
                Instr::Const { .. } => true,
                Instr::Range { .. } => true,
                Instr::Binary { lhs, rhs, .. } => lhs < i && rhs < i,
                Instr::Load { src, offset, .. } => src < n_args && offset < i,
                Instr::Store { dst, offset, value, .. } => dst < n_args && offset < i && value
                    < i,
                Instr::DefineAcc { .. } => true,
                Instr::Accumulate { acc, value, .. } => acc < i && value < i && matches!(
                    self.instrs[acc],
                    Instr::DefineAcc { .. },
                ),
                Instr::EndRange { start } => start < i && matches!(
                    self.instrs[start],
                    Instr::Range { .. },
                ),
            };
            if !ok {
                return Err(Error::CompileError);
            }
            i = i + 1;
        }
        if check_block(&self.instrs, &ends, 0, n) {
            Ok(ends)
        } else {
            Err(Error::CompileError)
        }
    }

    /// Structural equality of two kernels.
    pub fn same_kernel(&self, other: &Kernel) -> (r: bool)
        ensures
            r == (self.args@ == other.args@ && self.instrs@ == other.instrs@),
    {
        if self.args.len() != other.args.len() || self.instrs.len() != other.instrs.len() {
            proof {
                if self.args@.len() != other.args@.len() {
                    assert(self.args@ !~= other.args@);
                } else {
                    assert(self.instrs@ !~= other.instrs@);
                }
            }
            return false;
        }
        let na = self.args.len();
        let mut i: usize = 0;
        while i < na
            invariant
                0 <= i <= na,
                na == self.args@.len() == other.args@.len(),
                forall|j: int| 0 <= j < i ==> self.args@[j] == other.args@[j],
            decreases na - i,
        {
            if self.args[i] != other.args[i] {
                return false;
            }
            i = i + 1;
        }
        let n = self.instrs.len();
        let mut i: usize = 0;
        while i < n
            invariant
                0 <= i <= n,
                n == self.instrs@.len() == other.instrs@.len(),
                forall|j: int| 0 <= j < i ==> self.instrs@[j] == other.instrs@[j],
            decreases n - i,
        {
            if self.instrs[i] != other.instrs[i] {
                return false;
            }
            i = i + 1;
        }
        proof {
            assert(self.args@ =~= other.args@);
            assert(self.instrs@ =~= other.instrs@);
        }
        true
    }

    /// A content-derived identity for the kernel, independent of where it
    /// lives in memory: equal kernels always hash equally.
    pub fn structural_hash(&self) -> (r: u64)
        ensures
            r == spec_kernel_hash(self.args@, self.instrs@),
    {
        let mut h: u64 = FNV_OFFSET;
        let na = self.args.len();
        let mut i: usize = 0;
        while i < na
            invariant
                0 <= i <= na,
                na == self.args@.len(),
                h == hash_args_upto(self.args@, i as int),
            decreases na - i,
        {
            h = mix(mix(h, self.args[i].dtype_tag()), self.args[i].len as u64);
            i = i + 1;
        }
        let n = self.instrs.len();
        let mut h2: u64 = h;
        let mut i: usize = 0;
        while i < n
            invariant
                0 <= i <= n,
                n == self.instrs@.len(),
                h == hash_args_upto(self.args@, self.args@.len() as int),
                h2 == hash_instrs_upto(self.args@, self.instrs@, i as int),
            decreases n - i,
        {
            h2 = mix_instr(h2, &self.instrs[i]);
            i = i + 1;
        }
        h2
    }
}

impl ArgDef {
    /// A small integer tag for the element type, used by the hash.
    pub fn dtype_tag(&self) -> (r: u64)
        ensures
            r == spec_dtype_tag(self.dtype),
    {
        match self.dtype {
            DType::F16 => 1,
            DType::BF16 => 2,
            DType::F32 => 3,
            DType::I32 => 4,
            DType::I64 => 5,
        }
    }
}

/// Mirrors [`Kernel::validate`]'s structural check: whether `[lo, hi)` is one
/// well-bracketed block under `ends`.
pub fn check_block(instrs: &Vec<Instr>, ends: &Vec<usize>, lo: usize, hi: usize) -> (r: bool)
    requires
        lo <= hi <= instrs@.len(),
        ends@.len() == instrs@.len(),
    ensures
        r == block_ok(instrs@, ends@, lo as int, hi as int),
    decreases hi - lo,
{
    if lo >= hi {
        return lo == hi;
    }
    match instrs[lo] {
        Instr::Range { .. } => {
            let e = ends[lo];
            if !(lo < e && e < hi) {
                return false;
            }
            let matched = match instrs[e] {
                Instr::EndRange { start } => start == lo,
                _ => false,
            };
            if !matched {
                return false;
            }
            check_block(instrs, ends, lo + 1, e) && check_block(instrs, ends, e + 1, hi)
        },
        Instr::EndRange { .. } => false,
        _ => check_block(instrs, ends, lo + 1, hi),
    }
}

pub const FNV_OFFSET: u64 = 0xcbf29ce484222325;

pub const FNV_PRIME: u64 = 0x100000001b3;

/// One step of the FNV-1a fold.
#[verifier::allow_in_spec]
pub fn mix(h: u64, x: u64) -> u64
    returns
        (h ^ x).wrapping_mul(FNV_PRIME),
{
    (h ^ x).wrapping_mul(FNV_PRIME)
}

pub open spec fn spec_dtype_tag(dt: DType) -> u64 {
    match dt {
        DType::F16 => 1u64,
        DType::BF16 => 2u64,
        DType::F32 => 3u64,
        DType::I32 => 4u64,
        DType::I64 => 5u64,
    }
}

pub open spec fn spec_op_tag(op: BinaryOp) -> u64 {
    match op {
        BinaryOp::Add => 1u64,
        BinaryOp::Sub => 2u64,
        BinaryOp::Mul => 3u64,
    }
}

/// Folds one instruction's content into the hash.
pub open spec fn spec_mix_instr(h: u64, ins: Instr) -> u64 {
    match ins {
        Instr::Const { dtype, bits } => mix(mix(mix(h, 11), spec_dtype_tag(dtype)), bits),
        Instr::Range { end } => mix(mix(h, 12), end as u64),
        Instr::Binary { op, dtype, lhs, rhs } => mix(
            mix(mix(mix(mix(h, 13), spec_op_tag(op)), spec_dtype_tag(dtype)), lhs as u64),
            rhs as u64,
        ),
        Instr::Load { src, offset, dtype } => mix(
            mix(mix(mix(h, 14), src as u64), offset as u64),
            spec_dtype_tag(dtype),
        ),
        Instr::Store { dst, offset, value, dtype } => mix(
            mix(mix(mix(mix(h, 15), dst as u64), offset as u64), value as u64),
            spec_dtype_tag(dtype),
        ),
        Instr::DefineAcc { dtype, init } => mix(mix(mix(h, 16), spec_dtype_tag(dtype)), init),
        Instr::Accumulate { op, dtype, acc, value } => mix(
            mix(mix(mix(mix(h, 17), spec_op_tag(op)), spec_dtype_tag(dtype)), acc as u64),
            value as u64,
        ),
        Instr::EndRange { start } => mix(mix(h, 18), start as u64),
    }
}

/// Exec twin of [`spec_mix_instr`].
pub fn mix_instr(h: u64, ins: &Instr) -> (r: u64)
    ensures
        r == spec_mix_instr(h, *ins),
{
    match *ins {
        Instr::Const { dtype, bits } => mix(
            mix(mix(h, 11), ArgDef { dtype, len: 0 }.dtype_tag()),
            bits,
        ),
        Instr::Range { end } => mix(mix(h, 12), end as u64),
        Instr::Binary { op, dtype, lhs, rhs } => mix(
            mix(
                mix(mix(mix(h, 13), op_tag(op)), ArgDef { dtype, len: 0 }.dtype_tag()),
                lhs as u64,
            ),
            rhs as u64,
        ),
        Instr::Load { src, offset, dtype } => mix(
            mix(mix(mix(h, 14), src as u64), offset as u64),
            ArgDef { dtype, len: 0 }.dtype_tag(),
        ),
        Instr::Store { dst, offset, value, dtype } => mix(
            mix(mix(mix(mix(h, 15), dst as u64), offset as u64), value as u64),
            ArgDef { dtype, len: 0 }.dtype_tag(),
        ),
        Instr::DefineAcc { dtype, init } => mix(
            mix(mix(h, 16), ArgDef { dtype, len: 0 }.dtype_tag()),
            init,
        ),
        Instr::Accumulate { op, dtype, acc, value } => mix(
            mix(
                mix(mix(mix(h, 17), op_tag(op)), ArgDef { dtype, len: 0 }.dtype_tag()),
                acc as u64,
            ),
            value as u64,
        ),
        Instr::EndRange { start } => mix(mix(h, 18), start as u64),
    }
}

/// Exec twin of [`spec_op_tag`].
pub fn op_tag(op: BinaryOp) -> (r: u64)
    ensures
        r == spec_op_tag(op),
{
    match op {
        BinaryOp::Add => 1,
        BinaryOp::Sub => 2,
        BinaryOp::Mul => 3,
    }
}

/// The hash after folding in the first `i` argument definitions.
pub open spec fn hash_args_upto(args: Seq<ArgDef>, i: int) -> u64
    decreases i,
{
    if i <= 0 {
        FNV_OFFSET
    } else {
        mix(mix(hash_args_upto(args, i - 1), spec_dtype_tag(args[i - 1].dtype)), args[i - 1].len as u64)
    }
}

/// The hash after folding in all arguments and the first `i` instructions.
pub open spec fn hash_instrs_upto(args: Seq<ArgDef>, instrs: Seq<Instr>, i: int) -> u64
    decreases i,
{
    if i <= 0 {
        hash_args_upto(args, args.len() as int)
    } else {
        spec_mix_instr(hash_instrs_upto(args, instrs, i - 1), instrs[i - 1])
    }
}

/// The content hash of a whole kernel.
pub open spec fn spec_kernel_hash(args: Seq<ArgDef>, instrs: Seq<Instr>) -> u64 {
    hash_instrs_upto(args, instrs, instrs.len() as int)
}

} // verus!
