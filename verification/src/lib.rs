//! A small tensor-computation compiler: lazy operation graphs are scheduled
//! into fused kernels, lowered to a backend-neutral SSA form, and executed
//! either by a reference interpreter or by a backend device.
//!
//! The two traits below are the capability boundary every backend implements:
//! [`Device`] allocates memory, compiles SSA kernels and launches them;
//! [`Slice`] is a handle to device-resident memory. A compiled kernel's
//! behaviour is pinned to the reference interpreter's specification, so every
//! conforming backend computes the same bits.

use vstd::prelude::*;

pub mod codegen;
pub mod cpu;
pub mod dtype;
pub mod error;
pub mod fp;
pub mod graph;
pub mod interpreter;
pub mod lang;
pub mod layout;
pub mod lower;
pub mod matmul;
pub mod realize;
pub mod scalar;
pub mod schedule;

pub use dtype::DType;
pub use error::{Error, Result};
pub use layout::{D, Dim, Layout, Shape};
pub use scalar::{Const, WithDType};

use crate::interpreter::{spec_interp, BufV};
use crate::lang::{ArgDef, Instr, Kernel};

verus! {

/// The operands of a fast-path matrix multiply agree: lengths match the
/// `(batch, m, n, k)` extents, the products stay within machine bounds, and
/// the layouts describe the operands as contiguous row-major data.
pub open spec fn mm_args_ok(
    dst_len: int,
    lhs_len: int,
    rhs_len: int,
    b: int,
    m: int,
    n: int,
    k: int,
    lhs_l: Layout,
    rhs_l: Layout,
) -> bool {
    &&& lhs_len == b * m * k
    &&& rhs_len == b * k * n
    &&& dst_len == b * m * n
    &&& b * m <= usize::MAX
    &&& b * m * k <= usize::MAX
    &&& b * k <= usize::MAX
    &&& b * k * n <= usize::MAX
    &&& b * m * n <= usize::MAX
    &&& lhs_l.wf() && lhs_l.is_contiguous_spec() && lhs_l.shape.spec_numel() == lhs_len
    &&& rhs_l.wf() && rhs_l.is_contiguous_spec() && rhs_l.shape.spec_numel() == rhs_len
}

/// The models of a list of slices, as the interpreter sees buffers.
pub open spec fn slices_v<S: Slice>(ss: Seq<S>) -> Seq<BufV> {
    ss.map_values(|s: S| BufV { dtype: s.spec_dtype(), data: s.spec_data() })
}

/// A handle to device-resident memory of known element type and length,
/// owned by the device that allocated it. Host-device copies are the only
/// way data crosses the boundary, and they round-trip exactly.
pub trait Slice: Sized {
    /// The device type that owns this kind of slice.
    type Device;

    /// The element type of the slice's contents.
    spec fn spec_dtype(&self) -> DType;

    /// The slice's contents, in the canonical `u64` encoding.
    spec fn spec_data(&self) -> Seq<u64>;

    /// The device owning this slice.
    fn device(&self) -> &Self::Device;

    fn dtype(&self) -> (r: DType)
        ensures
            r == self.spec_dtype(),
    ;

    fn len(&self) -> (r: usize)
        ensures
            r == self.spec_data().len(),
    ;

    /// Overwrites the slice with host data. Succeeds exactly when the host
    /// element type and length agree with the slice's.
    fn copy_host_to_device<DT: WithDType>(&mut self, src: &Vec<DT>) -> (r: Result<()>)
        ensures
            final(self).spec_dtype() == old(self).spec_dtype(),
            final(self).spec_data().len() == old(self).spec_data().len(),
            match r {
                Ok(()) => DT::spec_dtype() == old(self).spec_dtype() && src@.len() == old(
                    self,
                ).spec_data().len() && final(self).spec_data() == src@.map_values(
                    |x: DT| x.spec_to_bits(),
                ),
                Err(e) => final(self).spec_data() == old(self).spec_data() && if DT::spec_dtype()
                    != old(self).spec_dtype() {
                    e == (Error::DTypeMismatch {
                        expected: old(self).spec_dtype(),
                        got: DT::spec_dtype(),
                    })
                } else {
                    src@.len() != old(self).spec_data().len() && e == (Error::SizeMismatch {
                        expected: old(self).spec_data().len() as usize,
                        got: src@.len() as usize,
                    })
                },
            },
    ;

    /// Reads the slice back into a host vector of the same length. Succeeds
    /// exactly when the host element type and length agree with the slice's.
    fn copy_device_to_host<DT: WithDType>(&self, dst: &mut Vec<DT>) -> (r: Result<()>)
        ensures
            match r {
                Ok(()) => DT::spec_dtype() == self.spec_dtype() && old(dst)@.len()
                    == self.spec_data().len() && final(dst)@ == self.spec_data().map_values(
                    |b: u64| DT::spec_from_bits(b),
                ),
                Err(e) => final(dst)@ == old(dst)@ && if DT::spec_dtype() != self.spec_dtype() {
                    e == (Error::DTypeMismatch { expected: self.spec_dtype(), got: DT::spec_dtype() })
                } else {
                    old(dst)@.len() != self.spec_data().len() && e == (Error::SizeMismatch {
                        expected: self.spec_data().len() as usize,
                        got: old(dst)@.len() as usize,
                    })
                },
            },
    ;

    /// Whether the slice holds no elements.
    fn is_empty(&self) -> (r: bool)
        ensures
            r == (self.spec_data().len() == 0),
    {
        self.len() == 0
    }

    /// Reads the whole slice into a fresh host vector.
    fn to_vec<DT: WithDType>(&self) -> (r: Result<Vec<DT>>)
        ensures
            match r {
                Ok(v) => DT::spec_dtype() == self.spec_dtype() && v@ == self.spec_data().map_values(
                    |b: u64| DT::spec_from_bits(b),
                ),
                Err(e) => e == (Error::DTypeMismatch {
                    expected: self.spec_dtype(),
                    got: DT::spec_dtype(),
                }) && DT::spec_dtype() != self.spec_dtype(),
            },
    {
        let n = self.len();
        let mut host: Vec<DT> = Vec::new();
        let mut i: usize = 0;
        while i < n
            invariant
                0 <= i <= n,
                host@.len() == i,
            decreases n - i,
        {
            host.push(DT::zero());
            i = i + 1;
        }
        match self.copy_device_to_host(&mut host) {
            Ok(()) => Ok(host),
            Err(e) => Err(e),
        }
    }
}

/// The capability contract a backend implements once: allocate device
/// memory, compile an SSA kernel, launch it, synchronize, and a fast-path
/// matrix multiply. A compiled kernel, when run, leaves the argument buffers
/// exactly as the reference interpreter computes them.
pub trait Device: Sized + Clone {
    type Slice: Slice<Device = Self>;

    type Func;

    /// The argument signature of the kernel a compiled function came from.
    spec fn func_args(f: &Self::Func) -> Seq<ArgDef>;

    /// The instruction list of the kernel a compiled function came from.
    spec fn func_instrs(f: &Self::Func) -> Seq<Instr>;

    /// The loop-bracket map of that kernel.
    spec fn func_ends(f: &Self::Func) -> Seq<usize>;

    /// Fresh device memory of the given type and length, with unspecified
    /// contents.
    fn allocate_uninit(&self, dtype: DType, len: usize) -> (r: Result<Self::Slice>)
        ensures
            match r {
                Ok(s) => s.spec_dtype() == dtype && s.spec_data().len() == len,
                Err(e) => e == Error::DeviceError,
            },
    ;

    /// Blocks until all previously queued work on the device completes.
    fn synchronize(&self) -> (r: Result<()>)
        ensures
            r is Err ==> r == Err::<(), Error>(Error::DeviceError),
    ;

    /// Translates a kernel into a runnable object. On success the object is
    /// a faithful, validated image of the kernel.
    fn compile(&self, kernel: &Kernel, name: Option<&str>) -> (r: Result<Self::Func>)
        ensures
            match r {
                Ok(f) => Self::func_args(&f) == kernel.args@ && Self::func_instrs(&f)
                    == kernel.instrs@ && crate::lang::kernel_ok(
                    kernel.args@,
                    kernel.instrs@,
                    Self::func_ends(&f),
                ),
                Err(e) => e == Error::CompileError || e == Error::DeviceError,
            },
    ;

    /// Launches a compiled kernel on the given argument slices. On success
    /// the slices hold exactly what the reference interpreter computes for
    /// that kernel; a fault leaves lengths and types intact.
    fn run(&self, f: &Self::Func, args: &mut Vec<Self::Slice>) -> (r: Result<()>)
        ensures
            final(args)@.len() == old(args)@.len(),
            forall|i: int|
                0 <= i < final(args)@.len() ==> #[trigger] final(args)@[i].spec_dtype() == old(
                    args,
                )@[i].spec_dtype() && final(args)@[i].spec_data().len() == old(
                    args,
                )@[i].spec_data().len(),
            match r {
                Ok(()) => spec_interp(
                    Self::func_args(f),
                    Self::func_instrs(f),
                    Self::func_ends(f),
                    slices_v(old(args)@),
                ) == Some(slices_v(final(args)@)),
                Err(e) => e == Error::DeviceError,
            },
    ;

    /// The fast-path batched matrix multiply `dst = lhs * rhs`, bypassing
    /// code generation; `bmnk` is `(batch, m, n, k)` and the layouts describe
    /// the operands. Element types and extents are validated, never coerced:
    /// an element-type disagreement is a `DTypeError`, any disagreement of
    /// lengths, extents or layouts a `ShapeError`. On success the destination
    /// holds the product defined by [`crate::matmul::mm_spec`].
    fn matmul(
        &self,
        dst: &mut Self::Slice,
        lhs: &Self::Slice,
        rhs: &Self::Slice,
        bmnk: (usize, usize, usize, usize),
        lhs_l: &Layout,
        rhs_l: &Layout,
    ) -> (r: Result<()>)
        ensures
            final(dst).spec_dtype() == old(dst).spec_dtype(),
            final(dst).spec_data().len() == old(dst).spec_data().len(),
            (lhs.spec_dtype() != old(dst).spec_dtype() || rhs.spec_dtype() != old(
                dst,
            ).spec_dtype()) ==> r == Err::<(), Error>(Error::DTypeError),
            (lhs.spec_dtype() == old(dst).spec_dtype() && rhs.spec_dtype() == old(
                dst,
            ).spec_dtype() && !mm_args_ok(
                old(dst).spec_data().len() as int,
                lhs.spec_data().len() as int,
                rhs.spec_data().len() as int,
                bmnk.0 as int,
                bmnk.1 as int,
                bmnk.2 as int,
                bmnk.3 as int,
                *lhs_l,
                *rhs_l,
            )) ==> r == Err::<(), Error>(Error::ShapeError),
            match r {
                Ok(()) => mm_args_ok(
                    old(dst).spec_data().len() as int,
                    lhs.spec_data().len() as int,
                    rhs.spec_data().len() as int,
                    bmnk.0 as int,
                    bmnk.1 as int,
                    bmnk.2 as int,
                    bmnk.3 as int,
                    *lhs_l,
                    *rhs_l,
                ) && final(dst).spec_data() == crate::matmul::mm_spec(
                    old(dst).spec_dtype(),
                    lhs.spec_data(),
                    rhs.spec_data(),
                    bmnk.0 as int,
                    bmnk.1 as int,
                    bmnk.2 as int,
                    bmnk.3 as int,
                ),
                Err(e) => e == Error::DTypeError || e == Error::ShapeError || e
                    == Error::DeviceError,
            },
    ;

    /// Whether this backend's execution model takes explicit grid/block
    /// launch parameters (GPUs) rather than one flat invocation (CPU).
    fn use_grid() -> bool;
}

/// Host data survives the round trip through device memory exactly: writing
/// a host vector with `copy_host_to_device` and reading it back with
/// `copy_device_to_host` (or `to_vec`) returns the original elements, for
/// every supported element type.
pub proof fn lemma_transfer_round_trip<DT: WithDType>(xs: Seq<DT>)
    ensures
        xs.map_values(|x: DT| x.spec_to_bits()).map_values(|b: u64| DT::spec_from_bits(b)) == xs,
{
    let enc = xs.map_values(|x: DT| x.spec_to_bits());
    let dec = enc.map_values(|b: u64| DT::spec_from_bits(b));
    assert forall|i: int| 0 <= i < xs.len() implies dec[i] == xs[i] by {
        xs[i].lemma_bits_round_trip();
    }
    assert(dec =~= xs);
}

/// Interpreting a kernel's IR and executing it through any conforming
/// backend's compiled object agree bit for bit: both outcomes are the one
/// result of the interpreter's specification, so two successful executions
/// of the same kernel on the same inputs cannot disagree.
pub proof fn lemma_backend_matches_interpreter(
    args: Seq<ArgDef>,
    instrs: Seq<Instr>,
    ends: Seq<usize>,
    bufs: Seq<BufV>,
    r1: Seq<BufV>,
    r2: Seq<BufV>,
)
    requires
        spec_interp(args, instrs, ends, bufs) == Some(r1),
        spec_interp(args, instrs, ends, bufs) == Some(r2),
    ensures
        r1 == r2,
{
}

} // verus!
