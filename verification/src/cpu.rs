//! The CPU backend: host memory as slices, the reference interpreter as the
//! execution engine, and the verified host matrix multiply as the fast path.

use vstd::prelude::*;
use crate::dtype::DType;
use crate::error::{Error, Result};
use crate::interpreter::{interpret, Buf};
use crate::lang::Kernel;
use crate::layout::Layout;
use crate::matmul::matmul_host;
use crate::scalar::WithDType;
use crate::{slices_v, Device, Slice};

verus! {

/// The CPU device: execution is the reference interpreter, memory is host
/// memory.
#[derive(Clone, Copy, Debug)]
pub struct CpuDevice;

/// Host memory holding canonically encoded elements of one type.
#[derive(Clone, Debug)]
pub struct CpuSlice {
    device: CpuDevice,
    buf: Buf,
}

/// A compiled kernel for the CPU: the validated kernel itself, ready for the
/// interpreter.
#[derive(Debug)]
pub struct CpuFunc {
    kernel: Kernel,
    ends: Vec<usize>,
}

impl CpuFunc {
    #[verifier::type_invariant]
    spec fn type_wf(self) -> bool {
        self.kernel.valid_with(self.ends@)
    }
}

impl CpuSlice {
    /// A slice born directly from host data.
    pub fn from_data(dtype: DType, data: Vec<u64>) -> (r: CpuSlice)
        ensures
            r.spec_dtype() == dtype,
            r.spec_data() == data@,
    {
        CpuSlice { device: CpuDevice, buf: Buf { dtype, data } }
    }
}

impl Slice for CpuSlice {
    type Device = CpuDevice;

    closed spec fn spec_dtype(&self) -> DType {
        self.buf.dtype
    }

    closed spec fn spec_data(&self) -> Seq<u64> {
        self.buf.data@
    }

    fn device(&self) -> &CpuDevice {
        &self.device
    }

    fn dtype(&self) -> DType {
        self.buf.dtype
    }

    fn len(&self) -> usize {
        self.buf.data.len()
    }

    fn copy_host_to_device<DT: WithDType>(&mut self, src: &Vec<DT>) -> (r: Result<()>) {
        if DT::dtype() != self.buf.dtype {
            return Err(Error::DTypeMismatch { expected: self.buf.dtype, got: DT::dtype() });
        }
        if src.len() != self.buf.data.len() {
            return Err(
                Error::SizeMismatch { expected: self.buf.data.len(), got: src.len() },
            );
        }
        let n = src.len();
        let mut data: Vec<u64> = Vec::new();
        let mut i: usize = 0;
        while i < n
            invariant
                0 <= i <= n,
                n == src@.len(),
                data@.len() == i,
                forall|j: int| 0 <= j < i ==> data@[j] == src@[j].spec_to_bits(),
            decreases n - i,
        {
            data.push(src[i].to_bits());
            i = i + 1;
        }
        proof {
            assert(data@ =~= src@.map_values(|x: DT| x.spec_to_bits()));
        }
        self.buf.data = data;
        Ok(())
    }

    fn copy_device_to_host<DT: WithDType>(&self, dst: &mut Vec<DT>) -> (r: Result<()>) {
        if DT::dtype() != self.buf.dtype {
            return Err(Error::DTypeMismatch { expected: self.buf.dtype, got: DT::dtype() });
        }
        if dst.len() != self.buf.data.len() {
            return Err(
                Error::SizeMismatch { expected: self.buf.data.len(), got: dst.len() },
            );
        }
        let n = self.buf.data.len();
        let mut i: usize = 0;
        while i < n
            invariant
                0 <= i <= n,
                n == self.buf.data@.len() == dst@.len(),
                forall|j: int| 0 <= j < i ==> dst@[j] == DT::spec_from_bits(self.buf.data@[j]),
                forall|j: int| i <= j < n ==> dst@[j] == old(dst)@[j],
            decreases n - i,
        {
            let v = DT::from_bits(self.buf.data[i]);
            dst.set(i, v);
            i = i + 1;
        }
        proof {
            assert(dst@ =~= self.spec_data().map_values(|b: u64| DT::spec_from_bits(b)));
        }
        Ok(())
    }
}

impl Device for CpuDevice {
    type Slice = CpuSlice;

    type Func = CpuFunc;

    closed spec fn func_args(f: &CpuFunc) -> Seq<crate::lang::ArgDef> {
        f.kernel.args@
    }

    closed spec fn func_instrs(f: &CpuFunc) -> Seq<crate::lang::Instr> {
        f.kernel.instrs@
    }

    closed spec fn func_ends(f: &CpuFunc) -> Seq<usize> {
        f.ends@
    }

    fn allocate_uninit(&self, dtype: DType, len: usize) -> (r: Result<CpuSlice>) {
        let mut data: Vec<u64> = Vec::new();
        let mut i: usize = 0;
        while i < len
            invariant
                0 <= i <= len,
                data@.len() == i,
            decreases len - i,
        {
            data.push(0);
            i = i + 1;
        }
        Ok(CpuSlice { device: CpuDevice, buf: Buf { dtype, data } })
    }

    fn synchronize(&self) -> (r: Result<()>) {
        Ok(())
    }

    fn compile(&self, kernel: &Kernel, name: Option<&str>) -> (r: Result<CpuFunc>) {
        match kernel.validate() {
            Ok(ends) => {
                let k2 = clone_kernel(kernel);
                Ok(CpuFunc { kernel: k2, ends })
            },
            Err(e) => Err(e),
        }
    }

    fn run(&self, f: &CpuFunc, args: &mut Vec<CpuSlice>) -> (r: Result<()>) {
        proof {
            use_type_invariant(f);
        }
        let n = args.len();
        // peel the slices down to interpreter buffers, preserving order
        let mut rev: Vec<Buf> = Vec::new();
        while args.len() > 0
            invariant
                args@.len() + rev@.len() == n,
                forall|i: int|
                    0 <= i < args@.len() ==> args@[i] == old(args)@[i],
                forall|i: int|
                    0 <= i < rev@.len() ==> rev@[i] == old(args)@[n - 1 - i].buf,
            decreases args@.len(),
        {
            let s = args.pop().unwrap();
            rev.push(s.buf);
        }
        let mut bufs: Vec<Buf> = Vec::new();
        while rev.len() > 0
            invariant
                rev@.len() + bufs@.len() == n,
                forall|i: int|
                    0 <= i < rev@.len() ==> rev@[i] == old(args)@[n - 1 - i].buf,
                forall|i: int| 0 <= i < bufs@.len() ==> bufs@[i] == old(args)@[i].buf,
            decreases rev@.len(),
        {
            let b = rev.pop().unwrap();
            bufs.push(b);
        }
        proof {
            assert(crate::interpreter::bufs_v(bufs@) =~~= slices_v(old(args)@));
        }
        let res = interpret(&f.kernel, &f.ends, &mut bufs);
        // wrap the buffers back up into slices, preserving order
        let ghost done_bufs = bufs@;
        let m = bufs.len();
        let mut rev2: Vec<Buf> = Vec::new();
        while bufs.len() > 0
            invariant
                bufs@.len() + rev2@.len() == m,
                m == done_bufs.len(),
                forall|i: int| 0 <= i < bufs@.len() ==> bufs@[i] == done_bufs[i],
                forall|i: int| 0 <= i < rev2@.len() ==> rev2@[i] == done_bufs[m - 1 - i],
            decreases bufs@.len(),
        {
            let b = bufs.pop().unwrap();
            rev2.push(b);
        }
        while rev2.len() > 0
            invariant
                rev2@.len() + args@.len() == m,
                m == done_bufs.len(),
                forall|i: int| 0 <= i < rev2@.len() ==> rev2@[i] == done_bufs[m - 1 - i],
                forall|i: int|
                    0 <= i < args@.len() ==> args@[i] == (CpuSlice {
                        device: CpuDevice,
                        buf: done_bufs[i],
                    }),
            decreases rev2@.len(),
        {
            let b = rev2.pop().unwrap();
            args.push(CpuSlice { device: CpuDevice, buf: b });
        }
        proof {
            assert(slices_v(args@) =~~= crate::interpreter::bufs_v(done_bufs));
            assert forall|i: int| 0 <= i < args@.len() implies #[trigger] args@[i].spec_dtype()
                == old(args)@[i].spec_dtype() && args@[i].spec_data().len() == old(
                args,
            )@[i].spec_data().len() by {
                assert(args@[i].buf == done_bufs[i]);
                assert(done_bufs[i].dtype == old(args)@[i].buf.dtype);
                assert(done_bufs[i].data@.len() == old(args)@[i].buf.data@.len());
            }
        }
        res
    }

    fn matmul(
        &self,
        dst: &mut CpuSlice,
        lhs: &CpuSlice,
        rhs: &CpuSlice,
        bmnk: (usize, usize, usize, usize),
        lhs_l: &Layout,
        rhs_l: &Layout,
    ) -> (r: Result<()>) {
        let (b, m, n, k) = bmnk;
        if lhs.buf.dtype != dst.buf.dtype || rhs.buf.dtype != dst.buf.dtype {
            return Err(Error::DTypeError);
        }
        let bm = match b.checked_mul(m) {
            Some(v) => v,
            None => {
                return Err(Error::ShapeError);
            },
        };
        let bmk = match bm.checked_mul(k) {
            Some(v) => v,
            None => {
                return Err(Error::ShapeError);
            },
        };
        let bk = match b.checked_mul(k) {
            Some(v) => v,
            None => {
                return Err(Error::ShapeError);
            },
        };
        let bkn = match bk.checked_mul(n) {
            Some(v) => v,
            None => {
                return Err(Error::ShapeError);
            },
        };
        let bmn = match bm.checked_mul(n) {
            Some(v) => v,
            None => {
                return Err(Error::ShapeError);
            },
        };
        if lhs.buf.data.len() != bmk || rhs.buf.data.len() != bkn || dst.buf.data.len() != bmn {
            return Err(Error::ShapeError);
        }
        if !lhs_l.check_contiguous() || !rhs_l.check_contiguous() {
            return Err(Error::ShapeError);
        }
        if lhs_l.num_elements() != bmk || rhs_l.num_elements() != bkn {
            return Err(Error::ShapeError);
        }
        let out = matmul_host(dst.buf.dtype, &lhs.buf.data, &rhs.buf.data, b, m, n, k);
        proof {
            assert(crate::matmul::mm_spec(
                dst.buf.dtype,
                lhs.buf.data@,
                rhs.buf.data@,
                b as int,
                m as int,
                n as int,
                k as int,
            ).len() == b * m * n);
        }
        dst.buf.data = out;
        Ok(())
    }

    fn use_grid() -> bool {
        false
    }
}

/// A field-for-field copy of a kernel.
pub fn clone_kernel(k: &Kernel) -> (r: Kernel)
    ensures
        r.args@ == k.args@,
        r.instrs@ == k.instrs@,
{
    let mut args: Vec<crate::lang::ArgDef> = Vec::new();
    let na = k.args.len();
    let mut i: usize = 0;
    while i < na
        invariant
            0 <= i <= na,
            na == k.args@.len(),
            args@.len() == i,
            forall|j: int| 0 <= j < i ==> args@[j] == k.args@[j],
        decreases na - i,
    {
        args.push(k.args[i]);
        i = i + 1;
    }
    let mut instrs: Vec<crate::lang::Instr> = Vec::new();
    let ni = k.instrs.len();
    let mut i: usize = 0;
    while i < ni
        invariant
            0 <= i <= ni,
            ni == k.instrs@.len(),
            instrs@.len() == i,
            forall|j: int| 0 <= j < i ==> instrs@[j] == k.instrs@[j],
        decreases ni - i,
    {
        instrs.push(k.instrs[i]);
        i = i + 1;
    }
    proof {
        assert(args@ =~= k.args@);
        assert(instrs@ =~= k.instrs@);
    }
    Kernel { args, instrs }
}

} // verus!
