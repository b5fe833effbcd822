//! The reference executor for the SSA IR.
//!
//! [`interpret`] runs a kernel directly against host-resident buffers,
//! materializing every loop iteration. Its behaviour is pinned, step for
//! step, to the specification evaluator [`eval_seq_s`]; backends promise to
//! agree with that evaluator, which makes the interpreter the oracle for
//! code-generator correctness.

use vstd::prelude::*;
use crate::dtype::DType;
use crate::error::{Error, Result};
use crate::lang::{ArgDef, Instr, Kernel, block_ok, operands_ok};
use crate::scalar::{eval_binary, spec_binary};

verus! {

/// A host-resident buffer of canonically encoded elements.
#[derive(Clone, Debug)]
pub struct Buf {
    pub dtype: DType,
    pub data: Vec<u64>,
}

/// The mathematical model of a buffer.
#[verifier::ext_equal]
pub struct BufV {
    pub dtype: DType,
    pub data: Seq<u64>,
}

impl View for Buf {
    type V = BufV;

    open spec fn view(&self) -> BufV {
        BufV { dtype: self.dtype, data: self.data@ }
    }
}

/// The models of a list of buffers.
pub open spec fn bufs_v(bs: Seq<Buf>) -> Seq<BufV> {
    bs.map_values(|b: Buf| b@)
}

/// Buffers agree with a kernel's argument signature: one buffer per
/// argument, with its element type and count.
pub open spec fn args_match(args: Seq<ArgDef>, bufs: Seq<BufV>) -> bool {
    &&& bufs.len() == args.len()
    &&& forall|i: int|
        0 <= i < args.len() ==> bufs[i].dtype == args[i].dtype && bufs[i].data.len()
            == args[i].len
}

/// One straight-line instruction at position `i`: the updated values and
/// buffers, or `None` on a fault (type mismatch or out-of-bounds access).
/// Loop brackets are walked structurally by [`eval_seq_s`], never stepped.
pub open spec fn step_instr(
    instrs: Seq<Instr>,
    i: int,
    values: Seq<u64>,
    bufs: Seq<BufV>,
) -> Option<(Seq<u64>, Seq<BufV>)> {
    match instrs[i] {
        Instr::Const { dtype, bits } => Some((values.update(i, bits), bufs)),
        Instr::Binary { op, dtype, lhs, rhs } => Some(
            (
                values.update(
                    i,
                    spec_binary(op, dtype, values[lhs as int], values[rhs as int]),
                ),
                bufs,
            ),
        ),
        Instr::Load { src, offset, dtype } => {
            let b = bufs[src as int];
            let o = values[offset as int];
            if b.dtype == dtype && o < b.data.len() {
                Some((values.update(i, b.data[o as int]), bufs))
            } else {
                None
            }
        },
        Instr::Store { dst, offset, value, dtype } => {
            let b = bufs[dst as int];
            let o = values[offset as int];
            if b.dtype == dtype && o < b.data.len() {
                Some(
                    (
                        values.update(i, 0u64),
                        bufs.update(
                            dst as int,
                            BufV { dtype: b.dtype, data: b.data.update(o as int, values[value as int]) },
                        ),
                    ),
                )
            } else {
                None
            }
        },
        Instr::DefineAcc { dtype, init } => Some((values.update(i, init), bufs)),
        Instr::Accumulate { op, dtype, acc, value } => Some(
            (
                values.update(
                    acc as int,
                    spec_binary(op, dtype, values[acc as int], values[value as int]),
                ),
                bufs,
            ),
        ),
        Instr::Range { .. } => None,
        Instr::EndRange { .. } => None,
    }
}

/// Evaluates the block `[lo, hi)`: straight-line instructions step, a
/// `Range` at `lo` runs [`eval_loop_s`] over its body and continues after
/// the matching `EndRange`.
pub open spec fn eval_seq_s(
    instrs: Seq<Instr>,
    ends: Seq<usize>,
    lo: int,
    hi: int,
    values: Seq<u64>,
    bufs: Seq<BufV>,
) -> Option<(Seq<u64>, Seq<BufV>)>
    decreases hi - lo, 0nat,
{
    if lo >= hi {
        Some((values, bufs))
    } else {
        match instrs[lo] {
            Instr::Range { end } => {
                let q = ends[lo] as int;
                if lo < q < hi {
                    match eval_loop_s(instrs, ends, lo, q, end as nat, 0, values, bufs) {
                        Some((v2, b2)) => eval_seq_s(instrs, ends, q + 1, hi, v2, b2),
                        None => None,
                    }
                } else {
                    None
                }
            },
            Instr::EndRange { .. } => None,
            _ => match step_instr(instrs, lo, values, bufs) {
                Some((v2, b2)) => eval_seq_s(instrs, ends, lo + 1, hi, v2, b2),
                None => None,
            },
        }
    }
}

/// Runs the body `(ri, q)` of the loop opened at `ri` for the iterations
/// `t, t+1, ..., end-1`, the counter value stored at position `ri`.
pub open spec fn eval_loop_s(
    instrs: Seq<Instr>,
    ends: Seq<usize>,
    ri: int,
    q: int,
    end: nat,
    t: nat,
    values: Seq<u64>,
    bufs: Seq<BufV>,
) -> Option<(Seq<u64>, Seq<BufV>)>
    decreases q - ri, end - t when ri < q
{
    if t >= end {
        Some((values, bufs))
    } else {
        match eval_seq_s(instrs, ends, ri + 1, q, values.update(ri, t as u64), bufs) {
            Some((v2, b2)) => eval_loop_s(instrs, ends, ri, q, end, t + 1, v2, b2),
            None => None,
        }
    }
}

/// The result of running a valid kernel on buffers: the final buffer
/// contents, or `None` on an argument mismatch or an execution fault.
pub open spec fn spec_interp(
    args: Seq<ArgDef>,
    instrs: Seq<Instr>,
    ends: Seq<usize>,
    bufs: Seq<BufV>,
) -> Option<Seq<BufV>> {
    if args_match(args, bufs) {
        match eval_seq_s(
            instrs,
            ends,
            0,
            instrs.len() as int,
            Seq::new(instrs.len(), |i: int| 0u64),
            bufs,
        ) {
            Some((v, b)) => Some(b),
            None => None,
        }
    } else {
        None
    }
}

/// Instructions that write only to the kernel's output argument.
pub open spec fn writes_only_output(instrs: Seq<Instr>) -> bool {
    forall|i: int|
        0 <= i < instrs.len() ==> ((#[trigger] instrs[i]) matches Instr::Store { dst, .. }
            ==> dst == 0)
}

/// A kernel that writes only its output leaves every other buffer exactly
/// as it was, whatever block is evaluated.
pub proof fn lemma_eval_seq_preserves_inputs(
    instrs: Seq<Instr>,
    ends: Seq<usize>,
    lo: int,
    hi: int,
    values: Seq<u64>,
    bufs: Seq<BufV>,
)
    requires
        writes_only_output(instrs),
        0 <= lo,
        hi <= instrs.len(),
    ensures
        match eval_seq_s(instrs, ends, lo, hi, values, bufs) {
            Some((v2, b2)) => (bufs.len() > 0 ==> b2.len() == bufs.len()) && forall|j: int|
                1 <= j < bufs.len() ==> b2[j] == bufs[j],
            None => true,
        },
    decreases hi - lo, 0nat,
{
    if lo < hi {
        match instrs[lo] {
            Instr::Range { end } => {
                let q = ends[lo] as int;
                if lo < q < hi {
                    lemma_eval_loop_preserves_inputs(instrs, ends, lo, q, end as nat, 0, values, bufs);
                    match eval_loop_s(instrs, ends, lo, q, end as nat, 0, values, bufs) {
                        Some((v2, b2)) => {
                            lemma_eval_seq_preserves_inputs(instrs, ends, q + 1, hi, v2, b2);
                        },
                        None => {},
                    }
                }
            },
            Instr::EndRange { .. } => {},
            _ => {
                assert((instrs[lo] matches Instr::Store { dst, .. } ==> dst == 0));
                match step_instr(instrs, lo, values, bufs) {
                    Some((v2, b2)) => {
                        match instrs[lo] {
                            Instr::Store { dst, offset, value, dtype } => {
                                assert(dst == 0);
                                assert(b2 == bufs.update(
                                    0,
                                    BufV {
                                        dtype: bufs[0].dtype,
                                        data: bufs[0].data.update(
                                            values[offset as int] as int,
                                            values[value as int],
                                        ),
                                    },
                                ));
                                assert(bufs.len() > 0 ==> b2.len() == bufs.len());
                                assert(forall|j: int|
                                    1 <= j < bufs.len() ==> b2[j] == bufs[j]);
                            },
                            _ => {
                                assert(b2 == bufs);
                                assert(forall|j: int|
                                    1 <= j < bufs.len() ==> b2[j] == bufs[j]);
                            },
                        }
                        lemma_eval_seq_preserves_inputs(instrs, ends, lo + 1, hi, v2, b2);
                    },
                    None => {},
                }
            },
        }
    }
}

/// The loop form of [`lemma_eval_seq_preserves_inputs`].
proof fn lemma_eval_loop_preserves_inputs(
    instrs: Seq<Instr>,
    ends: Seq<usize>,
    ri: int,
    q: int,
    end: nat,
    t: nat,
    values: Seq<u64>,
    bufs: Seq<BufV>,
)
    requires
        writes_only_output(instrs),
        0 <= ri < q,
        q <= instrs.len(),
    ensures
        match eval_loop_s(instrs, ends, ri, q, end, t, values, bufs) {
            Some((v2, b2)) => (bufs.len() > 0 ==> b2.len() == bufs.len()) && forall|j: int|
                1 <= j < bufs.len() ==> b2[j] == bufs[j],
            None => true,
        },
    decreases q - ri, end - t,
{
    if t < end {
        lemma_eval_seq_preserves_inputs(
            instrs,
            ends,
            ri + 1,
            q,
            values.update(ri, t as u64),
            bufs,
        );
        match eval_seq_s(instrs, ends, ri + 1, q, values.update(ri, t as u64), bufs) {
            Some((v2, b2)) => {
                lemma_eval_loop_preserves_inputs(instrs, ends, ri, q, end, t + 1, v2, b2);
            },
            None => {},
        }
    }
}

/// The whole-kernel corollary: a successful run of an output-only kernel
/// returns every buffer but the first unchanged.
pub proof fn lemma_interp_preserves_inputs(
    args: Seq<ArgDef>,
    instrs: Seq<Instr>,
    ends: Seq<usize>,
    bufs: Seq<BufV>,
    out: Seq<BufV>,
)
    requires
        writes_only_output(instrs),
        spec_interp(args, instrs, ends, bufs) == Some(out),
    ensures
        bufs.len() > 0 ==> out.len() == bufs.len(),
        forall|j: int| 1 <= j < bufs.len() ==> out[j] == bufs[j],
{
    lemma_eval_seq_preserves_inputs(
        instrs,
        ends,
        0,
        instrs.len() as int,
        Seq::new(instrs.len(), |i: int| 0u64),
        bufs,
    );
}

/// Executes the block `[lo, hi)` against `values` and `bufs`, returning
/// whether execution completed without a fault. The outcome is exactly that
/// of the specification evaluator on the entry state.
fn eval_seq(
    k: &Kernel,
    ends: &Vec<usize>,
    lo: usize,
    hi: usize,
    values: &mut Vec<u64>,
    bufs: &mut Vec<Buf>,
) -> (r: bool)
    requires
        operands_ok(k.instrs@, k.args@.len() as int),
        ends@.len() == k.instrs@.len(),
        hi <= k.instrs@.len(),
        lo <= hi,
        block_ok(k.instrs@, ends@, lo as int, hi as int),
        old(values)@.len() == k.instrs@.len(),
        args_match(k.args@, bufs_v(old(bufs)@)),
    ensures
        final(values)@.len() == k.instrs@.len(),
        args_match(k.args@, bufs_v(final(bufs)@)),
        r ==> eval_seq_s(
            k.instrs@,
            ends@,
            lo as int,
            hi as int,
            old(values)@,
            bufs_v(old(bufs)@),
        ) == Some((final(values)@, bufs_v(final(bufs)@))),
        !r ==> eval_seq_s(
            k.instrs@,
            ends@,
            lo as int,
            hi as int,
            old(values)@,
            bufs_v(old(bufs)@),
        ) is None,
    decreases hi - lo,
{
    if lo >= hi {
        return true;
    }
    proof {
        assert(crate::lang::instr_operands_ok(k.instrs@, k.args@.len() as int, lo as int));
    }
    match k.instrs[lo] {
        Instr::Range { end } => {
            let q = ends[lo];
            let mut t: usize = 0;
            while t < end
                invariant
                    operands_ok(k.instrs@, k.args@.len() as int),
                    ends@.len() == k.instrs@.len(),
                    hi <= k.instrs@.len(),
                    lo < hi,
                    k.instrs@[lo as int] == (Instr::Range { end }),
                    q == ends@[lo as int],
                    lo < q < hi,
                    block_ok(k.instrs@, ends@, lo as int + 1, q as int),
                    0 <= t <= end,
                    values@.len() == k.instrs@.len(),
                    args_match(k.args@, bufs_v(bufs@)),
                    eval_loop_s(
                        k.instrs@,
                        ends@,
                        lo as int,
                        q as int,
                        end as nat,
                        t as nat,
                        values@,
                        bufs_v(bufs@),
                    ) == eval_loop_s(
                        k.instrs@,
                        ends@,
                        lo as int,
                        q as int,
                        end as nat,
                        0,
                        old(values)@,
                        bufs_v(old(bufs)@),
                    ),
                decreases end - t,
            {
                let ghost it_values = values@;
                let ghost it_bufs = bufs_v(bufs@);
                values.set(lo, t as u64);
                proof {
                    assert(values@ == it_values.update(lo as int, t as u64));
                }
                let ok = eval_seq(k, ends, lo + 1, q, values, bufs);
                if !ok {
                    proof {
                        assert(eval_seq_s(
                            k.instrs@,
                            ends@,
                            lo as int + 1,
                            q as int,
                            it_values.update(lo as int, t as u64),
                            it_bufs,
                        ) is None);
                        assert(eval_loop_s(
                            k.instrs@,
                            ends@,
                            lo as int,
                            q as int,
                            end as nat,
                            t as nat,
                            it_values,
                            it_bufs,
                        ) is None);
                        assert(eval_loop_s(
                            k.instrs@,
                            ends@,
                            lo as int,
                            q as int,
                            end as nat,
                            0,
                            old(values)@,
                            bufs_v(old(bufs)@),
                        ) is None);
                        assert(eval_seq_s(
                            k.instrs@,
                            ends@,
                            lo as int,
                            hi as int,
                            old(values)@,
                            bufs_v(old(bufs)@),
                        ) is None);
                    }
                    return false;
                }
                proof {
                    assert(eval_loop_s(
                        k.instrs@,
                        ends@,
                        lo as int,
                        q as int,
                        end as nat,
                        t as nat,
                        it_values,
                        it_bufs,
                    ) == eval_loop_s(
                        k.instrs@,
                        ends@,
                        lo as int,
                        q as int,
                        end as nat,
                        (t + 1) as nat,
                        values@,
                        bufs_v(bufs@),
                    ));
                }
                t = t + 1;
            }
            proof {
                assert(eval_loop_s(
                    k.instrs@,
                    ends@,
                    lo as int,
                    q as int,
                    end as nat,
                    end as nat,
                    values@,
                    bufs_v(bufs@),
                ) == Some((values@, bufs_v(bufs@))));
            }
            let ghost mid_values = values@;
            let ghost mid_bufs = bufs_v(bufs@);
            let r2 = eval_seq(k, ends, q + 1, hi, values, bufs);
            proof {
                if r2 {
                    assert(eval_seq_s(
                        k.instrs@,
                        ends@,
                        lo as int,
                        hi as int,
                        old(values)@,
                        bufs_v(old(bufs)@),
                    ) == Some((final(values)@, bufs_v(final(bufs)@))));
                }
            }
            r2
        },
        Instr::EndRange { .. } => {
            // a well-bracketed block never starts with a close; the
            // specification evaluator faults here too
            false
        },
        Instr::Const { dtype, bits } => {
            values.set(lo, bits);
            eval_seq(k, ends, lo + 1, hi, values, bufs)
        },
        Instr::Binary { op, dtype, lhs, rhs } => {
            let a = values[lhs];
            let b = values[rhs];
            let v = eval_binary(op, dtype, a, b);
            values.set(lo, v);
            eval_seq(k, ends, lo + 1, hi, values, bufs)
        },
        Instr::Load { src, offset, dtype } => {
            let o = values[offset];
            let bdt = bufs[src].dtype;
            if bdt != dtype {
                return false;
            }
            let blen = bufs[src].data.len();
            if o >= blen as u64 {
                return false;
            }
            let v = bufs[src].data[o as usize];
            values.set(lo, v);
            eval_seq(k, ends, lo + 1, hi, values, bufs)
        },
        Instr::Store { dst, offset, value, dtype } => {
            let o = values[offset];
            let bdt = bufs[dst].dtype;
            if bdt != dtype {
                return false;
            }
            let blen = bufs[dst].data.len();
            if o >= blen as u64 {
                return false;
            }
            let v = values[value];
            bufs[dst].data.set(o as usize, v);
            values.set(lo, 0);
            proof {
                assert(bufs_v(bufs@) =~~= bufs_v(old(bufs)@).update(
                    dst as int,
                    BufV {
                        dtype: bufs_v(old(bufs)@)[dst as int].dtype,
                        data: bufs_v(old(bufs)@)[dst as int].data.update(o as int, v),
                    },
                ));
            }
            eval_seq(k, ends, lo + 1, hi, values, bufs)
        },
        Instr::DefineAcc { dtype, init } => {
            values.set(lo, init);
            eval_seq(k, ends, lo + 1, hi, values, bufs)
        },
        Instr::Accumulate { op, dtype, acc, value } => {
            let a = values[acc];
            let b = values[value];
            let v = eval_binary(op, dtype, a, b);
            values.set(acc, v);
            eval_seq(k, ends, lo + 1, hi, values, bufs)
        },
    }
}

/// Runs a validated kernel against the given buffers. Faults — an argument
/// list that does not match the kernel's signature, a load or store out of
/// bounds, an element-type mismatch — are `DeviceError`; on success the
/// buffers hold exactly what the specification evaluator says.
pub fn interpret(k: &Kernel, ends: &Vec<usize>, bufs: &mut Vec<Buf>) -> (r: Result<()>)
    requires
        k.valid_with(ends@),
    ensures
        final(bufs)@.len() == old(bufs)@.len(),
        forall|i: int|
            0 <= i < old(bufs)@.len() ==> #[trigger] final(bufs)@[i].dtype == old(bufs)@[i].dtype
                && final(bufs)@[i].data@.len() == old(bufs)@[i].data@.len(),
        match r {
            Ok(()) => spec_interp(k.args@, k.instrs@, ends@, bufs_v(old(bufs)@)) == Some(
                bufs_v(final(bufs)@),
            ),
            Err(e) => e == Error::DeviceError && spec_interp(
                k.args@,
                k.instrs@,
                ends@,
                bufs_v(old(bufs)@),
            ) is None,
        },
{
    let n_args = k.args.len();
    if bufs.len() != n_args {
        return Err(Error::DeviceError);
    }
    let mut i: usize = 0;
    while i < n_args
        invariant
            0 <= i <= n_args,
            n_args == k.args@.len() == bufs@.len(),
            forall|j: int|
                0 <= j < i ==> bufs_v(bufs@)[j].dtype == k.args@[j].dtype && bufs_v(
                    bufs@,
                )[j].data.len() == k.args@[j].len,
        decreases n_args - i,
    {
        if bufs[i].dtype != k.args[i].dtype {
            return Err(Error::DeviceError);
        }
        if bufs[i].data.len() != k.args[i].len {
            return Err(Error::DeviceError);
        }
        i = i + 1;
    }
    let n = k.instrs.len();
    let mut values: Vec<u64> = Vec::new();
    let mut j: usize = 0;
    while j < n
        invariant
            0 <= j <= n,
            values@.len() == j,
            forall|m: int| 0 <= m < j ==> values@[m] == 0u64,
        decreases n - j,
    {
        values.push(0);
        j = j + 1;
    }
    proof {
        assert(values@ =~= Seq::new(k.instrs@.len(), |i: int| 0u64));
        assert(args_match(k.args@, bufs_v(bufs@)));
    }
    let ok = eval_seq(k, ends, 0, n, &mut values, bufs);
    proof {
        assert forall|i: int| 0 <= i < old(bufs)@.len() implies #[trigger] bufs@[i].dtype == old(
            bufs,
        )@[i].dtype && bufs@[i].data@.len() == old(bufs)@[i].data@.len() by {
            assert(bufs_v(bufs@)[i] == bufs@[i]@);
            assert(bufs_v(old(bufs)@)[i] == old(bufs)@[i]@);
            assert(bufs_v(bufs@)[i].dtype == k.args@[i].dtype);
            assert(bufs_v(old(bufs)@)[i].dtype == k.args@[i].dtype);
        }
    }
    if ok {
        Ok(())
    } else {
        Err(Error::DeviceError)
    }
}

} // verus!
