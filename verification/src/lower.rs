//! Lowering: one scheduled kernel into the SSA IR.
//!
//! An elementwise item becomes a single loop over the output's elements; a
//! reduction becomes a loop nest over the source shape with one explicit
//! accumulator whose identity is the all-zero encoding; a matrix product
//! becomes the classic three-loop nest with one accumulator. Index
//! arithmetic is emitted as 64-bit integer instructions over the row-major
//! strides. A malformed item (an expression that under- or over-fills its
//! stack, an unknown input, an overflowing extent) is a `LoweringError`.

use vstd::prelude::*;
use crate::dtype::DType;
use crate::interpreter::writes_only_output;
use crate::error::{Error, Result};
use crate::lang::{ArgDef, Instr, Kernel};
use crate::layout::{prod, Layout, Shape};
use crate::scalar::BinaryOp;
use crate::graph::ReduceOp;
use crate::layout::contig_strides;
use crate::scalar::spec_sum_identity;
use crate::schedule::{EOp, ItemKind, ItemKindV, ItemV, ScheduleItem};

verus! {

/// How many accumulator cells a kernel opens.
pub open spec fn count_accs(instrs: Seq<Instr>) -> int
    decreases instrs.len(),
{
    if instrs.len() == 0 {
        0
    } else {
        count_accs(instrs.drop_last()) + if instrs.last() is DefineAcc {
            1int
        } else {
            0int
        }
    }
}

/// Net stack depth of a postfix expression after its first `i` steps: pushes
/// add one value, an application consumes two and produces one.
pub open spec fn depth_after(expr: Seq<EOp>, i: int) -> int
    decreases i,
{
    if i <= 0 {
        0
    } else {
        depth_after(expr, i - 1) + (match expr[i - 1] {
            EOp::Apply { .. } => -1,
            _ => 1,
        })
    }
}

/// A postfix expression is well formed over the given input list: every
/// application finds two operands on the stack, every input read names a
/// listed input, and exactly one value is left at the end.
pub open spec fn expr_ok(expr: Seq<EOp>, inputs: Seq<usize>) -> bool {
    &&& forall|i: int|
        0 <= i < expr.len() ==> (match #[trigger] expr[i] {
            EOp::Apply { .. } => depth_after(expr, i) >= 2,
            EOp::PushInput { node } => inputs.contains(node),
            EOp::PushConst { .. } => true,
        })
    &&& depth_after(expr, expr.len() as int) == 1
}

/// Exactly the items `lower` accepts: a well-formed output shape, and per
/// kind a well-formed expression or consistent reduction/matmul extents.
pub open spec fn item_lowerable(it: crate::schedule::ItemV) -> bool {
    &&& crate::layout::shape_wf(it.dst_dims)
    &&& match it.kind {
        ItemKindV::Elementwise { expr } => expr_ok(expr, it.inputs),
        ItemKindV::Reduce { rop, axis } => crate::layout::shape_wf(it.src_dims) && axis
            < it.src_dims.len() && it.inputs.len() == 1 && it.dst_dims.len() + 1
            == it.src_dims.len(),
        ItemKindV::Matmul { m, k, n } => m * k <= usize::MAX && k * n <= usize::MAX
            && it.inputs.len() == 2,
    }
}

/// The first position of `x` in `v` at or after `i`; the length when absent.
pub open spec fn first_index_from(v: Seq<usize>, x: usize, i: int) -> int
    decreases v.len() - i,
{
    if i < 0 || i >= v.len() {
        v.len() as int
    } else if v[i] == x {
        i
    } else {
        first_index_from(v, x, i + 1)
    }
}

/// The first position of `x` in `v`, or the length.
pub open spec fn first_index(v: Seq<usize>, x: usize) -> int {
    first_index_from(v, x, 0)
}

/// One elementwise emission step over (instructions so far, id stack): a
/// push materializes a constant or a load at the loop counter, an
/// application pops its two operands and emits the operation.
pub open spec fn ew_step(
    dtype: DType,
    inputs: Seq<usize>,
    e: EOp,
    st: (Seq<Instr>, Seq<usize>),
) -> (Seq<Instr>, Seq<usize>) {
    match e {
        EOp::PushConst { bits } => (
            st.0.push(Instr::Const { dtype, bits }),
            st.1.push(st.0.len() as usize),
        ),
        EOp::PushInput { node } => (
            st.0.push(
                Instr::Load {
                    src: (first_index(inputs, node) + 1) as usize,
                    offset: 0,
                    dtype,
                },
            ),
            st.1.push(st.0.len() as usize),
        ),
        EOp::Apply { op } => {
            if st.1.len() >= 2 {
                (
                    st.0.push(
                        Instr::Binary {
                            op,
                            dtype,
                            lhs: st.1[st.1.len() - 2],
                            rhs: st.1.last(),
                        },
                    ),
                    st.1.drop_last().drop_last().push(st.0.len() as usize),
                )
            } else {
                st
            }
        },
    }
}

/// The elementwise emission state after the first `i` expression steps,
/// starting from the opening loop over the output elements.
pub open spec fn ew_fold(
    dtype: DType,
    inputs: Seq<usize>,
    end: usize,
    expr: Seq<EOp>,
    i: int,
) -> (Seq<Instr>, Seq<usize>)
    decreases i,
{
    if i <= 0 {
        (seq![Instr::Range { end }], Seq::empty())
    } else {
        ew_step(dtype, inputs, expr[i - 1], ew_fold(dtype, inputs, end, expr, i - 1))
    }
}

/// How many kept (non-reduced) dimensions lie below `d`.
pub open spec fn kept(a: int, d: int) -> int {
    if d <= a {
        d
    } else {
        d - 1
    }
}

/// The opening `Range` nest of a reduction: one loop per kept dimension, in
/// dimension order.
pub open spec fn red_outer(src_dims: Seq<usize>, a: int, d: int) -> Seq<Instr>
    decreases d,
{
    if d <= 0 {
        Seq::empty()
    } else {
        let pre = red_outer(src_dims, a, d - 1);
        if d - 1 == a {
            pre
        } else {
            pre.push(Instr::Range { end: src_dims[d - 1] })
        }
    }
}

/// The value id of dimension `d`'s loop counter in a reduction kernel: the
/// inner loop for the reduced axis, its opening `Range` otherwise.
pub open spec fn red_counter(a: int, rank: int, d: int) -> usize {
    if d == a {
        rank as usize
    } else {
        kept(a, d) as usize
    }
}

/// The input-offset chain over the first `d` dimensions: per dimension a
/// stride constant, a multiply by its counter, and an add onto the running
/// offset, whose id is the second component.
pub open spec fn red_in_chain(
    src_dims: Seq<usize>,
    a: int,
    rank: int,
    d: int,
    base: (Seq<Instr>, usize),
) -> (Seq<Instr>, usize)
    decreases d,
{
    if d <= 0 {
        base
    } else {
        let st = red_in_chain(src_dims, a, rank, d - 1, base);
        let cid = st.0.len() as usize;
        let i1 = st.0.push(
            Instr::Const { dtype: DType::I64, bits: contig_strides(src_dims)[d - 1] as u64 },
        );
        let mid = i1.len() as usize;
        let i2 = i1.push(
            Instr::Binary {
                op: BinaryOp::Mul,
                dtype: DType::I64,
                lhs: red_counter(a, rank, d - 1),
                rhs: cid,
            },
        );
        let noff = i2.len() as usize;
        (
            i2.push(Instr::Binary { op: BinaryOp::Add, dtype: DType::I64, lhs: st.1, rhs: mid }),
            noff,
        )
    }
}

/// The output-offset chain over the kept dimensions.
pub open spec fn red_out_chain(
    dst_dims: Seq<usize>,
    a: int,
    d: int,
    base: (Seq<Instr>, usize),
) -> (Seq<Instr>, usize)
    decreases d,
{
    if d <= 0 {
        base
    } else {
        let st = red_out_chain(dst_dims, a, d - 1, base);
        if d - 1 == a {
            st
        } else {
            let cid = st.0.len() as usize;
            let i1 = st.0.push(
                Instr::Const {
                    dtype: DType::I64,
                    bits: contig_strides(dst_dims)[kept(a, d - 1)] as u64,
                },
            );
            let mid = i1.len() as usize;
            let i2 = i1.push(
                Instr::Binary {
                    op: BinaryOp::Mul,
                    dtype: DType::I64,
                    lhs: kept(a, d - 1) as usize,
                    rhs: cid,
                },
            );
            let noff = i2.len() as usize;
            (
                i2.push(
                    Instr::Binary { op: BinaryOp::Add, dtype: DType::I64, lhs: st.1, rhs: mid },
                ),
                noff,
            )
        }
    }
}

/// The closing `EndRange`s of the kept dimensions after `j` of them have
/// been closed, innermost first.
pub open spec fn red_close(a: int, rank: int, j: int, base: Seq<Instr>) -> Seq<Instr>
    decreases j,
{
    if j <= 0 {
        base
    } else {
        let pre = red_close(a, rank, j - 1, base);
        let dd = rank - j;
        if dd == a {
            pre
        } else {
            pre.push(Instr::EndRange { start: kept(a, dd) as usize })
        }
    }
}

/// The whole reduction kernel: the loop nest over the source shape, one
/// accumulator folded over the reduced axis, offsets from the row-major
/// strides.
pub open spec fn red_instrs(
    dtype: DType,
    rop: ReduceOp,
    src_dims: Seq<usize>,
    dst_dims: Seq<usize>,
    a: int,
) -> Seq<Instr> {
    let rank = src_dims.len() as int;
    let acc_id = kept(a, rank) as usize;
    let inner = (kept(a, rank) + 1) as usize;
    let i0 = red_outer(src_dims, a, rank);
    let i1 = i0.push(Instr::DefineAcc { dtype, init: spec_sum_identity(dtype) });
    let i2 = i1.push(Instr::Range { end: src_dims[a] });
    let off0 = i2.len() as usize;
    let i3 = i2.push(Instr::Const { dtype: DType::I64, bits: 0 });
    let st_in = red_in_chain(src_dims, a, rank, rank, (i3, off0));
    let lid = st_in.0.len() as usize;
    let i4 = st_in.0.push(Instr::Load { src: 1, offset: st_in.1, dtype });
    let fold_op = match rop {
        ReduceOp::Sum => BinaryOp::Add,
    };
    let i5 = i4.push(Instr::Accumulate { op: fold_op, dtype, acc: acc_id, value: lid });
    let i6 = i5.push(Instr::EndRange { start: inner });
    let off1 = i6.len() as usize;
    let i7 = i6.push(Instr::Const { dtype: DType::I64, bits: 0 });
    let st_out = red_out_chain(dst_dims, a, rank, (i7, off1));
    let i8 = st_out.0.push(Instr::Store { dst: 0, offset: st_out.1, value: acc_id, dtype });
    red_close(a, rank, rank, i8)
}

/// The matrix-product kernel: the classic three-loop nest with one
/// accumulator and offsets `i*k + l`, `l*n + j`, `i*n + j`.
pub open spec fn mm_instrs(dtype: DType, m: usize, n: usize, k: usize) -> Seq<Instr> {
    seq![
        Instr::Range { end: m },
        Instr::Range { end: n },
        Instr::DefineAcc { dtype, init: spec_sum_identity(dtype) },
        Instr::Range { end: k },
        Instr::Const { dtype: DType::I64, bits: k as u64 },
        Instr::Binary { op: BinaryOp::Mul, dtype: DType::I64, lhs: 0, rhs: 4 },
        Instr::Binary { op: BinaryOp::Add, dtype: DType::I64, lhs: 5, rhs: 3 },
        Instr::Const { dtype: DType::I64, bits: n as u64 },
        Instr::Binary { op: BinaryOp::Mul, dtype: DType::I64, lhs: 3, rhs: 7 },
        Instr::Binary { op: BinaryOp::Add, dtype: DType::I64, lhs: 8, rhs: 1 },
        Instr::Load { src: 1, offset: 6, dtype },
        Instr::Load { src: 2, offset: 9, dtype },
        Instr::Binary { op: BinaryOp::Mul, dtype, lhs: 10, rhs: 11 },
        Instr::Accumulate { op: BinaryOp::Add, dtype, acc: 2, value: 12 },
        Instr::EndRange { start: 3 },
        Instr::Const { dtype: DType::I64, bits: n as u64 },
        Instr::Binary { op: BinaryOp::Mul, dtype: DType::I64, lhs: 0, rhs: 15 },
        Instr::Binary { op: BinaryOp::Add, dtype: DType::I64, lhs: 16, rhs: 1 },
        Instr::Store { dst: 0, offset: 17, value: 2, dtype },
        Instr::EndRange { start: 1 },
        Instr::EndRange { start: 0 },
    ]
}

/// The argument signature `lower` emits for an item: the output first, then
/// its inputs.
pub open spec fn spec_lower_args(it: ItemV) -> Seq<ArgDef> {
    let numel = prod(it.dst_dims) as usize;
    match it.kind {
        ItemKindV::Elementwise { .. } => Seq::new(
            1 + it.inputs.len(),
            |t: int| ArgDef { dtype: it.dtype, len: numel },
        ),
        ItemKindV::Reduce { .. } => seq![
            ArgDef { dtype: it.dtype, len: numel },
            ArgDef { dtype: it.dtype, len: prod(it.src_dims) as usize },
        ],
        ItemKindV::Matmul { m, k, n } => seq![
            ArgDef { dtype: it.dtype, len: numel },
            ArgDef { dtype: it.dtype, len: (m * k) as usize },
            ArgDef { dtype: it.dtype, len: (k * n) as usize },
        ],
    }
}

/// The instruction list `lower` emits for an item.
pub open spec fn spec_lower_instrs(it: ItemV) -> Seq<Instr> {
    match it.kind {
        ItemKindV::Elementwise { expr } => {
            let st = ew_fold(it.dtype, it.inputs, prod(it.dst_dims) as usize, expr, expr.len() as int);
            st.0.push(
                Instr::Store { dst: 0, offset: 0, value: st.1.last(), dtype: it.dtype },
            ).push(Instr::EndRange { start: 0 })
        },
        ItemKindV::Reduce { rop, axis } => red_instrs(
            it.dtype,
            rop,
            it.src_dims,
            it.dst_dims,
            axis as int,
        ),
        ItemKindV::Matmul { m, k, n } => mm_instrs(it.dtype, m, n, k),
    }
}

/// Appends one instruction, returning its value id.
fn push_instr(instrs: &mut Vec<Instr>, x: Instr) -> (id: usize)
    ensures
        final(instrs)@ == old(instrs)@.push(x),
        id == old(instrs)@.len(),
        count_accs(final(instrs)@) == count_accs(old(instrs)@) + if x is DefineAcc {
            1int
        } else {
            0int
        },
{
    let id = instrs.len();
    instrs.push(x);
    proof {
        assert(instrs@.drop_last() =~= old(instrs)@);
        assert(instrs@.last() == x);
    }
    id
}

/// Finds the first occurrence of `x` in `v`.
fn index_of(v: &Vec<usize>, x: usize) -> (r: Option<usize>)
    ensures
        match r {
            Some(i) => i < v@.len() && v@[i as int] == x && i == first_index(v@, x),
            None => !v@.contains(x) && first_index(v@, x) == v@.len(),
        },
{
    let n = v.len();
    let mut i: usize = 0;
    while i < n
        invariant
            0 <= i <= n,
            n == v@.len(),
            forall|j: int| 0 <= j < i ==> v@[j] != x,
            first_index(v@, x) == first_index_from(v@, x, i as int),
        decreases n - i,
    {
        if v[i] == x {
            return Some(i);
        }
        i = i + 1;
    }
    None
}

/// Lowers one scheduled kernel to the SSA IR. By convention argument 0 of
/// the emitted kernel is the item's output, followed by its inputs in order.
/// An elementwise kernel opens no accumulator; a reduction or matrix product
/// opens exactly one — pointwise work and accumulator loops never mix.
/// Lowering succeeds exactly on the well-formed items ([`item_lowerable`]);
/// a malformed one — a stack-breaking expression, an unlisted input, an
/// inconsistent or overflowing extent — is the `LoweringError`.
#[verifier::loop_isolation(false)]
#[verifier::rlimit(100)]
pub fn lower(item: &ScheduleItem) -> (r: Result<Kernel>)
    ensures
        r is Ok <==> item_lowerable(item@),
        r matches Ok(k) ==> k.args@ == spec_lower_args(item@) && k.instrs@ == spec_lower_instrs(
            item@,
        ),
        match r {
            Ok(k) => {
                &&& k.args@.len() == 1 + item@.inputs.len()
                &&& forall|t: int| 0 <= t < k.args@.len() ==> (#[trigger] k.args@[t]).dtype == item@.dtype
                &&& k.args@[0].len == prod(item@.dst_dims)
                &&& match item@.kind {
                    ItemKindV::Elementwise { .. } => count_accs(k.instrs@) == 0 && forall|t: int|
                        1 <= t < k.args@.len() ==> (#[trigger] k.args@[t]).len == prod(
                            item@.dst_dims,
                        ),
                    ItemKindV::Reduce { .. } => count_accs(k.instrs@) == 1 && k.args@[1].len
                        == prod(item@.src_dims),
                    ItemKindV::Matmul { m, k: kk, n } => count_accs(k.instrs@) == 1
                        && k.args@.len() == 3 && k.args@[1].len == m * kk && k.args@[2].len == kk
                        * n,
                }
            },
            Err(e) => e == Error::LoweringError,
        },
{
    let dtype = item.dtype;
    let dst_shape = match Shape::new(crate::schedule::clone_dims(&item.dst_dims)) {
        Ok(s) => s,
        Err(_) => {
            return Err(Error::LoweringError);
        },
    };
    let dst_numel = dst_shape.num_elements();
    match &item.kind {
        ItemKind::Elementwise { expr } => {
            let mut args: Vec<ArgDef> = Vec::new();
            args.push(ArgDef { dtype, len: dst_numel });
            let n_in = item.inputs.len();
            let mut t: usize = 0;
            while t < n_in
                invariant
                    0 <= t <= n_in,
                    n_in == item.inputs@.len(),
                    args@.len() == 1 + t,
                    args@[0] == (ArgDef { dtype: item.dtype, len: dst_numel }),
                    forall|j: int|
                        1 <= j < args@.len() ==> args@[j] == (ArgDef {
                            dtype: item.dtype,
                            len: dst_numel,
                        }),
                    dtype == item.dtype,
                decreases n_in - t,
            {
                args.push(ArgDef { dtype, len: dst_numel });
                t = t + 1;
            }
            proof {
                assert(args@ =~= spec_lower_args(item@));
            }
            let mut instrs: Vec<Instr> = Vec::new();
            let range_id = push_instr(&mut instrs, Instr::Range { end: dst_numel });
            let mut stack: Vec<usize> = Vec::new();
            proof {
                assert(instrs@ =~= seq![Instr::Range { end: dst_numel }]);
                assert(stack@ =~= Seq::<usize>::empty());
            }
            let ne = expr.len();
            let mut e: usize = 0;
            while e < ne
                invariant
                    0 <= e <= ne,
                    count_accs(instrs@) == 0,
                    range_id == 0,
                    instrs@ == ew_fold(dtype, item.inputs@, dst_numel, expr@, e as int).0,
                    stack@ == ew_fold(dtype, item.inputs@, dst_numel, expr@, e as int).1,
                    stack@.len() == depth_after(expr@, e as int),
                    forall|i: int|
                        0 <= i < e ==> (match #[trigger] expr@[i] {
                            EOp::Apply { .. } => depth_after(expr@, i) >= 2,
                            EOp::PushInput { node } => item.inputs@.contains(node),
                            EOp::PushConst { .. } => true,
                        }),
                decreases ne - e,
            {
                proof {
                    assert(depth_after(expr@, e + 1) == depth_after(expr@, e as int) + (
                    match expr@[e as int] {
                        EOp::Apply { .. } => -1int,
                        _ => 1int,
                    }));
                    assert(ew_fold(dtype, item.inputs@, dst_numel, expr@, e + 1) == ew_step(
                        dtype,
                        item.inputs@,
                        expr@[e as int],
                        ew_fold(dtype, item.inputs@, dst_numel, expr@, e as int),
                    ));
                }
                match expr[e] {
                    EOp::PushConst { bits } => {
                        let id = push_instr(&mut instrs, Instr::Const { dtype, bits });
                        stack.push(id);
                    },
                    EOp::PushInput { node } => {
                        let slot = match index_of(&item.inputs, node) {
                            Some(s) => s,
                            None => {
                                proof {
                                    assert(!expr_ok(expr@, item.inputs@));
                                }
                                return Err(Error::LoweringError);
                            },
                        };
                        proof {
                            assert(item.inputs@.contains(node));
                        }
                        let id = push_instr(
                            &mut instrs,
                            Instr::Load { src: slot + 1, offset: range_id, dtype },
                        );
                        stack.push(id);
                    },
                    EOp::Apply { op } => {
                        if stack.len() < 2 {
                            proof {
                                assert(depth_after(expr@, e as int) < 2);
                                assert(!expr_ok(expr@, item.inputs@));
                            }
                            return Err(Error::LoweringError);
                        }
                        let rhs = stack.pop().unwrap();
                        let lhs = stack.pop().unwrap();
                        let id = push_instr(&mut instrs, Instr::Binary { op, dtype, lhs, rhs });
                        stack.push(id);
                    },
                }
                e = e + 1;
            }
            if stack.len() != 1 {
                proof {
                    assert(depth_after(expr@, expr@.len() as int) != 1);
                    assert(!expr_ok(expr@, item.inputs@));
                }
                return Err(Error::LoweringError);
            }
            let v = stack.pop().unwrap();
            push_instr(&mut instrs, Instr::Store { dst: 0, offset: range_id, value: v, dtype });
            push_instr(&mut instrs, Instr::EndRange { start: range_id });
            proof {
                assert(expr_ok(expr@, item.inputs@));
                assert(item_lowerable(item@));
                assert(instrs@ == spec_lower_instrs(item@));
            }
            Ok(Kernel { args, instrs })
        },
        ItemKind::Reduce { rop, axis } => {
            let src_shape = match Shape::new(crate::schedule::clone_dims(&item.src_dims)) {
                Ok(s) => s,
                Err(_) => {
                    return Err(Error::LoweringError);
                },
            };
            let rank = src_shape.rank();
            let axis = *axis;
            if axis >= rank {
                return Err(Error::LoweringError);
            }
            if item.inputs.len() != 1 {
                return Err(Error::LoweringError);
            }
            let src_numel = src_shape.num_elements();
            let in_layout = Layout::contiguous(src_shape);
            let out_layout = Layout::contiguous(dst_shape);
            if out_layout.strides.len() != rank - 1 {
                proof {
                    assert(item@.dst_dims.len() + 1 != item@.src_dims.len());
                }
                return Err(Error::LoweringError);
            }
            proof {
                assert(item_lowerable(item@));
            }
            let mut args: Vec<ArgDef> = Vec::new();
            args.push(ArgDef { dtype, len: dst_numel });
            args.push(ArgDef { dtype, len: src_numel });
            proof {
                assert(args@ =~= spec_lower_args(item@));
            }
            let mut instrs: Vec<Instr> = Vec::new();
            // outer loops over the kept dimensions, in dimension order
            let mut rid: Vec<usize> = Vec::new();
            proof {
                assert(instrs@ =~= red_outer(item.src_dims@, axis as int, 0));
            }
            let mut d: usize = 0;
            while d < rank
                invariant
                    0 <= d <= rank,
                    rid@.len() == d,
                    count_accs(instrs@) == 0,
                    instrs@ == red_outer(item.src_dims@, axis as int, d as int),
                    instrs@.len() == kept(axis as int, d as int),
                    forall|t: int|
                        0 <= t < d ==> rid@[t] == (if t == axis {
                            0usize
                        } else {
                            kept(axis as int, t) as usize
                        }),
                decreases rank - d,
            {
                proof {
                    assert(red_outer(item.src_dims@, axis as int, d + 1) == (if d == axis {
                        red_outer(item.src_dims@, axis as int, d as int)
                    } else {
                        red_outer(item.src_dims@, axis as int, d as int).push(
                            Instr::Range { end: item.src_dims@[d as int] },
                        )
                    }));
                }
                if d != axis {
                    let id = push_instr(
                        &mut instrs,
                        Instr::Range { end: in_layout.shape.dims[d] },
                    );
                    rid.push(id);
                } else {
                    rid.push(0);
                }
                d = d + 1;
            }
            let init = crate::scalar::sum_identity(dtype);
            let acc_id = push_instr(&mut instrs, Instr::DefineAcc { dtype, init });
            let inner_rid = push_instr(
                &mut instrs,
                Instr::Range { end: in_layout.shape.dims[axis] },
            );
            // input offset: sum of counter * stride over all dimensions
            let off0 = push_instr(&mut instrs, Instr::Const { dtype: DType::I64, bits: 0 });
            let mut off = off0;
            let ghost base_in = (instrs@, off0);
            let mut d: usize = 0;
            while d < rank
                invariant
                    0 <= d <= rank,
                    count_accs(instrs@) == 1,
                    instrs@ == red_in_chain(
                        item.src_dims@,
                        axis as int,
                        rank as int,
                        d as int,
                        base_in,
                    ).0,
                    off == red_in_chain(
                        item.src_dims@,
                        axis as int,
                        rank as int,
                        d as int,
                        base_in,
                    ).1,
                decreases rank - d,
            {
                let counter = if d == axis {
                    inner_rid
                } else {
                    rid[d]
                };
                proof {
                    assert(counter == red_counter(axis as int, rank as int, d as int));
                    assert(in_layout.strides@[d as int] == contig_strides(item.src_dims@)[d as int]);
                    assert(red_in_chain(
                        item.src_dims@,
                        axis as int,
                        rank as int,
                        d + 1,
                        base_in,
                    ) == red_in_chain(item.src_dims@, axis as int, rank as int, d + 1, base_in));
                }
                let cid = push_instr(
                    &mut instrs,
                    Instr::Const { dtype: DType::I64, bits: in_layout.strides[d] as u64 },
                );
                let mid = push_instr(
                    &mut instrs,
                    Instr::Binary { op: BinaryOp::Mul, dtype: DType::I64, lhs: counter, rhs: cid },
                );
                off = push_instr(
                    &mut instrs,
                    Instr::Binary { op: BinaryOp::Add, dtype: DType::I64, lhs: off, rhs: mid },
                );
                d = d + 1;
            }
            let lid = push_instr(&mut instrs, Instr::Load { src: 1, offset: off, dtype });
            let fold_op = match rop {
                crate::graph::ReduceOp::Sum => BinaryOp::Add,
            };
            push_instr(
                &mut instrs,
                Instr::Accumulate { op: fold_op, dtype, acc: acc_id, value: lid },
            );
            push_instr(&mut instrs, Instr::EndRange { start: inner_rid });
            // output offset: sum over the kept dimensions
            let off1 = push_instr(&mut instrs, Instr::Const { dtype: DType::I64, bits: 0 });
            let mut off2 = off1;
            let ghost base_out = (instrs@, off1);
            let mut d: usize = 0;
            while d < rank
                invariant
                    0 <= d <= rank,
                    count_accs(instrs@) == 1,
                    instrs@ == red_out_chain(item.dst_dims@, axis as int, d as int, base_out).0,
                    off2 == red_out_chain(item.dst_dims@, axis as int, d as int, base_out).1,
                decreases rank - d,
            {
                if d != axis {
                    let pos = if d < axis {
                        d
                    } else {
                        d - 1
                    };
                    proof {
                        assert(pos == kept(axis as int, d as int));
                        assert(rid@[d as int] == kept(axis as int, d as int) as usize);
                        assert(out_layout.strides@[pos as int] == contig_strides(
                            item.dst_dims@,
                        )[pos as int]);
                    }
                    let cid = push_instr(
                        &mut instrs,
                        Instr::Const { dtype: DType::I64, bits: out_layout.strides[pos] as u64 },
                    );
                    let mid = push_instr(
                        &mut instrs,
                        Instr::Binary {
                            op: BinaryOp::Mul,
                            dtype: DType::I64,
                            lhs: rid[d],
                            rhs: cid,
                        },
                    );
                    off2 = push_instr(
                        &mut instrs,
                        Instr::Binary { op: BinaryOp::Add, dtype: DType::I64, lhs: off2, rhs: mid },
                    );
                }
                d = d + 1;
            }
            push_instr(&mut instrs, Instr::Store { dst: 0, offset: off2, value: acc_id, dtype });
            // close the outer loops, innermost first
            let ghost base_close = instrs@;
            let mut j: usize = 0;
            while j < rank
                invariant
                    0 <= j <= rank,
                    count_accs(instrs@) == 1,
                    instrs@ == red_close(axis as int, rank as int, j as int, base_close),
                decreases rank - j,
            {
                let dd = rank - 1 - j;
                if dd != axis {
                    proof {
                        assert(rid@[dd as int] == kept(axis as int, dd as int) as usize);
                    }
                    push_instr(&mut instrs, Instr::EndRange { start: rid[dd] });
                }
                j = j + 1;
            }
            proof {
                assert(item_lowerable(item@));
                assert(instrs@ == spec_lower_instrs(item@));
            }
            Ok(Kernel { args, instrs })
        },
        ItemKind::Matmul { m, k, n } => {
            let m = *m;
            let k = *k;
            let n = *n;
            let mk = match m.checked_mul(k) {
                Some(v) => v,
                None => {
                    return Err(Error::LoweringError);
                },
            };
            let kn = match k.checked_mul(n) {
                Some(v) => v,
                None => {
                    return Err(Error::LoweringError);
                },
            };
            let mut args: Vec<ArgDef> = Vec::new();
            args.push(ArgDef { dtype, len: dst_numel });
            args.push(ArgDef { dtype, len: mk });
            args.push(ArgDef { dtype, len: kn });
            if item.inputs.len() != 2 {
                return Err(Error::LoweringError);
            }
            let mut instrs: Vec<Instr> = Vec::new();
            let ri = push_instr(&mut instrs, Instr::Range { end: m });
            let rj = push_instr(&mut instrs, Instr::Range { end: n });
            let init = crate::scalar::sum_identity(dtype);
            let acc_id = push_instr(&mut instrs, Instr::DefineAcc { dtype, init });
            let rl = push_instr(&mut instrs, Instr::Range { end: k });
            // lhs offset: i*k + l
            let ck = push_instr(&mut instrs, Instr::Const { dtype: DType::I64, bits: k as u64 });
            let ik = push_instr(
                &mut instrs,
                Instr::Binary { op: BinaryOp::Mul, dtype: DType::I64, lhs: ri, rhs: ck },
            );
            let loff = push_instr(
                &mut instrs,
                Instr::Binary { op: BinaryOp::Add, dtype: DType::I64, lhs: ik, rhs: rl },
            );
            // rhs offset: l*n + j
            let cn = push_instr(&mut instrs, Instr::Const { dtype: DType::I64, bits: n as u64 });
            let ln = push_instr(
                &mut instrs,
                Instr::Binary { op: BinaryOp::Mul, dtype: DType::I64, lhs: rl, rhs: cn },
            );
            let roff = push_instr(
                &mut instrs,
                Instr::Binary { op: BinaryOp::Add, dtype: DType::I64, lhs: ln, rhs: rj },
            );
            let la = push_instr(&mut instrs, Instr::Load { src: 1, offset: loff, dtype });
            let lb = push_instr(&mut instrs, Instr::Load { src: 2, offset: roff, dtype });
            let pr = push_instr(
                &mut instrs,
                Instr::Binary { op: BinaryOp::Mul, dtype, lhs: la, rhs: lb },
            );
            push_instr(&mut instrs, Instr::Accumulate { op: BinaryOp::Add, dtype, acc: acc_id, value: pr });
            push_instr(&mut instrs, Instr::EndRange { start: rl });
            // dst offset: i*n + j
            let cn2 = push_instr(&mut instrs, Instr::Const { dtype: DType::I64, bits: n as u64 });
            let in_ = push_instr(
                &mut instrs,
                Instr::Binary { op: BinaryOp::Mul, dtype: DType::I64, lhs: ri, rhs: cn2 },
            );
            let doff = push_instr(
                &mut instrs,
                Instr::Binary { op: BinaryOp::Add, dtype: DType::I64, lhs: in_, rhs: rj },
            );
            push_instr(&mut instrs, Instr::Store { dst: 0, offset: doff, value: acc_id, dtype });
            push_instr(&mut instrs, Instr::EndRange { start: rj });
            push_instr(&mut instrs, Instr::EndRange { start: ri });
            proof {
                assert(args@.len() == 3);
                assert(item_lowerable(item@));
                assert(args@ =~= spec_lower_args(item@));
                assert(instrs@ =~= mm_instrs(dtype, m, n, k));
            }
            Ok(Kernel { args, instrs })
        },
    }
}


/// Appending a non-writing (or output-writing) instruction keeps a kernel
/// output-only.
proof fn lemma_woo_push(s: Seq<Instr>, x: Instr)
    requires
        writes_only_output(s),
        x matches Instr::Store { dst, .. } ==> dst == 0,
    ensures
        writes_only_output(s.push(x)),
{
    assert forall|i: int|
        0 <= i < s.push(x).len() implies ((#[trigger] s.push(x)[i]) matches Instr::Store {
        dst,
        ..
    } ==> dst == 0) by {
        if i < s.len() {
            assert(s.push(x)[i] == s[i]);
        } else {
            assert(s.push(x)[i] == x);
        }
    }
}

proof fn lemma_ew_fold_woo(dtype: DType, inputs: Seq<usize>, end: usize, expr: Seq<EOp>, i: int)
    ensures
        writes_only_output(ew_fold(dtype, inputs, end, expr, i).0),
    decreases i,
{
    if i <= 0 {
        assert(writes_only_output(seq![Instr::Range { end }]));
    } else {
        lemma_ew_fold_woo(dtype, inputs, end, expr, i - 1);
        let st = ew_fold(dtype, inputs, end, expr, i - 1);
        match expr[i - 1] {
            EOp::PushConst { bits } => {
                lemma_woo_push(st.0, Instr::Const { dtype, bits });
            },
            EOp::PushInput { node } => {
                lemma_woo_push(
                    st.0,
                    Instr::Load {
                        src: (first_index(inputs, node) + 1) as usize,
                        offset: 0,
                        dtype,
                    },
                );
            },
            EOp::Apply { op } => {
                if st.1.len() >= 2 {
                    lemma_woo_push(
                        st.0,
                        Instr::Binary { op, dtype, lhs: st.1[st.1.len() - 2], rhs: st.1.last() },
                    );
                }
            },
        }
    }
}

proof fn lemma_red_outer_woo(src_dims: Seq<usize>, a: int, d: int)
    ensures
        writes_only_output(red_outer(src_dims, a, d)),
    decreases d,
{
    if d <= 0 {
        assert(writes_only_output(Seq::<Instr>::empty()));
    } else {
        lemma_red_outer_woo(src_dims, a, d - 1);
        if d - 1 != a {
            lemma_woo_push(red_outer(src_dims, a, d - 1), Instr::Range { end: src_dims[d - 1] });
        }
    }
}

proof fn lemma_red_in_chain_woo(
    src_dims: Seq<usize>,
    a: int,
    rank: int,
    d: int,
    base: (Seq<Instr>, usize),
)
    requires
        writes_only_output(base.0),
    ensures
        writes_only_output(red_in_chain(src_dims, a, rank, d, base).0),
    decreases d,
{
    if d > 0 {
        lemma_red_in_chain_woo(src_dims, a, rank, d - 1, base);
        let st = red_in_chain(src_dims, a, rank, d - 1, base);
        let cid = st.0.len() as usize;
        let i1 = st.0.push(
            Instr::Const { dtype: DType::I64, bits: contig_strides(src_dims)[d - 1] as u64 },
        );
        lemma_woo_push(
            st.0,
            Instr::Const { dtype: DType::I64, bits: contig_strides(src_dims)[d - 1] as u64 },
        );
        let mid = i1.len() as usize;
        lemma_woo_push(
            i1,
            Instr::Binary {
                op: BinaryOp::Mul,
                dtype: DType::I64,
                lhs: red_counter(a, rank, d - 1),
                rhs: cid,
            },
        );
        let i2 = i1.push(
            Instr::Binary {
                op: BinaryOp::Mul,
                dtype: DType::I64,
                lhs: red_counter(a, rank, d - 1),
                rhs: cid,
            },
        );
        lemma_woo_push(
            i2,
            Instr::Binary { op: BinaryOp::Add, dtype: DType::I64, lhs: st.1, rhs: mid },
        );
    }
}

proof fn lemma_red_out_chain_woo(dst_dims: Seq<usize>, a: int, d: int, base: (Seq<Instr>, usize))
    requires
        writes_only_output(base.0),
    ensures
        writes_only_output(red_out_chain(dst_dims, a, d, base).0),
    decreases d,
{
    if d > 0 {
        lemma_red_out_chain_woo(dst_dims, a, d - 1, base);
        let st = red_out_chain(dst_dims, a, d - 1, base);
        if d - 1 != a {
            let cid = st.0.len() as usize;
            let c = Instr::Const {
                dtype: DType::I64,
                bits: contig_strides(dst_dims)[kept(a, d - 1)] as u64,
            };
            lemma_woo_push(st.0, c);
            let i1 = st.0.push(c);
            let mid = i1.len() as usize;
            let mu = Instr::Binary {
                op: BinaryOp::Mul,
                dtype: DType::I64,
                lhs: kept(a, d - 1) as usize,
                rhs: cid,
            };
            lemma_woo_push(i1, mu);
            let i2 = i1.push(mu);
            lemma_woo_push(
                i2,
                Instr::Binary { op: BinaryOp::Add, dtype: DType::I64, lhs: st.1, rhs: mid },
            );
        }
    }
}

proof fn lemma_red_close_woo(a: int, rank: int, j: int, base: Seq<Instr>)
    requires
        writes_only_output(base),
    ensures
        writes_only_output(red_close(a, rank, j, base)),
    decreases j,
{
    if j > 0 {
        lemma_red_close_woo(a, rank, j - 1, base);
        let dd = rank - j;
        if dd != a {
            lemma_woo_push(
                red_close(a, rank, j - 1, base),
                Instr::EndRange { start: kept(a, dd) as usize },
            );
        }
    }
}

/// Every kernel `lower` emits writes only its output argument: input
/// buffers pass through a run untouched.
pub proof fn lemma_spec_lower_writes_only_output(it: ItemV)
    ensures
        writes_only_output(spec_lower_instrs(it)),
{
    match it.kind {
        ItemKindV::Elementwise { expr } => {
            let numel = prod(it.dst_dims) as usize;
            lemma_ew_fold_woo(it.dtype, it.inputs, numel, expr, expr.len() as int);
            let st = ew_fold(it.dtype, it.inputs, numel, expr, expr.len() as int);
            let store = Instr::Store { dst: 0, offset: 0, value: st.1.last(), dtype: it.dtype };
            lemma_woo_push(st.0, store);
            lemma_woo_push(st.0.push(store), Instr::EndRange { start: 0 });
        },
        ItemKindV::Reduce { rop, axis } => {
            let a = axis as int;
            let src_dims = it.src_dims;
            let dst_dims = it.dst_dims;
            let dtype = it.dtype;
            let rank = src_dims.len() as int;
            let acc_id = kept(a, rank) as usize;
            let inner = (kept(a, rank) + 1) as usize;
            lemma_red_outer_woo(src_dims, a, rank);
            let i0 = red_outer(src_dims, a, rank);
            let dacc = Instr::DefineAcc { dtype, init: spec_sum_identity(dtype) };
            lemma_woo_push(i0, dacc);
            let i1 = i0.push(dacc);
            let rng = Instr::Range { end: src_dims[a] };
            lemma_woo_push(i1, rng);
            let i2 = i1.push(rng);
            let off0 = i2.len() as usize;
            let c0 = Instr::Const { dtype: DType::I64, bits: 0 };
            lemma_woo_push(i2, c0);
            let i3 = i2.push(c0);
            lemma_red_in_chain_woo(src_dims, a, rank, rank, (i3, off0));
            let st_in = red_in_chain(src_dims, a, rank, rank, (i3, off0));
            let lid = st_in.0.len() as usize;
            let ld = Instr::Load { src: 1, offset: st_in.1, dtype };
            lemma_woo_push(st_in.0, ld);
            let i4 = st_in.0.push(ld);
            let fold_op = match rop {
                ReduceOp::Sum => BinaryOp::Add,
            };
            let ac = Instr::Accumulate { op: fold_op, dtype, acc: acc_id, value: lid };
            lemma_woo_push(i4, ac);
            let i5 = i4.push(ac);
            let er = Instr::EndRange { start: inner };
            lemma_woo_push(i5, er);
            let i6 = i5.push(er);
            let off1 = i6.len() as usize;
            lemma_woo_push(i6, c0);
            let i7 = i6.push(c0);
            lemma_red_out_chain_woo(dst_dims, a, rank, (i7, off1));
            let st_out = red_out_chain(dst_dims, a, rank, (i7, off1));
            let store = Instr::Store { dst: 0, offset: st_out.1, value: acc_id, dtype };
            lemma_woo_push(st_out.0, store);
            let i8 = st_out.0.push(store);
            lemma_red_close_woo(a, rank, rank, i8);
        },
        ItemKindV::Matmul { m, k, n } => {
            let ins = mm_instrs(it.dtype, m, n, k);
            assert forall|i: int|
                0 <= i < ins.len() implies ((#[trigger] ins[i]) matches Instr::Store { dst, .. }
                ==> dst == 0) by {}
        },
    }
}

} // verus!
