//! Batched matrix multiplication over canonically encoded elements: the
//! semantics every backend's fast path must implement, and a host
//! implementation of it.
//!
//! For output element `(bi, i, j)` the result is the left-to-right sum of
//! `lhs[bi, i, l] * rhs[bi, l, j]` for `l = 0, 1, ..., k-1`, starting from
//! the all-zero encoding. The summation order is part of the contract, since
//! floating-point addition does not reassociate.

use vstd::prelude::*;
use vstd::arithmetic::div_mod::lemma_fundamental_div_mod;
use crate::dtype::DType;
use crate::scalar::{eval_binary, spec_binary, BinaryOp};

verus! {

/// The accumulator after folding in the first `l` products for one output
/// element: `lhs[lbase + t] * rhs[rbase + t*n]` for `t < l`.
pub open spec fn mm_acc(
    dt: DType,
    lhs: Seq<u64>,
    rhs: Seq<u64>,
    lbase: int,
    rbase: int,
    n: int,
    l: nat,
) -> u64
    decreases l,
{
    if l == 0 {
        0u64
    } else {
        spec_binary(
            BinaryOp::Add,
            dt,
            mm_acc(dt, lhs, rhs, lbase, rbase, n, (l - 1) as nat),
            spec_binary(BinaryOp::Mul, dt, lhs[lbase + l - 1], rhs[rbase + (l - 1) * n]),
        )
    }
}

/// Output element `q` of the batched product, with `q` decomposed row-major
/// into batch, row and column.
pub open spec fn mm_elem(
    dt: DType,
    lhs: Seq<u64>,
    rhs: Seq<u64>,
    m: int,
    n: int,
    k: int,
    q: int,
) -> u64 {
    let bi = q / (m * n);
    let r = q % (m * n);
    let i = r / n;
    let j = r % n;
    mm_acc(dt, lhs, rhs, (bi * m + i) * k, bi * k * n + j, n, k as nat)
}

/// The whole batched product, flattened row-major.
pub open spec fn mm_spec(
    dt: DType,
    lhs: Seq<u64>,
    rhs: Seq<u64>,
    b: int,
    m: int,
    n: int,
    k: int,
) -> Seq<u64> {
    Seq::new((b * m * n) as nat, |q: int| mm_elem(dt, lhs, rhs, m, n, k, q))
}

/// Computes the batched product on host-encoded data.
pub fn matmul_host(
    dt: DType,
    lhs: &Vec<u64>,
    rhs: &Vec<u64>,
    b: usize,
    m: usize,
    n: usize,
    k: usize,
) -> (r: Vec<u64>)
    requires
        lhs@.len() == b * m * k,
        rhs@.len() == b * k * n,
        b * m <= usize::MAX,
        b * m * n <= usize::MAX,
    ensures
        r@ == mm_spec(dt, lhs@, rhs@, b as int, m as int, n as int, k as int),
{
    let mut out: Vec<u64> = Vec::new();
    if b == 0 || m == 0 || n == 0 {
        proof {
            assert(b * m * n == 0) by (nonlinear_arith)
                requires
                    b == 0 || m == 0 || n == 0,
            ;
            assert(out@ =~= mm_spec(dt, lhs@, rhs@, b as int, m as int, n as int, k as int));
        }
        return out;
    }
    proof {
        assert(b * m * n == (b * m) * n) by (nonlinear_arith);
        assert(m * n <= b * m * n && m * n >= 1) by (nonlinear_arith)
            requires
                b >= 1,
                m >= 1,
                n >= 1,
        ;
    }
    let llen = lhs.len();
    let rlen = rhs.len();
    let bm = b * m;
    let total = bm * n;
    let mn = m * n;
    let mut p: usize = 0;
    while p < total
        invariant
            total == b * m * n,
            mn == m * n,
            mn >= 1,
            b >= 1 && m >= 1 && n >= 1,
            lhs@.len() == b * m * k,
            rhs@.len() == b * k * n,
            b * m <= usize::MAX,
            b * m * k <= usize::MAX,
            b * k * n <= usize::MAX,
            0 <= p <= total,
            out@.len() == p,
            forall|q: int|
                0 <= q < p ==> out@[q] == mm_elem(dt, lhs@, rhs@, m as int, n as int, k as int, q),
        decreases total - p,
    {
        let bi = p / mn;
        let r0 = p % mn;
        let i = r0 / n;
        let j = r0 % n;
        proof {
            lemma_fundamental_div_mod(p as int, mn as int);
            lemma_fundamental_div_mod(r0 as int, n as int);
            assert(b * m * n == b * (m * n)) by (nonlinear_arith);
            assert(bi < b) by (nonlinear_arith)
                requires
                    p < b * (m * n),
                    p == (m * n) * bi + r0,
                    0 <= r0 < m * n,
                    m * n >= 1,
                    bi >= 0,
            ;
            assert(i < m) by (nonlinear_arith)
                requires
                    r0 < m * n,
                    r0 == n * i + j,
                    0 <= j < n,
                    n >= 1,
                    i >= 0,
            ;
            assert((bi * m + i) * k + k <= b * m * k) by (nonlinear_arith)
                requires
                    bi < b,
                    i < m,
                    bi >= 0,
                    i >= 0,
                    k >= 0,
                    m >= 1,
                    b >= 1,
            ;
            assert(bi * k * n + j + (k - 1) * n < b * k * n || k == 0) by (nonlinear_arith)
                requires
                    bi < b,
                    j < n,
                    bi >= 0,
                    j >= 0,
                    k >= 0,
                    n >= 1,
                    b >= 1,
            ;
            assert(bi * m + i <= b * m && bi * m >= 0) by (nonlinear_arith)
                requires
                    bi < b,
                    i < m,
                    bi >= 0,
                    i >= 0,
                    m >= 1,
            ;
            assert(bi * k * n <= b * k * n && bi * k <= b * k && b * k <= b * k * n && bi * k
                >= 0 && bi * k * n == (bi * k) * n) by (nonlinear_arith)
                requires
                    bi < b,
                    bi >= 0,
                    k >= 0,
                    n >= 1,
                    b >= 1,
            ;
            assert((bi * m + i) * k <= b * m * k) by (nonlinear_arith)
                requires
                    bi * m + i <= b * m,
                    bi * m + i >= 0,
                    k >= 0,
            ;
            assert(bi * k * n + j < b * k * n || (k == 0 && bi * k * n + j < n)) by (
                nonlinear_arith
            )
                requires
                    bi < b,
                    j < n,
                    bi >= 0,
                    j >= 0,
                    k >= 0,
                    n >= 1,
                    b >= 1,
            ;
        }
        let lbase = (bi * m + i) * k;
        let rbase = bi * k * n + j;
        let mut acc: u64 = 0;
        let mut l: usize = 0;
        while l < k
            invariant
                total == b * m * n,
                mn == m * n,
                b >= 1 && m >= 1 && n >= 1,
                lhs@.len() == b * m * k,
                rhs@.len() == b * k * n,
                bi < b,
                i < m,
                j < n,
                lbase == (bi * m + i) * k,
                rbase == bi * k * n + j,
                lbase + k <= b * m * k,
                rbase + (k - 1) * n < b * k * n || k == 0,
                b * m * k <= usize::MAX,
                b * k * n <= usize::MAX,
                0 <= l <= k,
                acc == mm_acc(
                    dt,
                    lhs@,
                    rhs@,
                    lbase as int,
                    rbase as int,
                    n as int,
                    l as nat,
                ),
            decreases k - l,
        {
            proof {
                assert(l * n <= (k - 1) * n) by (nonlinear_arith)
                    requires
                        l < k,
                        n >= 0,
                        l >= 0,
                ;
            }
            let a = lhs[lbase + l];
            let bb = rhs[rbase + l * n];
            let prod = eval_binary(BinaryOp::Mul, dt, a, bb);
            acc = eval_binary(BinaryOp::Add, dt, acc, prod);
            l = l + 1;
        }
        out.push(acc);
        proof {
            assert(out@[p as int] == mm_elem(
                dt,
                lhs@,
                rhs@,
                m as int,
                n as int,
                k as int,
                p as int,
            ));
        }
        p = p + 1;
    }
    proof {
        assert(out@ =~= mm_spec(dt, lhs@, rhs@, b as int, m as int, n as int, k as int));
    }
    out
}

} // verus!
