//! Logical shapes and physical memory layouts.
//!
//! A [`Shape`] is an ordered list of dimension sizes. A [`Layout`] adds
//! strides and a base offset and maps logical indices to flat memory offsets,
//! distinguishing contiguous from strided views without copying data.

use vstd::prelude::*;
use crate::error::{Error, Result};

verus! {

/// The product of a list of dimension sizes; the empty list has product 1.
pub open spec fn prod(dims: Seq<usize>) -> nat
    decreases dims.len(),
{
    if dims.len() == 0 {
        1
    } else {
        (dims[0] * prod(dims.skip(1))) as nat
    }
}

/// Row-major (C order) strides for `dims`: the stride of a dimension is the
/// product of all dimensions to its right.
pub open spec fn contig_strides(dims: Seq<usize>) -> Seq<usize>
    decreases dims.len(),
{
    if dims.len() == 0 {
        Seq::empty()
    } else {
        seq![prod(dims.skip(1)) as usize].add(contig_strides(dims.skip(1)))
    }
}

/// Dimension lists whose every suffix product fits in a `usize`, so element
/// counts and row-major strides never overflow.
pub open spec fn shape_wf(dims: Seq<usize>) -> bool {
    forall|i: int| 0 <= i <= dims.len() ==> prod(dims.skip(i)) <= usize::MAX
}

/// Pointwise characterization of `contig_strides`.
pub proof fn lemma_contig_strides(dims: Seq<usize>)
    requires
        forall|i: int| 0 <= i < dims.len() ==> prod(dims.skip(i)) <= usize::MAX,
    ensures
        contig_strides(dims).len() == dims.len(),
        forall|j: int|
            0 <= j < dims.len() ==> contig_strides(dims)[j] == prod(dims.skip(j + 1)),
    decreases dims.len(),
{
    if dims.len() > 0 {
        let tail = dims.skip(1);
        assert forall|i: int| 0 <= i < tail.len() implies prod(tail.skip(i)) <= usize::MAX by {
            assert(tail.skip(i) =~= dims.skip(i + 1));
        }
        lemma_contig_strides(tail);
        assert forall|j: int| 0 <= j < dims.len() implies contig_strides(dims)[j] == prod(
            dims.skip(j + 1),
        ) by {
            if j == 0 {
                assert(prod(dims.skip(1)) <= usize::MAX);
            } else {
                assert(contig_strides(dims)[j] == contig_strides(tail)[j - 1]);
                assert(tail.skip(j) =~= dims.skip(j + 1));
            }
        }
    }
}

/// The logical shape of a tensor.
///
/// Well-formed shapes have every suffix product of their dimensions fit in a
/// `usize`, so element counts and row-major strides never overflow.
#[derive(Clone, Debug)]
pub struct Shape {
    pub dims: Vec<usize>,
}

impl View for Shape {
    type V = Seq<usize>;

    open spec fn view(&self) -> Seq<usize> {
        self.dims@
    }
}

impl Shape {
    pub open spec fn wf(self) -> bool {
        shape_wf(self@)
    }

    pub open spec fn spec_numel(self) -> nat {
        prod(self@)
    }

    /// Builds a shape, rejecting dimension lists whose element count (or any
    /// suffix product of dimensions, which become strides) overflows `usize`.
    pub fn new(dims: Vec<usize>) -> (r: Result<Shape>)
        ensures
            match r {
                Ok(s) => s@ == dims@ && s.wf(),
                Err(e) => e == Error::ShapeError && !shape_wf(dims@),
            },
    {
        let n = dims.len();
        let mut acc: usize = 1;
        let mut i: usize = n;
        while i != 0
            invariant
                0 <= i <= n,
                n == dims@.len(),
                acc == prod(dims@.skip(i as int)),
                forall|j: int| i <= j <= n ==> prod(dims@.skip(j)) <= usize::MAX,
            decreases i,
        {
            let d = dims[i - 1];
            proof {
                assert(dims@.skip(i - 1).skip(1) =~= dims@.skip(i as int));
                assert(prod(dims@.skip(i - 1)) == d * prod(dims@.skip(i as int)));
            }
            match d.checked_mul(acc) {
                Some(next) => {
                    acc = next;
                    i = i - 1;
                },
                None => {
                    proof {
                        assert(prod(dims@.skip(i - 1)) > usize::MAX);
                        assert(!shape_wf(dims@));
                    }
                    return Err(Error::ShapeError);
                },
            }
        }
        proof {
            assert(shape_wf(dims@));
        }
        Ok(Shape { dims })
    }

    /// A copy of the shape.
    pub fn clone_shape(&self) -> (r: Shape)
        ensures
            r@ == self@,
    {
        let n = self.dims.len();
        let mut dims: Vec<usize> = Vec::new();
        let mut i: usize = 0;
        while i < n
            invariant
                0 <= i <= n,
                n == self@.len(),
                dims@.len() == i,
                forall|j: int| 0 <= j < i ==> dims@[j] == self@[j],
            decreases n - i,
        {
            dims.push(self.dims[i]);
            i = i + 1;
        }
        proof {
            assert(dims@ =~= self@);
        }
        Shape { dims }
    }

    /// Number of dimensions.
    pub fn rank(&self) -> (r: usize)
        ensures
            r == self@.len(),
    {
        self.dims.len()
    }

    /// Total number of elements.
    pub fn num_elements(&self) -> (r: usize)
        requires
            self.wf(),
        ensures
            r == self.spec_numel(),
    {
        let n = self.dims.len();
        let mut acc: usize = 1;
        let mut i: usize = n;
        while i != 0
            invariant
                0 <= i <= n,
                n == self@.len(),
                self.wf(),
                acc == prod(self@.skip(i as int)),
            decreases i,
        {
            let d = self.dims[i - 1];
            proof {
                assert(self@.skip(i - 1).skip(1) =~= self@.skip(i as int));
                assert(prod(self@.skip(i - 1)) == d * prod(self@.skip(i as int)));
                assert(prod(self@.skip(i - 1)) <= usize::MAX);
            }
            acc = d * acc;
            i = i - 1;
        }
        proof {
            assert(self@.skip(0) =~= self@);
        }
        acc
    }

    /// Whether this shape is well formed, checked without preconditions.
    pub fn check_wf(&self) -> (r: bool)
        ensures
            r == self.wf(),
    {
        let n = self.dims.len();
        let mut acc: usize = 1;
        let mut i: usize = n;
        while i != 0
            invariant
                0 <= i <= n,
                n == self@.len(),
                acc == prod(self@.skip(i as int)),
                forall|j: int| i <= j <= n ==> prod(self@.skip(j)) <= usize::MAX,
            decreases i,
        {
            let d = self.dims[i - 1];
            proof {
                assert(self@.skip(i - 1).skip(1) =~= self@.skip(i as int));
                assert(prod(self@.skip(i - 1)) == d * prod(self@.skip(i as int)));
            }
            match d.checked_mul(acc) {
                Some(next) => {
                    acc = next;
                    i = i - 1;
                },
                None => {
                    proof {
                        assert(prod(self@.skip(i - 1)) > usize::MAX);
                        assert(!shape_wf(self@));
                    }
                    return false;
                },
            }
        }
        proof {
            assert(shape_wf(self@));
        }
        true
    }

    /// Whether the two shapes list the same dimensions.
    pub fn same_dims(&self, other: &Shape) -> (r: bool)
        ensures
            r == (self@ == other@),
    {
        if self.dims.len() != other.dims.len() {
            proof {
                assert(self@ !~= other@);
            }
            return false;
        }
        let n = self.dims.len();
        let mut i: usize = 0;
        while i < n
            invariant
                0 <= i <= n,
                n == self@.len() == other@.len(),
                forall|j: int| 0 <= j < i ==> self@[j] == other@[j],
            decreases n - i,
        {
            if self.dims[i] != other.dims[i] {
                return false;
            }
            i = i + 1;
        }
        proof {
            assert(self@ =~= other@);
        }
        true
    }
}

/// A dimension index counted from the end of the shape.
#[derive(Clone, Copy, Debug, PartialEq, Eq, Structural)]
pub enum D {
    Minus1,
    Minus2,
}

/// Anything that can name a dimension of a shape: a plain index, or a
/// position counted from the end.
pub trait Dim {
    spec fn spec_index(&self, rank: nat) -> int;

    /// The dimension's position in a shape of `rank` dimensions, or
    /// `ShapeError` when the shape has no such dimension.
    fn to_index(&self, rank: usize) -> (r: Result<usize>)
        ensures
            match r {
                Ok(i) => i == self.spec_index(rank as nat) && i < rank,
                Err(e) => e == Error::ShapeError && !(0 <= self.spec_index(rank as nat)
                    < rank),
            },
    ;
}

impl Dim for usize {
    open spec fn spec_index(&self, rank: nat) -> int {
        *self as int
    }

    fn to_index(&self, rank: usize) -> Result<usize> {
        if *self < rank {
            Ok(*self)
        } else {
            Err(Error::ShapeError)
        }
    }
}

impl Dim for D {
    open spec fn spec_index(&self, rank: nat) -> int {
        match *self {
            D::Minus1 => rank - 1,
            D::Minus2 => rank - 2,
        }
    }

    fn to_index(&self, rank: usize) -> Result<usize> {
        match *self {
            D::Minus1 => {
                if rank >= 1 {
                    Ok(rank - 1)
                } else {
                    Err(Error::ShapeError)
                }
            },
            D::Minus2 => {
                if rank >= 2 {
                    Ok(rank - 2)
                } else {
                    Err(Error::ShapeError)
                }
            },
        }
    }
}

/// Sum of `idx[i] * strides[i]` over the positions both sequences share.
pub open spec fn dot(idx: Seq<usize>, strides: Seq<usize>) -> int
    decreases idx.len(),
{
    if idx.len() == 0 || strides.len() == 0 {
        0
    } else {
        idx[0] * strides[0] + dot(idx.skip(1), strides.skip(1))
    }
}

/// How a tensor's logical indices map to offsets in flat memory:
/// `offset + dot(index, strides)`.
#[derive(Clone, Debug)]
pub struct Layout {
    pub shape: Shape,
    pub strides: Vec<usize>,
    pub offset: usize,
}

impl Layout {
    pub open spec fn wf(self) -> bool {
        self.shape.wf() && self.strides@.len() == self.shape@.len()
    }

    /// The flat offset a logical index maps to.
    pub open spec fn spec_offset_of(self, idx: Seq<usize>) -> int {
        self.offset + dot(idx, self.strides@)
    }

    pub open spec fn is_contiguous_spec(self) -> bool {
        self.strides@ == contig_strides(self.shape@) && self.offset == 0
    }

    /// The row-major contiguous layout of `shape`, based at offset zero.
    pub fn contiguous(shape: Shape) -> (r: Layout)
        requires
            shape.wf(),
        ensures
            r.shape@ == shape@,
            r.wf(),
            r.is_contiguous_spec(),
    {
        proof {
            lemma_contig_strides(shape@);
        }
        let n = shape.dims.len();
        let mut strides: Vec<usize> = Vec::new();
        let mut i: usize = 0;
        while i < n
            invariant
                0 <= i <= n,
                n == shape@.len(),
                shape.wf(),
                strides@.len() == i,
                contig_strides(shape@).len() == n,
                forall|j: int|
                    0 <= j < n ==> contig_strides(shape@)[j] == prod(shape@.skip(j + 1)),
                forall|j: int| 0 <= j < i ==> strides@[j] == contig_strides(shape@)[j],
            decreases n - i,
        {
            // stride of dimension i = product of dimensions to its right
            let mut acc: usize = 1;
            let mut k: usize = n;
            while k != i + 1
                invariant
                    i < n,
                    i + 1 <= k <= n,
                    n == shape@.len(),
                    shape.wf(),
                    acc == prod(shape@.skip(k as int)),
                decreases k,
            {
                let d = shape.dims[k - 1];
                proof {
                    assert(shape@.skip(k - 1).skip(1) =~= shape@.skip(k as int));
                    assert(prod(shape@.skip(k - 1)) == d * prod(shape@.skip(k as int)));
                    assert(prod(shape@.skip(k - 1)) <= usize::MAX);
                }
                acc = d * acc;
                k = k - 1;
            }
            proof {
                assert(acc == prod(shape@.skip(i + 1)));
            }
            strides.push(acc);
            proof {
                assert(strides@[i as int] == contig_strides(shape@)[i as int]);
            }
            i = i + 1;
        }
        proof {
            assert(strides@ =~= contig_strides(shape@));
        }
        Layout { shape, strides, offset: 0 }
    }

    /// Whether this layout is the row-major contiguous one.
    pub fn is_contiguous(&self) -> (r: bool)
        requires
            self.wf(),
        ensures
            r == self.is_contiguous_spec(),
    {
        proof {
            lemma_contig_strides(self.shape@);
        }
        if self.offset != 0 {
            proof {
                assert(!self.is_contiguous_spec());
            }
            return false;
        }
        let n = self.strides.len();
        let mut acc: usize = 1;
        let mut k: usize = n;
        while k != 0
            invariant
                0 <= k <= n,
                n == self.shape@.len() == self.strides@.len(),
                self.wf(),
                self.offset == 0,
                acc == prod(self.shape@.skip(k as int)),
                contig_strides(self.shape@).len() == n,
                forall|j: int|
                    0 <= j < n ==> contig_strides(self.shape@)[j] == prod(
                        self.shape@.skip(j + 1),
                    ),
                forall|j: int| k <= j < n ==> self.strides@[j] == contig_strides(self.shape@)[j],
            decreases k,
        {
            if self.strides[k - 1] != acc {
                proof {
                    assert(self.strides@[k - 1] != contig_strides(self.shape@)[k - 1]);
                    assert(self.strides@ !~= contig_strides(self.shape@));
                }
                return false;
            }
            let d = self.shape.dims[k - 1];
            proof {
                assert(self.shape@.skip(k - 1).skip(1) =~= self.shape@.skip(k as int));
                assert(prod(self.shape@.skip(k - 1)) == d * prod(self.shape@.skip(k as int)));
                assert(prod(self.shape@.skip(k - 1)) <= usize::MAX);
            }
            acc = d * acc;
            k = k - 1;
        }
        proof {
            assert forall|j: int| 0 <= j < n implies self.strides@[j] == contig_strides(
                self.shape@,
            )[j] by {}
            assert(self.strides@ =~= contig_strides(self.shape@));
        }
        true
    }

    /// Whether this layout is well formed and row-major contiguous, checked
    /// without preconditions.
    pub fn check_contiguous(&self) -> (r: bool)
        ensures
            r == (self.wf() && self.is_contiguous_spec()),
    {
        if self.strides.len() != self.shape.dims.len() {
            return false;
        }
        if !self.shape.check_wf() {
            return false;
        }
        self.is_contiguous()
    }

    /// Total number of elements addressed by the layout's shape.
    pub fn num_elements(&self) -> (r: usize)
        requires
            self.wf(),
        ensures
            r == self.shape.spec_numel(),
    {
        self.shape.num_elements()
    }
}

/// A logical index is valid for a shape when it has one coordinate per
/// dimension, each within bounds.
pub open spec fn valid_index(idx: Seq<usize>, dims: Seq<usize>) -> bool {
    idx.len() == dims.len() && forall|i: int| 0 <= i < idx.len() ==> idx[i] < dims[i]
}

/// In a contiguous row-major layout every valid logical index addresses an
/// offset below the element count: the addressing scheme stays in bounds of
/// a backing store of `prod(dims)` elements.
pub proof fn lemma_contig_offset_in_bounds(dims: Seq<usize>, idx: Seq<usize>)
    requires
        valid_index(idx, dims),
        forall|i: int| 0 <= i <= dims.len() ==> prod(dims.skip(i)) <= usize::MAX,
    ensures
        0 <= dot(idx, contig_strides(dims)) < prod(dims),
    decreases dims.len(),
{
    lemma_contig_strides(dims);
    if dims.len() == 0 {
        assert(dot(idx, contig_strides(dims)) == 0);
    } else {
        let dtail = dims.skip(1);
        let itail = idx.skip(1);
        assert forall|i: int| 0 <= i <= dtail.len() implies prod(dtail.skip(i)) <= usize::MAX by {
            assert(dtail.skip(i) =~= dims.skip(i + 1));
        }
        assert(valid_index(itail, dtail));
        lemma_contig_offset_in_bounds(dtail, itail);
        let s = contig_strides(dims);
        let p1 = prod(dtail);
        assert(s[0] == p1);
        assert(s.skip(1) =~= contig_strides(dtail));
        assert(dot(idx, s) == idx[0] * p1 + dot(itail, contig_strides(dtail)));
        assert(idx[0] <= dims[0] - 1);
        assert(idx[0] * p1 <= (dims[0] - 1) * p1) by (nonlinear_arith)
            requires
                idx[0] <= dims[0] - 1,
                p1 >= 0,
        ;
        assert((dims[0] - 1) * p1 + p1 == dims[0] * p1) by (nonlinear_arith);
        assert(prod(dims) == dims[0] * p1);
        assert(idx[0] * p1 >= 0) by (nonlinear_arith)
            requires
                idx[0] >= 0,
                p1 >= 0,
        ;
    }
}

} // verus!
