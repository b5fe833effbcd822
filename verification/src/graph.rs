//! The lazy operation graph.
//!
//! A [`LazyBuffer`] is one node of an immutable DAG of deferred tensor
//! operations, held in an arena ([`Graph`]) and addressed by index, so that
//! operands always point at earlier nodes and the arena order is already a
//! topological order. Building a node never touches device memory: shapes
//! and element types are inferred and validated at construction, and invalid
//! combinations fail fast with `ShapeError`/`DTypeError` before anything is
//! allocated or run.

use vstd::prelude::*;
use crate::dtype::DType;
use crate::error::{Error, Result};
use crate::layout::{prod, shape_wf, Shape};
use crate::scalar::{BinaryOp, Const};
use crate::{Device, Slice};

verus! {

/// A reduction kind; sums fold with the all-zero identity.
#[derive(Clone, Copy, Debug, PartialEq, Eq, Structural)]
pub enum ReduceOp {
    Sum,
}

/// The operation a graph node performs. Operand `usize`s name earlier nodes.
#[derive(Clone, Copy, Debug, PartialEq, Eq, Structural)]
pub enum Op {
    /// A scalar constant, filling the node's shape.
    Const { bits: u64 },
    /// A leaf bound to already-realized device memory.
    Load,
    /// Pointwise combination of two same-shaped nodes.
    Binary { op: BinaryOp, lhs: usize, rhs: usize },
    /// Fold one axis away.
    Reduce { rop: ReduceOp, axis: usize, src: usize },
    /// Two-dimensional matrix product.
    Matmul { lhs: usize, rhs: usize },
    /// Same data, new shape of equal element count.
    Reshape { src: usize },
}

/// The device-independent model of a node.
#[verifier::ext_equal]
pub struct NodeV {
    pub op: Op,
    pub dtype: DType,
    pub dims: Seq<usize>,
    pub realized: bool,
}

/// One deferred-operation node: its operation, result type and shape, and —
/// once computed — its backing device memory. Shape and type never change
/// after construction; only `realized` transitions, once, from `None` to
/// `Some`.
pub struct LazyBuffer<D: Device> {
    pub op: Op,
    pub dtype: DType,
    pub shape: Shape,
    pub realized: Option<D::Slice>,
}

impl<D: Device> View for LazyBuffer<D> {
    type V = NodeV;

    open spec fn view(&self) -> NodeV {
        NodeV {
            op: self.op,
            dtype: self.dtype,
            dims: self.shape@,
            realized: self.realized is Some,
        }
    }
}

/// The models of all nodes of a graph.
pub open spec fn nodes_v<D: Device>(ns: Seq<LazyBuffer<D>>) -> Seq<NodeV> {
    ns.map_values(|n: LazyBuffer<D>| n@)
}

/// The node at `i` is internally consistent: operands point backwards, and
/// its shape and type follow from theirs.
pub open spec fn node_ok(nodes: Seq<NodeV>, i: int) -> bool {
    let nd = nodes[i];
    &&& shape_wf(nd.dims)
    &&& match nd.op {
        Op::Const { .. } => true,
        Op::Load => nd.realized,
        Op::Binary { op, lhs, rhs } => lhs < i && rhs < i && nodes[lhs as int].dims == nd.dims
            && nodes[rhs as int].dims == nd.dims && nodes[lhs as int].dtype == nd.dtype && nodes[
            rhs as int
        ].dtype == nd.dtype,
        Op::Reduce { rop, axis, src } => src < i && axis < nodes[src as int].dims.len()
            && nd.dims == nodes[src as int].dims.remove(axis as int) && nodes[src as int].dtype
            == nd.dtype,
        Op::Matmul { lhs, rhs } => lhs < i && rhs < i && nodes[lhs as int].dims.len() == 2
            && nodes[rhs as int].dims.len() == 2 && nodes[lhs as int].dims[1] == nodes[
            rhs as int
        ].dims[0] && nd.dims == seq![nodes[lhs as int].dims[0], nodes[rhs as int].dims[1]]
            && nodes[lhs as int].dtype == nd.dtype && nodes[rhs as int].dtype == nd.dtype,
        Op::Reshape { src } => src < i && prod(nd.dims) == prod(nodes[src as int].dims)
            && nodes[src as int].dtype == nd.dtype,
    }
}

/// Every node of the graph is consistent: the arena is a well-formed DAG.
pub open spec fn graph_wf(nodes: Seq<NodeV>) -> bool {
    forall|i: int| 0 <= i < nodes.len() ==> node_ok(nodes, i)
}

/// Appending a node leaves the consistency of the existing prefix intact.
proof fn lemma_push_preserves_node_ok(nodes: Seq<NodeV>, x: NodeV)
    requires
        graph_wf(nodes),
    ensures
        forall|i: int| 0 <= i < nodes.len() ==> node_ok(nodes.push(x), i),
{
    assert forall|i: int| 0 <= i < nodes.len() implies node_ok(nodes.push(x), i) by {
        assert(node_ok(nodes, i));
        assert(nodes.push(x)[i] == nodes[i]);
    }
}

/// An arena of [`LazyBuffer`]s forming one DAG.
pub struct Graph<D: Device> {
    pub nodes: Vec<LazyBuffer<D>>,
}

impl<D: Device> Graph<D> {
    pub open spec fn wf(self) -> bool {
        graph_wf(nodes_v(self.nodes@))
    }

    pub open spec fn spec_nodes(self) -> Seq<NodeV> {
        nodes_v(self.nodes@)
    }

    /// An empty graph.
    pub fn new() -> (r: Graph<D>)
        ensures
            r.wf(),
            r.spec_nodes().len() == 0,
    {
        let g = Graph { nodes: Vec::new() };
        proof {
            assert(nodes_v(g.nodes@) =~= Seq::<NodeV>::empty());
        }
        g
    }

    /// Number of nodes in the arena.
    pub fn len(&self) -> (r: usize)
        ensures
            r == self.spec_nodes().len(),
    {
        self.nodes.len()
    }

    /// A leaf holding already-realized device memory of the given shape.
    /// Fails with `SizeMismatch` when the slice does not hold exactly one
    /// element per position of the shape.
    pub fn load(&mut self, slice: D::Slice, shape: Shape) -> (r: Result<usize>)
        requires
            old(self).wf(),
            shape.wf(),
        ensures
            final(self).wf(),
            match r {
                Ok(id) => id == old(self).spec_nodes().len() && final(self).spec_nodes() == old(
                    self,
                ).spec_nodes().push(
                    NodeV {
                        op: Op::Load,
                        dtype: slice.spec_dtype(),
                        dims: shape@,
                        realized: true,
                    },
                ) && slice.spec_data().len() == shape.spec_numel(),
                Err(e) => final(self).spec_nodes() == old(self).spec_nodes() && slice.spec_data().len()
                    != shape.spec_numel() && e == (Error::SizeMismatch {
                    expected: shape.spec_numel() as usize,
                    got: slice.spec_data().len() as usize,
                }),
            },
            forall|i: int|
                0 <= i < old(self).nodes@.len() ==> final(self).nodes@[i] == old(self).nodes@[i],
    {
        let numel = shape.num_elements();
        let slen = slice.len();
        if slen != numel {
            return Err(Error::SizeMismatch { expected: numel, got: slen });
        }
        let dtype = slice.dtype();
        let node = LazyBuffer { op: Op::Load, dtype, shape, realized: Some(slice) };
        proof {
            lemma_push_preserves_node_ok(nodes_v(self.nodes@), node@);
            assert(nodes_v(self.nodes@.push(node)) =~= nodes_v(self.nodes@).push(node@));
        }
        let id = self.nodes.len();
        self.nodes.push(node);
        Ok(id)
    }

    /// A node filling `shape` with the scalar `c`.
    pub fn constant(&mut self, c: Const, shape: Shape) -> (r: usize)
        requires
            old(self).wf(),
            shape.wf(),
        ensures
            final(self).wf(),
            r == old(self).spec_nodes().len(),
            final(self).spec_nodes() == old(self).spec_nodes().push(
                NodeV { op: (Op::Const { bits: c.bits }), dtype: c.dtype, dims: shape@, realized: false },
            ),
            forall|i: int|
                0 <= i < old(self).nodes@.len() ==> final(self).nodes@[i] == old(self).nodes@[i],
    {
        let node = LazyBuffer::<D> {
            op: Op::Const { bits: c.bits },
            dtype: c.dtype,
            shape,
            realized: None,
        };
        proof {
            lemma_push_preserves_node_ok(nodes_v(self.nodes@), node@);
            assert(nodes_v(self.nodes@.push(node)) =~= nodes_v(self.nodes@).push(node@));
        }
        let id = self.nodes.len();
        self.nodes.push(node);
        id
    }

    /// A pointwise combination of two nodes. Fails with `ShapeError` when an
    /// operand is missing or the shapes differ, and with `DTypeError` when
    /// the shapes agree but the element types differ.
    pub fn binary(&mut self, op: BinaryOp, lhs: usize, rhs: usize) -> (r: Result<usize>)
        requires
            old(self).wf(),
        ensures
            final(self).wf(),
            match r {
                Ok(id) => {
                    let ns = old(self).spec_nodes();
                    &&& id == ns.len()
                    &&& lhs < ns.len() && rhs < ns.len()
                    &&& ns[lhs as int].dims == ns[rhs as int].dims
                    &&& ns[lhs as int].dtype == ns[rhs as int].dtype
                    &&& final(self).spec_nodes() == ns.push(
                        NodeV {
                            op: (Op::Binary { op, lhs, rhs }),
                            dtype: ns[lhs as int].dtype,
                            dims: ns[lhs as int].dims,
                            realized: false,
                        },
                    )
                },
                Err(e) => {
                    let ns = old(self).spec_nodes();
                    &&& final(self).spec_nodes() == ns
                    &&& if !(lhs < ns.len() && rhs < ns.len()) {
                        e == Error::ShapeError
                    } else if ns[lhs as int].dims != ns[rhs as int].dims {
                        e == Error::ShapeError
                    } else {
                        ns[lhs as int].dtype != ns[rhs as int].dtype && e == Error::DTypeError
                    }
                },
            },
            forall|i: int|
                0 <= i < old(self).nodes@.len() ==> final(self).nodes@[i] == old(self).nodes@[i],
    {
        let n = self.nodes.len();
        if lhs >= n || rhs >= n {
            return Err(Error::ShapeError);
        }
        if !self.nodes[lhs].shape.same_dims(&self.nodes[rhs].shape) {
            return Err(Error::ShapeError);
        }
        if self.nodes[lhs].dtype != self.nodes[rhs].dtype {
            return Err(Error::DTypeError);
        }
        let dtype = self.nodes[lhs].dtype;
        let shape = self.nodes[lhs].shape.clone_shape();
        let node = LazyBuffer::<D> { op: Op::Binary { op, lhs, rhs }, dtype, shape, realized: None };
        proof {
            assert(node_ok(nodes_v(self.nodes@), lhs as int));
            lemma_push_preserves_node_ok(nodes_v(self.nodes@), node@);
            assert(nodes_v(self.nodes@.push(node)) =~= nodes_v(self.nodes@).push(node@));
        }
        let id = self.nodes.len();
        self.nodes.push(node);
        Ok(id)
    }

    /// Folds one axis of a node away. Fails with `ShapeError` when the
    /// operand is missing, the axis does not exist, or the reduced shape's
    /// suffix products overflow.
    pub fn reduce(&mut self, rop: ReduceOp, axis: usize, src: usize) -> (r: Result<usize>)
        requires
            old(self).wf(),
        ensures
            final(self).wf(),
            match r {
                Ok(id) => {
                    let ns = old(self).spec_nodes();
                    &&& id == ns.len()
                    &&& src < ns.len() && axis < ns[src as int].dims.len()
                    &&& shape_wf(ns[src as int].dims.remove(axis as int))
                    &&& final(self).spec_nodes() == ns.push(
                        NodeV {
                            op: (Op::Reduce { rop, axis, src }),
                            dtype: ns[src as int].dtype,
                            dims: ns[src as int].dims.remove(axis as int),
                            realized: false,
                        },
                    )
                },
                Err(e) => {
                    let ns = old(self).spec_nodes();
                    &&& final(self).spec_nodes() == ns
                    &&& e == Error::ShapeError
                    &&& !(src < ns.len() && axis < ns[src as int].dims.len() && shape_wf(
                        ns[src as int].dims.remove(axis as int),
                    ))
                },
            },
            forall|i: int|
                0 <= i < old(self).nodes@.len() ==> final(self).nodes@[i] == old(self).nodes@[i],
    {
        let n = self.nodes.len();
        if src >= n {
            return Err(Error::ShapeError);
        }
        let rank = self.nodes[src].shape.rank();
        if axis >= rank {
            return Err(Error::ShapeError);
        }
        // the reduced dimension list must itself be well-formed
        let mut dims: Vec<usize> = Vec::new();
        let mut i: usize = 0;
        while i < rank
            invariant
                0 <= i <= rank,
                rank == self.nodes@[src as int].shape@.len(),
                src < self.nodes@.len(),
                axis < rank,
                dims@.len() == (if i <= axis {
                    i as int
                } else {
                    i - 1
                }),
                forall|j: int| 0 <= j < i && j < axis ==> dims@[j] == self.nodes@[src as int].shape@[j],
                forall|j: int|
                    axis < j < i ==> dims@[j - 1] == self.nodes@[src as int].shape@[j],
            decreases rank - i,
        {
            if i != axis {
                dims.push(self.nodes[src].shape.dims[i]);
            }
            i = i + 1;
        }
        proof {
            assert(dims@ =~= self.nodes@[src as int].shape@.remove(axis as int));
        }
        match Shape::new(dims) {
            Ok(shape) => {
                let dtype = self.nodes[src].dtype;
                let node = LazyBuffer::<D> {
                    op: Op::Reduce { rop, axis, src },
                    dtype,
                    shape,
                    realized: None,
                };
                proof {
                    lemma_push_preserves_node_ok(nodes_v(self.nodes@), node@);
                    assert(nodes_v(self.nodes@.push(node)) =~= nodes_v(self.nodes@).push(node@));
                }
                let id = self.nodes.len();
                self.nodes.push(node);
                Ok(id)
            },
            Err(e) => Err(e),
        }
    }

    /// The matrix product of two rank-2 nodes. Fails with `ShapeError` on a
    /// missing operand, wrong rank, inner-dimension mismatch or an
    /// overflowing result shape, and with `DTypeError` on differing element
    /// types.
    pub fn matmul(&mut self, lhs: usize, rhs: usize) -> (r: Result<usize>)
        requires
            old(self).wf(),
        ensures
            final(self).wf(),
            match r {
                Ok(id) => {
                    let ns = old(self).spec_nodes();
                    &&& id == ns.len()
                    &&& lhs < ns.len() && rhs < ns.len()
                    &&& ns[lhs as int].dims.len() == 2 && ns[rhs as int].dims.len() == 2
                    &&& ns[lhs as int].dims[1] == ns[rhs as int].dims[0]
                    &&& ns[lhs as int].dtype == ns[rhs as int].dtype
                    &&& final(self).spec_nodes() == ns.push(
                        NodeV {
                            op: (Op::Matmul { lhs, rhs }),
                            dtype: ns[lhs as int].dtype,
                            dims: seq![ns[lhs as int].dims[0], ns[rhs as int].dims[1]],
                            realized: false,
                        },
                    )
                },
                Err(e) => {
                    let ns = old(self).spec_nodes();
                    &&& final(self).spec_nodes() == ns
                    &&& if !(lhs < ns.len() && rhs < ns.len()) {
                        e == Error::ShapeError
                    } else if ns[lhs as int].dims.len() != 2 || ns[rhs as int].dims.len() != 2 {
                        e == Error::ShapeError
                    } else if ns[lhs as int].dims[1] != ns[rhs as int].dims[0] {
                        e == Error::ShapeError
                    } else if ns[lhs as int].dtype != ns[rhs as int].dtype {
                        e == Error::DTypeError
                    } else {
                        !shape_wf(seq![ns[lhs as int].dims[0], ns[rhs as int].dims[1]]) && e
                            == Error::ShapeError
                    }
                },
            },
            forall|i: int|
                0 <= i < old(self).nodes@.len() ==> final(self).nodes@[i] == old(self).nodes@[i],
    {
        let n = self.nodes.len();
        if lhs >= n || rhs >= n {
            return Err(Error::ShapeError);
        }
        if self.nodes[lhs].shape.rank() != 2 || self.nodes[rhs].shape.rank() != 2 {
            return Err(Error::ShapeError);
        }
        if self.nodes[lhs].shape.dims[1] != self.nodes[rhs].shape.dims[0] {
            return Err(Error::ShapeError);
        }
        if self.nodes[lhs].dtype != self.nodes[rhs].dtype {
            return Err(Error::DTypeError);
        }
        let m = self.nodes[lhs].shape.dims[0];
        let nn = self.nodes[rhs].shape.dims[1];
        let mut dims: Vec<usize> = Vec::new();
        dims.push(m);
        dims.push(nn);
        proof {
            assert(dims@ =~= seq![m, nn]);
        }
        match Shape::new(dims) {
            Ok(shape) => {
                let dtype = self.nodes[lhs].dtype;
                let node = LazyBuffer::<D> {
                    op: Op::Matmul { lhs, rhs },
                    dtype,
                    shape,
                    realized: None,
                };
                proof {
                    lemma_push_preserves_node_ok(nodes_v(self.nodes@), node@);
                    assert(nodes_v(self.nodes@.push(node)) =~= nodes_v(self.nodes@).push(node@));
                }
                let id = self.nodes.len();
                self.nodes.push(node);
                Ok(id)
            },
            Err(e) => Err(e),
        }
    }

    /// The same data under a new shape. Fails with `ShapeError` when the
    /// operand is missing, the new shape is malformed, or the element counts
    /// disagree; nothing is allocated or run in any case.
    pub fn reshape(&mut self, src: usize, dims: Vec<usize>) -> (r: Result<usize>)
        requires
            old(self).wf(),
        ensures
            final(self).wf(),
            match r {
                Ok(id) => {
                    let ns = old(self).spec_nodes();
                    &&& id == ns.len()
                    &&& src < ns.len() && shape_wf(dims@)
                    &&& prod(dims@) == prod(ns[src as int].dims)
                    &&& final(self).spec_nodes() == ns.push(
                        NodeV {
                            op: (Op::Reshape { src }),
                            dtype: ns[src as int].dtype,
                            dims: dims@,
                            realized: false,
                        },
                    )
                },
                Err(e) => {
                    let ns = old(self).spec_nodes();
                    &&& final(self).spec_nodes() == ns
                    &&& e == Error::ShapeError
                    &&& !(src < ns.len() && shape_wf(dims@) && prod(dims@) == prod(
                        ns[src as int].dims,
                    ))
                },
            },
            forall|i: int|
                0 <= i < old(self).nodes@.len() ==> final(self).nodes@[i] == old(self).nodes@[i],
    {
        let n = self.nodes.len();
        if src >= n {
            return Err(Error::ShapeError);
        }
        proof {
            assert(node_ok(nodes_v(self.nodes@), src as int));
        }
        match Shape::new(dims) {
            Ok(shape) => {
                if shape.num_elements() != self.nodes[src].shape.num_elements() {
                    return Err(Error::ShapeError);
                }
                let dtype = self.nodes[src].dtype;
                let node = LazyBuffer::<D> { op: Op::Reshape { src }, dtype, shape, realized: None };
                proof {
                    lemma_push_preserves_node_ok(nodes_v(self.nodes@), node@);
                    assert(nodes_v(self.nodes@.push(node)) =~= nodes_v(self.nodes@).push(node@));
                }
                let id = self.nodes.len();
                self.nodes.push(node);
                Ok(id)
            },
            Err(e) => Err(e),
        }
    }
}

} // verus!
