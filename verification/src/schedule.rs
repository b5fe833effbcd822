//! The scheduler: kernel boundaries and ordering.
//!
//! Walking the arena in index order (which is already a topological order of
//! the DAG), the scheduler decides which nodes must materialize into device
//! memory and fuses every other pointwise operation into its consumer. A
//! node materializes when it is requested, already realized, a memory leaf,
//! a reduction or matrix product (those always start a new kernel and read
//! only materialized inputs), an input of such a boundary operation, or a
//! shared intermediate whose consumers iterate divergent shapes. The result
//! is pinned to a specification function of the graph alone, so scheduling
//! the same DAG always yields the same [`Schedule`], item for item.

use vstd::prelude::*;
use crate::dtype::DType;
use crate::graph::{graph_wf, node_ok, nodes_v, Graph, NodeV, Op, ReduceOp};
use crate::scalar::BinaryOp;
use crate::Device;

verus! {

/// One step of a fused pointwise expression, in postfix order: push a
/// materialized input's element, push a constant, or apply an operation to
/// the top two values.
#[derive(Clone, Copy, Debug, PartialEq, Eq, Structural)]
pub enum EOp {
    PushInput { node: usize },
    PushConst { bits: u64 },
    Apply { op: BinaryOp },
}

/// What one scheduled kernel computes.
#[derive(Clone, Debug)]
pub enum ItemKind {
    /// A fused pointwise expression over same-shaped operands.
    Elementwise { expr: Vec<EOp> },
    /// One reduction over the materialized input.
    Reduce { rop: ReduceOp, axis: usize },
    /// One matrix product of the two materialized inputs.
    Matmul { m: usize, k: usize, n: usize },
}

/// The model of an [`ItemKind`].
#[verifier::ext_equal]
pub enum ItemKindV {
    Elementwise { expr: Seq<EOp> },
    Reduce { rop: ReduceOp, axis: usize },
    Matmul { m: usize, k: usize, n: usize },
}

impl View for ItemKind {
    type V = ItemKindV;

    open spec fn view(&self) -> ItemKindV {
        match self {
            ItemKind::Elementwise { expr } => ItemKindV::Elementwise { expr: expr@ },
            ItemKind::Reduce { rop, axis } => ItemKindV::Reduce { rop: *rop, axis: *axis },
            ItemKind::Matmul { m, k, n } => ItemKindV::Matmul { m: *m, k: *k, n: *n },
        }
    }
}

/// One fused kernel of a schedule: the node it computes, the materialized
/// nodes it reads, what it does, and the shapes it iterates.
#[derive(Clone, Debug)]
pub struct ScheduleItem {
    pub dst: usize,
    pub inputs: Vec<usize>,
    pub kind: ItemKind,
    pub dtype: DType,
    pub dst_dims: Vec<usize>,
    pub src_dims: Vec<usize>,
}

/// The model of a [`ScheduleItem`].
#[verifier::ext_equal]
pub struct ItemV {
    pub dst: usize,
    pub inputs: Seq<usize>,
    pub kind: ItemKindV,
    pub dtype: DType,
    pub dst_dims: Seq<usize>,
    pub src_dims: Seq<usize>,
}

impl View for ScheduleItem {
    type V = ItemV;

    open spec fn view(&self) -> ItemV {
        ItemV {
            dst: self.dst,
            inputs: self.inputs@,
            kind: self.kind@,
            dtype: self.dtype,
            dst_dims: self.dst_dims@,
            src_dims: self.src_dims@,
        }
    }
}

/// An ordered plan of fused kernels covering one realization request; the
/// order is a valid topological order of the dependencies.
#[derive(Clone, Debug)]
pub struct Schedule {
    pub items: Vec<ScheduleItem>,
}

pub open spec fn items_v(items: Seq<ScheduleItem>) -> Seq<ItemV> {
    items.map_values(|it: ScheduleItem| it@)
}

impl View for Schedule {
    type V = Seq<ItemV>;

    open spec fn view(&self) -> Seq<ItemV> {
        items_v(self.items@)
    }
}

/// Whether `op` reads node `t`.
pub open spec fn op_uses(op: Op, t: int) -> bool {
    match op {
        Op::Const { .. } => false,
        Op::Load => false,
        Op::Binary { op: _, lhs, rhs } => lhs == t || rhs == t,
        Op::Reduce { rop: _, axis: _, src } => src == t,
        Op::Matmul { lhs, rhs } => lhs == t || rhs == t,
        Op::Reshape { src } => src == t,
    }
}

/// Some reduction or matrix product reads node `i` directly.
pub open spec fn has_boundary_consumer(nodes: Seq<NodeV>, i: int) -> bool {
    exists|j: int|
        0 <= j < nodes.len() && op_uses(#[trigger] nodes[j].op, i) && (nodes[j].op is Reduce
            || nodes[j].op is Matmul)
}

/// At least two distinct nodes read node `i`.
pub open spec fn has_two_consumers(nodes: Seq<NodeV>, i: int) -> bool {
    exists|j: int, k: int|
        0 <= j < k < nodes.len() && op_uses(#[trigger] nodes[j].op, i) && op_uses(
            #[trigger] nodes[k].op,
            i,
        )
}

/// Some consumer of node `i` iterates a different shape.
pub open spec fn has_divergent_consumer(nodes: Seq<NodeV>, i: int) -> bool {
    exists|j: int|
        0 <= j < nodes.len() && op_uses(#[trigger] nodes[j].op, i) && nodes[j].dims != nodes[i].dims
}

/// Whether node `i` gets its own device buffer: it is requested, already
/// realized, a memory leaf, a kernel-boundary operation, feeds one, or is a
/// shared intermediate with shape-divergent consumers. Everything else fuses
/// into its consumers.
pub open spec fn materialized(nodes: Seq<NodeV>, roots: Seq<usize>, i: int) -> bool {
    ||| roots.contains(i as usize)
    ||| nodes[i].realized
    ||| nodes[i].op is Load
    ||| nodes[i].op is Reduce
    ||| nodes[i].op is Matmul
    ||| has_boundary_consumer(nodes, i)
    ||| (has_two_consumers(nodes, i) && has_divergent_consumer(nodes, i))
}

/// The postfix expression reading operand `j`: a materialized operand is a
/// memory read; anything else is inlined.
pub open spec fn expr_of_operand(nodes: Seq<NodeV>, roots: Seq<usize>, j: int) -> Seq<EOp>
    decreases j, 1int,
{
    if materialized(nodes, roots, j) {
        seq![EOp::PushInput { node: j as usize }]
    } else {
        expr_of_node(nodes, roots, j)
    }
}

/// The postfix expression computing node `j` in place.
pub open spec fn expr_of_node(nodes: Seq<NodeV>, roots: Seq<usize>, j: int) -> Seq<EOp>
    decreases j, 0int,
{
    match nodes[j].op {
        Op::Const { bits } => seq![EOp::PushConst { bits }],
        Op::Binary { op, lhs, rhs } => {
            if lhs < j && rhs < j {
                expr_of_operand(nodes, roots, lhs as int).add(
                    expr_of_operand(nodes, roots, rhs as int),
                ).push(EOp::Apply { op })
            } else {
                Seq::empty()
            }
        },
        Op::Reshape { src } => {
            if src < j {
                expr_of_operand(nodes, roots, src as int)
            } else {
                Seq::empty()
            }
        },
        _ => seq![EOp::PushInput { node: j as usize }],
    }
}

/// The distinct nodes an expression reads, in order of first occurrence.
pub open spec fn collect_inputs(expr: Seq<EOp>) -> Seq<usize>
    decreases expr.len(),
{
    if expr.len() == 0 {
        Seq::empty()
    } else {
        let pre = collect_inputs(expr.drop_last());
        match expr.last() {
            EOp::PushInput { node } => {
                if pre.contains(node) {
                    pre
                } else {
                    pre.push(node)
                }
            },
            _ => pre,
        }
    }
}

/// The scheduled kernel for materialized node `i`.
pub open spec fn spec_item(nodes: Seq<NodeV>, roots: Seq<usize>, i: int) -> ItemV {
    match nodes[i].op {
        Op::Reduce { rop, axis, src } => ItemV {
            dst: i as usize,
            inputs: seq![src],
            kind: ItemKindV::Reduce { rop, axis },
            dtype: nodes[i].dtype,
            dst_dims: nodes[i].dims,
            src_dims: nodes[src as int].dims,
        },
        Op::Matmul { lhs, rhs } => ItemV {
            dst: i as usize,
            inputs: seq![lhs, rhs],
            kind: ItemKindV::Matmul {
                m: nodes[lhs as int].dims[0],
                k: nodes[lhs as int].dims[1],
                n: nodes[rhs as int].dims[1],
            },
            dtype: nodes[i].dtype,
            dst_dims: nodes[i].dims,
            src_dims: nodes[lhs as int].dims,
        },
        _ => {
            let expr = expr_of_node(nodes, roots, i);
            ItemV {
                dst: i as usize,
                inputs: collect_inputs(expr),
                kind: ItemKindV::Elementwise { expr },
                dtype: nodes[i].dtype,
                dst_dims: nodes[i].dims,
                src_dims: nodes[i].dims,
            }
        },
    }
}

/// Node `i` produces a schedule item exactly when it must materialize and
/// does not already hold data.
pub open spec fn emits(nodes: Seq<NodeV>, roots: Seq<usize>, i: int) -> bool {
    materialized(nodes, roots, i) && !nodes[i].realized
}

/// The schedule over the first `n` nodes, in ascending (topological) node
/// order.
pub open spec fn items_upto(nodes: Seq<NodeV>, roots: Seq<usize>, n: int) -> Seq<ItemV>
    decreases n,
{
    if n <= 0 {
        Seq::empty()
    } else {
        items_upto(nodes, roots, n - 1).add(
            if emits(nodes, roots, n - 1) {
                seq![spec_item(nodes, roots, n - 1)]
            } else {
                Seq::empty()
            },
        )
    }
}

/// The full schedule of a graph for the requested roots.
pub open spec fn spec_schedule(nodes: Seq<NodeV>, roots: Seq<usize>) -> Seq<ItemV> {
    items_upto(nodes, roots, nodes.len() as int)
}

/// Whether `v` holds `x`.
fn contains_usize(v: &Vec<usize>, x: usize) -> (r: bool)
    ensures
        r == v@.contains(x),
{
    let n = v.len();
    let mut i: usize = 0;
    while i < n
        invariant
            0 <= i <= n,
            n == v@.len(),
            forall|j: int| 0 <= j < i ==> v@[j] != x,
        decreases n - i,
    {
        if v[i] == x {
            return true;
        }
        i = i + 1;
    }
    false
}

/// Exec twin of [`materialized`].
pub fn is_materialized_pub<D: Device>(g: &Graph<D>, roots: &Vec<usize>, i: usize) -> (r: bool)
    requires
        i < g.spec_nodes().len(),
    ensures
        r == materialized(g.spec_nodes(), roots@, i as int),
{
    if contains_usize(roots, i) {
        return true;
    }
    if g.nodes[i].realized.is_some() {
        return true;
    }
    match g.nodes[i].op {
        Op::Load => {
            return true;
        },
        Op::Reduce { .. } => {
            return true;
        },
        Op::Matmul { .. } => {
            return true;
        },
        _ => {},
    }
    let n = g.nodes.len();
    let mut boundary = false;
    let mut one = false;
    let mut two = false;
    let mut divergent = false;
    let mut j: usize = 0;
    while j < n
        invariant
            0 <= j <= n,
            n == g.spec_nodes().len(),
            i < n,
            boundary == exists|j2: int|
                0 <= j2 < j && op_uses(#[trigger] g.spec_nodes()[j2].op, i as int) && (
                g.spec_nodes()[j2].op is Reduce || g.spec_nodes()[j2].op is Matmul),
            one == exists|j2: int|
                0 <= j2 < j && op_uses(#[trigger] g.spec_nodes()[j2].op, i as int),
            two == exists|j2: int, k2: int|
                0 <= j2 < k2 < j && op_uses(#[trigger] g.spec_nodes()[j2].op, i as int)
                    && op_uses(#[trigger] g.spec_nodes()[k2].op, i as int),
            divergent == exists|j2: int|
                0 <= j2 < j && op_uses(#[trigger] g.spec_nodes()[j2].op, i as int)
                    && g.spec_nodes()[j2].dims != g.spec_nodes()[i as int].dims,
        decreases n - j,
    {
        let uses = match g.nodes[j].op {
            Op::Const { .. } => false,
            Op::Load => false,
            Op::Binary { op: _, lhs, rhs } => lhs == i || rhs == i,
            Op::Reduce { rop: _, axis: _, src } => src == i,
            Op::Matmul { lhs, rhs } => lhs == i || rhs == i,
            Op::Reshape { src } => src == i,
        };
        if uses {
            proof {
                assert(op_uses(g.spec_nodes()[j as int].op, i as int));
            }
            let isb = match g.nodes[j].op {
                Op::Reduce { .. } => true,
                Op::Matmul { .. } => true,
                _ => false,
            };
            if isb {
                boundary = true;
            }
            if one {
                proof {
                    let w = choose|j2: int|
                        0 <= j2 < j && op_uses(#[trigger] g.spec_nodes()[j2].op, i as int);
                    assert(op_uses(g.spec_nodes()[w].op, i as int));
                    assert(op_uses(g.spec_nodes()[j as int].op, i as int));
                    assert(0 <= w && w < j);
                }
                two = true;
            }
            one = true;
            if !g.nodes[j].shape.same_dims(&g.nodes[i].shape) {
                divergent = true;
            }
        }
        j = j + 1;
    }
    boundary || (two && divergent)
}

/// Appends the postfix expression of operand `j` (exec twin of
/// [`expr_of_operand`]).
fn push_expr_operand<D: Device>(
    g: &Graph<D>,
    roots: &Vec<usize>,
    j: usize,
    out: &mut Vec<EOp>,
) -> (r: ())
    requires
        g.wf(),
        j < g.spec_nodes().len(),
    ensures
        final(out)@ == old(out)@ + expr_of_operand(g.spec_nodes(), roots@, j as int),
    decreases j, 1int,
{
    if is_materialized_pub(g, roots, j) {
        out.push(EOp::PushInput { node: j });
        proof {
            assert(final(out)@ =~= old(out)@ + expr_of_operand(g.spec_nodes(), roots@, j as int));
        }
    } else {
        push_expr_node(g, roots, j, out);
    }
}

/// Appends the postfix expression computing node `j` (exec twin of
/// [`expr_of_node`]).
fn push_expr_node<D: Device>(
    g: &Graph<D>,
    roots: &Vec<usize>,
    j: usize,
    out: &mut Vec<EOp>,
) -> (r: ())
    requires
        g.wf(),
        j < g.spec_nodes().len(),
    ensures
        final(out)@ == old(out)@ + expr_of_node(g.spec_nodes(), roots@, j as int),
    decreases j, 0int,
{
    proof {
        assert(node_ok(g.spec_nodes(), j as int));
    }
    match g.nodes[j].op {
        Op::Const { bits } => {
            out.push(EOp::PushConst { bits });
            proof {
                assert(final(out)@ =~= old(out)@ + expr_of_node(g.spec_nodes(), roots@, j as int));
            }
        },
        Op::Binary { op, lhs, rhs } => {
            push_expr_operand(g, roots, lhs, out);
            push_expr_operand(g, roots, rhs, out);
            out.push(EOp::Apply { op });
            proof {
                assert(final(out)@ =~= old(out)@ + expr_of_node(g.spec_nodes(), roots@, j as int));
            }
        },
        Op::Reshape { src } => {
            push_expr_operand(g, roots, src, out);
        },
        Op::Load => {
            out.push(EOp::PushInput { node: j });
            proof {
                assert(final(out)@ =~= old(out)@ + expr_of_node(g.spec_nodes(), roots@, j as int));
            }
        },
        Op::Reduce { .. } => {
            out.push(EOp::PushInput { node: j });
            proof {
                assert(final(out)@ =~= old(out)@ + expr_of_node(g.spec_nodes(), roots@, j as int));
            }
        },
        Op::Matmul { .. } => {
            out.push(EOp::PushInput { node: j });
            proof {
                assert(final(out)@ =~= old(out)@ + expr_of_node(g.spec_nodes(), roots@, j as int));
            }
        },
    }
}

/// The distinct inputs an expression reads (exec twin of
/// [`collect_inputs`]).
fn collect_inputs_exec(expr: &Vec<EOp>) -> (r: Vec<usize>)
    ensures
        r@ == collect_inputs(expr@),
{
    let n = expr.len();
    let mut ins: Vec<usize> = Vec::new();
    let mut i: usize = 0;
    while i < n
        invariant
            0 <= i <= n,
            n == expr@.len(),
            ins@ == collect_inputs(expr@.take(i as int)),
        decreases n - i,
    {
        proof {
            assert(expr@.take(i + 1).drop_last() =~= expr@.take(i as int));
            assert(expr@.take(i + 1).last() == expr@[i as int]);
        }
        match expr[i] {
            EOp::PushInput { node } => {
                if !contains_usize(&ins, node) {
                    ins.push(node);
                }
            },
            _ => {},
        }
        i = i + 1;
    }
    proof {
        assert(expr@.take(n as int) =~= expr@);
    }
    ins
}

/// A copy of a dimension list.
pub fn clone_dims(v: &Vec<usize>) -> (r: Vec<usize>)
    ensures
        r@ == v@,
{
    let n = v.len();
    let mut dims: Vec<usize> = Vec::new();
    let mut i: usize = 0;
    while i < n
        invariant
            0 <= i <= n,
            n == v@.len(),
            dims@.len() == i,
            forall|j: int| 0 <= j < i ==> dims@[j] == v@[j],
        decreases n - i,
    {
        dims.push(v[i]);
        i = i + 1;
    }
    proof {
        assert(dims@ =~= v@);
    }
    dims
}

/// Builds the schedule item for materialized node `i` (exec twin of
/// [`spec_item`]).
fn build_item<D: Device>(g: &Graph<D>, roots: &Vec<usize>, i: usize) -> (r: ScheduleItem)
    requires
        g.wf(),
        i < g.spec_nodes().len(),
    ensures
        r@ == spec_item(g.spec_nodes(), roots@, i as int),
{
    proof {
        assert(node_ok(g.spec_nodes(), i as int));
    }
    match g.nodes[i].op {
        Op::Reduce { rop, axis, src } => {
            let mut inputs: Vec<usize> = Vec::new();
            inputs.push(src);
            proof {
                assert(inputs@ =~= seq![src]);
            }
            ScheduleItem {
                dst: i,
                inputs,
                kind: ItemKind::Reduce { rop, axis },
                dtype: g.nodes[i].dtype,
                dst_dims: clone_dims(&g.nodes[i].shape.dims),
                src_dims: clone_dims(&g.nodes[src].shape.dims),
            }
        },
        Op::Matmul { lhs, rhs } => {
            let mut inputs: Vec<usize> = Vec::new();
            inputs.push(lhs);
            inputs.push(rhs);
            proof {
                assert(inputs@ =~= seq![lhs, rhs]);
            }
            ScheduleItem {
                dst: i,
                inputs,
                kind: ItemKind::Matmul {
                    m: g.nodes[lhs].shape.dims[0],
                    k: g.nodes[lhs].shape.dims[1],
                    n: g.nodes[rhs].shape.dims[1],
                },
                dtype: g.nodes[i].dtype,
                dst_dims: clone_dims(&g.nodes[i].shape.dims),
                src_dims: clone_dims(&g.nodes[lhs].shape.dims),
            }
        },
        _ => {
            let mut expr: Vec<EOp> = Vec::new();
            push_expr_node(g, roots, i, &mut expr);
            proof {
                assert(expr@ =~= expr_of_node(g.spec_nodes(), roots@, i as int));
            }
            let inputs = collect_inputs_exec(&expr);
            ScheduleItem {
                dst: i,
                inputs,
                kind: ItemKind::Elementwise { expr },
                dtype: g.nodes[i].dtype,
                dst_dims: clone_dims(&g.nodes[i].shape.dims),
                src_dims: clone_dims(&g.nodes[i].shape.dims),
            }
        },
    }
}

/// Plans the realization of `roots`: which kernels run, over which buffers,
/// in which order. The result is exactly [`spec_schedule`] of the graph's
/// model — scheduling is deterministic.
pub fn schedule<D: Device>(g: &Graph<D>, roots: &Vec<usize>) -> (r: Schedule)
    requires
        g.wf(),
    ensures
        r@ == spec_schedule(g.spec_nodes(), roots@),
{
    let n = g.nodes.len();
    let mut items: Vec<ScheduleItem> = Vec::new();
    let mut i: usize = 0;
    while i < n
        invariant
            0 <= i <= n,
            n == g.spec_nodes().len(),
            g.wf(),
            items_v(items@) == items_upto(g.spec_nodes(), roots@, i as int),
        decreases n - i,
    {
        let mat = is_materialized_pub(g, roots, i);
        let is_realized = g.nodes[i].realized.is_some();
        if mat && !is_realized {
            let it = build_item(g, roots, i);
            items.push(it);
            proof {
                assert(items_v(items@) =~= items_upto(g.spec_nodes(), roots@, i + 1));
            }
        } else {
            proof {
                assert(items_v(items@) =~= items_upto(g.spec_nodes(), roots@, i + 1));
            }
        }
        i = i + 1;
    }
    Schedule { items }
}

/// Scheduling is deterministic: the schedule is a function of the graph's
/// model and the requested roots alone, so two runs over an identical DAG
/// produce an identical item ordering.
pub proof fn lemma_schedule_deterministic(
    nodes1: Seq<NodeV>,
    roots1: Seq<usize>,
    nodes2: Seq<NodeV>,
    roots2: Seq<usize>,
)
    requires
        nodes1 == nodes2,
        roots1 == roots2,
    ensures
        spec_schedule(nodes1, roots1) == spec_schedule(nodes2, roots2),
{
}

/// A reduction or matrix product never fuses with pointwise work: its item
/// reads only materialized nodes, so no kernel mixes a reduction's
/// accumulator loop with another group's fused instructions.
pub proof fn lemma_boundary_inputs_materialized(nodes: Seq<NodeV>, roots: Seq<usize>, idx: int)
    requires
        graph_wf(nodes),
        0 <= idx < spec_schedule(nodes, roots).len(),
    ensures
        ({
            let item = spec_schedule(nodes, roots)[idx];
            (item.kind is Reduce || item.kind is Matmul) ==> forall|t: int|
                0 <= t < item.inputs.len() ==> materialized(nodes, roots, item.inputs[t] as int)
        }),
{
    lemma_items_upto_from_nodes(nodes, roots, nodes.len() as int, idx);
}

/// Every scheduled item is the item of its destination node, and that node
/// emits.
proof fn lemma_items_upto_from_nodes(nodes: Seq<NodeV>, roots: Seq<usize>, n: int, idx: int)
    requires
        graph_wf(nodes),
        n <= nodes.len(),
        0 <= idx < items_upto(nodes, roots, n).len(),
    ensures
        ({
            let item = items_upto(nodes, roots, n)[idx];
            exists|d: int|
                0 <= d < n && emits(nodes, roots, d) && item == spec_item(nodes, roots, d)
        }),
        ({
            let item = items_upto(nodes, roots, n)[idx];
            (item.kind is Reduce || item.kind is Matmul) ==> forall|t: int|
                0 <= t < item.inputs.len() ==> materialized(nodes, roots, item.inputs[t] as int)
        }),
    decreases n,
{
    if n > 0 {
        let pre = items_upto(nodes, roots, n - 1);
        if idx < pre.len() {
            lemma_items_upto_from_nodes(nodes, roots, n - 1, idx);
        } else {
            let item = items_upto(nodes, roots, n)[idx];
            assert(emits(nodes, roots, n - 1) && item == spec_item(nodes, roots, n - 1));
            assert(node_ok(nodes, n - 1));
            if item.kind is Reduce || item.kind is Matmul {
                assert forall|t: int|
                    0 <= t < item.inputs.len() implies materialized(
                    nodes,
                    roots,
                    item.inputs[t] as int,
                ) by {
                    let d = n - 1;
                    match nodes[d].op {
                        Op::Reduce { rop, axis, src } => {
                            assert(op_uses(nodes[d].op, src as int));
                            assert(has_boundary_consumer(nodes, src as int));
                        },
                        Op::Matmul { lhs, rhs } => {
                            assert(op_uses(nodes[d].op, lhs as int));
                            assert(op_uses(nodes[d].op, rhs as int));
                            assert(has_boundary_consumer(nodes, lhs as int));
                            assert(has_boundary_consumer(nodes, rhs as int));
                        },
                        _ => {},
                    }
                }
            }
        }
    }
}

} // verus!
