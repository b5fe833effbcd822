//! The kernel cache and the realization pass.
//!
//! Realizing roots runs the schedule: each item is lowered, compiled (or
//! fetched from the per-device cache, keyed by the kernel's structural
//! identity), run on freshly allocated output memory, and its result
//! attached to the destination node. A failing item aborts the remaining
//! items; buffers already realized keep their data, and buffers not yet
//! realized stay safely re-realizable. Re-realizing roots whose schedule is
//! empty performs no device work and changes nothing.

use vstd::prelude::*;
use crate::error::{Error, Result};
use crate::graph::{graph_wf, nodes_v, Graph, LazyBuffer, NodeV};
use crate::interpreter::{spec_interp, BufV};
use crate::lang::{kernel_ok, spec_kernel_hash, Kernel};
use crate::lower::{lower, spec_lower_args, spec_lower_instrs};
use crate::schedule::{emits, materialized, schedule, spec_schedule, ItemV};
use crate::{slices_v, Device, Slice};

verus! {

/// The buffer a realized node holds; a placeholder for an unrealized one.
pub open spec fn node_buf<D: Device>(n: LazyBuffer<D>) -> BufV {
    match n.realized {
        Some(s) => BufV { dtype: s.spec_dtype(), data: s.spec_data() },
        None => BufV { dtype: n.dtype, data: Seq::empty() },
    }
}

/// One concrete execution witness for schedule item `it` against the final
/// graph `ns`: a bracket map validating the lowered kernel, and the
/// interpreter run that took the output buffer from some initial contents —
/// device memory starts unspecified — and the inputs' data to the final
/// buffers.
pub open spec fn item_result_witness<D: Device>(
    ns: Seq<LazyBuffer<D>>,
    it: ItemV,
    ends: Seq<usize>,
    bufs0: Seq<BufV>,
    bufs1: Seq<BufV>,
) -> bool {
    &&& kernel_ok(spec_lower_args(it), spec_lower_instrs(it), ends)
    &&& spec_interp(spec_lower_args(it), spec_lower_instrs(it), ends, bufs0) == Some(bufs1)
    &&& bufs0.len() == 1 + it.inputs.len()
    &&& bufs0[0].dtype == it.dtype
    &&& bufs0[0].data.len() == crate::layout::prod(it.dst_dims)
    &&& forall|j: int|
        0 <= j < it.inputs.len() ==> it.inputs[j] < ns.len() && (#[trigger] ns[it.inputs[j] as int]).realized
            is Some && bufs0[j + 1] == node_buf(ns[it.inputs[j] as int])
    &&& it.dst < ns.len()
    &&& ns[it.dst as int].realized is Some
    &&& node_buf(ns[it.dst as int]).dtype == it.dtype
    &&& node_buf(ns[it.dst as int]).data == bufs1[0].data
}

/// The destination of schedule item `it` holds, in graph `ns`, exactly what
/// the reference interpreter computes for the item's lowered kernel on the
/// inputs' data.
pub open spec fn item_result_ok<D: Device>(ns: Seq<LazyBuffer<D>>, it: ItemV) -> bool {
    exists|ends: Seq<usize>, bufs0: Seq<BufV>, bufs1: Seq<BufV>|
        item_result_witness(ns, it, ends, bufs0, bufs1)
}

/// An item's result survives any later graph step that keeps every realized
/// node realized with its buffer intact.
proof fn lemma_item_result_stable<D: Device>(
    ns1: Seq<LazyBuffer<D>>,
    ns2: Seq<LazyBuffer<D>>,
    it: ItemV,
)
    requires
        item_result_ok(ns1, it),
        ns2.len() == ns1.len(),
        forall|i: int|
            0 <= i < ns1.len() && (#[trigger] ns1[i]).realized is Some ==> ns2[i].realized
                is Some && node_buf(ns2[i]) == node_buf(ns1[i]),
    ensures
        item_result_ok(ns2, it),
{
    let (ends, bufs0, bufs1) = choose|ends: Seq<usize>, bufs0: Seq<BufV>, bufs1: Seq<BufV>|
        item_result_witness(ns1, it, ends, bufs0, bufs1);
    assert(item_result_witness(ns1, it, ends, bufs0, bufs1));
    assert forall|j: int|
        0 <= j < it.inputs.len() implies it.inputs[j] < ns2.len() && (#[trigger] ns2[it.inputs[j] as int]).realized
        is Some && bufs0[j + 1] == node_buf(ns2[it.inputs[j] as int]) by {
        assert(ns1[it.inputs[j] as int].realized is Some);
        assert(node_buf(ns2[it.inputs[j] as int]) == node_buf(ns1[it.inputs[j] as int]));
    }
    assert(ns1[it.dst as int].realized is Some);
    assert(node_buf(ns2[it.dst as int]) == node_buf(ns1[it.dst as int]));
    assert(item_result_witness(ns2, it, ends, bufs0, bufs1));
}

/// Compiled kernels of one device, keyed by structural identity. A hit skips
/// compilation entirely; a key collision with mismatched content is the
/// non-recoverable `InternalInvariantViolation`.
pub struct KernelCache<D: Device> {
    pub hashes: Vec<u64>,
    pub kernels: Vec<Kernel>,
    pub funcs: Vec<D::Func>,
}

/// The position of the first entry filed under hash `h` at or after `i`;
/// the length when none is.
pub open spec fn first_hash_match_from(hashes: Seq<u64>, h: u64, i: int) -> int
    decreases hashes.len() - i,
{
    if i < 0 || i >= hashes.len() {
        hashes.len() as int
    } else if hashes[i] == h {
        i
    } else {
        first_hash_match_from(hashes, h, i + 1)
    }
}

/// The position of the first entry filed under hash `h`, or the length.
pub open spec fn first_hash_match(hashes: Seq<u64>, h: u64) -> int {
    first_hash_match_from(hashes, h, 0)
}

impl<D: Device> KernelCache<D> {
    /// Entries are aligned: each func is the compiled, validated image of
    /// its kernel, filed under that kernel's content hash.
    pub open spec fn wf(self) -> bool {
        &&& self.hashes@.len() == self.funcs@.len()
        &&& self.kernels@.len() == self.funcs@.len()
        &&& forall|i: int|
            0 <= i < self.funcs@.len() ==> D::func_args(&self.funcs@[i]) == (
            #[trigger] self.kernels@[i]).args@ && D::func_instrs(&self.funcs@[i])
                == self.kernels@[i].instrs@ && kernel_ok(
                self.kernels@[i].args@,
                self.kernels@[i].instrs@,
                D::func_ends(&self.funcs@[i]),
            ) && self.hashes@[i] == spec_kernel_hash(
                self.kernels@[i].args@,
                self.kernels@[i].instrs@,
            )
    }

    /// An empty cache for one device.
    pub fn new() -> (r: KernelCache<D>)
        ensures
            r.wf(),
            r.funcs@.len() == 0,
    {
        KernelCache { hashes: Vec::new(), kernels: Vec::new(), funcs: Vec::new() }
    }

    /// The compiled object for this kernel: a cache hit reuses it, a miss
    /// compiles and files it, so at most one compilation ever happens per
    /// structural identity. A hit — the first entry under the kernel's
    /// content hash holds this very kernel — makes no device call and is
    /// owed to succeed; that entry holding a different kernel is the
    /// non-recoverable key collision; only on a true miss does the device's
    /// compiler decide, and a compilation failure leaves the cache unchanged.
    #[verifier::loop_isolation(false)]
    pub fn get_or_compile(&mut self, device: &D, kernel: &Kernel) -> (r: Result<usize>)
        requires
            old(self).wf(),
        ensures
            final(self).wf(),
            ({
                let h = spec_kernel_hash(kernel.args@, kernel.instrs@);
                let fm = first_hash_match(old(self).hashes@, h);
                if fm < old(self).hashes@.len() {
                    &&& *final(self) == *old(self)
                    &&& if old(self).kernels@[fm].args@ == kernel.args@ && old(
                        self,
                    ).kernels@[fm].instrs@ == kernel.instrs@ {
                        r == Ok::<usize, Error>(fm as usize)
                    } else {
                        r == Err::<usize, Error>(Error::InternalInvariantViolation)
                    }
                } else {
                    match r {
                        Ok(idx) => idx == old(self).funcs@.len()
                            && final(self).funcs@.len() == old(self).funcs@.len() + 1,
                        Err(e) => (e == Error::CompileError || e == Error::DeviceError)
                            && *final(self) == *old(self),
                    }
                }
            }),
            match r {
                Ok(idx) => idx < final(self).funcs@.len() && final(self).kernels@[idx as int].args@
                    == kernel.args@ && final(self).kernels@[idx as int].instrs@ == kernel.instrs@,
                Err(e) => e == Error::CompileError || e == Error::DeviceError || e
                    == Error::InternalInvariantViolation,
            },
    {
        let h = kernel.structural_hash();
        let n = self.funcs.len();
        let mut i: usize = 0;
        while i < n
            invariant
                0 <= i <= n,
                first_hash_match(self.hashes@, h) == first_hash_match_from(
                    self.hashes@,
                    h,
                    i as int,
                ),
            decreases n - i,
        {
            if self.hashes[i] == h {
                proof {
                    assert(first_hash_match(self.hashes@, h) == i);
                }
                if self.kernels[i].same_kernel(kernel) {
                    return Ok(i);
                } else {
                    return Err(Error::InternalInvariantViolation);
                }
            }
            i = i + 1;
        }
        proof {
            assert(first_hash_match(self.hashes@, h) == self.hashes@.len());
        }
        let f = match device.compile(kernel, None) {
            Ok(f) => f,
            Err(e) => {
                return Err(e);
            },
        };
        let k2 = crate::cpu::clone_kernel(kernel);
        self.hashes.push(h);
        self.kernels.push(k2);
        self.funcs.push(f);
        Ok(n)
    }

    /// The compiled object filed at `idx`.
    pub fn func_at(&self, idx: usize) -> (f: &D::Func)
        requires
            self.wf(),
            idx < self.funcs@.len(),
        ensures
            f == &self.funcs@[idx as int],
    {
        &self.funcs[idx]
    }
}

impl<D: Device> Graph<D> {
    /// Realizes the requested roots: schedules, lowers, compiles (through
    /// the cache) and runs every kernel the graph still owes, attaching the
    /// resulting device memory to the nodes. Nodes already realized keep
    /// their status and their shape, type and operation; when the schedule
    /// is empty — as it is when everything was realized before — nothing
    /// changes at all, neither graph nor cache, and no device call is made.
    /// On success every materialized node, the requested roots included,
    /// holds device memory, and every scheduled item's destination holds
    /// exactly what the reference interpreter computes for that item's
    /// lowered kernel on its inputs' data ([`item_result_ok`]).
    #[verifier::loop_isolation(false)]
    #[verifier::rlimit(100)]
    pub fn realize(&mut self, roots: &Vec<usize>, device: &D, cache: &mut KernelCache<D>) -> (r:
        Result<()>)
        requires
            old(self).wf(),
            old(cache).wf(),
        ensures
            final(self).wf(),
            final(cache).wf(),
            final(self).nodes@.len() == old(self).nodes@.len(),
            forall|i: int|
                0 <= i < old(self).nodes@.len() ==> (#[trigger] final(self).spec_nodes()[i]).op
                    == old(self).spec_nodes()[i].op && final(self).spec_nodes()[i].dtype == old(
                    self,
                ).spec_nodes()[i].dtype && final(self).spec_nodes()[i].dims == old(
                    self,
                ).spec_nodes()[i].dims,
            forall|i: int|
                0 <= i < old(self).nodes@.len() && old(self).spec_nodes()[i].realized ==> (
                #[trigger] final(self).spec_nodes()[i]).realized,
            spec_schedule(nodes_v(old(self).nodes@), roots@).len() == 0 ==> r
                == Ok::<(), Error>(()) && final(self).nodes@ == old(self).nodes@ && *final(cache)
                == *old(cache),
            r is Err ==> (r == Err::<(), Error>(Error::LoweringError) || r == Err::<(), Error>(
                Error::CompileError,
            ) || r == Err::<(), Error>(Error::DeviceError) || r == Err::<(), Error>(
                Error::InternalInvariantViolation,
            )),
            r is Ok ==> forall|i: int|
                0 <= i < final(self).nodes@.len() && materialized(
                    nodes_v(final(self).nodes@),
                    roots@,
                    i,
                ) ==> (#[trigger] final(self).spec_nodes()[i]).realized,
            r is Ok ==> forall|t: int|
                0 <= t < spec_schedule(nodes_v(old(self).nodes@), roots@).len()
                    ==> #[trigger] item_result_ok(
                    final(self).nodes@,
                    spec_schedule(nodes_v(old(self).nodes@), roots@)[t],
                ),
    {
        let sched = schedule(&*self, roots);
        let n_items = sched.items.len();
        let mut idx: usize = 0;
        while idx < n_items
            invariant
                0 <= idx <= n_items,
                self.wf(),
                cache.wf(),
                self.nodes@.len() == old(self).nodes@.len(),
                forall|i: int|
                    0 <= i < old(self).nodes@.len() ==> (#[trigger] self.spec_nodes()[i]).op == old(
                        self,
                    ).spec_nodes()[i].op && self.spec_nodes()[i].dtype == old(
                        self,
                    ).spec_nodes()[i].dtype && self.spec_nodes()[i].dims == old(
                        self,
                    ).spec_nodes()[i].dims,
                forall|i: int|
                    0 <= i < old(self).nodes@.len() && old(self).spec_nodes()[i].realized ==> (
                    #[trigger] self.spec_nodes()[i]).realized,
                n_items == 0 ==> self.nodes@ == old(self).nodes@ && *cache == *old(cache),
                forall|t: int|
                    0 <= t < idx ==> #[trigger] item_result_ok(self.nodes@, sched@[t]),
            decreases n_items - idx,
        {
            let item = &sched.items[idx];
            let kernel = match lower(item) {
                Ok(k) => k,
                Err(e) => {
                    return Err(e);
                },
            };
            let fidx = match cache.get_or_compile(device, &kernel) {
                Ok(i) => i,
                Err(e) => {
                    return Err(e);
                },
            };
            let dst_len = kernel.args[0].len;
            let dst_slice = match device.allocate_uninit(item.dtype, dst_len) {
                Ok(s) => s,
                Err(e) => {
                    return Err(e);
                },
            };
            let n = self.nodes.len();
            if item.dst >= n {
                return Err(Error::InternalInvariantViolation);
            }
            if self.nodes[item.dst].realized.is_some() {
                return Err(Error::InternalInvariantViolation);
            }
            // inputs must be distinct realized nodes other than the output
            let n_in = item.inputs.len();
            let mut t: usize = 0;
            while t < n_in
                invariant
                    0 <= t <= n_in,
                    forall|j: int|
                        0 <= j < t ==> item.inputs@[j] < n && item.inputs@[j] != item.dst
                            && self.spec_nodes()[item.inputs@[j] as int].realized,
                    forall|j: int, j2: int|
                        0 <= j < j2 < t ==> item.inputs@[j] != item.inputs@[j2],
                decreases n_in - t,
            {
                let id = item.inputs[t];
                if id >= n || id == item.dst {
                    return Err(Error::InternalInvariantViolation);
                }
                if self.nodes[id].realized.is_none() {
                    return Err(Error::InternalInvariantViolation);
                }
                let mut j: usize = 0;
                while j < t
                    invariant
                        0 <= j <= t,
                        id == item.inputs@[t as int],
                        forall|j2: int| 0 <= j2 < j ==> item.inputs@[j2] != id,
                    decreases t - j,
                {
                    if item.inputs[j] == id {
                        return Err(Error::InternalInvariantViolation);
                    }
                    j = j + 1;
                }
                t = t + 1;
            }
            // move the argument slices into the launch vector: output first
            let ghost pre_nodes = self.nodes@;
            let mut argv: Vec<D::Slice> = Vec::new();
            argv.push(dst_slice);
            let mut t: usize = 0;
            while t < n_in
                invariant
                    0 <= t <= n_in,
                    self.nodes@.len() == n,
                    argv@.len() == 1 + t,
                    forall|i: int|
                        0 <= i < n && !(exists|j: int|
                            0 <= j < t && item.inputs@[j] == i) ==> self.nodes@[i] == pre_nodes[i],
                    forall|j: int|
                        0 <= j < t ==> (#[trigger] self.nodes@[item.inputs@[j] as int]).realized
                            is None,
                    forall|j: int|
                        0 <= j < t ==> pre_nodes[item.inputs@[j] as int].realized == Some(
                            argv@[1 + j],
                        ),
                    forall|i: int|
                        0 <= i < n ==> (#[trigger] self.nodes@[i]).op == pre_nodes[i].op
                            && self.nodes@[i].dtype == pre_nodes[i].dtype && self.nodes@[i].shape@
                            == pre_nodes[i].shape@,
                decreases n_in - t,
            {
                let id = item.inputs[t];
                proof {
                    assert(self.nodes@[id as int] == pre_nodes[id as int]);
                }
                let s = self.nodes[id].realized.take();
                let s = match s {
                    Some(s) => s,
                    None => {
                        proof {
                            assert(false);
                        }
                        return Err(Error::InternalInvariantViolation);
                    },
                };
                argv.push(s);
                t = t + 1;
            }
            let ghost argv0 = argv@;
            let rres = device.run(cache.func_at(fidx), &mut argv);
            let ghost argv1 = argv@;
            // hand the input slices back to their nodes, last first
            let mut t: usize = n_in;
            while t > 0
                invariant
                    0 <= t <= n_in,
                    self.nodes@.len() == n,
                    argv@ == argv1.subrange(0, 1 + t),
                    forall|i: int|
                        0 <= i < n && !(exists|j: int|
                            0 <= j < n_in && item.inputs@[j] == i) ==> self.nodes@[i]
                            == pre_nodes[i],
                    forall|j: int|
                        0 <= j < t ==> (#[trigger] self.nodes@[item.inputs@[j] as int]).realized
                            is None,
                    forall|j: int|
                        t <= j < n_in ==> (#[trigger] self.nodes@[item.inputs@[j] as int]).realized
                            == Some(argv1[1 + j]),
                    forall|i: int|
                        0 <= i < n ==> (#[trigger] self.nodes@[i]).op == pre_nodes[i].op
                            && self.nodes@[i].dtype == pre_nodes[i].dtype && self.nodes@[i].shape@
                            == pre_nodes[i].shape@,
                decreases t,
            {
                let s = match argv.pop() {
                    Some(s) => s,
                    None => {
                        proof {
                            assert(false);
                        }
                        return Err(Error::InternalInvariantViolation);
                    },
                };
                let id = item.inputs[t - 1];
                self.nodes[id].realized = Some(s);
                t = t - 1;
            }
            if let Err(e) = rres {
                proof {
                    lemma_wf_realized_change(pre_nodes, self.nodes@);
                }
            proof {
                assert forall|i: int| 0 <= i < old(self).nodes@.len() implies (
                #[trigger] self.spec_nodes()[i]).op == old(self).spec_nodes()[i].op
                    && self.spec_nodes()[i].dtype == old(self).spec_nodes()[i].dtype
                    && self.spec_nodes()[i].dims == old(self).spec_nodes()[i].dims by {
                    assert(self.spec_nodes()[i] == self.nodes@[i]@);
                    assert(nodes_v(pre_nodes)[i] == pre_nodes[i]@);
                }
                assert forall|i: int|
                    0 <= i < old(self).nodes@.len() && old(self).spec_nodes()[i].realized implies (
                #[trigger] self.spec_nodes()[i]).realized by {
                    assert(self.spec_nodes()[i] == self.nodes@[i]@);
                    assert(nodes_v(pre_nodes)[i] == pre_nodes[i]@);
                }
            }
                return Err(e);
            }
            let dsts = match argv.pop() {
                Some(s) => s,
                None => {
                    proof {
                        assert(false);
                    }
                    return Err(Error::InternalInvariantViolation);
                },
            };
            self.nodes[item.dst].realized = Some(dsts);
            proof {
                lemma_wf_realized_change(pre_nodes, self.nodes@);
                // the executed item's destination now holds its kernel's outcome
                let it_v = sched@[idx as int];
                let ends_w = D::func_ends(&cache.funcs@[fidx as int]);
                let bufs0 = slices_v(argv0);
                let bufs1 = slices_v(argv1);
                assert(kernel.args@ == spec_lower_args(it_v));
                assert(kernel.instrs@ == spec_lower_instrs(it_v));
                assert(kernel_ok(spec_lower_args(it_v), spec_lower_instrs(it_v), ends_w));
                assert(D::func_args(&cache.funcs@[fidx as int]) == spec_lower_args(it_v));
                assert(D::func_instrs(&cache.funcs@[fidx as int]) == spec_lower_instrs(it_v));
                assert(spec_interp(spec_lower_args(it_v), spec_lower_instrs(it_v), ends_w, bufs0)
                    == Some(bufs1));
                crate::lower::lemma_spec_lower_writes_only_output(it_v);
                crate::interpreter::lemma_interp_preserves_inputs(
                    spec_lower_args(it_v),
                    spec_lower_instrs(it_v),
                    ends_w,
                    bufs0,
                    bufs1,
                );
                assert(bufs0.len() == 1 + n_in);
                assert(bufs0[0] == (BufV { dtype: argv0[0].spec_dtype(), data: argv0[0].spec_data() }));
                assert(bufs0[0].dtype == it_v.dtype);
                assert(bufs0[0].data.len() == crate::layout::prod(it_v.dst_dims));
                assert(self.nodes@[item.dst as int].realized == Some(argv1[0]));
                assert(bufs1[0] == (BufV { dtype: argv1[0].spec_dtype(), data: argv1[0].spec_data() }));
                assert(node_buf(self.nodes@[item.dst as int]).data == bufs1[0].data);
                assert(argv1[0].spec_dtype() == argv0[0].spec_dtype());
                assert forall|j: int|
                    0 <= j < it_v.inputs.len() implies it_v.inputs[j] < self.nodes@.len() && (
                #[trigger] self.nodes@[it_v.inputs[j] as int]).realized is Some && bufs0[j + 1]
                    == node_buf(self.nodes@[it_v.inputs[j] as int]) by {
                    assert(self.nodes@[it_v.inputs[j] as int].realized == Some(argv1[1 + j]));
                    assert(bufs1[j + 1] == (BufV {
                        dtype: argv1[1 + j].spec_dtype(),
                        data: argv1[1 + j].spec_data(),
                    }));
                    assert(bufs1[j + 1] == bufs0[j + 1]);
                }
                assert(item_result_witness(self.nodes@, it_v, ends_w, bufs0, bufs1));
                assert(item_result_ok(self.nodes@, it_v));
                // earlier items keep their results: every realized node kept
                // its buffer through this step
                assert forall|i: int|
                    0 <= i < pre_nodes.len() && (#[trigger] pre_nodes[i]).realized
                    is Some implies self.nodes@[i].realized is Some && node_buf(self.nodes@[i])
                    == node_buf(pre_nodes[i]) by {
                    if exists|j: int| 0 <= j < n_in && item.inputs@[j] == i {
                        let j = choose|j: int| 0 <= j < n_in && item.inputs@[j] == i;
                        assert(pre_nodes[i].realized == Some(argv0[1 + j]));
                        assert(self.nodes@[i].realized == Some(argv1[1 + j]));
                        assert(bufs0[j + 1] == (BufV {
                            dtype: argv0[1 + j].spec_dtype(),
                            data: argv0[1 + j].spec_data(),
                        }));
                        assert(bufs1[j + 1] == (BufV {
                            dtype: argv1[1 + j].spec_dtype(),
                            data: argv1[1 + j].spec_data(),
                        }));
                        assert(bufs1[j + 1] == bufs0[j + 1]);
                    } else {
                        if i != item.dst {
                            assert(self.nodes@[i] == pre_nodes[i]);
                        }
                    }
                }
                assert forall|t2: int| 0 <= t2 < idx implies #[trigger] item_result_ok(
                    self.nodes@,
                    sched@[t2],
                ) by {
                    lemma_item_result_stable(pre_nodes, self.nodes@, sched@[t2]);
                }
            }
            proof {
                assert forall|i: int| 0 <= i < old(self).nodes@.len() implies (
                #[trigger] self.spec_nodes()[i]).op == old(self).spec_nodes()[i].op
                    && self.spec_nodes()[i].dtype == old(self).spec_nodes()[i].dtype
                    && self.spec_nodes()[i].dims == old(self).spec_nodes()[i].dims by {
                    assert(self.spec_nodes()[i] == self.nodes@[i]@);
                    assert(nodes_v(pre_nodes)[i] == pre_nodes[i]@);
                }
                assert forall|i: int|
                    0 <= i < old(self).nodes@.len() && old(self).spec_nodes()[i].realized implies (
                #[trigger] self.spec_nodes()[i]).realized by {
                    assert(self.spec_nodes()[i] == self.nodes@[i]@);
                    assert(nodes_v(pre_nodes)[i] == pre_nodes[i]@);
                }
            }
            idx = idx + 1;
        }
        // every materialized node must now hold device memory
        let n = self.nodes.len();
        let mut i: usize = 0;
        while i < n
            invariant
                0 <= i <= n,
                forall|j: int|
                    0 <= j < i ==> materialized(nodes_v(self.nodes@), roots@, j) ==> (
                    #[trigger] self.spec_nodes()[j]).realized,
            decreases n - i,
        {
            let mat = crate::schedule::is_materialized_pub(&*self, roots, i);
            if mat && self.nodes[i].realized.is_none() {
                proof {
                    if spec_schedule(nodes_v(old(self).nodes@), roots@).len() == 0 {
                        assert(self.nodes@ == old(self).nodes@);
                        assert(emits(nodes_v(self.nodes@), roots@, i as int));
                        lemma_emits_nonempty(nodes_v(self.nodes@), roots@, i as int);
                    }
                }
                return Err(Error::InternalInvariantViolation);
            }
            i = i + 1;
        }
        Ok(())
    }
}

/// The schedule grows monotonically with the prefix of nodes considered.
proof fn lemma_items_upto_monotone(nodes: Seq<NodeV>, roots: Seq<usize>, m: int, n: int)
    requires
        0 <= m <= n,
    ensures
        crate::schedule::items_upto(nodes, roots, n).len() >= crate::schedule::items_upto(
            nodes,
            roots,
            m,
        ).len(),
    decreases n - m,
{
    if m < n {
        lemma_items_upto_monotone(nodes, roots, m, n - 1);
    }
}

/// A node that emits puts at least one item into the schedule.
proof fn lemma_emits_nonempty(nodes: Seq<NodeV>, roots: Seq<usize>, i: int)
    requires
        0 <= i < nodes.len(),
        emits(nodes, roots, i),
    ensures
        spec_schedule(nodes, roots).len() > 0,
{
    assert(crate::schedule::items_upto(nodes, roots, i + 1).len() >= 1);
    lemma_items_upto_monotone(nodes, roots, i + 1, nodes.len() as int);
}

/// A graph whose nodes changed only in their realized status — none losing
/// it where consistency needs it — is still well-formed.
proof fn lemma_wf_realized_change<D: Device>(
    pre: Seq<crate::graph::LazyBuffer<D>>,
    cur: Seq<crate::graph::LazyBuffer<D>>,
)
    requires
        graph_wf(nodes_v(pre)),
        cur.len() == pre.len(),
        forall|i: int|
            0 <= i < cur.len() ==> (#[trigger] cur[i]).op == pre[i].op && cur[i].dtype
                == pre[i].dtype && cur[i].shape@ == pre[i].shape@,
        forall|i: int|
            0 <= i < cur.len() && pre[i].realized is Some ==> (#[trigger] cur[i]).realized
                is Some,
    ensures
        graph_wf(nodes_v(cur)),
{
    assert forall|i: int| 0 <= i < nodes_v(cur).len() implies crate::graph::node_ok(
        nodes_v(cur),
        i,
    ) by {
        assert(crate::graph::node_ok(nodes_v(pre), i));
        assert(nodes_v(cur)[i].op == nodes_v(pre)[i].op);
        match nodes_v(pre)[i].op {
            crate::graph::Op::Binary { op, lhs, rhs } => {
                if 0 <= lhs < i && 0 <= rhs < i {
                    assert(nodes_v(cur)[lhs as int].dims == nodes_v(pre)[lhs as int].dims);
                    assert(nodes_v(cur)[rhs as int].dims == nodes_v(pre)[rhs as int].dims);
                }
            },
            crate::graph::Op::Reduce { rop, axis, src } => {
                if 0 <= src < i {
                    assert(nodes_v(cur)[src as int].dims == nodes_v(pre)[src as int].dims);
                }
            },
            crate::graph::Op::Matmul { lhs, rhs } => {
                if 0 <= lhs < i && 0 <= rhs < i {
                    assert(nodes_v(cur)[lhs as int].dims == nodes_v(pre)[lhs as int].dims);
                    assert(nodes_v(cur)[rhs as int].dims == nodes_v(pre)[rhs as int].dims);
                }
            },
            crate::graph::Op::Reshape { src } => {
                if 0 <= src < i {
                    assert(nodes_v(cur)[src as int].dims == nodes_v(pre)[src as int].dims);
                }
            },
            _ => {},
        }
    }
}

/// A graph all of whose materialized nodes are already realized — as after a
/// successful realization of the same roots — schedules no work at all:
/// re-realizing is free and returns the cached memory untouched.
pub proof fn lemma_realized_schedule_empty(nodes: Seq<NodeV>, roots: Seq<usize>)
    requires
        forall|i: int|
            0 <= i < nodes.len() && materialized(nodes, roots, i) ==> (#[trigger] nodes[i]).realized,
    ensures
        spec_schedule(nodes, roots).len() == 0,
{
    lemma_items_upto_empty(nodes, roots, nodes.len() as int);
}

proof fn lemma_items_upto_empty(nodes: Seq<NodeV>, roots: Seq<usize>, n: int)
    requires
        n <= nodes.len(),
        forall|i: int|
            0 <= i < nodes.len() && materialized(nodes, roots, i) ==> (#[trigger] nodes[i]).realized,
    ensures
        crate::schedule::items_upto(nodes, roots, n).len() == 0,
    decreases n,
{
    if n > 0 {
        lemma_items_upto_empty(nodes, roots, n - 1);
        assert(!emits(nodes, roots, n - 1));
    }
}

} // verus!
