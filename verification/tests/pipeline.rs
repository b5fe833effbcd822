//! End-to-end checks of the compiler pipeline on the CPU backend.

use ug::cpu::{CpuDevice, CpuSlice};
use ug::graph::{Graph, ReduceOp};
use ug::realize::KernelCache;
use ug::scalar::{BinaryOp, Const, F16, F32, BF16, WithDType};
use ug::{DType, Device, Error, Layout, Shape, Slice};

fn cpu_slice_from<DT: WithDType>(device: &CpuDevice, data: &Vec<DT>) -> CpuSlice {
    let mut s = device.allocate_uninit(DT::dtype(), data.len()).unwrap();
    s.copy_host_to_device(data).unwrap();
    s
}

#[test]
fn elementwise_add_f32_vectors() {
    let device = CpuDevice;
    let mut cache: KernelCache<CpuDevice> = KernelCache::new();
    let mut g: Graph<CpuDevice> = Graph::new();
    let ones: Vec<F32> = vec![F32(1.0f32.to_bits()); 1024];
    let twos: Vec<F32> = vec![F32(2.0f32.to_bits()); 1024];
    let shape = Shape::new(vec![1024]).unwrap();
    let a = g
        .load(cpu_slice_from(&device, &ones), shape.clone_shape())
        .unwrap();
    let b = g.load(cpu_slice_from(&device, &twos), shape).unwrap();
    let c = g.binary(BinaryOp::Add, a, b).unwrap();
    g.realize(&vec![c], &device, &mut cache).unwrap();
    let out: Vec<F32> = g.nodes[c].realized.as_ref().unwrap().to_vec().unwrap();
    assert_eq!(out.len(), 1024);
    for v in out {
        assert_eq!(v.0, 3.0f32.to_bits());
    }
}

#[test]
fn sum_reduction_of_all_ones_matrix() {
    let device = CpuDevice;
    let mut cache: KernelCache<CpuDevice> = KernelCache::new();
    let mut g: Graph<CpuDevice> = Graph::new();
    let ones: Vec<F32> = vec![F32(1.0f32.to_bits()); 16];
    let shape = Shape::new(vec![4, 4]).unwrap();
    let a = g.load(cpu_slice_from(&device, &ones), shape).unwrap();
    let rows = g.reduce(ReduceOp::Sum, 0, a).unwrap();
    let total = g.reduce(ReduceOp::Sum, 0, rows).unwrap();
    g.realize(&vec![total], &device, &mut cache).unwrap();
    let out: Vec<F32> = g.nodes[total].realized.as_ref().unwrap().to_vec().unwrap();
    assert_eq!(out.len(), 1);
    assert_eq!(out[0].0, 16.0f32.to_bits());
}

#[test]
fn matmul_generated_kernel_and_fast_path_agree() {
    let device = CpuDevice;
    let mut cache: KernelCache<CpuDevice> = KernelCache::new();
    let mut g: Graph<CpuDevice> = Graph::new();
    let lhs: Vec<i32> = vec![1, 2, 3, 4, 5, 6];
    let rhs: Vec<i32> = vec![7, 8, 9, 10, 11, 12];
    let a = g
        .load(cpu_slice_from(&device, &lhs), Shape::new(vec![2, 3]).unwrap())
        .unwrap();
    let b = g
        .load(cpu_slice_from(&device, &rhs), Shape::new(vec![3, 2]).unwrap())
        .unwrap();
    let c = g.matmul(a, b).unwrap();
    g.realize(&vec![c], &device, &mut cache).unwrap();
    let generated: Vec<i32> = g.nodes[c].realized.as_ref().unwrap().to_vec().unwrap();
    // [1 2 3; 4 5 6] x [7 8; 9 10; 11 12] = [58 64; 139 154]
    assert_eq!(generated, vec![58, 64, 139, 154]);

    // the vendor-style fast path must agree exactly
    let lhs_s = cpu_slice_from(&device, &lhs);
    let rhs_s = cpu_slice_from(&device, &rhs);
    let mut dst = device.allocate_uninit(DType::I32, 4).unwrap();
    let lhs_l = Layout::contiguous(Shape::new(vec![2, 3]).unwrap());
    let rhs_l = Layout::contiguous(Shape::new(vec![3, 2]).unwrap());
    device
        .matmul(&mut dst, &lhs_s, &rhs_s, (1, 2, 2, 3), &lhs_l, &rhs_l)
        .unwrap();
    let fast: Vec<i32> = dst.to_vec().unwrap();
    assert_eq!(fast, generated);
}

#[test]
fn malformed_reshape_fails_with_shape_error_before_any_allocation() {
    let device = CpuDevice;
    let mut g: Graph<CpuDevice> = Graph::new();
    let data: Vec<i32> = vec![1, 2, 3, 4, 5, 6];
    let a = g
        .load(cpu_slice_from(&device, &data), Shape::new(vec![6]).unwrap())
        .unwrap();
    let before = g.len();
    let r = g.reshape(a, vec![4, 2]);
    assert!(matches!(r, Err(Error::ShapeError)));
    // nothing was recorded, so nothing can ever be scheduled or allocated
    assert_eq!(g.len(), before);
}

#[test]
fn realize_twice_returns_identical_bits_and_compiles_nothing_new() {
    let device = CpuDevice;
    let mut cache: KernelCache<CpuDevice> = KernelCache::new();
    let mut g: Graph<CpuDevice> = Graph::new();
    let xs: Vec<i32> = vec![5, -3, 7, 0];
    let shape = Shape::new(vec![4]).unwrap();
    let a = g.load(cpu_slice_from(&device, &xs), shape.clone_shape()).unwrap();
    let c2 = g.binary(BinaryOp::Mul, a, a).unwrap();
    g.realize(&vec![c2], &device, &mut cache).unwrap();
    let first: Vec<i32> = g.nodes[c2].realized.as_ref().unwrap().to_vec().unwrap();
    let compiled_once = cache.funcs.len();
    g.realize(&vec![c2], &device, &mut cache).unwrap();
    let second: Vec<i32> = g.nodes[c2].realized.as_ref().unwrap().to_vec().unwrap();
    assert_eq!(first, second);
    assert_eq!(first, vec![25, 9, 49, 0]);
    // the second pass had an empty schedule: no new compilation happened
    assert_eq!(cache.funcs.len(), compiled_once);
}

#[test]
fn scheduling_is_deterministic() {
    let device = CpuDevice;
    let mut g: Graph<CpuDevice> = Graph::new();
    let xs: Vec<i32> = vec![1, 2, 3, 4];
    let shape = Shape::new(vec![4]).unwrap();
    let a = g.load(cpu_slice_from(&device, &xs), shape.clone_shape()).unwrap();
    let b = g.constant(Const::of(2i32), shape);
    let c = g.binary(BinaryOp::Mul, a, b).unwrap();
    let d = g.reduce(ReduceOp::Sum, 0, c).unwrap();
    let s1 = ug::schedule::schedule(&g, &vec![d]);
    let s2 = ug::schedule::schedule(&g, &vec![d]);
    assert_eq!(format!("{:?}", s1.items), format!("{:?}", s2.items));
}

#[test]
fn fusion_never_crosses_a_reduction_boundary() {
    let device = CpuDevice;
    let mut g: Graph<CpuDevice> = Graph::new();
    let xs: Vec<i32> = vec![1, 2, 3, 4];
    let shape = Shape::new(vec![4]).unwrap();
    let a = g.load(cpu_slice_from(&device, &xs), shape.clone_shape()).unwrap();
    let b = g.binary(BinaryOp::Add, a, a).unwrap();
    let r = g.reduce(ReduceOp::Sum, 0, b).unwrap();
    let c = g.binary(BinaryOp::Mul, r, r).unwrap();
    let s = ug::schedule::schedule(&g, &vec![c]);
    // three kernels: the pointwise producer, the reduction, the pointwise
    // consumer; the reduction stands alone and reads a materialized buffer
    assert_eq!(s.items.len(), 3);
    assert!(matches!(
        s.items[0].kind,
        ug::schedule::ItemKind::Elementwise { .. }
    ));
    assert!(matches!(s.items[1].kind, ug::schedule::ItemKind::Reduce { .. }));
    assert_eq!(s.items[1].inputs, vec![b]);
    assert!(matches!(
        s.items[2].kind,
        ug::schedule::ItemKind::Elementwise { .. }
    ));
    // and the lowered kernels keep accumulators out of pointwise code
    let k0 = ug::lower::lower(&s.items[0]).unwrap();
    for ins in &k0.instrs {
        assert!(!matches!(ins, ug::lang::Instr::DefineAcc { .. }));
        assert!(!matches!(ins, ug::lang::Instr::Accumulate { .. }));
    }
}

#[test]
fn round_trip_every_dtype() {
    let device = CpuDevice;
    let f16s: Vec<F16> = vec![F16(0x3C00), F16(0x4000), F16(0xFC00)];
    let got: Vec<F16> = cpu_slice_from(&device, &f16s).to_vec().unwrap();
    assert_eq!(got, f16s);
    let bf16s: Vec<BF16> = vec![BF16(0x3F80), BF16(0x4000), BF16(0x0001)];
    let got: Vec<BF16> = cpu_slice_from(&device, &bf16s).to_vec().unwrap();
    assert_eq!(got, bf16s);
    let f32s: Vec<F32> = vec![
        F32(1.5f32.to_bits()),
        F32((-0.0f32).to_bits()),
        F32(f32::NAN.to_bits()),
    ];
    let got: Vec<F32> = cpu_slice_from(&device, &f32s).to_vec().unwrap();
    assert_eq!(got, f32s);
    let i32s: Vec<i32> = vec![i32::MIN, -1, 0, 1, i32::MAX];
    let got: Vec<i32> = cpu_slice_from(&device, &i32s).to_vec().unwrap();
    assert_eq!(got, i32s);
    let i64s: Vec<i64> = vec![i64::MIN, -1, 0, 1, i64::MAX];
    let got: Vec<i64> = cpu_slice_from(&device, &i64s).to_vec().unwrap();
    assert_eq!(got, i64s);
}

#[test]
fn transfer_mismatches_are_rejected() {
    let device = CpuDevice;
    let mut s = device.allocate_uninit(DType::I32, 4).unwrap();
    let too_short: Vec<i32> = vec![1, 2];
    assert!(matches!(
        s.copy_host_to_device(&too_short),
        Err(Error::SizeMismatch { expected: 4, got: 2 })
    ));
    let wrong_type: Vec<i64> = vec![1, 2, 3, 4];
    assert!(matches!(
        s.copy_host_to_device(&wrong_type),
        Err(Error::DTypeMismatch { expected: DType::I32, got: DType::I64 })
    ));
    let ok: Vec<i32> = vec![1, 2, 3, 4];
    s.copy_host_to_device(&ok).unwrap();
    let r: Result<Vec<i64>, Error> = s.to_vec();
    assert!(matches!(
        r,
        Err(Error::DTypeMismatch { expected: DType::I32, got: DType::I64 })
    ));
}

#[test]
fn graph_construction_errors() {
    let device = CpuDevice;
    let mut g: Graph<CpuDevice> = Graph::new();
    let a = g
        .load(
            cpu_slice_from(&device, &vec![1i32, 2, 3, 4]),
            Shape::new(vec![4]).unwrap(),
        )
        .unwrap();
    let b = g
        .load(
            cpu_slice_from(&device, &vec![1i32, 2, 3, 4, 5, 6]),
            Shape::new(vec![2, 3]).unwrap(),
        )
        .unwrap();
    assert!(matches!(
        g.binary(BinaryOp::Add, a, b),
        Err(Error::ShapeError)
    ));
    let c = g
        .load(
            cpu_slice_from(&device, &vec![1i64, 2, 3, 4]),
            Shape::new(vec![4]).unwrap(),
        )
        .unwrap();
    assert!(matches!(
        g.binary(BinaryOp::Add, a, c),
        Err(Error::DTypeError)
    ));
    assert!(matches!(g.reduce(ReduceOp::Sum, 1, a), Err(Error::ShapeError)));
    assert!(matches!(g.matmul(a, b), Err(Error::ShapeError)));
    let d = g
        .load(
            cpu_slice_from(&device, &vec![1i64, 2, 3, 4, 5, 6]),
            Shape::new(vec![3, 2]).unwrap(),
        )
        .unwrap();
    assert!(matches!(g.matmul(b, d), Err(Error::DTypeError)));
}

#[test]
fn float_arithmetic_goes_through_real_rounding() {
    // would fail if any wrapper handed an argument back unchanged
    let one = 1.0f32.to_bits() as u64;
    let two = 2.0f32.to_bits() as u64;
    assert_eq!(
        ug::scalar::eval_binary(BinaryOp::Add, DType::F32, one, two),
        3.0f32.to_bits() as u64
    );
    assert_eq!(
        ug::scalar::eval_binary(BinaryOp::Sub, DType::F32, one, two),
        (-1.0f32).to_bits() as u64
    );
    assert_eq!(
        ug::scalar::eval_binary(BinaryOp::Mul, DType::F32, two, two),
        4.0f32.to_bits() as u64
    );
    // f16: 1.0 = 0x3C00, 2.0 = 0x4000, 3.0 = 0x4200, 6.0 = 0x4600
    assert_eq!(ug::scalar::eval_binary(BinaryOp::Add, DType::F16, 0x3C00, 0x4000), 0x4200);
    assert_eq!(ug::scalar::eval_binary(BinaryOp::Sub, DType::F16, 0x4200, 0x3C00), 0x4000);
    assert_eq!(ug::scalar::eval_binary(BinaryOp::Mul, DType::F16, 0x4000, 0x4200), 0x4600);
    // bf16: 1.0 = 0x3F80, 2.0 = 0x4000, 3.0 = 0x4040, 6.0 = 0x40C0
    assert_eq!(ug::scalar::eval_binary(BinaryOp::Add, DType::BF16, 0x3F80, 0x4000), 0x4040);
    assert_eq!(ug::scalar::eval_binary(BinaryOp::Sub, DType::BF16, 0x4040, 0x3F80), 0x4000);
    assert_eq!(ug::scalar::eval_binary(BinaryOp::Mul, DType::BF16, 0x4000, 0x4040), 0x40C0);
    // integers wrap at their width
    assert_eq!(
        ug::scalar::eval_binary(BinaryOp::Add, DType::I32, i32::MAX as u32 as u64, 1),
        i32::MIN as u32 as u64
    );
}

#[test]
fn matmul_host_exact_integer_product() {
    let lhs: Vec<u64> = vec![1, 2, 3, 4, 5, 6];
    let rhs: Vec<u64> = vec![7, 8, 9, 10, 11, 12];
    let out = ug::matmul::matmul_host(DType::I64, &lhs, &rhs, 1, 2, 2, 3);
    assert_eq!(out, vec![58, 64, 139, 154]);
}

#[test]
fn layout_strides_and_contiguity() {
    let shape = Shape::new(vec![2, 3, 4]).unwrap();
    assert_eq!(shape.num_elements(), 24);
    let l = Layout::contiguous(shape);
    assert_eq!(l.strides, vec![12, 4, 1]);
    assert!(l.is_contiguous());
    let off = Layout {
        shape: Shape::new(vec![2, 3, 4]).unwrap(),
        strides: vec![12, 4, 1],
        offset: 5,
    };
    assert!(!off.is_contiguous());
}

#[test]
fn shape_overflow_is_rejected() {
    assert!(matches!(
        Shape::new(vec![usize::MAX, 3]),
        Err(Error::ShapeError)
    ));
}

#[test]
fn kernel_cache_reuses_identical_kernels() {
    let device = CpuDevice;
    let mut cache: KernelCache<CpuDevice> = KernelCache::new();
    for _ in 0..3 {
        let mut g: Graph<CpuDevice> = Graph::new();
        let xs: Vec<i32> = vec![1, 2, 3, 4];
        let shape = Shape::new(vec![4]).unwrap();
        let a = g.load(cpu_slice_from(&device, &xs), shape.clone_shape()).unwrap();
        let b = g.load(cpu_slice_from(&device, &xs), shape).unwrap();
        let c = g.binary(BinaryOp::Add, a, b).unwrap();
        g.realize(&vec![c], &device, &mut cache).unwrap();
        let out: Vec<i32> = g.nodes[c].realized.as_ref().unwrap().to_vec().unwrap();
        assert_eq!(out, vec![2, 4, 6, 8]);
    }
    // one structural identity, compiled exactly once
    assert_eq!(cache.funcs.len(), 1);
}

#[test]
fn matmul_fast_path_validates_before_computing() {
    let device = CpuDevice;
    let lhs: Vec<i32> = vec![1, 2, 3, 4, 5, 6];
    let rhs: Vec<i32> = vec![7, 8, 9, 10, 11, 12];
    let lhs_s = cpu_slice_from(&device, &lhs);
    let rhs_s = cpu_slice_from(&device, &rhs);
    let lhs_l = Layout::contiguous(Shape::new(vec![2, 3]).unwrap());
    let rhs_l = Layout::contiguous(Shape::new(vec![3, 2]).unwrap());
    // element types must agree
    let mut dst64 = device.allocate_uninit(DType::I64, 4).unwrap();
    let wrong = device
        .matmul(&mut dst64, &lhs_s, &rhs_s, (1, 2, 2, 3), &lhs_l, &rhs_l)
        .unwrap_err();
    assert!(matches!(wrong, Error::DTypeError));
    // extents must match the operand lengths
    let mut dst = device.allocate_uninit(DType::I32, 4).unwrap();
    let wrong = device
        .matmul(&mut dst, &lhs_s, &rhs_s, (1, 2, 2, 4), &lhs_l, &rhs_l)
        .unwrap_err();
    assert!(matches!(wrong, Error::ShapeError));
    // a non-contiguous layout is rejected
    let skewed = Layout {
        shape: Shape::new(vec![2, 3]).unwrap(),
        strides: vec![1, 2],
        offset: 0,
    };
    let wrong = device
        .matmul(&mut dst, &lhs_s, &rhs_s, (1, 2, 2, 3), &skewed, &rhs_l)
        .unwrap_err();
    assert!(matches!(wrong, Error::ShapeError));
}

#[test]
fn source_emission_renders_the_loop_nest() {
    let device = CpuDevice;
    let mut g: Graph<CpuDevice> = Graph::new();
    let xs: Vec<i32> = vec![1, 2, 3, 4];
    let shape = Shape::new(vec![4]).unwrap();
    let a = g.load(cpu_slice_from(&device, &xs), shape).unwrap();
    let b = g.binary(BinaryOp::Add, a, a).unwrap();
    let s = ug::schedule::schedule(&g, &vec![b]);
    let k = ug::lower::lower(&s.items[0]).unwrap();
    let c = ug::codegen::cpu_c_source(&k, "kernel_add");
    assert!(c.contains("void kernel_add("));
    assert!(c.contains("for (long long v0 = 0; v0 < 4; v0++) {"));
    assert!(c.contains("a0[v0] ="));
    let cu = ug::codegen::cuda_source(&k, "kernel_add");
    assert!(cu.contains("__global__ void kernel_add("));
    let mt = ug::codegen::metal_source(&k, "kernel_add");
    assert!(mt.contains("kernel void kernel_add("));
    assert!(mt.contains("device int *a0"));
}

#[test]
fn slice_len_and_is_empty() {
    let device = CpuDevice;
    let s = device.allocate_uninit(DType::F32, 0).unwrap();
    assert!(s.is_empty());
    assert_eq!(s.len(), 0);
    let s = device.allocate_uninit(DType::F32, 3).unwrap();
    assert!(!s.is_empty());
    assert_eq!(s.len(), 3);
    assert_eq!(s.dtype(), DType::F32);
    assert!(!CpuDevice::use_grid());
}
