use reinfer_cuda::buffer::{DeviceBuffer, DeviceId};
use reinfer_cuda::fused::{encode_table, FusedDecodeKernels, PlanRow};
use reinfer_cuda::gemm::{
    ComputeType, DataType, Gemm, GemmPlan, GpuMat, Jgemm, PartialsNeed, Transpose,
};
use reinfer_cuda::launch::{CudaStream, Kernel, Queue};
use reinfer_cuda::load::step_sizes;
use reinfer_cuda::model::{LayerWeights, LlamaConfig, StepBuffers};
use reinfer_cuda::plans::DecodeGemmPlans;
use reinfer_cuda::prefill::gemm1r;

const ST: CudaStream = CudaStream { dev: 0, handle: 3 };

#[test]
fn shapes_of_one_row_products() {
    let j = Jgemm::new(0);
    assert_eq!(j.shape(1024, 1024), (4, 24));
    assert_eq!(j.shape(2048, 1024), (8, 12));
    assert_eq!(j.shape(3072, 1024), (12, 8));
    assert_eq!(j.shape(1024, 3072), (4, 48));
    assert_eq!(j.shape(151936, 1024), (594, 1));
    // at most one slab per 32 positions, at least one
    assert_eq!(j.shape(256, 64), (1, 2));
    assert_eq!(j.shape(256, 16), (1, 1));
    assert_eq!(j.shape(1, 1), (1, 1));
}

#[test]
fn served_plans_run_in_two_phases() {
    let j = Jgemm::new(0);
    let p = GemmPlan::row_major_f16(1, 2, 3, 1, 1024, 1024);
    assert!(j.matches(&p));
    assert!(!j.matches(&GemmPlan::row_major_f16(1, 2, 3, 2, 1024, 1024)));
    assert!(!j.matches(&GemmPlan::row_major_f32(1, 2, 3, 1, 1024, 1024)));
    assert!(!j.matches(&GemmPlan::col_major_swap_f16(1, 2, 3, 1, 1024, 1024)));
    let (a, b) = j.launch(&ST, &p, 0x700);
    assert_eq!(a.kernel, Kernel::GemvM1);
    assert_eq!((a.grid.x, a.block.x), (96, 256));
    assert_eq!(a.args, vec![1, 2, 0x700, 1024, 1024, 24]);
    assert_eq!(b.kernel, Kernel::GemvM1Reduce);
    assert_eq!(b.grid.x, 4);
    assert_eq!(b.args, vec![0x700, 3, 1024, 24]);
}

#[test]
fn batches_keep_the_shape_of_single_rows() {
    let j = Jgemm::new(0);
    let (a, b) = j.launch_batch(&ST, 1, 2, 3, 4, 1024, 1024, 0x700);
    assert_eq!((a.kernel, b.kernel), (Kernel::GemvMb, Kernel::GemvMbReduce));
    assert_eq!((a.grid.x, b.grid.x), (4 * 96, 4 * 4));
    assert_eq!(a.args, vec![1, 2, 0x700, 4, 1024, 1024, 24]);
    assert_eq!(b.args, vec![0x700, 3, 4, 1024, 24]);
}

#[test]
fn partial_sums_only_grow() {
    let mut j = Jgemm::new(0);
    assert_eq!(j.ensure_partials(1024, 24), PartialsNeed::Grow(98304));
    j.grown(98304, 0x900);
    assert_eq!(j.ensure_partials(1024, 24), PartialsNeed::Ready(0x900));
    assert_eq!(j.ensure_partials(1024, 12), PartialsNeed::Ready(0x900));
    assert_eq!(j.ensure_partials(1024, 48), PartialsNeed::Grow(196608));
}

#[test]
fn calls_of_plans() {
    let g = Gemm::new(1);
    assert_eq!(g.device(), 1);
    let c = g.execute(&ST, &GemmPlan::row_major_f16(1, 2, 3, 4, 5, 6));
    assert_eq!((c.m, c.n, c.k), (4, 5, 6));
    assert_eq!(c.a, GpuMat { ptr: 1, dtype: DataType::F16, ld: 6 });
    assert_eq!(c.b, GpuMat { ptr: 2, dtype: DataType::F16, ld: 5 });
    assert_eq!(c.c, GpuMat { ptr: 3, dtype: DataType::F32, ld: 4 });
    assert_eq!((c.trans_a, c.trans_b), (Transpose::T, Transpose::T));
    assert_eq!((c.alpha_bits, c.beta_bits), (1.0f32.to_bits(), 0));
    let f = g.gemm_f16_16acc(&ST, 1, 1, 1, &c.a, &c.b, &c.c, 1.0f32.to_bits(), 0.5f32.to_bits());
    assert_eq!(f.compute, ComputeType::F16);
    assert_eq!((f.alpha_bits, f.beta_bits), (0x3c00, 0x3800));
}

#[test]
fn row_major_results_swap_the_operands() {
    let on = Queue { dev: 0, stream: ST };
    let c = gemm1r(on, 10, 20, 7, 96, 64, 30);
    assert_eq!((c.m, c.n, c.k), (96, 7, 64));
    assert_eq!(c.a, GpuMat { ptr: 20, dtype: DataType::F16, ld: 96 });
    assert_eq!(c.b, GpuMat { ptr: 10, dtype: DataType::F16, ld: 64 });
    assert_eq!(c.c, GpuMat { ptr: 30, dtype: DataType::F32, ld: 96 });
    assert_eq!((c.trans_a, c.trans_b), (Transpose::N, Transpose::N));
}

fn buf(ptr: u64) -> DeviceBuffer {
    DeviceBuffer { dev: DeviceId::new(0), ptr, len: 4096 }
}

fn cfg() -> LlamaConfig {
    LlamaConfig {
        hidden_size: 1024,
        q_heads: 16,
        kv_heads: 8,
        head_dim: 128,
        ffn_hidden: 3072,
        vocab_size: 151936,
        n_layer: 1,
        rms_eps: 1,
        rope_theta: 2,
        q_scale: 3,
        head_norm: false,
    }
}

fn buffers() -> StepBuffers {
    StepBuffers {
        pages: buf(1),
        lens: buf(2),
        x: buf(3),
        xn: buf(4),
        q: buf(5),
        k: buf(6),
        v: buf(7),
        attn: buf(8),
        down: buf(9),
        x32: buf(10),
        xn32: buf(11),
        attn32: buf(12),
        c_q: buf(13),
        c_k: buf(14),
        c_v: buf(15),
        c_o: buf(16),
        c_g: buf(17),
        c_u: buf(18),
        c_d: buf(19),
        logits: buf(20),
        scores: buf(21),
    }
}

fn layer() -> LayerWeights {
    LayerWeights {
        attn_norm: buf(101),
        q_proj: buf(102),
        k_proj: buf(103),
        v_proj: buf(104),
        qkv_proj: None,
        o_proj: buf(105),
        q_norm: None,
        k_norm: None,
        ffn_norm: buf(106),
        gate_proj: buf(107),
        up_proj: buf(108),
        down_proj: buf(109),
    }
}

#[test]
fn plans_of_both_tiers() {
    let layers = vec![layer()];
    let p = DecodeGemmPlans::build(&cfg(), &buffers(), &layers, &buf(200), false);
    let l = &p.layers[0];
    assert_eq!(l.q, GemmPlan::row_major_f16(4, 102, 13, 1, 2048, 1024));
    assert_eq!(l.k, GemmPlan::row_major_f16(4, 103, 14, 1, 1024, 1024));
    assert_eq!(l.o, GemmPlan::row_major_f16(8, 105, 16, 1, 1024, 2048));
    assert_eq!(l.down, GemmPlan::row_major_f16(9, 109, 19, 1, 1024, 3072));
    assert_eq!(p.lm_head, GemmPlan::row_major_f16(4, 200, 20, 1, 151936, 1024));
    let f = DecodeGemmPlans::build(&cfg(), &buffers(), &layers, &buf(200), true);
    let l = &f.layers[0];
    assert_eq!(l.q, GemmPlan::row_major_f32(11, 102, 13, 1, 2048, 1024));
    // the gated row stays where its first product left it
    assert_eq!(l.down, GemmPlan::row_major_f32(17, 109, 16, 1, 1024, 3072));
    assert_eq!(f.lm_head, GemmPlan::row_major_f32(11, 200, 20, 1, 151936, 1024));
    // the widest need is the output head's: one slab of the vocabulary
    let j = Jgemm::new(0);
    assert_eq!(p.partials_need(&j), 151936 * 4);
    assert_eq!(f.partials_need(&j), 0);
}

#[test]
fn products_of_a_step_stay_in_its_buffers() {
    let (c, b) = (cfg(), buffers());
    let z = step_sizes(&c, 64);
    let half = [(b.xn.ptr, z.xn), (b.attn.ptr, z.attn), (b.down.ptr, z.down)];
    let single = [(b.xn32.ptr, z.xn32), (b.attn32.ptr, z.attn32), (b.c_g.ptr, z.c_g)];
    let results = [
        (b.c_q.ptr, z.c_q),
        (b.c_k.ptr, z.c_k),
        (b.c_v.ptr, z.c_v),
        (b.c_o.ptr, z.c_o),
        (b.c_g.ptr, z.c_g),
        (b.c_u.ptr, z.c_u),
        (b.c_d.ptr, z.c_d),
        (b.logits.ptr, z.logits),
    ];
    let len = |of: &[(u64, usize)], ptr: u64| of.iter().find(|(p, _)| *p == ptr).unwrap().1;
    for parity in [false, true] {
        let p = DecodeGemmPlans::build(&c, &b, &vec![layer()], &buf(5), parity);
        let l = p.layers[0];
        for g in [l.q, l.k, l.v, l.o, l.gate, l.up, l.down, p.lm_head] {
            let (m, n, k) = (g.m as usize, g.n as usize, g.k as usize);
            if parity {
                assert_eq!(len(&single, g.a), m * k * 4);
            } else {
                assert_eq!(len(&half, g.a), m * k * 2);
            }
            assert_eq!(len(&results, g.c), m * n * 4);
        }
    }
}

#[test]
fn fused_tables_lay_the_products_out() {
    let layers = vec![layer()];
    let p = DecodeGemmPlans::build(&cfg(), &buffers(), &layers, &buf(200), false);
    let j = Jgemm::new(0);
    let sizes = FusedDecodeKernels::plan_sizes(&j, &p).unwrap();
    // q, k, v, o, gate, up, down and the output head, in elements
    let want = 2048 * 12 + 1024 * 24 + 1024 * 24 + 1024 * 24 + 3072 * 8 + 3072 * 8 + 1024 * 48
        + 151936;
    assert_eq!(sizes.partials, want * 4);
    assert_eq!(sizes.tables, 8 * 40);
    let mut f = FusedDecodeKernels::new(0);
    let rows = f.build_plans(&j, &p, 0x1000, 0x2000).unwrap();
    assert_eq!(rows.len(), 8);
    assert_eq!((rows[0].a, rows[0].b, rows[0].n, rows[0].k), (4, 102, 2048, 1024));
    assert_eq!((rows[0].partials, rows[0].nslabs, rows[0].col_off), (0x1000, 12, 0));
    // the key's blocks follow the query's 8 x 12
    assert_eq!((rows[1].partials, rows[1].col_off), (0x1000 + 2048 * 12 * 4, 96));
    assert_eq!(rows[2].col_off, 192);
    assert_eq!(f.geom().grid_qkv, vec![288]);
    assert_eq!(encode_table(&rows).len(), 320);
    let bytes = encode_table(&vec![PlanRow {
        a: 1,
        b: 2,
        partials: 3,
        n: 4,
        k: -1,
        nslabs: 6,
        col_off: 7,
    }]);
    let mut want = Vec::new();
    for w in [1u64, 2, 3] {
        want.extend(w.to_le_bytes());
    }
    for w in [4i32, -1, 6, 7] {
        want.extend(w.to_le_bytes());
    }
    assert_eq!(bytes, want);
}
