use reinfer_cuda::attention::{mask_causal_inplace, prefill_attention, AttnOp, PrefillScratch};
use reinfer_cuda::buffer::{DeviceBuffer, DeviceId};
use reinfer_cuda::decode::DecodeKernels;
use reinfer_cuda::dense::DenseKernels;
use reinfer_cuda::diff::DiffKernels;
use reinfer_cuda::engine_error::EngineError;
use reinfer_cuda::error::LaunchError;
use reinfer_cuda::fmha::{
    compiled_variants, flash_fwd_params, header_path, FmhaBuffers, FmhaCall, FmhaKernels,
};
use reinfer_cuda::gemm::{ComputeType, Gemm, Transpose};
use reinfer_cuda::launch::{CudaStream, Kernel, Queue, Unit};
use reinfer_cuda::model::{LayerWeights, LlamaConfig, StepBuffers};
use reinfer_cuda::prefill::{
    after_run, check_prompt, first_run, joined_qkv, last_logits, prefill_batch_fmha,
    prefill_fallback, prefill_path, prefill_sizes, token_bytes, AfterRun, PassKernels,
    PrefillBuffers, PrefillCtx, PrefillOp, PrefillPath, PrefillRun, QkvScratch,
};
use reinfer_cuda::prefill_kernels::PrefillKernels;
use reinfer_cuda::ptag::PTag;
use reinfer_cuda::step::{StepCtx, StepKernels};

const ST: CudaStream = CudaStream { dev: 0, handle: 4 };

fn sts(s: &str) -> EngineError {
    EngineError::Sts(s.to_string())
}

#[test]
fn prompts_are_checked_in_order() {
    assert_eq!(prefill_path(0, false), Err(sts("empty prompt")));
    assert_eq!(prefill_path(3, true), Ok(PrefillPath::Steps));
    assert_eq!(prefill_path(3, false), Ok(PrefillPath::Choose));
    let long: Vec<u32> = vec![1; 65];
    assert_eq!(check_prompt(&vec![1, 99, 2], 99, 2, true, true), Err(EngineError::EmbeddingOov(99)));
    assert_eq!(
        check_prompt(&long, 99, 2, false, false),
        Err(sts("prompt 65 tokens needs 3 pages > max_kv pages 2"))
    );
    assert_eq!(check_prompt(&vec![1], 99, 2, false, false), Err(sts("fmha not loaded")));
    assert_eq!(check_prompt(&vec![1], 99, 2, true, false), Err(sts("prefill kernels not loaded")));
    assert_eq!(check_prompt(&vec![1; 64], 99, 2, true, true), Ok(()));
}

#[test]
fn a_failed_pass_falls_back_to_steps() {
    assert_eq!(first_run(true), PrefillRun::OnePass);
    assert_eq!(first_run(false), PrefillRun::PerToken);
    assert_eq!(after_run(PrefillRun::OnePass, true), AfterRun::Record);
    assert_eq!(after_run(PrefillRun::OnePass, false), AfterRun::Next(PrefillRun::PerToken));
    assert_eq!(after_run(PrefillRun::PerToken, false), AfterRun::Fail);
    let s = prefill_fallback(&vec![5, 6, 7]);
    let args: Vec<_> = s.iter().map(|a| (a.token, a.pos, a.kv_len)).collect();
    assert_eq!(args, [(5, 0, 1), (6, 1, 2), (7, 2, 3)]);
    assert_eq!(token_bytes(&vec![1, 0x0102_0304]), [1, 0, 0, 0, 4, 3, 2, 1]);
    assert_eq!(last_logits(3, 10), (80, 40));
}

fn cfg() -> LlamaConfig {
    LlamaConfig {
        hidden_size: 1024,
        q_heads: 16,
        kv_heads: 8,
        head_dim: 128,
        ffn_hidden: 3072,
        vocab_size: 1000,
        n_layer: 2,
        rms_eps: 1,
        rope_theta: 2,
        q_scale: 3,
        head_norm: true,
    }
}

fn buf(ptr: u64) -> DeviceBuffer {
    DeviceBuffer { dev: DeviceId::new(0), ptr, len: 4096 }
}

fn step_buffers() -> StepBuffers {
    let b = buf(0x77);
    StepBuffers {
        pages: b,
        lens: b,
        x: b,
        xn: b,
        q: b,
        k: b,
        v: b,
        attn: b,
        down: b,
        x32: b,
        xn32: b,
        attn32: b,
        c_q: b,
        c_k: b,
        c_v: b,
        c_o: b,
        c_g: b,
        c_u: b,
        c_d: b,
        logits: b,
        scores: b,
    }
}

fn buffers(joined: bool) -> PrefillBuffers {
    PrefillBuffers {
        toks: buf(1),
        x: buf(2),
        xn: buf(3),
        q: buf(4),
        k: buf(5),
        v: buf(6),
        o: buf(7),
        oadd: buf(8),
        gate: buf(9),
        up: buf(10),
        down: buf(11),
        l2: buf(12),
        c_qkv: if joined {
            QkvScratch::Joined { qkv: buf(13) }
        } else {
            QkvScratch::Apart { q: buf(14), k: buf(15), v: buf(16) }
        },
        c_o: buf(17),
        c_g: buf(18),
        c_u: buf(19),
        c_d: buf(20),
        logits: buf(21),
        lse: buf(22),
    }
}

fn layer(i: u64) -> LayerWeights {
    let at = |k: u64| buf(1000 * (i + 1) + k);
    LayerWeights {
        attn_norm: at(1),
        q_proj: at(2),
        k_proj: at(3),
        v_proj: at(4),
        qkv_proj: Some(at(5)),
        o_proj: at(6),
        q_norm: Some(at(7)),
        k_norm: Some(at(8)),
        ffn_norm: at(9),
        gate_proj: at(10),
        up_proj: at(11),
        down_proj: at(12),
    }
}

fn pass_ctx(joined: bool, s: usize) -> PrefillCtx {
    let c = StepCtx {
        on: Queue { dev: 0, stream: ST },
        cfg: cfg(),
        b: step_buffers(),
        embed: 0xe0,
        final_norm: 0xf0,
        kv: 0xa0,
        pp: 64,
    };
    PrefillCtx { c, b: buffers(joined), s }
}

fn pass(joined: bool, s: usize) -> Vec<PrefillOp> {
    let x = pass_ctx(joined, s);
    let step = StepKernels {
        dense: DenseKernels::new("sm_90"),
        diff: DiffKernels::new("sm_90", ST),
        decode: DecodeKernels::new("sm_90", ST),
    };
    let rows = PrefillKernels::new("sm_90");
    let k = PassKernels { step: &step, rows: &rows };
    prefill_batch_fmha(&x, &k, &vec![layer(0), layer(1)], 0xbeef).ops
}

fn tags(ops: &[PrefillOp]) -> Vec<&'static str> {
    ops.iter()
        .filter_map(|o| match o {
            PrefillOp::Mark(t) => Some(t.name()),
            _ => None,
        })
        .collect()
}

#[test]
fn a_pass_marks_every_stage() {
    let ops = pass(true, 100);
    let per_layer = [
        "rms_attn", "gemm_qkv", "cast_qkv", "rms_heads_q", "rms_heads_k", "rope_q", "rope_k",
        "scale_q", "fmha", "kv_write", "gemm_o", "cast_o", "add_o", "rms_ffn", "gemm_gate",
        "gemm_up", "cast_gate_up", "swiglu", "gemm_down", "cast_down", "add_d", "layer_boundary",
    ];
    let mut want = vec!["gather"];
    want.extend(per_layer);
    want.extend(per_layer);
    want.extend(["final_rms", "lm_head"]);
    assert_eq!(tags(&ops), want);
    // apart, each projection is marked
    let apart = tags(&pass(false, 100));
    assert_eq!(apart.iter().filter(|t| **t == "gemm_qkv").count(), 6);
    assert_eq!(apart.iter().filter(|t| **t == "cast_qkv").count(), 2);
}

#[test]
fn a_pass_attends_and_writes_every_token() {
    let ops = pass(true, 100);
    let calls: Vec<&FmhaCall> = ops
        .iter()
        .filter_map(|o| match o {
            PrefillOp::Fmha(c) => Some(c),
            _ => None,
        })
        .collect();
    assert_eq!(calls.len(), 2);
    let want = FmhaCall {
        q: 4,
        k: 5,
        v: 6,
        o: 7,
        lse: 22,
        seqlen: 100,
        batch: 1,
        heads: 16,
        kv_heads: 8,
        d: 128,
    };
    assert_eq!(*calls[0], want);
    assert_eq!(calls[0], calls[1]);
    let writes: Vec<_> = ops
        .iter()
        .filter_map(|o| match o {
            PrefillOp::Launch(l) if l.kernel == Kernel::KvWriteSeqRows => Some(l),
            _ => None,
        })
        .collect();
    assert_eq!(writes[0].grid.x, 100 * 4);
    assert_eq!(writes[0].args, vec![5, 6, 0xa0, 100, 32, 8, 128, 0, 128]);
    // the second layer's pages follow the first layer's
    assert_eq!(writes[1].args[7], 64);
    let ropes: Vec<_> = ops
        .iter()
        .filter_map(|o| match o {
            PrefillOp::Launch(l) if l.kernel == Kernel::RopeNeoxRowsF16 => Some(l),
            _ => None,
        })
        .collect();
    // four heads of 64 pairs fill a block
    assert_eq!(ropes[0].grid.x, 400);
    assert_eq!(ropes[0].args, vec![4, 64, 16, 100, 2, 4]);
    match &ops[ops.len() - 2] {
        PrefillOp::Gemm(g) => {
            assert_eq!((g.m, g.n, g.k), (1000, 100, 1024));
            assert_eq!((g.a.ptr, g.b.ptr, g.c.ptr), (0xbeef, 3, 21));
        }
        o => panic!("{o:?}"),
    }
}

#[test]
fn sizes_of_a_pass() {
    let s = prefill_sizes(&cfg(), 129, 128);
    assert_eq!((s.toks, s.x, s.o), (516, 129 * 2048, 129 * 4096));
    assert_eq!((s.c_qkv, s.logits), (129 * 4096 * 4, 129 * 4000));
    // row sums in whole tiles
    assert_eq!(s.lse, 16 * 256 * 4);
    let mut l = layer(0);
    assert!(joined_qkv(&vec![l], false));
    assert!(!joined_qkv(&vec![l], true));
    l.qkv_proj = None;
    assert!(!joined_qkv(&vec![l], false));
    assert!(!joined_qkv(&vec![], false));
}

#[test]
fn prompts_that_a_pass_takes() {
    assert!(pass_ctx(true, 1).fits());
    assert!(pass_ctx(true, 64 * 32).fits());
    assert!(!pass_ctx(true, 64 * 32 + 1).fits());
    assert!(!pass_ctx(true, 0).fits());
    let mut x = pass_ctx(true, 1);
    x.c.cfg.head_dim = 64;
    assert!(!x.fits());
}

#[test]
fn products_of_a_pass_stay_in_its_buffers() {
    let z = prefill_sizes(&cfg(), 129, 128);
    let rows = [(3, z.xn), (7, z.o), (11, z.down)];
    let results = [
        (13, z.c_qkv),
        (14, z.c_q),
        (15, z.c_k),
        (16, z.c_v),
        (17, z.c_o),
        (18, z.c_g),
        (19, z.c_u),
        (20, z.c_d),
        (21, z.logits),
    ];
    let len = |of: &[(u64, usize)], ptr: u64| of.iter().find(|(p, _)| *p == ptr).unwrap().1;
    for (joined, count) in [(true, 2 * 5 + 1), (false, 2 * 7 + 1)] {
        let mut seen = 0;
        for op in pass(joined, 129) {
            if let PrefillOp::Gemm(g) = op {
                // the operands are swapped: the columns of the result are the rows
                let (m, n, k) = (g.n as usize, g.m as usize, g.k as usize);
                assert_eq!(len(&rows, g.b.ptr), m * k * 2);
                assert_eq!(len(&results, g.c.ptr), m * n * 4);
                seen += 1;
            }
        }
        assert_eq!(seen, count);
    }
}

#[test]
fn variants_that_the_device_accepts() {
    let all = compiled_variants();
    let got: Vec<_> = all.iter().map(|v| (v.id, v.block_m, v.threads, v.smem)).collect();
    assert_eq!(
        got,
        [(0, 128, 128, 98304), (1, 128, 256, 98304), (2, 128, 128, 98304), (3, 256, 256, 131072)]
    );
    let k = FmhaKernels::new("sm_120", ST, &vec![true, true, true, false]);
    assert_eq!(k.variants().len(), 3);
    assert_eq!(k.arch(), "sm_120");
    assert_eq!(
        k.pick(256),
        (1, Kernel::Fmha { variant: 1, mn_even: true, k_even: true })
    );
    assert_eq!(
        k.pick(192),
        (1, Kernel::Fmha { variant: 1, mn_even: false, k_even: true })
    );
    assert_eq!(k.block_m(7), 128);
    let one = FmhaKernels::new("sm_120", ST, &vec![false, false, false, true]);
    assert_eq!(one.pick(256).1, Kernel::Fmha { variant: 3, mn_even: true, k_even: true });
    assert_eq!(one.probe_set_max_smem(1), Err(LaunchError::Fatal));
    assert!(one.probe_set_max_smem(0).is_ok());
}

#[test]
fn prompts_are_served_by_number_one_then_zero() {
    let picked = |accepted: [bool; 4]| {
        let mut k = FmhaKernels::new("sm_120", ST, &accepted.to_vec());
        let served = k.serves();
        let plan = k.launch_batched_prefill(0, &call(256, 4));
        assert_eq!(served, plan.is_ok());
        let Ok(plan) = plan else { return None };
        let (i, kernel) = k.pick(256);
        assert_eq!(plan.launch.kernel, kernel);
        assert_eq!(k.block_m(256), k.variants()[i].block_m);
        Some((i, k.variants()[i].id))
    };
    assert_eq!(picked([true, true, true, true]), Some((1, 1)));
    assert_eq!(picked([false, true, true, true]), Some((0, 1)));
    // number 2 is loaded second, but never serves
    assert_eq!(picked([true, false, true, false]), Some((0, 0)));
    assert_eq!(picked([true, false, true, true]), Some((0, 0)));
    assert_eq!(picked([false, false, true, true]), Some((1, 3)));
    assert_eq!(picked([false, false, true, false]), None);
    assert_eq!(picked([false; 4]), None);
}

fn call(seqlen: u32, o: u64) -> FmhaCall {
    FmhaCall { q: 1, k: 2, v: 3, o, lse: 5, seqlen, batch: 2, heads: 16, kv_heads: 8, d: 128 }
}

#[test]
fn buffers_are_primed_once() {
    let mut k = FmhaKernels::new("sm_120", ST, &vec![true, true, false, false]);
    let p = k.launch_batched_prefill(0, &call(255, 4)).unwrap();
    let pre = p.preflight.unwrap();
    assert_eq!(pre.kernel, Kernel::Fmha { variant: 0, mn_even: false, k_even: false });
    assert_eq!(p.launch.kernel, Kernel::Fmha { variant: 1, mn_even: false, k_even: false });
    assert_eq!((p.launch.grid.x, p.launch.grid.y, p.launch.grid.z), (2, 2, 16));
    assert_eq!((p.launch.block.x, p.launch.shared), (256, 98304));
    assert_eq!(pre.params, p.launch.params);
    assert!(k.launch_batched_prefill(0, &call(255, 4)).unwrap().preflight.is_none());
    // other buffers, other extents
    assert!(k.launch_batched_prefill(0, &call(255, 9)).unwrap().preflight.is_some());
    assert!(k.launch_batched_prefill(0, &call(256, 4)).unwrap().preflight.is_some());
    assert!(k.launch_batched_prefill(0, &call(255, 4)).unwrap().preflight.is_none());
    assert!(matches!(
        k.launch_batched_prefill_variant(0, 2, &call(1, 1)),
        Err(LaunchError::Fatal)
    ));
    let p = k.launch_batched_prefill_variant_smem(0, 0, &call(255, 4), Some(65536)).unwrap();
    assert_eq!(p.launch.shared, 65536);
}

#[test]
fn warming_up_primes_nothing() {
    let mut k = FmhaKernels::new("sm_120", ST, &vec![true, true, false, false]);
    let p = k.warmup_context(10, 11, 12, 13, 14).unwrap();
    assert_eq!(p.launch.kernel, Kernel::Fmha { variant: 0, mn_even: true, k_even: true });
    assert!(k.primed.is_empty());
    let mut wide = FmhaKernels::new("sm_120", ST, &vec![false, false, false, true]);
    assert!(wide.warmup_context(10, 11, 12, 13, 14).is_none());
    // number 1 has the same tiles, but does not warm up
    let mut one = FmhaKernels::new("sm_120", ST, &vec![false, true, true, false]);
    assert!(!one.warms_up());
    assert!(one.warmup_context(10, 11, 12, 13, 14).is_none());
    let first = one.launch_batched_prefill(0, &call(256, 4)).unwrap().preflight.unwrap();
    assert_eq!(first.kernel, Kernel::Fmha { variant: 1, mn_even: true, k_even: true });
}

#[test]
fn parameter_block_has_its_fields_in_place() {
    let p = flash_fwd_params(&call(255, 4), 128);
    assert_eq!(p.len(), 456);
    let u64_at = |i: usize| u64::from_le_bytes(p[i..i + 8].try_into().unwrap());
    let i32_at = |i: usize| i32::from_le_bytes(p[i..i + 4].try_into().unwrap());
    let f32_at = |i: usize| f32::from_le_bytes(p[i..i + 4].try_into().unwrap());
    assert_eq!((u64_at(0), u64_at(8), u64_at(16)), (1, 2, 3));
    // from one sequence to the next, and from one row to the next
    assert_eq!((u64_at(24), u64_at(32)), (2048, 1024));
    assert_eq!((u64_at(48), u64_at(56)), (4096, 2048));
    assert_eq!((i32_at(96), i32_at(100), i32_at(104)), (16, 8, 2));
    assert_eq!((u64_at(112), u64_at(160)), (4, 5));
    assert_eq!((i32_at(176), i32_at(180), i32_at(192)), (2, 255, 128));
    assert_eq!((i32_at(196), i32_at(200), i32_at(212)), (256, 256, 510));
    assert_eq!((f32_at(216), f32_at(220)), (1.0, std::f32::consts::LOG2_E));
    assert_eq!((f32_at(380), f32_at(384)), (1.0, 1.0));
    assert_eq!((i32_at(388), i32_at(392)), (-1, 0));
    assert_eq!((p[424], p[425], p[426], p[427]), (0, 1, 0, 0));
    assert_eq!(i32_at(428), 1);
    assert!(p[432..].iter().all(|b| *b == 0));
}

#[test]
fn attention_buffers_and_headers() {
    let s = FmhaBuffers::alloc_sizes(10, 2, 2048).unwrap();
    assert_eq!((s.qkv, s.o, s.lse), (81920, 81920, 163840));
    assert!(FmhaBuffers::alloc_sizes(usize::MAX, 2, 1).is_none());
    let b = FmhaBuffers::allocate(buf(1), buf(2), buf(3));
    assert_eq!((b.qkv.ptr, b.o.ptr, b.lse.ptr), (1, 2, 3));
    assert_eq!(header_path("cute\\arch\\mma.hpp"), "cute/arch/mma.hpp");
    assert_eq!(header_path("a/b.h"), "a/b.h");
}

#[test]
fn symbols_of_kernels() {
    let k = Kernel::Fmha { variant: 2, mn_even: true, k_even: false };
    assert_eq!(k.symbol().unwrap(), "fmha_v2_mn_even_k_odd");
    assert_eq!(k.unit().name(), "fmha_fwd_kernels");
    assert_eq!(Kernel::GatherRow.symbol().unwrap(), "gather_row");
    assert_eq!(Kernel::KvWriteBatchF16.unit(), Unit::DecodeBatch);
    assert_eq!(Kernel::LayerFused.symbol(), None);
}

#[test]
fn reference_attention_in_seven_steps() {
    let s = PrefillScratch::alloc_sizes(10, 64).unwrap();
    assert_eq!((s.s, s.p, s.kt, s.sr), (400, 200, 2560, 400));
    assert!(PrefillScratch::alloc_sizes(usize::MAX, 1).is_none());
    let x = PrefillScratch::allocate(buf(1), buf(2), buf(3), buf(4));
    let g = Gemm::new(0);
    let d = DiffKernels::new("sm_90", ST);
    let (q, k, v, m, o) = (buf(10), buf(11), buf(12), buf(13), buf(14));
    let ops = prefill_attention(0, &g, &d, &ST, &x, &q, &k, &v, &m, 10, 64, &o);
    assert_eq!(ops.len(), 7);
    match (&ops[0], &ops[1], &ops[5], &ops[6]) {
        (AttnOp::Launch(t), AttnOp::Gemm(a), AttnOp::Gemm(b), AttnOp::Sync) => {
            assert_eq!(t.kernel, Kernel::TransposeF32);
            assert_eq!(t.args, vec![11, 3, 10, 64]);
            assert_eq!((a.m, a.n, a.k), (10, 10, 64));
            assert_eq!((a.a.ptr, a.b.ptr, a.c.ptr), (10, 3, 1));
            assert_eq!((a.a.ld, a.b.ld, a.c.ld), (64, 10, 10));
            assert_eq!((a.trans_a, a.trans_b), (Transpose::T, Transpose::T));
            // the output is row-major: the values are the left operand
            assert_eq!((b.m, b.n, b.k), (64, 10, 10));
            assert_eq!((b.a.ptr, b.b.ptr, b.c.ptr), (12, 4, 14));
            assert_eq!((b.a.ld, b.b.ld, b.c.ld), (64, 10, 64));
            assert_eq!((b.trans_a, b.trans_b), (Transpose::N, Transpose::N));
            assert_eq!(b.compute, ComputeType::F32);
        }
        o => panic!("{o:?}"),
    }
}

#[test]
fn causal_mask_covers_what_is_behind_the_diagonal() {
    let inf = f32::NEG_INFINITY.to_bits();
    let mut s: Vec<u32> = (0..9).collect();
    mask_causal_inplace(&mut s, 3, 3);
    assert_eq!(s, vec![0, inf, inf, 3, 4, inf, 6, 7, 8]);
    // more columns than rows, and a rest that stays
    let mut s: Vec<u32> = (0..7).collect();
    mask_causal_inplace(&mut s, 2, 3);
    assert_eq!(s, vec![0, inf, inf, 3, 4, inf, 6]);
    let mut s: Vec<u32> = (0..3).collect();
    mask_causal_inplace(&mut s, 3, 1);
    assert_eq!(s, vec![0, 1, 2]);
    mask_causal_inplace(&mut s, 3, 0);
    assert_eq!(s, vec![0, 1, 2]);
}

#[test]
fn tags_by_number() {
    for v in 0..25u16 {
        assert_eq!(PTag::from_u16(v).number(), v);
    }
    assert_eq!(PTag::from_u16(9), PTag::Fmha);
    assert_eq!(PTag::from_u16(25), PTag::LayerBoundary);
    assert_eq!(PTag::from_u16(u16::MAX).name(), "layer_boundary");
}
