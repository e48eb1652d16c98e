use reinfer_cuda::batch::{
    batch_path, batch_steps, check_batch, seg_key, stage_batch, BatchPath, BatchReq, SegRef,
};
use reinfer_cuda::batch_kernels::BatchDecodeKernels;
use reinfer_cuda::batch_step::{
    batch_step_impl, split_rows, BatchCtx, BatchKernels, BatchMark, BatchOp, BatchScratch,
    BatchState,
};
use reinfer_cuda::buffer::{DeviceBuffer, DeviceId, HostBuffer};
use reinfer_cuda::decode::DecodeKernels;
use reinfer_cuda::dense::DenseKernels;
use reinfer_cuda::diff::DiffKernels;
use reinfer_cuda::engine_error::EngineError;
use reinfer_cuda::launch::{CudaStream, Kernel, Queue};
use reinfer_cuda::model::{LayerWeights, LlamaConfig, StepBuffers};
use reinfer_cuda::plans::DecodeGemmPlans;
use reinfer_cuda::prefill_kernels::PrefillKernels;
use reinfer_cuda::split::{step_decode_split, StepMode};
use reinfer_cuda::step::{StepCtx, StepKernels, StepOp};

fn req(token: u32, pos: usize, kv: u64, base_pages: u32, len: usize) -> BatchReq {
    BatchReq { token, pos, kv: SegRef { kv, base_pages, len } }
}

#[test]
fn path_by_size_and_tier() {
    assert_eq!(batch_path(0, false), Err(EngineError::Sts("empty batch".to_string())));
    assert_eq!(batch_path(1, true), Ok(BatchPath::Single));
    assert_eq!(batch_path(2, true), Ok(BatchPath::PerRequest));
    assert_eq!(batch_path(2, false), Ok(BatchPath::Merged));
}

#[test]
fn engine_segment_is_the_engines_own_pool() {
    let s = SegRef::engine(12);
    assert_eq!((s.kv, s.base_pages, s.len), (0, 0, 12));
}

fn fault(reqs: Vec<BatchReq>) -> EngineError {
    check_batch(&reqs, 100, 2, 4, 0xaaa).unwrap_err()
}

fn sts(s: &str) -> EngineError {
    EngineError::Sts(s.to_string())
}

#[test]
fn first_fault_is_returned() {
    let good = req(1, 0, 0, 0, 1);
    assert_eq!(fault(vec![good, req(100, 0, 0, 0, 1)]), EngineError::EmbeddingOov(100));
    assert_eq!(
        fault(vec![good, req(1, 0, 0, 3, 1)]),
        sts("batch req 1: the engine pool requires base_pages = 0")
    );
    assert_eq!(
        fault(vec![req(1, 0, 7, 0, 1), good]),
        sts("batch req 1: per-request pools require a non-null kv pointer and base_pages = 0")
    );
    assert_eq!(
        fault(vec![req(1, 0, 7, 2, 1), req(1, 0, 8, 0, 1)]),
        sts("batch req 0: per-request pools require a non-null kv pointer and base_pages = 0")
    );
    assert_eq!(
        fault(vec![good, req(1, 0, 0, 0, 0)]),
        sts("batch req 1: kv len 0 out of range (1..128)")
    );
    assert_eq!(
        fault(vec![good, req(1, 0, 0, 0, 129)]),
        sts("batch req 1: kv len 129 out of range (1..128)")
    );
    assert_eq!(
        fault(vec![good, good, req(1, 128, 0, 0, 128)]),
        sts("batch req 2: pos 128 beyond the segment's 4 pages")
    );
    // the first of two faults
    assert_eq!(
        fault(vec![req(1, 0, 0, 0, 0), req(100, 0, 0, 0, 1)]),
        sts("batch req 0: kv len 0 out of range (1..128)")
    );
}

#[test]
fn pools_of_both_shapes() {
    let own = check_batch(&vec![req(1, 0, 0, 0, 1), req(2, 5, 0, 0, 6)], 100, 2, 4, 0xaaa).unwrap();
    assert_eq!((own.shared, own.kv, own.pages), (true, 0xaaa, 8));
    let shared =
        check_batch(&vec![req(1, 0, 9, 8, 1), req(2, 5, 9, 16, 6)], 100, 2, 4, 0xaaa).unwrap();
    assert_eq!((shared.shared, shared.kv, shared.pages), (true, 9, 24));
    let apart =
        check_batch(&vec![req(1, 0, 9, 0, 1), req(2, 5, 10, 0, 6)], 100, 2, 4, 0xaaa).unwrap();
    assert_eq!((apart.shared, apart.kv, apart.pages), (false, 9, 8));
}

fn words(v: &[u32]) -> Vec<u8> {
    v.iter().flat_map(|w| w.to_le_bytes()).collect()
}

#[test]
fn staging_uploads_tables_when_segments_change() {
    let reqs = vec![req(5, 33, 0, 0, 34), req(258, 1, 0, 0, 2)];
    let s = stage_batch(&reqs, &None, 3, 0x0102_0304_0506_0708);
    assert_eq!(s.toks, words(&[5, 258]));
    assert_eq!(s.lens, words(&[34, 2]));
    assert_eq!(s.pos, words(&[33, 1]));
    let t = s.tables.unwrap();
    assert_eq!(t.pages, words(&[0, 1, 2, 0, 1, 2]));
    let p = 0x0102_0304_0506_0708u64.to_le_bytes();
    assert_eq!(t.kv_ptrs, [p, p].concat());
    // the same segments, other tokens and positions
    let key = Some(seg_key(&reqs));
    let later = vec![req(6, 34, 0, 0, 35), req(7, 2, 0, 0, 3)];
    assert!(stage_batch(&later, &key, 3, 1).tables.is_none());
    // other segments
    let moved = vec![req(6, 34, 9, 3, 35), req(7, 2, 9, 6, 3)];
    let t = stage_batch(&moved, &key, 3, 1).tables.unwrap();
    assert_eq!(t.pages, words(&[3, 4, 5, 6, 7, 8]));
    assert_eq!(t.kv_ptrs, [9u64.to_le_bytes(), 9u64.to_le_bytes()].concat());
}

fn cfg() -> LlamaConfig {
    LlamaConfig {
        hidden_size: 64,
        q_heads: 4,
        kv_heads: 2,
        head_dim: 32,
        ffn_hidden: 96,
        vocab_size: 100,
        n_layer: 2,
        rms_eps: 1,
        rope_theta: 2,
        q_scale: 3,
        head_norm: true,
    }
}

fn buf(ptr: u64) -> DeviceBuffer {
    DeviceBuffer { dev: DeviceId::new(0), ptr, len: 4096 }
}

fn scratch(cap: usize) -> BatchScratch {
    let h = HostBuffer { ptr: 1, len: 4096 };
    let mut p = 0x1000;
    let mut d = || {
        p += 0x1000;
        buf(p)
    };
    BatchScratch {
        cap,
        toks_hb: h,
        lens_hb: h,
        pos_hb: h,
        pages_hb: h,
        kv_ptrs_hb: h,
        toks: d(),
        lens: d(),
        pos: d(),
        pages: d(),
        kv_ptrs: d(),
        x: d(),
        xn: d(),
        q: d(),
        k: d(),
        v: d(),
        attn: d(),
        oadd: d(),
        down: d(),
        c_q: d(),
        c_k: d(),
        c_v: d(),
        c_o: d(),
        c_g: d(),
        c_u: d(),
        c_d: d(),
        logits: d(),
        scores: d(),
        logits_hb: h,
    }
}

#[test]
fn scratch_grows_to_the_largest_batch() {
    let c = cfg();
    let mut st = BatchState::new();
    let s = st.batch_scratch_ensure(&c, 4, 3).unwrap();
    assert_eq!((s.cap, s.toks, s.lens, s.pos), (3, 12, 12, 12));
    assert_eq!((s.kv_ptrs, s.pages), (24, 3 * 2 * 4 * 4));
    assert_eq!((s.x, s.oadd, s.c_d), (3 * 64 * 2, 3 * 64 * 2, 3 * 64 * 4));
    assert_eq!((s.attn, s.c_v), (3 * 128 * 2, 3 * 64 * 4));
    assert_eq!((s.down, s.logits, s.scores), (3 * 96 * 2, 3 * 100 * 4, 4 * 128 * 4));
    st.grown(scratch(3));
    st.uploaded(vec![(0, 0)]);
    assert!(st.batch_scratch_ensure(&c, 4, 2).is_none());
    assert!(st.pages_key.is_some());
    // growing forgets what was uploaded
    assert!(st.batch_scratch_ensure(&c, 4, 4).is_some());
    assert!(st.pages_key.is_none());
}

fn layer(i: u64) -> LayerWeights {
    let at = |k: u64| buf(0x10_0000 * (i + 1) + k * 0x1000);
    LayerWeights {
        attn_norm: at(1),
        q_proj: at(2),
        k_proj: at(3),
        v_proj: at(4),
        qkv_proj: Some(at(5)),
        o_proj: at(6),
        q_norm: Some(at(7)),
        k_norm: Some(at(8)),
        ffn_norm: at(9),
        gate_proj: at(10),
        up_proj: at(11),
        down_proj: at(12),
    }
}

fn buffers() -> StepBuffers {
    let b = buf(0x99_0000);
    StepBuffers {
        pages: b,
        lens: b,
        x: b,
        xn: b,
        q: b,
        k: b,
        v: b,
        attn: b,
        down: b,
        x32: b,
        xn32: b,
        attn32: b,
        c_q: b,
        c_k: b,
        c_v: b,
        c_o: b,
        c_g: b,
        c_u: b,
        c_d: b,
        logits: b,
        scores: b,
    }
}

fn ctx(pp: usize) -> StepCtx {
    StepCtx {
        on: Queue { dev: 0, stream: CudaStream { dev: 0, handle: 2 } },
        cfg: cfg(),
        b: buffers(),
        embed: 0xe000,
        final_norm: 0xf000,
        kv: 0xaaa0,
        pp,
    }
}

fn kernels(c: &StepCtx) -> StepKernels {
    StepKernels {
        dense: DenseKernels::new("sm_90"),
        diff: DiffKernels::new("sm_90", c.on.stream),
        decode: DecodeKernels::new("sm_90", c.on.stream),
    }
}

#[test]
fn merged_step_launches_every_layer_once() {
    let c = ctx(4);
    let reqs = vec![req(1, 0, 0x700, 0, 1), req(2, 40, 0x800, 0, 41)];
    let pool = check_batch(&reqs, 100, 2, 4, c.kv).unwrap();
    let x = BatchCtx { c, sc: scratch(2), pool, b: 2 };
    assert!(x.fits());
    assert!(!BatchCtx { b: 1 << 32, ..x }.fits());
    let (step, rows, batch) =
        (kernels(&c), PrefillKernels::new("sm_90"), BatchDecodeKernels::new("sm_90"));
    let k = BatchKernels { step: &step, rows: &rows, batch: &batch };
    let layers = vec![layer(0), layer(1)];
    let p = batch_step_impl(&x, &k, &reqs, &layers, 0xdead);
    let marks: Vec<&str> = p
        .ops
        .iter()
        .filter_map(|o| match o {
            BatchOp::Mark(m) => Some(m.label()),
            _ => None,
        })
        .collect();
    assert_eq!(
        marks,
        ["stage", "embed", "qkv", "attn", "rest", "qkv", "attn", "rest", "lm"]
    );
    assert!(matches!(p.ops[0], BatchOp::Mark(BatchMark::Stage)));
    // gather of both rows
    match &p.ops[1] {
        BatchOp::Launch(l) => {
            assert_eq!(l.kernel, Kernel::GatherRowsF16);
            assert_eq!(l.args, vec![0xe000, x.sc.x.ptr, x.sc.toks.ptr, 2, 64]);
            assert_eq!(l.grid.x, 1);
        }
        o => panic!("{o:?}"),
    }
    // the last projection is the output head over both rows
    match p.ops.last().unwrap() {
        BatchOp::Gemm(g) => {
            assert_eq!((g.a, g.w, g.c), (x.sc.xn.ptr, 0xdead, x.sc.logits.ptr));
            assert_eq!((g.m, g.n, g.k), (2, 100, 64));
        }
        o => panic!("{o:?}"),
    }
    let attn: Vec<_> = p
        .ops
        .iter()
        .filter_map(|o| match o {
            BatchOp::Attn { flash, naive } => Some((flash, naive)),
            _ => None,
        })
        .collect();
    assert_eq!(attn.len(), 2);
    let (flash, naive) = attn[1];
    assert_eq!(flash.kernel, Kernel::DecodeStepGqaFlashBatch);
    assert_eq!((flash.grid.x, flash.block.x, flash.shared), (8, 512, (32 + 128) * 4));
    assert_eq!(flash.args[14], 1);
    // request 1 on layer 1: its own rows, length, table and pool
    let l = &naive[1];
    assert_eq!(l.kernel, Kernel::DecodeStepGqa);
    assert_eq!(l.args[0], x.sc.q.ptr + 128 * 2);
    assert_eq!(l.args[1], x.sc.pages.ptr + (8 + 4) * 4);
    assert_eq!(l.args[2], 0x800);
    assert_eq!(l.args[3], x.sc.lens.ptr + 4);
}

#[test]
fn flash_over_its_budget_is_refused() {
    let c = ctx(1000);
    let reqs = vec![req(1, 0, 0, 0, 1), req(2, 40, 0, 0, 41)];
    let pool = check_batch(&reqs, 100, 2, 1000, c.kv).unwrap();
    let x = BatchCtx { c, sc: scratch(2), pool, b: 2 };
    let (step, rows, batch) =
        (kernels(&c), PrefillKernels::new("sm_90"), BatchDecodeKernels::new("sm_90"));
    let k = BatchKernels { step: &step, rows: &rows, batch: &batch };
    let p = batch_step_impl(&x, &k, &reqs, &vec![layer(0), layer(1)], 1);
    let refused = p.ops.iter().filter(|o| matches!(o, BatchOp::FlashRefused(v) if v.len() == 2));
    assert_eq!(refused.count(), 2);
}

fn row_ctx(x: &BatchCtx, i: u64) -> StepCtx {
    let at = |b: DeviceBuffer, bytes: u64| DeviceBuffer { ptr: b.ptr + i * bytes, ..b };
    let (sc, mut c) = (&x.sc, x.c);
    c.b.x = at(sc.x, 128);
    c.b.xn = at(sc.xn, 128);
    c.b.q = at(sc.q, 256);
    c.b.k = at(sc.k, 128);
    c.b.v = at(sc.v, 128);
    c.b.attn = at(sc.attn, 256);
    c.b.down = at(sc.down, 192);
    c.b.c_q = at(sc.c_q, 512);
    c.b.c_k = at(sc.c_k, 256);
    c.b.c_v = at(sc.c_v, 256);
    c.b.c_o = at(sc.c_o, 256);
    c.b.c_g = at(sc.c_g, 384);
    c.b.c_u = at(sc.c_u, 384);
    c.b.c_d = at(sc.c_d, 256);
    c.b.logits = at(sc.logits, 400);
    c
}

#[test]
fn a_merged_row_has_the_products_of_a_step() {
    let c = ctx(4);
    let reqs = vec![req(1, 0, 0x700, 0, 1), req(2, 40, 0x800, 0, 41)];
    let pool = check_batch(&reqs, 100, 2, 4, c.kv).unwrap();
    let x = BatchCtx { c, sc: scratch(2), pool, b: 2 };
    let (step, rows, batch) =
        (kernels(&c), PrefillKernels::new("sm_90"), BatchDecodeKernels::new("sm_90"));
    let k = BatchKernels { step: &step, rows: &rows, batch: &batch };
    let layers = vec![layer(0), layer(1)];
    let merged = batch_step_impl(&x, &k, &reqs, &layers, 0xdead);
    for (i, r) in reqs.iter().enumerate() {
        let rc = row_ctx(&x, i as u64);
        let plans = DecodeGemmPlans::build(&rc.cfg, &rc.b, &layers, &buf(0xdead), false);
        let m = StepMode { trace: false, detail: false, flash_off: false };
        let single = step_decode_split(&rc, &step, &layers, &plans, r.token, r.pos, r.kv.len, m);
        let want: Vec<_> = single
            .ops
            .iter()
            .filter_map(|o| match o {
                StepOp::Gemm(p) => Some((p.a, p.b, p.c, p.n as usize, p.k as usize)),
                _ => None,
            })
            .collect();
        let got: Vec<_> = merged
            .ops
            .iter()
            .filter_map(|o| match o {
                BatchOp::Gemm(g) => {
                    let i = i as u64;
                    let (a, c) = (g.a + i * g.k as u64 * 2, g.c + i * g.n as u64 * 4);
                    Some((a, g.w, c, g.n, g.k))
                }
                _ => None,
            })
            .collect();
        assert_eq!(got, want);
        assert_eq!(got.len(), 15);
    }
}

/// Naive attention of row `i` of every layer: query, page, output and extents.
fn merged_naives(x: &BatchCtx, reqs: &Vec<BatchReq>, i: usize) -> Vec<Vec<u64>> {
    let (step, rows, batch) =
        (kernels(&x.c), PrefillKernels::new("sm_90"), BatchDecodeKernels::new("sm_90"));
    let k = BatchKernels { step: &step, rows: &rows, batch: &batch };
    let merged = batch_step_impl(x, &k, reqs, &vec![layer(0), layer(1)], 0xdead);
    let table = x.sc.pages.ptr + (i * x.c.cfg.n_layer * x.c.pp) as u64 * 4;
    merged
        .ops
        .iter()
        .filter_map(|o| match o {
            BatchOp::Attn { naive, .. } | BatchOp::FlashRefused(naive) => Some(&naive[i].args),
            _ => None,
        })
        .map(|a| [&[a[0], (a[1] - table) / 4, a[5]], &a[6..12]].concat())
        .collect()
}

#[test]
fn a_merged_row_attends_naively_as_a_step() {
    for pp in [4, 512] {
        let c = ctx(pp);
        let reqs = vec![req(1, 0, 0x700, 0, 1), req(2, 3, 0x800, 0, 4)];
        let pool = check_batch(&reqs, 100, 2, pp, c.kv).unwrap();
        let x = BatchCtx { c, sc: scratch(2), pool, b: 2 };
        for (i, r) in reqs.iter().enumerate() {
            let rc = row_ctx(&x, i as u64);
            let layers = vec![layer(0), layer(1)];
            let plans = DecodeGemmPlans::build(&rc.cfg, &rc.b, &layers, &buf(0xdead), false);
            let m = StepMode { trace: false, detail: false, flash_off: false };
            let single = step_decode_split(
                &rc, &kernels(&c), &layers, &plans, r.token, r.pos, r.kv.len, m,
            );
            let want: Vec<_> = single
                .ops
                .iter()
                .filter_map(|o| match o {
                    StepOp::Attn { naive, .. } => Some(&naive.args),
                    StepOp::FlashRefused(l) => Some(&l.args),
                    _ => None,
                })
                .map(|a| [&[a[0], (a[1] - rc.b.pages.ptr) / 4, a[5]], &a[6..12]].concat())
                .collect();
            assert_eq!(merged_naives(&x, &reqs, i), want);
            assert_eq!(want.len(), 2);
            assert_eq!(want[1][1], pp as u64);
        }
    }
}

#[test]
fn other_requests_have_no_part_in_a_row() {
    let c = ctx(4);
    let pool = check_batch(&vec![req(2, 3, 0x800, 0, 4)], 100, 2, 4, c.kv).unwrap();
    let x = BatchCtx { c, sc: scratch(2), pool, b: 2 };
    let here = vec![req(1, 0, 0x700, 0, 1), req(2, 3, 0x800, 0, 4)];
    let there = vec![req(9, 20, 0x900, 8, 21), req(2, 3, 0x800, 0, 4)];
    assert_eq!(merged_naives(&x, &here, 1), merged_naives(&x, &there, 1));
}

#[test]
fn a_batch_of_one_is_a_step() {
    assert_eq!(batch_path(1, false), Ok(BatchPath::Single));
    let here = batch_steps(&vec![req(7, 9, 0, 0, 10)]);
    let there = batch_steps(&vec![req(7, 9, 0x700, 55, 10)]);
    assert_eq!(here, there);
    assert_eq!((here[0].token, here[0].pos, here[0].kv_len), (7, 9, 10));
    assert_eq!(batch_steps(&vec![req(1, 0, 0, 0, 1), req(2, 5, 0, 0, 6)])[1].pos, 5);
}

#[test]
fn rows_come_back_in_order() {
    let rows = split_rows(&vec![1, 2, 3, 4, 5, 6], 3, 2);
    assert_eq!(rows, vec![vec![1, 2, 3], vec![4, 5, 6]]);
    assert_eq!(split_rows(&vec![], 0, 2), vec![Vec::<u32>::new(), Vec::new()]);
}
