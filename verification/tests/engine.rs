use reinfer_cuda::batch_step::BatchGemm;
use reinfer_cuda::buffer::{DeviceBuffer, DeviceId};
use reinfer_cuda::decode::{DecodeKernels, KvStore};
use reinfer_cuda::dense::DenseKernels;
use reinfer_cuda::diff::DiffKernels;
use reinfer_cuda::engine::{
    DecodePath, Engine, EngineParts, GemmAction, StepAction, StepEvent,
};
use reinfer_cuda::engine_error::EngineError;
use reinfer_cuda::error::LaunchError;
use reinfer_cuda::fused::FusedDecodeKernels;
use reinfer_cuda::gemm::{GemmPlan, Jgemm};
use reinfer_cuda::generate::Generation;
use reinfer_cuda::graph::NodeRole;
use reinfer_cuda::graph_state::CaptureOutcome;
use reinfer_cuda::launch::{CudaStream, Kernel, Queue};
use reinfer_cuda::layer_fused::{LayerFusedKernels, LayerFusedSpec};
use reinfer_cuda::load::{wants_joined, Switches};
use reinfer_cuda::model::{LayerWeights, LlamaConfig, StepBuffers};
use reinfer_cuda::outcome::{
    CaptureAction, CaptureEvent, FlashEvent, FlashNext, GemmEvent, GemmNext,
};
use reinfer_cuda::split::StepMode;
use reinfer_cuda::step::{Anchor, ProfOp, StepCtx, StepKernels, StepOp};

fn buf(ptr: u64) -> DeviceBuffer {
    DeviceBuffer { dev: DeviceId::new(0), ptr, len: 1 << 20 }
}

fn cfg() -> LlamaConfig {
    LlamaConfig {
        hidden_size: 1024,
        q_heads: 16,
        kv_heads: 8,
        head_dim: 128,
        ffn_hidden: 3072,
        vocab_size: 151936,
        n_layer: 2,
        rms_eps: 0x3586_37bd,
        rope_theta: 0x4974_2400,
        q_scale: 0x3db5_04f3,
        head_norm: true,
    }
}

fn buffers() -> StepBuffers {
    let mut p = 0x1_0000_0000;
    let mut next = || {
        p += 0x10_0000;
        buf(p)
    };
    StepBuffers {
        pages: next(),
        lens: next(),
        x: next(),
        xn: next(),
        q: next(),
        k: next(),
        v: next(),
        attn: next(),
        down: next(),
        x32: next(),
        xn32: next(),
        attn32: next(),
        c_q: next(),
        c_k: next(),
        c_v: next(),
        c_o: next(),
        c_g: next(),
        c_u: next(),
        c_d: next(),
        logits: next(),
        scores: next(),
    }
}

fn layer(i: u64) -> LayerWeights {
    let at = |k: u64| buf(0x2_0000_0000 + i * 0x1000_0000 + k * 0x10_0000);
    LayerWeights {
        attn_norm: at(1),
        q_proj: at(2),
        k_proj: at(3),
        v_proj: at(4),
        qkv_proj: Some(at(5)),
        o_proj: at(6),
        q_norm: Some(at(7)),
        k_norm: Some(at(8)),
        ffn_norm: at(9),
        gate_proj: at(10),
        up_proj: at(11),
        down_proj: at(12),
    }
}

const ON: Switches = Switches {
    parity_f32: false,
    fused_off: false,
    layer_fused_off: false,
    jgemm_off: false,
    flash_off: false,
};

const PLAIN: StepMode = StepMode { trace: false, detail: false, flash_off: false };

fn parts(switches: Switches, graph_on: bool, pp: usize) -> EngineParts {
    let stream = CudaStream { dev: 0, handle: 5 };
    let c = StepCtx {
        on: Queue { dev: 0, stream },
        cfg: cfg(),
        b: buffers(),
        embed: 0x9_0000_0000,
        final_norm: 0x9_1000_0000,
        kv: 0x9_2000_0000,
        pp,
    };
    EngineParts {
        c,
        kernels: StepKernels {
            dense: DenseKernels::new("sm_120"),
            diff: DiffKernels::new("sm_120", stream),
            decode: DecodeKernels::new("sm_120", stream),
        },
        layers: vec![layer(0), layer(1)],
        lm_head: buf(0x9_3000_0000),
        kv: KvStore::allocate(buf(0x9_2000_0000), 2 * pp, 32),
        arch: "sm_120".to_string(),
        switches,
        jgemm_loaded: true,
        graph_on,
        profile_on: true,
        prefill_profile_on: false,
    }
}

fn engine(switches: Switches, graph_on: bool, pp: usize) -> Engine {
    Engine::load_with_graph(parts(switches, graph_on, pp))
}

fn add_fused(e: &mut Engine) {
    let mut f = FusedDecodeKernels::new(0);
    let (base, tables) = (0x10_0000_0000, 0x11_0000_0000);
    f.build_plans(&Jgemm::new(0), &e.plans, base, tables).unwrap();
    e.set_fused(f, base, tables);
}

fn add_layer_fused(e: &mut Engine) {
    e.set_layer_fused(LayerFusedKernels {
        dev: 0,
        kernel_name: "layer".to_string(),
        const_ptr: 1,
        bar_ptr: 2,
        grid: 3,
        shared: 4,
    });
}

#[test]
fn a_fresh_engine() {
    let e = engine(ON, false, 8);
    assert_eq!(e.config().hidden_size, 1024);
    assert_eq!(e.device(), 0);
    assert_eq!(e.decode_stream().handle, 5);
    assert_eq!(e.kv_store().total_pages, 16);
    let v = e.logits_view();
    assert_eq!((v.ptr, v.bytes, v.vocab), (e.c.b.logits.ptr, 607744, 151936));
    assert!(e.jgemm_enabled());
    assert!(e.prof.is_active());
    assert_eq!((e.jgemm_fallbacks(), e.decode_flash_fallbacks()), (0, 0));
    assert_eq!((e.graph_captures(), e.graph_replays(), e.graph_eager_fallbacks()), (0, 0, 0));
    assert!(e.wants_fused());
    assert!(!e.wants_layer_fused());
    assert!(e.graph_decl.is_none() && e.declared_partials.is_none());
    assert!(e.graph.failed.is_empty() && e.graph.execs.execs.is_empty());
    assert_eq!(e.graph.execs.dev, 0);
    assert_eq!((e.prof.steps, e.prof.agg_launches, e.prof.cur.launches), (0, 0, 0));
    assert!(wants_joined(&ON));
    assert!(!wants_joined(&Switches { parity_f32: true, ..ON }));
    // a capture admits no events
    assert!(!engine(ON, true, 8).prof.is_active());
    assert!(!engine(Switches { jgemm_off: true, ..ON }, false, 8).jgemm_enabled());
}

#[test]
fn parts_that_belong_together() {
    assert!(parts(ON, false, 8).fits());
    let mut p = parts(ON, false, 8);
    p.layers.pop();
    assert!(!p.fits());
    let mut p = parts(ON, false, 8);
    p.kernels.decode.stream.handle = 6;
    assert!(!p.fits());
    let mut p = parts(ON, false, 8);
    p.c.b.pages.ptr = u64::MAX - 3;
    assert!(!p.fits());
    // tokens are counted in 32 bits
    assert!(!parts(ON, false, 1 << 27).fits());
    let e = engine(ON, false, 8);
    assert!(e.c.can_take(255));
    assert!(e.c.can_take(u32::MAX as usize));
    assert!(!e.c.can_take(1 << 32));
    assert!(FusedDecodeKernels::can_fuse(&Jgemm::new(0), &e.plans));
    // an output head of more than one slab
    let mut p = parts(ON, false, 8);
    p.c.cfg.vocab_size = 1000;
    let e = Engine::load_with_graph(p);
    assert!(!FusedDecodeKernels::can_fuse(&Jgemm::new(0), &e.plans));
}

#[test]
fn forms_are_tried_from_the_most_fused() {
    let mut e = engine(ON, false, 8);
    assert_eq!(e.decode_attempts(&PLAIN), vec![DecodePath::Split]);
    add_fused(&mut e);
    assert_eq!(e.decode_attempts(&PLAIN), vec![DecodePath::Fused, DecodePath::Split]);
    assert!(e.wants_layer_fused());
    add_layer_fused(&mut e);
    assert_eq!(
        e.decode_attempts(&PLAIN),
        vec![DecodePath::LayerFused, DecodePath::Fused, DecodePath::Split]
    );
    let detail = StepMode { detail: true, ..PLAIN };
    assert_eq!(e.decode_attempts(&detail), vec![DecodePath::Fused, DecodePath::Split]);
    let f = engine(Switches { parity_f32: true, ..ON }, false, 8);
    assert_eq!(f.decode_attempts(&PLAIN), vec![DecodePath::Parity]);
}

#[test]
fn a_declared_engine_launches_its_declaration() {
    let mut e = engine(ON, true, 8);
    let need = e.declaration_need().unwrap();
    assert_eq!(need, 151936 * 4);
    e.grown(need as usize, 0x7700);
    e.declare();
    assert_eq!(e.declared_partials, Some(0x7700));
    assert_eq!(e.decode_attempts(&PLAIN), vec![DecodePath::Declared, DecodePath::Split]);
    let off = StepMode { flash_off: true, ..PLAIN };
    assert_eq!(e.decode_attempts(&off), vec![DecodePath::Split]);
    let trace = StepMode { trace: true, ..PLAIN };
    assert_eq!(e.decode_attempts(&trace), vec![DecodePath::Split]);
    assert_eq!(e.step_impl(151936, 0, 0, &PLAIN).unwrap_err(), EngineError::EmbeddingOov(151936));
    let run = e.step_impl(7, 40, 0, &PLAIN).unwrap();
    assert_eq!(run.pending, StepAction::Capture);
    let d = e.graph_decl.as_ref().unwrap();
    assert_eq!(d.cells[d.cell_token], 7);
    assert_eq!(d.cells[d.cell_kv_phys[1]], 9);
    assert_eq!(d.cells[d.cell_kv_off[1]], 8);
    // the fused forms need no partial sums of their own
    let mut f = engine(ON, true, 8);
    add_fused(&mut f);
    assert_eq!(f.declaration_need(), None);
    f.declare();
    assert_eq!(f.graph_decl.as_ref().unwrap().specs().len(), 20);
    // no declaration off the graph path, nor on the f32 tier
    let mut g = engine(ON, false, 8);
    g.declare();
    assert!(g.graph_decl.is_none());
    let mut p = engine(Switches { parity_f32: true, ..ON }, true, 8);
    p.declare();
    assert!(p.graph_decl.is_none());
    assert_eq!((f.declared_partials, g.declared_partials, p.declared_partials), (None, None, None));
    // without the one-row kernels every product is a cuBLAS node
    let mut b = engine(Switches { jgemm_off: true, ..ON }, true, 8);
    assert_eq!(b.declaration_need(), None);
    b.declare();
    assert_eq!(b.declared_partials, None);
    assert!(!b.graph_decl.as_ref().unwrap().is_all_custom());
    let gemms = b.graph_decl.as_ref().unwrap().specs().iter();
    assert_eq!(gemms.filter(|s| s.role == NodeRole::CublasGemm).count(), 7 * 2 + 1);
}

#[test]
fn a_step_is_always_served() {
    let mut e = engine(ON, true, 8);
    add_fused(&mut e);
    e.declare();
    // capture, then the step itself
    let mut run = e.step_impl(1, 0, 3, &PLAIN).unwrap();
    e.step_event(&mut run, StepEvent::Captured(CaptureOutcome::Captured(42)));
    assert_eq!(run.pending, StepAction::Launch(DecodePath::Declared));
    e.step_event(&mut run, StepEvent::Launched(false));
    assert_eq!(run.pending, StepAction::Launch(DecodePath::Fused));
    e.step_event(&mut run, StepEvent::Launched(false));
    assert_eq!(run.pending, StepAction::Launch(DecodePath::Split));
    e.step_event(&mut run, StepEvent::Launched(true));
    assert_eq!(run.pending, StepAction::Read);
    // replay
    let mut run = e.step_impl(2, 1, 3, &PLAIN).unwrap();
    assert_eq!(run.pending, StepAction::Replay(42));
    e.step_event(&mut run, StepEvent::Replayed(true));
    assert_eq!(run.pending, StepAction::Read);
    // a replay that fails
    let mut run = e.step_impl(2, 1, 3, &PLAIN).unwrap();
    e.step_event(&mut run, StepEvent::Replayed(false));
    assert_eq!(run.pending, StepAction::Launch(DecodePath::Declared));
    let mut run = e.step_impl(2, 1, 3, &PLAIN).unwrap();
    assert_eq!(run.pending, StepAction::Launch(DecodePath::Declared));
    for _ in 0..3 {
        e.step_event(&mut run, StepEvent::Launched(false));
    }
    assert_eq!(run.pending, StepAction::Fail);
    assert_eq!((e.graph_captures(), e.graph_replays(), e.graph_eager_fallbacks()), (1, 1, 1));
}

fn launches(e: &Engine, path: DecodePath, m: StepMode) -> Vec<Kernel> {
    let p = e.step_decode_launches(path, 1, 33, 34, m).unwrap();
    p.ops
        .iter()
        .filter_map(|o| match o {
            StepOp::Launch(l) => Some(l.kernel),
            StepOp::Attn { flash, .. } => Some(flash.kernel),
            _ => None,
        })
        .collect()
}

#[test]
fn programs_of_every_form() {
    let mut e = engine(ON, false, 8);
    add_fused(&mut e);
    add_layer_fused(&mut e);
    assert_eq!(launches(&e, DecodePath::Split, PLAIN).len(), 1 + 2 * 13 + 1);
    assert_eq!(launches(&e, DecodePath::Fused, PLAIN).len(), 4 + 2 * 8);
    let lf = launches(&e, DecodePath::LayerFused, PLAIN);
    assert_eq!(
        lf,
        vec![
            Kernel::LayerFused,
            Kernel::LayerFused,
            Kernel::GemvM1Multi,
            Kernel::GemvM1Reduce
        ]
    );
    let p = e.step_decode_launches(DecodePath::Split, 1, 33, 34, PLAIN).unwrap();
    assert!(matches!(p.ops[0], StepOp::Prof(ProfOp::BeginStep)));
    assert!(matches!(p.ops.last().unwrap(), StepOp::Prof(ProfOp::Finalize)));
    assert!(p.ops.iter().any(|o| matches!(o, StepOp::UploadLens(34))));
    let traced = StepMode { trace: true, detail: true, flash_off: true };
    let p = e.step_decode_launches(DecodePath::Split, 1, 33, 34, traced).unwrap();
    let rows = p.ops.iter().filter(|o| matches!(o, StepOp::TraceRow)).count();
    let details = p.ops.iter().filter(|o| matches!(o, StepOp::PushDetail)).count();
    let anchors = p.ops.iter().filter(|o| matches!(o, StepOp::ReadBack(Anchor::Q))).count();
    assert_eq!((rows, details, anchors), (2, 2, 2));
    assert!(!p.ops.iter().any(|o| matches!(o, StepOp::Attn { .. })));
    // the write of the cache slot: page 1 of each layer, place 1
    let writes: Vec<_> = p
        .ops
        .iter()
        .filter_map(|o| match o {
            StepOp::Launch(l) if l.kernel == Kernel::KvWriteRow => Some((l.args[3], l.args[4])),
            _ => None,
        })
        .collect();
    assert_eq!(writes, vec![(1, 1), (9, 1)]);
    let f = engine(Switches { parity_f32: true, ..ON }, false, 8);
    let p = f.step_decode_launches(DecodePath::Parity, 1, 33, 34, PLAIN).unwrap();
    assert!(p.ops.iter().any(
        |o| matches!(o, StepOp::Launch(l) if l.kernel == Kernel::GatherRowF32)
    ));
}

#[test]
fn flash_over_its_budget() {
    let mut e = engine(ON, false, 1000);
    add_fused(&mut e);
    assert!(matches!(
        e.step_decode_launches(DecodePath::Fused, 1, 0, 1, PLAIN),
        Err(LaunchError::Fatal)
    ));
    let p = e.step_decode_launches(DecodePath::Split, 1, 0, 1, PLAIN).unwrap();
    assert_eq!(p.ops.iter().filter(|o| matches!(o, StepOp::FlashRefused(_))).count(), 2);
    assert_eq!(e.flash_event(FlashEvent::Refused), FlashNext::Naive);
    assert_eq!(e.flash_event(FlashEvent::Launched), FlashNext::Served);
    assert_eq!(e.flash_event(FlashEvent::Failed), FlashNext::Naive);
    assert_eq!(e.decode_flash_fallbacks(), 2);
}

#[test]
fn the_head_is_run_once_before_a_capture() {
    let on = engine(ON, true, 8);
    assert_eq!(on.warm_up(), Some(on.plans.lm_head));
    assert_eq!(engine(ON, false, 8).warm_up(), None);
}

#[test]
fn products_fall_back_and_are_counted() {
    let mut e = engine(ON, false, 8);
    let plan = e.plans.layers[0].k;
    let grow = e.gemm_exec_plan(&plan);
    let GemmAction::Grow { fallback, .. } = &grow else { panic!("{grow:?}") };
    let fallback = *fallback;
    assert_eq!(e.gemm_event(&grow, GemmEvent::GrowFailed), GemmNext::Call(fallback));
    assert_eq!(e.jgemm_fallbacks(), 1);
    assert!(matches!(e.gemm_exec_plan(&plan), GemmAction::Grow { .. }));
    assert_eq!(e.gemm_event(&grow, GemmEvent::Grown(0x5000)), GemmNext::Again);
    assert_eq!(e.jgemm_fallbacks(), 1);
    let two = e.gemm_exec_plan(&plan);
    let GemmAction::TwoPhase { first, .. } = &two else { panic!("{two:?}") };
    assert_eq!(first.args[2], 0x5000);
    assert_eq!(e.gemm_event(&two, GemmEvent::Launched(true)), GemmNext::Done);
    assert_eq!(e.gemm_event(&two, GemmEvent::Launched(false)), GemmNext::Call(fallback));
    assert_eq!(e.jgemm_fallbacks(), 2);
    let call = GemmAction::Cublas(fallback);
    assert_eq!(e.gemm_event(&call, GemmEvent::Called(true)), GemmNext::Done);
    assert_eq!(e.gemm_event(&call, GemmEvent::Called(false)), GemmNext::Fail);
    assert_eq!(e.jgemm_fallbacks(), 2);
    // the count wraps around
    e.jgemm_fallbacks = u64::MAX;
    e.gemm_event(&two, GemmEvent::Launched(false));
    assert_eq!(e.jgemm_fallbacks(), 0);
}

#[test]
fn captures_try_every_form_and_seed_custom_graphs() {
    let mut e = engine(ON, true, 8);
    add_fused(&mut e);
    e.declare();
    assert!(e.graph_decl.as_ref().unwrap().is_all_custom());
    let mut c = e.start_capture(&PLAIN);
    assert!(c.seeds);
    assert_eq!(c.pending, CaptureAction::Begin);
    c.event(CaptureEvent::Began(true));
    for path in [DecodePath::Declared, DecodePath::Fused] {
        assert_eq!(c.pending, CaptureAction::Launch(path));
        c.event(CaptureEvent::Launched(false));
    }
    assert_eq!(c.pending, CaptureAction::Launch(DecodePath::Split));
    c.event(CaptureEvent::Launched(true));
    assert_eq!(c.pending, CaptureAction::End);
    c.event(CaptureEvent::Ended(Some(7)));
    assert_eq!(c.pending, CaptureAction::Seed(7));
    c.event(CaptureEvent::Seeded(true));
    assert_eq!(c.pending, CaptureAction::Finish(CaptureOutcome::Captured(7)));

    let mut c = e.start_capture(&PLAIN);
    c.event(CaptureEvent::Began(true));
    c.event(CaptureEvent::Launched(true));
    c.event(CaptureEvent::Ended(Some(8)));
    c.event(CaptureEvent::Seeded(false));
    assert_eq!(c.pending, CaptureAction::Drop(8));
    c.event(CaptureEvent::Dropped);
    assert_eq!(c.pending, CaptureAction::Finish(CaptureOutcome::SeedFailed));
}

#[test]
fn captures_of_library_products_are_not_seeded() {
    let mut e = engine(Switches { jgemm_off: true, ..ON }, true, 8);
    e.declare();
    assert!(!e.graph_decl.as_ref().unwrap().is_all_custom());
    let mut c = e.start_capture(&PLAIN);
    assert_eq!(c.attempts, [DecodePath::Split]);
    c.event(CaptureEvent::Began(true));
    c.event(CaptureEvent::Launched(true));
    c.event(CaptureEvent::Ended(Some(9)));
    assert_eq!(c.pending, CaptureAction::Finish(CaptureOutcome::Captured(9)));

    let failed = CaptureAction::Finish(CaptureOutcome::Failed);
    let mut c = e.start_capture(&PLAIN);
    c.event(CaptureEvent::Began(false));
    assert_eq!(c.pending, failed);
    let mut c = e.start_capture(&PLAIN);
    c.event(CaptureEvent::Began(true));
    c.event(CaptureEvent::Launched(false));
    assert_eq!(c.pending, CaptureAction::Abort);
    c.event(CaptureEvent::Aborted);
    assert_eq!(c.pending, failed);
    let mut c = e.start_capture(&PLAIN);
    c.event(CaptureEvent::Began(true));
    c.event(CaptureEvent::Launched(true));
    c.event(CaptureEvent::Ended(None));
    assert_eq!(c.pending, failed);
}

#[test]
fn gemms_by_the_kernels_that_serve_them() {
    let mut e = engine(ON, false, 8);
    let plan = e.plans.layers[0].k;
    match e.gemm_exec_plan(&plan) {
        GemmAction::Grow { bytes, fallback } => {
            assert_eq!(bytes, 1024 * 24 * 4);
            assert_eq!((fallback.m, fallback.n, fallback.k), (1, 1024, 1024));
        }
        a => panic!("{a:?}"),
    }
    e.grown(1024 * 24 * 4, 0x5000);
    match e.gemm_exec_plan(&plan) {
        GemmAction::TwoPhase { first, second, .. } => {
            assert_eq!((first.args[2], second.args[0]), (0x5000, 0x5000));
        }
        a => panic!("{a:?}"),
    }
    let rows = GemmPlan::row_major_f16(1, 2, 3, 2, 64, 64);
    assert!(matches!(e.gemm_exec_plan(&rows), GemmAction::Cublas(_)));
    let g = BatchGemm { a: 1, w: 2, m: 4, n: 1024, k: 1024, c: 3 };
    match e.gemm_batch_jgemm(&g) {
        GemmAction::Grow { bytes, fallback } => {
            assert_eq!(bytes, 4 * 1024 * 24 * 4);
            assert_eq!((fallback.m, fallback.n, fallback.k), (1024, 4, 1024));
        }
        a => panic!("{a:?}"),
    }
    let off = engine(Switches { jgemm_off: true, ..ON }, false, 8);
    assert!(matches!(off.gemm_exec_plan(&plan), GemmAction::Cublas(_)));
    assert!(matches!(off.gemm_batch_jgemm(&g), GemmAction::Cublas(_)));
}

#[test]
fn constants_of_the_layer_kernel() {
    let e = engine(ON, false, 8);
    let s = LayerFusedSpec::new(&e.c, 0x123);
    assert_eq!((s.h, s.nqk, s.kvk, s.ffn, s.d), (1024, 2048, 1024, 3072, 128));
    assert_eq!((s.max_kv, s.total_pages, s.pp, s.block_len), (256, 16, 8, 32));
    assert_eq!((s.wnorm0, s.embed, s.pages), (0x123, e.c.embed, e.c.b.pages.ptr));
}

fn bits(v: &[f32]) -> Vec<u32> {
    v.iter().map(|f| f.to_bits()).collect()
}

#[test]
fn generation_until_the_end_of_the_sequence() {
    let mut g = Generation::start(&vec![4, 8], 10, Some(2), 0).unwrap();
    let s = g.next_step().unwrap();
    assert_eq!((s.token, s.pos, s.kv_len), (8, 2, 3));
    g.accept(&bits(&[0.0, 5.0, 1.0])).unwrap();
    let s = g.next_step().unwrap();
    assert_eq!((s.token, s.pos, s.kv_len), (1, 3, 4));
    g.accept(&bits(&[0.0, 5.0, 9.0])).unwrap();
    assert!(g.next_step().is_none());
    assert_eq!(g.out, vec![1]);
}

#[test]
fn generation_stops_at_its_limit() {
    let mut g = Generation::start(&vec![4], 2, None, 0x8000_0000).unwrap();
    for _ in 0..2 {
        assert!(g.next_step().is_some());
        g.accept(&bits(&[3.0, 1.0])).unwrap();
    }
    assert!(g.next_step().is_none());
    assert_eq!(g.out, vec![0, 0]);
    assert!(Generation::start(&vec![4], 0, None, 0).unwrap().next_step().is_none());
}

#[test]
fn generation_refusals() {
    let t = Generation::start(&vec![], 1, None, 1.0f32.to_bits()).unwrap_err();
    assert_eq!(
        t,
        EngineError::Sts(
            "temperature > 0 sampling not wired (record: host sampler pipeline)".to_string()
        )
    );
    let e = Generation::start(&vec![], 1, None, 0).unwrap_err();
    assert_eq!(e, EngineError::Sts("empty prompt".to_string()));
    let mut g = Generation::start(&vec![1], 1, None, 0).unwrap();
    assert_eq!(g.accept(&bits(&[f32::NAN, f32::NAN])), Err(EngineError::NaNLogits));
    assert!(g.next_step().is_some());
}
