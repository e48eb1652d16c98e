use reinfer_cuda::buffer::{DeviceBuffer, DeviceId};
use reinfer_cuda::decl::{GraphStepDecl, PtrUpdate, SpecAcc};
use reinfer_cuda::decl_split::expected_node_count;
use reinfer_cuda::decode::DecodeKernels;
use reinfer_cuda::dense::DenseKernels;
use reinfer_cuda::diff::DiffKernels;
use reinfer_cuda::fused::FusedDecodeKernels;
use reinfer_cuda::fused_step::{step_decode_launches_fused, step_decode_launches_layer_fused};
use reinfer_cuda::gemm::{Gemm, Jgemm};
use reinfer_cuda::graph::{KernelSpec, NodeRole};
use reinfer_cuda::graph_state::{
    check_capture_alignment, CaptureOutcome, GraphChoice, GraphExecStore, GraphState, NodeRead,
    Verdict,
};
use reinfer_cuda::launch::{CudaStream, Dim3, Launch, Queue};
use reinfer_cuda::layer_fused::LayerFusedKernels;
use reinfer_cuda::model::{LayerWeights, LlamaConfig, StepBuffers};
use reinfer_cuda::plans::DecodeGemmPlans;
use reinfer_cuda::split::{step_decode_split, StepMode};
use reinfer_cuda::step::{Program, StepCtx, StepKernels, StepOp};

#[test]
fn expected_node_count_formula() {
    assert_eq!(expected_node_count(28, true, false, false, false), 563);
    assert_eq!(expected_node_count(28, false, false, false, false), 507);
    assert_eq!(expected_node_count(1, true, false, false, false), 23);
    assert_eq!(expected_node_count(4, true, false, false, false), 83);
    assert_eq!(expected_node_count(4, false, false, false, false), 75);
    assert_eq!(expected_node_count(28, true, true, false, false), 760);
    assert_eq!(expected_node_count(28, false, true, false, false), 704);
    assert_eq!(expected_node_count(1, true, true, false, false), 31);
    assert_eq!(expected_node_count(4, true, true, false, false), 112);
    assert_eq!(expected_node_count(4, false, true, false, false), 104);
    assert_eq!(expected_node_count(28, true, true, true, false), 228);
    assert_eq!(expected_node_count(28, false, true, true, false), 228);
    assert_eq!(expected_node_count(28, true, false, true, false), 228);
    assert_eq!(expected_node_count(1, true, true, true, false), 12);
    assert_eq!(expected_node_count(4, true, true, true, false), 36);
    assert_eq!(expected_node_count(4, false, true, true, false), 36);
    assert_eq!(expected_node_count(28, true, true, true, true), 30);
    assert_eq!(expected_node_count(28, false, false, false, true), 30);
    assert_eq!(expected_node_count(1, true, true, true, true), 3);
    assert_eq!(expected_node_count(4, false, true, false, true), 6);
}

fn fake_decl(n_layers: usize) -> GraphStepDecl {
    let mut acc = SpecAcc::new();
    let g1 = Dim3 { x: 1, y: 1, z: 1 };
    let b256 = Dim3 { x: 256, y: 1, z: 1 };
    // gather (4 slots)
    acc.custom(None, 4, g1, b256, &[1, 2, 0, 4]);
    let cell_token = acc.cell_of(2);
    let mut refresh = vec![(acc.specs.len() - 1, 2)];
    let mut rope_q = Vec::new();
    let mut rope_k = Vec::new();
    let mut phys = Vec::new();
    let mut off = Vec::new();
    for _ in 0..n_layers {
        // rope q/k (6 slots, pos at 3)
        acc.custom(None, 6, g1, b256, &[0; 6]);
        refresh.push((acc.specs.len() - 1, 3));
        rope_q.push(acc.cell_of(3));
        acc.custom(None, 6, g1, b256, &[0; 6]);
        refresh.push((acc.specs.len() - 1, 3));
        rope_k.push(acc.cell_of(3));
        // kv_write (9 slots, phys/off at 3/4)
        acc.custom(None, 9, g1, b256, &[0; 9]);
        refresh.push((acc.specs.len() - 1, 3));
        refresh.push((acc.specs.len() - 1, 4));
        phys.push(acc.cell_of(3));
        off.push(acc.cell_of(4));
    }
    let mut updates = Vec::new();
    for (node, spec) in acc.specs.iter().enumerate() {
        let base = acc.cell_off[node];
        for (slot, _) in &spec.ptr_slots {
            updates.push(PtrUpdate { node, slot: *slot, cell: base + *slot });
        }
    }
    GraphStepDecl {
        specs: acc.specs,
        cell_off: acc.cell_off,
        cells: acc.cells,
        updates,
        cell_token,
        cell_rope_q_pos: rope_q,
        cell_rope_k_pos: rope_k,
        cell_kv_phys: phys,
        cell_kv_off: off,
        refresh,
    }
}

#[test]
fn write_step_cell_indices() {
    let mut decl = fake_decl(3);
    let n = decl.specs.len();
    assert_eq!(n, 3 * 3 + 1);
    let snapshot = decl.cells.clone();
    decl.write_step(42, 33, 3, 8);
    assert_eq!(decl.cells[decl.cell_token], 42);
    for li in 0..3 {
        assert_eq!(decl.cells[decl.cell_rope_q_pos[li]], 33);
        assert_eq!(decl.cells[decl.cell_rope_k_pos[li]], 33);
        assert_eq!(decl.cells[decl.cell_kv_phys[li]], (li * 8 + 1) as u64);
        assert_eq!(decl.cells[decl.cell_kv_off[li]], 1);
    }
    for (i, (before, after)) in snapshot.iter().zip(decl.cells.iter()).enumerate() {
        if i != decl.cell_token
            && !decl.cell_rope_q_pos.contains(&i)
            && !decl.cell_rope_k_pos.contains(&i)
            && !decl.cell_kv_phys.contains(&i)
            && !decl.cell_kv_off.contains(&i)
        {
            assert_eq!(before, after, "cell {i} must not change");
        }
    }
}

fn cfg(n_layer: usize, head_norm: bool) -> LlamaConfig {
    LlamaConfig {
        hidden_size: 1024,
        q_heads: 16,
        kv_heads: 8,
        head_dim: 128,
        ffn_hidden: 3072,
        vocab_size: 151936,
        n_layer,
        rms_eps: 0x3586_37bd,
        rope_theta: 0x4974_2400,
        q_scale: 0x3db5_04f3,
        head_norm,
    }
}

fn buf(ptr: u64) -> DeviceBuffer {
    DeviceBuffer { dev: DeviceId::new(0), ptr, len: 1 << 20 }
}

fn buffers() -> StepBuffers {
    let mut p = 0x1_0000_0000;
    let mut next = || {
        p += 0x10_0000;
        buf(p)
    };
    StepBuffers {
        pages: next(),
        lens: next(),
        x: next(),
        xn: next(),
        q: next(),
        k: next(),
        v: next(),
        attn: next(),
        down: next(),
        x32: next(),
        xn32: next(),
        attn32: next(),
        c_q: next(),
        c_k: next(),
        c_v: next(),
        c_o: next(),
        c_g: next(),
        c_u: next(),
        c_d: next(),
        logits: next(),
        scores: next(),
    }
}

fn layer(i: u64, head_norm: bool) -> LayerWeights {
    let at = |k: u64| buf(0x2_0000_0000 + i * 0x1000_0000 + k * 0x10_0000);
    LayerWeights {
        attn_norm: at(1),
        q_proj: at(2),
        k_proj: at(3),
        v_proj: at(4),
        qkv_proj: Some(at(5)),
        o_proj: at(6),
        q_norm: if head_norm { Some(at(7)) } else { None },
        k_norm: if head_norm { Some(at(8)) } else { None },
        ffn_norm: at(9),
        gate_proj: at(10),
        up_proj: at(11),
        down_proj: at(12),
    }
}

struct Model {
    c: StepCtx,
    k: StepKernels,
    layers: Vec<LayerWeights>,
    plans: DecodeGemmPlans,
}

fn model(n: usize, head_norm: bool) -> Model {
    let stream = CudaStream { dev: 0, handle: 5 };
    let c = StepCtx {
        on: Queue { dev: 0, stream },
        cfg: cfg(n, head_norm),
        b: buffers(),
        embed: 0x9_0000_0000,
        final_norm: 0x9_1000_0000,
        kv: 0x9_2000_0000,
        pp: 8,
    };
    let k = StepKernels {
        dense: DenseKernels::new("sm_120"),
        diff: DiffKernels::new("sm_120", stream),
        decode: DecodeKernels::new("sm_120", stream),
    };
    let layers: Vec<LayerWeights> = (0..n as u64).map(|i| layer(i, head_norm)).collect();
    let plans = DecodeGemmPlans::build(&c.cfg, &c.b, &layers, &buf(0x9_3000_0000), false);
    Model { c, k, layers, plans }
}

const PLAIN: StepMode = StepMode { trace: false, detail: false, flash_off: false };

/// The launches of a program, its GEMMs by the two-phase kernels.
fn launches(p: &Program, jg: &Jgemm, partials: u64, on: &Queue) -> Vec<Launch> {
    let mut out = Vec::new();
    for op in &p.ops {
        match op {
            StepOp::Launch(l) => out.push(again(l)),
            StepOp::Attn { flash, .. } => out.push(again(flash)),
            StepOp::Gemm(g) => {
                assert!(jg.matches(g));
                let (a, b) = jg.launch(&on.stream, g, partials);
                out.push(a);
                out.push(b);
            }
            StepOp::FlashRefused(_) => panic!("flash attention fits"),
            _ => {}
        }
    }
    out
}

fn again(l: &Launch) -> Launch {
    Launch {
        on: l.on,
        kernel: l.kernel,
        grid: l.grid,
        block: l.block,
        shared: l.shared,
        args: l.args.clone(),
    }
}

fn node_args(d: &GraphStepDecl, node: usize) -> Vec<u64> {
    let base = d.cell_off[node];
    let end = if node + 1 < d.cell_off.len() { d.cell_off[node + 1] } else { d.cells.len() };
    d.cells[base..end].to_vec()
}

fn same_node(spec: &KernelSpec, l: &Launch) {
    assert_eq!(spec.role, NodeRole::CustomKernel);
    assert_eq!(spec.kernel, Some(l.kernel));
    assert_eq!((spec.grid, spec.block, spec.shared), (l.grid, l.block, l.shared));
}

#[test]
fn split_declaration_is_the_step_it_declares() {
    for head_norm in [true, false] {
        let m = model(2, head_norm);
        let jg = Some(Jgemm::new(0));
        let mut d =
            GraphStepDecl::build(&m.c, &m.k, &m.layers, &m.plans, &jg, Some(0xabc0_0000));
        assert_eq!(d.specs().len(), expected_node_count(2, head_norm, true, false, false));
        assert!(d.is_all_custom());
        for (token, pos) in [(7u32, 0usize), (151935, 100), (3, 255)] {
            d.write_step(token, pos, 2, m.c.pp);
            let p =
                step_decode_split(&m.c, &m.k, &m.layers, &m.plans, token, pos, pos + 1, PLAIN);
            let ls = launches(&p, jg.as_ref().unwrap(), 0xabc0_0000, &m.c.on);
            assert_eq!(ls.len(), d.specs().len());
            for (i, l) in ls.iter().enumerate() {
                same_node(&d.specs()[i], l);
                assert_eq!(node_args(&d, i), l.args, "node {i}");
            }
        }
        // one update per cell, in order
        let total: usize = (0..d.specs().len()).map(|i| node_args(&d, i).len()).sum();
        assert_eq!(d.updates().len(), total);
        for (k, u) in d.updates().iter().enumerate() {
            assert_eq!(u.cell, k);
            assert_eq!(d.cell_off[u.node] + u.slot, u.cell);
        }
        // token, and per layer two positions, a page and a place
        let (q, layer) = if head_norm { (13, 27) } else { (11, 25) };
        let mut want = vec![(0, 2)];
        for at in [q, q + layer] {
            want.extend([(at, 3), (at + 1, 3), (at + 2, 3), (at + 2, 4)]);
        }
        assert_eq!(*d.refresh(), want);
    }
}

#[test]
fn cublas_declaration_has_one_node_per_gemm() {
    let m = model(1, true);
    let d = GraphStepDecl::build(&m.c, &m.k, &m.layers, &m.plans, &None, None);
    assert_eq!(d.specs().len(), 23);
    assert!(!d.is_all_custom());
    // node 2 is the query projection: 1 x 2048 x 1024
    assert_eq!(d.gemm_cells(2), Some((1, 2048, 1024)));
    assert_eq!(d.gemm_cells(0), None);
    assert_eq!(d.gemm_cells(99), None);
    let reads: Vec<NodeRead> = (0..23)
        .map(|i| match i {
            2 => NodeRead::Mnk { m: 1, n: 2048, k: 1024 },
            4 => NodeRead::Mnk { m: 1, n: 2048, k: 1024 },
            6 => NodeRead::MetaOnly,
            _ => NodeRead::Missing,
        })
        .collect();
    let v = check_capture_alignment(&d, &reads);
    assert_eq!(v[0], Verdict::Other);
    assert_eq!(v[2], Verdict::Aligned);
    // the key projection is 1 x 1024 x 1024
    assert_eq!(v[4], Verdict::Mismatched);
    assert_eq!(v[6], Verdict::MetaOnly);
    assert_eq!(v[22], Verdict::Missing);
    let call = Gemm::new(0).execute(&m.c.on.stream, &m.plans.layers[0].q);
    assert_eq!((call.m, call.n, call.k), (1, 2048, 1024));
}

fn fused(m: &Model) -> FusedDecodeKernels {
    let jg = Jgemm::new(0);
    let mut f = FusedDecodeKernels::new(0);
    let rows = f.build_plans(&jg, &m.plans, 0x10_0000_0000, 0x11_0000_0000).unwrap();
    assert_eq!(rows.len(), m.layers.len() * 7 + 1);
    f
}

#[test]
fn fused_declaration_is_the_step_it_declares() {
    let m = model(2, true);
    let f = fused(&m);
    let mut d = GraphStepDecl::build_fused(&m.c, &m.k, &f, &m.layers);
    assert_eq!(d.specs().len(), expected_node_count(2, true, true, true, false));
    d.write_step(11, 77, 2, m.c.pp);
    let p = step_decode_launches_fused(&m.c, &m.k, &f, &m.layers, 11, 77, 78, PLAIN).unwrap();
    let ls = launches(&p, &Jgemm::new(0), 0, &m.c.on);
    assert_eq!(ls.len(), d.specs().len());
    for (i, l) in ls.iter().enumerate() {
        same_node(&d.specs()[i], l);
        assert_eq!(node_args(&d, i), l.args, "node {i}");
    }
    // token, and one position per layer
    assert_eq!(*d.refresh(), [(0, 2), (3, 16), (11, 16)]);
}

#[test]
fn layer_fused_declaration_has_the_token_on_the_first_layer() {
    let m = model(3, true);
    let f = fused(&m);
    let lf = LayerFusedKernels {
        dev: 0,
        kernel_name: "layer".to_string(),
        const_ptr: 0x5000,
        bar_ptr: 0x6000,
        grid: 48,
        shared: 4096,
    };
    let mut d = GraphStepDecl::build_layer_fused(&m.c, &f, &lf, &m.layers);
    assert_eq!(d.specs().len(), expected_node_count(3, true, true, true, true));
    // the positions of all layers, and then the token of the first
    assert_eq!(*d.refresh(), [(0, 9), (1, 9), (2, 9), (0, 10)]);
    assert_eq!(d.cell_token, d.cell_off[0] + 10);
    d.write_step(9, 40, 3, m.c.pp);
    let p = step_decode_launches_layer_fused(&m.c, &f, &lf, &m.layers, 9, 40, 41, false);
    let ls = launches(&p, &Jgemm::new(0), 0, &m.c.on);
    assert_eq!(ls.len(), d.specs().len());
    for (i, l) in ls.iter().enumerate() {
        same_node(&d.specs()[i], l);
        let mut want = l.args.clone();
        if i == 1 || i == 2 {
            assert_eq!(want[10], 9);
            want[10] = 0;
        }
        assert_eq!(node_args(&d, i), want, "node {i}");
    }
    assert_eq!(d.cell_token, 10);
}

#[test]
fn buckets_are_captured_once_and_failures_stay_eager() {
    let mut g = GraphState::new(0, true);
    assert_eq!(g.decide(1, true, true, false), GraphChoice::Capture);
    assert_eq!(g.decide(1, false, true, false), GraphChoice::Eager);
    assert_eq!(g.decide(1, true, false, false), GraphChoice::Eager);
    assert_eq!(g.decide(1, true, true, true), GraphChoice::Eager);
    g.captured(1, CaptureOutcome::Captured(77));
    assert_eq!(g.decide(1, true, true, false), GraphChoice::Replay(77));
    assert_eq!(g.decide(2, true, true, false), GraphChoice::Capture);
    g.replayed(1, true);
    assert_eq!((g.captures, g.replays, g.eager_fallbacks), (1, 1, 0));
    g.replayed(1, false);
    assert_eq!(g.decide(1, true, true, false), GraphChoice::Eager);
    g.captured(2, CaptureOutcome::SeedFailed);
    g.captured(3, CaptureOutcome::Failed);
    assert_eq!(g.decide(2, true, true, false), GraphChoice::Eager);
    assert_eq!(g.decide(3, true, true, false), GraphChoice::Eager);
    assert_eq!((g.captures, g.replays, g.eager_fallbacks), (1, 1, 3));
    let off = GraphState::new(0, false);
    assert_eq!(off.decide(1, true, true, false), GraphChoice::Eager);
}

#[test]
fn exec_store_by_bucket() {
    let mut s = GraphExecStore::new(3);
    assert_eq!(s.dev, 3);
    assert!(!s.contains_key(4));
    s.insert(4, 100);
    s.insert(5, 200);
    assert_eq!(s.get(4), Some(100));
    s.insert(4, 101);
    assert_eq!(s.get(4), Some(101));
    s.remove(4);
    assert_eq!(s.get(4), None);
    assert!(s.contains_key(5));
}
