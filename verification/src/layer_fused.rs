//! The layer kernel: one persistent launch per decoder layer.

use vstd::prelude::*;

use crate::launch::{launch_rows, rows_launch, CudaStream, Kernel, Launch, LaunchV, Queue};
use crate::model::BLOCK_LEN;
use crate::step::StepCtx;

verus! {

/// A loaded layer kernel: its symbol, its resident grid and shared memory, and
/// the addresses of its constants and of its barrier.
#[derive(Debug)]
pub struct LayerFusedKernels {
    pub dev: u32,
    pub kernel_name: String,
    pub const_ptr: u64,
    pub bar_ptr: u64,
    pub grid: u32,
    pub shared: u32,
}

/// The launch of one layer.
pub open spec fn layer_launch(
    on: Queue,
    k: LayerFusedKernels,
    table: u64,
    wnext: u64,
    ffn_norm: u64,
    wq: u64,
    wk: u64,
    li: u32,
    n_layers: u32,
    pos: u32,
    token: u32,
) -> LaunchV {
    rows_launch(
        on,
        Kernel::LayerFused,
        k.grid,
        512,
        k.shared,
        seq![
            k.const_ptr,
            table,
            wnext,
            ffn_norm,
            wq,
            wk,
            k.bar_ptr,
            li as u64,
            n_layers as u64,
            pos as u64,
            token as u64,
        ],
    )
}

impl LayerFusedKernels {
    /// The launch of one layer: its rows of the plan table, the norm weights of
    /// what follows, and the step's position and token.
    pub fn launch(
        &self,
        stream: &CudaStream,
        table: u64,
        wnext: u64,
        ffn_norm: u64,
        wq: u64,
        wk: u64,
        li: u32,
        n_layers: u32,
        pos: u32,
        token: u32,
    ) -> (l: Launch)
        ensures
            l@ == layer_launch(
                (Queue { dev: self.dev, stream: *stream }),
                *self,
                table,
                wnext,
                ffn_norm,
                wq,
                wk,
                li,
                n_layers,
                pos,
                token,
            ),
    {
        launch_rows(
            Queue { dev: self.dev, stream: *stream },
            Kernel::LayerFused,
            self.grid,
            512,
            self.shared,
            vec![
                self.const_ptr,
                table,
                wnext,
                ffn_norm,
                wq,
                wk,
                self.bar_ptr,
                li as u64,
                n_layers as u64,
                pos as u64,
                token as u64,
            ],
        )
    }
}

/// What the layer kernel's constants are made of.
#[derive(Debug, Clone, Copy, PartialEq, Eq, Structural)]
pub struct LayerFusedSpec {
    pub h: usize,
    pub nqk: usize,
    pub kvk: usize,
    pub ffn: usize,
    pub d: usize,
    pub q_heads: usize,
    pub kv_heads: usize,
    pub block_len: usize,
    pub max_kv: usize,
    pub total_pages: usize,
    pub pp: usize,
    pub eta: u32,
    pub eps: u32,
    pub head_norm: bool,
    pub embed: u64,
    pub x: u64,
    pub xn: u64,
    pub q16: u64,
    pub k16: u64,
    pub v16: u64,
    pub attn: u64,
    pub kv: u64,
    pub lens: u64,
    pub pages: u64,
    pub wnorm0: u64,
}

/// The constants of a context, where `wnorm0` are the norm weights of the first
/// layer.
pub open spec fn spec_of(c: StepCtx, wnorm0: u64) -> LayerFusedSpec {
    LayerFusedSpec {
        h: c.cfg.hidden_size,
        nqk: c.cfg.nqk() as usize,
        kvk: c.cfg.kvk() as usize,
        ffn: c.cfg.ffn_hidden,
        d: c.cfg.head_dim,
        q_heads: c.cfg.q_heads,
        kv_heads: c.cfg.kv_heads,
        block_len: BLOCK_LEN,
        max_kv: c.cap() as usize,
        total_pages: c.pages() as usize,
        pp: c.pp,
        eta: c.cfg.rope_theta,
        eps: c.cfg.rms_eps,
        head_norm: c.cfg.head_norm,
        embed: c.embed,
        x: c.b.x.ptr,
        xn: c.b.xn.ptr,
        q16: c.b.q.ptr,
        k16: c.b.k.ptr,
        v16: c.b.v.ptr,
        attn: c.b.attn.ptr,
        kv: c.kv,
        lens: c.b.lens.ptr,
        pages: c.b.pages.ptr,
        wnorm0,
    }
}

impl LayerFusedSpec {
    /// The constants of a context.
    pub fn new(c: &StepCtx, wnorm0: u64) -> (s: Self)
        requires
            c.wf(),
        ensures
            s == spec_of(*c, wnorm0),
    {
        let w = c.cfg.widths();
        let n = c.nums();
        LayerFusedSpec {
            h: w.h,
            nqk: w.nqk,
            kvk: w.kvk,
            ffn: w.ffn,
            d: c.cfg.head_dim,
            q_heads: c.cfg.q_heads,
            kv_heads: c.cfg.kv_heads,
            block_len: BLOCK_LEN,
            max_kv: n.max_kv as usize,
            total_pages: n.total_pages as usize,
            pp: c.pp,
            eta: c.cfg.rope_theta,
            eps: c.cfg.rms_eps,
            head_norm: c.cfg.head_norm,
            embed: c.embed,
            x: c.b.x.ptr,
            xn: c.b.xn.ptr,
            q16: c.b.q.ptr,
            k16: c.b.k.ptr,
            v16: c.b.v.ptr,
            attn: c.b.attn.ptr,
            kv: c.kv,
            lens: c.b.lens.ptr,
            pages: c.b.pages.ptr,
            wnorm0,
        }
    }
}

} // verus!
