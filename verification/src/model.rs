//! The model that is served: its dimensions and its weights on the device.

use vstd::prelude::*;

use crate::buffer::DeviceBuffer;
use crate::math::wide_product;

verus! {

/// Tokens of a page of the KV store.
pub const BLOCK_LEN: usize = 32;

/// Dimensions and scalars of a Llama-style model; the scalars are `f32` bit
/// patterns.
#[derive(Debug, Clone, Copy, PartialEq, Eq, Structural)]
pub struct LlamaConfig {
    pub hidden_size: usize,
    pub q_heads: usize,
    pub kv_heads: usize,
    pub head_dim: usize,
    pub ffn_hidden: usize,
    pub vocab_size: usize,
    pub n_layer: usize,
    pub rms_eps: u32,
    pub rope_theta: u32,
    /// The reciprocal square root of `head_dim`, which scales the query.
    pub q_scale: u32,
    /// Whether query and key heads are normed.
    pub head_norm: bool,
}

impl LlamaConfig {
    /// Width of the query projection.
    pub open spec fn nqk(self) -> int {
        self.q_heads * self.head_dim
    }

    /// Width of the key and of the value projection.
    pub open spec fn kvk(self) -> int {
        self.kv_heads * self.head_dim
    }

    /// Query heads per key head.
    pub open spec fn ratio(self) -> int {
        self.q_heads as int / self.kv_heads as int
    }

    /// Dimensions of a model that can be served: none is zero, and twice an
    /// extent fits the kernels' integer parameters.
    pub open spec fn wf(self) -> bool {
        &&& 0 < self.n_layer
        &&& 0 < self.kv_heads
        &&& 0 < self.q_heads
        &&& 0 < self.head_dim
        &&& 0 < self.hidden_size < 0x4000_0000
        &&& 0 < self.ffn_hidden < 0x4000_0000
        &&& 0 < self.vocab_size < 0x4000_0000
        &&& self.nqk() < 0x4000_0000
        &&& self.kvk() < 0x4000_0000
    }
}

/// The widths that a configuration stands for.
#[derive(Debug, Clone, Copy, PartialEq, Eq, Structural)]
pub struct Widths {
    pub h: usize,
    pub nqk: usize,
    pub kvk: usize,
    pub ffn: usize,
    pub vocab: usize,
}

impl LlamaConfig {
    pub open spec fn widths_of(self) -> Widths {
        Widths {
            h: self.hidden_size,
            nqk: self.nqk() as usize,
            kvk: self.kvk() as usize,
            ffn: self.ffn_hidden,
            vocab: self.vocab_size,
        }
    }

    /// Widths of the projections.
    pub fn widths(&self) -> (w: Widths)
        requires
            self.wf(),
        ensures
            w == self.widths_of(),
            w.nqk == self.nqk(),
            w.kvk == self.kvk(),
    {
        Widths {
            h: self.hidden_size,
            nqk: self.q_heads * self.head_dim,
            kvk: self.kv_heads * self.head_dim,
            ffn: self.ffn_hidden,
            vocab: self.vocab_size,
        }
    }

    /// Whether the model can be served.
    pub fn fits(&self) -> (b: bool)
        ensures
            b == self.wf(),
    {
        0 < self.n_layer && 0 < self.kv_heads && 0 < self.q_heads && 0 < self.head_dim && 0
            < self.hidden_size && self.hidden_size < 0x4000_0000 && 0 < self.ffn_hidden
            && self.ffn_hidden < 0x4000_0000 && 0 < self.vocab_size && self.vocab_size
            < 0x4000_0000 && wide_product(self.q_heads, self.head_dim) < 0x4000_0000
            && wide_product(self.kv_heads, self.head_dim) < 0x4000_0000
    }

    pub proof fn lemma_heads(self)
        requires
            self.wf(),
        ensures
            self.q_heads <= self.nqk(),
            self.kv_heads <= self.kvk(),
            self.head_dim <= self.nqk(),
            0 < self.nqk(),
            0 < self.kvk(),
            0 <= self.ratio() <= self.q_heads,
    {
        let (q, k, d) = (self.q_heads as int, self.kv_heads as int, self.head_dim as int);
        assert(q <= q * d && d <= q * d && 0 < q * d) by (nonlinear_arith)
            requires
                q > 0,
                d > 0,
        ;
        assert(k <= k * d && 0 < k * d) by (nonlinear_arith)
            requires
                k > 0,
                d > 0,
        ;
        vstd::arithmetic::div_mod::lemma_div_is_ordered_by_denominator(q, 1, k);
        vstd::arithmetic::div_mod::lemma_div_pos_is_pos(q, k);
    }
}

/// Weights of a layer on the device.  The matrices are stored `[in x out]`.
#[derive(Debug, Clone, Copy, PartialEq, Eq, Structural)]
pub struct LayerWeights {
    pub attn_norm: DeviceBuffer,
    pub q_proj: DeviceBuffer,
    pub k_proj: DeviceBuffer,
    pub v_proj: DeviceBuffer,
    /// Query, key and value projections joined row by row; not on the `f32`
    /// tier.
    pub qkv_proj: Option<DeviceBuffer>,
    pub o_proj: DeviceBuffer,
    pub q_norm: Option<DeviceBuffer>,
    pub k_norm: Option<DeviceBuffer>,
    pub ffn_norm: DeviceBuffer,
    pub gate_proj: DeviceBuffer,
    pub up_proj: DeviceBuffer,
    pub down_proj: DeviceBuffer,
}

/// Activation buffers of a decode step.
#[derive(Debug, Clone, Copy, PartialEq, Eq, Structural)]
pub struct StepBuffers {
    pub pages: DeviceBuffer,
    pub lens: DeviceBuffer,
    pub x: DeviceBuffer,
    pub xn: DeviceBuffer,
    pub q: DeviceBuffer,
    pub k: DeviceBuffer,
    pub v: DeviceBuffer,
    pub attn: DeviceBuffer,
    pub down: DeviceBuffer,
    pub x32: DeviceBuffer,
    pub xn32: DeviceBuffer,
    pub attn32: DeviceBuffer,
    pub c_q: DeviceBuffer,
    pub c_k: DeviceBuffer,
    pub c_v: DeviceBuffer,
    pub c_o: DeviceBuffer,
    pub c_g: DeviceBuffer,
    pub c_u: DeviceBuffer,
    pub c_d: DeviceBuffer,
    pub logits: DeviceBuffer,
    pub scores: DeviceBuffer,
}

} // verus!
