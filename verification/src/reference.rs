//! What a step of a Llama-style model computes, in terms of the model and of what is
//! asked: the rows that every form of a step has to leave behind.

use vstd::prelude::*;

use crate::meaning::{
    gated, half, head_norm, norm, product, rotated, scaled, sum, Row, Slot, Source,
};
use crate::model::{LayerWeights, LlamaConfig};

verus! {

/// A model: its dimensions, and where its weights are.
pub struct Net {
    pub g: LlamaConfig,
    pub embed: int,
    pub layers: Seq<LayerWeights>,
    pub final_norm: int,
    pub lm_head: int,
}

/// What is asked of a step: a token at a position, attending over `len` tokens, whose
/// keys and values are in the cache at `kv` of `pages` pages.  The request's pages start
/// at `base`, `pp` for every layer.  In a prompt, attention reads the rows of the prompt.
pub struct Ask {
    pub token: int,
    pub pos: int,
    pub len: int,
    pub kv: int,
    pub pages: int,
    pub base: int,
    pub pp: int,
    pub prompt: bool,
}

/// Tokens of a page.
pub open spec fn page_tokens() -> int {
    32
}

impl Net {
    pub open spec fn h(self) -> int {
        self.g.hidden_size as int
    }

    pub open spec fn eps(self) -> int {
        self.g.rms_eps as int
    }

    /// The norm of a hidden row.
    pub open spec fn normed(self, x: Row, w: int) -> Row {
        norm(x, w, self.h(), self.eps())
    }

    /// A projection of a normed row to `heads` heads, in `f16`.
    pub open spec fn projected(self, xn: Row, w: int, heads: int) -> Row {
        let n = heads * self.g.head_dim;
        half(product(xn, w, n, self.h()), n)
    }

    /// Heads with their norm, where the layer has both norms, at a position.
    pub open spec fn placed(
        self,
        p: Row,
        norms: bool,
        w: int,
        heads: int,
        pos: int,
        scale: int,
    ) -> Row {
        let p = if norms {
            head_norm(p, w, heads, self.g.head_dim as int, self.eps())
        } else {
            p
        };
        let halves = self.g.head_dim as int / 2;
        scaled(rotated(p, heads, halves, pos, self.g.rope_theta as int), scale)
    }

    pub open spec fn has_norms(self, w: LayerWeights) -> bool {
        w.q_norm is Some && w.k_norm is Some
    }

    /// The query, with the attention scale.
    pub open spec fn query(self, x: Row, w: LayerWeights, pos: int) -> Row {
        let xn = self.normed(x, w.attn_norm.ptr as int);
        let p = self.projected(xn, w.q_proj.ptr as int, self.g.q_heads as int);
        self.placed(
            p,
            self.has_norms(w),
            w.q_norm->0.ptr as int,
            self.g.q_heads as int,
            pos,
            self.g.q_scale as int,
        )
    }

    pub open spec fn key(self, x: Row, w: LayerWeights, pos: int) -> Row {
        let xn = self.normed(x, w.attn_norm.ptr as int);
        let p = self.projected(xn, w.k_proj.ptr as int, self.g.kv_heads as int);
        self.placed(
            p,
            self.has_norms(w),
            w.k_norm->0.ptr as int,
            self.g.kv_heads as int,
            pos,
            0x3f80_0000,
        )
    }

    pub open spec fn value(self, x: Row, w: LayerWeights) -> Row {
        let xn = self.normed(x, w.attn_norm.ptr as int);
        self.projected(xn, w.v_proj.ptr as int, self.g.kv_heads as int)
    }

    /// Where a layer's tokens are read from.
    pub open spec fn source(self, ask: Ask, li: int) -> Source {
        if ask.prompt {
            Source::Prompt
        } else {
            Source::Cache {
                kv: ask.kv,
                pages: ask.pages,
                page: ask.base + li * ask.pp,
                block_len: page_tokens(),
            }
        }
    }

    pub open spec fn attention(self, x: Row, w: LayerWeights, ask: Ask, li: int) -> Row {
        Row::Attention {
            q: Box::new(self.query(x, w, ask.pos)),
            key: Box::new(self.key(x, w, ask.pos)),
            value: Box::new(self.value(x, w)),
            at: ask.pos,
            len: ask.len,
            from: self.source(ask, li),
            heads: self.g.q_heads as int,
            ratio: self.g.q_heads as int / self.g.kv_heads as int,
            kv_heads: self.g.kv_heads as int,
            d: self.g.head_dim as int,
        }
    }

    /// A residual row with the product of a row, in `f16`, added.
    pub open spec fn plus(self, x: Row, of: Row, w: int, k: int) -> Row {
        sum(x, half(product(of, w, self.h(), k), self.h()), self.h())
    }

    /// The residual row after attention.
    pub open spec fn attended(self, x: Row, w: LayerWeights, ask: Ask, li: int) -> Row {
        let a = self.attention(x, w, ask, li);
        self.plus(x, a, w.o_proj.ptr as int, self.g.q_heads * self.g.head_dim)
    }

    /// The gated row of a residual row.
    pub open spec fn gate(self, y: Row, w: LayerWeights) -> Row {
        let (yn, f) = (self.normed(y, w.ffn_norm.ptr as int), self.g.ffn_hidden as int);
        gated(
            half(product(yn, w.gate_proj.ptr as int, f, self.h()), f),
            half(product(yn, w.up_proj.ptr as int, f, self.h()), f),
            f,
        )
    }

    /// The residual row after a layer.
    pub open spec fn layer(self, x: Row, ask: Ask, li: int) -> Row {
        let w = self.layers[li];
        let y = self.attended(x, w, ask, li);
        self.plus(y, self.gate(y, w), w.down_proj.ptr as int, self.g.ffn_hidden as int)
    }

    /// The residual row after the first `n` layers.
    pub open spec fn hidden(self, ask: Ask, n: nat) -> Row
        decreases n,
    {
        if n == 0 {
            Row::Embedding { table: self.embed, token: ask.token, n: self.h() }
        } else {
            self.layer(self.hidden(ask, (n - 1) as nat), ask, n - 1)
        }
    }

    /// The logits.
    pub open spec fn logits(self, ask: Ask) -> Row {
        let x = self.hidden(ask, self.layers.len());
        product(self.normed(x, self.final_norm), self.lm_head, self.g.vocab_size as int, self.h())
    }

    /// The cache slot of the token on a layer whose input is `x`.
    pub open spec fn slot(self, x: Row, ask: Ask, li: int) -> Slot {
        let w = self.layers[li];
        Slot {
            kv: ask.kv,
            pages: ask.pages,
            page: ask.base + li * ask.pp + ask.pos / page_tokens(),
            place: ask.pos % page_tokens(),
            block_len: page_tokens(),
            kv_heads: self.g.kv_heads as int,
            d: self.g.head_dim as int,
            key: self.key(x, w, ask.pos),
            value: self.value(x, w),
        }
    }

    /// The rows of the first `n` layers that a trace keeps: in detail the residual row, its
    /// norm, the query and the attention output of every layer; and the residual row after
    /// every layer.
    pub open spec fn kept(self, ask: Ask, n: nat, detail: bool, trace: bool) -> Seq<Row>
        decreases n,
    {
        if n == 0 {
            Seq::empty()
        } else {
            let (w, x) = (self.layers[n - 1], self.hidden(ask, (n - 1) as nat));
            let s = self.kept(ask, (n - 1) as nat, detail, trace);
            let s = if detail {
                s.push(x).push(self.normed(x, w.attn_norm.ptr as int)).push(
                    self.query(x, w, ask.pos),
                ).push(self.attention(x, w, ask, n - 1))
            } else {
                s
            };
            if trace {
                s.push(self.hidden(ask, n))
            } else {
                s
            }
        }
    }

    /// The cache slots of the token on the first `n` layers.
    pub open spec fn slots(self, ask: Ask, n: nat) -> Seq<Slot>
        decreases n,
    {
        if n == 0 {
            Seq::empty()
        } else {
            let x = self.hidden(ask, (n - 1) as nat);
            self.slots(ask, (n - 1) as nat).push(self.slot(x, ask, n - 1))
        }
    }
}

/// Addresses of different buffers.
pub open spec fn apart(a: Seq<int>) -> bool {
    forall|i: int, j: int| 0 <= i < j < a.len() ==> a[i] != a[j]
}

} // verus!
