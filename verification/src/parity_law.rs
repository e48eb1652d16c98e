//! That the step on the `f32` tier computes the model's step, with no cast but that of the
//! keys and values in the cache.

use vstd::prelude::*;

use crate::buffer::DeviceBuffer;
use crate::decode::flash_fits;
use crate::gemm::{ComputeType, DataType, GemmPlan, Transpose};
use crate::launch::{Kernel, LaunchV};
use crate::meaning::{
    attend, covers, gated, half, head_norm, launched, lemma_blocks_cover, norm, one, product,
    rotated, scaled, set_up, sum, Memory, Row, Slot, Under,
};
use crate::model::LayerWeights;
use crate::parity::{
    attn32_ops, ffn32_ops, head_at, head_norm32_ops, head_norms32, head_ropes32, l_flash32,
    l_naive32, l_rms32, layers32_ops, parity_ops, qkv32_ops,
};
use crate::plans::{head_plan, layer_plans, plans_of, DecodeGemmPlans, LayerGemmPlans};
use crate::reference::{apart, page_tokens, Ask, Net};
use crate::split::l_kv_write;
use crate::split_law::{
    ask_of, entry, has_pages, has_room, lemma_place, lemma_widths, net_of, place_of, ready, under,
};
use crate::step::{
    attention, begin, close, end, gemm, lemma_layer_page, run, start, upload_lens, StepCtx,
    StepOpV, SEG_ATTN, SEG_LM_HEAD, SEG_SMALL,
};
use crate::{dense, diff};

verus! {

impl Net {
    /// Heads of the `f32` tier with their norm, where the layer has both norms, at a
    /// position.
    pub open spec fn placed32(self, p: Row, norms: bool, w: int, heads: int, pos: int) -> Row {
        let d = self.g.head_dim as int;
        let p = if norms {
            head_norm(p, w, heads, d, self.eps())
        } else {
            p
        };
        rotated(p, heads, d / 2, pos, self.g.rope_theta as int)
    }

    /// A projection of a hidden row to `heads` heads.
    pub open spec fn projected32(self, x: Row, w: LayerWeights, p: int, heads: int) -> Row {
        product(self.normed(x, w.attn_norm.ptr as int), p, heads * self.g.head_dim, self.h())
    }

    pub open spec fn query32(self, x: Row, w: LayerWeights, pos: int) -> Row {
        let heads = self.g.q_heads as int;
        let p = self.projected32(x, w, w.q_proj.ptr as int, heads);
        scaled(
            self.placed32(p, self.has_norms(w), w.q_norm->0.ptr as int, heads, pos),
            self.g.q_scale as int,
        )
    }

    /// The key as the cache holds it.
    pub open spec fn key32(self, x: Row, w: LayerWeights, pos: int) -> Row {
        let heads = self.g.kv_heads as int;
        let p = self.projected32(x, w, w.k_proj.ptr as int, heads);
        half(
            self.placed32(p, self.has_norms(w), w.k_norm->0.ptr as int, heads, pos),
            heads * self.g.head_dim,
        )
    }

    /// The value as the cache holds it.
    pub open spec fn value32(self, x: Row, w: LayerWeights) -> Row {
        let heads = self.g.kv_heads as int;
        half(self.projected32(x, w, w.v_proj.ptr as int, heads), heads * self.g.head_dim)
    }

    pub open spec fn attention32(self, x: Row, w: LayerWeights, ask: Ask, li: int) -> Row {
        Row::Attention {
            q: Box::new(self.query32(x, w, ask.pos)),
            key: Box::new(self.key32(x, w, ask.pos)),
            value: Box::new(self.value32(x, w)),
            at: ask.pos,
            len: ask.len,
            from: self.source(ask, li),
            heads: self.g.q_heads as int,
            ratio: self.g.q_heads as int / self.g.kv_heads as int,
            kv_heads: self.g.kv_heads as int,
            d: self.g.head_dim as int,
        }
    }

    /// A residual row with the product of a row added.
    pub open spec fn plus32(self, x: Row, of: Row, w: int, k: int) -> Row {
        sum(x, product(of, w, self.h(), k), self.h())
    }

    /// The residual row after the feed-forward half.
    pub open spec fn fed32(self, y: Row, w: LayerWeights) -> Row {
        let (yn, f) = (self.normed(y, w.ffn_norm.ptr as int), self.g.ffn_hidden as int);
        let g = gated(
            product(yn, w.gate_proj.ptr as int, f, self.h()),
            product(yn, w.up_proj.ptr as int, f, self.h()),
            f,
        );
        self.plus32(y, g, w.down_proj.ptr as int, f)
    }

    /// The residual row after a layer.
    pub open spec fn layer32(self, x: Row, ask: Ask, li: int) -> Row {
        let w = self.layers[li];
        let a = self.attention32(x, w, ask, li);
        self.fed32(self.plus32(x, a, w.o_proj.ptr as int, self.g.q_heads * self.g.head_dim), w)
    }

    /// The residual row after the first `n` layers.
    pub open spec fn hidden32(self, ask: Ask, n: nat) -> Row
        decreases n,
    {
        if n == 0 {
            Row::Embedding { table: self.embed, token: ask.token, n: self.h() }
        } else {
            self.layer32(self.hidden32(ask, (n - 1) as nat), ask, n - 1)
        }
    }

    /// The logits of the `f32` tier.
    pub open spec fn logits32(self, ask: Ask) -> Row {
        let x = self.hidden32(ask, self.layers.len());
        product(self.normed(x, self.final_norm), self.lm_head, self.g.vocab_size as int, self.h())
    }

    /// The cache slot of the token on a layer whose input is `x`.
    pub open spec fn slot32(self, x: Row, ask: Ask, li: int) -> Slot {
        let w = self.layers[li];
        Slot {
            kv: ask.kv,
            pages: ask.pages,
            page: ask.base + li * ask.pp + ask.pos / page_tokens(),
            place: ask.pos % page_tokens(),
            block_len: page_tokens(),
            kv_heads: self.g.kv_heads as int,
            d: self.g.head_dim as int,
            key: self.key32(x, w, ask.pos),
            value: self.value32(x, w),
        }
    }

    /// The cache slots of the token on the first `n` layers.
    pub open spec fn slots32(self, ask: Ask, n: nat) -> Seq<Slot>
        decreases n,
    {
        if n == 0 {
            Seq::empty()
        } else {
            let x = self.hidden32(ask, (n - 1) as nat);
            self.slots32(ask, (n - 1) as nat).push(self.slot32(x, ask, n - 1))
        }
    }
}

/// Rows whose heads are worked on one at a time: those of the query and of the key.
pub struct Heads {
    pub q: int,
    pub q_heads: int,
    pub k: int,
    pub k_heads: int,
    pub d: int,
}

/// Whether an address is that of a head in a row of `f32` heads.
pub open spec fn is_head(a: int, base: int, heads: int, d: int) -> bool {
    let h = (a - base) / (d * 4);
    base + h * d * 4 == a && 0 <= h < heads
}

/// A row with the norm of one more head, which is relied on where the heads come in order.
pub open spec fn next_normed(r: Row, h: int, w: int, d: int, eps: int) -> Row {
    if h == 0 {
        head_norm(r, w, 1, d, eps)
    } else {
        match r {
            Row::HeadNorm { of, w: w0, heads, d: d0, eps: e0 } => if heads == h && w0 == w && d0
                == d && e0 == eps {
                head_norm(*of, w, h + 1, d, eps)
            } else {
                Row::Lost
            },
            _ => Row::Lost,
        }
    }
}

/// A row with the rotary embedding of one more head.
pub open spec fn next_rotated(r: Row, h: int, halves: int, pos: int, eta: int) -> Row {
    if h == 0 {
        rotated(r, 1, halves, pos, eta)
    } else {
        match r {
            Row::Rotated { of, heads, half: h0, pos: p0, eta: e0 } => if heads == h && h0 == halves
                && p0 == pos && e0 == eta {
                rotated(*of, h + 1, halves, pos, eta)
            } else {
                Row::Lost
            },
            _ => Row::Lost,
        }
    }
}

/// Where the row of the head at an address begins.
pub open spec fn row_of(z: Heads, a: int) -> Option<int> {
    if is_head(a, z.q, z.q_heads, z.d) {
        Some(z.q)
    } else if is_head(a, z.k, z.k_heads, z.d) {
        Some(z.k)
    } else {
        None
    }
}

/// What a launch of the `f32` step does.
pub open spec fn launched32(m: Memory, l: LaunchV, u: Under, z: Heads) -> Memory {
    let a = l.args.map_values(|w: u64| w as int);
    if !set_up(l, u.on) {
        Memory::lost()
    } else {
        match l.kernel {
            Kernel::GatherRowF32 => if covers(l, a[3]) {
                m.put(a[1], Row::Embedding { table: a[0], token: a[2], n: a[3] })
            } else {
                Memory::lost()
            },
            Kernel::RmsNormRow => if l.grid.x != 1 {
                Memory::lost()
            } else if a[0] != a[2] {
                m.put(a[2], norm(m.at(a[0]), a[1], a[3], a[4]))
            } else if row_of(z, a[0]) is Some && a[3] == z.d {
                let base = row_of(z, a[0])->0;
                let h = (a[0] - base) / (z.d * 4);
                m.put(base, next_normed(m.at(base), h, a[1], z.d, a[4]))
            } else {
                Memory::lost()
            },
            Kernel::RopeRow => if l.grid.x == 1 && a[0] == a[1] && row_of(z, a[0]) is Some && a[2]
                <= l.block.x {
                let base = row_of(z, a[0])->0;
                let h = (a[0] - base) / (z.d * 4);
                m.put(base, next_rotated(m.at(base), h, a[2], a[3], a[4]))
            } else {
                Memory::lost()
            },
            Kernel::ScaleF32 => if covers(l, a[1]) {
                m.put(a[0], scaled(m.at(a[0]), a[2]))
            } else {
                Memory::lost()
            },
            Kernel::DecodeStepGqaFlashF32 => if l.grid.x == a[6] && a[5] == 1 && a[13] == 1
                && m.words[a[3]] <= a[11] && l.shared == (a[7] + a[11]) * 4 {
                m.put(
                    a[4],
                    attend(
                        m,
                        m.at(a[0]),
                        m.words[a[3]],
                        a[2],
                        a[12],
                        m.words[a[1]],
                        a[8],
                        a[6],
                        a[9],
                        a[10],
                        a[7],
                    ),
                )
            } else {
                Memory::lost()
            },
            Kernel::DecodeStepGqaF32 => if l.grid.x == a[7] && a[6] == 1 && m.words[a[3]]
                <= a[12] {
                m.put(
                    a[5],
                    attend(
                        m,
                        m.at(a[0]),
                        m.words[a[3]],
                        a[2],
                        a[13],
                        m.words[a[1]],
                        a[9],
                        a[7],
                        a[10],
                        a[11],
                        a[8],
                    ),
                )
            } else {
                Memory::lost()
            },
            Kernel::AddF32Inplace => if covers(l, a[2]) {
                m.put(a[0], sum(m.at(a[0]), m.at(a[1]), a[2]))
            } else {
                Memory::lost()
            },
            Kernel::SwigluF32 => if covers(l, a[3]) {
                m.put(a[2], gated(m.at(a[0]), m.at(a[1]), a[3]))
            } else {
                Memory::lost()
            },
            _ => launched(m, l, u.on),
        }
    }
}

/// Whether a product is one of an `f32` row with an `f32` matrix whose rows lie one after
/// the other.
pub open spec fn is_row_product32(p: GemmPlan) -> bool {
    &&& p.m == 1
    &&& p.trans_a == Transpose::T && p.ld_a == p.k
    &&& p.trans_b == Transpose::T && p.ld_b == p.n
    &&& p.ld_c == 1
    &&& p.a_dt == DataType::F32 && p.b_dt == DataType::F32 && p.c_dt == DataType::F32
    &&& p.compute == ComputeType::F32
    &&& p.alpha == one() && p.beta == 0
}

/// What an operation of the `f32` step does.
pub open spec fn performed32(m: Memory, o: StepOpV, u: Under, z: Heads) -> Memory {
    match o {
        StepOpV::Launch(l) => launched32(m, l, u, z),
        StepOpV::Gemm(p) => if is_row_product32(p) {
            m.put(p.c as int, product(m.at(p.a as int), p.b as int, p.n as int, p.k as int))
        } else {
            Memory::lost()
        },
        StepOpV::Attn { flash, naive } => if u.lost {
            launched32(m, naive, u, z)
        } else {
            launched32(m, flash, u, z)
        },
        StepOpV::FlashRefused(l) => launched32(m, l, u, z),
        StepOpV::UploadLens(n) => Memory { words: m.words.insert(u.lens, n as int), ..m },
        _ => m,
    }
}

/// What a program of the `f32` step does.
pub open spec fn after32(m: Memory, ops: Seq<StepOpV>, u: Under, z: Heads) -> Memory
    decreases ops.len(),
{
    if ops.len() == 0 {
        m
    } else {
        performed32(after32(m, ops.drop_last(), u, z), ops.last(), u, z)
    }
}

broadcast proof fn lemma_push(m: Memory, ops: Seq<StepOpV>, o: StepOpV, u: Under, z: Heads)
    ensures
        #[trigger] after32(m, ops.push(o), u, z) == performed32(after32(m, ops, u, z), o, u, z),
{
    assert(ops.push(o).drop_last() =~= ops);
}

/// The buffers of the `f32` step.
pub open spec fn step32_rows(c: StepCtx) -> Seq<int> {
    let b = c.b;
    seq![
        b.x32.ptr as int,
        b.xn32.ptr as int,
        b.c_q.ptr as int,
        b.c_k.ptr as int,
        b.c_v.ptr as int,
        b.k.ptr as int,
        b.v.ptr as int,
        b.attn32.ptr as int,
        b.c_o.ptr as int,
        b.c_g.ptr as int,
        b.c_u.ptr as int,
        b.logits.ptr as int,
    ]
}

/// The rows of heads of a context.
pub open spec fn heads_of(c: StepCtx) -> Heads {
    Heads {
        q: c.b.c_q.ptr as int,
        q_heads: c.cfg.q_heads as int,
        k: c.b.c_k.ptr as int,
        k_heads: c.cfg.kv_heads as int,
        d: c.cfg.head_dim as int,
    }
}

/// Whether the rows of heads lie in memory, apart from each other.
pub open spec fn heads_apart(z: Heads) -> bool {
    &&& z.q + z.q_heads * z.d * 4 <= u64::MAX
    &&& z.k + z.k_heads * z.d * 4 <= u64::MAX
    &&& z.q + z.q_heads * z.d * 4 <= z.k || z.k + z.k_heads * z.d * 4 <= z.q
}

spec fn named(c: StepCtx) -> bool {
    let (s, b) = (step32_rows(c), c.b);
    &&& place_of(s, b.x32.ptr as int) == 0
    &&& place_of(s, b.xn32.ptr as int) == 1
    &&& place_of(s, b.c_q.ptr as int) == 2
    &&& place_of(s, b.c_k.ptr as int) == 3
    &&& place_of(s, b.c_v.ptr as int) == 4
    &&& place_of(s, b.k.ptr as int) == 5
    &&& place_of(s, b.v.ptr as int) == 6
    &&& place_of(s, b.attn32.ptr as int) == 7
    &&& place_of(s, b.c_o.ptr as int) == 8
    &&& place_of(s, b.c_g.ptr as int) == 9
    &&& place_of(s, b.c_u.ptr as int) == 10
    &&& place_of(s, b.logits.ptr as int) == 11
}

proof fn lemma_named(c: StepCtx)
    requires
        apart(step32_rows(c)),
    ensures
        named(c),
{
    let s = step32_rows(c);
    lemma_place(s, 0);
    lemma_place(s, 1);
    lemma_place(s, 2);
    lemma_place(s, 3);
    lemma_place(s, 4);
    lemma_place(s, 5);
    lemma_place(s, 6);
    lemma_place(s, 7);
    lemma_place(s, 8);
    lemma_place(s, 9);
    lemma_place(s, 10);
    lemma_place(s, 11);
}

/// Whether heads of a row can be found.
spec fn finds(z: Heads, base: int, heads: int) -> bool {
    &&& z.d > 0
    &&& heads_apart(z)
    &&& base == z.q && heads == z.q_heads || base == z.k && heads == z.k_heads
}

/// Every head is found in its row.
proof fn lemma_head(z: Heads, base: int, heads: int, h: int)
    requires
        finds(z, base, heads),
        0 <= h < heads,
    ensures
        0 <= h * z.d * 4,
        base + h * z.d * 4 <= base + heads * z.d * 4,
        row_of(z, base + h * z.d * 4) == Some(base),
        (h * z.d * 4) / (z.d * 4) == h,
{
    let w = z.d * 4;
    let a = base + h * z.d * 4;
    assert(h * z.d * 4 == h * w && heads * z.d * 4 == heads * w && z.q_heads * z.d * 4 == z.q_heads
        * w) by (nonlinear_arith)
        requires
            w == z.d * 4,
    ;
    assert(0 <= h * w && h * w + w <= heads * w) by (nonlinear_arith)
        requires
            0 <= h,
            h + 1 <= heads,
            w > 0,
    ;
    vstd::arithmetic::div_mod::lemma_div_by_multiple(h, w);
    assert(is_head(a, base, heads, z.d));
    if base != z.q || heads != z.q_heads {
        let g = (a - z.q) / w;
        assert(g * z.d * 4 == g * w) by (nonlinear_arith)
            requires
                w == z.d * 4,
        ;
        if is_head(a, z.q, z.q_heads, z.d) {
            assert(0 <= g * w && g * w + w <= z.q_heads * w) by (nonlinear_arith)
                requires
                    0 <= g,
                    g + 1 <= z.q_heads,
                    w > 0,
            ;
            assert(false);
        }
    }
}

/// The norms of the first heads of a row.
proof fn lemma_norms(
    m: Memory,
    ops: Seq<StepOpV>,
    c: StepCtx,
    base: u64,
    heads: int,
    w: u64,
    n: nat,
    u: Under,
)
    requires
        c.wf(),
        finds(heads_of(c), base as int, heads),
        n <= heads,
        u.on == c.on,
    ensures
        ({
            let z = heads_of(c);
            let a = after32(m, ops, u, z);
            let r = head_norm(
                a.at(base as int),
                w as int,
                n as int,
                c.cfg.head_dim as int,
                c.cfg.rms_eps as int,
            );
            after32(m, head_norms32(ops, c, base, w, n), u, z) == if n == 0 {
                a
            } else {
                a.put(base as int, r)
            }
        }),
    decreases n,
{
    if n > 0 {
        let z = heads_of(c);
        let h = n - 1;
        lemma_norms(m, ops, c, base, heads, w, h as nat, u);
        lemma_widths(c);
        lemma_head(z, base as int, heads, h);
        let s = head_norms32(ops, c, base, w, h as nat);
        let at = head_at(base, h, c.nums_of().d);
        assert(at == base + h * z.d * 4);
        let l = diff::rms_norm(c.on, at, w, at, c.nums_of().d, c.cfg.rms_eps);
        let (a, a1) = (after32(m, ops, u, z), after32(m, s, u, z));
        let r = head_norm(
            a.at(base as int),
            w as int,
            n as int,
            c.cfg.head_dim as int,
            c.cfg.rms_eps as int,
        );
        let x = l.args.map_values(|w: u64| w as int);
        assert(x[0] == at && x[1] == w && x[2] == at && x[3] == z.d && x[4] == c.cfg.rms_eps);
        assert(launched32(a1, l, u, z) == a1.put(base as int, r));
        assert(a1.put(base as int, r).rows =~= a.put(base as int, r).rows);
        broadcast use lemma_push;

        assert(after32(m, run(s, l, SEG_ATTN), u, z) == launched32(a1, l, u, z));
    }
}

/// The rotary embedding of the first heads of a row.
proof fn lemma_ropes(
    m: Memory,
    ops: Seq<StepOpV>,
    c: StepCtx,
    base: u64,
    heads: int,
    pos: u32,
    n: nat,
    u: Under,
)
    requires
        c.wf(),
        finds(heads_of(c), base as int, heads),
        c.cfg.head_dim <= 2048,
        n <= heads,
        u.on == c.on,
    ensures
        ({
            let z = heads_of(c);
            let a = after32(m, ops, u, z);
            let r = rotated(
                a.at(base as int),
                n as int,
                c.cfg.head_dim as int / 2,
                pos as int,
                c.cfg.rope_theta as int,
            );
            after32(m, head_ropes32(ops, c, base, pos, n), u, z) == if n == 0 {
                a
            } else {
                a.put(base as int, r)
            }
        }),
    decreases n,
{
    if n > 0 {
        let z = heads_of(c);
        let h = n - 1;
        lemma_ropes(m, ops, c, base, heads, pos, h as nat, u);
        lemma_widths(c);
        lemma_head(z, base as int, heads, h);
        let s = head_ropes32(ops, c, base, pos, h as nat);
        let k = c.nums_of();
        let at = head_at(base, h, k.d);
        assert(at == base + h * z.d * 4);
        let l = diff::rope(c.on, at, at, k.half, pos, c.cfg.rope_theta);
        let (a, a1) = (after32(m, ops, u, z), after32(m, s, u, z));
        let r = rotated(
            a.at(base as int),
            n as int,
            c.cfg.head_dim as int / 2,
            pos as int,
            c.cfg.rope_theta as int,
        );
        let x = l.args.map_values(|w: u64| w as int);
        assert(x[0] == at && x[1] == at && x[2] == k.half && x[3] == pos && x[4]
            == c.cfg.rope_theta);
        assert(launched32(a1, l, u, z) == a1.put(base as int, r));
        assert(a1.put(base as int, r).rows =~= a.put(base as int, r).rows);
        broadcast use lemma_push;

        assert(after32(m, run(s, l, SEG_ATTN), u, z) == launched32(a1, l, u, z));
    }
}

spec fn fixed(c: StepCtx) -> bool {
    &&& c.wf()
    &&& named(c)
    &&& heads_apart(heads_of(c))
    &&& c.cfg.head_dim <= 2048
}

/// The norm and the projections.
proof fn lemma_qkv(m: Memory, ops: Seq<StepOpV>, c: StepCtx, net: Net, w: LayerWeights, u: Under)
    requires
        fixed(c),
        net.g == c.cfg,
        u.on == c.on,
    ensures
        ({
            let (pl, z) = (layer_plans(c.cfg, c.b, w, true), heads_of(c));
            let (a, e) = (after32(m, ops, u, z), after32(m, qkv32_ops(ops, c, w, pl), u, z));
            let x = a.at(c.b.x32.ptr as int);
            &&& e.at(c.b.x32.ptr as int) == x
            &&& e.at(z.q) == net.projected32(x, w, w.q_proj.ptr as int, z.q_heads)
            &&& e.at(z.k) == net.projected32(x, w, w.k_proj.ptr as int, z.k_heads)
            &&& e.at(c.b.c_v.ptr as int) == net.projected32(x, w, w.v_proj.ptr as int, z.k_heads)
            &&& e.cache == a.cache
            &&& e.words == a.words
        }),
{
    broadcast use lemma_push, lemma_blocks_cover;

    lemma_widths(c);
    c.cfg.lemma_heads();
}

/// The norms and the rotary embedding of the heads.
proof fn lemma_heads(
    m: Memory,
    ops: Seq<StepOpV>,
    c: StepCtx,
    net: Net,
    w: LayerWeights,
    pos: u32,
    u: Under,
)
    requires
        fixed(c),
        net.g == c.cfg,
        u.on == c.on,
    ensures
        ({
            let (a, z) = (after32(m, ops, u, heads_of(c)), heads_of(c));
            let s = head_norm32_ops(ops, c, w);
            let s = head_ropes32(s, c, c.b.c_q.ptr, pos, c.cfg.q_heads as nat);
            let s = head_ropes32(s, c, c.b.c_k.ptr, pos, c.cfg.kv_heads as nat);
            let e = after32(m, s, u, z);
            let q = net.placed32(
                a.at(z.q),
                net.has_norms(w),
                w.q_norm->0.ptr as int,
                z.q_heads,
                pos as int,
            );
            let k = net.placed32(
                a.at(z.k),
                net.has_norms(w),
                w.k_norm->0.ptr as int,
                z.k_heads,
                pos as int,
            );
            &&& e.at(z.q) == q
            &&& e.at(z.k) == k
            &&& e.at(c.b.x32.ptr as int) == a.at(c.b.x32.ptr as int)
            &&& e.at(c.b.c_v.ptr as int) == a.at(c.b.c_v.ptr as int)
            &&& e.cache == a.cache
            &&& e.words == a.words
        }),
{
    let z = heads_of(c);
    let (qp, kp) = (c.b.c_q.ptr, c.b.c_k.ptr);
    let (nq, nk) = (c.cfg.q_heads as nat, c.cfg.kv_heads as nat);
    if let (Some(qn), Some(kn)) = (w.q_norm, w.k_norm) {
        lemma_norms(m, ops, c, qp, nq as int, qn.ptr, nq, u);
        let s1 = head_norms32(ops, c, qp, qn.ptr, nq);
        lemma_norms(m, s1, c, kp, nk as int, kn.ptr, nk, u);
    }
    let s = head_norm32_ops(ops, c, w);
    lemma_ropes(m, s, c, qp, nq as int, pos, nq, u);
    let s1 = head_ropes32(s, c, qp, pos, nq);
    lemma_ropes(m, s1, c, kp, nk as int, pos, nk, u);
}

/// The scale, the cache slot and attention.
proof fn lemma_attend(
    m: Memory,
    ops: Seq<StepOpV>,
    c: StepCtx,
    net: Net,
    x: Row,
    ask: Ask,
    li: int,
    pos: usize,
    kv_len: usize,
    token: u32,
    flash_off: bool,
    u: Under,
)
    requires
        fixed(c),
        net.g == c.cfg,
        0 <= li < c.cfg.n_layer,
        ask == ask_of(c, token, pos, kv_len),
        c.takes_pos(pos),
        has_room(c, kv_len, flash_off, u.lost),
        u == under(c, u.lost),
        ({
            let (z, w) = (heads_of(c), net.layers[li]);
            let a = after32(m, ops, u, z);
            let (p, k) = (
                net.projected32(x, w, w.q_proj.ptr as int, z.q_heads),
                net.projected32(x, w, w.k_proj.ptr as int, z.k_heads),
            );
            &&& ready(a, c, kv_len)
            &&& a.at(c.b.x32.ptr as int) == x
            &&& a.at(z.q) == net.placed32(
                p,
                net.has_norms(w),
                w.q_norm->0.ptr as int,
                z.q_heads,
                ask.pos,
            )
            &&& a.at(z.k) == net.placed32(
                k,
                net.has_norms(w),
                w.k_norm->0.ptr as int,
                z.k_heads,
                ask.pos,
            )
            &&& a.at(c.b.c_v.ptr as int) == net.projected32(
                x,
                w,
                w.v_proj.ptr as int,
                z.k_heads,
            )
        }),
    ensures
        ({
            let (z, w, n) = (heads_of(c), net.layers[li], c.nums_of());
            let a = after32(m, ops, u, z);
            let s = run(ops, dense::scale_f32(c.on, c.b.c_q.ptr, n.nqk, c.cfg.q_scale), SEG_ATTN);
            let s = run(s, diff::cast_f32_f16(c.on, c.b.c_k.ptr, c.b.k.ptr, n.kvk), SEG_ATTN);
            let s = run(s, diff::cast_f32_f16(c.on, c.b.c_v.ptr, c.b.v.ptr, n.kvk), SEG_ATTN);
            let s = run(s, l_kv_write(c, c.phys(li, pos) as u32, (pos % 32) as u32), SEG_ATTN);
            let s = attention(
                s,
                flash_off,
                flash_fits(n.d, n.max_kv),
                l_flash32(c, li),
                l_naive32(c, li),
            );
            let e = after32(m, end(s, SEG_ATTN), u, z);
            &&& e.at(c.b.x32.ptr as int) == x
            &&& e.at(c.b.attn32.ptr as int) == net.attention32(x, w, ask, li)
            &&& e.cache == a.cache.push(net.slot32(x, ask, li))
            &&& e.words == a.words
        }),
{
    broadcast use lemma_push, lemma_blocks_cover;

    lemma_widths(c);
    c.cfg.lemma_heads();
    lemma_layer_page(c, li);
    let z = heads_of(c);
    let a = after32(m, ops, u, z);
    let (w, n) = (net.layers[li], c.nums_of());
    let p = li * c.pp;
    assert(c.page_table(li) == entry(c, p));
    assert(a.words[entry(c, p)] == p);
    let (q, k, v) = (net.query32(x, w, ask.pos), net.key32(x, w, ask.pos), net.value32(x, w));
    let s1 = run(ops, dense::scale_f32(c.on, c.b.c_q.ptr, n.nqk, c.cfg.q_scale), SEG_ATTN);
    let s2 = run(s1, diff::cast_f32_f16(c.on, c.b.c_k.ptr, c.b.k.ptr, n.kvk), SEG_ATTN);
    let s3 = run(s2, diff::cast_f32_f16(c.on, c.b.c_v.ptr, c.b.v.ptr, n.kvk), SEG_ATTN);
    let m3 = after32(m, s3, u, z);
    assert(m3.at(z.q) == q);
    assert(m3.at(c.b.k.ptr as int) == k);
    assert(m3.at(c.b.v.ptr as int) == v);
    assert(m3.at(c.b.x32.ptr as int) == x && m3.cache == a.cache && m3.words == a.words);
    let phys = c.phys(li, pos) as u32;
    assert(phys == li * c.pp + pos as int / 32);
    let s4 = run(s3, l_kv_write(c, phys, (pos % 32) as u32), SEG_ATTN);
    let m4 = after32(m, s4, u, z);
    assert(m4.cache == a.cache.push(net.slot32(x, ask, li)));
    assert(m4.rows == m3.rows && m4.words == m3.words);
    assert(m4.cache.last() == net.slot32(x, ask, li));
    let (f, g) = (l_flash32(c, li), l_naive32(c, li));
    let attn = net.attention32(x, w, ask, li);
    assert((p + pos as int / 32 - p) * 32 + pos as int % 32 == pos);
    if u.lost || flash_off || !flash_fits(n.d, n.max_kv) {
        assert(launched32(m4, g, u, z) == m4.put(c.b.attn32.ptr as int, attn));
    } else {
        assert(launched32(m4, f, u, z) == m4.put(c.b.attn32.ptr as int, attn));
    }
    let s5 = attention(s4, flash_off, flash_fits(n.d, n.max_kv), f, g);
    assert(after32(m, s5, u, z) == m4.put(c.b.attn32.ptr as int, attn));
}

/// The attention output and the feed-forward half.
proof fn lemma_ffn(m: Memory, ops: Seq<StepOpV>, c: StepCtx, net: Net, w: LayerWeights, u: Under)
    requires
        fixed(c),
        net.g == c.cfg,
        u.on == c.on,
    ensures
        ({
            let (pl, z) = (layer_plans(c.cfg, c.b, w, true), heads_of(c));
            let (a, e) = (after32(m, ops, u, z), after32(m, ffn32_ops(ops, c, w, pl), u, z));
            let y = net.plus32(
                a.at(c.b.x32.ptr as int),
                a.at(c.b.attn32.ptr as int),
                w.o_proj.ptr as int,
                c.cfg.q_heads * c.cfg.head_dim,
            );
            &&& e.at(c.b.x32.ptr as int) == net.fed32(y, w)
            &&& e.cache == a.cache
            &&& e.words == a.words
        }),
{
    broadcast use lemma_push, lemma_blocks_cover;

    lemma_widths(c);
    c.cfg.lemma_heads();
}

proof fn lemma_layers(
    m: Memory,
    ops: Seq<StepOpV>,
    c: StepCtx,
    net: Net,
    plans: Seq<LayerGemmPlans>,
    ask: Ask,
    n: nat,
    token: u32,
    pos: usize,
    kv_len: usize,
    flash_off: bool,
    u: Under,
)
    requires
        fixed(c),
        net.g == c.cfg,
        n <= net.layers.len(),
        net.layers.len() == c.cfg.n_layer,
        plans == net.layers.map_values(|w: LayerWeights| layer_plans(c.cfg, c.b, w, true)),
        ask == ask_of(c, token, pos, kv_len),
        c.takes_pos(pos),
        has_room(c, kv_len, flash_off, u.lost),
        u == under(c, u.lost),
        ready(after32(m, ops, u, heads_of(c)), c, kv_len),
        after32(m, ops, u, heads_of(c)).at(c.b.x32.ptr as int) == net.hidden32(ask, 0),
    ensures
        ({
            let z = heads_of(c);
            let a = after32(m, ops, u, z);
            let s = layers32_ops(ops, c, net.layers, plans, n, pos, flash_off);
            let e = after32(m, s, u, z);
            &&& ready(e, c, kv_len)
            &&& e.at(c.b.x32.ptr as int) == net.hidden32(ask, n)
            &&& e.cache == a.cache + net.slots32(ask, n)
        }),
    decreases n,
{
    let z = heads_of(c);
    let a = after32(m, ops, u, z);
    if n == 0 {
        assert(a.cache + net.slots32(ask, 0) =~= a.cache);
    } else {
        let k = (n - 1) as nat;
        lemma_layers(m, ops, c, net, plans, ask, k, token, pos, kv_len, flash_off, u);
        let (w, x) = (net.layers[k as int], net.hidden32(ask, k));
        let pl = layer_plans(c.cfg, c.b, w, true);
        assert(plans[k as int] == pl);
        let s1 = layers32_ops(ops, c, net.layers, plans, k, pos, flash_off);
        lemma_qkv(m, s1, c, net, w, u);
        let s2 = start(qkv32_ops(s1, c, w, pl), SEG_ATTN);
        assert(after32(m, s2, u, z) == after32(m, qkv32_ops(s1, c, w, pl), u, z)) by {
            broadcast use lemma_push;

        }
        lemma_heads(m, s2, c, net, w, pos as u32, u);
        let s3 = head_norm32_ops(s2, c, w);
        let s3 = head_ropes32(s3, c, c.b.c_q.ptr, pos as u32, c.cfg.q_heads as nat);
        let s3 = head_ropes32(s3, c, c.b.c_k.ptr, pos as u32, c.cfg.kv_heads as nat);
        lemma_attend(m, s3, c, net, x, ask, k as int, pos, kv_len, token, flash_off, u);
        let s4 = attn32_ops(qkv32_ops(s1, c, w, pl), c, w, k as int, pos, flash_off);
        lemma_ffn(m, s4, c, net, w, u);
        let e = after32(m, ffn32_ops(s4, c, w, pl), u, z);
        assert(e.cache =~= a.cache + net.slots32(ask, n));
    }
}

/// The embedding row and the length.
proof fn lemma_prologue(
    m: Memory,
    c: StepCtx,
    net: Net,
    token: u32,
    pos: usize,
    kv_len: usize,
    u: Under,
)
    requires
        c.wf(),
        net.g == c.cfg,
        net.embed == c.embed,
        u == under(c, u.lost),
        has_pages(m.words, c),
        kv_len <= u32::MAX,
        forall|p: int| 0 <= p < c.cfg.n_layer * c.pp ==> #[trigger] entry(c, p) != c.b.lens.ptr,
    ensures
        ({
            let z = heads_of(c);
            let gather = dense::gather_f32(c.on, c.embed, c.b.x32.ptr, token, c.nums_of().h);
            let s = upload_lens(run(begin(Seq::empty()), gather, SEG_SMALL), kv_len);
            let e = after32(m, s, u, z);
            &&& ready(e, c, kv_len)
            &&& e.at(c.b.x32.ptr as int) == net.hidden32(ask_of(c, token, pos, kv_len), 0)
            &&& e.cache == m.cache
        }),
{
    broadcast use lemma_push, lemma_blocks_cover;

    lemma_widths(c);
    assert(after32(m, Seq::empty(), u, heads_of(c)) == m);
}

/// The final norm and the output head.
proof fn lemma_epilogue(
    m: Memory,
    ops: Seq<StepOpV>,
    c: StepCtx,
    net: Net,
    lm_head: DeviceBuffer,
    u: Under,
)
    requires
        fixed(c),
        net.g == c.cfg,
        net.final_norm == c.final_norm,
        net.lm_head == lm_head.ptr,
        u.on == c.on,
    ensures
        ({
            let z = heads_of(c);
            let s = run(start(ops, SEG_LM_HEAD), l_rms32(c, c.final_norm), SEG_LM_HEAD);
            let s = close(
                end(gemm(s, head_plan(c.cfg, c.b, lm_head, true), SEG_LM_HEAD), SEG_LM_HEAD),
            );
            let (a, e) = (after32(m, ops, u, z), after32(m, s, u, z));
            &&& e.at(c.b.logits.ptr as int) == product(
                net.normed(a.at(c.b.x32.ptr as int), net.final_norm),
                net.lm_head,
                c.cfg.vocab_size as int,
                c.cfg.hidden_size as int,
            )
            &&& e.cache == a.cache
        }),
{
    broadcast use lemma_push, lemma_blocks_cover;

    lemma_widths(c);
}

/// A step on the `f32` tier computes the model's step, whichever kernel attends: it leaves
/// the logits of the token at its position in the buffer of logits, and has written the
/// token's key and value of every layer to the slots of that position, once each.
pub proof fn a_parity_step_computes_the_model(
    m: Memory,
    c: StepCtx,
    layers: Seq<LayerWeights>,
    lm_head: DeviceBuffer,
    plans: DecodeGemmPlans,
    token: u32,
    pos: usize,
    kv_len: usize,
    flash_off: bool,
    lost: bool,
)
    requires
        c.wf(),
        c.takes_pos(pos),
        c.cfg.head_dim <= 2048,
        layers.len() == c.cfg.n_layer,
        plans_of(plans, c.cfg, c.b, layers, lm_head, true),
        apart(step32_rows(c)),
        heads_apart(heads_of(c)),
        has_pages(m.words, c),
        forall|p: int| 0 <= p < c.cfg.n_layer * c.pp ==> #[trigger] entry(c, p) != c.b.lens.ptr,
        has_room(c, kv_len, flash_off, lost),
    ensures
        ({
            let e = after32(
                m,
                parity_ops(c, layers, plans, token, pos, kv_len, flash_off),
                under(c, lost),
                heads_of(c),
            );
            let (net, ask) = (net_of(c, layers, lm_head), ask_of(c, token, pos, kv_len));
            &&& e.at(c.b.logits.ptr as int) == net.logits32(ask)
            &&& e.cache == m.cache + net.slots32(ask, layers.len())
        }),
{
    let (net, ask) = (net_of(c, layers, lm_head), ask_of(c, token, pos, kv_len));
    let u = under(c, lost);
    lemma_named(c);
    lemma_widths(c);
    lemma_prologue(m, c, net, token, pos, kv_len, u);
    let gather = dense::gather_f32(c.on, c.embed, c.b.x32.ptr, token, c.nums_of().h);
    let s = upload_lens(run(begin(Seq::empty()), gather, SEG_SMALL), kv_len);
    let n = layers.len();
    lemma_layers(m, s, c, net, plans.layers@, ask, n, token, pos, kv_len, flash_off, u);
    let s = layers32_ops(s, c, layers, plans.layers@, n, pos, flash_off);
    lemma_epilogue(m, s, c, net, lm_head, u);
}

} // verus!
