//! What launches and products compute.
//!
//! A row of numbers stands for how it was computed, device memory for the row that an
//! address holds, and a program for what it does to them.  Two programs that leave the
//! same row at an address have computed the same thing.

use vstd::prelude::*;

use crate::gemm::{ComputeType, DataType, GemmPlan, Transpose};
use crate::launch::{blocks256, Kernel, LaunchV, Queue};
use crate::math::lemma_ceil_div;
use crate::step::{Anchor, StepOpV};

verus! {

/// Where the tokens before the last one are read from.
pub enum Source {
    /// The cache at `kv` of `pages` pages, from a page on.
    Cache { kv: int, pages: int, page: int, block_len: int },
    /// The rows before it in the same prompt.
    Prompt,
}

/// A row by how it was computed.  Weights are named by address, scalars by their bit
/// patterns.
pub enum Row {
    /// Row `token` of a table of rows of `n` elements.
    Embedding { table: int, token: int, n: int },
    /// The RMSNorm by weights.
    Norm { of: Box<Row>, w: int, n: int, eps: int },
    /// The product with a `[k x n]` matrix, in `f32`.
    Product { of: Box<Row>, w: int, n: int, k: int },
    /// The same product before its slabs are summed.
    Slabs { of: Box<Row>, w: int, n: int, k: int, slabs: int },
    /// The cast from `f32` to `f16`.
    Half { of: Box<Row>, n: int },
    /// The RMSNorm of every head.
    HeadNorm { of: Box<Row>, w: int, heads: int, d: int, eps: int },
    /// The rotary embedding of every head.
    Rotated { of: Box<Row>, heads: int, half: int, pos: int, eta: int },
    Scaled { of: Box<Row>, by: int },
    /// Attention over the first `len` tokens, of which token `at` has this key and this
    /// value; query head `h` reads key head `h / ratio`.
    Attention {
        q: Box<Row>,
        key: Box<Row>,
        value: Box<Row>,
        at: int,
        len: int,
        from: Source,
        heads: int,
        ratio: int,
        kv_heads: int,
        d: int,
    },
    Sum { a: Box<Row>, b: Box<Row>, n: int },
    /// The SiLU-GLU.
    Gated { gate: Box<Row>, up: Box<Row>, n: int },
    /// Nothing that is known.
    Lost,
}

/// A slot of a cache of `pages` pages that was written.
pub struct Slot {
    pub kv: int,
    pub pages: int,
    pub page: int,
    pub place: int,
    pub block_len: int,
    pub kv_heads: int,
    pub d: int,
    pub key: Row,
    pub value: Row,
}

/// Device memory: the row at an address, the cache slots that were written, in order,
/// and the words of tables; and the rows that were read back for a trace, in order.
pub struct Memory {
    pub rows: Map<int, Row>,
    pub cache: Seq<Slot>,
    pub words: Map<int, int>,
    pub kept: Seq<Row>,
}

/// The bit pattern of one.
pub open spec fn one() -> int {
    0x3f80_0000
}

/// A row scaled; a scale by one changes nothing.
pub open spec fn scaled(of: Row, by: int) -> Row {
    if by == one() {
        of
    } else {
        Row::Scaled { of: Box::new(of), by }
    }
}

pub open spec fn norm(of: Row, w: int, n: int, eps: int) -> Row {
    Row::Norm { of: Box::new(of), w, n, eps }
}

pub open spec fn product(of: Row, w: int, n: int, k: int) -> Row {
    Row::Product { of: Box::new(of), w, n, k }
}

pub open spec fn half(of: Row, n: int) -> Row {
    Row::Half { of: Box::new(of), n }
}

pub open spec fn head_norm(of: Row, w: int, heads: int, d: int, eps: int) -> Row {
    Row::HeadNorm { of: Box::new(of), w, heads, d, eps }
}

pub open spec fn rotated(of: Row, heads: int, half: int, pos: int, eta: int) -> Row {
    Row::Rotated { of: Box::new(of), heads, half, pos, eta }
}

pub open spec fn sum(a: Row, b: Row, n: int) -> Row {
    Row::Sum { a: Box::new(a), b: Box::new(b), n }
}

pub open spec fn gated(gate: Row, up: Row, n: int) -> Row {
    Row::Gated { gate: Box::new(gate), up: Box::new(up), n }
}

/// Attention where the last slot that was written is in the same cache.
pub open spec fn attend(
    m: Memory,
    q: Row,
    len: int,
    kv: int,
    pages: int,
    page: int,
    block_len: int,
    heads: int,
    ratio: int,
    kv_heads: int,
    d: int,
) -> Row {
    let s = m.cache.last();
    if m.cache.len() > 0 && s.kv == kv && s.pages == pages && s.block_len == block_len && s.kv_heads
        == kv_heads && s.d == d {
        Row::Attention {
            q: Box::new(q),
            key: Box::new(s.key),
            value: Box::new(s.value),
            at: (s.page - page) * block_len + s.place,
            len,
            from: Source::Cache { kv, pages, page, block_len },
            heads,
            ratio,
            kv_heads,
            d,
        }
    } else {
        Row::Lost
    }
}

impl Memory {
    /// The row at an address.
    pub open spec fn at(self, a: int) -> Row {
        self.rows[a]
    }

    /// With a row written to an address.
    pub open spec fn put(self, a: int, r: Row) -> Memory {
        Memory { rows: self.rows.insert(a, r), ..self }
    }

    pub open spec fn slot(self, s: Slot) -> Memory {
        Memory { cache: self.cache.push(s), ..self }
    }

    /// With the row at an address read back.
    pub open spec fn keep(self, a: int) -> Memory {
        Memory { kept: self.kept.push(self.at(a)), ..self }
    }

    /// Nothing is known.
    pub open spec fn lost() -> Memory {
        Memory {
            rows: Map::empty(),
            cache: Seq::empty(),
            words: Map::empty(),
            kept: Seq::empty(),
        }
    }
}

/// Whether the threads of a launch are as many as the elements, at least.
pub open spec fn covers(l: LaunchV, n: int) -> bool {
    l.grid.x * l.block.x >= n
}

pub broadcast proof fn lemma_blocks_cover(n: int)
    requires
        0 <= n <= u32::MAX,
    ensures
        #[trigger] blocks256(n) * 256 >= n,
{
    lemma_ceil_div(n, 256);
}

/// Threads of a block of a kernel.
pub open spec fn threads(k: Kernel) -> int {
    match k {
        Kernel::DecodeStepGqaFlash => 512,
        Kernel::DecodeStepGqaFlashF32 => 512,
        Kernel::DecodeStepGqaFlashFused => 512,
        Kernel::DecodeStepGqaFlashBatch => 512,
        Kernel::LayerFused => 512,
        Kernel::RopeRow => 1024,
        _ => 256,
    }
}

/// Whether a launch is on a queue, with blocks of the threads that its kernel has.
pub open spec fn set_up(l: LaunchV, on: Queue) -> bool {
    &&& l.on == on
    &&& l.block.x == threads(l.kernel) && l.block.y == 1 && l.block.z == 1
    &&& l.grid.z == 1
}

/// What a launch of a step over one row does.  A launch on another queue, and one whose
/// blocks are not those of its rows, heads or elements, is not relied on.
pub open spec fn launched(m: Memory, l: LaunchV, on: Queue) -> Memory {
    let a = l.args.map_values(|w: u64| w as int);
    if !set_up(l, on) {
        Memory::lost()
    } else {
        match l.kernel {
            Kernel::GatherRow => if covers(l, a[3]) {
                m.put(a[1], Row::Embedding { table: a[0], token: a[2], n: a[3] })
            } else {
                Memory::lost()
            },
            Kernel::RmsNormRowF16 => if l.grid.x == 1 {
                m.put(a[1], norm(m.at(a[0]), a[2], a[3], a[4]))
            } else {
                Memory::lost()
            },
            Kernel::CastF32ToF16 => if covers(l, a[2]) {
                m.put(a[1], half(m.at(a[0]), a[2]))
            } else {
                Memory::lost()
            },
            Kernel::RmsNormHeadsF16 => if l.grid.x == a[3] {
                m.put(a[1], head_norm(m.at(a[0]), a[2], a[3], a[4], a[5]))
            } else {
                Memory::lost()
            },
            Kernel::RopeHeadsF16 => if l.grid.x == a[1] {
                m.put(a[0], scaled(rotated(m.at(a[0]), a[1], a[2], a[3], a[4]), a[5]))
            } else {
                Memory::lost()
            },
            Kernel::KvWriteRow => if covers(l, a[6] * a[7]) {
                m.slot(
                    Slot {
                        kv: a[2],
                        pages: a[8],
                        page: a[3],
                        place: a[4],
                        block_len: a[5],
                        kv_heads: a[6],
                        d: a[7],
                        key: m.at(a[0]),
                        value: m.at(a[1]),
                    },
                )
            } else {
                Memory::lost()
            },
            Kernel::DecodeStepGqaFlash => if l.grid.x == a[6] && a[5] == 1 && a[13] == 1
                && m.words[a[3]] <= a[11] && l.shared == (a[7] + a[11]) * 4 {
                m.put(
                    a[4],
                    attend(
                        m,
                        m.at(a[0]),
                        m.words[a[3]],
                        a[2],
                        a[12],
                        m.words[a[1]],
                        a[8],
                        a[6],
                        a[9],
                        a[10],
                        a[7],
                    ),
                )
            } else {
                Memory::lost()
            },
            Kernel::DecodeStepGqa => if l.grid.x == a[7] && a[6] == 1 && m.words[a[3]] <= a[12] {
                m.put(
                    a[5],
                    attend(
                        m,
                        m.at(a[0]),
                        m.words[a[3]],
                        a[2],
                        a[13],
                        m.words[a[1]],
                        a[9],
                        a[7],
                        a[10],
                        a[11],
                        a[8],
                    ),
                )
            } else {
                Memory::lost()
            },
            Kernel::FusedAddRmsF16 => if l.grid.x == 1 {
                let x = sum(m.at(a[0]), half(m.at(a[1]), a[4]), a[4]);
                m.put(a[0], x).put(a[2], norm(x, a[3], a[4], a[5]))
            } else {
                Memory::lost()
            },
            Kernel::FusedCastSwigluF16 => if covers(l, a[3]) {
                m.put(a[2], gated(half(m.at(a[0]), a[3]), half(m.at(a[1]), a[3]), a[3]))
            } else {
                Memory::lost()
            },
            Kernel::AddCastF16 => if covers(l, a[2]) {
                m.put(a[0], sum(m.at(a[0]), half(m.at(a[1]), a[2]), a[2]))
            } else {
                Memory::lost()
            },
            _ => Memory::lost(),
        }
    }
}

/// Whether a product is one of a row with a matrix whose rows lie one after the other:
/// element `j` is the sum over `i` of `a[i]` and `b[i * n + j]`, and nothing is added.
pub open spec fn is_row_product(p: GemmPlan) -> bool {
    &&& p.m == 1
    &&& p.trans_a == Transpose::T && p.ld_a == p.k
    &&& p.trans_b == Transpose::T && p.ld_b == p.n
    &&& p.ld_c == 1
    &&& p.a_dt == DataType::F16 && p.b_dt == DataType::F16 && p.c_dt == DataType::F32
    &&& p.compute == ComputeType::F32
    &&& p.alpha == one() && p.beta == 0
}

/// What a product of a step over one row does.
pub open spec fn multiplied(m: Memory, p: GemmPlan) -> Memory {
    if is_row_product(p) {
        m.put(p.c as int, product(m.at(p.a as int), p.b as int, p.n as int, p.k as int))
    } else {
        Memory::lost()
    }
}

/// What a step's operations are performed over: the queue, the buffer that the length is
/// uploaded to, whether launches of flash attention fail, and the buffers of the residual
/// row, of its norm, of the query and of the attention output, which are read back.
pub struct Under {
    pub on: Queue,
    pub lens: int,
    pub lost: bool,
    pub x: int,
    pub xn: int,
    pub q: int,
    pub attn: int,
}

impl Under {
    /// The buffer that is read back.
    pub open spec fn place(self, a: Anchor) -> int {
        match a {
            Anchor::X => self.x,
            Anchor::Xn => self.xn,
            Anchor::Q => self.q,
            Anchor::Attn => self.attn,
        }
    }
}

/// What an operation of a step does.
pub open spec fn performed(m: Memory, o: StepOpV, u: Under) -> Memory {
    match o {
        StepOpV::Launch(l) => launched(m, l, u.on),
        StepOpV::Gemm(p) => multiplied(m, p),
        StepOpV::Attn { flash, naive } => if u.lost {
            launched(m, naive, u.on)
        } else {
            launched(m, flash, u.on)
        },
        StepOpV::FlashRefused(l) => launched(m, l, u.on),
        StepOpV::UploadLens(n) => Memory { words: m.words.insert(u.lens, n as int), ..m },
        StepOpV::ReadBack(a) => m.keep(u.place(a)),
        StepOpV::TraceRow => m.keep(u.x),
        _ => m,
    }
}

/// What a program does.
pub open spec fn after(m: Memory, ops: Seq<StepOpV>, u: Under) -> Memory
    decreases ops.len(),
{
    if ops.len() == 0 {
        m
    } else {
        performed(after(m, ops.drop_last(), u), ops.last(), u)
    }
}

pub broadcast proof fn lemma_after_push(m: Memory, ops: Seq<StepOpV>, o: StepOpV, u: Under)
    ensures
        #[trigger] after(m, ops.push(o), u) == performed(after(m, ops, u), o, u),
{
    assert(ops.push(o).drop_last() =~= ops);
}

} // verus!
