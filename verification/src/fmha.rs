//! Attention over a whole prompt in one launch: the tile variants, the parameter
//! block of the kernel, and the launches that prime a set of buffers.

use vstd::prelude::*;

use crate::buffer::DeviceBuffer;
use crate::bytes::{le_bytes, lemma_le_bytes_len, push_le};
use crate::error::LaunchError;
use crate::float_bits::{F32_ONE, F32_ZERO};
use crate::launch::{CudaStream, Dim3, Kernel, Queue};
use crate::math::{ceil_div, div_ceil_u32, lemma_ceil_div};
use crate::text::chars_of;

verus! {

/// A tile variant: rows and threads of a block, and its shared memory.
#[derive(Debug, Clone, Copy, PartialEq, Eq, Structural)]
pub struct FmhaVariant {
    /// The number in the kernel's symbols.
    pub id: u32,
    pub block_m: u32,
    pub threads: u32,
    pub smem: u32,
}

/// Shared memory of every variant, at least.
pub const FMHA_SMEM: u32 = 98304;

/// The width of a head that the kernels are compiled for.
pub const FMHA_HEAD_DIM: u32 = 128;

/// Shared memory that a tile of `bm` query rows and `bn` key rows declares: what
/// its `f16` tiles take, but no less than the common amount.
pub open spec fn tile_smem(bm: int, bn: int) -> int {
    if 2 * FMHA_HEAD_DIM * (bm + 2 * bn) > FMHA_SMEM {
        2 * FMHA_HEAD_DIM * (bm + 2 * bn)
    } else {
        FMHA_SMEM as int
    }
}

pub open spec fn variant_of(id: int, bm: int, bn: int, warps: int) -> FmhaVariant {
    FmhaVariant {
        id: id as u32,
        block_m: bm as u32,
        threads: (warps * 32) as u32,
        smem: tile_smem(bm, bn) as u32,
    }
}

/// The compiled variants.
pub open spec fn variant_table() -> Seq<FmhaVariant> {
    seq![
        variant_of(0, 128, 128, 4),
        variant_of(1, 128, 128, 8),
        variant_of(2, 128, 64, 4),
        variant_of(3, 256, 128, 8),
    ]
}

/// Entries whose flag is set, in order.
pub open spec fn kept<A>(s: Seq<A>, flags: Seq<bool>) -> Seq<A>
    decreases s.len(),
{
    if s.len() == 0 {
        s
    } else {
        let before = kept(s.drop_last(), flags);
        if flags[s.len() - 1] {
            before.push(s.last())
        } else {
            before
        }
    }
}

impl FmhaVariant {
    /// The kernel for the evenness of a sequence length: in row tiles, and in
    /// key tiles.
    pub fn symbol(&self, mn_even: bool, k_even: bool) -> (k: Kernel)
        ensures
            k == (Kernel::Fmha { variant: self.id, mn_even, k_even }),
    {
        Kernel::Fmha { variant: self.id, mn_even, k_even }
    }
}

fn tile(id: u32, bm: u32, bn: u32, warps: u32) -> (v: FmhaVariant)
    requires
        bm <= 0x1000,
        bn <= 0x1000,
        warps <= 32,
    ensures
        v == variant_of(id as int, bm as int, bn as int, warps as int),
{
    let tiles: u32 = 2 * FMHA_HEAD_DIM * (bm + 2 * bn);
    let smem: u32 = if tiles > FMHA_SMEM {
        tiles
    } else {
        FMHA_SMEM
    };
    FmhaVariant { id, block_m: bm, threads: warps * 32, smem }
}

/// The compiled variants.
pub fn compiled_variants() -> (v: Vec<FmhaVariant>)
    ensures
        v@ == variant_table(),
{
    vec![tile(0, 128, 128, 4), tile(1, 128, 128, 8), tile(2, 128, 64, 4), tile(3, 256, 128, 8)]
}

/// What an attention call works on: its five buffers and its extents.
#[derive(Debug, Clone, Copy, PartialEq, Eq, Structural)]
pub struct FmhaCall {
    pub q: u64,
    pub k: u64,
    pub v: u64,
    pub o: u64,
    pub lse: u64,
    pub seqlen: u32,
    pub batch: u32,
    pub heads: u32,
    pub kv_heads: u32,
    pub d: u32,
}

impl FmhaCall {
    /// A call that the kernels take: heads of the compiled width, in whole groups,
    /// with extents that the parameter block can express.
    pub open spec fn wf(self) -> bool {
        &&& self.kv_heads > 0
        &&& self.heads % self.kv_heads == 0
        &&& self.d == FMHA_HEAD_DIM
        &&& self.batch * self.heads <= u32::MAX
        &&& self.batch * self.kv_heads <= u32::MAX
        &&& self.seqlen * self.batch <= u32::MAX
        &&& self.seqlen + 256 <= u32::MAX
    }
}

/// `n` rounded up to whole tiles.
pub open spec fn rounded(n: int, tile: int) -> int {
    ceil_div(n, tile) * tile
}

/// An `f32` that turns a power of two into a power of e.
pub const LOG2_E: u32 = 0x3FB8_AA3B;

/// From one sequence of the batch to the next.
pub open spec fn q_width(c: FmhaCall) -> u64 {
    (c.heads * c.d) as u64
}

pub open spec fn kv_width(c: FmhaCall) -> u64 {
    (c.kv_heads * c.d) as u64
}

/// From one row of a sequence to the next, over all sequences of the batch.
pub open spec fn q_row(c: FmhaCall) -> u64 {
    (c.batch * c.heads * c.d) as u64
}

pub open spec fn kv_row(c: FmhaCall) -> u64 {
    (c.batch * c.kv_heads * c.d) as u64
}

/// Query heads per key head.
pub open spec fn group(c: FmhaCall) -> u64 {
    (c.heads / c.kv_heads) as u64
}

/// Rows in whole tiles.
pub open spec fn row_tiles(c: FmhaCall, block_m: u32) -> u64 {
    rounded(c.seqlen as int, block_m as int) as u64
}

/// Keys in whole tiles.
pub open spec fn key_tiles(c: FmhaCall) -> u64 {
    rounded(c.seqlen as int, 64) as u64
}

pub open spec fn total_rows(c: FmhaCall) -> u64 {
    (c.seqlen * c.batch) as u64
}

/// Addresses and strides of the operands, and how heads are grouped.
pub open spec fn operand_fields(c: FmhaCall) -> Seq<(u64, usize)> {
    seq![
        (c.q, 8),
        (c.k, 8),
        (c.v, 8),
        (q_width(c), 8),
        (kv_width(c), 8),
        (kv_width(c), 8),
        (q_row(c), 8),
        (kv_row(c), 8),
        (kv_row(c), 8),
        (c.d as u64, 8),
        (c.d as u64, 8),
        (c.d as u64, 8),
        (c.heads as u64, 4),
        (c.kv_heads as u64, 4),
        (group(c), 4),
        (0, 4),
    ]
}

/// Addresses and strides of the output and of its row sums; partial results are
/// not kept.
pub open spec fn output_fields(c: FmhaCall) -> Seq<(u64, usize)> {
    seq![
        (c.o, 8),
        (0, 8),
        (q_width(c), 8),
        (q_row(c), 8),
        (c.d as u64, 8),
        (0, 8),
        (c.lse, 8),
        (0, 8),
    ]
}

/// Extents, and the scale of the scores: the query is scaled already, and the
/// kernel takes powers of two.
pub open spec fn extent_fields(c: FmhaCall, block_m: u32) -> Seq<(u64, usize)> {
    seq![
        (c.batch as u64, 4),
        (c.seqlen as u64, 4),
        (c.seqlen as u64, 4),
        (0, 4),
        (c.d as u64, 4),
        (row_tiles(c, block_m), 4),
        (key_tiles(c), 4),
        (128, 4),
        (0, 4),
        (total_rows(c), 4),
        (F32_ONE as u64, 4),
        (LOG2_E as u64, 4),
    ]
}

/// Ragged batches, appended keys, rotary tables and page tables, none of which is
/// used.
pub open spec fn unused_fields() -> Seq<(u64, usize)> {
    seq![
        (0, 8),
        (0, 8),
        (0, 8),
        (0, 8),
        (0, 8),
        (0, 8),
        (0, 8),
        (0, 8),
        (0, 8),
        (0, 8),
        (0, 8),
        (0, 8),
        (0, 8),
        (0, 8),
        (0, 8),
        (0, 8),
        (0, 8),
        (0, 8),
    ]
}

/// No dropout, an unbounded left window, a causal right window, `f16` operands,
/// one split, no slopes; and the padding at the end.
pub open spec fn mode_fields() -> Seq<(u64, usize)> {
    seq![
        (0, 4),
        (F32_ZERO as u64, 4),
        (0, 1),
        (0, 3),
        (F32_ONE as u64, 4),
        (F32_ONE as u64, 4),
        (0xffff_ffff, 4),
        (0, 4),
        (F32_ZERO as u64, 4),
        (0, 8),
        (0, 8),
        (0, 8),
        (0, 1),
        (1, 1),
        (0, 1),
        (0, 1),
        (1, 4),
        (0, 8),
        (0, 8),
        (0, 1),
        (0, 1),
        (0, 6),
    ]
}

/// Fields one after the other, each in as many bytes as it is wide.
pub open spec fn fields_bytes(f: Seq<(u64, usize)>) -> Seq<u8>
    decreases f.len(),
{
    if f.len() == 0 {
        Seq::empty()
    } else {
        fields_bytes(f.drop_last()) + le_bytes(f.last().0 as nat, f.last().1 as nat)
    }
}

/// The parameter block of a call.
pub open spec fn param_bytes(c: FmhaCall, block_m: u32) -> Seq<u8> {
    fields_bytes(operand_fields(c)) + fields_bytes(output_fields(c)) + fields_bytes(
        extent_fields(c, block_m),
    ) + fields_bytes(unused_fields()) + fields_bytes(mode_fields())
}

/// The width of fields together.
pub open spec fn fields_width(f: Seq<(u64, usize)>) -> nat
    decreases f.len(),
{
    if f.len() == 0 {
        0
    } else {
        fields_width(f.drop_last()) + f.last().1 as nat
    }
}

proof fn lemma_fields_width(f: Seq<(u64, usize)>)
    ensures
        fields_bytes(f).len() == fields_width(f),
    decreases f.len(),
{
    if f.len() > 0 {
        lemma_fields_width(f.drop_last());
        lemma_le_bytes_len(f.last().0 as nat, f.last().1 as nat);
    }
}

fn push_fields(out: &mut Vec<u8>, f: &Vec<(u64, usize)>)
    ensures
        final(out)@ == old(out)@ + fields_bytes(f@),
{
    let mut i: usize = 0;
    while i < f.len()
        invariant
            i <= f.len(),
            out@ == old(out)@ + fields_bytes(f@.subrange(0, i as int)),
        decreases f.len() - i,
    {
        let (x, n) = f[i];
        push_le(out, x, n);
        i = i + 1;
        proof {
            assert(f@.subrange(0, i as int).drop_last() =~= f@.subrange(0, i - 1));
            assert(out@ =~= old(out)@ + fields_bytes(f@.subrange(0, i as int)));
        }
    }
    proof {
        assert(f@.subrange(0, f@.len() as int) =~= f@);
    }
}

proof fn lemma_call(c: FmhaCall, block_m: u32)
    requires
        c.wf(),
        0 < block_m <= 256,
    ensures
        0 <= c.heads * c.d <= u64::MAX,
        0 <= c.kv_heads * c.d <= u64::MAX,
        0 <= c.batch * c.heads * c.d <= u64::MAX,
        0 <= c.batch * c.kv_heads * c.d <= u64::MAX,
        c.seqlen <= rounded(c.seqlen as int, block_m as int) < c.seqlen + block_m,
        c.seqlen <= rounded(c.seqlen as int, 64) < c.seqlen + 64,
        0 <= c.heads / c.kv_heads <= c.heads,
{
    assert(0 <= c.batch * c.heads) by (nonlinear_arith);
    assert(0 <= c.batch * c.kv_heads) by (nonlinear_arith);
    lemma_rounded(c.seqlen as int, block_m as int);
    lemma_rounded(c.seqlen as int, 64);
    let (h, k) = (c.heads as int, c.kv_heads as int);
    vstd::arithmetic::div_mod::lemma_div_is_ordered_by_denominator(h, 1, k);
    vstd::arithmetic::div_mod::lemma_div_pos_is_pos(h, k);
}

/// Rounding up to whole tiles adds less than a tile.
pub proof fn lemma_rounded(n: int, tile: int)
    requires
        n >= 0,
        tile > 0,
    ensures
        n <= rounded(n, tile) < n + tile,
        0 <= ceil_div(n, tile) <= n,
{
    lemma_ceil_div(n, tile);
    let q = ceil_div(n, tile);
    assert(n <= q * tile < n + tile) by (nonlinear_arith)
        requires
            q * tile >= n,
            (q - 1) * tile < n || (n == 0 && q == 0),
            tile > 0,
    ;
}

/// The parameter block of a call.
pub fn flash_fwd_params(c: &FmhaCall, block_m: u32) -> (v: Vec<u8>)
    requires
        c.wf(),
        0 < block_m <= 256,
    ensures
        v@ == param_bytes(*c, block_m),
{
    proof {
        lemma_call(*c, block_m);
    }
    let mut out: Vec<u8> = Vec::new();
    let (h, hk, d, b) = (c.heads as u64, c.kv_heads as u64, c.d as u64, c.batch as u64);
    let q_width: u64 = h * d;
    let kv_width: u64 = hk * d;
    let q_row: u64 = b * h * d;
    let kv_row: u64 = b * hk * d;
    let group: u64 = h / hk;
    let operands: Vec<(u64, usize)> = vec![
        (c.q, 8),
        (c.k, 8),
        (c.v, 8),
        (q_width, 8),
        (kv_width, 8),
        (kv_width, 8),
        (q_row, 8),
        (kv_row, 8),
        (kv_row, 8),
        (d, 8),
        (d, 8),
        (d, 8),
        (h, 4),
        (hk, 4),
        (group, 4),
        (0, 4),
    ];
    push_fields(&mut out, &operands);
    let outputs: Vec<(u64, usize)> = vec![
        (c.o, 8),
        (0, 8),
        (q_width, 8),
        (q_row, 8),
        (d, 8),
        (0, 8),
        (c.lse, 8),
        (0, 8),
    ];
    push_fields(&mut out, &outputs);
    let s: u64 = c.seqlen as u64;
    let row_tiles: u64 = div_ceil_u32(c.seqlen, block_m) as u64 * block_m as u64;
    let key_tiles: u64 = div_ceil_u32(c.seqlen, 64) as u64 * 64;
    let total_rows: u64 = s * b;
    let extents: Vec<(u64, usize)> = vec![
        (b, 4),
        (s, 4),
        (s, 4),
        (0, 4),
        (d, 4),
        (row_tiles, 4),
        (key_tiles, 4),
        (128, 4),
        (0, 4),
        (total_rows, 4),
        (F32_ONE as u64, 4),
        (LOG2_E as u64, 4),
    ];
    push_fields(&mut out, &extents);
    let unused: Vec<(u64, usize)> = vec![
        (0, 8),
        (0, 8),
        (0, 8),
        (0, 8),
        (0, 8),
        (0, 8),
        (0, 8),
        (0, 8),
        (0, 8),
        (0, 8),
        (0, 8),
        (0, 8),
        (0, 8),
        (0, 8),
        (0, 8),
        (0, 8),
        (0, 8),
        (0, 8),
    ];
    push_fields(&mut out, &unused);
    let modes: Vec<(u64, usize)> = vec![
        (0, 4),
        (F32_ZERO as u64, 4),
        (0, 1),
        (0, 3),
        (F32_ONE as u64, 4),
        (F32_ONE as u64, 4),
        (0xffff_ffff, 4),
        (0, 4),
        (F32_ZERO as u64, 4),
        (0, 8),
        (0, 8),
        (0, 8),
        (0, 1),
        (1, 1),
        (0, 1),
        (0, 1),
        (1, 4),
        (0, 8),
        (0, 8),
        (0, 1),
        (0, 1),
        (0, 6),
    ];
    push_fields(&mut out, &modes);
    proof {
        assert(operands@ =~= operand_fields(*c));
        assert(outputs@ =~= output_fields(*c));
        assert(extents@ =~= extent_fields(*c, block_m));
        assert(unused@ =~= unused_fields());
        assert(modes@ =~= mode_fields());
        assert(out@ =~= param_bytes(*c, block_m));
    }
    out
}

/// The parameter block has the size that the kernel's own structure has.
pub proof fn param_block_has_fixed_size(c: FmhaCall, block_m: u32)
    ensures
        param_bytes(c, block_m).len() == 456,
{
    reveal_with_fuel(fields_width, 23);
    lemma_fields_width(operand_fields(c));
    lemma_fields_width(output_fields(c));
    lemma_fields_width(extent_fields(c, block_m));
    lemma_fields_width(unused_fields());
    lemma_fields_width(mode_fields());
    assert(fields_width(operand_fields(c)) == 112);
    assert(fields_width(output_fields(c)) == 64);
    assert(fields_width(extent_fields(c, block_m)) == 48);
    assert(fields_width(unused_fields()) == 144);
    assert(fields_width(mode_fields()) == 88);
}

/// The path of a header below its root, with slashes between its parts.
pub fn header_path(rel: &str) -> (s: String)
    ensures
        s@ == rel@.map_values(
            |c: char|
                if c == '\\' {
                    '/'
                } else {
                    c
                },
        ),
{
    let chars = chars_of(rel);
    let mut s = String::new();
    let mut i: usize = 0;
    while i < chars.len()
        invariant
            i <= chars@.len(),
            chars@ == rel@,
            s@ == rel@.subrange(0, i as int).map_values(
                |c: char|
                    if c == '\\' {
                        '/'
                    } else {
                        c
                    },
            ),
        decreases chars@.len() - i,
    {
        let c: char = chars[i];
        s.push(
            if c == '\\' {
                '/'
            } else {
                c
            },
        );
        i = i + 1;
        proof {
            assert(s@ =~= rel@.subrange(0, i as int).map_values(
                |c: char|
                    if c == '\\' {
                        '/'
                    } else {
                        c
                    },
            ));
        }
    }
    proof {
        assert(rel@.subrange(0, rel@.len() as int) =~= rel@);
    }
    s
}

/// A launch with a parameter block.
#[derive(Debug)]
pub struct FmhaLaunch {
    pub on: Queue,
    pub kernel: Kernel,
    pub grid: Dim3,
    pub block: Dim3,
    pub shared: u32,
    pub params: Vec<u8>,
}

/// The mathematical value of such a launch.
#[verifier::ext_equal]
pub struct FmhaLaunchV {
    pub on: Queue,
    pub kernel: Kernel,
    pub grid: Dim3,
    pub block: Dim3,
    pub shared: u32,
    pub params: Seq<u8>,
}

impl View for FmhaLaunch {
    type V = FmhaLaunchV;

    open spec fn view(&self) -> FmhaLaunchV {
        FmhaLaunchV {
            on: self.on,
            kernel: self.kernel,
            grid: self.grid,
            block: self.block,
            shared: self.shared,
            params: self.params@,
        }
    }
}

/// The launch of a call by a variant: a block per row tile, sequence and head.
pub open spec fn fmha_launch(on: Queue, v: FmhaVariant, c: FmhaCall, smem: Option<u32>) -> FmhaLaunchV {
    FmhaLaunchV {
        on,
        kernel: Kernel::Fmha {
            variant: v.id,
            mn_even: c.seqlen % v.block_m == 0,
            k_even: c.seqlen % 64 == 0,
        },
        grid: Dim3 {
            x: ceil_div(c.seqlen as int, v.block_m as int) as u32,
            y: c.batch,
            z: c.heads,
        },
        block: Dim3 { x: v.threads, y: 1, z: 1 },
        shared: match smem {
            Some(n) => n,
            None => v.smem,
        },
        params: param_bytes(c, v.block_m),
    }
}

/// What a call launches: where its buffers have not been primed, first a launch of
/// the priming variant on the same arguments, to be waited for; then its own.
#[derive(Debug)]
pub struct FmhaPlan {
    pub preflight: Option<FmhaLaunch>,
    pub launch: FmhaLaunch,
}

/// The loaded variants, and the calls whose buffers are primed.
#[derive(Debug)]
pub struct FmhaKernels {
    pub variants: Vec<FmhaVariant>,
    pub stream: CudaStream,
    pub arch: String,
    pub primed: Vec<FmhaCall>,
}

/// Sizes in bytes of the buffers of the warm-up launch.
pub const WARMUP_Q: usize = 524288;

pub const WARMUP_KV: usize = 262144;

pub const WARMUP_LSE: usize = 8192;

/// The call of the warm-up launch.
pub open spec fn warmup_call(q: u64, k: u64, v: u64, o: u64, lse: u64) -> FmhaCall {
    FmhaCall { q, k, v, o, lse, seqlen: 256, batch: 1, heads: 8, kv_heads: 4, d: 128 }
}

/// The number of the variant whose stores do not all land: it is loaded to be measured,
/// and serves no prompt.
pub const UNSERVING: u32 = 2;

/// Whether the variant of a number is loaded.
pub open spec fn is_loaded(variants: Seq<FmhaVariant>, id: u32) -> bool {
    exists|i: int| 0 <= i < variants.len() && (#[trigger] variants[i]).id == id
}

/// The number of the variant that a prompt is served by: number 1, or number 0 where the
/// device rejected it, or the widest where it rejected both.
pub open spec fn served_by(variants: Seq<FmhaVariant>) -> u32 {
    if is_loaded(variants, 1) {
        1
    } else if is_loaded(variants, 0) {
        0
    } else {
        3
    }
}

/// Whether a variant is loaded that prompts can be served by.
pub open spec fn can_serve(variants: Seq<FmhaVariant>) -> bool {
    is_loaded(variants, served_by(variants))
}

/// The variant that primes buffers: number 0, or the first one where the device rejected
/// it.
pub open spec fn primer(variants: Seq<FmhaVariant>) -> FmhaVariant {
    if is_loaded(variants, 0) {
        variant_table()[0]
    } else {
        variants[0]
    }
}

impl FmhaKernels {
    /// Variants of the table, in the order of their numbers.
    pub open spec fn wf(self) -> bool {
        &&& forall|i: int|
            #![trigger self.variants@[i]]
            0 <= i < self.variants@.len() ==> self.variants@[i].id < variant_table().len()
                && self.variants@[i] == variant_table()[self.variants@[i].id as int]
        &&& forall|i: int, j: int|
            0 <= i < j < self.variants@.len() ==> self.variants@[i].id < self.variants@[j].id
    }

    /// The tiles of a loaded variant.
    proof fn lemma_tiles(self, i: int)
        requires
            self.wf(),
            0 <= i < self.variants@.len(),
        ensures
            0 < self.variants@[i].block_m <= 256,
    {
        let t = variant_table();
        assert(t[0].block_m == 128 && t[1].block_m == 128 && t[2].block_m == 128);
        assert(t[3].block_m == 256);
        assert(self.variants@[i] == t[self.variants@[i].id as int]);
    }

    /// Variant 0, where it is loaded, is the first.
    proof fn lemma_primer(self)
        requires
            self.wf(),
            self.variants@.len() > 0,
        ensures
            primer(self.variants@) == self.variants@[0],
            is_loaded(self.variants@, 0) <==> self.variants@[0].id == 0,
    {
        if is_loaded(self.variants@, 0) {
            let i = choose|i: int|
                0 <= i < self.variants@.len() && (#[trigger] self.variants@[i]).id == 0;
            if i > 0 {
                assert(self.variants@[0].id < self.variants@[i].id);
            }
        }
    }

    /// The variants whose shared memory the device accepted, with nothing primed.
    pub fn new(arch: &str, stream: CudaStream, accepted: &Vec<bool>) -> (k: Self)
        requires
            accepted@.len() == variant_table().len(),
        ensures
            k.wf(),
            k.variants@ == kept(variant_table(), accepted@),
            k.stream == stream,
            k.arch@ == arch@,
            k.primed@.len() == 0,
    {
        let all = compiled_variants();
        let mut variants: Vec<FmhaVariant> = Vec::new();
        let mut i: usize = 0;
        while i < all.len()
            invariant
                i <= all.len(),
                all@ == variant_table(),
                accepted@.len() == all@.len(),
                variants@ == kept(all@.subrange(0, i as int), accepted@),
                forall|j: int|
                    #![trigger variants@[j]]
                    0 <= j < variants@.len() ==> variants@[j].id < i && variants@[j]
                        == variant_table()[variants@[j].id as int],
                forall|j: int, l: int|
                    0 <= j < l < variants@.len() ==> variants@[j].id < variants@[l].id,
            decreases all.len() - i,
        {
            if accepted[i] {
                variants.push(all[i]);
            }
            i = i + 1;
            proof {
                let s = all@.subrange(0, i as int);
                assert(s.drop_last() =~= all@.subrange(0, i - 1));
                assert(s.last() == all@[i - 1]);
            }
        }
        proof {
            assert(all@.subrange(0, all@.len() as int) =~= all@);
        }
        FmhaKernels { variants, stream, arch: arch.to_owned(), primed: Vec::new() }
    }

    /// The architecture that the kernels are compiled for.
    pub fn arch(&self) -> (s: &str)
        ensures
            s@ == self.arch@,
    {
        self.arch.as_str()
    }

    /// The loaded variants.
    pub fn variants(&self) -> (v: &Vec<FmhaVariant>)
        ensures
            *v == self.variants,
    {
        &self.variants
    }

    /// Whether prompts can be served: a variant other than the one that only serves
    /// measurements is loaded.
    pub fn serves(&self) -> (b: bool)
        requires
            self.wf(),
        ensures
            b == can_serve(self.variants@),
            b == exists|i: int|
                0 <= i < self.variants@.len() && (#[trigger] self.variants@[i]).id != UNSERVING,
    {
        let r = self.pick_variant();
        proof {
            let v = self.variants@;
            if exists|i: int| 0 <= i < v.len() && (#[trigger] v[i]).id != UNSERVING {
                let i = choose|i: int| 0 <= i < v.len() && (#[trigger] v[i]).id != UNSERVING;
                assert(is_loaded(v, v[i].id));
            }
            if can_serve(v) {
                let i = choose|i: int| 0 <= i < v.len() && (#[trigger] v[i]).id == served_by(v);
                assert(v[i].id != UNSERVING);
            }
        }
        r.is_some()
    }

    /// The index of the variant that a prompt is served by, and its kernel: the variant
    /// numbered 1, or number 0 where the device rejected it, or the widest where it
    /// rejected both.
    pub fn pick(&self, seqlen: u32) -> (r: (usize, Kernel))
        requires
            self.wf(),
            can_serve(self.variants@),
        ensures
            r.0 < self.variants@.len(),
            self.variants@[r.0 as int] == variant_table()[served_by(self.variants@) as int],
            self.variants@[r.0 as int].id == served_by(self.variants@),
            r.1 == (Kernel::Fmha {
                variant: served_by(self.variants@),
                mn_even: seqlen % self.variants@[r.0 as int].block_m == 0,
                k_even: seqlen % 64 == 0,
            }),
    {
        let i: usize = match self.pick_variant() {
            Some(i) => i,
            None => 0,
        };
        proof {
            self.lemma_tiles(i as int);
        }
        let v = &self.variants[i];
        (i, v.symbol(seqlen % v.block_m == 0, seqlen % 64 == 0))
    }

    /// The index of the variant of a number.
    fn find(&self, id: u32) -> (r: Option<usize>)
        ensures
            r is Some <==> is_loaded(self.variants@, id),
            r is Some ==> r->0 < self.variants@.len() && self.variants@[r->0 as int].id == id,
    {
        let mut i: usize = 0;
        while i < self.variants.len()
            invariant
                i <= self.variants.len(),
                forall|j: int| 0 <= j < i ==> (#[trigger] self.variants@[j]).id != id,
            decreases self.variants.len() - i,
        {
            if self.variants[i].id == id {
                return Some(i);
            }
            i = i + 1;
        }
        None
    }

    fn pick_variant(&self) -> (r: Option<usize>)
        ensures
            r is Some <==> can_serve(self.variants@),
            r is Some ==> r->0 < self.variants@.len() && self.variants@[r->0 as int].id
                == served_by(self.variants@),
    {
        if let Some(i) = self.find(1) {
            return Some(i);
        }
        if let Some(i) = self.find(0) {
            return Some(i);
        }
        self.find(3)
    }

    /// Row tile of the variant that a prompt is served by.
    pub fn block_m(&self, seqlen: u32) -> (m: u32)
        requires
            self.wf(),
            can_serve(self.variants@),
        ensures
            m == variant_table()[served_by(self.variants@) as int].block_m,
    {
        let (i, _) = self.pick(seqlen);
        self.variants[i].block_m
    }

    /// The kernel whose limit of shared memory a probe sets.
    pub fn probe_set_max_smem(&self, variant: usize) -> (r: Result<Kernel, LaunchError>)
        ensures
            r is Ok <==> variant < self.variants@.len(),
            r is Ok ==> r->Ok_0 == (Kernel::Fmha {
                variant: self.variants@[variant as int].id,
                mn_even: true,
                k_even: true,
            }),
            r is Err ==> r->Err_0 == LaunchError::Fatal,
    {
        if variant < self.variants.len() {
            Ok(self.variants[variant].symbol(true, true))
        } else {
            Err(LaunchError::Fatal)
        }
    }

    fn is_primed(&self, c: &FmhaCall) -> (b: bool)
        ensures
            b == self.primed@.contains(*c),
    {
        let mut i: usize = 0;
        while i < self.primed.len()
            invariant
                i <= self.primed.len(),
                forall|j: int| 0 <= j < i ==> #[trigger] self.primed@[j] != *c,
            decreases self.primed.len() - i,
        {
            if self.primed[i] == *c {
                return true;
            }
            i = i + 1;
        }
        false
    }

    fn one(&self, dev: u32, i: usize, c: &FmhaCall, smem: Option<u32>) -> (l: FmhaLaunch)
        requires
            self.wf(),
            i < self.variants@.len(),
            c.wf(),
        ensures
            l@ == fmha_launch(
                (Queue { dev, stream: self.stream }),
                self.variants@[i as int],
                *c,
                smem,
            ),
    {
        proof {
            self.lemma_tiles(i as int);
        }
        let v = &self.variants[i];
        let shared: u32 = match smem {
            Some(n) => n,
            None => v.smem,
        };
        FmhaLaunch {
            on: Queue { dev, stream: self.stream },
            kernel: v.symbol(c.seqlen % v.block_m == 0, c.seqlen % 64 == 0),
            grid: Dim3 { x: div_ceil_u32(c.seqlen, v.block_m), y: c.batch, z: c.heads },
            block: Dim3 { x: v.threads, y: 1, z: 1 },
            shared,
            params: flash_fwd_params(c, v.block_m),
        }
    }

    /// The launches of a call by a chosen variant, with its shared memory or
    /// another amount.  The call counts as primed from here on.
    pub fn launch_batched_prefill_variant_smem(
        &mut self,
        dev: u32,
        variant: usize,
        c: &FmhaCall,
        smem: Option<u32>,
    ) -> (r: Result<FmhaPlan, LaunchError>)
        requires
            old(self).wf(),
            c.wf(),
        ensures
            r is Ok <==> variant < old(self).variants@.len(),
            r is Err ==> r->Err_0 == LaunchError::Fatal && *final(self) == *old(self),
            r is Ok ==> prepares(
                *old(self),
                *final(self),
                dev,
                old(self).variants@[variant as int],
                *c,
                smem,
                r->Ok_0,
            ),
    {
        if variant >= self.variants.len() {
            return Err(LaunchError::Fatal);
        }
        proof {
            self.lemma_primer();
        }
        let preflight = if self.is_primed(c) {
            None
        } else {
            self.primed.push(*c);
            Some(self.one(dev, 0, c, None))
        };
        let launch = self.one(dev, variant, c, smem);
        Ok(FmhaPlan { preflight, launch })
    }

    /// The launches of a call by a chosen variant.
    pub fn launch_batched_prefill_variant(&mut self, dev: u32, variant: usize, c: &FmhaCall) -> (r:
        Result<FmhaPlan, LaunchError>)
        requires
            old(self).wf(),
            c.wf(),
        ensures
            r is Ok <==> variant < old(self).variants@.len(),
            r is Err ==> r->Err_0 == LaunchError::Fatal && *final(self) == *old(self),
            r is Ok ==> prepares(
                *old(self),
                *final(self),
                dev,
                old(self).variants@[variant as int],
                *c,
                None,
                r->Ok_0,
            ),
    {
        self.launch_batched_prefill_variant_smem(dev, variant, c, None)
    }

    /// The launches of a call by the variant that serves prompts; refused where no such
    /// variant is loaded.
    pub fn launch_batched_prefill(&mut self, dev: u32, c: &FmhaCall) -> (r: Result<
        FmhaPlan,
        LaunchError,
    >)
        requires
            old(self).wf(),
            c.wf(),
        ensures
            r is Ok <==> can_serve(old(self).variants@),
            r is Err ==> r->Err_0 == LaunchError::Fatal && *final(self) == *old(self),
            r is Ok ==> prepares(
                *old(self),
                *final(self),
                dev,
                variant_table()[served_by(old(self).variants@) as int],
                *c,
                None,
                r->Ok_0,
            ),
    {
        if !self.serves() {
            return Err(LaunchError::Fatal);
        }
        let (i, _) = self.pick(c.seqlen);
        self.launch_batched_prefill_variant(dev, i, c)
    }

    /// Whether a fresh context is warmed up: where the device accepted variant 0.
    pub fn warms_up(&self) -> (b: bool)
        ensures
            b == is_loaded(self.variants@, 0),
    {
        self.find(0).is_some()
    }

    /// The launches that warm a fresh context up, on buffers of their own; none where
    /// the device rejected variant 0.  They prime nothing.
    pub fn warmup_context(&mut self, q: u64, k: u64, v: u64, o: u64, lse: u64) -> (r: Option<FmhaPlan>)
        requires
            old(self).wf(),
        ensures
            final(self).variants == old(self).variants,
            final(self).stream == old(self).stream,
            final(self).arch == old(self).arch,
            final(self).primed@.len() == 0,
            r is Some <==> is_loaded(old(self).variants@, 0),
            r is Some ==> r->0.launch@ == fmha_launch(
                (Queue { dev: old(self).stream.dev, stream: old(self).stream }),
                variant_table()[0],
                warmup_call(q, k, v, o, lse),
                None,
            ),
            r is Some && old(self).primed@.len() == 0 ==> r->0.preflight is Some
                && r->0.preflight->0@ == r->0.launch@,
    {
        let plan = if let Some(i) = self.find(0) {
            proof {
                self.lemma_primer();
            }
            let c = FmhaCall {
                q,
                k,
                v,
                o,
                lse,
                seqlen: 256,
                batch: 1,
                heads: 8,
                kv_heads: 4,
                d: 128,
            };
            let dev: u32 = self.stream.dev;
            match self.launch_batched_prefill_variant(dev, i, &c) {
                Ok(p) => Some(p),
                Err(_) => None,
            }
        } else {
            None
        };
        self.primed = Vec::new();
        plan
    }
}

/// What a call launches and leaves behind: a priming launch precedes it if and only if
/// the call was not primed before, and it is primed afterwards.
pub open spec fn prepares(
    old: FmhaKernels,
    new: FmhaKernels,
    dev: u32,
    v: FmhaVariant,
    c: FmhaCall,
    smem: Option<u32>,
    p: FmhaPlan,
) -> bool {
    let on = Queue { dev, stream: old.stream };
    &&& new.variants == old.variants
    &&& new.stream == old.stream
    &&& new.arch == old.arch
    &&& new.primed@ == if old.primed@.contains(c) {
        old.primed@
    } else {
        old.primed@.push(c)
    }
    &&& p.preflight is None <==> old.primed@.contains(c)
    &&& p.preflight is Some ==> p.preflight->0@ == fmha_launch(
        on,
        primer(old.variants@),
        c,
        None,
    )
    &&& p.launch@ == fmha_launch(on, v, c, smem)
}

/// A set of buffers is primed once: whatever is launched in between, a call that
/// was launched before is not preceded by a priming launch again.
pub proof fn buffers_are_primed_once(
    k0: FmhaKernels,
    k1: FmhaKernels,
    k2: FmhaKernels,
    dev: u32,
    v1: FmhaVariant,
    v2: FmhaVariant,
    c: FmhaCall,
    other: FmhaCall,
    p1: FmhaPlan,
    p2: FmhaPlan,
)
    requires
        prepares(k0, k1, dev, v1, c, None, p1) || k1.primed@.contains(c),
        prepares(k1, k2, dev, v2, other, None, p2),
    ensures
        k1.primed@.contains(c),
        k2.primed@.contains(c),
        k2.primed@.contains(other),
        other == c ==> p2.preflight is None,
{
    if !k0.primed@.contains(c) && !k1.primed@.contains(c) {
        assert(k1.primed@[k0.primed@.len() as int] == c);
    }
    let i = k1.primed@.index_of(c);
    assert(k2.primed@[i] == c);
    if !k1.primed@.contains(other) {
        assert(k2.primed@[k1.primed@.len() as int] == other);
    }
}

/// Buffers of prompts: an operand, the output, and the row sums.
#[derive(Debug, Clone, Copy, PartialEq, Eq, Structural)]
pub struct FmhaBuffers {
    pub qkv: DeviceBuffer,
    pub o: DeviceBuffer,
    pub lse: DeviceBuffer,
}

/// Their sizes in bytes.
#[derive(Debug, Clone, Copy, PartialEq, Eq, Structural)]
pub struct FmhaSizes {
    pub qkv: usize,
    pub o: usize,
    pub lse: usize,
}

impl FmhaBuffers {
    /// The buffers in allocations of their sizes.
    pub fn allocate(qkv: DeviceBuffer, o: DeviceBuffer, lse: DeviceBuffer) -> (b: Self)
        ensures
            b == (FmhaBuffers { qkv, o, lse }),
    {
        FmhaBuffers { qkv, o, lse }
    }

    /// The sizes for prompts of up to `max_seq` tokens in batches of up to
    /// `max_batch`; `None` where one of them cannot be expressed.
    pub fn alloc_sizes(max_seq: usize, max_batch: usize, nqk: usize) -> (r: Option<FmhaSizes>)
        ensures
            r is Some <==> max_seq * max_batch <= usize::MAX && max_seq * max_batch * nqk * 4
                <= usize::MAX,
            r is Some ==> r->0.qkv == max_seq * max_batch * nqk * 2,
            r is Some ==> r->0.o == r->0.qkv,
            r is Some ==> r->0.lse == max_batch * nqk * max_seq * 4,
    {
        proof {
            let (s, b, n) = (max_seq as int, max_batch as int, nqk as int);
            assert(s * b * n == b * n * s) by (nonlinear_arith);
            assert(0 <= s * b && 0 <= s * b * n) by (nonlinear_arith)
                requires
                    s >= 0,
                    b >= 0,
                    n >= 0,
            ;
        }
        let rows: usize = max_seq.checked_mul(max_batch)?;
        let n: usize = rows.checked_mul(nqk)?;
        let lse: usize = n.checked_mul(4)?;
        Some(FmhaSizes { qkv: n * 2, o: n * 2, lse })
    }
}

} // verus!
