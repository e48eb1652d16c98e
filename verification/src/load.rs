//! Decisions and sizes of loading a model.

use vstd::prelude::*;

use crate::batch::{push_table, table_bytes, table_holds_its_pages};
use crate::bytes::le32;
use crate::engine_error::{EngineError, ErrorV};
use crate::math::{ceil_div, div_ceil_usize, lemma_ceil_div};
use crate::model::{LlamaConfig, BLOCK_LEN};
use crate::step::{slot_lies_in_its_layer, StepCtx};
use crate::text::push_text;

verus! {

/// A parsed JSON document.
#[verifier::external_type_specification]
#[verifier::external_body]
pub struct ExJsonValue(serde_json::Value);

/// What `serde_json::from_slice` makes of bytes: the document, or the text of the
/// error.
pub uninterp spec fn json_outcome(bytes: Seq<u8>) -> Result<serde_json::Value, Seq<char>>;

/// Calls `serde_json::from_slice` for a `Value`, and takes the text of its error.
/// Claimed: the outcome depends on the bytes alone.  What the document holds, and
/// which bytes are refused, is left unsaid.
#[verifier::external_body]
fn json_of_bytes(bytes: &[u8]) -> (r: Result<serde_json::Value, String>)
    ensures
        r is Ok <==> json_outcome(bytes@) is Ok,
        r is Ok ==> r->Ok_0 == json_outcome(bytes@)->Ok_0,
        r is Err ==> r->Err_0@ == json_outcome(bytes@)->Err_0,
{
    serde_json::from_slice(bytes).map_err(|e| e.to_string())
}

/// The outcome of reading a configuration, where `parsed` is what came of its bytes.
pub fn config_outcome(parsed: Result<serde_json::Value, String>) -> (r: Result<
    serde_json::Value,
    EngineError,
>)
    ensures
        r is Ok <==> parsed is Ok,
        r is Ok ==> r->Ok_0 == parsed->Ok_0,
        r is Err ==> r->Err_0@ == ErrorV::Sts("config.json: "@ + parsed->Err_0@),
{
    match parsed {
        Ok(v) => Ok(v),
        Err(e) => {
            let mut s = "config.json: ".to_owned();
            push_text(&mut s, e.as_str());
            Err(EngineError::Sts(s))
        },
    }
}

/// The configuration of a model from the bytes of its file.
pub fn parse_config(bytes: &[u8]) -> (r: Result<serde_json::Value, EngineError>)
    ensures
        r is Ok <==> json_outcome(bytes@) is Ok,
        r is Ok ==> r->Ok_0 == json_outcome(bytes@)->Ok_0,
        r is Err ==> r->Err_0@ == ErrorV::Sts("config.json: "@ + json_outcome(bytes@)->Err_0),
{
    config_outcome(json_of_bytes(bytes))
}

/// Pages per layer for `max_kv` tokens.
pub fn pages_per_layer(max_kv: usize) -> (pp: usize)
    ensures
        pp == ceil_div(max_kv as int, BLOCK_LEN as int),
        pp * BLOCK_LEN >= max_kv,
{
    proof {
        lemma_ceil_div(max_kv as int, BLOCK_LEN as int);
    }
    div_ceil_usize(max_kv, BLOCK_LEN)
}

/// The page table of all layers: entry `i` is page `i`.
pub fn identity_pages(n_layers: usize, pp: usize) -> (v: Vec<u8>)
    requires
        n_layers * pp <= u32::MAX,
    ensures
        v@ == table_bytes(0, (n_layers * pp) as nat),
{
    let mut out: Vec<u8> = Vec::new();
    push_table(&mut out, 0, (n_layers * pp) as u32);
    proof {
        assert(out@ =~= table_bytes(0, (n_layers * pp) as nat));
    }
    out
}

/// Attention reads where the step wrote: for every position that the cache holds, the
/// entry of the uploaded table that a layer's attention looks up is the page that the
/// write of the slot goes to.
pub proof fn table_names_the_written_page(c: StepCtx, li: int, pos: usize)
    requires
        c.wf(),
        0 <= li < c.cfg.n_layer,
        pos < c.cap(),
    ensures
        ({
            let at = c.page_table(li) + (pos / 32) * 4 - c.b.pages.ptr;
            let table = table_bytes(0, (c.cfg.n_layer * c.pp) as nat);
            &&& 0 <= at && at + 4 <= table.len()
            &&& le32(table, at) == c.phys(li, pos)
        }),
{
    slot_lies_in_its_layer(c, li, pos);
    let j = c.phys(li, pos);
    assert(0 <= li * c.pp && li * c.pp <= c.pages()) by (nonlinear_arith)
        requires
            0 <= li,
            li * c.pp <= j,
            j < c.pages(),
            c.pp >= 0,
    ;
    assert(c.page_table(li) == c.b.pages.ptr + li * c.pp * 4);
    table_holds_its_pages(0, c.pages() as nat, j);
}

/// Sizes in bytes of the buffers of a decode step.
#[derive(Debug, Clone, Copy, PartialEq, Eq, Structural)]
pub struct StepSizes {
    /// The KV length, on the device and staged.
    pub lens: usize,
    pub x: usize,
    pub xn: usize,
    pub q: usize,
    pub k: usize,
    pub v: usize,
    pub attn: usize,
    pub down: usize,
    pub x32: usize,
    pub xn32: usize,
    pub attn32: usize,
    pub c_q: usize,
    pub c_k: usize,
    pub c_v: usize,
    pub c_o: usize,
    pub c_g: usize,
    pub c_u: usize,
    pub c_d: usize,
    /// The logits, on the device and staged.
    pub logits: usize,
    pub scores: usize,
}

/// The sizes for a model that keeps up to `max_kv` tokens.
pub open spec fn step_sizes_of(cfg: LlamaConfig, max_kv: usize) -> StepSizes {
    StepSizes {
        lens: 4,
        x: (cfg.hidden_size * 2) as usize,
        xn: (cfg.hidden_size * 2) as usize,
        q: (cfg.nqk() * 2) as usize,
        k: (cfg.kvk() * 2) as usize,
        v: (cfg.kvk() * 2) as usize,
        attn: (cfg.nqk() * 2) as usize,
        down: (cfg.ffn_hidden * 2) as usize,
        x32: (cfg.hidden_size * 4) as usize,
        xn32: (cfg.hidden_size * 4) as usize,
        attn32: (cfg.nqk() * 4) as usize,
        c_q: (cfg.nqk() * 4) as usize,
        c_k: (cfg.kvk() * 4) as usize,
        c_v: (cfg.kvk() * 4) as usize,
        c_o: (cfg.hidden_size * 4) as usize,
        c_g: (cfg.ffn_hidden * 4) as usize,
        c_u: (cfg.ffn_hidden * 4) as usize,
        c_d: (cfg.hidden_size * 4) as usize,
        logits: (cfg.vocab_size * 4) as usize,
        scores: (cfg.nqk() * max_kv * 4) as usize,
    }
}

/// The sizes of the buffers of a decode step.
pub fn step_sizes(cfg: &LlamaConfig, max_kv: usize) -> (r: StepSizes)
    requires
        cfg.wf(),
        cfg.nqk() * max_kv * 4 <= usize::MAX,
    ensures
        r == step_sizes_of(*cfg, max_kv),
{
    let w = cfg.widths();
    proof {
        assert(0 <= w.nqk * max_kv) by (nonlinear_arith)
            requires
                w.nqk >= 0,
                max_kv >= 0,
        ;
    }
    StepSizes {
        lens: 4,
        x: w.h * 2,
        xn: w.h * 2,
        q: w.nqk * 2,
        k: w.kvk * 2,
        v: w.kvk * 2,
        attn: w.nqk * 2,
        down: w.ffn * 2,
        x32: w.h * 4,
        xn32: w.h * 4,
        attn32: w.nqk * 4,
        c_q: w.nqk * 4,
        c_k: w.kvk * 4,
        c_v: w.kvk * 4,
        c_o: w.h * 4,
        c_g: w.ffn * 4,
        c_u: w.ffn * 4,
        c_d: w.h * 4,
        logits: w.vocab * 4,
        scores: w.nqk * max_kv * 4,
    }
}

/// What the environment and the loading so far say of the decode step.
#[derive(Debug, Clone, Copy, PartialEq, Eq, Structural)]
pub struct Switches {
    pub parity_f32: bool,
    pub fused_off: bool,
    pub layer_fused_off: bool,
    pub jgemm_off: bool,
    pub flash_off: bool,
}

/// Whether the joined projections of a layer are loaded: not on the `f32` tier, whose
/// prompts are stepped token by token.
pub fn wants_joined(s: &Switches) -> (b: bool)
    ensures
        b == !s.parity_f32,
{
    !s.parity_f32
}

/// Whether the fused kernels serve a model: nothing turns them or what they are made
/// of off, the one-row kernels are loaded, heads divide a block of 256 threads, and a
/// row fits the norm's block.
pub open spec fn fused_serves(s: Switches, cfg: LlamaConfig, jgemm_loaded: bool) -> bool {
    &&& !s.parity_f32
    &&& !s.fused_off
    &&& !s.jgemm_off
    &&& !s.flash_off
    &&& jgemm_loaded
    &&& cfg.head_dim >= 32
    &&& 256int % cfg.head_dim as int == 0
    &&& cfg.hidden_size <= 1024
}

/// Whether the fused kernels are to be loaded.
pub fn wants_fused(s: &Switches, cfg: &LlamaConfig, jgemm_loaded: bool) -> (b: bool)
    ensures
        b == fused_serves(*s, *cfg, jgemm_loaded),
{
    !s.parity_f32 && !s.fused_off && !s.jgemm_off && !s.flash_off && jgemm_loaded && cfg.head_dim
        >= 32 && 256 % cfg.head_dim == 0 && cfg.hidden_size <= 1024
}

/// Whether the layer kernel serves a model: the fused kernels are loaded, nothing
/// turns it off, heads are even, divide a block of 512 threads and have between 64
/// and 256 elements, and a row fits the norm's block.
pub open spec fn layer_fused_serves(s: Switches, cfg: LlamaConfig, fused_loaded: bool) -> bool {
    &&& fused_loaded
    &&& !s.layer_fused_off
    &&& 64 <= cfg.head_dim <= 256
    &&& 512int % cfg.head_dim as int == 0
    &&& cfg.head_dim % 2 == 0
    &&& cfg.hidden_size <= 1024
}

/// Whether the layer kernel is to be loaded.
pub fn wants_layer_fused(s: &Switches, cfg: &LlamaConfig, fused_loaded: bool) -> (b: bool)
    ensures
        b == layer_fused_serves(*s, *cfg, fused_loaded),
{
    fused_loaded && !s.layer_fused_off && 64 <= cfg.head_dim && cfg.head_dim <= 256 && 512
        % cfg.head_dim == 0 && cfg.head_dim % 2 == 0 && cfg.hidden_size <= 1024
}

/// The layer kernel needs the fused kernels, and those need the one-row kernels and
/// flash attention: with one of them off, neither is loaded.
pub proof fn fusion_needs_its_parts(s: Switches, cfg: LlamaConfig, jgemm_loaded: bool)
    requires
        s.parity_f32 || s.jgemm_off || s.flash_off || !jgemm_loaded || s.fused_off,
    ensures
        !fused_serves(s, cfg, jgemm_loaded),
        !layer_fused_serves(s, cfg, fused_serves(s, cfg, jgemm_loaded)),
{
}

} // verus!
