//! Tags of the launches of a batched prefill.

use vstd::prelude::*;

verus! {

/// What a mark of the prefill profiler ends.
#[derive(Debug, Clone, Copy, PartialEq, Eq, Structural)]
pub enum PTag {
    Gather,
    RmsAttn,
    GemmQkv,
    CastQkv,
    RmsHeadsQ,
    RmsHeadsK,
    RopeQ,
    RopeK,
    ScaleQ,
    Fmha,
    KvWrite,
    GemmO,
    CastO,
    AddO,
    RmsFfn,
    GemmGate,
    GemmUp,
    CastGU,
    Swiglu,
    GemmDown,
    CastD,
    AddD,
    FinalRms,
    LmHead,
    LayerBoundary,
}

/// Number of tags.
pub const PTAG_COUNT: usize = 25;

/// The number of a tag.
pub open spec fn tag_number(t: PTag) -> u16 {
    match t {
        PTag::Gather => 0,
        PTag::RmsAttn => 1,
        PTag::GemmQkv => 2,
        PTag::CastQkv => 3,
        PTag::RmsHeadsQ => 4,
        PTag::RmsHeadsK => 5,
        PTag::RopeQ => 6,
        PTag::RopeK => 7,
        PTag::ScaleQ => 8,
        PTag::Fmha => 9,
        PTag::KvWrite => 10,
        PTag::GemmO => 11,
        PTag::CastO => 12,
        PTag::AddO => 13,
        PTag::RmsFfn => 14,
        PTag::GemmGate => 15,
        PTag::GemmUp => 16,
        PTag::CastGU => 17,
        PTag::Swiglu => 18,
        PTag::GemmDown => 19,
        PTag::CastD => 20,
        PTag::AddD => 21,
        PTag::FinalRms => 22,
        PTag::LmHead => 23,
        PTag::LayerBoundary => 24,
    }
}

/// The label of a tag.
pub open spec fn tag_name(t: PTag) -> Seq<char> {
    match t {
        PTag::Gather => "gather"@,
        PTag::RmsAttn => "rms_attn"@,
        PTag::GemmQkv => "gemm_qkv"@,
        PTag::CastQkv => "cast_qkv"@,
        PTag::RmsHeadsQ => "rms_heads_q"@,
        PTag::RmsHeadsK => "rms_heads_k"@,
        PTag::RopeQ => "rope_q"@,
        PTag::RopeK => "rope_k"@,
        PTag::ScaleQ => "scale_q"@,
        PTag::Fmha => "fmha"@,
        PTag::KvWrite => "kv_write"@,
        PTag::GemmO => "gemm_o"@,
        PTag::CastO => "cast_o"@,
        PTag::AddO => "add_o"@,
        PTag::RmsFfn => "rms_ffn"@,
        PTag::GemmGate => "gemm_gate"@,
        PTag::GemmUp => "gemm_up"@,
        PTag::CastGU => "cast_gate_up"@,
        PTag::Swiglu => "swiglu"@,
        PTag::GemmDown => "gemm_down"@,
        PTag::CastD => "cast_down"@,
        PTag::AddD => "add_d"@,
        PTag::FinalRms => "final_rms"@,
        PTag::LmHead => "lm_head"@,
        PTag::LayerBoundary => "layer_boundary"@,
    }
}

impl PTag {
    /// The label of the tag.
    pub fn name(&self) -> (s: &'static str)
        ensures
            s@ == tag_name(*self),
    {
        match self {
            PTag::Gather => "gather",
            PTag::RmsAttn => "rms_attn",
            PTag::GemmQkv => "gemm_qkv",
            PTag::CastQkv => "cast_qkv",
            PTag::RmsHeadsQ => "rms_heads_q",
            PTag::RmsHeadsK => "rms_heads_k",
            PTag::RopeQ => "rope_q",
            PTag::RopeK => "rope_k",
            PTag::ScaleQ => "scale_q",
            PTag::Fmha => "fmha",
            PTag::KvWrite => "kv_write",
            PTag::GemmO => "gemm_o",
            PTag::CastO => "cast_o",
            PTag::AddO => "add_o",
            PTag::RmsFfn => "rms_ffn",
            PTag::GemmGate => "gemm_gate",
            PTag::GemmUp => "gemm_up",
            PTag::CastGU => "cast_gate_up",
            PTag::Swiglu => "swiglu",
            PTag::GemmDown => "gemm_down",
            PTag::CastD => "cast_down",
            PTag::AddD => "add_d",
            PTag::FinalRms => "final_rms",
            PTag::LmHead => "lm_head",
            PTag::LayerBoundary => "layer_boundary",
        }
    }

    /// The number of the tag.
    pub fn number(&self) -> (n: u16)
        ensures
            n == tag_number(*self),
    {
        match self {
            PTag::Gather => 0,
            PTag::RmsAttn => 1,
            PTag::GemmQkv => 2,
            PTag::CastQkv => 3,
            PTag::RmsHeadsQ => 4,
            PTag::RmsHeadsK => 5,
            PTag::RopeQ => 6,
            PTag::RopeK => 7,
            PTag::ScaleQ => 8,
            PTag::Fmha => 9,
            PTag::KvWrite => 10,
            PTag::GemmO => 11,
            PTag::CastO => 12,
            PTag::AddO => 13,
            PTag::RmsFfn => 14,
            PTag::GemmGate => 15,
            PTag::GemmUp => 16,
            PTag::CastGU => 17,
            PTag::Swiglu => 18,
            PTag::GemmDown => 19,
            PTag::CastD => 20,
            PTag::AddD => 21,
            PTag::FinalRms => 22,
            PTag::LmHead => 23,
            PTag::LayerBoundary => 24,
        }
    }

    /// The tag of a number; a number past the last is the end of a layer.
    pub fn from_u16(v: u16) -> (t: PTag)
        ensures
            v < PTAG_COUNT ==> tag_number(t) == v,
            v >= PTAG_COUNT ==> t == PTag::LayerBoundary,
    {
        match v {
            0 => PTag::Gather,
            1 => PTag::RmsAttn,
            2 => PTag::GemmQkv,
            3 => PTag::CastQkv,
            4 => PTag::RmsHeadsQ,
            5 => PTag::RmsHeadsK,
            6 => PTag::RopeQ,
            7 => PTag::RopeK,
            8 => PTag::ScaleQ,
            9 => PTag::Fmha,
            10 => PTag::KvWrite,
            11 => PTag::GemmO,
            12 => PTag::CastO,
            13 => PTag::AddO,
            14 => PTag::RmsFfn,
            15 => PTag::GemmGate,
            16 => PTag::GemmUp,
            17 => PTag::CastGU,
            18 => PTag::Swiglu,
            19 => PTag::GemmDown,
            20 => PTag::CastD,
            21 => PTag::AddD,
            22 => PTag::FinalRms,
            23 => PTag::LmHead,
            _ => PTag::LayerBoundary,
        }
    }
}

/// The number of a tag gives the tag back.
pub proof fn numbers_name_their_tags(a: PTag, b: PTag)
    ensures
        tag_number(a) < PTAG_COUNT,
        tag_number(a) == tag_number(b) ==> a == b,
{
}

} // verus!
