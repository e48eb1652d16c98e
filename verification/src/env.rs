//! Switches that the environment sets.
//!
//! A switch is on by an on-word and off by an off-word, whatever its case and the
//! white space around it.  What is not such a word leaves the default.

use vstd::prelude::*;

use crate::text::{lower, spells, trim, word_of};

verus! {

pub const GRAPH_ENV: &'static str = "REINFER_GRAPH";

pub const PARITY_F32_ENV: &'static str = "REINFER_PARITY_F32";

pub const FUSED_ENV: &'static str = "REINFER_FUSED";

pub const LAYER_FUSED_ENV: &'static str = "REINFER_LAYER_FUSED";

pub const DECODE_FLASH_ENV: &'static str = "REINFER_DECODE_FLASH";

pub const JGEMM_ENV: &'static str = "REINFER_JGEMM";

pub const DECODE_PROFILE_ENV: &'static str = "REINFER_DECODE_PROFILE";

pub const BATCH_PROF_ENV: &'static str = "REINFER_BATCH_PROF";

pub const PREFILL_PROFILE_ENV: &'static str = "REINFER_PREFILL_PROFILE";

/// The words that turn a switch on.
pub open spec fn is_on_word(w: Seq<char>) -> bool {
    w == "1"@ || w == "on"@ || w == "true"@ || w == "yes"@
}

/// The words that turn a switch off.
pub open spec fn is_off_word(w: Seq<char>) -> bool {
    w == "0"@ || w == "off"@ || w == "false"@ || w == "no"@
}

/// Whether a variable is set to an on-word.
pub open spec fn says_on(value: Option<&str>) -> bool {
    value is Some && is_on_word(lower(trim(value->0@)))
}

/// Whether a variable is set to an off-word.
pub open spec fn says_off(value: Option<&str>) -> bool {
    value is Some && is_off_word(lower(trim(value->0@)))
}

fn set_on(value: Option<&str>) -> (b: bool)
    ensures
        b == says_on(value),
{
    match value {
        None => false,
        Some(v) => {
            let w = word_of(v);
            spells(&w, "1") || spells(&w, "on") || spells(&w, "true") || spells(&w, "yes")
        },
    }
}

fn set_off(value: Option<&str>) -> (b: bool)
    ensures
        b == says_off(value),
{
    match value {
        None => false,
        Some(v) => {
            let w = word_of(v);
            spells(&w, "0") || spells(&w, "off") || spells(&w, "false") || spells(&w, "no")
        },
    }
}

/// Whether `REINFER_FUSED` turns the fused decode step off; unset leaves it on.
pub fn fused_decode_disabled_from_env(value: Option<&str>) -> (b: bool)
    ensures
        b == says_off(value),
{
    set_off(value)
}

/// Whether `REINFER_LAYER_FUSED` turns the layer kernel off; unset leaves it on.
pub fn layer_fused_disabled_from_env(value: Option<&str>) -> (b: bool)
    ensures
        b == says_off(value),
{
    set_off(value)
}

/// Whether `REINFER_GRAPH` turns the graph of the decode step on; unset leaves it off.
pub fn graph_enabled_from_env(value: Option<&str>) -> (b: bool)
    ensures
        b == says_on(value),
{
    set_on(value)
}

/// Whether `REINFER_PARITY_F32` turns the `f32` tier on; unset leaves it off.
pub fn parity_f32_enabled_from_env(value: Option<&str>) -> (b: bool)
    ensures
        b == says_on(value),
{
    set_on(value)
}

/// Whether `REINFER_DECODE_FLASH` turns flash attention off; unset leaves it on.
pub fn decode_flash_disabled_from_env(value: Option<&str>) -> (b: bool)
    ensures
        b == says_off(value),
{
    set_off(value)
}

/// Whether `REINFER_JGEMM` turns the one-row GEMM kernels off; unset leaves them on.
pub fn jgemm_disabled_from_env(value: Option<&str>) -> (b: bool)
    ensures
        b == says_off(value),
{
    set_off(value)
}

/// Whether `REINFER_DECODE_PROFILE` arms the decode profiler; unset leaves it off.
pub fn decode_profile_enabled_from_env(value: Option<&str>) -> (b: bool)
    ensures
        b == says_on(value),
{
    set_on(value)
}

/// Whether `REINFER_BATCH_PROF` arms the batch trace; unset leaves it off.
pub fn batch_prof_enabled_from_env(value: Option<&str>) -> (b: bool)
    ensures
        b == says_on(value),
{
    set_on(value)
}

/// Whether `REINFER_PREFILL_PROFILE` arms the prefill profiler; unset leaves it off.
pub fn prefill_profile_enabled_from_env(value: Option<&str>) -> (b: bool)
    ensures
        b == says_on(value),
{
    set_on(value)
}

/// A variable that is not set says neither, and none says both.
pub proof fn on_and_off_exclude_each_other(value: Option<&str>)
    ensures
        !(says_on(value) && says_off(value)),
        value is None ==> !says_on(value) && !says_off(value),
{
    reveal_strlit("1");
    reveal_strlit("on");
    reveal_strlit("true");
    reveal_strlit("yes");
    reveal_strlit("0");
    reveal_strlit("off");
    reveal_strlit("false");
    reveal_strlit("no");
    if says_on(value) && says_off(value) {
        let w = lower(trim(value->0@));
        assert(w.len() == 1 || w.len() == 2 || w.len() == 3 || w.len() == 4);
        assert(w[0] == '1' || w[0] == 'o' || w[0] == 't' || w[0] == 'y');
        assert(w == "off"@ ==> w.len() == 3 && w[0] == 'o');
    }
}

} // verus!
