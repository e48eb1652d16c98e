//! Reading a row of logits, as `f32` bit patterns.

use vstd::prelude::*;

use crate::float_bits::is_nan;

verus! {

/// A number that orders `f32` values as their values are ordered; the two zeros
/// are one value.
pub open spec fn order_key(b: u32) -> int {
    if b < 0x8000_0000 {
        b as int
    } else {
        0x8000_0000 - b
    }
}

/// `a > b` for `f32` values: false where one of them is not a number.
pub open spec fn float_gt(a: u32, b: u32) -> bool {
    !is_nan(a) && !is_nan(b) && order_key(a) > order_key(b)
}

/// Whether a value is not a number.
pub fn bits_are_nan(b: u32) -> (r: bool)
    ensures
        r == is_nan(b),
{
    b / 0x80_0000 % 256 == 255 && b % 0x80_0000 != 0
}

/// `a > b` for `f32` values.
pub fn bits_gt(a: u32, b: u32) -> (r: bool)
    ensures
        r == float_gt(a, b),
{
    if bits_are_nan(a) || bits_are_nan(b) {
        return false;
    }
    if a < 0x8000_0000 {
        if b < 0x8000_0000 {
            a > b
        } else {
            a > 0 || b > 0x8000_0000
        }
    } else {
        b >= 0x8000_0000 && a < b
    }
}

/// Whether `i` is the place of the first largest value.  A row that starts with
/// a NaN has it at its start: nothing is larger than a NaN.
pub open spec fn is_first_max(logits: Seq<u32>, i: int) -> bool {
    if logits.len() == 0 || is_nan(logits[0]) {
        i == 0
    } else {
        &&& 0 <= i < logits.len()
        &&& !is_nan(logits[i])
        &&& forall|j: int| 0 <= j < logits.len() ==> !float_gt(#[trigger] logits[j], logits[i])
        &&& forall|j: int|
            0 <= j < i && !is_nan(logits[j]) ==> float_gt(logits[i], #[trigger] logits[j])
    }
}

/// The place of the first largest logit, as a token.
pub fn argmax_first(logits: &[u32]) -> (t: u32)
    ensures
        exists|i: int| is_first_max(logits@, i) && t as int == i % 0x1_0000_0000,
{
    let mut best: usize = 0;
    let mut i: usize = 1;
    while i < logits.len()
        invariant
            1 <= i,
            i <= logits.len() || (i == 1 && logits.len() == 0),
            best < i,
            logits.len() > 0 ==> best < logits.len(),
            logits.len() > 0 && is_nan(logits@[0]) ==> best == 0,
            logits.len() > 0 && !is_nan(logits@[0]) ==> !is_nan(logits@[best as int]) && (forall|
                j: int,
            |
                0 <= j < i && j < logits.len() ==> !float_gt(
                    #[trigger] logits@[j],
                    logits@[best as int],
                )) && (forall|j: int|
                0 <= j < best && !is_nan(logits@[j]) ==> float_gt(
                    logits@[best as int],
                    #[trigger] logits@[j],
                )),
        decreases logits.len() - i,
    {
        if bits_gt(logits[i], logits[best]) {
            best = i;
        }
        i = i + 1;
    }
    let place: u64 = best as u64;
    proof {
        assert(is_first_max(logits@, best as int));
        assert(place as u32 == place % 0x1_0000_0000) by (bit_vector);
    }
    #[verifier::truncate]
    (place as u32)
}

/// The first largest logit is one place: no two places satisfy the choice.
pub proof fn first_max_is_unique(logits: Seq<u32>, i: int, j: int)
    requires
        is_first_max(logits, i),
        is_first_max(logits, j),
    ensures
        i == j,
{
    if logits.len() > 0 && !is_nan(logits[0]) {
        if i < j {
            assert(float_gt(logits[j], logits[i]));
        } else if j < i {
            assert(float_gt(logits[i], logits[j]));
        }
    }
}

/// Whether every logit is not a number.
pub fn all_nan(logits: &[u32]) -> (r: bool)
    ensures
        r == (forall|i: int| 0 <= i < logits@.len() ==> is_nan(#[trigger] logits@[i])),
{
    let mut i: usize = 0;
    while i < logits.len()
        invariant
            i <= logits.len(),
            forall|j: int| 0 <= j < i ==> is_nan(#[trigger] logits@[j]),
        decreases logits.len() - i,
    {
        if !bits_are_nan(logits[i]) {
            return false;
        }
        i = i + 1;
    }
    true
}

} // verus!
