//! Little-endian bytes.

use vstd::prelude::*;

verus! {

/// The `n` low bytes of a number, the lowest first.
pub open spec fn le_bytes(x: nat, n: nat) -> Seq<u8>
    decreases n,
{
    if n == 0 {
        Seq::empty()
    } else {
        seq![(x % 256) as u8] + le_bytes(x / 256, (n - 1) as nat)
    }
}

/// The number that bytes stand for, the lowest first.
pub open spec fn le_value(s: Seq<u8>) -> nat
    decreases s.len(),
{
    if s.len() == 0 {
        0
    } else {
        s[0] as nat + 256 * le_value(s.drop_first())
    }
}

/// The two-byte number at a place.
pub open spec fn le16(s: Seq<u8>, at: int) -> u16 {
    (s[at] + 256 * s[at + 1]) as u16
}

/// The four-byte number at a place.
pub open spec fn le32(s: Seq<u8>, at: int) -> u32 {
    (s[at] + 256 * s[at + 1] + 65536 * s[at + 2] + 16777216 * s[at + 3]) as u32
}

/// Appends the `n` low bytes of a number, the lowest first.
pub fn push_le(v: &mut Vec<u8>, x: u64, n: usize)
    ensures
        final(v)@ == old(v)@ + le_bytes(x as nat, n as nat),
    decreases n,
{
    if n > 0 {
        v.push((x % 256) as u8);
        push_le(v, x / 256, n - 1);
    }
    proof {
        assert(v@ =~= old(v)@ + le_bytes(x as nat, n as nat));
    }
}

/// The two-byte number at a place.
pub fn read_le16(s: &[u8], at: usize) -> (h: u16)
    requires
        at + 2 <= s@.len(),
    ensures
        h == le16(s@, at as int),
{
    s[at] as u16 + 256 * s[at + 1] as u16
}

/// The four-byte number at a place.
pub fn read_le32(s: &[u8], at: usize) -> (w: u32)
    requires
        at + 4 <= s@.len(),
    ensures
        w == le32(s@, at as int),
{
    s[at] as u32 + 256 * s[at + 1] as u32 + 65536 * s[at + 2] as u32 + 16777216 * s[at + 3] as u32
}

pub proof fn lemma_le_bytes_len(x: nat, n: nat)
    ensures
        le_bytes(x, n).len() == n,
    decreases n,
{
    if n > 0 {
        lemma_le_bytes_len(x / 256, (n - 1) as nat);
    }
}

/// Two bytes written are the two-byte number read.
pub proof fn two_bytes_read_back(x: u16)
    ensures
        le_bytes(x as nat, 2).len() == 2,
        le16(le_bytes(x as nat, 2), 0) == x,
{
    reveal_with_fuel(le_bytes, 3);
}

/// Four bytes written are the four-byte number read.
pub proof fn lemma_le32(x: u32)
    ensures
        le_bytes(x as nat, 4).len() == 4,
        le32(le_bytes(x as nat, 4), 0) == x,
{
    reveal_with_fuel(le_bytes, 5);
}

/// The bytes of a number that fits in them stand for that number.
pub proof fn bytes_stand_for_their_number(x: nat, n: nat)
    requires
        x < vstd::arithmetic::power::pow(256, n),
    ensures
        le_value(le_bytes(x, n)) == x,
    decreases n,
{
    vstd::arithmetic::power::lemma_pow0(256);
    if n > 0 {
        let p = vstd::arithmetic::power::pow(256, (n - 1) as nat);
        assert(vstd::arithmetic::power::pow(256, n) == 256 * p) by {
            reveal(vstd::arithmetic::power::pow);
        }
        assert(x / 256 < p);
        bytes_stand_for_their_number(x / 256, (n - 1) as nat);
        let s = le_bytes(x, n);
        assert(s.drop_first() =~= le_bytes(x / 256, (n - 1) as nat));
    }
}

} // verus!
