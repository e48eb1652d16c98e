//! What is known of a device, and the texts made of the driver's raw bytes.

use vstd::prelude::*;
use vstd::utf8::{decode_utf8, valid_utf8};

verus! {

/// A device as the driver reports it.
#[derive(Debug, Clone, PartialEq, Eq)]
pub struct DeviceInfo {
    /// Index of the device, from zero.
    pub index: u32,
    /// Name that the driver reports.
    pub name: String,
    /// Compute capability, major number.
    pub major: u32,
    /// Compute capability, minor number.
    pub minor: u32,
    /// Device memory in bytes.
    pub total_mem: u64,
    /// UUID, as 8-4-4-4-12 lower-case hexadecimal digits.
    pub uuid: String,
}

/// The bit pattern of a C character as an unsigned byte.
pub open spec fn c_byte(c: i8) -> u8 {
    c as u8
}

/// Where the text in a C string ends: at its first NUL, else at the end of the
/// array.
pub open spec fn c_len(name: Seq<i8>) -> nat
    decreases name.len(),
{
    if name.len() == 0 || name.first() == 0 {
        0
    } else {
        1 + c_len(name.drop_first())
    }
}

/// The bytes of a C string up to its first NUL.
pub open spec fn c_bytes(name: Seq<i8>) -> Seq<u8> {
    Seq::new(c_len(name), |i: int| c_byte(name[i]))
}

/// What `String::from_utf8_lossy` makes of a byte sequence.
pub uninterp spec fn utf8_lossy(bytes: Seq<u8>) -> Seq<char>;

/// `String::from_utf8_lossy` of std: the text of the bytes where they are valid
/// UTF-8.  Where they are not, the parts that are not valid are replaced, and
/// the result is only named.
#[verifier::external_body]
fn text_of_bytes(bytes: &Vec<u8>) -> (s: String)
    ensures
        s@ == utf8_lossy(bytes@),
        valid_utf8(bytes@) ==> s@ == decode_utf8(bytes@),
{
    String::from_utf8_lossy(bytes).into_owned()
}

/// The name of a device out of the driver's fixed array.
pub fn dev_name_to_string(name: &[i8; 256]) -> (s: String)
    ensures
        s@ == utf8_lossy(c_bytes(name@)),
        valid_utf8(c_bytes(name@)) ==> s@ == decode_utf8(c_bytes(name@)),
{
    let mut bytes: Vec<u8> = Vec::new();
    let mut i: usize = 0;
    proof {
        assert(name@.subrange(0, 256) =~= name@);
    }
    while i < 256 && name[i] != 0
        invariant
            i <= 256,
            name@.len() == 256,
            c_len(name@) == i + c_len(name@.subrange(i as int, 256)),
            bytes@ == Seq::new(i as nat, |k: int| c_byte(name@[k])),
        decreases 256 - i,
    {
        bytes.push(#[verifier::truncate] (name[i] as u8));
        proof {
            let t = name@.subrange(i as int, 256);
            assert(t.drop_first() =~= name@.subrange(i + 1, 256));
            assert(bytes@ =~= Seq::new((i + 1) as nat, |k: int| c_byte(name@[k])));
        }
        i = i + 1;
    }
    proof {
        assert(c_len(name@.subrange(i as int, 256)) == 0);
        assert(bytes@ =~= c_bytes(name@));
    }
    text_of_bytes(&bytes)
}

/// The lower-case hexadecimal digit of a value below 16.
pub open spec fn hex_char(d: u8) -> char {
    if d < 10 {
        (48 + d) as char
    } else {
        (87 + d) as char
    }
}

fn hex_digit(d: u8) -> (c: char)
    requires
        d < 16,
    ensures
        c == hex_char(d),
{
    if d < 10 {
        (48 + d) as char
    } else {
        (87 + d) as char
    }
}

/// Whether a dash follows the byte at this place.
pub open spec fn dash_after(i: int) -> bool {
    i == 3 || i == 5 || i == 7 || i == 9
}

/// The first `n` bytes in hexadecimal, with the dashes between them.
pub open spec fn uuid_text(bytes: Seq<i8>, n: nat) -> Seq<char>
    decreases n,
{
    if n == 0 {
        Seq::empty()
    } else {
        let i = n - 1;
        let b = c_byte(bytes[i]);
        let s = uuid_text(bytes, i as nat).push(hex_char(b / 16)).push(hex_char(b % 16));
        if dash_after(i) {
            s.push('-')
        } else {
            s
        }
    }
}

/// A UUID as 8-4-4-4-12 lower-case hexadecimal digits.
pub fn format_uuid(bytes: &[i8; 16]) -> (s: String)
    ensures
        s@ == uuid_text(bytes@, 16),
        s@.len() == 36,
{
    let mut out = String::new();
    let mut i: usize = 0;
    while i < 16
        invariant
            i <= 16,
            bytes@.len() == 16,
            out@ == uuid_text(bytes@, i as nat),
        decreases 16 - i,
    {
        let b: u8 = #[verifier::truncate] (bytes[i] as u8);
        out.push(hex_digit(b / 16));
        out.push(hex_digit(b % 16));
        if i == 3 || i == 5 || i == 7 || i == 9 {
            out.push('-');
        }
        i = i + 1;
    }
    proof {
        lemma_uuid_places(bytes@);
    }
    out
}

/// Where the digits of byte `i` stand in the text.
pub open spec fn uuid_place(i: int) -> int {
    2 * i + if i > 9 {
        4int
    } else if i > 7 {
        3
    } else if i > 5 {
        2
    } else if i > 3 {
        1
    } else {
        0
    }
}

proof fn lemma_uuid_prefix(bytes: Seq<i8>, n: nat)
    requires
        n <= 16,
    ensures
        uuid_text(bytes, n).len() == uuid_place(n as int),
        forall|i: int|
            0 <= i < n ==> uuid_text(bytes, n)[#[trigger] uuid_place(i)] == hex_char(
                c_byte(bytes[i]) / 16,
            ) && uuid_text(bytes, n)[uuid_place(i) + 1] == hex_char(c_byte(bytes[i]) % 16),
        n > 3 ==> uuid_text(bytes, n)[8] == '-',
        n > 5 ==> uuid_text(bytes, n)[13] == '-',
        n > 7 ==> uuid_text(bytes, n)[18] == '-',
        n > 9 ==> uuid_text(bytes, n)[23] == '-',
    decreases n,
{
    if n > 0 {
        lemma_uuid_prefix(bytes, (n - 1) as nat);
    }
}

proof fn lemma_uuid_places(bytes: Seq<i8>)
    ensures
        uuid_text(bytes, 16).len() == 36,
{
    lemma_uuid_prefix(bytes, 16);
}

/// A UUID's text has 36 characters, dashes after 8, 12, 16 and 20 digits, and
/// the two digits of each byte, high half first, in between.
pub proof fn uuid_has_canonical_form(bytes: Seq<i8>)
    ensures
        uuid_text(bytes, 16).len() == 36,
        uuid_text(bytes, 16)[8] == '-',
        uuid_text(bytes, 16)[13] == '-',
        uuid_text(bytes, 16)[18] == '-',
        uuid_text(bytes, 16)[23] == '-',
        forall|i: int|
            0 <= i < 16 ==> uuid_text(bytes, 16)[#[trigger] uuid_place(i)] == hex_char(
                c_byte(bytes[i]) / 16,
            ) && uuid_text(bytes, 16)[uuid_place(i) + 1] == hex_char(c_byte(bytes[i]) % 16),
{
    lemma_uuid_prefix(bytes, 16);
}

proof fn lemma_hex_injective(a: u8, b: u8)
    requires
        a < 16,
        b < 16,
        hex_char(a) == hex_char(b),
    ensures
        a == b,
{
}

/// Two devices whose UUIDs differ in a byte have different texts.
pub proof fn uuid_text_is_injective(a: Seq<i8>, b: Seq<i8>)
    requires
        a.len() == 16,
        b.len() == 16,
        uuid_text(a, 16) == uuid_text(b, 16),
    ensures
        a == b,
{
    lemma_uuid_prefix(a, 16);
    lemma_uuid_prefix(b, 16);
    assert forall|i: int| 0 <= i < 16 implies a[i] == b[i] by {
        let p = uuid_place(i);
        let (x, y) = (c_byte(a[i]), c_byte(b[i]));
        lemma_hex_injective(x / 16, y / 16);
        lemma_hex_injective(x % 16, y % 16);
        assert(x == y);
        let (s, t) = (a[i], b[i]);
        assert(s as u8 == t as u8 ==> s == t) by (bit_vector);
    }
    assert(a =~= b);
}

} // verus!
