//! The globally unique event identifier: a 128-bit value read from the
//! canonical hyphenated-hex text form (8-4-4-4-12 hex digits). It is the
//! sole correlation key for event upserts.

use vstd::prelude::*;
use crate::numbers::is_digit;

verus! {

/// A 128-bit event identifier, as two 64-bit halves.
#[derive(Clone, Copy, Debug, PartialEq, Eq, Structural, Hash)]
pub struct Guid {
    pub hi: u64,
    pub lo: u64,
}

/// Whether a byte is an ASCII hex digit.
pub open spec fn is_hex_digit(b: u8) -> bool {
    is_digit(b) || (0x61 <= b && b <= 0x66) || (0x41 <= b && b <= 0x46)
}

/// The value of one hex digit; bytes that are no hex digit count as zero.
pub open spec fn hex_val(b: u8) -> int {
    if is_digit(b) {
        b - 0x30
    } else if 0x61 <= b && b <= 0x66 {
        b - 0x61 + 10
    } else if 0x41 <= b && b <= 0x46 {
        b - 0x41 + 10
    } else {
        0
    }
}

/// Whether `i` is the position of one of the four hyphens of the
/// canonical text form.
pub open spec fn is_hyphen_pos(i: int) -> bool {
    i == 8 || i == 13 || i == 18 || i == 23
}

/// Whether `s` is a well-formed canonical identifier text: 36 bytes,
/// hyphens exactly at positions 8, 13, 18 and 23, hex digits elsewhere.
pub open spec fn guid_text_wf(s: Seq<u8>) -> bool {
    &&& s.len() == 36
    &&& s[8] == 0x2d
    &&& s[13] == 0x2d
    &&& s[18] == 0x2d
    &&& s[23] == 0x2d
    &&& forall|i: int| 0 <= i < 36 && !is_hyphen_pos(i) ==> is_hex_digit(#[trigger] s[i])
}

/// The text position of the `j`-th hex digit (the hyphens skipped).
pub open spec fn digit_index(j: int) -> int {
    if j < 8 {
        j
    } else if j < 12 {
        j + 1
    } else if j < 16 {
        j + 2
    } else if j < 20 {
        j + 3
    } else {
        j + 4
    }
}

/// The digit number of the text position `p`, inverse to `digit_index`
/// on the non-hyphen positions.
pub open spec fn digit_of(p: int) -> int {
    if p < 8 {
        p
    } else if p < 13 {
        p - 1
    } else if p < 18 {
        p - 2
    } else if p < 23 {
        p - 3
    } else {
        p - 4
    }
}

/// The value of the `n` hex digits starting at digit number `lo`.
pub open spec fn guid_val(s: Seq<u8>, lo: int, n: int) -> int
    decreases n,
{
    if n <= 0 {
        0
    } else {
        guid_val(s, lo, n - 1) * 16 + hex_val(s[digit_index(lo + n - 1)])
    }
}

/// The upper 64 bits denoted by a canonical identifier text.
pub open spec fn guid_hi_spec(s: Seq<u8>) -> int {
    guid_val(s, 0, 16)
}

/// The lower 64 bits denoted by a canonical identifier text.
pub open spec fn guid_lo_spec(s: Seq<u8>) -> int {
    guid_val(s, 16, 16)
}

/// The identifier denoted by a well-formed canonical text.
pub open spec fn guid_of_text(s: Seq<u8>) -> Guid {
    Guid { hi: guid_hi_spec(s) as u64, lo: guid_lo_spec(s) as u64 }
}

/// Sixteen to the power `n`.
pub open spec fn sixteen_pow(n: int) -> int
    decreases n,
{
    if n <= 0 {
        1
    } else {
        16 * sixteen_pow(n - 1)
    }
}

/// A group of `n` hex digits denotes a value below sixteen to the `n`.
pub proof fn lemma_guid_val_bound(s: Seq<u8>, lo: int, n: int)
    ensures
        0 <= guid_val(s, lo, n) < sixteen_pow(n),
    decreases n,
{
    if n > 0 {
        lemma_guid_val_bound(s, lo, n - 1);
        let v = guid_val(s, lo, n - 1);
        let d = hex_val(s[digit_index(lo + n - 1)]);
        assert(0 <= d < 16);
        assert(v * 16 + d < sixteen_pow(n - 1) * 16);
    }
}

/// Powers of sixteen do not decrease.
pub proof fn lemma_sixteen_pow_mono(a: int, b: int)
    requires
        a <= b,
    ensures
        sixteen_pow(a) <= sixteen_pow(b),
    decreases b - a,
{
    if a < b {
        lemma_sixteen_pow_mono(a, b - 1);
        assert(sixteen_pow(b - 1) >= 1) by {
            lemma_sixteen_pow_pos(b - 1);
        }
    }
}

/// Sixteen to the sixteenth is two to the sixty-fourth.
pub proof fn lemma_sixteen_pow_16()
    ensures
        sixteen_pow(16) == 0x1_0000_0000_0000_0000,
{
    reveal_with_fuel(sixteen_pow, 17);
}

/// Powers of sixteen are positive.
pub proof fn lemma_sixteen_pow_pos(n: int)
    ensures
        sixteen_pow(n) >= 1,
    decreases n,
{
    if n > 0 {
        lemma_sixteen_pow_pos(n - 1);
    }
}

/// The value of one hex-digit byte, or `None` for any other byte.
pub fn hex_digit_val(b: u8) -> (r: Option<u8>)
    ensures
        r is Some <==> is_hex_digit(b),
        r matches Some(d) ==> d == hex_val(b),
{
    if 0x30 <= b && b <= 0x39 {
        Some(b - 0x30)
    } else if 0x61 <= b && b <= 0x66 {
        Some(b - 0x61 + 10)
    } else if 0x41 <= b && b <= 0x46 {
        Some(b - 0x41 + 10)
    } else {
        None
    }
}

/// The text position of the `j`-th hex digit.
fn digit_index_exec(j: usize) -> (r: usize)
    requires
        j < 32,
    ensures
        r == digit_index(j as int),
        r < 36,
        !is_hyphen_pos(r as int),
{
    if j < 8 {
        j
    } else if j < 12 {
        j + 1
    } else if j < 16 {
        j + 2
    } else if j < 20 {
        j + 3
    } else {
        j + 4
    }
}

/// Reads 16 hex digits starting at digit number `lo`, or reports the
/// first byte there that is no hex digit.
fn parse_half(s: &[u8], lo: usize) -> (r: Option<u64>)
    requires
        s@.len() == 36,
        lo == 0 || lo == 16,
    ensures
        r matches Some(v) ==> v == guid_val(s@, lo as int, 16) && forall|k: int|
            lo <= k < lo + 16 ==> is_hex_digit(#[trigger] s@[digit_index(k)]),
        r is None ==> exists|k: int|
            lo <= k < lo + 16 && !is_hex_digit(#[trigger] s@[digit_index(k)]),
{
    let mut acc: u64 = 0;
    let mut j: usize = 0;
    while j < 16
        invariant
            j <= 16,
            s@.len() == 36,
            lo == 0 || lo == 16,
            acc == guid_val(s@, lo as int, j as int),
            forall|k: int| lo <= k < lo + j ==> is_hex_digit(#[trigger] s@[digit_index(k)]),
        decreases 16 - j,
    {
        let ti = digit_index_exec(lo + j);
        let b = s[ti];
        match hex_digit_val(b) {
            None => {
                proof {
                    assert(!is_hex_digit(s@[digit_index(lo + j)]));
                }
                return None;
            },
            Some(d) => {
                proof {
                    lemma_guid_val_bound(s@, lo as int, j as int);
                    lemma_sixteen_pow_mono(j as int, 15);
                    assert(sixteen_pow(15) * 16 == sixteen_pow(16));
                    lemma_sixteen_pow_16();
                    assert(acc * 16 <= (sixteen_pow(15) - 1) * 16);
                }
                acc = acc * 16 + (d as u64);
            },
        }
        j = j + 1;
    }
    Some(acc)
}

/// Parses a canonical hyphenated-hex identifier text. Returns the
/// identifier exactly when the text is well-formed, and `None` otherwise.
pub fn parse_guid(s: &[u8]) -> (r: Option<Guid>)
    ensures
        r is Some <==> guid_text_wf(s@),
        r matches Some(g) ==> g == guid_of_text(s@),
{
    if s.len() != 36 {
        return None;
    }
    if !(s[8] == 0x2d && s[13] == 0x2d && s[18] == 0x2d && s[23] == 0x2d) {
        return None;
    }
    let hi = match parse_half(s, 0) {
        Some(v) => v,
        None => {
            return None;
        },
    };
    let lo = match parse_half(s, 16) {
        Some(v) => v,
        None => {
            return None;
        },
    };
    proof {
        assert forall|p: int| 0 <= p < 36 && !is_hyphen_pos(p) implies is_hex_digit(
            #[trigger] s@[p],
        ) by {
            let j = digit_of(p);
            assert(0 <= j < 32 && digit_index(j) == p);
            assert(is_hex_digit(s@[digit_index(j)]));
        }
        lemma_guid_val_bound(s@, 0, 16);
        lemma_guid_val_bound(s@, 16, 16);
        lemma_sixteen_pow_16();
    }
    Some(Guid { hi, lo })
}

} // verus!
