//! Decimal parsing for feed fields: the optional league number, and the
//! fixed-width digit groups of the timestamp pattern.

use vstd::prelude::*;
use crate::text::trim;
use crate::text::trim_spec;

verus! {

/// Whether a byte is an ASCII decimal digit.
pub open spec fn is_digit(b: u8) -> bool {
    0x30 <= b && b <= 0x39
}

/// The numeric value of one ASCII digit.
pub open spec fn digit_val(b: u8) -> int {
    b - 0x30
}

/// Whether every byte of `s` is an ASCII decimal digit.
pub open spec fn all_digits(s: Seq<u8>) -> bool {
    forall|i: int| 0 <= i < s.len() ==> is_digit(s[i])
}

/// The value of a string of decimal digits, most significant first.
pub open spec fn digits_val(s: Seq<u8>) -> int
    decreases s.len(),
{
    if s.len() == 0 {
        0
    } else {
        digits_val(s.drop_last()) * 10 + digit_val(s.last())
    }
}

/// The digits of a signed decimal text, the optional leading sign dropped.
pub open spec fn int_text_digits(s: Seq<u8>) -> Seq<u8> {
    if s.len() > 0 && (s[0] == 0x2b || s[0] == 0x2d) {
        s.drop_first()
    } else {
        s
    }
}

/// Whether `s` is a signed decimal integer text: an optional `+` or `-`
/// sign followed by at least one digit, and nothing else.
pub open spec fn is_int_text(s: Seq<u8>) -> bool {
    int_text_digits(s).len() > 0 && all_digits(int_text_digits(s))
}

/// The signed value of a decimal integer text.
pub open spec fn int_text_val(s: Seq<u8>) -> int {
    if s.len() > 0 && s[0] == 0x2d {
        -digits_val(int_text_digits(s))
    } else {
        digits_val(int_text_digits(s))
    }
}

/// What the optional league field denotes: the trimmed field's value when
/// it is a well-formed decimal integer that fits in an `i32`, and absent
/// when the field is blank, malformed, or out of range.
pub open spec fn opt_i32_spec(s: Seq<u8>) -> Option<i32> {
    let t = trim_spec(s);
    if is_int_text(t) && i32::MIN <= int_text_val(t) <= i32::MAX {
        Some(int_text_val(t) as i32)
    } else {
        None
    }
}

/// Ten to the power `n`.
pub open spec fn ten_pow(n: int) -> int
    decreases n,
{
    if n <= 0 {
        1
    } else {
        10 * ten_pow(n - 1)
    }
}

/// A string of `n` digits denotes a value below ten to the `n`.
pub proof fn lemma_digits_val_bound(s: Seq<u8>)
    requires
        all_digits(s),
    ensures
        0 <= digits_val(s) < ten_pow(s.len() as int),
    decreases s.len(),
{
    if s.len() > 0 {
        assert(all_digits(s.drop_last()));
        lemma_digits_val_bound(s.drop_last());
    }
}

/// A digit string has a non-negative value.
pub proof fn lemma_digits_val_nonneg(s: Seq<u8>)
    requires
        all_digits(s),
    ensures
        digits_val(s) >= 0,
    decreases s.len(),
{
    if s.len() > 0 {
        assert(all_digits(s.drop_last()));
        lemma_digits_val_nonneg(s.drop_last());
    }
}

/// Extending a digit string never decreases its value.
pub proof fn lemma_digits_val_prefix(s: Seq<u8>, k: int)
    requires
        all_digits(s),
        0 <= k <= s.len(),
    ensures
        digits_val(s) >= digits_val(s.subrange(0, k)),
    decreases s.len() - k,
{
    if k < s.len() {
        let p = s.subrange(0, k);
        let q = s.subrange(0, k + 1);
        assert(q.drop_last() =~= p);
        assert(all_digits(p));
        lemma_digits_val_nonneg(p);
        lemma_digits_val_prefix(s, k + 1);
    } else {
        assert(s.subrange(0, k) =~= s);
    }
}

/// Parses the optional league number: the trimmed field's decimal value,
/// or `None` when the field is blank, malformed, or out of `i32` range.
pub fn parse_optional_i32(value: &[u8]) -> (r: Option<i32>)
    ensures
        r == opt_i32_spec(value@),
{
    let t = trim(value);
    let n = t.len();
    let ghost tv = t@;
    let mut start: usize = 0;
    let mut negative = false;
    if n > 0 && (t[0] == 0x2b || t[0] == 0x2d) {
        negative = t[0] == 0x2d;
        start = 1;
    }
    proof {
        if start == 1 {
            assert(int_text_digits(tv) =~= tv.subrange(1, n as int));
        } else {
            assert(int_text_digits(tv) =~= tv.subrange(0, n as int));
            assert(tv.subrange(0, n as int) =~= tv);
        }
    }
    if start >= n {
        // no digits at all
        return None;
    }
    let mut mag: u32 = 0;
    let mut i: usize = start;
    while i < n
        invariant
            start <= i <= n,
            n == tv.len(),
            tv == trim_spec(value@),
            t@ == tv,
            start <= 1,
            negative == (start == 1 && tv[0] == 0x2d),
            start == 1 ==> n > 0 && (tv[0] == 0x2b || tv[0] == 0x2d),
            start == 0 && n > 0 ==> !(tv[0] == 0x2b || tv[0] == 0x2d),
            int_text_digits(tv) == tv.subrange(start as int, n as int),
            all_digits(tv.subrange(start as int, i as int)),
            mag == digits_val(tv.subrange(start as int, i as int)),
        decreases n - i,
    {
        let b = t[i];
        let ghost full = int_text_digits(tv);
        if b < 0x30 || b > 0x39 {
            // a non-digit byte: not an integer text
            proof {
                assert(full[i - start] == tv[i as int]);
                assert(!is_digit(full[i - start]));
            }
            return None;
        }
        let d = (b - 0x30) as u32;
        let ghost pre = tv.subrange(start as int, i as int);
        let ghost ext = tv.subrange(start as int, i as int + 1);
        proof {
            assert(ext.drop_last() =~= pre);
            assert(ext.last() == tv[i as int]);
        }
        let stepped = match mag.checked_mul(10) {
            Some(m) => m.checked_add(d),
            None => None,
        };
        match stepped {
            Some(m) => {
                mag = m;
            },
            None => {
                // the magnitude already exceeds u32::MAX, so it is out of
                // i32 range whatever the sign
                proof {
                    assert(all_digits(ext));
                    assert(digits_val(ext) > u32::MAX);
                    if all_digits(full) {
                        assert(ext =~= full.subrange(0, i + 1 - start));
                        lemma_digits_val_prefix(full, i + 1 - start);
                        assert(digits_val(full) > u32::MAX);
                    }
                }
                return None;
            },
        }
        i = i + 1;
    }
    proof {
        assert(tv.subrange(start as int, n as int) =~= int_text_digits(tv));
        assert(is_int_text(tv));
        assert(mag == digits_val(int_text_digits(tv)));
    }
    if negative {
        proof {
            assert(tv[0] == 0x2d);
            assert(int_text_val(tv) == -(mag as int));
        }
        if mag <= 0x8000_0000 {
            let v: i64 = -(mag as i64);
            Some(v as i32)
        } else {
            None
        }
    } else {
        proof {
            assert(int_text_val(tv) == mag as int);
        }
        if mag <= 0x7fff_ffff {
            Some(mag as i32)
        } else {
            None
        }
    }
}

} // verus!
