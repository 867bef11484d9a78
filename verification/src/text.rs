//! Byte-string normalization for feed fields: whitespace trimming, ASCII
//! case folding, and the blank-to-fallback rule used for organizer fields.

use vstd::prelude::*;

verus! {

/// ASCII whitespace, as trimmed from the ends of a feed field.
pub open spec fn is_space(b: u8) -> bool {
    b == 0x20 || b == 0x09 || b == 0x0a || b == 0x0b || b == 0x0c || b == 0x0d
}

/// `s` with its leading whitespace removed.
pub open spec fn trim_front(s: Seq<u8>) -> Seq<u8>
    decreases s.len(),
{
    if s.len() > 0 && is_space(s[0]) {
        trim_front(s.drop_first())
    } else {
        s
    }
}

/// `s` with its trailing whitespace removed.
pub open spec fn trim_back(s: Seq<u8>) -> Seq<u8>
    decreases s.len(),
{
    if s.len() > 0 && is_space(s.last()) {
        trim_back(s.drop_last())
    } else {
        s
    }
}

/// `s` with leading and trailing whitespace removed.
pub open spec fn trim_spec(s: Seq<u8>) -> Seq<u8> {
    trim_back(trim_front(s))
}

/// The ASCII lower-case image of one byte.
pub open spec fn lower_byte(b: u8) -> u8 {
    if 0x41 <= b && b <= 0x5a {
        (b + 0x20) as u8
    } else {
        b
    }
}

/// The ASCII lower-case image of a byte string.
pub open spec fn lower_spec(s: Seq<u8>) -> Seq<u8> {
    s.map_values(|b: u8| lower_byte(b))
}

/// A trimmed field, with blank fields replaced by the fallback.
pub open spec fn normalize_spec(s: Seq<u8>, fallback: Seq<u8>) -> Seq<u8> {
    if trim_spec(s).len() == 0 {
        fallback
    } else {
        trim_spec(s)
    }
}

/// The organizer-key normalization: trim, then case-fold.
pub open spec fn key_norm_spec(s: Seq<u8>) -> Seq<u8> {
    lower_spec(normalize_spec(s, Seq::<u8>::empty()))
}

/// Whether every byte of `s` is ASCII whitespace.
pub open spec fn all_spaces(s: Seq<u8>) -> bool {
    forall|i: int| 0 <= i < s.len() ==> is_space(#[trigger] s[i])
}

/// Case-folding touches no whitespace byte and makes none.
pub proof fn lemma_lower_keeps_space(b: u8)
    ensures
        is_space(lower_byte(b)) == is_space(b),
{
}

/// A leading run of whitespace is trimmed away.
pub proof fn lemma_trim_front_pad(pad: Seq<u8>, s: Seq<u8>)
    requires
        all_spaces(pad),
    ensures
        trim_front(pad + s) == trim_front(s),
    decreases pad.len(),
{
    if pad.len() == 0 {
        assert(pad + s =~= s);
    } else {
        assert((pad + s)[0] == pad[0]);
        assert((pad + s).drop_first() =~= pad.drop_first() + s);
        assert(all_spaces(pad.drop_first()));
        lemma_trim_front_pad(pad.drop_first(), s);
    }
}

/// A trailing run of whitespace is trimmed away.
pub proof fn lemma_trim_back_pad(s: Seq<u8>, pad: Seq<u8>)
    requires
        all_spaces(pad),
    ensures
        trim_back(s + pad) == trim_back(s),
    decreases pad.len(),
{
    if pad.len() == 0 {
        assert(s + pad =~= s);
    } else {
        assert((s + pad).last() == pad.last());
        assert((s + pad).drop_last() =~= s + pad.drop_last());
        assert(all_spaces(pad.drop_last()));
        lemma_trim_back_pad(s, pad.drop_last());
    }
}

/// A whitespace-only string trims to nothing from the front.
pub proof fn lemma_trim_front_all_spaces(s: Seq<u8>)
    requires
        all_spaces(s),
    ensures
        trim_front(s) == Seq::<u8>::empty(),
    decreases s.len(),
{
    if s.len() > 0 {
        assert(all_spaces(s.drop_first()));
        lemma_trim_front_all_spaces(s.drop_first());
    } else {
        assert(s =~= Seq::<u8>::empty());
    }
}

/// Front-trimming a string with a trailing whitespace run stops inside
/// the string unless the string is all whitespace.
pub proof fn lemma_trim_front_concat_pad(s: Seq<u8>, pad: Seq<u8>)
    requires
        all_spaces(pad),
    ensures
        all_spaces(s) ==> trim_front(s + pad) == Seq::<u8>::empty(),
        !all_spaces(s) ==> trim_front(s + pad) == trim_front(s) + pad,
    decreases s.len(),
{
    if all_spaces(s) {
        assert(all_spaces(s + pad));
        lemma_trim_front_all_spaces(s + pad);
    } else if s.len() > 0 && is_space(s[0]) {
        assert((s + pad)[0] == s[0]);
        assert((s + pad).drop_first() =~= s.drop_first() + pad);
        assert(!all_spaces(s.drop_first())) by {
            assert forall|i: int| #![auto] 0 <= i < s.len() && !is_space(s[i]) implies i >= 1 by {}
            let w = choose|i: int| 0 <= i < s.len() && !is_space(s[i]);
            assert(s.drop_first()[w - 1] == s[w]);
        }
        lemma_trim_front_concat_pad(s.drop_first(), pad);
    } else {
        assert(s.len() > 0);
        assert((s + pad)[0] == s[0]);
        assert(trim_front(s + pad) == s + pad);
        assert(trim_front(s) == s);
    }
}

/// Trimming ignores whitespace padding on both sides.
pub proof fn lemma_trim_spec_pad(pad1: Seq<u8>, s: Seq<u8>, pad2: Seq<u8>)
    requires
        all_spaces(pad1),
        all_spaces(pad2),
    ensures
        trim_spec(pad1 + s + pad2) == trim_spec(s),
{
    assert(pad1 + s + pad2 =~= pad1 + (s + pad2));
    lemma_trim_front_pad(pad1, s + pad2);
    lemma_trim_front_concat_pad(s, pad2);
    if all_spaces(s) {
        lemma_trim_front_all_spaces(s);
        assert(trim_front(s + pad2) =~= Seq::<u8>::empty() + Seq::<u8>::empty());
        lemma_trim_back_pad(Seq::<u8>::empty(), Seq::<u8>::empty());
    } else {
        lemma_trim_back_pad(trim_front(s), pad2);
    }
}

/// Whether two strings agree byte-for-byte up to ASCII case.
pub open spec fn lower_equal(s: Seq<u8>, t: Seq<u8>) -> bool {
    s.len() == t.len() && forall|i: int|
        0 <= i < s.len() ==> lower_byte(#[trigger] s[i]) == lower_byte(t[i])
}

/// Strings equal up to case stay so under front-trimming.
pub proof fn lemma_trim_front_lower(s: Seq<u8>, t: Seq<u8>)
    requires
        lower_equal(s, t),
    ensures
        lower_equal(trim_front(s), trim_front(t)),
    decreases s.len(),
{
    if s.len() > 0 {
        lemma_lower_keeps_space(s[0]);
        lemma_lower_keeps_space(t[0]);
        if is_space(s[0]) {
            assert(lower_equal(s.drop_first(), t.drop_first())) by {
                assert forall|i: int|
                    0 <= i < s.drop_first().len() implies lower_byte(
                    #[trigger] s.drop_first()[i],
                ) == lower_byte(t.drop_first()[i]) by {
                    assert(s.drop_first()[i] == s[i + 1]);
                    assert(t.drop_first()[i] == t[i + 1]);
                }
            }
            lemma_trim_front_lower(s.drop_first(), t.drop_first());
        }
    }
}

/// Strings equal up to case stay so under back-trimming.
pub proof fn lemma_trim_back_lower(s: Seq<u8>, t: Seq<u8>)
    requires
        lower_equal(s, t),
    ensures
        lower_equal(trim_back(s), trim_back(t)),
    decreases s.len(),
{
    if s.len() > 0 {
        lemma_lower_keeps_space(s.last());
        lemma_lower_keeps_space(t.last());
        if is_space(s.last()) {
            assert(lower_equal(s.drop_last(), t.drop_last())) by {
                assert forall|i: int|
                    0 <= i < s.drop_last().len() implies lower_byte(#[trigger] s.drop_last()[i])
                    == lower_byte(t.drop_last()[i]) by {
                    assert(s.drop_last()[i] == s[i]);
                    assert(t.drop_last()[i] == t[i]);
                }
            }
            lemma_trim_back_lower(s.drop_last(), t.drop_last());
        }
    }
}

/// Strings equal up to case fold to the same lower-case string.
pub proof fn lemma_lower_equal_folds(s: Seq<u8>, t: Seq<u8>)
    requires
        lower_equal(s, t),
    ensures
        lower_spec(s) == lower_spec(t),
{
    assert(lower_spec(s) =~= lower_spec(t));
}

/// The key normalization is the case-folded trim.
pub proof fn lemma_key_norm_is_lower_trim(s: Seq<u8>)
    ensures
        key_norm_spec(s) == lower_spec(trim_spec(s)),
{
    if trim_spec(s).len() == 0 {
        assert(trim_spec(s) =~= Seq::<u8>::empty());
        assert(lower_spec(Seq::<u8>::empty()) =~= Seq::<u8>::empty());
    }
}

/// A front-trimmed string starts with a non-whitespace byte.
pub proof fn lemma_trim_front_head(s: Seq<u8>)
    ensures
        trim_front(s).len() > 0 ==> !is_space(trim_front(s)[0]),
    decreases s.len(),
{
    if s.len() > 0 && is_space(s[0]) {
        lemma_trim_front_head(s.drop_first());
    }
}

/// A back-trimmed string ends with a non-whitespace byte.
pub proof fn lemma_trim_back_last(s: Seq<u8>)
    ensures
        trim_back(s).len() > 0 ==> !is_space(trim_back(s).last()),
    decreases s.len(),
{
    if s.len() > 0 && is_space(s.last()) {
        lemma_trim_back_last(s.drop_last());
    }
}

/// Back-trimming keeps the first byte of what it keeps.
pub proof fn lemma_trim_back_head(s: Seq<u8>)
    ensures
        trim_back(s).len() > 0 ==> trim_back(s)[0] == s[0],
    decreases s.len(),
{
    if s.len() > 0 && is_space(s.last()) {
        lemma_trim_back_head(s.drop_last());
    }
}

/// Trimming is idempotent.
pub proof fn lemma_trim_idempotent(s: Seq<u8>)
    ensures
        trim_spec(trim_spec(s)) == trim_spec(s),
{
    let f = trim_front(s);
    let x = trim_back(f);
    if x.len() == 0 {
        assert(x =~= Seq::<u8>::empty());
        assert(trim_front(x) == x);
        assert(trim_back(trim_front(x)) == x);
    } else {
        lemma_trim_back_head(f);
        lemma_trim_front_head(s);
        assert(!is_space(x[0]));
        assert(trim_front(x) == x);
        lemma_trim_back_last(f);
        assert(trim_back(x) == x);
    }
}

/// Law: the organizer-key normalization is insensitive to surrounding
/// whitespace and to ASCII letter case. A field written with extra
/// padding and different casing derives the same key component.
pub proof fn lemma_key_norm_insensitive(pad1: Seq<u8>, t: Seq<u8>, pad2: Seq<u8>, s: Seq<u8>)
    requires
        all_spaces(pad1),
        all_spaces(pad2),
        lower_equal(t, s),
    ensures
        key_norm_spec(pad1 + t + pad2) == key_norm_spec(s),
{
    lemma_trim_spec_pad(pad1, t, pad2);
    lemma_trim_front_lower(t, s);
    lemma_trim_back_lower(trim_front(t), trim_front(s));
    lemma_lower_equal_folds(trim_spec(t), trim_spec(s));
    lemma_key_norm_is_lower_trim(pad1 + t + pad2);
    lemma_key_norm_is_lower_trim(s);
}

/// Trims leading and trailing ASCII whitespace from a field.
pub fn trim(value: &[u8]) -> (r: Vec<u8>)
    ensures
        r@ == trim_spec(value@),
{
    let n = value.len();
    proof {
        assert(value@.subrange(0, n as int) =~= value@);
    }
    let mut lo: usize = 0;
    while lo < n && is_space_exec(value[lo])
        invariant
            n == value@.len(),
            lo <= n,
            trim_front(value@) == trim_front(value@.subrange(lo as int, n as int)),
        decreases n - lo,
    {
        proof {
            let s = value@.subrange(lo as int, n as int);
            assert(s.drop_first() =~= value@.subrange(lo as int + 1, n as int));
        }
        lo = lo + 1;
    }
    proof {
        let s = value@.subrange(lo as int, n as int);
        assert(trim_front(value@) == s);
    }
    let mut hi: usize = n;
    while hi > lo && is_space_exec(value[hi - 1])
        invariant
            n == value@.len(),
            lo <= hi <= n,
            trim_front(value@) == value@.subrange(lo as int, n as int),
            trim_back(value@.subrange(lo as int, n as int)) == trim_back(
                value@.subrange(lo as int, hi as int),
            ),
        decreases hi,
    {
        proof {
            let s = value@.subrange(lo as int, hi as int);
            assert(s.drop_last() =~= value@.subrange(lo as int, hi as int - 1));
        }
        hi = hi - 1;
    }
    proof {
        let s = value@.subrange(lo as int, hi as int);
        assert(trim_back(s) == s);
    }
    let sub = vstd::slice::slice_subrange(value, lo, hi);
    let r = vstd::slice::slice_to_vec(sub);
    proof {
        assert(r@ =~= trim_spec(value@));
    }
    r
}

/// Whether a byte is ASCII whitespace.
pub fn is_space_exec(b: u8) -> (r: bool)
    ensures
        r == is_space(b),
{
    b == 0x20 || b == 0x09 || b == 0x0a || b == 0x0b || b == 0x0c || b == 0x0d
}

/// Case-folds a field to ASCII lower case.
pub fn to_lower(value: &[u8]) -> (r: Vec<u8>)
    ensures
        r@ == lower_spec(value@),
{
    let n = value.len();
    let mut r: Vec<u8> = Vec::new();
    let mut i: usize = 0;
    while i < n
        invariant
            i <= n,
            n == value@.len(),
            r@ =~= value@.subrange(0, i as int).map_values(|b: u8| lower_byte(b)),
        decreases n - i,
    {
        let b = value[i];
        if 0x41 <= b && b <= 0x5a {
            r.push(b + 0x20);
        } else {
            r.push(b);
        }
        proof {
            assert(value@.subrange(0, i as int + 1) =~= value@.subrange(0, i as int).push(
                value@[i as int],
            ));
            assert(value@.subrange(0, i as int + 1).map_values(|b: u8| lower_byte(b))
                =~= value@.subrange(0, i as int).map_values(|b: u8| lower_byte(b)).push(
                lower_byte(value@[i as int]),
            ));
        }
        i = i + 1;
    }
    proof {
        assert(value@.subrange(0, n as int) =~= value@);
    }
    r
}

/// Trims a field and substitutes the fallback when the field is blank.
pub fn normalize(value: &[u8], fallback: &[u8]) -> (r: Vec<u8>)
    ensures
        r@ == normalize_spec(value@, fallback@),
{
    let trimmed = trim(value);
    if trimmed.len() == 0 {
        vstd::slice::slice_to_vec(fallback)
    } else {
        trimmed
    }
}

/// Compares two byte strings for equality.
pub fn bytes_eq(a: &[u8], b: &[u8]) -> (r: bool)
    ensures
        r == (a@ == b@),
{
    let n = a.len();
    if n != b.len() {
        proof {
            assert(a@ != b@);
        }
        return false;
    }
    let mut i: usize = 0;
    while i < n
        invariant
            i <= n,
            n == a@.len() && n == b@.len(),
            forall|k: int| 0 <= k < i ==> a@[k] == b@[k],
        decreases n - i,
    {
        if a[i] != b[i] {
            return false;
        }
        i = i + 1;
    }
    proof {
        assert(a@ =~= b@);
    }
    true
}

/// Derives the organizer-key form of a field: trimmed, then case-folded.
pub fn normalize_key(value: &[u8]) -> (r: Vec<u8>)
    ensures
        r@ == key_norm_spec(value@),
{
    let trimmed = trim(value);
    let r = to_lower(trimmed.as_slice());
    proof {
        if trim_spec(value@).len() == 0 {
            assert(trim_spec(value@) =~= Seq::<u8>::empty());
            assert(lower_spec(Seq::<u8>::empty()) =~= Seq::<u8>::empty());
            assert(r@ =~= key_norm_spec(value@));
        }
    }
    r
}

} // verus!
