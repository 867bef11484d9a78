//! The event timestamp: a calendar date and a time of day, read from the
//! fixed feed pattern `YYYY-MM-DD HH:MM:SS` and interpreted as UTC.

use vstd::prelude::*;
use crate::numbers::all_digits;
use crate::numbers::digit_val;
use crate::numbers::digits_val;
use crate::numbers::is_digit;
use crate::numbers::lemma_digits_val_bound;

verus! {

/// A UTC timestamp with one-second resolution.
#[derive(Clone, Copy, Debug, PartialEq, Eq, Structural, Hash)]
pub struct Stamp {
    pub year: u16,
    pub month: u8,
    pub day: u8,
    pub hour: u8,
    pub minute: u8,
    pub second: u8,
}

/// The proleptic Gregorian leap-year rule.
pub open spec fn is_leap_year(y: int) -> bool {
    (y % 4 == 0 && y % 100 != 0) || y % 400 == 0
}

/// The number of days of month `m` in year `y`.
pub open spec fn days_in_month(y: int, m: int) -> int {
    if m == 2 {
        if is_leap_year(y) {
            29
        } else {
            28
        }
    } else if m == 4 || m == 6 || m == 9 || m == 11 {
        30
    } else {
        31
    }
}

/// Whether the fields form a real calendar date and time of day.
pub open spec fn stamp_wf(t: Stamp) -> bool {
    &&& t.year <= 9999
    &&& 1 <= t.month <= 12
    &&& 1 <= t.day <= days_in_month(t.year as int, t.month as int)
    &&& t.hour <= 23
    &&& t.minute <= 59
    &&& t.second <= 59
}

/// Whether `s` has the shape of the feed's timestamp pattern: 19 bytes,
/// `-`, `-`, space, `:`, `:` at their fixed places, digits elsewhere.
pub open spec fn stamp_text_shape(s: Seq<u8>) -> bool {
    &&& s.len() == 19
    &&& s[4] == 0x2d
    &&& s[7] == 0x2d
    &&& s[10] == 0x20
    &&& s[13] == 0x3a
    &&& s[16] == 0x3a
    &&& all_digits(s.subrange(0, 4))
    &&& all_digits(s.subrange(5, 7))
    &&& all_digits(s.subrange(8, 10))
    &&& all_digits(s.subrange(11, 13))
    &&& all_digits(s.subrange(14, 16))
    &&& all_digits(s.subrange(17, 19))
}

/// The timestamp denoted by a text of the right shape.
pub open spec fn stamp_of_text(s: Seq<u8>) -> Stamp {
    Stamp {
        year: digits_val(s.subrange(0, 4)) as u16,
        month: digits_val(s.subrange(5, 7)) as u8,
        day: digits_val(s.subrange(8, 10)) as u8,
        hour: digits_val(s.subrange(11, 13)) as u8,
        minute: digits_val(s.subrange(14, 16)) as u8,
        second: digits_val(s.subrange(17, 19)) as u8,
    }
}

/// Whether `s` is a well-formed timestamp text: right shape, and the
/// fields form a real calendar date and time of day.
pub open spec fn stamp_text_valid(s: Seq<u8>) -> bool {
    stamp_text_shape(s) && stamp_wf(stamp_of_text(s))
}

/// Chronological order on timestamps: field-lexicographic.
pub open spec fn stamp_le(a: Stamp, b: Stamp) -> bool {
    if a.year != b.year {
        a.year < b.year
    } else if a.month != b.month {
        a.month < b.month
    } else if a.day != b.day {
        a.day < b.day
    } else if a.hour != b.hour {
        a.hour < b.hour
    } else if a.minute != b.minute {
        a.minute < b.minute
    } else {
        a.second <= b.second
    }
}

/// Reads the two-digit group at `lo`, or `None` at a non-digit byte.
fn read2(s: &[u8], lo: usize) -> (r: Option<u8>)
    requires
        lo + 2 <= s@.len(),
    ensures
        r is Some <==> all_digits(s@.subrange(lo as int, lo as int + 2)),
        r matches Some(v) ==> v == digits_val(s@.subrange(lo as int, lo as int + 2)),
{
    let b0 = s[lo];
    let b1 = s[lo + 1];
    let ghost q2 = s@.subrange(lo as int, lo as int + 2);
    let ghost q1 = s@.subrange(lo as int, lo as int + 1);
    let ghost q0 = s@.subrange(lo as int, lo as int);
    proof {
        assert(q2.drop_last() =~= q1);
        assert(q1.drop_last() =~= q0);
        assert(q0.len() == 0);
        assert(digits_val(q0) == 0);
        assert(digits_val(q1) == digit_val(q1.last()));
    }
    if 0x30 <= b0 && b0 <= 0x39 && 0x30 <= b1 && b1 <= 0x39 {
        proof {
            assert(forall|i: int| 0 <= i < 2 ==> is_digit(#[trigger] q2[i]));
        }
        Some((b0 - 0x30) * 10 + (b1 - 0x30))
    } else {
        proof {
            assert(q2[0] == s@[lo as int] && q2[1] == s@[lo as int + 1]);
        }
        None
    }
}

/// Reads the four-digit year group, or `None` at a non-digit byte.
fn read4(s: &[u8], lo: usize) -> (r: Option<u16>)
    requires
        lo + 4 <= s@.len(),
    ensures
        r is Some <==> all_digits(s@.subrange(lo as int, lo as int + 4)),
        r matches Some(v) ==> v == digits_val(s@.subrange(lo as int, lo as int + 4)),
{
    let b0 = s[lo];
    let b1 = s[lo + 1];
    let b2 = s[lo + 2];
    let b3 = s[lo + 3];
    let ghost q4 = s@.subrange(lo as int, lo as int + 4);
    let ghost q3 = s@.subrange(lo as int, lo as int + 3);
    let ghost q2 = s@.subrange(lo as int, lo as int + 2);
    let ghost q1 = s@.subrange(lo as int, lo as int + 1);
    let ghost q0 = s@.subrange(lo as int, lo as int);
    proof {
        assert(q4.drop_last() =~= q3);
        assert(q3.drop_last() =~= q2);
        assert(q2.drop_last() =~= q1);
        assert(q1.drop_last() =~= q0);
        assert(q0.len() == 0);
        assert(digits_val(q0) == 0);
        assert(digits_val(q1) == digit_val(q1.last()));
        assert(digits_val(q2) == digits_val(q1) * 10 + digit_val(q2.last()));
        assert(digits_val(q3) == digits_val(q2) * 10 + digit_val(q3.last()));
    }
    if 0x30 <= b0 && b0 <= 0x39 && 0x30 <= b1 && b1 <= 0x39 && 0x30 <= b2 && b2 <= 0x39 && 0x30
        <= b3 && b3 <= 0x39 {
        proof {
            assert(forall|i: int| 0 <= i < 4 ==> is_digit(#[trigger] q4[i]));
        }
        let v: u16 = (b0 - 0x30) as u16 * 1000 + (b1 - 0x30) as u16 * 100 + (b2 - 0x30) as u16 * 10
            + (b3 - 0x30) as u16;
        Some(v)
    } else {
        proof {
            assert(q4[0] == s@[lo as int] && q4[1] == s@[lo as int + 1] && q4[2] == s@[lo as int
                + 2] && q4[3] == s@[lo as int + 3]);
        }
        None
    }
}

/// Whether `y` is a leap year.
pub fn is_leap_year_exec(y: u16) -> (r: bool)
    ensures
        r == is_leap_year(y as int),
{
    (y % 4 == 0 && y % 100 != 0) || y % 400 == 0
}

/// The number of days of month `m` in year `y`.
pub fn days_in_month_exec(y: u16, m: u8) -> (r: u8)
    ensures
        r == days_in_month(y as int, m as int),
{
    if m == 2 {
        if is_leap_year_exec(y) {
            29
        } else {
            28
        }
    } else if m == 4 || m == 6 || m == 9 || m == 11 {
        30
    } else {
        31
    }
}

/// Parses the feed's timestamp pattern. Returns the timestamp exactly
/// when the text has the fixed shape and denotes a real calendar date
/// and time of day, and `None` otherwise.
pub fn parse_stamp(s: &[u8]) -> (r: Option<Stamp>)
    ensures
        r is Some <==> stamp_text_valid(s@),
        r matches Some(t) ==> t == stamp_of_text(s@) && stamp_wf(t),
{
    if s.len() != 19 {
        return None;
    }
    if !(s[4] == 0x2d && s[7] == 0x2d && s[10] == 0x20 && s[13] == 0x3a && s[16] == 0x3a) {
        return None;
    }
    let year = match read4(s, 0) {
        Some(v) => v,
        None => {
            return None;
        },
    };
    let month = match read2(s, 5) {
        Some(v) => v,
        None => {
            return None;
        },
    };
    let day = match read2(s, 8) {
        Some(v) => v,
        None => {
            return None;
        },
    };
    let hour = match read2(s, 11) {
        Some(v) => v,
        None => {
            return None;
        },
    };
    let minute = match read2(s, 14) {
        Some(v) => v,
        None => {
            return None;
        },
    };
    let second = match read2(s, 17) {
        Some(v) => v,
        None => {
            return None;
        },
    };
    let t = Stamp { year, month, day, hour, minute, second };
    proof {
        assert(stamp_text_shape(s@));
        lemma_digits_val_bound(s@.subrange(0, 4));
        assert(crate::numbers::ten_pow(4) == 10000) by {
            reveal_with_fuel(crate::numbers::ten_pow, 5);
        }
        assert(t == stamp_of_text(s@));
    }
    if month < 1 || month > 12 {
        return None;
    }
    if day < 1 || day > days_in_month_exec(year, month) {
        return None;
    }
    if hour > 23 || minute > 59 || second > 59 {
        return None;
    }
    Some(t)
}

impl Stamp {
    /// Whether this timestamp is at or before `other` in time.
    pub fn le(&self, other: &Stamp) -> (r: bool)
        ensures
            r == stamp_le(*self, *other),
    {
        if self.year != other.year {
            self.year < other.year
        } else if self.month != other.month {
            self.month < other.month
        } else if self.day != other.day {
            self.day < other.day
        } else if self.hour != other.hour {
            self.hour < other.hour
        } else if self.minute != other.minute {
            self.minute < other.minute
        } else {
            self.second <= other.second
        }
    }
}

} // verus!
