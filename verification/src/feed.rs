//! The feed's wire format: one row per line, fields separated by `;`,
//! thirteen columns in a fixed order. A line with any other column count
//! is a per-row decode failure, never a fatal error.

use vstd::prelude::*;
use crate::record::RawEventRecord;
use crate::record::RecordV;

verus! {

/// The field delimiter of the feed.
pub open spec fn is_semi(b: u8) -> bool {
    b == 0x3b
}

/// The position of the first `;` of `s`, or its length when it has none.
pub open spec fn first_semi(s: Seq<u8>) -> nat
    decreases s.len(),
{
    if s.len() == 0 {
        0
    } else if is_semi(s[0]) {
        0
    } else {
        1 + first_semi(s.drop_first())
    }
}

/// The fields of a line: the byte runs between `;` delimiters, in order.
/// A line of `k` delimiters has `k + 1` fields; empty fields count.
pub open spec fn split_fields(s: Seq<u8>) -> Seq<Seq<u8>>
    decreases s.len(),
{
    let i = first_semi(s);
    if i >= s.len() {
        seq![s]
    } else {
        seq![s.subrange(0, i as int)] + split_fields(s.subrange(i as int + 1, s.len() as int))
    }
}

/// `first_semi` names the unique boundary: no `;` before it, and a `;`
/// at it unless the line has none.
pub proof fn lemma_first_semi_at(s: Seq<u8>, j: int)
    requires
        0 <= j <= s.len(),
        forall|k: int| 0 <= k < j ==> !is_semi(#[trigger] s[k]),
        j == s.len() || is_semi(s[j]),
    ensures
        first_semi(s) == j,
    decreases j,
{
    if j == 0 {
    } else {
        assert(!is_semi(s[0]));
        lemma_first_semi_at(s.drop_first(), j - 1);
    }
}

/// The row a line denotes: thirteen fields, in the feed's column order,
/// or nothing when the column count is wrong.
pub open spec fn row_of_line(s: Seq<u8>) -> Option<RecordV> {
    let f = split_fields(s);
    if f.len() == 13 {
        Some(
            RecordV {
                kind: f[0],
                name: f[1],
                shop: f[2],
                street_address: f[3],
                state: f[4],
                city: f[5],
                country_code: f[6],
                pokemon_event_slug: f[7],
                guid: f[8],
                latitude: f[9],
                longitude: f[10],
                happening_at: f[11],
                league: f[12],
            },
        )
    } else {
        None
    }
}

/// Decodes one feed line into a raw row. Returns the row exactly when
/// the line has thirteen `;`-separated fields; any other column count is
/// a decode failure reported as `None`.
pub fn parse_row(line: &[u8]) -> (r: Option<RawEventRecord>)
    ensures
        r is Some <==> row_of_line(line@) is Some,
        r matches Some(rec) ==> row_of_line(line@) == Some(rec@),
{
    let n = line.len();
    let mut fields: Vec<Vec<u8>> = Vec::new();
    let mut cur: Vec<u8> = Vec::new();
    let mut i: usize = 0;
    let ghost mut start: int = 0;
    proof {
        assert(line@.subrange(0, n as int) =~= line@);
        assert(fields@.map_values(|v: Vec<u8>| v@) =~= Seq::<Seq<u8>>::empty());
        assert(Seq::<Seq<u8>>::empty() + split_fields(line@) =~= split_fields(line@));
        assert(cur@ =~= line@.subrange(0, 0));
    }
    while i < n
        invariant
            0 <= start <= i <= n,
            n == line@.len(),
            cur@ == line@.subrange(start, i as int),
            forall|k: int| start <= k < i ==> !is_semi(#[trigger] line@[k]),
            split_fields(line@) == fields@.map_values(|v: Vec<u8>| v@) + split_fields(
                line@.subrange(start, n as int),
            ),
        decreases n - i,
    {
        let b = line[i];
        if b == 0x3b {
            let ghost rest = line@.subrange(start, n as int);
            proof {
                lemma_first_semi_at(rest, i - start);
                assert(rest.subrange(0, i - start) =~= line@.subrange(start, i as int));
                assert(rest.subrange(i - start + 1, rest.len() as int) =~= line@.subrange(
                    i as int + 1,
                    n as int,
                ));
                assert((fields@.map_values(|v: Vec<u8>| v@) + split_fields(rest)) =~= (
                fields@.map_values(|v: Vec<u8>| v@).push(cur@) + split_fields(
                    line@.subrange(i as int + 1, n as int),
                )));
            }
            fields.push(cur);
            proof {
                assert(fields@.map_values(|v: Vec<u8>| v@) =~= fields@.drop_last().map_values(
                    |v: Vec<u8>| v@,
                ).push(cur@));
            }
            cur = Vec::new();
            proof {
                start = i as int + 1;
                assert(cur@ =~= line@.subrange(start, i as int + 1));
            }
        } else {
            cur.push(b);
            proof {
                assert(cur@ =~= line@.subrange(start, i as int + 1));
            }
        }
        i = i + 1;
    }
    let ghost rest = line@.subrange(start, n as int);
    proof {
        lemma_first_semi_at(rest, n - start);
        assert(split_fields(rest) =~= seq![rest]);
        assert(rest == cur@);
    }
    fields.push(cur);
    proof {
        assert(fields@.map_values(|v: Vec<u8>| v@) =~= fields@.drop_last().map_values(
            |v: Vec<u8>| v@,
        ).push(rest));
        assert(fields@.map_values(|v: Vec<u8>| v@) =~= split_fields(line@));
    }
    if fields.len() != 13 {
        return None;
    }
    let league = fields.pop().unwrap();
    let happening_at = fields.pop().unwrap();
    let longitude = fields.pop().unwrap();
    let latitude = fields.pop().unwrap();
    let guid = fields.pop().unwrap();
    let pokemon_event_slug = fields.pop().unwrap();
    let country_code = fields.pop().unwrap();
    let city = fields.pop().unwrap();
    let state = fields.pop().unwrap();
    let street_address = fields.pop().unwrap();
    let shop = fields.pop().unwrap();
    let name = fields.pop().unwrap();
    let kind = fields.pop().unwrap();
    let rec = RawEventRecord {
        kind,
        name,
        shop,
        street_address,
        state,
        city,
        country_code,
        pokemon_event_slug,
        guid,
        latitude,
        longitude,
        happening_at,
        league,
    };
    proof {
        let f = split_fields(line@);
        assert(rec@ =~= row_of_line(line@).unwrap());
    }
    Some(rec)
}

} // verus!
