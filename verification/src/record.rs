//! The raw feed row and the organizer projection derived from it: the
//! denormalized organizer values (with their blank-field fallbacks) and
//! the normalized organizer key used for in-run deduplication.

use vstd::prelude::*;
use crate::text::all_spaces;
use crate::text::key_norm_spec;
use crate::text::lemma_key_norm_insensitive;
use crate::text::lemma_key_norm_is_lower_trim;
use crate::text::lemma_trim_back_lower;
use crate::text::lemma_trim_front_lower;
use crate::text::lemma_trim_idempotent;
use crate::text::lemma_trim_spec_pad;
use crate::text::lower_equal;
use crate::text::normalize;
use crate::text::normalize_key;
use crate::text::normalize_spec;
use crate::text::trim;
use crate::text::trim_front;
use crate::text::trim_spec;

verus! {

/// One feed row, untyped: every field is the raw text between
/// delimiters. No invariant holds at this layer.
pub struct RawEventRecord {
    pub kind: Vec<u8>,
    pub name: Vec<u8>,
    pub shop: Vec<u8>,
    pub street_address: Vec<u8>,
    pub state: Vec<u8>,
    pub city: Vec<u8>,
    pub country_code: Vec<u8>,
    pub pokemon_event_slug: Vec<u8>,
    pub guid: Vec<u8>,
    pub latitude: Vec<u8>,
    pub longitude: Vec<u8>,
    pub happening_at: Vec<u8>,
    pub league: Vec<u8>,
}

/// The mathematical form of a feed row.
#[verifier::ext_equal]
pub struct RecordV {
    pub kind: Seq<u8>,
    pub name: Seq<u8>,
    pub shop: Seq<u8>,
    pub street_address: Seq<u8>,
    pub state: Seq<u8>,
    pub city: Seq<u8>,
    pub country_code: Seq<u8>,
    pub pokemon_event_slug: Seq<u8>,
    pub guid: Seq<u8>,
    pub latitude: Seq<u8>,
    pub longitude: Seq<u8>,
    pub happening_at: Seq<u8>,
    pub league: Seq<u8>,
}

impl View for RawEventRecord {
    type V = RecordV;

    open spec fn view(&self) -> RecordV {
        RecordV {
            kind: self.kind@,
            name: self.name@,
            shop: self.shop@,
            street_address: self.street_address@,
            state: self.state@,
            city: self.city@,
            country_code: self.country_code@,
            pokemon_event_slug: self.pokemon_event_slug@,
            guid: self.guid@,
            latitude: self.latitude@,
            longitude: self.longitude@,
            happening_at: self.happening_at@,
            league: self.league@,
        }
    }
}

/// The organizer fields projected from a row: trimmed, with blank fields
/// replaced by the documented fallbacks. The coordinates are carried as
/// trimmed text; reading them as numbers is left to the storage edge.
pub struct OrganizerValues {
    pub name: Vec<u8>,
    pub address: Vec<u8>,
    pub city: Vec<u8>,
    pub area: Vec<u8>,
    pub country: Vec<u8>,
    pub latitude: Vec<u8>,
    pub longitude: Vec<u8>,
}

/// The mathematical form of the organizer values.
#[verifier::ext_equal]
pub struct ValuesV {
    pub name: Seq<u8>,
    pub address: Seq<u8>,
    pub city: Seq<u8>,
    pub area: Seq<u8>,
    pub country: Seq<u8>,
    pub latitude: Seq<u8>,
    pub longitude: Seq<u8>,
}

impl View for OrganizerValues {
    type V = ValuesV;

    open spec fn view(&self) -> ValuesV {
        ValuesV {
            name: self.name@,
            address: self.address@,
            city: self.city@,
            area: self.area@,
            country: self.country@,
            latitude: self.latitude@,
            longitude: self.longitude@,
        }
    }
}

/// The run-scoped identity of an organizer: the identity fields of the
/// values, each trimmed and case-folded. Rows whose keys are equal name
/// the same organizer within a run.
pub struct OrganizerKey {
    pub name: Vec<u8>,
    pub address: Vec<u8>,
    pub city: Vec<u8>,
    pub area: Vec<u8>,
    pub country: Vec<u8>,
}

/// The mathematical form of an organizer key.
#[verifier::ext_equal]
pub struct KeyV {
    pub name: Seq<u8>,
    pub address: Seq<u8>,
    pub city: Seq<u8>,
    pub area: Seq<u8>,
    pub country: Seq<u8>,
}

impl View for OrganizerKey {
    type V = KeyV;

    open spec fn view(&self) -> KeyV {
        KeyV {
            name: self.name@,
            address: self.address@,
            city: self.city@,
            area: self.area@,
            country: self.country@,
        }
    }
}

/// The fallback for a blank organizer name.
pub open spec fn fallback_name() -> Seq<u8> {
    seq![85u8, 110u8, 107u8, 110u8, 111u8, 119u8, 110u8, 32u8, 111u8, 114u8, 103u8, 97u8, 110u8, 105u8, 122u8, 101u8, 114u8]
}

/// The fallback for a blank organizer address.
pub open spec fn fallback_address() -> Seq<u8> {
    seq![85u8, 110u8, 107u8, 110u8, 111u8, 119u8, 110u8, 32u8, 97u8, 100u8, 100u8, 114u8, 101u8, 115u8, 115u8]
}

/// The fallback for a blank organizer city.
pub open spec fn fallback_city() -> Seq<u8> {
    seq![85u8, 110u8, 107u8, 110u8, 111u8, 119u8, 110u8, 32u8, 99u8, 105u8, 116u8, 121u8]
}

/// The fallback for a blank organizer area.
pub open spec fn fallback_area() -> Seq<u8> {
    seq![85u8, 110u8, 107u8, 110u8, 111u8, 119u8, 110u8, 32u8, 97u8, 114u8, 101u8, 97u8]
}

/// The fallback for a blank organizer country code.
pub open spec fn fallback_country() -> Seq<u8> {
    seq![88u8, 88u8]
}

/// The organizer values a row denotes.
pub open spec fn values_of_record(r: RecordV) -> ValuesV {
    ValuesV {
        name: normalize_spec(r.shop, fallback_name()),
        address: normalize_spec(r.street_address, fallback_address()),
        city: normalize_spec(r.city, fallback_city()),
        area: normalize_spec(r.state, fallback_area()),
        country: normalize_spec(r.country_code, fallback_country()),
        latitude: trim_spec(r.latitude),
        longitude: trim_spec(r.longitude),
    }
}

/// The organizer key derived from organizer values.
pub open spec fn key_of_values(v: ValuesV) -> KeyV {
    KeyV {
        name: key_norm_spec(v.name),
        address: key_norm_spec(v.address),
        city: key_norm_spec(v.city),
        area: key_norm_spec(v.area),
        country: key_norm_spec(v.country),
    }
}

/// The organizer key a row denotes.
pub open spec fn key_of_record(r: RecordV) -> KeyV {
    key_of_values(values_of_record(r))
}

/// Whether `y` is `x` up to surrounding whitespace and ASCII case: `y`
/// is a whitespace-padded copy of a string that agrees with `x`
/// byte-for-byte after case-folding.
pub open spec fn case_ws_variant(x: Seq<u8>, y: Seq<u8>) -> bool {
    exists|pad1: Seq<u8>, t: Seq<u8>, pad2: Seq<u8>|
        y == pad1 + t + pad2 && all_spaces(pad1) && all_spaces(pad2) && lower_equal(t, x)
}

/// A key component is unchanged when its field is rewritten with other
/// surrounding whitespace or letter case.
pub proof fn lemma_key_component_variant(x: Seq<u8>, y: Seq<u8>, fb: Seq<u8>)
    requires
        case_ws_variant(x, y),
    ensures
        key_norm_spec(normalize_spec(y, fb)) == key_norm_spec(normalize_spec(x, fb)),
{
    let (pad1, t, pad2) = choose|pad1: Seq<u8>, t: Seq<u8>, pad2: Seq<u8>|
        y == pad1 + t + pad2 && all_spaces(pad1) && all_spaces(pad2) && lower_equal(t, x);
    lemma_key_norm_insensitive(pad1, t, pad2, x);
    lemma_trim_spec_pad(pad1, t, pad2);
    lemma_trim_front_lower(t, x);
    lemma_trim_back_lower(trim_front(t), trim_front(x));
    assert(trim_spec(y).len() == trim_spec(x).len());
    if trim_spec(x).len() == 0 {
        assert(normalize_spec(y, fb) == fb);
        assert(normalize_spec(x, fb) == fb);
    } else {
        assert(normalize_spec(y, fb) == trim_spec(y));
        assert(normalize_spec(x, fb) == trim_spec(x));
        lemma_key_norm_is_lower_trim(trim_spec(y));
        lemma_key_norm_is_lower_trim(trim_spec(x));
        lemma_key_norm_is_lower_trim(y);
        lemma_key_norm_is_lower_trim(x);
        lemma_trim_idempotent(y);
        lemma_trim_idempotent(x);
    }
}

/// Law: two rows whose organizer identity fields differ only in
/// surrounding whitespace and ASCII letter case derive the same
/// organizer key, and so name the same organizer within a run.
pub proof fn lemma_dedup_normalization(a: RecordV, b: RecordV)
    requires
        case_ws_variant(a.shop, b.shop),
        case_ws_variant(a.street_address, b.street_address),
        case_ws_variant(a.city, b.city),
        case_ws_variant(a.state, b.state),
        case_ws_variant(a.country_code, b.country_code),
    ensures
        key_of_record(b) == key_of_record(a),
{
    lemma_key_component_variant(a.shop, b.shop, fallback_name());
    lemma_key_component_variant(a.street_address, b.street_address, fallback_address());
    lemma_key_component_variant(a.city, b.city, fallback_city());
    lemma_key_component_variant(a.state, b.state, fallback_area());
    lemma_key_component_variant(a.country_code, b.country_code, fallback_country());
    assert(key_of_record(b) =~= key_of_record(a));
}

/// Projects the organizer values from a row: each identity field trimmed
/// with its blank-field fallback, the coordinates trimmed.
pub fn organizer_values_from_record(record: &RawEventRecord) -> (v: OrganizerValues)
    ensures
        v@ == values_of_record(record@),
{
    let fb_name: Vec<u8> = vec![85u8, 110u8, 107u8, 110u8, 111u8, 119u8, 110u8, 32u8, 111u8, 114u8, 103u8, 97u8, 110u8, 105u8, 122u8, 101u8, 114u8];
    let fb_address: Vec<u8> = vec![85u8, 110u8, 107u8, 110u8, 111u8, 119u8, 110u8, 32u8, 97u8, 100u8, 100u8, 114u8, 101u8, 115u8, 115u8];
    let fb_city: Vec<u8> = vec![85u8, 110u8, 107u8, 110u8, 111u8, 119u8, 110u8, 32u8, 99u8, 105u8, 116u8, 121u8];
    let fb_area: Vec<u8> = vec![85u8, 110u8, 107u8, 110u8, 111u8, 119u8, 110u8, 32u8, 97u8, 114u8, 101u8, 97u8];
    let fb_country: Vec<u8> = vec![88u8, 88u8];
    proof {
        assert(fb_name@ =~= fallback_name());
        assert(fb_address@ =~= fallback_address());
        assert(fb_city@ =~= fallback_city());
        assert(fb_area@ =~= fallback_area());
        assert(fb_country@ =~= fallback_country());
    }
    let v = OrganizerValues {
        name: normalize(record.shop.as_slice(), fb_name.as_slice()),
        address: normalize(record.street_address.as_slice(), fb_address.as_slice()),
        city: normalize(record.city.as_slice(), fb_city.as_slice()),
        area: normalize(record.state.as_slice(), fb_area.as_slice()),
        country: normalize(record.country_code.as_slice(), fb_country.as_slice()),
        latitude: trim(record.latitude.as_slice()),
        longitude: trim(record.longitude.as_slice()),
    };
    proof {
        assert(v@ =~= values_of_record(record@));
    }
    v
}

/// Derives the run-scoped organizer key from organizer values.
pub fn build_organizer_key(values: &OrganizerValues) -> (k: OrganizerKey)
    ensures
        k@ == key_of_values(values@),
{
    let k = OrganizerKey {
        name: normalize_key(values.name.as_slice()),
        address: normalize_key(values.address.as_slice()),
        city: normalize_key(values.city.as_slice()),
        area: normalize_key(values.area.as_slice()),
        country: normalize_key(values.country.as_slice()),
    };
    proof {
        assert(k@ =~= key_of_values(values@));
    }
    k
}

} // verus!
