//! The per-type value decoders.
//!
//! Each decoder maps one optional JSON value (the row's field for the
//! column, absent keys standing in for JSON null) to one nullable decoded
//! value. No decoder fails: malformed input degrades to `None`, or, for
//! the documented geometry sub-cases, to NaN ordinates.

use vstd::prelude::*;
use vstd::string::StringExecFns;
use crate::json::{
    Json, SpecJson, double_bits_of, parse_double_bits, json_object_of, parse_json_object_text,
    field_lookup, lemma_model_elems, lemma_model_fields,
};
use crate::timestamp::{rfc3339_epoch, rfc3339_epoch_of, local_epoch, local_epoch_of};

verus! {

/// Bit pattern of the quiet NaN that stands in for a missing or
/// non-numeric ordinate in ring-bearing geometry.
pub const NAN_BITS: u64 = 0x7ff8_0000_0000_0000;

/// Model of an optional borrowed JSON value.
pub open spec fn opt_model(v: Option<&Json>) -> Option<SpecJson> {
    match v {
        Some(j) => Some(j.model()),
        None => None,
    }
}

/// Field `key` of an optional value; `None` when the value is absent,
/// not an object, or lacks the key.
pub open spec fn field_of(v: Option<SpecJson>, key: Seq<char>) -> Option<SpecJson> {
    match v {
        Some(j) => j.get(key),
        None => None,
    }
}

/// The text of an optional value that is a JSON string, else `None`.
pub open spec fn as_text(v: Option<SpecJson>) -> Option<Seq<char>> {
    match v {
        Some(SpecJson::Str(s)) => Some(s),
        _ => None,
    }
}

/// The text of an optional value that is a JSON string, else empty.
pub open spec fn text_or_empty(v: Option<SpecJson>) -> Seq<char> {
    match v {
        Some(SpecJson::Str(s)) => s,
        _ => Seq::empty(),
    }
}

/// boolean: a JSON boolean passes through; anything else is null.
pub open spec fn spec_parse_boolean(v: Option<SpecJson>) -> Option<bool> {
    match v {
        Some(SpecJson::Bool(b)) => Some(b),
        _ => None,
    }
}

pub fn parse_boolean(val: Option<&Json>) -> (r: Option<bool>)
    ensures
        r == spec_parse_boolean(opt_model(val)),
{
    match val {
        Some(Json::Bool(b)) => Some(*b),
        _ => None,
    }
}

/// number: the value must be a JSON string holding a numeral; its double,
/// as bits. Non-strings and unparsable strings are null.
pub open spec fn spec_parse_number(v: Option<SpecJson>) -> Option<u64> {
    match v {
        Some(SpecJson::Str(s)) => double_bits_of(s),
        _ => None,
    }
}

pub fn parse_number(val: Option<&Json>) -> (r: Option<u64>)
    ensures
        r == spec_parse_number(opt_model(val)),
{
    match val {
        Some(Json::Str(s)) => parse_double_bits(s.as_str()),
        _ => None,
    }
}

/// text: a JSON string passes through; anything else is null.
pub open spec fn spec_parse_text(v: Option<SpecJson>) -> Option<Seq<char>> {
    as_text(v)
}

pub fn parse_text(val: Option<&Json>) -> (r: Option<String>)
    ensures
        r.deep_view() == spec_parse_text(opt_model(val)),
{
    match val {
        Some(Json::Str(s)) => Some(s.clone()),
        _ => None,
    }
}

/// fixed_timestamp: an RFC 3339 string, as its whole epoch second in UTC.
pub open spec fn spec_parse_fixed_timestamp(v: Option<SpecJson>) -> Option<i64> {
    match v {
        Some(SpecJson::Str(s)) => rfc3339_epoch_of(s),
        _ => None,
    }
}

pub fn parse_fixed_timestamp(val: Option<&Json>) -> (r: Option<i64>)
    ensures
        r == spec_parse_fixed_timestamp(opt_model(val)),
{
    match val {
        Some(Json::Str(s)) => rfc3339_epoch(s.as_str()),
        _ => None,
    }
}

/// floating_timestamp: a local-time string resolved in the named zone.
pub open spec fn spec_parse_floating_timestamp(v: Option<SpecJson>, zone: Seq<char>) -> Option<
    i64,
> {
    match v {
        Some(SpecJson::Str(s)) => local_epoch_of(s, zone),
        _ => None,
    }
}

pub fn parse_floating_timestamp(val: Option<&Json>, zone: &str) -> (r: Option<i64>)
    ensures
        r == spec_parse_floating_timestamp(opt_model(val), zone@),
{
    match val {
        Some(Json::Str(s)) => local_epoch(s.as_str(), zone),
        _ => None,
    }
}

/// url: the "url" and "description" sub-fields, each independently an
/// optional string.
pub open spec fn spec_parse_url(v: Option<SpecJson>) -> (Option<Seq<char>>, Option<Seq<char>>) {
    (as_text(field_of(v, "url"@)), as_text(field_of(v, "description"@)))
}

pub fn parse_url(val: Option<&Json>) -> (r: (Option<String>, Option<String>))
    ensures
        r.0.deep_view() == spec_parse_url(opt_model(val)).0,
        r.1.deep_view() == spec_parse_url(opt_model(val)).1,
{
    let url_part = match val {
        Some(j) => match j.get_field("url") {
            Some(Json::Str(s)) => Some(s.clone()),
            _ => None,
        },
        None => None,
    };
    let desc_part = match val {
        Some(j) => match j.get_field("description") {
            Some(Json::Str(s)) => Some(s.clone()),
            _ => None,
        },
        None => None,
    };
    (url_part, desc_part)
}

/// photo: a string identifier `id` becomes `{base}/files/{id}`.
pub open spec fn spec_parse_photo(v: Option<SpecJson>, base: Seq<char>) -> Option<Seq<char>> {
    match v {
        Some(SpecJson::Str(id)) => Some(base + "/files/"@ + id),
        _ => None,
    }
}

pub fn parse_photo(val: Option<&Json>, meta_url: &str) -> (r: Option<String>)
    ensures
        r.deep_view() == spec_parse_photo(opt_model(val), meta_url@),
{
    match val {
        Some(Json::Str(id)) => {
            let mut out: String = meta_url.to_owned();
            out.append("/files/");
            out.append(id.as_str());
            Some(out)
        },
        _ => None,
    }
}

/// document: an object with a string "file_id" becomes
/// `{base}/files/{file_id}?filename={filename}&content_type={content_type}`,
/// the two trailing parts defaulting to empty; anything else is null.
pub open spec fn spec_parse_document(v: Option<SpecJson>, base: Seq<char>) -> Option<Seq<char>> {
    match v {
        Some(SpecJson::Obj(fields)) => match SpecJson::lookup(fields, "file_id"@) {
            Some(SpecJson::Str(fid)) => Some(
                base + "/files/"@ + fid + "?filename="@ + text_or_empty(
                    SpecJson::lookup(fields, "filename"@),
                ) + "&content_type="@ + text_or_empty(SpecJson::lookup(fields, "content_type"@)),
            ),
            _ => None,
        },
        _ => None,
    }
}

pub fn parse_document(val: Option<&Json>, meta_url: &str) -> (r: Option<String>)
    ensures
        r.deep_view() == spec_parse_document(opt_model(val), meta_url@),
{
    let fields = match val {
        Some(Json::Obj(fields)) => fields,
        _ => {
            return None;
        },
    };
    let fid = match field_lookup(fields, "file_id") {
        Some(Json::Str(s)) => s,
        _ => {
            return None;
        },
    };
    let mut out: String = meta_url.to_owned();
    out.append("/files/");
    out.append(fid.as_str());
    out.append("?filename=");
    match field_lookup(fields, "filename") {
        Some(Json::Str(s)) => out.append(s.as_str()),
        _ => {
            proof {
                assert(out@ + Seq::<char>::empty() =~= out@);
            }
        },
    }
    out.append("&content_type=");
    match field_lookup(fields, "content_type") {
        Some(Json::Str(s)) => out.append(s.as_str()),
        _ => {
            proof {
                assert(out@ + Seq::<char>::empty() =~= out@);
            }
        },
    }
    Some(out)
}

/// location: the coordinate of the "latitude" and "longitude" fields,
/// both of which must be strings holding numerals, as (longitude,
/// latitude); `None` as soon as either is missing or unparsable.
pub open spec fn spec_location_coord(v: Option<SpecJson>) -> Option<(u64, u64)> {
    let lat = match as_text(field_of(v, "latitude"@)) {
        Some(s) => double_bits_of(s),
        None => None,
    };
    let lon = match as_text(field_of(v, "longitude"@)) {
        Some(s) => double_bits_of(s),
        None => None,
    };
    match (lat, lon) {
        (Some(a), Some(o)) => Some((o, a)),
        _ => None,
    }
}

/// The fields of the "human_address" sub-value, which may come either as
/// a JSON-encoded string or as a nested object; both forms read alike.
pub open spec fn spec_human_address(v: Option<SpecJson>) -> Option<Seq<(Seq<char>, SpecJson)>> {
    match field_of(v, "human_address"@) {
        Some(SpecJson::Str(s)) => json_object_of(s),
        Some(SpecJson::Obj(fields)) => Some(fields),
        _ => None,
    }
}

/// One optional string drawn from a human address's fields.
pub open spec fn spec_address_part(
    ha: Option<Seq<(Seq<char>, SpecJson)>>,
    key: Seq<char>,
) -> Option<Seq<char>> {
    match ha {
        Some(fields) => as_text(SpecJson::lookup(fields, key)),
        None => None,
    }
}

/// location, in full: the coordinate and the four address strings, each
/// independently nullable.
pub open spec fn spec_parse_location(v: Option<SpecJson>) -> (
    Option<(u64, u64)>,
    Option<Seq<char>>,
    Option<Seq<char>>,
    Option<Seq<char>>,
    Option<Seq<char>>,
) {
    let ha = spec_human_address(v);
    (
        spec_location_coord(v),
        spec_address_part(ha, "address"@),
        spec_address_part(ha, "city"@),
        spec_address_part(ha, "state"@),
        spec_address_part(ha, "zip"@),
    )
}

fn location_coord(val: Option<&Json>) -> (r: Option<(u64, u64)>)
    ensures
        r == spec_location_coord(opt_model(val)),
{
    let v = match val {
        Some(j) => j,
        None => {
            return None;
        },
    };
    let lat = match v.get_field("latitude") {
        Some(Json::Str(s)) => parse_double_bits(s.as_str()),
        _ => None,
    };
    let lon = match v.get_field("longitude") {
        Some(Json::Str(s)) => parse_double_bits(s.as_str()),
        _ => None,
    };
    match (lat, lon) {
        (Some(a), Some(o)) => Some((o, a)),
        _ => None,
    }
}

fn address_part(fields: &Vec<(String, Json)>, key: &str) -> (r: Option<String>)
    ensures
        r.deep_view() == spec_address_part(Some(Json::model_fields(fields@)), key@),
{
    match field_lookup(fields, key) {
        Some(Json::Str(s)) => Some(s.clone()),
        _ => None,
    }
}

pub fn parse_location(val: Option<&Json>) -> (r: (
    Option<(u64, u64)>,
    Option<String>,
    Option<String>,
    Option<String>,
    Option<String>,
))
    ensures
        r.0 == spec_parse_location(opt_model(val)).0,
        r.1.deep_view() == spec_parse_location(opt_model(val)).1,
        r.2.deep_view() == spec_parse_location(opt_model(val)).2,
        r.3.deep_view() == spec_parse_location(opt_model(val)).3,
        r.4.deep_view() == spec_parse_location(opt_model(val)).4,
{
    let coord = location_coord(val);
    let ha_val = match val {
        Some(j) => j.get_field("human_address"),
        None => None,
    };
    match ha_val {
        Some(Json::Str(s)) => match parse_json_object_text(s.as_str()) {
            Some(fields) => (
                coord,
                address_part(&fields, "address"),
                address_part(&fields, "city"),
                address_part(&fields, "state"),
                address_part(&fields, "zip"),
            ),
            None => (coord, None, None, None, None),
        },
        Some(Json::Obj(fields)) => (
            coord,
            address_part(fields, "address"),
            address_part(fields, "city"),
            address_part(fields, "state"),
            address_part(fields, "zip"),
        ),
        _ => (coord, None, None, None, None),
    }
}

/// A human address handed over as a JSON-encoded string and one handed
/// over as the nested object that string encodes decode to the same
/// address, city, state and zip values: the two representations cannot
/// be told apart through the location decoder.
pub proof fn lemma_human_address_form_invariance(
    s: Seq<char>,
    fields: Seq<(Seq<char>, SpecJson)>,
    v1: Option<SpecJson>,
    v2: Option<SpecJson>,
)
    ensures
        (json_object_of(s) == Some(fields) && field_of(v1, "human_address"@) == Some(
            SpecJson::Str(s),
        ) && field_of(v2, "human_address"@) == Some(SpecJson::Obj(fields))) ==> {
            &&& spec_human_address(v1) == spec_human_address(v2)
            &&& spec_parse_location(v1).1 == spec_parse_location(v2).1
            &&& spec_parse_location(v1).2 == spec_parse_location(v2).2
            &&& spec_parse_location(v1).3 == spec_parse_location(v2).3
            &&& spec_parse_location(v1).4 == spec_parse_location(v2).4
        },
{
}

/// The bits of a JSON number, else `None`.
pub open spec fn spec_num_of(v: SpecJson) -> Option<u64> {
    match v {
        SpecJson::Num(b) => Some(b),
        _ => None,
    }
}

/// A point entry that is exactly a 2-element array of numbers, as a
/// (first, second) ordinate pair; any other shape is `None`.
pub open spec fn spec_point_entry(e: SpecJson) -> Option<(u64, u64)> {
    match e {
        SpecJson::Arr(items) => if items.len() == 2 {
            match (spec_num_of(items[0]), spec_num_of(items[1])) {
                (Some(x), Some(y)) => Some((x, y)),
                _ => None,
            }
        } else {
            None
        },
        _ => None,
    }
}

/// point: the "coordinates" field must be exactly a 2-element numeric
/// array; any other shape is null.
pub open spec fn spec_parse_point(v: Option<SpecJson>) -> Option<(u64, u64)> {
    match field_of(v, "coordinates"@) {
        Some(c) => spec_point_entry(c),
        None => None,
    }
}

/// The well-formed point entries of a sequence, in order, the malformed
/// ones dropped (the policy of line and multipoint).
pub open spec fn spec_dropped_points(entries: Seq<SpecJson>) -> Seq<(u64, u64)>
    decreases entries.len(),
{
    if entries.len() == 0 {
        Seq::empty()
    } else {
        let rest = spec_dropped_points(entries.drop_last());
        match spec_point_entry(entries.last()) {
            Some(p) => rest.push(p),
            None => rest,
        }
    }
}

/// line: the "coordinates" field must be an array; entries that are not
/// 2-element numeric arrays are dropped from the sequence, not nulled.
pub open spec fn spec_parse_line(v: Option<SpecJson>) -> Option<Seq<(u64, u64)>> {
    match field_of(v, "coordinates"@) {
        Some(SpecJson::Arr(entries)) => Some(spec_dropped_points(entries)),
        _ => None,
    }
}

/// multipoint: the same drop-malformed-point policy as line.
pub open spec fn spec_parse_multipoint(v: Option<SpecJson>) -> Option<Seq<(u64, u64)>> {
    spec_parse_line(v)
}

/// Ordinate `i` of a point entry, read as serde_json indexes values: the
/// bits of the number at `i`, and NaN for everything else (a non-array
/// entry, a short array, a non-numeric element).
pub open spec fn spec_ordinate(e: SpecJson, i: int) -> u64 {
    match e {
        SpecJson::Arr(items) => if 0 <= i < items.len() {
            match items[i] {
                SpecJson::Num(b) => b,
                _ => NAN_BITS,
            }
        } else {
            NAN_BITS
        },
        _ => NAN_BITS,
    }
}

/// Every point entry kept, malformed ordinates replaced by NaN (the
/// policy of the ring-bearing shapes).
pub open spec fn spec_nan_points(entries: Seq<SpecJson>) -> Seq<(u64, u64)> {
    Seq::new(entries.len(), |i: int| (spec_ordinate(entries[i], 0), spec_ordinate(entries[i], 1)))
}

/// One ring: its point entries under the NaN policy; a ring that is not
/// an array reads as empty.
pub open spec fn spec_ring(r: SpecJson) -> Seq<(u64, u64)> {
    match r {
        SpecJson::Arr(entries) => spec_nan_points(entries),
        _ => Seq::empty(),
    }
}

/// A sequence of rings, each under the NaN policy.
pub open spec fn spec_rings(items: Seq<SpecJson>) -> Seq<Seq<(u64, u64)>> {
    Seq::new(items.len(), |i: int| spec_ring(items[i]))
}

/// polygon: the "coordinates" field must be an array of rings; malformed
/// point entries are kept, with NaN in place of missing ordinates.
pub open spec fn spec_parse_polygon(v: Option<SpecJson>) -> Option<Seq<Seq<(u64, u64)>>> {
    match field_of(v, "coordinates"@) {
        Some(SpecJson::Arr(rings)) => Some(spec_rings(rings)),
        _ => None,
    }
}

/// multiline: an array of lines, each under polygon's NaN policy, not
/// line's drop policy.
pub open spec fn spec_parse_multiline(v: Option<SpecJson>) -> Option<Seq<Seq<(u64, u64)>>> {
    spec_parse_polygon(v)
}

/// A sequence of polygons, each a sequence of rings under the NaN policy.
pub open spec fn spec_polygons(items: Seq<SpecJson>) -> Seq<Seq<Seq<(u64, u64)>>> {
    Seq::new(
        items.len(),
        |i: int|
            match items[i] {
                SpecJson::Arr(rings) => spec_rings(rings),
                _ => Seq::empty(),
            },
    )
}

/// multipolygon: an array of polygon coordinate arrays, each under the
/// NaN-substitution ring policy.
pub open spec fn spec_parse_multipolygon(v: Option<SpecJson>) -> Option<Seq<Seq<Seq<(u64, u64)>>>> {
    match field_of(v, "coordinates"@) {
        Some(SpecJson::Arr(polys)) => Some(spec_polygons(polys)),
        _ => None,
    }
}

/// The designed asymmetry of the geometry policies, side by side: under
/// the NaN policy a ring keeps one slot per entry, while under the drop
/// policy a line keeps only its well-formed entries.
pub proof fn lemma_geometry_policy_asymmetry(entries: Seq<SpecJson>)
    ensures
        spec_nan_points(entries).len() == entries.len(),
        spec_dropped_points(entries).len() <= entries.len(),
    decreases entries.len(),
{
    if entries.len() > 0 {
        lemma_geometry_policy_asymmetry(entries.drop_last());
    }
}

fn num_of(e: &Json) -> (r: Option<u64>)
    ensures
        r == spec_num_of(e.model()),
{
    match e {
        Json::Num(b) => Some(*b),
        _ => None,
    }
}

fn point_entry(e: &Json) -> (r: Option<(u64, u64)>)
    ensures
        r == spec_point_entry(e.model()),
{
    match e {
        Json::Arr(items) => {
            proof {
                lemma_model_elems(items@);
            }
            if items.len() == 2 {
                match (num_of(&items[0]), num_of(&items[1])) {
                    (Some(x), Some(y)) => Some((x, y)),
                    _ => None,
                }
            } else {
                None
            }
        },
        _ => None,
    }
}

pub fn parse_point(val: Option<&Json>) -> (r: Option<(u64, u64)>)
    ensures
        r == spec_parse_point(opt_model(val)),
{
    match val {
        Some(j) => match j.get_field("coordinates") {
            Some(c) => point_entry(c),
            None => None,
        },
        None => None,
    }
}

fn dropped_points(entries: &Vec<Json>) -> (r: Vec<(u64, u64)>)
    ensures
        r@ == spec_dropped_points(Json::model_elems(entries@)),
{
    let mut out: Vec<(u64, u64)> = Vec::new();
    let ghost ms = Json::model_elems(entries@);
    proof {
        lemma_model_elems(entries@);
        assert(ms.take(0) =~= Seq::empty());
    }
    let mut i: usize = 0;
    while i < entries.len()
        invariant
            i <= entries.len(),
            ms == Json::model_elems(entries@),
            ms.len() == entries@.len(),
            forall|k: int| 0 <= k < ms.len() ==> ms[k] == #[trigger] entries@[k].model(),
            out@ == spec_dropped_points(ms.take(i as int)),
        decreases entries.len() - i,
    {
        match point_entry(&entries[i]) {
            Some(p) => out.push(p),
            None => {},
        }
        proof {
            assert(ms.take(i as int + 1).drop_last() =~= ms.take(i as int));
            assert(ms.take(i as int + 1).last() == ms[i as int]);
        }
        i += 1;
    }
    proof {
        assert(ms.take(ms.len() as int) =~= ms);
    }
    out
}

/// The sequence a vector of ordinate pairs models is its own contents.
proof fn lemma_pair_vec_deep_view(v: Vec<(u64, u64)>)
    ensures
        v.deep_view() =~= v@,
{
}

pub fn parse_line(val: Option<&Json>) -> (r: Option<Vec<(u64, u64)>>)
    ensures
        r.deep_view() == spec_parse_line(opt_model(val)),
{
    match val {
        Some(j) => match j.get_field("coordinates") {
            Some(c) => match c {
                Json::Arr(entries) => {
                    let pts = dropped_points(entries);
                    proof {
                        lemma_pair_vec_deep_view(pts);
                    }
                    Some(pts)
                },
                _ => None,
            },
            None => None,
        },
        None => None,
    }
}

pub fn parse_multipoint(val: Option<&Json>) -> (r: Option<Vec<(u64, u64)>>)
    ensures
        r.deep_view() == spec_parse_multipoint(opt_model(val)),
{
    match val {
        Some(j) => match j.get_field("coordinates") {
            Some(c) => match c {
                Json::Arr(entries) => {
                    let pts = dropped_points(entries);
                    proof {
                        lemma_pair_vec_deep_view(pts);
                    }
                    Some(pts)
                },
                _ => None,
            },
            None => None,
        },
        None => None,
    }
}

fn nan_point(e: &Json) -> (r: (u64, u64))
    ensures
        r == (spec_ordinate(e.model(), 0), spec_ordinate(e.model(), 1)),
{
    match e {
        Json::Arr(items) => {
            proof {
                lemma_model_elems(items@);
            }
            let x = if items.len() > 0 {
                match num_of(&items[0]) {
                    Some(b) => b,
                    None => NAN_BITS,
                }
            } else {
                NAN_BITS
            };
            let y = if items.len() > 1 {
                match num_of(&items[1]) {
                    Some(b) => b,
                    None => NAN_BITS,
                }
            } else {
                NAN_BITS
            };
            assert(x == spec_ordinate(e.model(), 0));
            assert(y == spec_ordinate(e.model(), 1));
            (x, y)
        },
        _ => (NAN_BITS, NAN_BITS),
    }
}

fn nan_points(entries: &Vec<Json>) -> (r: Vec<(u64, u64)>)
    ensures
        r@ == spec_nan_points(Json::model_elems(entries@)),
{
    let mut out: Vec<(u64, u64)> = Vec::new();
    let ghost ms = Json::model_elems(entries@);
    proof {
        lemma_model_elems(entries@);
    }
    let mut i: usize = 0;
    while i < entries.len()
        invariant
            i <= entries.len(),
            ms == Json::model_elems(entries@),
            ms.len() == entries@.len(),
            forall|k: int| 0 <= k < ms.len() ==> ms[k] == #[trigger] entries@[k].model(),
            out@ =~= spec_nan_points(ms).take(i as int),
        decreases entries.len() - i,
    {
        out.push(nan_point(&entries[i]));
        i += 1;
    }
    proof {
        assert(spec_nan_points(ms).take(ms.len() as int) =~= spec_nan_points(ms));
    }
    out
}

fn ring_points(e: &Json) -> (r: Vec<(u64, u64)>)
    ensures
        r@ == spec_ring(e.model()),
{
    match e {
        Json::Arr(entries) => nan_points(entries),
        _ => Vec::new(),
    }
}

fn rings_of(items: &Vec<Json>) -> (r: Vec<Vec<(u64, u64)>>)
    ensures
        r.deep_view() == spec_rings(Json::model_elems(items@)),
{
    let mut out: Vec<Vec<(u64, u64)>> = Vec::new();
    let ghost ms = Json::model_elems(items@);
    proof {
        lemma_model_elems(items@);
    }
    let mut i: usize = 0;
    while i < items.len()
        invariant
            i <= items.len(),
            ms == Json::model_elems(items@),
            ms.len() == items@.len(),
            forall|k: int| 0 <= k < ms.len() ==> ms[k] == #[trigger] items@[k].model(),
            out@.len() == i as int,
            forall|k: int| 0 <= k < i as int ==> (#[trigger] out@[k])@ == spec_ring(ms[k]),
        decreases items.len() - i,
    {
        let ring = ring_points(&items[i]);
        out.push(ring);
        i += 1;
    }
    proof {
        assert forall|k: int| 0 <= k < ms.len() implies out.deep_view()[k] == spec_rings(ms)[k] by {
            lemma_pair_vec_deep_view(out@[k]);
        }
        assert(out.deep_view() =~= spec_rings(ms));
    }
    out
}

pub fn parse_polygon(val: Option<&Json>) -> (r: Option<Vec<Vec<(u64, u64)>>>)
    ensures
        r.deep_view() == spec_parse_polygon(opt_model(val)),
{
    match val {
        Some(j) => match j.get_field("coordinates") {
            Some(c) => match c {
                Json::Arr(rings) => Some(rings_of(rings)),
                _ => None,
            },
            None => None,
        },
        None => None,
    }
}

pub fn parse_multiline(val: Option<&Json>) -> (r: Option<Vec<Vec<(u64, u64)>>>)
    ensures
        r.deep_view() == spec_parse_multiline(opt_model(val)),
{
    match val {
        Some(j) => match j.get_field("coordinates") {
            Some(c) => match c {
                Json::Arr(lines) => Some(rings_of(lines)),
                _ => None,
            },
            None => None,
        },
        None => None,
    }
}

fn polys_of(items: &Vec<Json>) -> (r: Vec<Vec<Vec<(u64, u64)>>>)
    ensures
        r.deep_view() == spec_polygons(Json::model_elems(items@)),
{
    let mut out: Vec<Vec<Vec<(u64, u64)>>> = Vec::new();
    let ghost ms = Json::model_elems(items@);
    proof {
        lemma_model_elems(items@);
    }
    let mut i: usize = 0;
    while i < items.len()
        invariant
            i <= items.len(),
            ms == Json::model_elems(items@),
            ms.len() == items@.len(),
            forall|k: int| 0 <= k < ms.len() ==> ms[k] == #[trigger] items@[k].model(),
            out@.len() == i as int,
            forall|k: int|
                0 <= k < i as int ==> (#[trigger] out@[k]).deep_view() == spec_polygons(ms)[k],
        decreases items.len() - i,
    {
        let poly = match &items[i] {
            Json::Arr(rings) => {
                let p = rings_of(rings);
                proof {
                    assert(items@[i as int].model() == SpecJson::Arr(Json::model_elems(rings@)));
                }
                p
            },
            _ => {
                proof {
                    assert(!(items@[i as int].model() is Arr));
                }
                Vec::new()
            },
        };
        assert(poly.deep_view() =~= spec_polygons(ms)[i as int]);
        out.push(poly);
        i += 1;
    }
    proof {
        assert forall|k: int|
            0 <= k < ms.len() implies out.deep_view()[k] == spec_polygons(ms)[k] by {}
        assert(out.deep_view() =~= spec_polygons(ms));
    }
    out
}

pub fn parse_multipolygon(val: Option<&Json>) -> (r: Option<Vec<Vec<Vec<(u64, u64)>>>>)
    ensures
        r.deep_view() == spec_parse_multipolygon(opt_model(val)),
{
    match val {
        Some(j) => match j.get_field("coordinates") {
            Some(c) => match c {
                Json::Arr(polys) => Some(polys_of(polys)),
                _ => None,
            },
            None => None,
        },
        None => None,
    }
}

} // verus!
