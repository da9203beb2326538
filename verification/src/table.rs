//! The decode pass: headers to a schema, payloads to rows, and one
//! decoded column per declared name/type pair.
//!
//! Schema and vocabulary errors are fatal and precede any row work; no
//! buffer is produced on a fatal error. Everything at the cell level
//! degrades to null instead.

use vstd::prelude::*;
use crate::json::{
    Json, SpecJson, json_array_of, json_array_of_text, parse_json_array, parse_json_array_text,
    lemma_model_elems,
};
use crate::column::{
    Column, ColumnModel, ColumnType, column_type_of, spec_column_type_of, spec_column,
    decode_column, lemma_spec_column_len,
};

verus! {

/// A fatal configuration or input error: nothing is decoded when one of
/// these arises.
#[derive(Clone, Copy, PartialEq, Eq, Structural, Debug)]
pub enum DecodeError {
    /// The column-name list is not a JSON array of strings.
    BadColumnNames,
    /// The column-type list is not a JSON array of strings.
    BadColumnTypes,
    /// The two header lists differ in length.
    ColumnCountMismatch,
    /// A type tag falls outside the closed vocabulary.
    UnknownColumnType,
    /// A payload is not a JSON array of objects.
    BadPayload,
}

/// The texts of a sequence of JSON values that are all strings, `None`
/// as soon as one is not.
pub open spec fn spec_strings_of(items: Seq<SpecJson>) -> Option<Seq<Seq<char>>>
    decreases items.len(),
{
    if items.len() == 0 {
        Some(Seq::empty())
    } else {
        match (spec_strings_of(items.drop_last()), items.last()) {
            (Some(rest), SpecJson::Str(s)) => Some(rest.push(s)),
            _ => None,
        }
    }
}

/// A header list: the text must be a JSON array of strings.
pub open spec fn spec_header_strings(text: Seq<char>) -> Option<Seq<Seq<char>>> {
    match json_array_of_text(text) {
        Some(items) => spec_strings_of(items),
        None => None,
    }
}

/// The column types of a sequence of tags, `None` as soon as one tag
/// falls outside the vocabulary.
pub open spec fn spec_types_of(tags: Seq<Seq<char>>) -> Option<Seq<ColumnType>>
    decreases tags.len(),
{
    if tags.len() == 0 {
        Some(Seq::empty())
    } else {
        match (spec_types_of(tags.drop_last()), spec_column_type_of(tags.last())) {
            (Some(rest), Some(t)) => Some(rest.push(t)),
            _ => None,
        }
    }
}

/// One payload's rows: the payload must be a JSON array whose elements
/// are all objects.
pub open spec fn spec_payload_rows(payload: Option<Seq<SpecJson>>) -> Option<Seq<SpecJson>> {
    match payload {
        Some(items) => if forall|i: int| 0 <= i < items.len() ==> (#[trigger] items[i]) is Obj {
            Some(items)
        } else {
            None
        },
        None => None,
    }
}

/// The single row sequence: each payload's rows concatenated, in payload
/// order then in-array order. `None` as soon as one payload is bad.
pub open spec fn spec_rows_of(payloads: Seq<Seq<u8>>) -> Option<Seq<SpecJson>>
    decreases payloads.len(),
{
    if payloads.len() == 0 {
        Some(Seq::empty())
    } else {
        match (
            spec_rows_of(payloads.drop_last()),
            spec_payload_rows(json_array_of(payloads.last())),
        ) {
            (Some(a), Some(b)) => Some(a + b),
            _ => None,
        }
    }
}

/// The byte sequences of a vector of payload buffers.
pub open spec fn payload_bytes(payloads: Seq<Vec<u8>>) -> Seq<Seq<u8>> {
    Seq::new(payloads.len(), |i: int| payloads[i]@)
}

/// The texts of a vector of strings.
pub open spec fn string_views(ss: Seq<String>) -> Seq<Seq<char>> {
    Seq::new(ss.len(), |i: int| ss[i]@)
}

/// The models of a vector of column buffers.
pub open spec fn column_models(cols: Seq<Column>) -> Seq<ColumnModel> {
    Seq::new(cols.len(), |i: int| cols[i].model())
}

/// The whole decode, over models: resolve both headers, pair them into a
/// schema, flatten the payloads into rows, and decode one column per
/// schema entry; or the one fatal error that stops it.
pub open spec fn spec_parse_data(
    payloads: Seq<Seq<u8>>,
    names_text: Seq<char>,
    types_text: Seq<char>,
    base: Seq<char>,
    zone: Seq<char>,
) -> Result<Seq<ColumnModel>, DecodeError> {
    match spec_header_strings(names_text) {
        None => Err(DecodeError::BadColumnNames),
        Some(names) => match spec_header_strings(types_text) {
            None => Err(DecodeError::BadColumnTypes),
            Some(tags) => if names.len() != tags.len() {
                Err(DecodeError::ColumnCountMismatch)
            } else {
                match spec_types_of(tags) {
                    None => Err(DecodeError::UnknownColumnType),
                    Some(types) => match spec_rows_of(payloads) {
                        None => Err(DecodeError::BadPayload),
                        Some(rows) => Ok(
                            Seq::new(
                                types.len(),
                                |i: int| spec_column(types[i], rows, names[i], base, zone),
                            ),
                        ),
                    },
                }
            },
        },
    }
}

/// A sequence with a non-string element never reads as a string list.
proof fn lemma_strings_of_none(items: Seq<SpecJson>, j: int)
    requires
        0 <= j < items.len(),
        !(items[j] is Str),
    ensures
        spec_strings_of(items) is None,
    decreases items.len(),
{
    if j < items.len() - 1 {
        assert(items.drop_last()[j] == items[j]);
        lemma_strings_of_none(items.drop_last(), j);
    }
}

/// A tag list with one unknown tag never resolves.
proof fn lemma_types_of_none(tags: Seq<Seq<char>>, j: int)
    requires
        0 <= j < tags.len(),
        spec_column_type_of(tags[j]) is None,
    ensures
        spec_types_of(tags) is None,
    decreases tags.len(),
{
    if j < tags.len() - 1 {
        assert(tags.drop_last()[j] == tags[j]);
        lemma_types_of_none(tags.drop_last(), j);
    }
}

/// One bad payload spoils the whole row sequence.
proof fn lemma_rows_of_none(payloads: Seq<Seq<u8>>, j: int)
    requires
        0 <= j < payloads.len(),
        spec_payload_rows(json_array_of(payloads[j])) is None,
    ensures
        spec_rows_of(payloads) is None,
    decreases payloads.len(),
{
    if j < payloads.len() - 1 {
        assert(payloads.drop_last()[j] == payloads[j]);
        lemma_rows_of_none(payloads.drop_last(), j);
    }
}

/// The strings of a JSON array of strings, owned.
fn extract_strings(items: &Vec<Json>) -> (r: Option<Vec<String>>)
    ensures
        match r {
            Some(v) => spec_strings_of(Json::model_elems(items@)) == Some(string_views(v@)),
            None => spec_strings_of(Json::model_elems(items@)) is None,
        },
{
    let ghost ms = Json::model_elems(items@);
    proof {
        lemma_model_elems(items@);
        assert(ms.take(0) =~= Seq::empty());
    }
    let mut out: Vec<String> = Vec::with_capacity(items.len());
    let mut i: usize = 0;
    while i < items.len()
        invariant
            i <= items.len(),
            ms == Json::model_elems(items@),
            ms.len() == items@.len(),
            forall|k: int| 0 <= k < ms.len() ==> ms[k] == #[trigger] items@[k].model(),
            out@.len() == i as int,
            spec_strings_of(ms.take(i as int)) == Some(string_views(out@)),
        decreases items.len() - i,
    {
        let ghost prior = out@;
        match &items[i] {
            Json::Str(s) => {
                out.push(s.clone());
            },
            _ => {
                proof {
                    assert(!(items@[i as int].model() is Str));
                    lemma_strings_of_none(ms, i as int);
                }
                return None;
            },
        }
        proof {
            assert(ms.take(i as int + 1).drop_last() =~= ms.take(i as int));
            assert(ms.take(i as int + 1).last() == ms[i as int]);
            assert(items@[i as int].model() == SpecJson::Str(out@.last()@));
            assert(string_views(out@) =~= string_views(prior).push(out@.last()@));
        }
        i += 1;
    }
    proof {
        assert(ms.take(ms.len() as int) =~= ms);
    }
    Some(out)
}

/// The schema's column types, resolved tag by tag.
fn resolve_types(tags: &Vec<String>) -> (r: Option<Vec<ColumnType>>)
    ensures
        match r {
            Some(v) => spec_types_of(string_views(tags@)) == Some(v@) && v@.len() == tags@.len(),
            None => spec_types_of(string_views(tags@)) is None,
        },
{
    let ghost ts = string_views(tags@);
    proof {
        assert(ts.take(0) =~= Seq::empty());
    }
    let mut out: Vec<ColumnType> = Vec::with_capacity(tags.len());
    let mut i: usize = 0;
    while i < tags.len()
        invariant
            i <= tags.len(),
            ts == string_views(tags@),
            ts.len() == tags@.len(),
            out@.len() == i as int,
            spec_types_of(ts.take(i as int)) == Some(out@),
        decreases tags.len() - i,
    {
        match column_type_of(tags[i].as_str()) {
            Some(t) => {
                out.push(t);
            },
            None => {
                proof {
                    lemma_types_of_none(ts, i as int);
                }
                return None;
            },
        }
        proof {
            assert(ts.take(i as int + 1).drop_last() =~= ts.take(i as int));
            assert(ts.take(i as int + 1).last() == ts[i as int]);
        }
        i += 1;
    }
    proof {
        assert(ts.take(ts.len() as int) =~= ts);
    }
    Some(out)
}

/// The flattened row sequence of all payloads, each a JSON array of
/// objects, in payload order then in-array order.
fn flatten_payloads(payloads: &Vec<Vec<u8>>) -> (r: Option<Vec<Json>>)
    ensures
        match r {
            Some(rows) => spec_rows_of(payload_bytes(payloads@)) == Some(
                Json::model_elems(rows@),
            ),
            None => spec_rows_of(payload_bytes(payloads@)) is None,
        },
{
    let ghost pb = payload_bytes(payloads@);
    proof {
        assert(pb.take(0) =~= Seq::empty());
        assert(Json::model_elems(Seq::<Json>::empty()) =~= Seq::<SpecJson>::empty());
    }
    let mut rows: Vec<Json> = Vec::new();
    let mut i: usize = 0;
    while i < payloads.len()
        invariant
            i <= payloads.len(),
            pb == payload_bytes(payloads@),
            pb.len() == payloads@.len(),
            spec_rows_of(pb.take(i as int)) == Some(Json::model_elems(rows@)),
        decreases payloads.len() - i,
    {
        let mut items = match parse_json_array(payloads[i].as_slice()) {
            Some(items) => items,
            None => {
                proof {
                    lemma_rows_of_none(pb, i as int);
                }
                return None;
            },
        };
        let ghost mitems = Json::model_elems(items@);
        proof {
            lemma_model_elems(items@);
        }
        let mut j: usize = 0;
        while j < items.len()
            invariant
                j <= items.len(),
                mitems == Json::model_elems(items@),
                mitems.len() == items@.len(),
                forall|k: int| 0 <= k < mitems.len() ==> mitems[k] == #[trigger] items@[k].model(),
                forall|k: int| 0 <= k < j as int ==> (#[trigger] mitems[k]) is Obj,
                json_array_of(pb[i as int]) == Some(mitems),
                pb == payload_bytes(payloads@),
                pb.len() == payloads@.len(),
                i < payloads@.len(),
                spec_rows_of(pb.take(i as int)) == Some(Json::model_elems(rows@)),
            decreases items.len() - j,
        {
            match &items[j] {
                Json::Obj(_) => {},
                _ => {
                    proof {
                        assert(!(items@[j as int].model() is Obj));
                        assert(spec_payload_rows(json_array_of(pb[i as int])) is None);
                        lemma_rows_of_none(pb, i as int);
                    }
                    return None;
                },
            }
            j += 1;
        }
        let ghost prior = rows@;
        let ghost items_pre = items@;
        rows.append(&mut items);
        proof {
            assert(spec_payload_rows(json_array_of(pb[i as int])) == Some(mitems));
            assert(rows@ == prior + items_pre);
            lemma_model_elems(prior);
            lemma_model_elems(items_pre);
            lemma_model_elems(rows@);
            assert forall|k: int|
                0 <= k < rows@.len() implies Json::model_elems(rows@)[k] == (Json::model_elems(
                prior,
            ) + mitems)[k] by {
                if k < prior.len() {
                    assert(rows@[k] == prior[k]);
                    assert(Json::model_elems(prior)[k] == prior[k].model());
                    assert(Json::model_elems(rows@)[k] == rows@[k].model());
                } else {
                    let k2 = k - prior.len();
                    assert(rows@[k] == items_pre[k2]);
                    assert(mitems[k2] == items_pre[k2].model());
                    assert(Json::model_elems(rows@)[k] == rows@[k].model());
                }
            }
            assert(Json::model_elems(rows@) =~= Json::model_elems(prior) + mitems);
            assert(pb.take(i as int + 1).drop_last() =~= pb.take(i as int));
            assert(pb.take(i as int + 1).last() == pb[i as int]);
        }
        i += 1;
    }
    proof {
        assert(pb.take(pb.len() as int) =~= pb);
    }
    Some(rows)
}

/// The decode entry point: payload buffers, the two header lists, the
/// base URL for photo and document links, and the timezone name for
/// floating timestamps, to one typed buffer per declared column.
pub fn parse_data_json(
    raw_payloads: &Vec<Vec<u8>>,
    header_col_names: &str,
    header_col_types: &str,
    meta_url: &str,
    zone: &str,
) -> (r: Result<Vec<Column>, DecodeError>)
    ensures
        match r {
            Ok(cols) => spec_parse_data(
                payload_bytes(raw_payloads@),
                header_col_names@,
                header_col_types@,
                meta_url@,
                zone@,
            ) == Ok::<Seq<ColumnModel>, DecodeError>(column_models(cols@)),
            Err(e) => spec_parse_data(
                payload_bytes(raw_payloads@),
                header_col_names@,
                header_col_types@,
                meta_url@,
                zone@,
            ) == Err::<Seq<ColumnModel>, DecodeError>(e),
        },
{
    let names_items = match parse_json_array_text(header_col_names) {
        Some(v) => v,
        None => {
            return Err(DecodeError::BadColumnNames);
        },
    };
    let names = match extract_strings(&names_items) {
        Some(v) => v,
        None => {
            return Err(DecodeError::BadColumnNames);
        },
    };
    let types_items = match parse_json_array_text(header_col_types) {
        Some(v) => v,
        None => {
            return Err(DecodeError::BadColumnTypes);
        },
    };
    let tags = match extract_strings(&types_items) {
        Some(v) => v,
        None => {
            return Err(DecodeError::BadColumnTypes);
        },
    };
    if names.len() != tags.len() {
        return Err(DecodeError::ColumnCountMismatch);
    }
    let types = match resolve_types(&tags) {
        Some(v) => v,
        None => {
            return Err(DecodeError::UnknownColumnType);
        },
    };
    let rows = match flatten_payloads(raw_payloads) {
        Some(v) => v,
        None => {
            return Err(DecodeError::BadPayload);
        },
    };
    let ghost rows_m = Json::model_elems(rows@);
    let ghost names_m = string_views(names@);
    let ghost target = Seq::new(
        types@.len(),
        |i: int| spec_column(types@[i], rows_m, names_m[i], meta_url@, zone@),
    );
    let mut cols: Vec<Column> = Vec::with_capacity(types.len());
    let mut i: usize = 0;
    while i < types.len()
        invariant
            i <= types.len(),
            rows_m == Json::model_elems(rows@),
            names_m == string_views(names@),
            names_m.len() == names@.len(),
            names@.len() == types@.len(),
            target == Seq::new(
                types@.len(),
                |k: int| spec_column(types@[k], rows_m, names_m[k], meta_url@, zone@),
            ),
            cols@.len() == i as int,
            forall|k: int| 0 <= k < i as int ==> (#[trigger] cols@[k]).model() == target[k],
        decreases types.len() - i,
    {
        cols.push(decode_column(types[i], &rows, names[i].as_str(), meta_url, zone));
        i += 1;
    }
    proof {
        assert(column_models(cols@) =~= target);
    }
    Ok(cols)
}

/// Every produced column buffer's length equals the number of rows in
/// the flattened row sequence, whatever the inputs.
pub proof fn lemma_column_lengths(
    payloads: Seq<Seq<u8>>,
    names_text: Seq<char>,
    types_text: Seq<char>,
    base: Seq<char>,
    zone: Seq<char>,
)
    ensures
        spec_parse_data(payloads, names_text, types_text, base, zone) is Ok ==> spec_rows_of(
            payloads,
        ) is Some,
        match (spec_parse_data(payloads, names_text, types_text, base, zone), spec_rows_of(
            payloads,
        )) {
            (Ok(cols), Some(rows)) => forall|i: int|
                0 <= i < cols.len() ==> (#[trigger] cols[i]).has_len(rows.len()),
            _ => true,
        },
{
    match (spec_parse_data(payloads, names_text, types_text, base, zone), spec_rows_of(payloads)) {
        (Ok(cols), Some(rows)) => {
            assert forall|i: int| 0 <= i < cols.len() implies (#[trigger] cols[i]).has_len(
                rows.len(),
            ) by {
                match (spec_header_strings(names_text), spec_header_strings(types_text)) {
                    (Some(names), Some(tags)) => {
                        match spec_types_of(tags) {
                            Some(types) => {
                                lemma_spec_column_len(types[i], rows, names[i], base, zone);
                            },
                            None => {},
                        }
                    },
                    _ => {},
                }
            }
        },
        _ => {},
    }
}

/// Decoding is a pure function of its five inputs: the same payload
/// bytes, headers, base URL and timezone always yield the same buffers.
pub proof fn lemma_decode_deterministic(
    payloads1: Seq<Seq<u8>>,
    names1: Seq<char>,
    types1: Seq<char>,
    base1: Seq<char>,
    zone1: Seq<char>,
    payloads2: Seq<Seq<u8>>,
    names2: Seq<char>,
    types2: Seq<char>,
    base2: Seq<char>,
    zone2: Seq<char>,
)
    ensures
        (payloads1 == payloads2 && names1 == names2 && types1 == types2 && base1 == base2 && zone1
            == zone2) ==> spec_parse_data(payloads1, names1, types1, base1, zone1)
            == spec_parse_data(payloads2, names2, types2, base2, zone2),
{
}

} // verus!

