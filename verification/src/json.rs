//! The decoder's own JSON value type and its mathematical model.
//!
//! A `Json` value is a plain tree of booleans, numbers (held as the IEEE 754
//! bit pattern of a double), strings, arrays and objects. Its model,
//! `SpecJson`, is the same tree over `Seq`, used by every contract.

use vstd::prelude::*;

verus! {

/// Mathematical model of a JSON value.
pub enum SpecJson {
    Null,
    Bool(bool),
    /// IEEE 754 bit pattern of the number read as a double.
    Num(u64),
    Str(Seq<char>),
    Arr(Seq<SpecJson>),
    Obj(Seq<(Seq<char>, SpecJson)>),
}

/// A JSON value as the decoder holds it: numbers are carried as the
/// IEEE 754 bit pattern of the double they denote.
pub enum Json {
    Null,
    Bool(bool),
    Num(u64),
    Str(String),
    Arr(Vec<Json>),
    Obj(Vec<(String, Json)>),
}

impl SpecJson {
    /// Field `key` of this value, read as `serde_json::Value::get` reads it:
    /// `None` on any non-object value and on an absent key.
    pub open spec fn get(self, key: Seq<char>) -> Option<SpecJson> {
        match self {
            SpecJson::Obj(fields) => SpecJson::lookup(fields, key),
            _ => None,
        }
    }

    /// The value under the first field named `key`, if any.
    pub open spec fn lookup(fields: Seq<(Seq<char>, SpecJson)>, key: Seq<char>) -> Option<
        SpecJson,
    >
        decreases fields.len(),
    {
        if fields.len() == 0 {
            None
        } else if fields[0].0 == key {
            Some(fields[0].1)
        } else {
            SpecJson::lookup(fields.drop_first(), key)
        }
    }
}

impl Json {
    /// The model of this value: the same tree, over sequences.
    pub open spec fn model(self) -> SpecJson
        decreases self,
    {
        match self {
            Json::Null => SpecJson::Null,
            Json::Bool(b) => SpecJson::Bool(b),
            Json::Num(bits) => SpecJson::Num(bits),
            Json::Str(s) => SpecJson::Str(s@),
            Json::Arr(items) => SpecJson::Arr(Json::model_elems(items@)),
            Json::Obj(fields) => SpecJson::Obj(Json::model_fields(fields@)),
        }
    }

    /// Models of the elements of an array, in order.
    pub open spec fn model_elems(items: Seq<Json>) -> Seq<SpecJson>
        decreases items,
    {
        if items.len() == 0 {
            Seq::empty()
        } else {
            Json::model_elems(items.drop_last()).push(items.last().model())
        }
    }

    /// Models of the fields of an object, in order.
    pub open spec fn model_fields(fields: Seq<(String, Json)>) -> Seq<(Seq<char>, SpecJson)>
        decreases fields,
    {
        if fields.len() == 0 {
            Seq::empty()
        } else {
            Json::model_fields(fields.drop_last()).push(
                (fields.last().0@, fields.last().1.model()),
            )
        }
    }
}

/// The models of element `i` and of the length of `Json::model_elems` are
/// those of the elements themselves.
pub proof fn lemma_model_elems(items: Seq<Json>)
    ensures
        Json::model_elems(items).len() == items.len(),
        forall|i: int|
            0 <= i < items.len() ==> Json::model_elems(items)[i] == #[trigger] items[i].model(),
    decreases items,
{
    if items.len() > 0 {
        lemma_model_elems(items.drop_last());
        assert forall|i: int|
            0 <= i < items.len() implies Json::model_elems(items)[i] == #[trigger] items[i].model() by {
            if i < items.len() - 1 {
                assert(items.drop_last()[i] == items[i]);
                assert(Json::model_elems(items.drop_last())[i] == items.drop_last()[i].model());
            }
        }
    }
}

/// The models of field `i` and of the length of `Json::model_fields` are
/// those of the fields themselves.
pub proof fn lemma_model_fields(fields: Seq<(String, Json)>)
    ensures
        Json::model_fields(fields).len() == fields.len(),
        forall|i: int|
            0 <= i < fields.len() ==> Json::model_fields(fields)[i] == (
            #[trigger] fields[i].0@,
            fields[i].1.model(),
            ),
    decreases fields,
{
    if fields.len() > 0 {
        lemma_model_fields(fields.drop_last());
        assert forall|i: int|
            0 <= i < fields.len() implies Json::model_fields(fields)[i] == (
            #[trigger] fields[i].0@,
            fields[i].1.model(),
            ) by {
            if i < fields.len() - 1 {
                assert(fields.drop_last()[i] == fields[i]);
                assert(Json::model_fields(fields.drop_last())[i] == (
                    fields.drop_last()[i].0@,
                    fields.drop_last()[i].1.model(),
                ));
            }
        }
    }
}

#[verifier::external_type_specification]
#[verifier::external_body]
pub struct ExValue(serde_json::Value);

/// Shared converter behind the two parsing wrappers below. Relies on the
/// variants of `serde_json::Value`, moved over one arm each, and on
/// `serde_json::Number::as_f64`, which yields the double a JSON number
/// denotes (it is `Some` for every number under serde_json's default
/// features); the double is carried as its bit pattern.
#[verifier::external_body]
fn json_of_value(v: &serde_json::Value) -> Json {
    match v {
        serde_json::Value::Null => Json::Null,
        serde_json::Value::Bool(b) => Json::Bool(*b),
        serde_json::Value::Number(n) => Json::Num(n.as_f64().map(|x| x.to_bits()).unwrap()),
        serde_json::Value::String(s) => Json::Str(s.clone()),
        serde_json::Value::Array(items) => Json::Arr(items.iter().map(json_of_value).collect()),
        serde_json::Value::Object(fields) => Json::Obj(
            fields.iter().map(|(k, w)| (k.clone(), json_of_value(w))).collect(),
        ),
    }
}

/// The rows a payload of bytes holds: `Some` exactly when the bytes are one
/// well-formed JSON array, with the models of its elements in order.
pub uninterp spec fn json_array_of(bytes: Seq<u8>) -> Option<Seq<SpecJson>>;

/// Relies on `serde_json::from_slice` for `Vec<serde_json::Value>`: it
/// succeeds exactly on a well-formed JSON array and hands its elements
/// back in order.
#[verifier::external_body]
pub fn parse_json_array(bytes: &[u8]) -> (r: Option<Vec<Json>>)
    ensures
        r is Some <==> json_array_of(bytes@) is Some,
        r matches Some(items) ==> json_array_of(bytes@) == Some(Json::model_elems(items@)),
{
    match serde_json::from_slice::<Vec<serde_json::Value>>(bytes) {
        Ok(vals) => Some(vals.iter().map(json_of_value).collect()),
        Err(_) => None,
    }
}

/// The elements a piece of text holds when read as one JSON array:
/// `Some` exactly when the text is a well-formed JSON array, with the
/// models of its elements in order.
pub uninterp spec fn json_array_of_text(text: Seq<char>) -> Option<Seq<SpecJson>>;

/// Relies on `serde_json::from_str` for `Vec<serde_json::Value>`: it
/// succeeds exactly on a well-formed JSON array and hands its elements
/// back in order.
#[verifier::external_body]
pub fn parse_json_array_text(text: &str) -> (r: Option<Vec<Json>>)
    ensures
        r is Some <==> json_array_of_text(text@) is Some,
        r matches Some(items) ==> json_array_of_text(text@) == Some(Json::model_elems(items@)),
{
    match serde_json::from_str::<Vec<serde_json::Value>>(text) {
        Ok(vals) => Some(vals.iter().map(json_of_value).collect()),
        Err(_) => None,
    }
}

/// The fields a piece of text holds when read as one JSON object: `Some`
/// exactly when the text is a well-formed JSON object, with the models of
/// its fields in order.
pub uninterp spec fn json_object_of(text: Seq<char>) -> Option<Seq<(Seq<char>, SpecJson)>>;

/// Relies on `serde_json::from_str` for `serde_json::Map`: it succeeds
/// exactly on a well-formed JSON object and hands its fields back in order.
#[verifier::external_body]
pub fn parse_json_object_text(text: &str) -> (r: Option<Vec<(String, Json)>>)
    ensures
        r is Some <==> json_object_of(text@) is Some,
        r matches Some(fields) ==> json_object_of(text@) == Some(Json::model_fields(fields@)),
{
    match serde_json::from_str::<serde_json::Map<String, serde_json::Value>>(text) {
        Ok(m) => Some(m.iter().map(|(k, w)| (k.clone(), json_of_value(w))).collect()),
        Err(_) => None,
    }
}

/// The bit pattern of the double a numeric text denotes, `None` for any
/// text that is not a numeral.
pub uninterp spec fn double_bits_of(text: Seq<char>) -> Option<u64>;

/// Relies on `serde_json::from_str` for `serde_json::Number` and on
/// `Number::as_f64`: the double denoted by a numeral in JSON's number
/// grammar, as its bit pattern; any other text is `None`.
#[verifier::external_body]
pub fn parse_double_bits(text: &str) -> (r: Option<u64>)
    ensures
        r == double_bits_of(text@),
{
    match serde_json::from_str::<serde_json::Number>(text) {
        Ok(n) => n.as_f64().map(|x| x.to_bits()),
        Err(_) => None,
    }
}

/// The value under the first field named `key`, if any.
pub fn field_lookup<'a>(fields: &'a Vec<(String, Json)>, key: &str) -> (r: Option<&'a Json>)
    ensures
        match r {
            Some(j) => SpecJson::lookup(Json::model_fields(fields@), key@) == Some(j.model()),
            None => SpecJson::lookup(Json::model_fields(fields@), key@) is None,
        },
{
    let key_owned: String = key.to_owned();
    let ghost mfields = Json::model_fields(fields@);
    proof {
        lemma_model_fields(fields@);
        assert(mfields.skip(0) =~= mfields);
    }
    let mut j: usize = 0;
    while j < fields.len()
        invariant
            j <= fields.len(),
            mfields == Json::model_fields(fields@),
            mfields.len() == fields@.len(),
            key_owned@ == key@,
            SpecJson::lookup(mfields, key@) == SpecJson::lookup(mfields.skip(j as int), key@),
        decreases fields.len() - j,
    {
        proof {
            lemma_model_fields(fields@);
            assert(mfields.skip(j as int)[0] == mfields[j as int]);
        }
        if fields[j].0 == key_owned {
            return Some(&fields[j].1);
        }
        proof {
            assert(mfields.skip(j as int).drop_first() =~= mfields.skip(j as int + 1));
        }
        j += 1;
    }
    assert(mfields.skip(fields@.len() as int) =~= Seq::empty());
    None
}

impl Json {
    /// Field `key` of this value, as `serde_json::Value::get` reads it:
    /// `None` on any non-object value and on an absent key.
    pub fn get_field<'a>(&'a self, key: &str) -> (r: Option<&'a Json>)
        ensures
            match r {
                Some(j) => self.model().get(key@) == Some(j.model()),
                None => self.model().get(key@) is None,
            },
    {
        match self {
            Json::Obj(fields) => field_lookup(fields, key),
            _ => None,
        }
    }
}

} // verus!
