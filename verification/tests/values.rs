use socratadata::json::{parse_json_array, parse_json_array_text, parse_json_object_text, Json};
use socratadata::parse::{
    parse_boolean, parse_document, parse_fixed_timestamp, parse_floating_timestamp, parse_line,
    parse_number, parse_photo, parse_point, parse_text, parse_url, NAN_BITS,
};

fn obj(fields: Vec<(&str, Json)>) -> Json {
    Json::Obj(
        fields
            .into_iter()
            .map(|(k, v)| (k.to_string(), v))
            .collect(),
    )
}

fn num(x: f64) -> Json {
    Json::Num(x.to_bits())
}

#[test]
fn decoders_treat_absent_values_as_null() {
    assert_eq!(parse_boolean(None), None);
    assert_eq!(parse_number(None), None);
    assert_eq!(parse_text(None), None);
    assert_eq!(parse_fixed_timestamp(None), None);
    assert_eq!(parse_floating_timestamp(None, "UTC"), None);
    assert_eq!(parse_url(None), (None, None));
    assert_eq!(parse_photo(None, "http://b"), None);
    assert_eq!(parse_document(None, "http://b"), None);
    assert_eq!(parse_point(None), None);
    assert_eq!(parse_line(None), None);
}

#[test]
fn number_decoder_returns_exact_bits() {
    let v = Json::Str("2.5".to_string());
    assert_eq!(parse_number(Some(&v)), Some(2.5f64.to_bits()));
    assert_eq!(f64::from_bits(parse_number(Some(&v)).unwrap()), 2.5);
    let w = Json::Str("-0.125".to_string());
    assert_eq!(f64::from_bits(parse_number(Some(&w)).unwrap()), -0.125);
}

#[test]
fn photo_link_depends_on_identifier() {
    let a = Json::Str("one".to_string());
    let b = Json::Str("two".to_string());
    let la = parse_photo(Some(&a), "http://b").unwrap();
    let lb = parse_photo(Some(&b), "http://b").unwrap();
    assert_eq!(la, "http://b/files/one");
    assert_eq!(lb, "http://b/files/two");
    assert_ne!(la, lb);
}

#[test]
fn fixed_timestamp_accepts_offsets() {
    let v = Json::Str("2024-01-15T05:30:00-05:00".to_string());
    assert_eq!(parse_fixed_timestamp(Some(&v)), Some(1705314600));
}

#[test]
fn point_decoder_on_built_values() {
    let good = obj(vec![("coordinates", Json::Arr(vec![num(1.0), num(2.0)]))]);
    assert_eq!(
        parse_point(Some(&good)),
        Some((1.0f64.to_bits(), 2.0f64.to_bits()))
    );
    let short = obj(vec![("coordinates", Json::Arr(vec![num(1.0)]))]);
    assert_eq!(parse_point(Some(&short)), None);
    let not_obj = Json::Arr(vec![num(1.0), num(2.0)]);
    assert_eq!(parse_point(Some(&not_obj)), None);
}

#[test]
fn line_decoder_drop_policy_on_built_values() {
    let g = obj(vec![(
        "coordinates",
        Json::Arr(vec![
            Json::Arr(vec![num(1.0), num(2.0)]),
            Json::Arr(vec![num(3.0)]),
            Json::Null,
            Json::Arr(vec![num(5.0), num(6.0)]),
        ]),
    )]);
    assert_eq!(
        parse_line(Some(&g)),
        Some(vec![
            (1.0f64.to_bits(), 2.0f64.to_bits()),
            (5.0f64.to_bits(), 6.0f64.to_bits())
        ])
    );
    assert_eq!(parse_line(Some(&obj(vec![]))), None);
}

#[test]
fn json_array_parser_reads_numbers_as_bits() {
    let items = parse_json_array(br#"[1.5, true, "s"]"#).unwrap();
    assert_eq!(items.len(), 3);
    match &items[0] {
        Json::Num(bits) => assert_eq!(f64::from_bits(*bits), 1.5),
        _ => panic!("expected a number"),
    }
    match &items[1] {
        Json::Bool(b) => assert!(*b),
        _ => panic!("expected a boolean"),
    }
    assert!(parse_json_array(br#"{"a":1}"#).is_none());
    assert!(parse_json_array(br#"[1,"#).is_none());
}

#[test]
fn json_text_parsers_agree_with_byte_parser() {
    let a = parse_json_array_text(r#"["x"]"#).unwrap();
    assert_eq!(a.len(), 1);
    match &a[0] {
        Json::Str(s) => assert_eq!(s, "x"),
        _ => panic!("expected a string"),
    }
    let o = parse_json_object_text(r#"{"k":"v"}"#).unwrap();
    assert_eq!(o.len(), 1);
    assert_eq!(o[0].0, "k");
    assert!(parse_json_object_text(r#"["k"]"#).is_none());
}

#[test]
fn nan_bits_denote_a_quiet_nan() {
    assert!(f64::from_bits(NAN_BITS).is_nan());
    assert_eq!(NAN_BITS, f64::NAN.to_bits());
}
