use socratadata::column::Column;
use socratadata::table::{parse_data_json, DecodeError};

fn col_len(c: &Column) -> usize {
    match c {
        Column::Boolean(v) => v.len(),
        Column::Number(v) => v.len(),
        Column::FixedTimestamp(v) => v.len(),
        Column::FloatingTimestamp(v) => v.len(),
        Column::Text(v) => v.len(),
        Column::Url((u, d)) => {
            assert_eq!(u.len(), d.len());
            u.len()
        }
        Column::Photo(v) => v.len(),
        Column::Document(v) => v.len(),
        Column::Point(v) => v.len(),
        Column::Line(v) => v.len(),
        Column::Polygon(v) => v.len(),
        Column::MultiPoint(v) => v.len(),
        Column::MultiLine(v) => v.len(),
        Column::MultiPolygon(v) => v.len(),
        Column::Location((c0, a, ci, st, z)) => {
            assert_eq!(c0.len(), a.len());
            assert_eq!(a.len(), ci.len());
            assert_eq!(ci.len(), st.len());
            assert_eq!(st.len(), z.len());
            c0.len()
        }
    }
}

#[test]
fn every_buffer_length_equals_row_count() {
    let payloads = vec![
        br#"[{"a":true,"b":"1"},{"a":false},{}]"#.to_vec(),
        br#"[{"c":"x"},{"b":"2.5"}]"#.to_vec(),
    ];
    let names = r#"["a","b","c","d","e"]"#;
    let types = r#"["boolean","number","text","url","location"]"#;
    let cols = parse_data_json(&payloads, names, types, "http://b", "UTC").unwrap();
    assert_eq!(cols.len(), 5);
    for c in &cols {
        assert_eq!(col_len(c), 5);
    }
}

#[test]
fn payload_order_then_array_order_is_kept() {
    let payloads = vec![
        br#"[{"s":"one"},{"s":"two"}]"#.to_vec(),
        br#"[{"s":"three"}]"#.to_vec(),
    ];
    let cols = parse_data_json(&payloads, r#"["s"]"#, r#"["text"]"#, "", "").unwrap();
    match &cols[0] {
        Column::Text(v) => {
            assert_eq!(
                v,
                &vec![
                    Some("one".to_string()),
                    Some("two".to_string()),
                    Some("three".to_string())
                ]
            );
        }
        _ => panic!("expected a text column"),
    }
}

#[test]
fn row_identifier_and_row_version_read_as_text() {
    let payloads = vec![br#"[{"i":"r1","v":"v1"}]"#.to_vec()];
    let cols = parse_data_json(
        &payloads,
        r#"["i","v"]"#,
        r#"["row_identifier","row_version"]"#,
        "",
        "",
    )
    .unwrap();
    for c in &cols {
        match c {
            Column::Text(_) => {}
            _ => panic!("aliases must resolve to text columns"),
        }
    }
}

#[test]
fn columns_pair_by_position_not_by_name() {
    let payloads = vec![br#"[{"a":"x","b":true}]"#.to_vec()];
    let cols = parse_data_json(&payloads, r#"["b","a"]"#, r#"["boolean","text"]"#, "", "")
        .unwrap();
    match (&cols[0], &cols[1]) {
        (Column::Boolean(b), Column::Text(t)) => {
            assert_eq!(b, &vec![Some(true)]);
            assert_eq!(t, &vec![Some("x".to_string())]);
        }
        _ => panic!("columns must follow the declared order"),
    }
}

#[test]
fn empty_inputs_give_empty_buffers() {
    let payloads: Vec<Vec<u8>> = vec![br#"[]"#.to_vec()];
    let cols = parse_data_json(&payloads, r#"["a"]"#, r#"["text"]"#, "", "").unwrap();
    assert_eq!(cols.len(), 1);
    assert_eq!(col_len(&cols[0]), 0);
    let no_payloads: Vec<Vec<u8>> = vec![];
    let cols2 = parse_data_json(&no_payloads, r#"["a"]"#, r#"["text"]"#, "", "").unwrap();
    assert_eq!(col_len(&cols2[0]), 0);
}

#[test]
fn malformed_name_header_is_fatal() {
    let payloads = vec![br#"[]"#.to_vec()];
    let r = parse_data_json(&payloads, "not json", r#"["text"]"#, "", "");
    assert_eq!(r.unwrap_err(), DecodeError::BadColumnNames);
    let r2 = parse_data_json(&payloads, r#"[1]"#, r#"["text"]"#, "", "");
    assert_eq!(r2.unwrap_err(), DecodeError::BadColumnNames);
}

#[test]
fn malformed_type_header_is_fatal() {
    let payloads = vec![br#"[]"#.to_vec()];
    let r = parse_data_json(&payloads, r#"["a"]"#, r#"{}"#, "", "");
    assert_eq!(r.unwrap_err(), DecodeError::BadColumnTypes);
    let r2 = parse_data_json(&payloads, r#"["a"]"#, r#"[null]"#, "", "");
    assert_eq!(r2.unwrap_err(), DecodeError::BadColumnTypes);
}

#[test]
fn header_length_mismatch_is_fatal() {
    let payloads = vec![br#"[]"#.to_vec()];
    let r = parse_data_json(&payloads, r#"["a","b"]"#, r#"["text"]"#, "", "");
    assert_eq!(r.unwrap_err(), DecodeError::ColumnCountMismatch);
}

#[test]
fn unknown_type_tag_is_fatal() {
    let payloads = vec![br#"[{"a":"x"}]"#.to_vec()];
    let r = parse_data_json(&payloads, r#"["a"]"#, r#"["banana"]"#, "", "");
    assert_eq!(r.unwrap_err(), DecodeError::UnknownColumnType);
}

#[test]
fn non_array_payload_is_fatal() {
    let payloads = vec![br#"{"a":"x"}"#.to_vec()];
    let r = parse_data_json(&payloads, r#"["a"]"#, r#"["text"]"#, "", "");
    assert_eq!(r.unwrap_err(), DecodeError::BadPayload);
}

#[test]
fn payload_with_non_object_row_is_fatal() {
    let payloads = vec![br#"[{"a":"x"}, 5]"#.to_vec()];
    let r = parse_data_json(&payloads, r#"["a"]"#, r#"["text"]"#, "", "");
    assert_eq!(r.unwrap_err(), DecodeError::BadPayload);
}

#[test]
fn one_bad_payload_among_many_is_fatal() {
    let payloads = vec![br#"[{"a":"x"}]"#.to_vec(), br#"broken"#.to_vec()];
    let r = parse_data_json(&payloads, r#"["a"]"#, r#"["text"]"#, "", "");
    assert_eq!(r.unwrap_err(), DecodeError::BadPayload);
}
