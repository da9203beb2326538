use socratadata::column::Column;
use socratadata::table::parse_data_json;

fn one_column(payload: &[u8], name: &str, ty: &str, base: &str, zone: &str) -> Column {
    let payloads = vec![payload.to_vec()];
    let names = format!("[\"{}\"]", name);
    let types = format!("[\"{}\"]", ty);
    let mut cols = parse_data_json(&payloads, &names, &types, base, zone).unwrap();
    assert_eq!(cols.len(), 1);
    cols.remove(0)
}

#[test]
fn boolean_passthrough_and_null() {
    let col = one_column(
        br#"[{"b":true},{"b":false},{"b":"true"},{"b":1},{}]"#,
        "b",
        "boolean",
        "",
        "",
    );
    match col {
        Column::Boolean(v) => {
            assert_eq!(v, vec![Some(true), Some(false), None, None, None]);
        }
        _ => panic!("expected a boolean column"),
    }
}

#[test]
fn number_parses_strings_only() {
    let col = one_column(
        br#"[{"n":"3.14"},{"n":3.14},{"n":"abc"},{"n":"1e3"},{}]"#,
        "n",
        "number",
        "",
        "",
    );
    match col {
        Column::Number(v) => {
            assert_eq!(
                v,
                vec![
                    Some(3.14f64.to_bits()),
                    None,
                    None,
                    Some(1000.0f64.to_bits()),
                    None
                ]
            );
        }
        _ => panic!("expected a number column"),
    }
}

#[test]
fn fixed_timestamp_truncates_subseconds() {
    let col = one_column(
        br#"[{"t":"2024-01-15T10:30:00Z"},{"t":"2024-01-15T10:30:00.999Z"},{"t":"not a date"},{}]"#,
        "t",
        "fixed_timestamp",
        "",
        "",
    );
    match col {
        Column::FixedTimestamp(v) => {
            assert_eq!(v, vec![Some(1705314600), Some(1705314600), None, None]);
        }
        _ => panic!("expected a fixed_timestamp column"),
    }
}

#[test]
fn floating_timestamp_resolves_in_utc() {
    let col = one_column(
        br#"[{"t":"2024-01-15T10:30:00.000"},{"t":"2024-01-15T10:30:00Z"},{}]"#,
        "t",
        "floating_timestamp",
        "",
        "UTC",
    );
    match col {
        Column::FloatingTimestamp(v) => {
            assert_eq!(v, vec![Some(1705314600), None, None]);
        }
        _ => panic!("expected a floating_timestamp column"),
    }
}

#[test]
fn floating_timestamp_named_zone() {
    let col = one_column(
        br#"[{"t":"2024-01-15T10:30:00.000"}]"#,
        "t",
        "floating_timestamp",
        "",
        "America/New_York",
    );
    match col {
        Column::FloatingTimestamp(v) => {
            assert_eq!(v, vec![Some(1705332600)]);
        }
        _ => panic!("expected a floating_timestamp column"),
    }
}

#[test]
fn floating_timestamp_dst_gap_and_fold_are_null() {
    // 02:30 does not exist on 2024-03-10 in New York; 01:30 happens twice
    // on 2024-11-03.
    let col = one_column(
        br#"[{"t":"2024-03-10T02:30:00.000"},{"t":"2024-11-03T01:30:00.000"}]"#,
        "t",
        "floating_timestamp",
        "",
        "America/New_York",
    );
    match col {
        Column::FloatingTimestamp(v) => {
            assert_eq!(v, vec![None, None]);
        }
        _ => panic!("expected a floating_timestamp column"),
    }
}

#[test]
fn floating_timestamp_unknown_zone_falls_back_to_utc() {
    let col = one_column(
        br#"[{"t":"2024-01-15T10:30:00.000"}]"#,
        "t",
        "floating_timestamp",
        "",
        "Nowhere/Imaginary",
    );
    match col {
        Column::FloatingTimestamp(v) => {
            assert_eq!(v, vec![Some(1705314600)]);
        }
        _ => panic!("expected a floating_timestamp column"),
    }
}

#[test]
fn text_passthrough_and_null() {
    let col = one_column(
        br#"[{"s":"hello"},{"s":5},{"s":null},{}]"#,
        "s",
        "text",
        "",
        "",
    );
    match col {
        Column::Text(v) => {
            assert_eq!(v, vec![Some("hello".to_string()), None, None, None]);
        }
        _ => panic!("expected a text column"),
    }
}

#[test]
fn url_fields_are_independent() {
    let col = one_column(
        br#"[{"u":{"url":"http://x","description":"d"}},{"u":{"url":"http://x"}},{"u":{"description":"d"}},{}]"#,
        "u",
        "url",
        "",
        "",
    );
    match col {
        Column::Url((urls, descs)) => {
            assert_eq!(
                urls,
                vec![Some("http://x".to_string()), Some("http://x".to_string()), None, None]
            );
            assert_eq!(
                descs,
                vec![Some("d".to_string()), None, Some("d".to_string()), None]
            );
        }
        _ => panic!("expected a url column"),
    }
}

#[test]
fn photo_builds_file_link() {
    let col = one_column(
        br#"[{"p":"abc-123"},{"p":7},{}]"#,
        "p",
        "photo",
        "https://example.test/api",
        "",
    );
    match col {
        Column::Photo(v) => {
            assert_eq!(
                v,
                vec![
                    Some("https://example.test/api/files/abc-123".to_string()),
                    None,
                    None
                ]
            );
        }
        _ => panic!("expected a photo column"),
    }
}

#[test]
fn document_builds_full_link() {
    let col = one_column(
        br#"[{"d":{"file_id":"f1","filename":"a.csv","content_type":"text/csv"}},{"d":{"file_id":"f2"}},{"d":{"filename":"a.csv"}},{"d":"f3"},{}]"#,
        "d",
        "document",
        "https://example.test",
        "",
    );
    match col {
        Column::Document(v) => {
            assert_eq!(
                v,
                vec![
                    Some(
                        "https://example.test/files/f1?filename=a.csv&content_type=text/csv"
                            .to_string()
                    ),
                    Some("https://example.test/files/f2?filename=&content_type=".to_string()),
                    None,
                    None,
                    None
                ]
            );
        }
        _ => panic!("expected a document column"),
    }
}

#[test]
fn point_requires_two_numbers() {
    let col = one_column(
        br#"[{"g":{"coordinates":[1.5,2.5]}},{"g":{"coordinates":[1]}},{"g":{"coordinates":[1,2,3]}},{"g":{"coordinates":["a",2]}},{"g":{}},{}]"#,
        "g",
        "point",
        "",
        "",
    );
    match col {
        Column::Point(v) => {
            assert_eq!(
                v,
                vec![
                    Some((1.5f64.to_bits(), 2.5f64.to_bits())),
                    None,
                    None,
                    None,
                    None,
                    None
                ]
            );
        }
        _ => panic!("expected a point column"),
    }
}

#[test]
fn line_drops_malformed_points() {
    let col = one_column(
        br#"[{"g":{"coordinates":[[1,2],[3],[5,6]]}},{"g":{}},{}]"#,
        "g",
        "line",
        "",
        "",
    );
    match col {
        Column::Line(v) => {
            assert_eq!(
                v,
                vec![
                    Some(vec![
                        (1.0f64.to_bits(), 2.0f64.to_bits()),
                        (5.0f64.to_bits(), 6.0f64.to_bits())
                    ]),
                    None,
                    None
                ]
            );
        }
        _ => panic!("expected a line column"),
    }
}

#[test]
fn multipoint_drops_malformed_points() {
    let col = one_column(
        br#"[{"g":{"coordinates":[[1,2],"x",[5,6,7],[8,9]]}}]"#,
        "g",
        "multipoint",
        "",
        "",
    );
    match col {
        Column::MultiPoint(v) => {
            assert_eq!(
                v,
                vec![Some(vec![
                    (1.0f64.to_bits(), 2.0f64.to_bits()),
                    (8.0f64.to_bits(), 9.0f64.to_bits())
                ])]
            );
        }
        _ => panic!("expected a multipoint column"),
    }
}

#[test]
fn polygon_keeps_malformed_points_as_nan() {
    let nan = socratadata::parse::NAN_BITS;
    let col = one_column(
        br#"[{"g":{"coordinates":[[[1,2],[3],[5,6]]]}}]"#,
        "g",
        "polygon",
        "",
        "",
    );
    match col {
        Column::Polygon(v) => {
            assert_eq!(
                v,
                vec![Some(vec![vec![
                    (1.0f64.to_bits(), 2.0f64.to_bits()),
                    (3.0f64.to_bits(), nan),
                    (5.0f64.to_bits(), 6.0f64.to_bits())
                ]])]
            );
            assert!(f64::from_bits(nan).is_nan());
        }
        _ => panic!("expected a polygon column"),
    }
}

#[test]
fn multiline_uses_nan_policy_not_drop_policy() {
    let nan = socratadata::parse::NAN_BITS;
    let col = one_column(
        br#"[{"g":{"coordinates":[[[1,2],[3]],5]}}]"#,
        "g",
        "multiline",
        "",
        "",
    );
    match col {
        Column::MultiLine(v) => {
            assert_eq!(
                v,
                vec![Some(vec![
                    vec![(1.0f64.to_bits(), 2.0f64.to_bits()), (3.0f64.to_bits(), nan)],
                    vec![]
                ])]
            );
        }
        _ => panic!("expected a multiline column"),
    }
}

#[test]
fn multipolygon_nested_nan_policy() {
    let nan = socratadata::parse::NAN_BITS;
    let col = one_column(
        br#"[{"g":{"coordinates":[[[[1,2],["x",4]]],[[[7,8]]]]}},{"g":{"coordinates":7}}]"#,
        "g",
        "multipolygon",
        "",
        "",
    );
    match col {
        Column::MultiPolygon(v) => {
            assert_eq!(
                v,
                vec![
                    Some(vec![
                        vec![vec![
                            (1.0f64.to_bits(), 2.0f64.to_bits()),
                            (nan, 4.0f64.to_bits())
                        ]],
                        vec![vec![(7.0f64.to_bits(), 8.0f64.to_bits())]]
                    ]),
                    None
                ]
            );
        }
        _ => panic!("expected a multipolygon column"),
    }
}

#[test]
fn location_coordinate_needs_both_string_ordinates() {
    let col = one_column(
        br#"[{"l":{"latitude":"40.7","longitude":"-74.0"}},{"l":{"latitude":"40.7"}},{"l":{"latitude":40.7,"longitude":-74.0}},{}]"#,
        "l",
        "location",
        "",
        "",
    );
    match col {
        Column::Location((coords, _, _, _, _)) => {
            assert_eq!(
                coords,
                vec![
                    Some(((-74.0f64).to_bits(), 40.7f64.to_bits())),
                    None,
                    None,
                    None
                ]
            );
        }
        _ => panic!("expected a location column"),
    }
}

#[test]
fn location_address_forms_agree() {
    let as_string = one_column(
        br#"[{"l":{"human_address":"{\"address\":\"1 Main St\",\"city\":\"Town\",\"state\":\"NY\",\"zip\":\"10001\"}"}}]"#,
        "l",
        "location",
        "",
        "",
    );
    let as_object = one_column(
        br#"[{"l":{"human_address":{"address":"1 Main St","city":"Town","state":"NY","zip":"10001"}}}]"#,
        "l",
        "location",
        "",
        "",
    );
    match (as_string, as_object) {
        (Column::Location(a), Column::Location(b)) => {
            assert_eq!(a.1, b.1);
            assert_eq!(a.2, b.2);
            assert_eq!(a.3, b.3);
            assert_eq!(a.4, b.4);
            assert_eq!(a.1, vec![Some("1 Main St".to_string())]);
            assert_eq!(a.2, vec![Some("Town".to_string())]);
            assert_eq!(a.3, vec![Some("NY".to_string())]);
            assert_eq!(a.4, vec![Some("10001".to_string())]);
        }
        _ => panic!("expected location columns"),
    }
}

#[test]
fn location_address_parts_independently_nullable() {
    let col = one_column(
        br#"[{"l":{"human_address":{"city":"Town"}}},{"l":{"human_address":"not json"}},{"l":{"human_address":5}}]"#,
        "l",
        "location",
        "",
        "",
    );
    match col {
        Column::Location((_, addrs, cities, states, zips)) => {
            assert_eq!(addrs, vec![None, None, None]);
            assert_eq!(cities, vec![Some("Town".to_string()), None, None]);
            assert_eq!(states, vec![None, None, None]);
            assert_eq!(zips, vec![None, None, None]);
        }
        _ => panic!("expected a location column"),
    }
}

#[test]
fn redecoding_identical_bytes_is_identical() {
    let payloads = vec![
        br#"[{"n":"1.5","s":"a","g":{"coordinates":[1,2]}},{"n":"x","g":{}}]"#.to_vec(),
    ];
    let names = r#"["n","s","g"]"#;
    let types = r#"["number","text","point"]"#;
    let first = parse_data_json(&payloads, names, types, "http://b", "UTC");
    let second = parse_data_json(&payloads, names, types, "http://b", "UTC");
    assert_eq!(first, second);
    assert!(first.is_ok());
}
