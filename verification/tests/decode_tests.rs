use influxdb::integrations::serde_integration::de::{decode_series_maps, decode_tagged_series_maps};
use influxdb::integrations::serde_integration::{parse_query_response, prepare_json_query};
use influxdb::{DecodeError, Error, FromObject, JsonValue, ObjectMap, ReadQuery};

#[derive(Debug, PartialEq)]
struct RecordAB {
    a: i64,
    b: String,
}

impl FromObject for RecordAB {
    fn from_object(obj: &ObjectMap<'_>) -> Option<Self> {
        let a = obj.get("a")?.as_i64()?;
        let b = obj.get("b")?.as_text()?.clone();
        Some(RecordAB { a, b })
    }
}

// The same shape with the fields declared in the opposite order: the
// decoder reads by column name, so declaration order must not matter.
#[derive(Debug, PartialEq)]
struct RecordBA {
    b: String,
    a: i64,
}

impl FromObject for RecordBA {
    fn from_object(obj: &ObjectMap<'_>) -> Option<Self> {
        let b = obj.get("b")?.as_text()?.clone();
        let a = obj.get("a")?.as_i64()?;
        Some(RecordBA { b, a })
    }
}

#[derive(Debug, PartialEq)]
struct Mixed {
    u: u64,
    i: i64,
    f: String,
    n_is_null: bool,
    t: bool,
}

impl FromObject for Mixed {
    fn from_object(obj: &ObjectMap<'_>) -> Option<Self> {
        let u = obj.get("u")?.as_u64()?;
        let i = obj.get("i")?.as_i64()?;
        let f = match obj.get("f")? {
            JsonValue::Float(text) => text.clone(),
            _ => return None,
        };
        let n_is_null = obj.get("n")?.is_null();
        let t = obj.get("t")?.as_bool()?;
        Some(Mixed { u, i, f, n_is_null, t })
    }
}

#[derive(Debug, PartialEq)]
struct CityTag {
    city: String,
}

impl FromObject for CityTag {
    fn from_object(obj: &ObjectMap<'_>) -> Option<Self> {
        let city = obj.get("city")?.as_text()?.clone();
        Some(CityTag { city })
    }
}

const PAYLOAD_AB: &str = r#"{"results":[{"statement_id":0,"series":[{"name":"s","columns":["a","b"],"values":[[1,"x"],[2,"y"]]}]}]}"#;

#[test]
fn test_decode_rows_regardless_of_field_order() {
    let mut result = parse_query_response(PAYLOAD_AB).unwrap();
    let ret = result.deserialize_next::<RecordAB>().unwrap();
    assert_eq!(ret.series.len(), 1);
    assert_eq!(ret.series[0].name, "s");
    assert_eq!(
        ret.series[0].values,
        vec![
            RecordAB { a: 1, b: "x".into() },
            RecordAB { a: 2, b: "y".into() },
        ]
    );

    let mut result = parse_query_response(PAYLOAD_AB).unwrap();
    let ret = result.deserialize_next::<RecordBA>().unwrap();
    assert_eq!(
        ret.series[0].values,
        vec![
            RecordBA { b: "x".into(), a: 1 },
            RecordBA { b: "y".into(), a: 2 },
        ]
    );
}

#[test]
fn test_values_before_columns_is_named_error() {
    let payload = r#"{"results":[{"series":[{"name":"s","values":[[1,"x"]],"columns":["a","b"]}]}]}"#;
    let mut result = parse_query_response(payload).unwrap();
    let err = result.deserialize_next::<RecordAB>().unwrap_err();
    assert_eq!(
        err,
        Error::DeserializationError {
            error: "could not deserialize: series values encountered before columns".into()
        }
    );
}

#[test]
fn test_empty_series_list_decodes_to_zero_series() {
    let payload = r#"{"results":[{"series":[]}]}"#;
    let mut result = parse_query_response(payload).unwrap();
    let ret = result.deserialize_next::<RecordAB>().unwrap();
    assert_eq!(ret.series.len(), 0);
}

#[test]
fn test_absent_series_decodes_to_zero_series() {
    let payload = r#"{"results":[{"statement_id":0}]}"#;
    let mut result = parse_query_response(payload).unwrap();
    let ret = result.deserialize_next::<RecordAB>().unwrap();
    assert_eq!(ret.series.len(), 0);
}

#[test]
fn test_absent_values_decode_to_zero_rows() {
    let payload = r#"{"results":[{"series":[{"name":"s","columns":["a","b"]}]}]}"#;
    let mut result = parse_query_response(payload).unwrap();
    let ret = result.deserialize_next::<RecordAB>().unwrap();
    assert_eq!(ret.series.len(), 1);
    assert_eq!(ret.series[0].values.len(), 0);
}

#[test]
fn test_database_error_payload_is_surfaced() {
    let err = parse_query_response(r#"{"error":"database not found"}"#).unwrap_err();
    assert_eq!(
        err,
        Error::DatabaseError {
            error: "database not found".into()
        }
    );
}

#[test]
fn test_invalid_json_is_deserialization_error() {
    let err = parse_query_response("this is not json").unwrap_err();
    assert!(matches!(err, Error::DeserializationError { .. }));
}

#[test]
fn test_missing_results_is_deserialization_error() {
    let err = parse_query_response(r#"{"outcome":[]}"#).unwrap_err();
    assert!(matches!(err, Error::DeserializationError { .. }));
}

#[test]
fn test_tagged_decode() {
    let payload = r#"{"results":[{"series":[{"name":"s","tags":{"city":"berlin"},"columns":["a","b"],"values":[[7,"z"]]}]}]}"#;
    let mut result = parse_query_response(payload).unwrap();
    let ret = result.deserialize_next_tagged::<CityTag, RecordAB>().unwrap();
    assert_eq!(ret.series.len(), 1);
    assert_eq!(ret.series[0].name, "s");
    assert_eq!(ret.series[0].tags, CityTag { city: "berlin".into() });
    assert_eq!(ret.series[0].values, vec![RecordAB { a: 7, b: "z".into() }]);
}

#[test]
fn test_tagged_decode_missing_tags_fails() {
    let mut result = parse_query_response(PAYLOAD_AB).unwrap();
    let err = result
        .deserialize_next_tagged::<CityTag, RecordAB>()
        .unwrap_err();
    assert_eq!(
        err,
        Error::DeserializationError {
            error: "could not deserialize: missing field tags".into()
        }
    );
}

#[test]
fn test_row_that_does_not_fit_the_record_fails() {
    let payload = r#"{"results":[{"series":[{"name":"s","columns":["a","b"],"values":[["oops","x"]]}]}]}"#;
    let mut result = parse_query_response(payload).unwrap();
    let err = result.deserialize_next::<RecordAB>().unwrap_err();
    assert_eq!(
        err,
        Error::DeserializationError {
            error: "could not deserialize: row did not match the target type".into()
        }
    );
}

#[test]
fn test_duplicate_series_field_is_an_error() {
    let series = JsonValue::Object(vec![
        ("name".to_string(), JsonValue::Text("s".to_string())),
        ("name".to_string(), JsonValue::Text("t".to_string())),
    ]);
    let err = decode_series_maps(&series).unwrap_err();
    assert_eq!(err, DecodeError::DuplicateField("name".to_string()));
}

#[test]
fn test_unknown_series_field_is_an_error() {
    let series = JsonValue::Object(vec![
        ("name".to_string(), JsonValue::Text("s".to_string())),
        ("extra".to_string(), JsonValue::Null),
    ]);
    let err = decode_series_maps(&series).unwrap_err();
    assert_eq!(err, DecodeError::UnknownField("extra".to_string()));
}

#[test]
fn test_missing_name_is_an_error() {
    let series = JsonValue::Object(vec![(
        "columns".to_string(),
        JsonValue::Array(vec![JsonValue::Text("a".to_string())]),
    )]);
    let err = decode_series_maps(&series).unwrap_err();
    assert_eq!(err, DecodeError::MissingName);
}

#[test]
fn test_short_row_is_an_error() {
    let series = JsonValue::Object(vec![
        ("name".to_string(), JsonValue::Text("s".to_string())),
        (
            "columns".to_string(),
            JsonValue::Array(vec![
                JsonValue::Text("a".to_string()),
                JsonValue::Text("b".to_string()),
            ]),
        ),
        (
            "values".to_string(),
            JsonValue::Array(vec![JsonValue::Array(vec![JsonValue::Int(1)])]),
        ),
    ]);
    let err = decode_series_maps(&series).unwrap_err();
    assert_eq!(err, DecodeError::RowTooShort);
}

#[test]
fn test_bad_columns_is_an_error() {
    let series = JsonValue::Object(vec![
        ("name".to_string(), JsonValue::Text("s".to_string())),
        (
            "columns".to_string(),
            JsonValue::Array(vec![JsonValue::Int(1)]),
        ),
    ]);
    let err = decode_series_maps(&series).unwrap_err();
    assert_eq!(err, DecodeError::BadColumns);
}

#[test]
fn test_remaining_decode_error_shapes() {
    let err = decode_series_maps(&JsonValue::Int(1)).unwrap_err();
    assert_eq!(err, DecodeError::NotAnObject);

    let bad_name = JsonValue::Object(vec![("name".to_string(), JsonValue::Int(1))]);
    assert_eq!(decode_series_maps(&bad_name).unwrap_err(), DecodeError::BadName);

    let bad_values = JsonValue::Object(vec![
        ("name".to_string(), JsonValue::Text("s".to_string())),
        ("columns".to_string(), JsonValue::Array(vec![JsonValue::Text("a".to_string())])),
        ("values".to_string(), JsonValue::Int(1)),
    ]);
    assert_eq!(decode_series_maps(&bad_values).unwrap_err(), DecodeError::BadValues);

    let row_not_array = JsonValue::Object(vec![
        ("name".to_string(), JsonValue::Text("s".to_string())),
        ("columns".to_string(), JsonValue::Array(vec![JsonValue::Text("a".to_string())])),
        ("values".to_string(), JsonValue::Array(vec![JsonValue::Int(1)])),
    ]);
    assert_eq!(decode_series_maps(&row_not_array).unwrap_err(), DecodeError::RowNotArray);

    let bad_tags = JsonValue::Object(vec![
        ("name".to_string(), JsonValue::Text("s".to_string())),
        ("tags".to_string(), JsonValue::Int(1)),
    ]);
    assert_eq!(decode_tagged_series_maps(&bad_tags).unwrap_err(), DecodeError::BadTags);

    let long_row = JsonValue::Object(vec![
        ("name".to_string(), JsonValue::Text("s".to_string())),
        ("columns".to_string(), JsonValue::Array(vec![JsonValue::Text("a".to_string())])),
        (
            "values".to_string(),
            JsonValue::Array(vec![JsonValue::Array(vec![
                JsonValue::Int(1),
                JsonValue::Int(2),
            ])]),
        ),
    ]);
    assert_eq!(decode_series_maps(&long_row).unwrap_err(), DecodeError::RowTooLong);
}

#[test]
fn test_tagged_absent_values_decodes_to_zero_rows() {
    let payload = r#"{"results":[{"series":[{"name":"s","tags":{"city":"berlin"},"columns":["a","b"]}]}]}"#;
    let mut result = parse_query_response(payload).unwrap();
    let ret = result.deserialize_next_tagged::<CityTag, RecordAB>().unwrap();
    assert_eq!(ret.series.len(), 1);
    assert_eq!(ret.series[0].tags, CityTag { city: "berlin".into() });
    assert_eq!(ret.series[0].values.len(), 0);

    let series = JsonValue::Object(vec![
        ("name".to_string(), JsonValue::Text("s".to_string())),
        ("tags".to_string(), JsonValue::Object(vec![])),
        ("columns".to_string(), JsonValue::Array(vec![JsonValue::Text("a".to_string())])),
    ]);
    let decoded = decode_tagged_series_maps(&series).unwrap();
    assert_eq!(decoded.values.len(), 0);
}

#[test]
fn test_series_must_be_an_array() {
    let payload = r#"{"results":[{"series":5}]}"#;
    let mut result = parse_query_response(payload).unwrap();
    let err = result.deserialize_next::<RecordAB>().unwrap_err();
    assert_eq!(
        err,
        Error::DeserializationError {
            error: "could not deserialize: series must be an array".into()
        }
    );
}

#[test]
fn test_decode_series_maps_pairs_header_with_row() {
    let series = JsonValue::Object(vec![
        ("name".to_string(), JsonValue::Text("s".to_string())),
        (
            "columns".to_string(),
            JsonValue::Array(vec![
                JsonValue::Text("a".to_string()),
                JsonValue::Text("b".to_string()),
            ]),
        ),
        (
            "values".to_string(),
            JsonValue::Array(vec![JsonValue::Array(vec![
                JsonValue::Int(1),
                JsonValue::Text("x".to_string()),
            ])]),
        ),
    ]);
    let decoded = decode_series_maps(&series).unwrap();
    assert_eq!(decoded.name, "s");
    assert_eq!(decoded.values.len(), 1);
    let row = &decoded.values[0];
    assert_eq!(row.len(), 2);
    assert_eq!(row.get("a").unwrap().as_i64(), Some(1));
    assert_eq!(row.get("b").unwrap().as_text().map(String::as_str), Some("x"));
    assert!(row.get("c").is_none());
}

#[test]
fn test_decode_tagged_series_maps_reads_tags() {
    let series = JsonValue::Object(vec![
        ("name".to_string(), JsonValue::Text("s".to_string())),
        (
            "tags".to_string(),
            JsonValue::Object(vec![(
                "city".to_string(),
                JsonValue::Text("berlin".to_string()),
            )]),
        ),
        (
            "columns".to_string(),
            JsonValue::Array(vec![JsonValue::Text("a".to_string())]),
        ),
        (
            "values".to_string(),
            JsonValue::Array(vec![JsonValue::Array(vec![JsonValue::Int(3)])]),
        ),
    ]);
    let decoded = decode_tagged_series_maps(&series).unwrap();
    assert_eq!(decoded.name, "s");
    assert_eq!(
        decoded.tags.get("city").unwrap().as_text().map(String::as_str),
        Some("berlin")
    );
    assert_eq!(decoded.values[0].get("a").unwrap().as_i64(), Some(3));
}

#[test]
fn test_number_kinds_survive_parsing() {
    let payload = r#"{"results":[{"series":[{"name":"s","columns":["u","i","f","n","t"],"values":[[18446744073709551615,-5,2.5,null,true]]}]}]}"#;
    let mut result = parse_query_response(payload).unwrap();
    let ret = result.deserialize_next::<Mixed>().unwrap();
    assert_eq!(
        ret.series[0].values,
        vec![Mixed {
            u: u64::MAX,
            i: -5,
            f: "2.5".to_string(),
            n_is_null: true,
            t: true,
        }]
    );
}

#[test]
fn test_multi_statement_results_decode_in_turn() {
    let payload = r#"{"results":[{"series":[{"name":"one","columns":["a","b"],"values":[[1,"x"]]}]},{"series":[{"name":"two","columns":["a","b"],"values":[[2,"y"]]}]}]}"#;
    let mut result = parse_query_response(payload).unwrap();
    let first = result.deserialize_next::<RecordAB>().unwrap();
    assert_eq!(first.series[0].name, "one");
    let second = result.deserialize_next::<RecordAB>().unwrap();
    assert_eq!(second.series[0].name, "two");
    assert!(result.results.is_empty());
}

#[test]
fn test_prepare_json_query_accepts_select_and_show() {
    let text = prepare_json_query(&ReadQuery::new("SELECT * FROM weather")).unwrap();
    assert_eq!(text, "SELECT * FROM weather");

    let text = prepare_json_query(&ReadQuery::new("ShOw MeAsUrEmEnTs")).unwrap();
    assert_eq!(text, "ShOw MeAsUrEmEnTs");
}

#[test]
fn test_prepare_json_query_refuses_other_statements() {
    let err = prepare_json_query(&ReadQuery::new("DROP MEASUREMENT weather")).unwrap_err();
    assert_eq!(
        err,
        Error::InvalidQueryError {
            error: "Only SELECT and SHOW queries supported with JSON deserialization".into()
        }
    );
}
