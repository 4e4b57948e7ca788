use cql_gateway::codec::{decode_native, encode_untyped, encode_value, parse_cql_value, ColumnKind, EncodeError};
use cql_gateway::value::{Native, Value};

#[test]
fn decode_scalars() {
    assert_eq!(decode_native(&Native::Int(42)).unwrap(), Value::Num(42));
    assert_eq!(
        decode_native(&Native::Text("hi".to_string())).unwrap(),
        Value::Str("hi".to_string())
    );
    assert_eq!(decode_native(&Native::Boolean(true)).unwrap(), Value::Bool(true));
    assert_eq!(decode_native(&Native::Empty).unwrap(), Value::Null);
    assert_eq!(decode_native(&Native::Other).unwrap(), Value::Null);
}

#[test]
fn decode_bigint_as_decimal_string() {
    assert_eq!(
        decode_native(&Native::BigInt(9007199254740993)).unwrap(),
        Value::Str("9007199254740993".to_string())
    );
    assert_eq!(
        decode_native(&Native::BigInt(-15)).unwrap(),
        Value::Str("-15".to_string())
    );
}

#[test]
fn decode_blob_as_utf8_text() {
    assert_eq!(
        decode_native(&Native::Blob(b"hello".to_vec())).unwrap(),
        Value::Str("hello".to_string())
    );
}

#[test]
fn decode_invalid_blob_fails() {
    assert!(decode_native(&Native::Blob(vec![0xff, 0xfe])).is_err());
}

#[test]
fn decode_timestamp_as_rfc3339_utc() {
    assert_eq!(
        decode_native(&Native::Timestamp(0)).unwrap(),
        Value::Date("1970-01-01T00:00:00+00:00".to_string())
    );
}

#[test]
fn decode_recurses_into_collections() {
    let native = Native::List(vec![
        Native::Int(1),
        Native::Mapping(vec![(Native::Text("k".to_string()), Native::Boolean(false))]),
    ]);
    let expected = Value::Array(vec![
        Value::Num(1),
        Value::Mapping(vec![(Value::Str("k".to_string()), Value::Bool(false))]),
    ]);
    assert_eq!(decode_native(&native).unwrap(), expected);
}

#[test]
fn absent_column_decodes_to_null() {
    assert_eq!(parse_cql_value(None).unwrap(), Value::Null);
    assert_eq!(parse_cql_value(Some(&Native::Int(7))).unwrap(), Value::Num(7));
}

#[test]
fn round_trip_mixed_array() {
    let original = Value::Array(vec![
        Value::Num(1),
        Value::Str("a".to_string()),
        Value::Null,
    ]);
    let encoded = encode_untyped(&original).unwrap();
    let decoded = decode_native(&encoded).unwrap();
    assert_eq!(decoded, original);
}

#[test]
fn round_trip_nested_map() {
    let original = Value::Mapping(vec![
        (Value::Num(3), Value::Array(vec![Value::Bool(true)])),
        (Value::Str("k".to_string()), Value::Null),
    ]);
    let encoded = encode_untyped(&original).unwrap();
    assert_eq!(decode_native(&encoded).unwrap(), original);
}

#[test]
fn round_trip_utc_date() {
    let original = Value::Date("2020-01-01T00:00:00+00:00".to_string());
    let encoded = encode_untyped(&original).unwrap();
    assert_eq!(encoded, Native::Timestamp(1577836800000));
    assert_eq!(decode_native(&encoded).unwrap(), original);
}

#[test]
fn offset_date_comes_back_as_utc() {
    // the same instant, written with a non-zero offset, re-renders as UTC
    let original = Value::Date("2020-01-01T01:00:00+01:00".to_string());
    let encoded = encode_untyped(&original).unwrap();
    assert_eq!(encoded, Native::Timestamp(1577836800000));
    assert_eq!(
        decode_native(&encoded).unwrap(),
        Value::Date("2020-01-01T00:00:00+00:00".to_string())
    );
}

#[test]
fn encode_unparsable_date_fails() {
    let r = encode_untyped(&Value::Date("yesterday".to_string()));
    match r {
        Err(EncodeError::BadDate { text }) => assert_eq!(text, "yesterday"),
        other => panic!("expected BadDate, got {:?}", other),
    }
}

#[test]
fn encode_against_matching_targets() {
    assert_eq!(
        encode_value(&Value::Str("s".to_string()), &ColumnKind::Text).unwrap(),
        Native::Text("s".to_string())
    );
    assert_eq!(
        encode_value(&Value::Num(5), &ColumnKind::Int).unwrap(),
        Native::Int(5)
    );
    assert_eq!(
        encode_value(&Value::Bool(false), &ColumnKind::Boolean).unwrap(),
        Native::Boolean(false)
    );
    let list = Value::Array(vec![Value::Num(1), Value::Num(2)]);
    assert_eq!(
        encode_value(&list, &ColumnKind::List(Box::new(ColumnKind::Int))).unwrap(),
        Native::List(vec![Native::Int(1), Native::Int(2)])
    );
}

#[test]
fn null_encodes_against_any_target() {
    assert_eq!(encode_value(&Value::Null, &ColumnKind::BigInt).unwrap(), Native::Empty);
    assert_eq!(encode_value(&Value::Null, &ColumnKind::Text).unwrap(), Native::Empty);
}

#[test]
fn encode_incompatible_names_both_kinds() {
    let r = encode_value(&Value::Str("s".to_string()), &ColumnKind::Int);
    match r {
        Err(EncodeError::Incompatible { value_kind, target_kind }) => {
            assert_eq!(value_kind, "string");
            assert_eq!(target_kind, "int");
        },
        other => panic!("expected Incompatible, got {:?}", other),
    }
}

#[test]
fn encode_incompatible_inside_a_list_names_the_clashing_pair() {
    let list = Value::Array(vec![Value::Num(1), Value::Str("s".to_string())]);
    let r = encode_value(&list, &ColumnKind::List(Box::new(ColumnKind::Int)));
    match r {
        Err(EncodeError::Incompatible { value_kind, target_kind }) => {
            assert_eq!(value_kind, "string");
            assert_eq!(target_kind, "int");
        },
        other => panic!("expected Incompatible, got {:?}", other),
    }
}

#[test]
fn decode_unrepresentable_timestamp_fails() {
    assert!(decode_native(&Native::Timestamp(i64::MAX)).is_err());
}

#[test]
fn decode_error_inside_a_list_fails_the_list() {
    let native = Native::List(vec![Native::Int(1), Native::Blob(vec![0x80])]);
    assert!(decode_native(&native).is_err());
}
