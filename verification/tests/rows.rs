use cql_gateway::envelope::decode_rows;
use cql_gateway::value::{Native, Value};

#[test]
fn rows_pair_each_column_name_with_its_decoded_value() {
    let names = vec!["id".to_string(), "name".to_string(), "age".to_string()];
    let rows = vec![
        vec![
            Some(Native::BigInt(5)),
            Some(Native::Text("ada".to_string())),
            Some(Native::Int(36)),
        ],
        vec![Some(Native::BigInt(6)), None, Some(Native::Int(41))],
    ];
    let out = decode_rows(&names, rows).unwrap();
    assert_eq!(out.len(), 2);
    assert_eq!(
        out[0],
        vec![
            ("id".to_string(), Value::Str("5".to_string())),
            ("name".to_string(), Value::Str("ada".to_string())),
            ("age".to_string(), Value::Num(36)),
        ]
    );
    // an absent column decodes to Null
    assert_eq!(out[1][1], ("name".to_string(), Value::Null));
}

#[test]
fn no_rows_decode_to_no_rows() {
    let names = vec!["id".to_string()];
    let out = decode_rows(&names, Vec::new()).unwrap();
    assert!(out.is_empty());
}

#[test]
fn an_invalid_blob_cell_fails_the_decode() {
    let names = vec!["data".to_string()];
    let rows = vec![vec![Some(Native::Blob(vec![0xc0]))]];
    assert!(decode_rows(&names, rows).is_err());
}
