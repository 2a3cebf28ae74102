use pgoutput_decoder::values::{convert_pg_value, PgValue};

#[test]
fn bool_conversion() {
    assert!(matches!(convert_pg_value(Some(b"t"), 16), PgValue::Bool(true)));
    assert!(matches!(convert_pg_value(Some(b"true"), 16), PgValue::Bool(true)));
    assert!(matches!(convert_pg_value(Some(b"1"), 16), PgValue::Bool(true)));
    assert!(matches!(convert_pg_value(Some(b"f"), 16), PgValue::Bool(false)));
    assert!(matches!(convert_pg_value(Some(b"yes"), 16), PgValue::Bool(false)));
}

#[test]
fn null_conversion() {
    assert!(matches!(convert_pg_value(None, 23), PgValue::Null));
    assert!(matches!(convert_pg_value(None, 25), PgValue::Null));
}

#[test]
fn int_conversion_and_lossy_default() {
    assert!(matches!(convert_pg_value(Some(b"42"), 21), PgValue::Int(42)));
    assert!(matches!(convert_pg_value(Some(b"-7"), 23), PgValue::Int(-7)));
    assert!(matches!(convert_pg_value(Some(b"+5"), 20), PgValue::Int(5)));
    // out of the i16 range: falls back to zero, as the host binding did
    assert!(matches!(convert_pg_value(Some(b"40000"), 21), PgValue::Int(0)));
    assert!(matches!(convert_pg_value(Some(b"32767"), 21), PgValue::Int(32767)));
    assert!(matches!(convert_pg_value(Some(b"-32768"), 21), PgValue::Int(-32768)));
    assert!(matches!(
        convert_pg_value(Some(b"9223372036854775807"), 20),
        PgValue::Int(i64::MAX)
    ));
    assert!(matches!(
        convert_pg_value(Some(b"-9223372036854775808"), 20),
        PgValue::Int(i64::MIN)
    ));
    assert!(matches!(
        convert_pg_value(Some(b"9223372036854775808"), 20),
        PgValue::Int(0)
    ));
    assert!(matches!(convert_pg_value(Some(b"12a"), 23), PgValue::Int(0)));
    assert!(matches!(convert_pg_value(Some(b""), 23), PgValue::Int(0)));
}

#[test]
fn text_conversion() {
    match convert_pg_value(Some(b"hello"), 25) {
        PgValue::Text(s) => assert_eq!(s, "hello"),
        other => panic!("expected Text, got {:?}", kind_of(&other)),
    }
    // an unknown oid reads as text
    match convert_pg_value(Some(b"2024-01-01"), 1082) {
        PgValue::Text(s) => assert_eq!(s, "2024-01-01"),
        _ => panic!("expected Text"),
    }
    match convert_pg_value(Some(b"whatever"), 99999) {
        PgValue::Text(s) => assert_eq!(s, "whatever"),
        _ => panic!("expected Text"),
    }
    // invalid UTF-8 falls back to empty text
    match convert_pg_value(Some(&[0xFF, 0xFE]), 25) {
        PgValue::Text(s) => assert_eq!(s, ""),
        _ => panic!("expected Text"),
    }
}

#[test]
fn numeric_keeps_text() {
    match convert_pg_value(Some(b"3.14"), 1700) {
        PgValue::Numeric(s) => assert_eq!(s, "3.14"),
        _ => panic!("expected Numeric"),
    }
    match convert_pg_value(Some(b"1.5"), 700) {
        PgValue::Numeric(s) => assert_eq!(s, "1.5"),
        _ => panic!("expected Numeric"),
    }
}

#[test]
fn bytea_hex_decoding() {
    // the \x prefix decodes through the hex codec: the result differs from
    // the input bytes
    match convert_pg_value(Some(b"\\x0102ff"), 17) {
        PgValue::Bytes(b) => assert_eq!(b, vec![0x01, 0x02, 0xFF]),
        _ => panic!("expected Bytes"),
    }
    match convert_pg_value(Some(b"\\x0102FF"), 17) {
        PgValue::Bytes(b) => assert_eq!(b, vec![0x01, 0x02, 0xFF]),
        _ => panic!("expected Bytes"),
    }
    // bad hex keeps the raw bytes
    match convert_pg_value(Some(b"\\xzz"), 17) {
        PgValue::Bytes(b) => assert_eq!(b, b"\\xzz".to_vec()),
        _ => panic!("expected Bytes"),
    }
    // odd length keeps the raw bytes
    match convert_pg_value(Some(b"\\x123"), 17) {
        PgValue::Bytes(b) => assert_eq!(b, b"\\x123".to_vec()),
        _ => panic!("expected Bytes"),
    }
    // no prefix keeps the raw bytes
    match convert_pg_value(Some(b"raw"), 17) {
        PgValue::Bytes(b) => assert_eq!(b, b"raw".to_vec()),
        _ => panic!("expected Bytes"),
    }
}

#[test]
fn json_parses_through_the_json_codec() {
    match convert_pg_value(Some(b"{\"a\": 1}"), 114) {
        PgValue::Json(v) => {
            assert_eq!(v["a"].as_i64(), Some(1));
        }
        _ => panic!("expected Json"),
    }
    match convert_pg_value(Some(b"[1, 2]"), 3802) {
        PgValue::Json(v) => {
            let items = v.as_array().expect("an array document");
            assert_eq!(items.len(), 2);
            assert_eq!(items[0].as_i64(), Some(1));
            assert_eq!(items[1].as_i64(), Some(2));
        }
        _ => panic!("expected Json"),
    }
    // text that is not JSON stays text
    match convert_pg_value(Some(b"not json"), 114) {
        PgValue::Text(s) => assert_eq!(s, "not json"),
        _ => panic!("expected Text"),
    }
}

#[test]
fn array_conversion() {
    match convert_pg_value(Some(b"{1,2,NULL}"), 1007) {
        PgValue::Array(items) => {
            assert_eq!(items.len(), 3);
            assert!(matches!(&items[0], PgValue::Text(s) if s == "1"));
            assert!(matches!(&items[1], PgValue::Text(s) if s == "2"));
            assert!(matches!(&items[2], PgValue::Null));
        }
        _ => panic!("expected Array"),
    }
    match convert_pg_value(Some(b"{\"a b\", c }"), 1009) {
        PgValue::Array(items) => {
            assert_eq!(items.len(), 2);
            assert!(matches!(&items[0], PgValue::Text(s) if s == "a b"));
            assert!(matches!(&items[1], PgValue::Text(s) if s == "c"));
        }
        _ => panic!("expected Array"),
    }
    match convert_pg_value(Some(b"{}"), 1007) {
        PgValue::Array(items) => assert!(items.is_empty()),
        _ => panic!("expected Array"),
    }
    // no braces falls back to text
    match convert_pg_value(Some(b"plain"), 1007) {
        PgValue::Text(s) => assert_eq!(s, "plain"),
        _ => panic!("expected Text"),
    }
    // a typed oid inside the array block is not an array
    match convert_pg_value(Some(b"{x}"), 1042) {
        PgValue::Text(s) => assert_eq!(s, "{x}"),
        _ => panic!("expected Text"),
    }
}

fn kind_of(v: &PgValue) -> &'static str {
    match v {
        PgValue::Null => "Null",
        PgValue::Bool(_) => "Bool",
        PgValue::Int(_) => "Int",
        PgValue::Text(_) => "Text",
        PgValue::Numeric(_) => "Numeric",
        PgValue::Bytes(_) => "Bytes",
        PgValue::Json(_) => "Json",
        PgValue::Array(_) => "Array",
    }
}
