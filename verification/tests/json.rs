use memori_storage::connection::{read_id, SqlBind};
use memori_storage::drivers::embedding_to_bytes;
use memori_storage::json::{fact_id_from_json, parse_i64, JsonNumber, JsonValue};
use memori_storage::models::FactId;

fn num(n: i64) -> JsonValue {
    JsonValue::Number(JsonNumber {
        int: Some(n),
        uint: if n >= 0 { Some(n as u64) } else { None },
        float_to_int: n as f64 as i64,
        float_to_single: (n as f64 as f32).to_bits(),
    })
}

fn float(f: f64) -> JsonValue {
    JsonValue::Number(JsonNumber { int: None, uint: None, float_to_int: f as i64, float_to_single: (f as f32).to_bits() })
}

fn obj(fields: Vec<(&str, JsonValue)>) -> JsonValue {
    JsonValue::Object(fields.into_iter().map(|(k, v)| (k.to_string(), v)).collect())
}

fn s(v: &str) -> JsonValue {
    JsonValue::Str(v.to_string())
}

#[test]
fn read_id_takes_integers() {
    assert_eq!(read_id(&obj(vec![("id", num(42))]), "id"), Some(42));
    assert_eq!(read_id(&obj(vec![("id", num(-3))]), "id"), Some(-3));
}

#[test]
fn read_id_parses_decimal_strings() {
    assert_eq!(read_id(&obj(vec![("id", s("9007199254740993"))]), "id"), Some(9007199254740993));
    assert_eq!(read_id(&obj(vec![("id", s("-17"))]), "id"), Some(-17));
    assert_eq!(read_id(&obj(vec![("id", s("+8"))]), "id"), Some(8));
    assert_eq!(read_id(&obj(vec![("id", s("12a"))]), "id"), None);
    assert_eq!(read_id(&obj(vec![("id", s(""))]), "id"), None);
    assert_eq!(read_id(&obj(vec![("id", s("-"))]), "id"), None);
    assert_eq!(read_id(&obj(vec![("id", s(" 1"))]), "id"), None);
}

#[test]
fn read_id_truncates_other_numbers() {
    assert_eq!(read_id(&obj(vec![("id", float(7.9))]), "id"), Some(7));
    assert_eq!(read_id(&obj(vec![("id", float(-2.5))]), "id"), Some(-2));
}

#[test]
fn read_id_misses_absent_and_other_values() {
    assert_eq!(read_id(&obj(vec![("num", num(1))]), "id"), None);
    assert_eq!(read_id(&obj(vec![("id", JsonValue::Null)]), "id"), None);
    assert_eq!(read_id(&obj(vec![("id", JsonValue::Bool(true))]), "id"), None);
    assert_eq!(read_id(&num(5), "id"), None);
}

#[test]
fn read_id_uses_the_first_field_of_a_name() {
    assert_eq!(read_id(&obj(vec![("id", num(1)), ("id", num(2))]), "id"), Some(1));
}

#[test]
fn parse_i64_follows_std() {
    for text in ["0", "123", "-9223372036854775808", "9223372036854775807", "+0", "007"] {
        assert_eq!(parse_i64(text), text.parse::<i64>().ok(), "{text}");
    }
    for text in ["9223372036854775808", "-9223372036854775809", "99999999999999999999", "--1", "1.0", "１"] {
        assert_eq!(parse_i64(text), None, "{text}");
        assert!(text.parse::<i64>().is_err());
    }
}

#[test]
fn fact_ids_from_json() {
    assert!(matches!(fact_id_from_json(&num(12)), Some(FactId::Int(12))));
    assert!(matches!(fact_id_from_json(&s("f-1")), Some(FactId::String(ref t)) if t == "f-1"));
    assert!(fact_id_from_json(&float(1.5)).is_none());
    assert!(fact_id_from_json(&JsonValue::Null).is_none());
}

#[test]
fn bytes_binds_are_base64() {
    assert!(matches!(SqlBind::bytes(&[1, 2, 3]), SqlBind::Bytes(ref t) if t == "AQID"));
    assert!(matches!(SqlBind::bytes(b"hello"), SqlBind::Bytes(ref t) if t == "aGVsbG8="));
    assert!(matches!(SqlBind::bytes(&[]), SqlBind::Bytes(ref t) if t.is_empty()));
}

#[test]
fn optional_binds() {
    assert!(matches!(SqlBind::id_or_null(Some(4)), SqlBind::Int(4)));
    assert!(matches!(SqlBind::id_or_null(None), SqlBind::Null));
    assert!(matches!(SqlBind::text_or_null(Some("x")), SqlBind::Text(ref t) if t == "x"));
    assert!(matches!(SqlBind::text_or_null(None), SqlBind::Null));
}

#[test]
fn embeddings_are_little_endian_f32() {
    let bits = vec![1.0f32.to_bits(), (-2.5f32).to_bits()];
    let bytes = embedding_to_bytes(&bits);
    let mut expected = Vec::new();
    expected.extend_from_slice(&1.0f32.to_le_bytes());
    expected.extend_from_slice(&(-2.5f32).to_le_bytes());
    assert_eq!(bytes, expected);
    assert_eq!(embedding_to_bytes(&vec![]), Vec::<u8>::new());
}
