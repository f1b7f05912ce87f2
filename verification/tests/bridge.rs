use memori_storage::bridge::{callback_result, conn_id_of, host_answer, rows_of, CallbackEvent};
use memori_storage::json::{JsonNumber, JsonValue};

fn num(n: i64) -> JsonValue {
    JsonValue::Number(JsonNumber {
        int: Some(n),
        uint: if n >= 0 { Some(n as u64) } else { None },
        float_to_int: n as f64 as i64,
        float_to_single: (n as f64 as f32).to_bits(),
    })
}

fn obj(fields: Vec<(&str, JsonValue)>) -> JsonValue {
    JsonValue::Object(fields.into_iter().map(|(k, v)| (k.to_string(), v)).collect())
}

fn s(v: &str) -> JsonValue {
    JsonValue::Str(v.to_string())
}

#[test]
fn error_answers_become_errors() {
    let e = host_answer(obj(vec![("error", obj(vec![("code", s("23505")), ("message", s("duplicate"))]))])).unwrap_err();
    assert_eq!(e.code, "23505");
    assert_eq!(e.message, "duplicate");
    let e = host_answer(obj(vec![("error", JsonValue::Null)])).unwrap_err();
    assert_eq!(e.code, "ERR");
    assert_eq!(e.message, "unknown error");
}

#[test]
fn other_answers_pass_through() {
    let v = host_answer(obj(vec![("ok", JsonValue::Bool(true))])).unwrap();
    assert!(matches!(v, JsonValue::Object(ref f) if f.len() == 1));
    assert!(matches!(host_answer(num(3)), Ok(JsonValue::Number(_))));
}

#[test]
fn acquire_answers_carry_a_connection_id() {
    assert_eq!(conn_id_of(&obj(vec![("conn_id", num(12))])).unwrap(), 12);
    assert_eq!(conn_id_of(&obj(vec![("conn_id", num(4294967297))])).unwrap(), 1);
    let e = conn_id_of(&obj(vec![("conn_id", num(-1))])).unwrap_err();
    assert_eq!(e.code, "NAPI_ERR");
    assert_eq!(e.message, "acquire returned no conn_id");
    assert!(conn_id_of(&obj(vec![])).is_err());
}

#[test]
fn execute_answers_carry_rows() {
    let rows = rows_of(obj(vec![("rows", JsonValue::Array(vec![num(1), num(2)]))])).unwrap();
    assert_eq!(rows.len(), 2);
    let e = rows_of(obj(vec![("rows", num(1))])).unwrap_err();
    assert_eq!(e.message, "execute response missing rows array");
    assert!(rows_of(JsonValue::Null).is_err());
}

#[test]
fn calls_without_an_answer_fail() {
    let e = callback_result(CallbackEvent::NotQueued).unwrap_err();
    assert_eq!((e.code.as_str(), e.message.as_str()), ("NAPI_ERR", "failed to queue JS storage callback"));
    let e = callback_result(CallbackEvent::Dropped).unwrap_err();
    assert_eq!((e.code.as_str(), e.message.as_str()), ("NAPI_ERR", "storage channel dropped"));
    let e = callback_result(CallbackEvent::TimedOut).unwrap_err();
    assert_eq!((e.code.as_str(), e.message.as_str()), ("TIMEOUT", "storage JS callback did not respond within 30s"));
}

#[test]
fn answered_calls_are_read_as_answers() {
    let e = callback_result(CallbackEvent::Answered(obj(vec![("error", obj(vec![("message", s("boom"))]))]))).unwrap_err();
    assert_eq!((e.code.as_str(), e.message.as_str()), ("ERR", "boom"));
    assert!(matches!(callback_result(CallbackEvent::Answered(num(5))), Ok(JsonValue::Number(_))));
}
