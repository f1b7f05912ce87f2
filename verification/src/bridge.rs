//! How the storage layer reads the JavaScript host's answers to its
//! requests: an answer with an `error` object is that error; `acquire`
//! answers with a connection id, `execute` with rows.

use vstd::prelude::*;

use crate::json::{JsonValue, json_array_field, json_get, json_str_or, lookup_field};
use crate::models::{ErrorView, HostStorageError};

verus! {

pub const DEFAULT_ERROR_CODE: &'static str = "ERR";
pub const DEFAULT_ERROR_MESSAGE: &'static str = "unknown error";
pub const NAPI_ERROR_CODE: &'static str = "NAPI_ERR";
pub const NO_CONN_ID_MESSAGE: &'static str = "acquire returned no conn_id";
pub const NO_ROWS_MESSAGE: &'static str = "execute response missing rows array";
pub const NOT_QUEUED_MESSAGE: &'static str = "failed to queue JS storage callback";
pub const DROPPED_MESSAGE: &'static str = "storage channel dropped";
pub const TIMEOUT_CODE: &'static str = "TIMEOUT";
pub const TIMEOUT_MESSAGE: &'static str = "storage JS callback did not respond within 30s";

/// How a call into the JavaScript host ended.
#[derive(Debug)]
pub enum CallbackEvent {
    /// The callback could not be queued (it is closing or was shut down).
    NotQueued,
    /// The host resolved the call with this answer.
    Answered(JsonValue),
    /// The call was dropped without an answer.
    Dropped,
    /// No answer came within the time limit.
    TimedOut,
}

/// What a call into the host gives: the answer read by [`host_answer`], or
/// the error for a call that got none.
pub open spec fn callback_result_spec(ev: CallbackEvent) -> Result<JsonValue, ErrorView> {
    match ev {
        CallbackEvent::NotQueued => Err(ErrorView { code: NAPI_ERROR_CODE@, message: NOT_QUEUED_MESSAGE@ }),
        CallbackEvent::Answered(answer) => match host_error_spec(answer) {
            Some(e) => Err(e),
            None => Ok(answer),
        },
        CallbackEvent::Dropped => Err(ErrorView { code: NAPI_ERROR_CODE@, message: DROPPED_MESSAGE@ }),
        CallbackEvent::TimedOut => Err(ErrorView { code: TIMEOUT_CODE@, message: TIMEOUT_MESSAGE@ }),
    }
}

pub fn callback_result(ev: CallbackEvent) -> (r: Result<JsonValue, HostStorageError>)
    ensures
        match callback_result_spec(ev) {
            Ok(answer) => r == Ok::<JsonValue, HostStorageError>(answer),
            Err(e) => r matches Err(x) && x.deep_view() == e,
        },
{
    match ev {
        CallbackEvent::NotQueued => Err(
            HostStorageError::new(String::from_str(NAPI_ERROR_CODE), String::from_str(NOT_QUEUED_MESSAGE)),
        ),
        CallbackEvent::Answered(answer) => host_answer(answer),
        CallbackEvent::Dropped => Err(
            HostStorageError::new(String::from_str(NAPI_ERROR_CODE), String::from_str(DROPPED_MESSAGE)),
        ),
        CallbackEvent::TimedOut => Err(
            HostStorageError::new(String::from_str(TIMEOUT_CODE), String::from_str(TIMEOUT_MESSAGE)),
        ),
    }
}

/// The error an answer carries, if it has an `error` field: its `code`
/// (default `ERR`) and `message` (default `unknown error`).
pub open spec fn host_error_spec(answer: JsonValue) -> Option<ErrorView> {
    match json_get(answer, "error"@) {
        Some(err) => Some(
            ErrorView {
                code: json_str_or(err, "code"@, DEFAULT_ERROR_CODE@),
                message: json_str_or(err, "message"@, DEFAULT_ERROR_MESSAGE@),
            },
        ),
        None => None,
    }
}

/// Reads a host answer: the error it reports, or the answer itself.
pub fn host_answer(answer: JsonValue) -> (r: Result<JsonValue, HostStorageError>)
    ensures
        match host_error_spec(answer) {
            Some(e) => r matches Err(x) && x.deep_view() == e,
            None => r == Ok::<JsonValue, HostStorageError>(answer),
        },
{
    if let Some(err) = answer.get("error") {
        let code = err.str_field_or("code", DEFAULT_ERROR_CODE);
        let message = err.str_field_or("message", DEFAULT_ERROR_MESSAGE);
        return Err(HostStorageError::new(code, message));
    }
    Ok(answer)
}

/// The connection id of an `acquire` answer: its `conn_id` as an unsigned
/// integer, truncated to 32 bits.
pub open spec fn conn_id_spec(answer: JsonValue) -> Option<u32> {
    match json_get(answer, "conn_id"@) {
        Some(JsonValue::Number(n)) => match n.uint {
            Some(u) => Some(u as u32),
            None => None,
        },
        _ => None,
    }
}

pub fn conn_id_of(answer: &JsonValue) -> (r: Result<u32, HostStorageError>)
    ensures
        match conn_id_spec(*answer) {
            Some(id) => r == Ok::<u32, HostStorageError>(id),
            None => r matches Err(e) && e.deep_view() == (ErrorView {
                code: NAPI_ERROR_CODE@,
                message: NO_CONN_ID_MESSAGE@,
            }),
        },
{
    match answer.get("conn_id") {
        Some(v) => match v.as_u64() {
            Some(u) => Ok(u as u32),
            None => Err(
                HostStorageError::new(String::from_str(NAPI_ERROR_CODE), String::from_str(NO_CONN_ID_MESSAGE)),
            ),
        },
        None => Err(HostStorageError::new(String::from_str(NAPI_ERROR_CODE), String::from_str(NO_CONN_ID_MESSAGE))),
    }
}

/// The rows of an `execute` answer: its `rows` array.
pub fn rows_of(answer: JsonValue) -> (r: Result<Vec<JsonValue>, HostStorageError>)
    ensures
        match json_array_field(answer, "rows"@) {
            Some(items) => r matches Ok(rows) && rows@ == items,
            None => r matches Err(e) && e.deep_view() == (ErrorView {
                code: NAPI_ERROR_CODE@,
                message: NO_ROWS_MESSAGE@,
            }),
        },
{
    let missing = HostStorageError::new(String::from_str(NAPI_ERROR_CODE), String::from_str(NO_ROWS_MESSAGE));
    let ghost a = answer;
    match answer {
        JsonValue::Object(mut fields) => {
            let key = String::from_str("rows");
            let ghost all = fields@;
            let mut i: usize = 0;
            assert(fields@.skip(0) =~= fields@);
            while i < fields.len()
                invariant
                    0 <= i <= fields.len(),
                    fields@ == all,
                    a == JsonValue::Object(fields),
                    a == answer,
                    json_get(a, "rows"@) == lookup_field(all, "rows"@),
                    key@ == "rows"@,
                    missing.deep_view() == (ErrorView { code: NAPI_ERROR_CODE@, message: NO_ROWS_MESSAGE@ }),
                    lookup_field(all, "rows"@) == lookup_field(all.skip(i as int), "rows"@),
                decreases fields.len() - i,
            {
                proof {
                    assert(all.skip(i as int).drop_first() =~= all.skip(i + 1));
                    assert(all.skip(i as int)[0] == all[i as int]);
                }
                if fields[i].0 == key {
                    assert(lookup_field(all, "rows"@) == Some(all[i as int].1));
                    let (_, value) = fields.remove(i);
                    assert(value == all[i as int].1);
                    assert(json_get(a, "rows"@) == Some(value));
                    match value {
                        JsonValue::Array(items) => {
                            assert(json_array_field(a, "rows"@) == Some(items@));
                            return Ok(items);
                        },
                        _ => {
                            assert(json_array_field(a, "rows"@) is None);
                            return Err(missing);
                        },
                    }
                }
                i = i + 1;
            }
            Err(missing)
        },
        _ => Err(missing),
    }
}

} // verus!
