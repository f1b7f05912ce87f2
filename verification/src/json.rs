use vstd::prelude::*;

use crate::models::{FactId, FactIdView};

verus! {

/// A JSON number, held by the integer readings that the storage logic takes
/// of it: as a signed integer, as an unsigned integer, and its floating-point
/// value converted to `i64` (saturating, truncating) and to an `f32` (by bits).
#[derive(Debug, Clone, Copy, PartialEq)]
pub struct JsonNumber {
    /// The number as an `i64`, where it is an integer in range.
    pub int: Option<i64>,
    /// The number as a `u64`, where it is a non-negative integer in range.
    pub uint: Option<u64>,
    /// The number's `f64` value cast to `i64`.
    pub float_to_int: i64,
    /// The bits of the number's `f64` value cast to `f32`.
    pub float_to_single: u32,
}

/// A JSON value as rows and write payloads carry it. An object keeps its
/// fields in order; a lookup finds the first field of that name.
#[derive(Debug)]
pub enum JsonValue {
    Null,
    Bool(bool),
    Number(JsonNumber),
    Str(String),
    Array(Vec<JsonValue>),
    Object(Vec<(String, JsonValue)>),
}

/// The value of the first field named `key`.
pub open spec fn lookup_field(fields: Seq<(String, JsonValue)>, key: Seq<char>) -> Option<JsonValue>
    decreases fields.len(),
{
    if fields.len() == 0 {
        None
    } else if fields[0].0@ == key {
        Some(fields[0].1)
    } else {
        lookup_field(fields.drop_first(), key)
    }
}

/// `value.get(key)`: the field of an object, `None` for a missing field or a
/// value that is not an object.
pub open spec fn json_get(v: JsonValue, key: Seq<char>) -> Option<JsonValue> {
    match v {
        JsonValue::Object(fields) => lookup_field(fields@, key),
        _ => None,
    }
}

/// `value[key].as_str()`.
pub open spec fn json_str_field(v: JsonValue, key: Seq<char>) -> Option<Seq<char>> {
    match json_get(v, key) {
        Some(JsonValue::Str(s)) => Some(s@),
        _ => None,
    }
}

/// `value[key].as_str().unwrap_or(default)`.
pub open spec fn json_str_or(v: JsonValue, key: Seq<char>, default: Seq<char>) -> Seq<char> {
    match json_str_field(v, key) {
        Some(s) => s,
        None => default,
    }
}

/// `value[key].as_array()`.
pub open spec fn json_array_field(v: JsonValue, key: Seq<char>) -> Option<Seq<JsonValue>> {
    match json_get(v, key) {
        Some(JsonValue::Array(items)) => Some(items@),
        _ => None,
    }
}

pub open spec fn is_digit(c: char) -> bool {
    '0' <= c <= '9'
}

pub open spec fn all_digits(d: Seq<char>) -> bool {
    forall|i: int| 0 <= i < d.len() ==> is_digit(#[trigger] d[i])
}

/// The value of a string of decimal digits.
pub open spec fn digits_value(d: Seq<char>) -> int
    decreases d.len(),
{
    if d.len() == 0 {
        0
    } else {
        digits_value(d.drop_last()) * 10 + (d.last() as int - '0' as int)
    }
}

/// What `str::parse::<i64>` accepts: an optional `+` or `-`, then one or
/// more decimal digits, whose value lies in the range of `i64`.
pub open spec fn parse_i64_spec(s: Seq<char>) -> Option<i64> {
    let neg = s.len() > 0 && s[0] == '-';
    let signed = s.len() > 0 && (s[0] == '-' || s[0] == '+');
    let d = if signed { s.drop_first() } else { s };
    let v = if neg { -digits_value(d) } else { digits_value(d) };
    if d.len() == 0 || !all_digits(d) || v < i64::MIN || v > i64::MAX {
        None
    } else {
        Some(v as i64)
    }
}

/// Reads an id field the way the database host may deliver it: an integer,
/// a decimal string, or another number truncated to an integer.
pub open spec fn read_id_spec(row: JsonValue, field: Seq<char>) -> Option<i64> {
    match json_get(row, field) {
        Some(JsonValue::Number(n)) => match n.int {
            Some(i) => Some(i),
            None => Some(n.float_to_int),
        },
        Some(JsonValue::Str(s)) => parse_i64_spec(s@),
        _ => None,
    }
}

/// The id read from the first row, if there is a first row.
pub open spec fn first_id(rows: Seq<JsonValue>, field: Seq<char>) -> Option<i64> {
    if rows.len() > 0 {
        read_id_spec(rows[0], field)
    } else {
        None
    }
}

proof fn lemma_digits_prefix_le(d: Seq<char>, k: int)
    requires
        all_digits(d),
        0 <= k <= d.len(),
    ensures
        0 <= digits_value(d.take(k)) <= digits_value(d),
    decreases d.len() - k,
{
    lemma_digits_nonneg(d.take(k));
    if k < d.len() {
        lemma_digits_prefix_le(d, k + 1);
        assert(d.take(k + 1).drop_last() =~= d.take(k));
    } else {
        assert(d.take(k) =~= d);
    }
}

proof fn lemma_digits_nonneg(d: Seq<char>)
    requires
        all_digits(d),
    ensures
        digits_value(d) >= 0,
    decreases d.len(),
{
    if d.len() > 0 {
        assert(all_digits(d.drop_last()));
        lemma_digits_nonneg(d.drop_last());
    }
}

/// `str::parse::<i64>`, written out.
pub fn parse_i64(s: &str) -> (r: Option<i64>)
    ensures
        r == parse_i64_spec(s@),
{
    let n = s.unicode_len();
    if n == 0 {
        return None;
    }
    let first = s.get_char(0);
    let neg = first == '-';
    let start: usize = if first == '-' || first == '+' { 1 } else { 0 };
    let ghost d = if start == 1 { s@.drop_first() } else { s@ };
    assert(first == s@[0]);
    assert((start == 1) == (s@.len() > 0 && (s@[0] == '-' || s@[0] == '+')));
    assert(neg == (s@.len() > 0 && s@[0] == '-'));
    if start >= n {
        assert(d.len() == 0);
        return None;
    }
    // Magnitude bound: 2^63, the largest magnitude any i64 has.
    let bound: i128 = 9223372036854775808;
    let mut acc: i128 = 0;
    let mut i: usize = start;
    while i < n
        invariant
            start <= i <= n,
            n == s@.len(),
            start == 1 || start == 0,
            d == s@.skip(start as int),
            d.len() == n - start,
            (start == 1) == (s@.len() > 0 && (s@[0] == '-' || s@[0] == '+')),
            neg == (s@.len() > 0 && s@[0] == '-'),
            bound == 9223372036854775808,
            all_digits(d.take(i - start)),
            acc == digits_value(d.take(i - start)),
            0 <= acc <= bound,
        decreases n - i,
    {
        let c = s.get_char(i);
        assert(d[i - start] == s@[i as int]);
        if !('0' <= c && c <= '9') {
            proof {
                assert(d[i - start] == s@[i as int]);
                assert(d[i - start] == c);
                assert(!all_digits(d));
                assert(parse_i64_spec(s@) is None);
            }
            return None;
        }
        let digit: i128 = (c as u32 - '0' as u32) as i128;
        proof {
            assert(d.take(i - start + 1).drop_last() =~= d.take(i - start));
            assert(d.take(i - start + 1).last() == c);
        }
        acc = acc * 10 + digit;
        assert(all_digits(d.take(i - start + 1)));
        assert(acc == digits_value(d.take(i - start + 1)));
        if acc > bound {
            proof {
                if all_digits(d) {
                    lemma_digits_prefix_le(d, i - start + 1);
                    assert(digits_value(d) > bound);
                    assert(-digits_value(d) < i64::MIN);
                    assert(digits_value(d) > i64::MAX);
                }
                let signed = s@.len() > 0 && (s@[0] == '-' || s@[0] == '+');
                let sd = if signed { s@.drop_first() } else { s@ };
                assert(sd == d);
                assert(parse_i64_spec(s@) is None);
            }
            return None;
        }
        i = i + 1;
    }
    proof {
        assert(d.take(n - start) =~= d);
    }
    if neg {
        Some((0 - acc) as i64)
    } else if acc > 9223372036854775807 {
        None
    } else {
        Some(acc as i64)
    }
}

impl JsonValue {
    /// `value.get(key)`.
    pub fn get(&self, key: &str) -> (r: Option<&JsonValue>)
        ensures
            match r {
                Some(v) => json_get(*self, key@) == Some(*v),
                None => json_get(*self, key@) is None,
            },
    {
        match self {
            JsonValue::Object(fields) => {
                let k = String::from_str(key);
                let mut i: usize = 0;
                assert(fields@.skip(0) =~= fields@);
                while i < fields.len()
                    invariant
                        0 <= i <= fields.len(),
                        k@ == key@,
                        json_get(*self, key@) == lookup_field(fields@, key@),
                        lookup_field(fields@, key@) == lookup_field(fields@.skip(i as int), key@),
                    decreases fields.len() - i,
                {
                    proof {
                        assert(fields@.skip(i as int).drop_first() =~= fields@.skip(i + 1));
                    }
                    assert(fields@.skip(i as int)[0] == fields@[i as int]);
                    if fields[i].0 == k {
                        assert(fields@.skip(i as int).len() > 0);
                        assert(lookup_field(fields@.skip(i as int), key@) == Some(fields@[i as int].1));
                        assert(json_get(*self, key@) == Some(fields@[i as int].1));
                        return Some(&fields[i].1);
                    }
                    i = i + 1;
                }
                None
            },
            _ => None,
        }
    }

    /// `value.as_str()`.
    pub fn as_str(&self) -> (r: Option<&str>)
        ensures
            match r {
                Some(s) => *self matches JsonValue::Str(t) && t@ == s@,
                None => !(*self is Str),
            },
    {
        match self {
            JsonValue::Str(s) => Some(s.as_str()),
            _ => None,
        }
    }

    /// `value.as_i64()`.
    pub fn as_i64(&self) -> (r: Option<i64>)
        ensures
            r == (match *self {
                JsonValue::Number(n) => n.int,
                _ => None,
            }),
    {
        match self {
            JsonValue::Number(n) => n.int,
            _ => None,
        }
    }

    /// `value.as_u64()`.
    pub fn as_u64(&self) -> (r: Option<u64>)
        ensures
            r == (match *self {
                JsonValue::Number(n) => n.uint,
                _ => None,
            }),
    {
        match self {
            JsonValue::Number(n) => n.uint,
            _ => None,
        }
    }

    /// `value.as_array()`.
    pub fn as_array(&self) -> (r: Option<&Vec<JsonValue>>)
        ensures
            match r {
                Some(items) => *self matches JsonValue::Array(v) && v@ == items@,
                None => !(*self is Array),
            },
    {
        match self {
            JsonValue::Array(items) => Some(items),
            _ => None,
        }
    }

    /// `value[key].as_str()`.
    pub fn str_field(&self, key: &str) -> (r: Option<&str>)
        ensures
            match r {
                Some(s) => json_str_field(*self, key@) == Some(s@),
                None => json_str_field(*self, key@) is None,
            },
    {
        match self.get(key) {
            Some(v) => v.as_str(),
            None => None,
        }
    }

    /// `value[key].as_str().unwrap_or(default).to_string()`.
    pub fn str_field_or(&self, key: &str, default: &str) -> (r: String)
        ensures
            r@ == json_str_or(*self, key@, default@),
    {
        match self.str_field(key) {
            Some(s) => String::from_str(s),
            None => String::from_str(default),
        }
    }

    /// `value[key].as_array()`.
    pub fn array_field(&self, key: &str) -> (r: Option<&Vec<JsonValue>>)
        ensures
            match r {
                Some(items) => json_array_field(*self, key@) == Some(items@),
                None => json_array_field(*self, key@) is None,
            },
    {
        match self.get(key) {
            Some(v) => v.as_array(),
            None => None,
        }
    }
}

/// Parses a row's id field to an `i64`, tolerating integer, string and
/// other numeric JSON values.
pub fn read_id(row: &JsonValue, field: &str) -> (r: Option<i64>)
    ensures
        r == read_id_spec(*row, field@),
{
    match row.get(field) {
        Some(v) => match v {
            JsonValue::Number(n) => match n.int {
                Some(i) => Some(i),
                None => Some(n.float_to_int),
            },
            JsonValue::Str(s) => parse_i64(s.as_str()),
            _ => None,
        },
        None => None,
    }
}

/// The id read from the first row, if any.
pub fn first_row_id(rows: &Vec<JsonValue>, field: &str) -> (r: Option<i64>)
    ensures
        r == first_id(rows@, field@),
{
    if rows.len() > 0 {
        read_id(&rows[0], field)
    } else {
        None
    }
}

/// A fact id given in JSON: an integer number, or a string.
pub open spec fn fact_id_from_json_spec(v: JsonValue) -> Option<FactIdView> {
    match v {
        JsonValue::Number(n) => match n.int {
            Some(i) => Some(FactIdView::Int(i)),
            None => None,
        },
        JsonValue::Str(s) => Some(FactIdView::Text(s@)),
        _ => None,
    }
}

pub fn fact_id_from_json(v: &JsonValue) -> (r: Option<FactId>)
    ensures
        match r {
            Some(id) => fact_id_from_json_spec(*v) == Some(id.deep_view()),
            None => fact_id_from_json_spec(*v) is None,
        },
{
    match v {
        JsonValue::Number(n) => match n.int {
            Some(i) => Some(FactId::Int(i)),
            None => None,
        },
        JsonValue::Str(s) => Some(FactId::String(s.clone())),
        _ => None,
    }
}

} // verus!
