//! Field extraction from JSON messages with the error each missing field
//! is reported with.
use crate::errors::ExchangeError;
use crate::json::{
    float_syntax, float_syntax_ok, get_bool, get_i64, get_str, get_u64, json_bool, json_error_text,
    json_get, json_i64, json_parse, json_str, json_u64, parse_json, Json,
};
use crate::text::to_owned_string;
use vstd::prelude::*;

verus! {

/// A value that is a string holding a number `f64::from_str` accepts.
pub open spec fn decimal_value(v: Option<Json>) -> Option<Seq<char>> {
    match json_str(v) {
        Some(s) => if float_syntax(s) { Some(s) } else { None },
        None => None,
    }
}

/// A string field holding a number `f64::from_str` accepts.
pub open spec fn decimal_field(j: Json, key: Seq<char>) -> Option<Seq<char>> {
    decimal_value(json_get(j, key))
}

/// The decimal field `key`, or "0" when absent or not a number.
pub open spec fn decimal_or_zero(j: Json, key: Seq<char>) -> Seq<char> {
    match decimal_field(j, key) {
        Some(s) => s,
        None => "0"@,
    }
}

/// The string field `key`, or `default` when absent.
pub open spec fn str_field_or(j: Json, key: Seq<char>, default: Seq<char>) -> Seq<char> {
    match json_str(json_get(j, key)) {
        Some(s) => s,
        None => default,
    }
}

/// The boolean field `key`, or `default` when absent.
pub open spec fn bool_field_or(j: Json, key: Seq<char>, default: bool) -> bool {
    match json_bool(json_get(j, key)) {
        Some(x) => x,
        None => default,
    }
}

/// The view of an optional string.
pub open spec fn opt_string_view(o: Option<String>) -> Option<Seq<char>> {
    match o {
        Some(s) => Some(s@),
        None => None,
    }
}

/// A JSON string holding a number, as its text.
pub open spec fn number_text(v: Option<Json>) -> Option<Seq<char>> {
    match v {
        Some(Json::Str(s)) => if float_syntax(s@) { Some(s@) } else { None },
        _ => None,
    }
}

/// The text of a JSON string that holds a number, or "0" for anything
/// else (absent, not a string, not a number).
pub open spec fn number_text_or_zero(v: Option<Json>) -> Seq<char> {
    match v {
        Some(Json::Str(s)) => if float_syntax(s@) { s@ } else { "0"@ },
        _ => "0"@,
    }
}

/// The error of the first entry that `check` refuses, if any.
pub open spec fn first_error(s: Seq<Json>, check: spec_fn(Json) -> Option<Seq<char>>) -> Option<Seq<char>>
    decreases s.len(),
{
    if s.len() == 0 {
        None
    } else {
        match first_error(s.drop_last(), check) {
            Some(m) => Some(m),
            None => check(s.last()),
        }
    }
}

/// An error found in a prefix is the first error of the whole.
pub proof fn lemma_first_error_prefix(s: Seq<Json>, check: spec_fn(Json) -> Option<Seq<char>>, k: int)
    requires
        0 <= k <= s.len(),
        first_error(s.take(k), check) is Some,
    ensures
        first_error(s, check) == first_error(s.take(k), check),
    decreases s.len() - k,
{
    if k < s.len() {
        assert(s.take(k + 1).drop_last() =~= s.take(k));
        lemma_first_error_prefix(s, check, k + 1);
    } else {
        assert(s.take(k) =~= s);
    }
}

/// Read a JSON document; a text that is not JSON is reported as
/// `JsonParse` with the parser's message.
pub fn read_document(text: &str) -> (r: Result<Json, ExchangeError>)
    ensures
        match json_parse(text@) {
            Some(j) => r matches Ok(x) && x == j,
            None => r matches Err(ExchangeError::JsonParse(m)) && m@ == json_error_text(text@),
        },
{
    match parse_json(text) {
        Ok(j) => Ok(j),
        Err(m) => Err(ExchangeError::JsonParse(m)),
    }
}

/// The decimal value `v`, if it is a string holding a number.
pub fn decimal_of(v: &Json) -> (r: Option<String>)
    ensures
        match decimal_value(Some(*v)) {
            Some(s) => r matches Some(x) && x@ == s,
            None => r is None,
        },
{
    match v.as_str() {
        Some(s) => {
            if float_syntax_ok(s) {
                Some(to_owned_string(s))
            } else {
                None
            }
        },
        None => None,
    }
}

/// The decimal field `key`, or "0" when absent or not a number.
pub fn decimal_field_or_zero(j: &Json, key: &str) -> (r: String)
    ensures
        r@ == decimal_or_zero(*j, key@),
{
    match optional_decimal(j, key) {
        Some(s) => s,
        None => to_owned_string("0"),
    }
}

/// The string field `key`, or `default` when absent.
pub fn str_field_or_default(j: &Json, key: &str, default: &str) -> (r: String)
    ensures
        r@ == str_field_or(*j, key@, default@),
{
    match get_str(j, key) {
        Some(s) => to_owned_string(s),
        None => to_owned_string(default),
    }
}

/// The string field `key`, or `JsonParse(msg)` when absent.
pub fn require_str(j: &Json, key: &str, msg: &str) -> (r: Result<String, ExchangeError>)
    ensures
        match json_str(json_get(*j, key@)) {
            Some(s) => r matches Ok(v) && v@ == s,
            None => r matches Err(ExchangeError::JsonParse(m)) && m@ == msg@,
        },
{
    match get_str(j, key) {
        Some(s) => Ok(to_owned_string(s)),
        None => Err(ExchangeError::JsonParse(to_owned_string(msg))),
    }
}

/// The `i64` field `key`, or `JsonParse(msg)` when absent.
pub fn require_i64(j: &Json, key: &str, msg: &str) -> (r: Result<i64, ExchangeError>)
    ensures
        match json_i64(json_get(*j, key@)) {
            Some(x) => r == Ok::<i64, ExchangeError>(x),
            None => r matches Err(ExchangeError::JsonParse(m)) && m@ == msg@,
        },
{
    match get_i64(j, key) {
        Some(x) => Ok(x),
        None => Err(ExchangeError::JsonParse(to_owned_string(msg))),
    }
}

/// The `u64` field `key`, or `JsonParse(msg)` when absent.
pub fn require_u64(j: &Json, key: &str, msg: &str) -> (r: Result<u64, ExchangeError>)
    ensures
        match json_u64(json_get(*j, key@)) {
            Some(x) => r == Ok::<u64, ExchangeError>(x),
            None => r matches Err(ExchangeError::JsonParse(m)) && m@ == msg@,
        },
{
    match get_u64(j, key) {
        Some(x) => Ok(x),
        None => Err(ExchangeError::JsonParse(to_owned_string(msg))),
    }
}

/// The decimal field `key`, or `JsonParse(msg)` when absent or not a
/// number.
pub fn require_decimal(j: &Json, key: &str, msg: &str) -> (r: Result<String, ExchangeError>)
    ensures
        match decimal_field(*j, key@) {
            Some(s) => r matches Ok(v) && v@ == s,
            None => r matches Err(ExchangeError::JsonParse(m)) && m@ == msg@,
        },
{
    match get_str(j, key) {
        Some(s) => {
            if float_syntax_ok(s) {
                Ok(to_owned_string(s))
            } else {
                Err(ExchangeError::JsonParse(to_owned_string(msg)))
            }
        },
        None => Err(ExchangeError::JsonParse(to_owned_string(msg))),
    }
}

/// The decimal field `key`, if present and a number.
pub fn optional_decimal(j: &Json, key: &str) -> (r: Option<String>)
    ensures
        match decimal_field(*j, key@) {
            Some(s) => r matches Some(v) && v@ == s,
            None => r is None,
        },
{
    match get_str(j, key) {
        Some(s) => {
            if float_syntax_ok(s) {
                Some(to_owned_string(s))
            } else {
                None
            }
        },
        None => None,
    }
}

/// The string field `key`, if present.
pub fn optional_str(j: &Json, key: &str) -> (r: Option<String>)
    ensures
        match json_str(json_get(*j, key@)) {
            Some(s) => r matches Some(v) && v@ == s,
            None => r is None,
        },
{
    match get_str(j, key) {
        Some(s) => Some(to_owned_string(s)),
        None => None,
    }
}

/// The boolean field `key`, or `default` when absent.
pub fn bool_or(j: &Json, key: &str, default: bool) -> (b: bool)
    ensures
        b == bool_field_or(*j, key@, default),
{
    match get_bool(j, key) {
        Some(x) => x,
        None => default,
    }
}

} // verus!
