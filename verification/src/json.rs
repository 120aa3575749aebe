//! JSON documents as the exchange sends them, held as plain values, with
//! the field accessors the message decoders use; and the syntax of
//! decimal numbers that `f64`'s `FromStr` accepts.
use vstd::prelude::*;
use vstd::string::StrSliceExecFns;

verus! {

/// The integer readings of a JSON number: as `i64` and as `u64` where it
/// is an integer in range (as `serde_json::Number::as_i64` and
/// `as_u64` give them).
#[derive(Debug, Clone, Copy, PartialEq, Eq, Structural)]
pub struct JsonNumber {
    pub int: Option<i64>,
    pub uint: Option<u64>,
}

/// A JSON value.
#[derive(Debug)]
pub enum Json {
    Null,
    Bool(bool),
    Number(JsonNumber),
    Str(String),
    Array(Vec<Json>),
    Object(Vec<(String, Json)>),
}

#[verifier::external_type_specification]
#[verifier::external_body]
pub struct ExJsonValue(serde_json::Value);

/// The document `serde_json::from_str::<serde_json::Value>` reads from a
/// text, when it reads one.
pub uninterp spec fn json_parse(text: Seq<char>) -> Option<Json>;

/// The message of the error `serde_json::from_str` reports for a text it
/// cannot read.
pub uninterp spec fn json_error_text(text: Seq<char>) -> Seq<char>;

/// Convert a `serde_json::Value` into a `Json`, variant by variant
/// (objects keep serde_json's key order; numbers keep their `as_i64` and
/// `as_u64` readings). Nothing is claimed beyond what `parse_json` states.
#[verifier::external_body]
fn json_from_value(v: &serde_json::Value) -> Json {
    match v {
        serde_json::Value::Null => Json::Null,
        serde_json::Value::Bool(b) => Json::Bool(*b),
        serde_json::Value::Number(n) => Json::Number(JsonNumber { int: n.as_i64(), uint: n.as_u64() }),
        serde_json::Value::String(s) => Json::Str(s.clone()),
        serde_json::Value::Array(a) => Json::Array(a.iter().map(json_from_value).collect()),
        serde_json::Value::Object(o) => Json::Object(o.iter().map(|(k, x)| (k.clone(), json_from_value(x))).collect()),
    }
}

/// `serde_json::from_str::<serde_json::Value>(text)`: the document, or
/// the parser's error message. Claims that both are functions of the
/// text alone.
#[verifier::external_body]
pub(crate) fn parse_json(text: &str) -> (r: Result<Json, String>)
    ensures
        match r {
            Ok(j) => json_parse(text@) == Some(j),
            Err(m) => json_parse(text@) is None && m@ == json_error_text(text@),
        },
{
    match serde_json::from_str::<serde_json::Value>(text) {
        Ok(v) => Ok(json_from_value(&v)),
        Err(e) => Err(e.to_string()),
    }
}

/// The first field of an object with the given key.
pub open spec fn field_of(fields: Seq<(String, Json)>, key: Seq<char>) -> Option<Json>
    decreases fields.len(),
{
    if fields.len() == 0 {
        None
    } else if fields[0].0@ == key {
        Some(fields[0].1)
    } else {
        field_of(fields.drop_first(), key)
    }
}

/// `value.get(key)`: the field of an object; nothing for other values.
pub open spec fn json_get(j: Json, key: Seq<char>) -> Option<Json> {
    match j {
        Json::Object(fields) => field_of(fields@, key),
        _ => None,
    }
}

/// `as_str` of a value.
pub open spec fn json_str(j: Option<Json>) -> Option<Seq<char>> {
    match j {
        Some(Json::Str(s)) => Some(s@),
        _ => None,
    }
}

/// `as_i64` of a value.
pub open spec fn json_i64(j: Option<Json>) -> Option<i64> {
    match j {
        Some(Json::Number(n)) => n.int,
        _ => None,
    }
}

/// `as_u64` of a value.
pub open spec fn json_u64(j: Option<Json>) -> Option<u64> {
    match j {
        Some(Json::Number(n)) => n.uint,
        _ => None,
    }
}

/// `as_bool` of a value.
pub open spec fn json_bool(j: Option<Json>) -> Option<bool> {
    match j {
        Some(Json::Bool(b)) => Some(b),
        _ => None,
    }
}

/// `as_array` of a value.
pub open spec fn json_array(j: Option<Json>) -> Option<Seq<Json>> {
    match j {
        Some(Json::Array(a)) => Some(a@),
        _ => None,
    }
}

impl Json {
    /// The field `key` of an object.
    pub fn get(&self, key: &str) -> (r: Option<&Json>)
        ensures
            match r {
                Some(x) => json_get(*self, key@) == Some(*x),
                None => json_get(*self, key@) is None,
            },
    {
        match self {
            Json::Object(fields) => {
                let n = fields.len();
                let mut i: usize = 0;
                proof {
                    assert(fields@.skip(0) =~= fields@);
                }
                while i < n
                    invariant
                        n == fields@.len(),
                        i <= n,
                        json_get(*self, key@) == field_of(fields@, key@),
                        field_of(fields@, key@) == field_of(fields@.skip(i as int), key@),
                    decreases n - i,
                {
                    proof {
                        assert(fields@.skip(i as int).drop_first() =~= fields@.skip(i + 1));
                        assert(fields@.skip(i as int)[0] == fields@[i as int]);
                    }
                    if str_eq(fields[i].0.as_str(), key) {
                        proof {
                            assert(field_of(fields@.skip(i as int), key@) == Some(fields@[i as int].1));
                        }
                        return Some(&fields[i].1);
                    }
                    i = i + 1;
                }
                proof {
                    assert(fields@.skip(n as int).len() == 0);
                }
                None
            },
            _ => None,
        }
    }

    /// The string held, if this is a string.
    pub fn as_str(&self) -> (r: Option<&str>)
        ensures
            match r {
                Some(s) => json_str(Some(*self)) == Some(s@),
                None => json_str(Some(*self)) is None,
            },
    {
        match self {
            Json::Str(s) => Some(s.as_str()),
            _ => None,
        }
    }

    /// The integer held, if this is a number that fits an `i64`.
    pub fn as_i64(&self) -> (r: Option<i64>)
        ensures
            r == json_i64(Some(*self)),
    {
        match self {
            Json::Number(n) => n.int,
            _ => None,
        }
    }

    /// The integer held, if this is a number that fits a `u64`.
    pub fn as_u64(&self) -> (r: Option<u64>)
        ensures
            r == json_u64(Some(*self)),
    {
        match self {
            Json::Number(n) => n.uint,
            _ => None,
        }
    }

    /// The boolean held, if this is a boolean.
    pub fn as_bool(&self) -> (r: Option<bool>)
        ensures
            r == json_bool(Some(*self)),
    {
        match self {
            Json::Bool(b) => Some(*b),
            _ => None,
        }
    }

    /// The elements, if this is an array.
    pub fn as_array(&self) -> (r: Option<&Vec<Json>>)
        ensures
            match r {
                Some(a) => json_array(Some(*self)) == Some(a@),
                None => json_array(Some(*self)) is None,
            },
    {
        match self {
            Json::Array(a) => Some(a),
            _ => None,
        }
    }
}

/// String equality by characters.
pub fn str_eq(a: &str, b: &str) -> (r: bool)
    ensures
        r == (a@ == b@),
{
    let la = a.unicode_len();
    let lb = b.unicode_len();
    if la != lb {
        return false;
    }
    let mut i: usize = 0;
    while i < la
        invariant
            la == a@.len(),
            lb == b@.len(),
            la == lb,
            i <= la,
            forall|j: int| 0 <= j < i ==> a@[j] == b@[j],
        decreases la - i,
    {
        if a.get_char(i) != b.get_char(i) {
            return false;
        }
        i = i + 1;
    }
    proof {
        assert(a@ =~= b@);
    }
    true
}

/// The string field `key`, if present and a string.
pub fn get_str<'a>(j: &'a Json, key: &str) -> (r: Option<&'a str>)
    ensures
        match r {
            Some(s) => json_str(json_get(*j, key@)) == Some(s@),
            None => json_str(json_get(*j, key@)) is None,
        },
{
    match j.get(key) {
        Some(v) => v.as_str(),
        None => None,
    }
}

/// The integer field `key`, if present and an `i64`.
pub fn get_i64(j: &Json, key: &str) -> (r: Option<i64>)
    ensures
        r == json_i64(json_get(*j, key@)),
{
    match j.get(key) {
        Some(v) => v.as_i64(),
        None => None,
    }
}

/// The unsigned field `key`, if present and a `u64`.
pub fn get_u64(j: &Json, key: &str) -> (r: Option<u64>)
    ensures
        r == json_u64(json_get(*j, key@)),
{
    match j.get(key) {
        Some(v) => v.as_u64(),
        None => None,
    }
}

/// The boolean field `key`, if present and a boolean.
pub fn get_bool(j: &Json, key: &str) -> (r: Option<bool>)
    ensures
        r == json_bool(json_get(*j, key@)),
{
    match j.get(key) {
        Some(v) => v.as_bool(),
        None => None,
    }
}

// ── Decimal syntax accepted by `f64::from_str` ──────────────────────────

/// ASCII decimal digit.
pub open spec fn is_digit(c: char) -> bool {
    '0' <= c && c <= '9'
}

/// Number of consecutive digits in `s` starting at `i`.
pub open spec fn digit_run(s: Seq<char>, i: int) -> nat
    decreases s.len() - i,
{
    if 0 <= i < s.len() && is_digit(s[i]) {
        1 + digit_run(s, i + 1)
    } else {
        0
    }
}

/// ASCII letter equal to `lower` ignoring case.
pub open spec fn ascii_ci_eq(c: char, lower: char) -> bool {
    c == lower || (c as u32) + 32 == (lower as u32)
}

/// `s` spells `word` (given in lowercase) ignoring ASCII case.
pub open spec fn spells_ci(s: Seq<char>, word: Seq<char>) -> bool {
    s.len() == word.len() && forall|i: int| 0 <= i < s.len() ==> ascii_ci_eq(#[trigger] s[i], word[i])
}

/// An exponent from position `i` to the end: `e` or `E`, an optional
/// sign, then at least one digit.
pub open spec fn exponent_from(s: Seq<char>, i: int) -> bool {
    &&& i < s.len()
    &&& (s[i] == 'e' || s[i] == 'E')
    &&& {
        let k = if i + 1 < s.len() && (s[i + 1] == '+' || s[i + 1] == '-') { i + 2 } else { i + 1 };
        digit_run(s, k) >= 1 && k + digit_run(s, k) == s.len()
    }
}

/// A decimal number from position `i` to the end: digits, optionally a
/// point and more digits (at least one digit in all), optionally an
/// exponent.
pub open spec fn number_from(s: Seq<char>, i: int) -> bool {
    let d1 = digit_run(s, i);
    let j = i + d1;
    let has_point = j < s.len() && s[j] == '.';
    let d2: nat = if has_point { digit_run(s, j + 1) } else { 0 };
    let end = if has_point { j + 1 + d2 } else { j };
    &&& d1 + d2 >= 1
    &&& (end == s.len() || exponent_from(s, end))
}

/// The text `f64::from_str` accepts: an optional sign, then `inf`,
/// `infinity`, `nan` (any case) or a decimal number.
pub open spec fn float_syntax(s: Seq<char>) -> bool {
    let i: int = if s.len() > 0 && (s[0] == '+' || s[0] == '-') { 1 } else { 0 };
    let rest = s.skip(i);
    ||| spells_ci(rest, "inf"@)
    ||| spells_ci(rest, "infinity"@)
    ||| spells_ci(rest, "nan"@)
    ||| number_from(s, i)
}

fn digit_run_exec(s: &str, n: usize, i: usize) -> (r: usize)
    requires
        n == s@.len(),
        i <= n,
    ensures
        r == digit_run(s@, i as int),
        i + r <= n,
{
    let mut k: usize = i;
    while k < n && is_digit_char(s.get_char(k))
        invariant
            n == s@.len(),
            i <= k <= n,
            digit_run(s@, i as int) == (k - i) + digit_run(s@, k as int),
        decreases n - k,
    {
        k = k + 1;
    }
    k - i
}

fn is_digit_char(c: char) -> (b: bool)
    ensures
        b == is_digit(c),
{
    '0' <= c && c <= '9'
}

fn spells_ci_exec(s: &str, from: usize, word: &str) -> (b: bool)
    requires
        from <= s@.len(),
        forall|i: int| 0 <= i < word@.len() ==> 'a' <= #[trigger] word@[i] && word@[i] <= 'z',
    ensures
        b == spells_ci(s@.skip(from as int), word@),
{
    let n = s.unicode_len();
    let m = word.unicode_len();
    if n - from != m {
        return false;
    }
    let mut i: usize = 0;
    while i < m
        invariant
            n == s@.len(),
            m == word@.len(),
            from <= n,
            n - from == m,
            i <= m,
            forall|j: int| 0 <= j < i ==> ascii_ci_eq(#[trigger] s@.skip(from as int)[j], word@[j]),
        decreases m - i,
    {
        let c = s.get_char(from + i);
        let w = word.get_char(i);
        proof {
            assert(s@.skip(from as int)[i as int] == c);
        }
        if !(c == w || (c as u32) + 32 == (w as u32)) {
            return false;
        }
        i = i + 1;
    }
    true
}

/// Whether `f64::from_str` accepts `s`.
pub fn float_syntax_ok(s: &str) -> (b: bool)
    ensures
        b == float_syntax(s@),
{
    let n = s.unicode_len();
    let i: usize = if n > 0 && (s.get_char(0) == '+' || s.get_char(0) == '-') { 1 } else { 0 };
    proof {
        reveal_strlit("inf");
        reveal_strlit("infinity");
        reveal_strlit("nan");
    }
    if spells_ci_exec(s, i, "inf") || spells_ci_exec(s, i, "infinity") || spells_ci_exec(s, i, "nan") {
        return true;
    }
    let d1 = digit_run_exec(s, n, i);
    let j = i + d1;
    let has_point = j < n && s.get_char(j) == '.';
    let d2 = if has_point { digit_run_exec(s, n, j + 1) } else { 0 };
    let end = if has_point { j + 1 + d2 } else { j };
    if d1 + d2 < 1 {
        return false;
    }
    if end == n {
        return true;
    }
    // exponent
    let e = s.get_char(end);
    if !(e == 'e' || e == 'E') {
        return false;
    }
    let k = if end + 1 < n && (s.get_char(end + 1) == '+' || s.get_char(end + 1) == '-') { end + 2 } else { end + 1 };
    let d3 = digit_run_exec(s, n, k);
    d3 >= 1 && k + d3 == n
}

} // verus!
