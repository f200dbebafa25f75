//! JSON values and JSONPath queries, through `serde_json` and `jsonpath_lib`.
use vstd::prelude::*;
use jsonpath_lib::Compiled;
use serde_json::Value;

verus! {

#[verifier::external_type_specification]
#[verifier::external_body]
pub struct ExCompiledPath(Compiled);

/// Whether `serde_json::from_slice` accepts the bytes as a JSON value.
pub uninterp spec fn json_parses(bytes: Seq<u8>) -> bool;

/// The value `serde_json::from_slice` reads from bytes it accepts.
pub uninterp spec fn json_parsed(bytes: Seq<u8>) -> Value;

/// Whether `serde_json::from_str` accepts the text as a JSON value.
pub uninterp spec fn json_text_parses(text: Seq<char>) -> bool;

/// The value `serde_json::from_str` reads from a text it accepts.
pub uninterp spec fn json_text_parsed(text: Seq<char>) -> Value;

/// The `Debug` text of the error `serde_json::from_str` reports for a text
/// it rejects.
pub uninterp spec fn json_text_error_debug(text: Seq<char>) -> Seq<char>;

/// The message of the error `serde_json::from_slice` reports for the bytes.
pub uninterp spec fn json_error_text(bytes: Seq<u8>) -> Seq<char>;

/// What `jsonpath_lib::select` gives for a value and a path: the values
/// found, in order, or the message of its error.
pub uninterp spec fn jsonpath_select(v: Value, path: Seq<char>) -> Result<Seq<Value>, Seq<char>>;

/// What `Compiled::select` gives for a compiled path and a value: the values
/// found, in order, or the message of its error.
pub uninterp spec fn compiled_select(c: Compiled, v: Value) -> Result<Seq<Value>, Seq<char>>;

/// Whether `jsonpath_lib::Compiled::compile` accepts the path.
pub uninterp spec fn jsonpath_compiles(path: Seq<char>) -> bool;

/// The `Debug` text of the message `jsonpath_lib::Compiled::compile` reports
/// for a path it rejects.
pub uninterp spec fn jsonpath_compile_error(path: Seq<char>) -> Seq<char>;

/// What `PartialEq::eq` on two JSON values gives.
pub uninterp spec fn json_values_equal(a: Value, b: Value) -> bool;

/// The `Debug` text of a JSON value.
pub uninterp spec fn json_debug_text(v: Value) -> Seq<char>;

/// The `Display` text of a JSON value: compact JSON.
pub uninterp spec fn json_display(v: Value) -> Seq<char>;

/// What `Value::as_str` gives: the text of a JSON string.
pub uninterp spec fn json_str_of(v: Value) -> Option<Seq<char>>;

/// What `Value::as_number` gives, written out with the number's `Display`.
pub uninterp spec fn json_number_display(v: Value) -> Option<Seq<char>>;

/// What `Value::as_bool` gives.
pub uninterp spec fn json_bool_of(v: Value) -> Option<bool>;

/// How many times `c` occurs in `p`.
pub open spec fn count_char(p: Seq<char>, c: char) -> nat
    decreases p.len(),
{
    if p.len() == 0 {
        0
    } else {
        count_char(p.drop_last(), c) + if p.last() == c {
            1nat
        } else {
            0nat
        }
    }
}

/// Whether a JSONPath keeps to the part of the syntax that `jsonpath_lib`
/// evaluates on any value without panicking: no filter (no `?`), and no slice
/// with a step (at most one `:`).  A step of 0 panics on arrays, and ranges,
/// unions and key lists inside filters reach `unimplemented!`; filters are
/// left out whole, as are all stepped slices.
pub open spec fn safe_jsonpath(p: Seq<char>) -> bool {
    !p.contains('?') && count_char(p, ':') <= 1
}

/// Whether a compiled path was compiled from a path within `safe_jsonpath`:
/// it selects what `select` selects with such a path.
pub open spec fn compiled_safe(c: Compiled) -> bool {
    exists|p: Seq<char>|
        #[trigger] safe_jsonpath(p) && forall|v: Value| #[trigger] compiled_select(c, v) == jsonpath_select(v, p)
}

/// Whether a JSONPath keeps to the part of the syntax that is evaluated
/// without panicking (see `safe_jsonpath`).
pub fn jsonpath_is_safe(path: &str) -> (r: bool)
    ensures
        r == safe_jsonpath(path@),
{
    let chars = crate::text::chars_of(path);
    let n = chars.len();
    let mut colons: usize = 0;
    let mut i: usize = 0;
    while i < n
        invariant
            n == chars@.len(),
            chars@ == path@,
            i <= n,
            colons == count_char(chars@.take(i as int), ':'),
            colons <= i,
            !chars@.take(i as int).contains('?'),
        decreases n - i,
    {
        proof {
            assert(chars@.take(i + 1).drop_last() =~= chars@.take(i as int));
        }
        if chars[i] == '?' {
            proof {
                assert(chars@[i as int] == '?');
                assert(path@.contains('?'));
            }
            return false;
        }
        if chars[i] == ':' {
            colons = colons + 1;
        }
        i = i + 1;
        proof {
            assert forall|j: int| 0 <= j < i implies chars@.take(i as int)[j] != '?' by {
                if j < i - 1 {
                    assert(chars@.take(i as int)[j] == chars@.take(i - 1)[j]);
                }
            }
        }
    }
    proof {
        assert(chars@.take(n as int) =~= chars@);
    }
    colons <= 1
}

/// The texts of a list of strings.
pub open spec fn texts(v: Seq<String>) -> Seq<Seq<char>> {
    v.map_values(|s: String| s@)
}

/// The result of a selection, with its error message as text.
pub open spec fn selection(r: Result<Vec<Value>, String>) -> Result<Seq<Value>, Seq<char>> {
    match r {
        Ok(v) => Ok(v@),
        Err(e) => Err(e@),
    }
}

/// Calls `serde_json::from_slice`: the value, or the error's message.
#[verifier::external_body]
pub(crate) fn parse_json(bytes: &[u8]) -> (r: Result<Value, String>)
    ensures
        r is Ok <==> json_parses(bytes@),
        r matches Ok(v) ==> v == json_parsed(bytes@),
        r matches Err(e) ==> e@ == json_error_text(bytes@),
{
    serde_json::from_slice::<Value>(bytes).map_err(|e| e.to_string())
}

/// Calls `serde_json::from_str`: the value, or the `Debug` text of the error.
#[verifier::external_body]
pub(crate) fn parse_json_text(text: &str) -> (r: Result<Value, String>)
    ensures
        r is Ok <==> json_text_parses(text@),
        r matches Ok(v) ==> v == json_text_parsed(text@),
        r matches Err(e) ==> e@ == json_text_error_debug(text@),
{
    serde_json::from_str::<Value>(text).map_err(|e| format!("{:?}", e))
}

/// Calls `jsonpath_lib::select` and copies what it finds, in order, or gives
/// the error's message.  Paths outside `safe_jsonpath` are left out: some of
/// them panic.
#[verifier::external_body]
pub(crate) fn select_values(v: &Value, path: &str) -> (r: Result<Vec<Value>, String>)
    requires
        safe_jsonpath(path@),
    ensures
        selection(r) == jsonpath_select(*v, path@),
{
    match jsonpath_lib::select(v, path) {
        Ok(found) => Ok(found.into_iter().cloned().collect()),
        Err(e) => Err(e.to_string()),
    }
}

/// Calls `jsonpath_lib::Compiled::compile`: the compiled path, or the `Debug`
/// text of the error's message.  A compiled path selects what `select` with
/// the path's text selects.
#[verifier::external_body]
pub(crate) fn compile_path(path: &str) -> (r: Result<Compiled, String>)
    ensures
        r is Ok <==> jsonpath_compiles(path@),
        r matches Ok(c) ==> forall|v: Value| #[trigger] compiled_select(c, v) == jsonpath_select(v, path@),
        r matches Err(e) ==> e@ == jsonpath_compile_error(path@),
{
    Compiled::compile(path).map_err(|e| format!("{:?}", e))
}

/// Calls `Compiled::select` and copies what it finds, in order, or gives the
/// error's message.  Only paths compiled from within `safe_jsonpath`: some
/// others panic.
#[verifier::external_body]
pub(crate) fn select_compiled(c: &Compiled, v: &Value) -> (r: Result<Vec<Value>, String>)
    requires
        compiled_safe(*c),
    ensures
        selection(r) == compiled_select(*c, *v),
{
    match c.select(v) {
        Ok(found) => Ok(found.into_iter().cloned().collect()),
        Err(e) => Err(e.to_string()),
    }
}

/// Calls `PartialEq::eq` on two JSON values; a value equals itself.
#[verifier::external_body]
pub(crate) fn json_equal(a: &Value, b: &Value) -> (r: bool)
    ensures
        r == json_values_equal(*a, *b),
        *a == *b ==> r,
{
    a == b
}

/// Calls `Value::as_str`: the text of a JSON string.
#[verifier::external_body]
pub(crate) fn json_as_str(v: &Value) -> (r: Option<String>)
    ensures
        match r {
            Some(s) => json_str_of(*v) == Some(s@),
            None => json_str_of(*v) is None,
        },
{
    v.as_str().map(|s| s.to_string())
}

/// Calls `Value::as_number` and writes the number out (its `Display`).
#[verifier::external_body]
fn json_number_text(v: &Value) -> (r: Option<String>)
    ensures
        match r {
            Some(s) => json_number_display(*v) == Some(s@),
            None => json_number_display(*v) is None,
        },
{
    v.as_number().map(|n| n.to_string())
}

/// Calls `Value::as_bool`.
#[verifier::external_body]
fn json_as_bool(v: &Value) -> (r: Option<bool>)
    ensures
        r == json_bool_of(*v),
{
    v.as_bool()
}

/// Writes a JSON value out as compact JSON text (its `Display`).
#[verifier::external_body]
pub(crate) fn json_to_string(v: &Value) -> (r: String)
    ensures
        r@ == json_display(*v),
{
    v.to_string()
}

/// Writes a JSON value out with `Debug`.
#[verifier::external_body]
pub(crate) fn json_debug(v: &Value) -> (r: String)
    ensures
        r@ == json_debug_text(*v),
{
    format!("{:?}", v)
}

/// The `Debug` text of an optional JSON value: `Some(..)` around the value's
/// own, or `None`.
pub open spec fn json_option_debug_text(v: Option<Value>) -> Seq<char> {
    match v {
        Some(x) => "Some("@ + json_debug_text(x) + ")"@,
        None => "None"@,
    }
}

/// Writes an optional JSON value out as `Debug` does.
pub fn json_option_debug(v: Option<&Value>) -> (r: String)
    ensures
        r@ == json_option_debug_text(match v {
            Some(x) => Some(*x),
            None => None,
        }),
{
    broadcast use vstd::string::group_string_axioms;

    match v {
        Some(x) => {
            let mut m = "Some(".to_string();
            m.append(json_debug(x).as_str());
            m.append(")");
            m
        },
        None => "None".to_string(),
    }
}

/// The key a JSON value gives for pairing replies with sends: a string's own
/// text, a number as written, a boolean as `true` or `false`, anything else as
/// JSON text.
pub open spec fn match_key(v: Value) -> Seq<char> {
    match json_str_of(v) {
        Some(s) => s,
        None => match json_number_display(v) {
            Some(n) => n,
            None => match json_bool_of(v) {
                Some(b) => if b {
                    "true"@
                } else {
                    "false"@
                },
                None => json_display(v),
            },
        },
    }
}

/// The key a JSON value gives for pairing replies with sends (see `match_key`).
pub fn value_to_match_key(v: &Value) -> (r: String)
    ensures
        r@ == match_key(*v),
{
    broadcast use vstd::string::group_string_axioms;

    if let Some(s) = json_as_str(v) {
        return s;
    }
    if let Some(n) = json_number_text(v) {
        return n;
    }
    match json_as_bool(v) {
        Some(b) => {
            if b {
                "true".to_string()
            } else {
                "false".to_string()
            }
        },
        None => json_to_string(v),
    }
}

} // verus!
