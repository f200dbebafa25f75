//! The variable parts of an HTTP request, filled in before it is sent: header
//! values, the cookie, the JSON body and the form fields are handlebars
//! templates rendered against the run's variables.
use vstd::prelude::*;
use serde_json::Value;
use crate::json::{json_as_str, json_display, json_str_of, json_text_error_debug, json_text_parsed, json_text_parses, json_to_string, parse_json_text};
use crate::setup::{debug_str, lenient_url, render_with_fresh_registry, str_debug};

verus! {

broadcast use vstd::string::group_string_axioms;

/// A field's text: rendered with a fresh registry against `ctx` when `on`,
/// kept as it is when rendering is off or fails.
pub open spec fn field_text(t: Seq<char>, ctx: Value, on: bool) -> Seq<char> {
    if on {
        lenient_url(t, ctx)
    } else {
        t
    }
}

/// The text a JSON body is written from: a JSON string's own text, or the
/// compact text of any other value.
pub open spec fn json_source(v: Value) -> Seq<char> {
    match json_str_of(v) {
        Some(s) => s,
        None => json_display(v),
    }
}

/// The message for a JSON body whose text is not JSON.
pub open spec fn json_body_error(text: Seq<char>) -> Seq<char> {
    "转换json失败:"@ + json_text_error_debug(text) + ", 原始json: "@ + debug_str(text)
}

/// The JSON body sent for `v`: when rendering is on, or `v` is a JSON
/// string, the value read from its (rendered) source text, which must be
/// JSON; otherwise `v` itself.
pub open spec fn json_body(v: Value, ctx: Value, on: bool) -> Result<Value, Seq<char>> {
    if on || json_str_of(v) is Some {
        let text = field_text(json_source(v), ctx, on);
        if json_text_parses(text) {
            Ok(json_text_parsed(text))
        } else {
            Err(json_body_error(text))
        }
    } else {
        Ok(v)
    }
}

/// Whether `out` holds the pairs of `fields` in order, each with its name
/// kept and its value's text rendered as `field_text` says.
pub open spec fn rendered_pairs(fields: Seq<(String, String)>, out: Seq<(String, String)>, ctx: Value, on: bool) -> bool {
    &&& out.len() == fields.len()
    &&& forall|i: int|
        0 <= i < fields.len() ==> (#[trigger] out[i]).0@ == fields[i].0@ && out[i].1@ == field_text(
            fields[i].1@,
            ctx,
            on,
        )
}

/// The filled-in parts of a request.
pub struct RenderedFields {
    pub headers: Vec<(String, String)>,
    pub cookie: Option<String>,
    pub json: Option<Value>,
    pub form: Option<Vec<(String, String)>>,
}

/// A field's text (see `field_text`).
fn render_field(t: &str, ctx: &Value, on: bool) -> (r: String)
    ensures
        r@ == field_text(t@, *ctx, on),
{
    if on {
        match render_with_fresh_registry(t, ctx) {
            Ok(x) => x,
            Err(_) => t.to_string(),
        }
    } else {
        t.to_string()
    }
}

/// The pairs of `fields` with their values' texts (see `rendered_pairs`).
fn render_pairs(fields: &Vec<(String, String)>, ctx: &Value, on: bool) -> (r: Vec<(String, String)>)
    ensures
        rendered_pairs(fields@, r@, *ctx, on),
{
    let mut out: Vec<(String, String)> = Vec::new();
    let n = fields.len();
    for i in 0..n
        invariant
            n == fields@.len(),
            out@.len() == i,
            forall|j: int|
                0 <= j < i ==> (#[trigger] out@[j]).0@ == fields@[j].0@ && out@[j].1@ == field_text(
                    fields@[j].1@,
                    *ctx,
                    on,
                ),
    {
        let name = fields[i].0.clone();
        let value = render_field(fields[i].1.as_str(), ctx, on);
        out.push((name, value));
    }
    out
}

/// The JSON body sent for `v` (see `json_body`).
fn render_json_body(v: &Value, ctx: &Value, on: bool) -> (r: Result<Value, String>)
    ensures
        match json_body(*v, *ctx, on) {
            Ok(b) => r == Ok::<Value, String>(b),
            Err(m) => r matches Err(e) && e@ == m,
        },
{
    let as_text = json_as_str(v);
    if on || as_text.is_some() {
        let source = match as_text {
            Some(s) => s,
            None => json_to_string(v),
        };
        let text = render_field(source.as_str(), ctx, on);
        match parse_json_text(text.as_str()) {
            Ok(b) => Ok(b),
            Err(e) => {
                let mut m = "转换json失败:".to_string();
                m.append(e.as_str());
                m.append(", 原始json: ");
                m.append(str_debug(text.as_str()).as_str());
                Err(m)
            },
        }
    } else {
        Ok(v.clone())
    }
}

/// Fills in a request's variable parts with the run's variables `ctx`:
/// header values, the cookie and the JSON body are rendered when
/// `render_templates` is on, the form fields when `render_form` is on; a text
/// that does not render is kept as it is.  Header and form names are kept,
/// in order.  Fails exactly when the JSON body's text is not JSON (see
/// `json_body`), with the message that names its text.
pub fn render_request_fields(
    headers: &Vec<(String, String)>,
    cookie: &Option<String>,
    json: &Option<Value>,
    form: &Option<Vec<(String, String)>>,
    ctx: &Value,
    render_templates: bool,
    render_form: bool,
) -> (r: Result<RenderedFields, String>)
    ensures
        r is Err <==> (*json matches Some(v) && json_body(v, *ctx, render_templates) is Err),
        r matches Err(e) ==> (*json matches Some(v) && json_body(v, *ctx, render_templates) == Err::<
            Value,
            Seq<char>,
        >(e@)),
        r matches Ok(f) ==> {
            &&& rendered_pairs(headers@, f.headers@, *ctx, render_templates)
            &&& match *cookie {
                Some(c) => f.cookie matches Some(x) && x@ == field_text(c@, *ctx, render_templates),
                None => f.cookie is None,
            }
            &&& match *json {
                Some(v) => f.json matches Some(b) && json_body(v, *ctx, render_templates) == Ok::<
                    Value,
                    Seq<char>,
                >(b),
                None => f.json is None,
            }
            &&& match *form {
                Some(fs) => f.form matches Some(x) && rendered_pairs(fs@, x@, *ctx, render_form),
                None => f.form is None,
            }
        },
{
    let headers_out = render_pairs(headers, ctx, render_templates);
    let cookie_out = match cookie {
        Some(c) => Some(render_field(c.as_str(), ctx, render_templates)),
        None => None,
    };
    let json_out = match json {
        Some(v) => match render_json_body(v, ctx, render_templates) {
            Ok(b) => Some(b),
            Err(e) => {
                return Err(e);
            },
        },
        None => None,
    };
    let form_out = match form {
        Some(fs) => Some(render_pairs(fs, ctx, render_form)),
        None => None,
    };
    Ok(RenderedFields { headers: headers_out, cookie: cookie_out, json: json_out, form: form_out })
}

} // verus!
