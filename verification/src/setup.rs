//! Setup and teardown calls: the HTTP requests made before a run (or before
//! each connection) and after it, and the rendering of their URL templates.
use vstd::prelude::*;
use handlebars::Handlebars;
use serde_json::Value;
use std::collections::HashMap;
use crate::json::{jsonpath_select, safe_jsonpath, select_values};

verus! {

broadcast use vstd::string::group_string_axioms;

/// A file part of a multipart form.
#[derive(Clone, Debug)]
pub struct MultipartOption {
    pub form_key: String,
    pub path: String,
    pub file_name: String,
    pub mime: String,
}

/// A value taken from a setup response with a JSONPath, under a variable name.
#[derive(Clone, Debug)]
pub struct JsonpathExtract {
    pub key: String,
    pub jsonpath: String,
}

/// An HTTP request made for setup or teardown.
#[derive(Clone, Debug)]
pub struct SetupApiEndpoint {
    pub name: String,
    /// A handlebars template over the run's variables.
    pub url: String,
    pub method: String,
    pub json: Option<Value>,
    pub form_data: Option<HashMap<String, String>>,
    pub multipart_options: Option<Vec<MultipartOption>>,
    pub headers: Option<HashMap<String, String>>,
    pub cookies: Option<String>,
    pub jsonpath_extract: Option<Vec<JsonpathExtract>>,
}

/// What a fresh handlebars registry (`Handlebars::new()`, built-in helpers
/// only, not strict) renders of a template with a JSON context: the text, or
/// the `Debug` text of its error.
pub uninterp spec fn fresh_render(template: Seq<char>, ctx: Value) -> Result<Seq<char>, Seq<char>>;

/// The `Debug` text of a string: quoted, with escapes.
pub uninterp spec fn debug_str(s: Seq<char>) -> Seq<char>;

/// A render outcome as text.
pub open spec fn render_outcome(r: Result<String, String>) -> Result<Seq<char>, Seq<char>> {
    match r {
        Ok(s) => Ok(s@),
        Err(e) => Err(e@),
    }
}

/// Calls `Registry::render_template` on a fresh `Handlebars::new()`: the
/// rendered text, or the `Debug` text of the error.
#[verifier::external_body]
pub(crate) fn render_with_fresh_registry(template: &str, ctx: &Value) -> (r: Result<String, String>)
    ensures
        render_outcome(r) == fresh_render(template@, *ctx),
{
    Handlebars::new().render_template(template, ctx).map_err(|e| format!("{:?}", e))
}

/// Writes a string out with `Debug`.
#[verifier::external_body]
pub(crate) fn str_debug(s: &str) -> (r: String)
    ensures
        r@ == debug_str(s@),
{
    format!("{:?}", s)
}

/// The message for a setup URL that does not render.
pub open spec fn setup_render_error(phase: Seq<char>, item: SetupApiEndpoint, err: Seq<char>) -> Seq<char> {
    phase + " URL模板渲染失败, name: "@ + debug_str(item.name@) + ", url: "@ + debug_str(item.url@) + ", err: "@
        + err
}

/// Whether the URL of the `j`-th item is the first that does not render.
pub open spec fn fails_first_at(opts: Seq<SetupApiEndpoint>, ctx: Value, j: int) -> bool {
    &&& 0 <= j < opts.len()
    &&& forall|k: int| 0 <= k < j ==> #[trigger] fresh_render(opts[k].url@, ctx) is Ok
    &&& fresh_render(opts[j].url@, ctx) is Err
}

/// The error text of a failed render outcome.
pub open spec fn render_error_of(r: Result<Seq<char>, Seq<char>>) -> Seq<char> {
    match r {
        Err(x) => x,
        Ok(_) => Seq::empty(),
    }
}

/// Whether the URLs of the items from the `i`-th on all render.
pub open spec fn urls_render_from(opts: Seq<SetupApiEndpoint>, ctx: Value, i: int) -> bool {
    forall|k: int| i <= k < opts.len() ==> #[trigger] fresh_render(opts[k].url@, ctx) is Ok
}

/// Renders the URL template of every setup item once with the run's
/// variables: `None` stays `None`; otherwise each item keeps everything but
/// its URL, which becomes its rendered template.  The first URL that does not
/// render is an error that names the phase, the item and its URL.
pub fn render_global_setup_urls_once(
    options: Option<Vec<SetupApiEndpoint>>,
    context: &Value,
    phase: &str,
) -> (r: Result<Option<Vec<SetupApiEndpoint>>, String>)
    ensures
        options is None ==> r matches Ok(None),
        options matches Some(o) ==> (r is Ok <==> urls_render_from(o@, *context, 0)),
        options matches Some(o) ==> (r is Ok ==> r matches Ok(Some(_))),
        options matches Some(o) ==> (r matches Ok(Some(v)) ==> {
            &&& v@.len() == o@.len()
            &&& forall|i: int|
                0 <= i < o@.len() ==> fresh_render(o@[i].url@, *context) == Ok::<Seq<char>, Seq<char>>(
                    (#[trigger] v@[i]).url@,
                ) && v@[i] == (SetupApiEndpoint { url: v@[i].url, ..o@[i] })
        }),
        options matches Some(o) ==> (r matches Err(e) ==> exists|j: int|
            #[trigger] fails_first_at(o@, *context, j) && e@ == setup_render_error(
                phase@,
                o@[j],
                render_error_of(fresh_render(o@[j].url@, *context)),
            )),
{
    let opts = match options {
        None => {
            return Ok(None);
        },
        Some(o) => o,
    };
    let ghost orig = opts@;
    let n = opts.len();
    let mut rest = opts;
    let mut out: Vec<SetupApiEndpoint> = Vec::new();
    let mut k: usize = 0;
    while k < n
        invariant
            n == orig.len(),
            options matches Some(o) && o@ == orig,
            k <= n,
            out@.len() == k,
            rest@ == orig.subrange(k as int, n as int),
            forall|i: int|
                0 <= i < k ==> fresh_render(orig[i].url@, *context) == Ok::<Seq<char>, Seq<char>>(
                    (#[trigger] out@[i]).url@,
                ) && out@[i] == (SetupApiEndpoint { url: out@[i].url, ..orig[i] }),
        decreases n - k,
    {
        let mut item = rest.remove(0);
        proof {
            assert(item == orig[k as int]);
        }
        match render_with_fresh_registry(item.url.as_str(), context) {
            Ok(url) => {
                item.url = url;
                out.push(item);
                proof {
                    assert(rest@ =~= orig.subrange(k + 1, n as int));
                }
                k = k + 1;
            },
            Err(e) => {
                let mut m = phase.to_string();
                m.append(" URL模板渲染失败, name: ");
                m.append(str_debug(item.name.as_str()).as_str());
                m.append(", url: ");
                m.append(str_debug(item.url.as_str()).as_str());
                m.append(", err: ");
                m.append(e.as_str());
                proof {
                    assert forall|i: int| 0 <= i < k implies #[trigger] fresh_render(
                        orig[i].url@,
                        *context,
                    ) is Ok by {
                        assert(fresh_render(orig[i].url@, *context) == Ok::<Seq<char>, Seq<char>>(
                            out@[i].url@,
                        ));
                    }
                    assert(fails_first_at(orig, *context, k as int));
                    assert(!urls_render_from(orig, *context, 0)) by {
                        assert(!(fresh_render(orig[k as int].url@, *context) is Ok));
                    }
                }
                return Err(m);
            },
        }
    }
    proof {
        assert forall|i: int| 0 <= i < n implies #[trigger] fresh_render(orig[i].url@, *context) is Ok by {
            assert(fresh_render(orig[i].url@, *context) == Ok::<Seq<char>, Seq<char>>(out@[i].url@));
        }
    }
    Ok(Some(out))
}

/// The URL an item keeps when its template is rendered leniently: the
/// rendered text, or the template itself when it does not render.
pub open spec fn lenient_url(url: Seq<char>, ctx: Value) -> Seq<char> {
    match fresh_render(url, ctx) {
        Ok(u) => u,
        Err(_) => url,
    }
}

/// Renders the URL template of every setup item with the run's variables,
/// keeping a template that does not render as it is: `None` stays `None`;
/// each item keeps everything but its URL.
pub fn render_setup_urls_or_keep(options: Option<Vec<SetupApiEndpoint>>, context: &Value) -> (r: Option<
    Vec<SetupApiEndpoint>,
>)
    ensures
        options is None ==> r is None,
        options matches Some(o) ==> (r matches Some(v) && v@.len() == o@.len() && forall|i: int|
            0 <= i < o@.len() ==> (#[trigger] v@[i]).url@ == lenient_url(o@[i].url@, *context) && v@[i] == (
            SetupApiEndpoint { url: v@[i].url, ..o@[i] })),
{
    let opts = match options {
        None => {
            return None;
        },
        Some(o) => o,
    };
    let ghost orig = opts@;
    let n = opts.len();
    let mut rest = opts;
    let mut out: Vec<SetupApiEndpoint> = Vec::new();
    let mut k: usize = 0;
    while k < n
        invariant
            n == orig.len(),
            options matches Some(o) && o@ == orig,
            k <= n,
            out@.len() == k,
            rest@ == orig.subrange(k as int, n as int),
            forall|i: int|
                0 <= i < k ==> (#[trigger] out@[i]).url@ == lenient_url(orig[i].url@, *context) && out@[i]
                    == (SetupApiEndpoint { url: out@[i].url, ..orig[i] }),
        decreases n - k,
    {
        let mut item = rest.remove(0);
        proof {
            assert(item == orig[k as int]);
        }
        match render_with_fresh_registry(item.url.as_str(), context) {
            Ok(url) => {
                item.url = url;
            },
            Err(_) => {},
        }
        out.push(item);
        proof {
            assert(rest@ =~= orig.subrange(k + 1, n as int));
        }
        k = k + 1;
    }
    Some(out)
}

/// The first value a setup call's JSONPath finds in its response body, if it
/// finds any, or the query's error message.
pub fn first_selected(body: &Value, path: &str) -> (r: Result<Option<Value>, String>)
    requires
        safe_jsonpath(path@),
    ensures
        match jsonpath_select(*body, path@) {
            Ok(found) => r == Ok::<Option<Value>, String>(
                if found.len() > 0 {
                    Some(found[0])
                } else {
                    None
                },
            ),
            Err(m) => r matches Err(e) && e@ == m,
        },
{
    match select_values(body, path) {
        Ok(found) => {
            if found.len() > 0 {
                Ok(Some(found[0].clone()))
            } else {
                Ok(None)
            }
        },
        Err(e) => Err(e),
    }
}

} // verus!
