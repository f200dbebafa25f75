//! One-time preparation of a WebSocket endpoint before the run: message
//! templates with placeholders are registered with handlebars under their own
//! names, messages without placeholders are kept as they are, and the paths
//! that pair replies with sends are compiled.  During the run, messages are
//! rendered from the prepared forms and match keys are read with the compiled
//! paths.
use vstd::prelude::*;
use handlebars::Handlebars;
use jsonpath_lib::Compiled;
use serde_json::Value;
use std::sync::Arc;
use crate::json::{
    compile_path, compiled_safe, compiled_select, json_display, safe_jsonpath, json_parsed, json_parses, json_text_parsed, json_text_parses,
    json_to_string, jsonpath_compiles, jsonpath_select, match_key, parse_json, parse_json_text, select_compiled,
    value_to_match_key,
};
use crate::text::{
    chars_of, decimal, decimal_string, find_chars, find_from, lemma_decimal_injective, string_from_chars,
};
use crate::ws_model::{Heartbeat, MessageMatcher, WsMessageTemplate, WsMode};
use crate::ws_stats::key_text;

verus! {

broadcast use vstd::string::group_string_axioms;

#[verifier::external_type_specification]
#[verifier::external_body]
pub struct ExHandlebars<'reg>(Handlebars<'reg>);

/// What a handlebars registry holds: template sources by name.
pub uninterp spec fn registered_templates(hb: Handlebars<'static>) -> Map<Seq<char>, Seq<char>>;

/// Whether handlebars compiles the text as a template.
pub uninterp spec fn template_compiles(source: Seq<char>) -> bool;

/// The `Debug` text of the error handlebars reports when it cannot compile
/// `source` registered as `name`.
pub uninterp spec fn template_error_debug(name: Seq<char>, source: Seq<char>) -> Seq<char>;

/// Calls `Registry::register_template_string`: when the source compiles it is
/// registered under `name` (replacing what was there); otherwise nothing
/// changes and the error's `Debug` text is returned.
#[verifier::external_body]
fn register_template(hb: &mut Handlebars<'static>, name: &str, source: &str) -> (r: Result<(), String>)
    ensures
        r is Ok <==> template_compiles(source@),
        r is Ok ==> registered_templates(*final(hb)) == registered_templates(*old(hb)).insert(
            name@,
            source@,
        ),
        r matches Err(e) ==> registered_templates(*final(hb)) == registered_templates(*old(hb))
            && e@ == template_error_debug(name@, source@),
{
    hb.register_template_string(name, source).map_err(|e| format!("{:?}", e))
}

/// Whether `out` is a text that the registry `hb` can give when it renders
/// the template `source` against `ctx`.  What a render gives depends on the
/// registry's helpers and partials as well as on the template and the
/// context, and a helper may draw random values (as `ws_uuid` does), so this
/// is a relation: a template may render to more than one text.
pub uninterp spec fn renders_to(hb: Handlebars<'static>, source: Seq<char>, ctx: Value, out: Seq<char>) -> bool;

/// Calls `Registry::render` with a JSON context: the rendered text, or the
/// error's message.  Only a name with a registered template renders, and
/// what it renders is a rendering of that template against `ctx`.  Whether
/// the render succeeds, and which text it gives, is not stated: helpers may
/// fail or draw random values.
#[verifier::external_body]
fn render_named(hb: &Handlebars<'static>, name: &str, ctx: &Value) -> (r: Result<String, String>)
    ensures
        !registered_templates(*hb).dom().contains(name@) ==> r is Err,
        r matches Ok(s) ==> renders_to(*hb, registered_templates(*hb)[name@], *ctx, s@),
{
    hb.render(name, ctx).map_err(|e| e.to_string())
}

/// Whether a text holds a `{{` placeholder opening.  Texts without one are
/// sent as they are; texts with one go through rendering.
pub open spec fn has_var_spec(s: Seq<char>) -> bool {
    find_from(s, "{{"@, 0) is Some
}

/// Whether a text holds a `{{` placeholder opening (see `has_var_spec`).
pub fn has_handlebars_var(s: &str) -> (r: bool)
    ensures
        r == has_var_spec(s@),
{
    let text = chars_of(s);
    let pat = chars_of("{{");
    find_chars(&text, &pat, 0).is_some()
}

/// The registry name of the `idx`-th template of kind `kind` ("text" or
/// "json") in `scope`: `scope.kind.idx`.
pub open spec fn template_name(scope: Seq<char>, kind: Seq<char>, idx: nat) -> Seq<char> {
    scope + "."@ + kind + "."@ + decimal(idx)
}

fn make_template_name(scope: &str, kind: &str, idx: usize) -> (r: String)
    ensures
        r@ == template_name(scope@, kind@, idx as nat),
{
    let mut r = scope.to_string();
    r.append(".");
    r.append(kind);
    r.append(".");
    r.append(decimal_string(idx).as_str());
    r
}

/// Whether a message template can be prepared: a text or JSON text with a
/// placeholder must compile as a handlebars template; anything else always can.
pub open spec fn template_ok(t: WsMessageTemplate) -> bool {
    match t {
        WsMessageTemplate::Text(x) => !has_var_spec(x@) || template_compiles(x@),
        WsMessageTemplate::Binary(_) => true,
        WsMessageTemplate::Json(v) => !has_var_spec(json_display(v)) || template_compiles(json_display(v)),
    }
}

/// Whether every template of a list can be prepared.
pub open spec fn all_templates_ok(ts: Seq<WsMessageTemplate>) -> bool {
    forall|i: int| 0 <= i < ts.len() ==> template_ok(#[trigger] ts[i])
}

/// Whether the paths a mode pairs replies with compile: both paths of JSONPath
/// pairing must; other modes have none.
pub open spec fn paths_ok(mode: WsMode) -> bool {
    match mode {
        WsMode::RequestResponse { match_by: MessageMatcher::JsonPath { send_path, recv_path }, .. } =>
            jsonpath_compiles(send_path@) && jsonpath_compiles(recv_path@),
        _ => true,
    }
}

/// Whether the paths a mode pairs replies with are within `safe_jsonpath`.
pub open spec fn paths_safe(mode: WsMode) -> bool {
    match mode {
        WsMode::RequestResponse { match_by: MessageMatcher::JsonPath { send_path, recv_path }, .. } =>
            safe_jsonpath(send_path@) && safe_jsonpath(recv_path@),
        _ => true,
    }
}

/// Whether the paths a mode pairs replies with are within `safe_jsonpath`
/// (see `paths_safe`).
pub fn mode_paths_safe(mode: &WsMode) -> (r: bool)
    ensures
        r == paths_safe(*mode),
{
    match mode {
        WsMode::RequestResponse { match_by: MessageMatcher::JsonPath { send_path, recv_path }, .. } =>
            crate::json::jsonpath_is_safe(send_path.as_str()) && crate::json::jsonpath_is_safe(recv_path.as_str()),
        _ => true,
    }
}

/// Whether the compiled paths of a matcher were compiled from paths within
/// `safe_jsonpath`.
pub open spec fn matcher_safe(m: PrebuiltMatcher) -> bool {
    match m {
        PrebuiltMatcher::JsonPath { send, recv } => compiled_safe(send) && compiled_safe(recv),
        _ => true,
    }
}

/// Whether an endpoint can be prepared: its periodic and on-connect messages,
/// its heartbeat message and its pairing paths all can.
pub open spec fn endpoint_ok(
    send_messages: Option<Seq<WsMessageTemplate>>,
    on_connect: Option<Seq<WsMessageTemplate>>,
    heartbeat: Option<Heartbeat>,
    mode: WsMode,
) -> bool {
    &&& match send_messages {
        Some(t) => all_templates_ok(t),
        None => true,
    }
    &&& match on_connect {
        Some(t) => all_templates_ok(t),
        None => true,
    }
    &&& match heartbeat {
        Some(h) => match h.payload {
            Some(t) => template_ok(t),
            None => true,
        },
        None => true,
    }
    &&& paths_ok(mode)
}

/// A message prepared for sending.
pub enum PrebuiltMessage {
    /// Text without placeholders, sent as it is.
    StaticText(String),
    /// Text with placeholders, registered under `name`.
    TemplatedText { name: String },
    /// Binary data, sent as it is.
    Binary(Vec<u8>),
    /// JSON without placeholders: its text and its value.
    StaticJson { rendered: String, value: Value },
    /// JSON with placeholders, registered under `name`; `fallback` is sent
    /// when rendering fails.
    TemplatedJson { name: String, fallback: Value },
}

impl PrebuiltMessage {
    /// Prepares the `idx`-th message of `scope`.  Text with a placeholder is
    /// registered as `scope.text.idx`, JSON whose text has one as
    /// `scope.json.idx`; other messages are kept as they are.  A template
    /// handlebars cannot compile is an error that names it.
    pub fn from_template(
        idx: usize,
        scope: &str,
        template: &WsMessageTemplate,
        hb: &mut Handlebars<'static>,
    ) -> (r: Result<Self, String>)
        ensures
            r matches Ok(m) ==> prepared_as(m, idx as nat, scope@, *template),
            r matches Ok(m) ==> registered_for(m, *template, registered_templates(*final(hb))),
            forall|k: Seq<char>| #[trigger]
                not_at(k, scope@, idx as nat) ==> keeps(
                    registered_templates(*old(hb)),
                    registered_templates(*final(hb)),
                    k,
                ),
            match *template {
                WsMessageTemplate::Text(t) => if has_var_spec(t@) {
                    let name = template_name(scope@, "text"@, idx as nat);
                    if template_compiles(t@) {
                        &&& r matches Ok(PrebuiltMessage::TemplatedText { name: n }) && n@ == name
                        &&& registered_templates(*final(hb)) == registered_templates(
                            *old(hb),
                        ).insert(name, t@)
                    } else {
                        &&& r matches Err(e) && e@ == "注册文本模板 "@ + name + " 失败: "@
                            + template_error_debug(name, t@)
                        &&& registered_templates(*final(hb)) == registered_templates(*old(hb))
                    }
                } else {
                    &&& r matches Ok(PrebuiltMessage::StaticText(s)) && s@ == t@
                    &&& registered_templates(*final(hb)) == registered_templates(*old(hb))
                },
                WsMessageTemplate::Binary(b) => {
                    &&& r matches Ok(PrebuiltMessage::Binary(c)) && c@ == b@
                    &&& registered_templates(*final(hb)) == registered_templates(*old(hb))
                },
                WsMessageTemplate::Json(v) => if has_var_spec(json_display(v)) {
                    let name = template_name(scope@, "json"@, idx as nat);
                    if template_compiles(json_display(v)) {
                        &&& r matches Ok(PrebuiltMessage::TemplatedJson { name: n, fallback }) && n@
                            == name && fallback == v
                        &&& registered_templates(*final(hb)) == registered_templates(
                            *old(hb),
                        ).insert(name, json_display(v))
                    } else {
                        &&& r matches Err(e) && e@ == "注册 JSON 模板 "@ + name + " 失败: "@
                            + template_error_debug(name, json_display(v))
                        &&& registered_templates(*final(hb)) == registered_templates(*old(hb))
                    }
                } else {
                    &&& r matches Ok(PrebuiltMessage::StaticJson { rendered, value }) && rendered@
                        == json_display(v) && value == v
                    &&& registered_templates(*final(hb)) == registered_templates(*old(hb))
                },
            },
    {
        match template {
            WsMessageTemplate::Text(t) => {
                if has_handlebars_var(t.as_str()) {
                    let name = make_template_name(scope, "text", idx);
                    match register_template(hb, name.as_str(), t.as_str()) {
                        Ok(()) => Ok(PrebuiltMessage::TemplatedText { name }),
                        Err(e) => {
                            let mut m = "注册文本模板 ".to_string();
                            m.append(name.as_str());
                            m.append(" 失败: ");
                            m.append(e.as_str());
                            Err(m)
                        },
                    }
                } else {
                    Ok(PrebuiltMessage::StaticText(t.clone()))
                }
            },
            WsMessageTemplate::Binary(b) => Ok(PrebuiltMessage::Binary(b.clone())),
            WsMessageTemplate::Json(v) => {
                let raw = json_to_string(v);
                if has_handlebars_var(raw.as_str()) {
                    let name = make_template_name(scope, "json", idx);
                    match register_template(hb, name.as_str(), raw.as_str()) {
                        Ok(()) => Ok(PrebuiltMessage::TemplatedJson { name, fallback: v.clone() }),
                        Err(e) => {
                            let mut m = "注册 JSON 模板 ".to_string();
                            m.append(name.as_str());
                            m.append(" 失败: ");
                            m.append(e.as_str());
                            Err(m)
                        },
                    }
                } else {
                    Ok(PrebuiltMessage::StaticJson { rendered: raw, value: v.clone() })
                }
            },
        }
    }
}

/// How replies are paired with sends, prepared.
pub enum PrebuiltMatcher {
    /// One-way mode: no pairing.
    Unpaired,
    /// Keys read with compiled JSONPath queries.
    JsonPath { send: Compiled, recv: Compiled },
    /// One queue for all sends.
    Sequential,
}

/// An endpoint prepared for the run.
pub struct EndpointPrebuilt {
    pub send_messages: Vec<PrebuiltMessage>,
    pub on_connect: Vec<PrebuiltMessage>,
    pub heartbeat_payload: Option<PrebuiltMessage>,
    pub matcher: PrebuiltMatcher,
    /// The registry with every template of the endpoint (and the `ws_uuid` helper).
    pub handlebars: Arc<Handlebars<'static>>,
}

/// The text a message template is registered with: the text itself, or the
/// JSON's compact text.
pub open spec fn template_source(t: WsMessageTemplate) -> Seq<char> {
    match t {
        WsMessageTemplate::Text(x) => x@,
        WsMessageTemplate::Json(v) => json_display(v),
        WsMessageTemplate::Binary(_) => Seq::empty(),
    }
}

/// Whether the registry `regs` holds the template of prepared message `m`
/// (made from template `t`) under the message's name, with `t`'s source.
/// Messages that are not templates need nothing registered.
pub open spec fn registered_for(m: PrebuiltMessage, t: WsMessageTemplate, regs: Map<Seq<char>, Seq<char>>) -> bool {
    match m {
        PrebuiltMessage::TemplatedText { name } => regs.dom().contains(name@) && regs[name@] == template_source(t),
        PrebuiltMessage::TemplatedJson { name, .. } => regs.dom().contains(name@) && regs[name@]
            == template_source(t),
        _ => true,
    }
}

/// Whether `k` is the name of no template at position `idx` of `scope`.
pub open spec fn not_at(k: Seq<char>, scope: Seq<char>, idx: nat) -> bool {
    forall|kind: Seq<char>| is_kind(kind) ==> k != #[trigger] template_name(scope, kind, idx)
}

/// Whether `k` is the name of no template of `scope`.
pub open spec fn outside_scope(k: Seq<char>, scope: Seq<char>) -> bool {
    forall|kind: Seq<char>, idx: nat| is_kind(kind) ==> k != #[trigger] template_name(scope, kind, idx)
}

/// Whether the registry `after` still holds what `before` held under `k`.
pub open spec fn keeps(before: Map<Seq<char>, Seq<char>>, after: Map<Seq<char>, Seq<char>>, k: Seq<char>) -> bool {
    before.dom().contains(k) ==> after.dom().contains(k) && after[k] == before[k]
}

/// Whether `m` is what `from_template` makes of template `t` as the
/// `idx`-th message of `scope`: text without a placeholder is kept as it is,
/// text with one becomes the template named `scope.text.idx`; binary data is
/// kept; JSON whose text has no placeholder is kept with its compact text,
/// JSON whose text has one becomes the template named `scope.json.idx` with
/// the JSON as fallback.
pub open spec fn prepared_as(m: PrebuiltMessage, idx: nat, scope: Seq<char>, t: WsMessageTemplate) -> bool {
    match t {
        WsMessageTemplate::Text(x) => if has_var_spec(x@) {
            m matches PrebuiltMessage::TemplatedText { name } && name@ == template_name(scope, "text"@, idx)
        } else {
            m matches PrebuiltMessage::StaticText(s) && s@ == x@
        },
        WsMessageTemplate::Binary(b) => m matches PrebuiltMessage::Binary(c) && c@ == b@,
        WsMessageTemplate::Json(v) => if has_var_spec(json_display(v)) {
            m matches PrebuiltMessage::TemplatedJson { name, fallback } && name@ == template_name(
                scope,
                "json"@,
                idx,
            ) && fallback == v
        } else {
            m matches PrebuiltMessage::StaticJson { rendered, value } && rendered@ == json_display(v)
                && value == v
        },
    }
}

/// Prepares a list of messages of one part of an endpoint, in order: each
/// template is registered under its own name in the part's scope, and the
/// registry keeps what it held under every name outside that scope.
fn prepare_list(
    templates: &Vec<WsMessageTemplate>,
    endpoint_name: &str,
    part: &str,
    hb: &mut Handlebars<'static>,
) -> (r: Result<Vec<PrebuiltMessage>, String>)
    requires
        is_part(part@),
    ensures
        r is Ok <==> all_templates_ok(templates@),
        r matches Ok(v) ==> v@.len() == templates@.len() && forall|i: int|
            0 <= i < v@.len() ==> prepared_as(
                #[trigger] v@[i],
                i as nat,
                scope_spec(endpoint_name@, part@),
                templates@[i],
            ) && registered_for(v@[i], templates@[i], registered_templates(*final(hb))),
        forall|k: Seq<char>| #[trigger]
            outside_scope(k, scope_spec(endpoint_name@, part@)) ==> keeps(
                registered_templates(*old(hb)),
                registered_templates(*final(hb)),
                k,
            ),
{
    let scope = scope_of(endpoint_name, part);
    let ghost sc = scope_spec(endpoint_name@, part@);
    let ghost regs0 = registered_templates(*hb);
    let mut out: Vec<PrebuiltMessage> = Vec::new();
    let n = templates.len();
    for i in 0..n
        invariant
            n == templates@.len(),
            scope@ == sc,
            sc == scope_spec(endpoint_name@, part@),
            regs0 == registered_templates(*old(hb)),
            is_part(part@),
            out@.len() == i,
            forall|j: int| 0 <= j < i ==> prepared_as(#[trigger] out@[j], j as nat, sc, templates@[j]),
            forall|j: int|
                0 <= j < i ==> registered_for(#[trigger] out@[j], templates@[j], registered_templates(*hb)),
            forall|j: int| 0 <= j < i ==> template_ok(#[trigger] templates@[j]),
            forall|k: Seq<char>| #[trigger]
                outside_scope(k, sc) ==> keeps(regs0, registered_templates(*hb), k),
    {
        let ghost regs_before = registered_templates(*hb);
        let m = match PrebuiltMessage::from_template(i, scope.as_str(), &templates[i], hb) {
            Ok(m) => m,
            Err(e) => {
                proof {
                    assert(!template_ok(templates@[i as int]));
                    assert forall|k: Seq<char>| #[trigger]
                        outside_scope(k, scope_spec(endpoint_name@, part@)) implies keeps(
                        regs0,
                        registered_templates(*hb),
                        k,
                    ) by {
                        assert(outside_scope(k, sc));
                        assert(keeps(regs0, regs_before, k));
                        assert(not_at(k, sc, i as nat));
                        assert(keeps(regs_before, registered_templates(*hb), k));
                    }
                }
                return Err(e);
            },
        };
        proof {
            assert(template_ok(templates@[i as int]));
            let regs_after = registered_templates(*hb);
            assert forall|k: Seq<char>| #[trigger] outside_scope(k, sc) implies keeps(regs0, regs_after, k) by {
                assert(not_at(k, sc, i as nat));
            }
            assert forall|j: int| 0 <= j < i implies registered_for(
                #[trigger] out@[j],
                templates@[j],
                regs_after,
            ) by {
                let mj = out@[j];
                match mj {
                    PrebuiltMessage::TemplatedText { name } => {
                        assert forall|kind: Seq<char>| is_kind(kind) implies name@ != #[trigger] template_name(
                            sc,
                            kind,
                            i as nat,
                        ) by {
                            if name@ == template_name(sc, kind, i as nat) {
                                law_template_names_distinct(
                                    endpoint_name@,
                                    part@,
                                    "text"@,
                                    j as nat,
                                    part@,
                                    kind,
                                    i as nat,
                                );
                            }
                        }
                        assert(not_at(name@, sc, i as nat));
                    },
                    PrebuiltMessage::TemplatedJson { name, .. } => {
                        assert forall|kind: Seq<char>| is_kind(kind) implies name@ != #[trigger] template_name(
                            sc,
                            kind,
                            i as nat,
                        ) by {
                            if name@ == template_name(sc, kind, i as nat) {
                                law_template_names_distinct(
                                    endpoint_name@,
                                    part@,
                                    "json"@,
                                    j as nat,
                                    part@,
                                    kind,
                                    i as nat,
                                );
                            }
                        }
                        assert(not_at(name@, sc, i as nat));
                    },
                    _ => {},
                }
            }
        }
        out.push(m);
    }
    Ok(out)
}

/// The scope of an endpoint's messages: `ep.<name>.<part>`.
fn scope_of(endpoint_name: &str, part: &str) -> (r: String)
    ensures
        r@ == "ep."@ + endpoint_name@ + "."@ + part@,
{
    let mut r = "ep.".to_string();
    r.append(endpoint_name);
    r.append(".");
    r.append(part);
    r
}

/// The message for a JSONPath that does not compile.
fn path_error(which: &str, path: &str, e: &str) -> (r: String)
    ensures
        r@ == which@ + " 编译失败 "@ + path@ + ": "@ + e@,
{
    let mut m = which.to_string();
    m.append(" 编译失败 ");
    m.append(path);
    m.append(": ");
    m.append(e);
    m
}

impl EndpointPrebuilt {
    /// Prepares an endpoint: its periodic messages (scope `ep.<name>.send`),
    /// its on-connect messages (`ep.<name>.onconn`), its heartbeat message
    /// (`ep.<name>.hb`), and, for JSONPath pairing, both paths compiled.  `hb`
    /// is the registry to use (it carries the `ws_uuid` helper).  Fails on the
    /// first template that does not compile or path that does not compile.
    pub fn build(
        endpoint_name: &str,
        send_messages: Option<&Vec<WsMessageTemplate>>,
        on_connect: Option<&Vec<WsMessageTemplate>>,
        heartbeat: Option<&Heartbeat>,
        mode: &WsMode,
        hb: Handlebars<'static>,
    ) -> (r: Result<Self, String>)
        requires
            paths_safe(*mode),
        ensures
            r matches Ok(p) ==> {
                &&& match send_messages {
                    Some(t) => p.send_messages@.len() == t@.len() && forall|i: int|
                        0 <= i < t@.len() ==> prepared_as(
                            #[trigger] p.send_messages@[i],
                            i as nat,
                            scope_spec(endpoint_name@, "send"@),
                            t@[i],
                        ) && registered_for(p.send_messages@[i], t@[i], registered_templates(*p.handlebars)),
                    None => p.send_messages@.len() == 0,
                }
                &&& match on_connect {
                    Some(t) => p.on_connect@.len() == t@.len() && forall|i: int|
                        0 <= i < t@.len() ==> prepared_as(
                            #[trigger] p.on_connect@[i],
                            i as nat,
                            scope_spec(endpoint_name@, "onconn"@),
                            t@[i],
                        ) && registered_for(p.on_connect@[i], t@[i], registered_templates(*p.handlebars)),
                    None => p.on_connect@.len() == 0,
                }
                &&& match heartbeat {
                    Some(h) => match h.payload {
                        Some(t) => p.heartbeat_payload matches Some(m) && prepared_as(
                            m,
                            0,
                            scope_spec(endpoint_name@, "hb"@),
                            t,
                        ) && registered_for(m, t, registered_templates(*p.handlebars)),
                        None => p.heartbeat_payload is None,
                    },
                    None => p.heartbeat_payload is None,
                }
                &&& match *mode {
                    WsMode::OneWay => p.matcher is Unpaired,
                    WsMode::RequestResponse { match_by, .. } => match match_by {
                        MessageMatcher::JsonPath { send_path, recv_path } => match p.matcher {
                        PrebuiltMatcher::JsonPath { send, recv } => {
                            &&& compiled_safe(send)
                            &&& compiled_safe(recv)
                            &&& forall|v: Value| #[trigger]
                                compiled_select(send, v) == jsonpath_select(v, send_path@)
                            &&& forall|v: Value| #[trigger]
                                compiled_select(recv, v) == jsonpath_select(v, recv_path@)
                        },
                        _ => false,
                    },
                        MessageMatcher::Sequential => p.matcher is Sequential,
                    },
                }
            },
            r is Ok <==> endpoint_ok(
                match send_messages {
                    Some(t) => Some(t@),
                    None => None,
                },
                match on_connect {
                    Some(t) => Some(t@),
                    None => None,
                },
                match heartbeat {
                    Some(h) => Some(*h),
                    None => None,
                },
                *mode,
            ),
    {
        let mut hb = hb;
        let send = match send_messages {
            Some(t) => prepare_list(t, endpoint_name, "send", &mut hb)?,
            None => Vec::new(),
        };
        let ghost regs_send = registered_templates(hb);
        let onconn = match on_connect {
            Some(t) => prepare_list(t, endpoint_name, "onconn", &mut hb)?,
            None => Vec::new(),
        };
        let ghost regs_onconn = registered_templates(hb);
        let heartbeat_payload = match heartbeat {
            Some(h) => match &h.payload {
                Some(t) => Some(
                    PrebuiltMessage::from_template(
                        0,
                        scope_of(endpoint_name, "hb").as_str(),
                        t,
                        &mut hb,
                    )?,
                ),
                None => None,
            },
            None => None,
        };
        proof {
            reveal_strlit("send");
            reveal_strlit("onconn");
            reveal_strlit("hb");
            let ep = endpoint_name@;
            let fin = registered_templates(hb);
            if let Some(t) = send_messages {
                assert forall|i: int| 0 <= i < t@.len() implies registered_for(#[trigger] send@[i], t@[i], fin) by {
                    match send@[i] {
                        PrebuiltMessage::TemplatedText { name } => {
                            lemma_other_part_names(ep, "send"@, "text"@, i as nat, "onconn"@);
                            lemma_other_part_names(ep, "send"@, "text"@, i as nat, "hb"@);
                            assert(not_at(name@, scope_spec(ep, "hb"@), 0));
                        },
                        PrebuiltMessage::TemplatedJson { name, .. } => {
                            lemma_other_part_names(ep, "send"@, "json"@, i as nat, "onconn"@);
                            lemma_other_part_names(ep, "send"@, "json"@, i as nat, "hb"@);
                            assert(not_at(name@, scope_spec(ep, "hb"@), 0));
                        },
                        _ => {},
                    }
                }
            }
            if let Some(t) = on_connect {
                assert forall|i: int| 0 <= i < t@.len() implies registered_for(#[trigger] onconn@[i], t@[i], fin) by {
                    match onconn@[i] {
                        PrebuiltMessage::TemplatedText { name } => {
                            lemma_other_part_names(ep, "onconn"@, "text"@, i as nat, "hb"@);
                            assert(not_at(name@, scope_spec(ep, "hb"@), 0));
                        },
                        PrebuiltMessage::TemplatedJson { name, .. } => {
                            lemma_other_part_names(ep, "onconn"@, "json"@, i as nat, "hb"@);
                            assert(not_at(name@, scope_spec(ep, "hb"@), 0));
                        },
                        _ => {},
                    }
                }
            }
        }
        let matcher = match mode {
            WsMode::OneWay => PrebuiltMatcher::Unpaired,
            WsMode::RequestResponse { match_by, .. } => match match_by {
                MessageMatcher::JsonPath { send_path, recv_path } => {
                    let send = match compile_path(send_path.as_str()) {
                        Ok(c) => c,
                        Err(e) => {
                            return Err(path_error("send_path", send_path.as_str(), e.as_str()));
                        },
                    };
                    let recv = match compile_path(recv_path.as_str()) {
                        Ok(c) => c,
                        Err(e) => {
                            return Err(path_error("recv_path", recv_path.as_str(), e.as_str()));
                        },
                    };
                    proof {
                        assert(safe_jsonpath(send_path@));
                        assert(safe_jsonpath(recv_path@));
                    }
                    PrebuiltMatcher::JsonPath { send, recv }
                },
                MessageMatcher::Sequential => PrebuiltMatcher::Sequential,
            },
        };
        Ok(EndpointPrebuilt {
            send_messages: send,
            on_connect: onconn,
            heartbeat_payload,
            matcher,
            handlebars: Arc::new(hb),
        })
    }
}

/// The JSON value a text holds, if it is JSON.
pub open spec fn text_json(t: Seq<char>) -> Option<Value> {
    if json_text_parses(t) {
        Some(json_text_parsed(t))
    } else {
        None
    }
}

/// The JSON value a text holds, if it is JSON (see `text_json`).
fn text_json_value(t: &str) -> (r: Option<Value>)
    ensures
        r == text_json(t@),
{
    match parse_json_text(t) {
        Ok(v) => Some(v),
        Err(_) => None,
    }
}

/// The key a selection gives: the match key of the first value found, if any.
pub open spec fn key_of_selection(sel: Result<Seq<Value>, Seq<char>>) -> Option<Seq<char>> {
    match sel {
        Ok(found) => if found.len() > 0 {
            Some(match_key(found[0]))
        } else {
            None
        },
        Err(_) => None,
    }
}

/// The number of bytes of the UTF-8 encoding of a text.
pub open spec fn utf8_len(s: Seq<char>) -> nat {
    vstd::utf8::encode_utf8(s).len()
}

/// A rendered message payload.
pub enum Payload {
    Text(String),
    Binary(Vec<u8>),
}

/// The text of a render outcome, if it succeeded.
pub open spec fn ok_text(r: Result<String, String>) -> Option<Seq<char>> {
    match r {
        Ok(s) => Some(s@),
        Err(_) => None,
    }
}

/// Whether `r` is the payload, its length in bytes and its JSON value for
/// message `msg` when rendering gave `out` (`None` when it failed; static
/// and binary messages are not rendered).  Static messages are sent as
/// prepared; templated text is sent as rendered, or empty when rendering
/// failed; templated JSON is sent as rendered, or as its fallback's JSON text
/// when rendering failed, and its value falls back to the fallback when the
/// text sent is not JSON.
pub open spec fn payload_is(msg: PrebuiltMessage, out: Option<Seq<char>>, r: (Payload, usize, Option<Value>)) -> bool {
    match msg {
        PrebuiltMessage::StaticText(t) => r.0 matches Payload::Text(s) && s@ == t@ && r.1 == utf8_len(t@) as usize
            && r.2 == text_json(t@),
        PrebuiltMessage::Binary(b) => r.0 matches Payload::Binary(c) && c@ == b@ && r.1 == b@.len() && r.2 is None,
        PrebuiltMessage::StaticJson { rendered, value } => r.0 matches Payload::Text(s) && s@ == rendered@ && r.1
            == utf8_len(rendered@) as usize && r.2 == Some(value),
        PrebuiltMessage::TemplatedText { .. } => {
            let sent = match out {
                Some(x) => x,
                None => Seq::<char>::empty(),
            };
            r.0 matches Payload::Text(s) && s@ == sent && r.1 == utf8_len(sent) as usize && r.2 == text_json(sent)
        },
        PrebuiltMessage::TemplatedJson { fallback, .. } => {
            let sent = match out {
                Some(x) => x,
                None => json_display(fallback),
            };
            r.0 matches Payload::Text(s) && s@ == sent && r.1 == utf8_len(sent) as usize && r.2 == Some(
                if json_text_parses(sent) {
                    json_text_parsed(sent)
                } else {
                    fallback
                },
            )
        },
    }
}

/// The payload of a prepared message from the outcome of rendering it (see
/// `payload_is`); the outcome is ignored for static and binary messages.
pub fn payload_from_render(msg: &PrebuiltMessage, rendered: Result<String, String>) -> (r: (
    Payload,
    usize,
    Option<Value>,
))
    ensures
        payload_is(*msg, ok_text(rendered), r),
{
    match msg {
        PrebuiltMessage::StaticText(t) => (Payload::Text(t.clone()), t.as_str().len(), text_json_value(t.as_str())),
        PrebuiltMessage::TemplatedText { .. } => {
            let text = match rendered {
                Ok(s) => s,
                Err(_) => String::new(),
            };
            let len = text.as_str().len();
            let json = text_json_value(text.as_str());
            (Payload::Text(text), len, json)
        },
        PrebuiltMessage::Binary(b) => (Payload::Binary(b.clone()), b.len(), None),
        PrebuiltMessage::StaticJson { rendered: text, value } => (
            Payload::Text(text.clone()),
            text.as_str().len(),
            Some(value.clone()),
        ),
        PrebuiltMessage::TemplatedJson { fallback, .. } => {
            let text = match rendered {
                Ok(s) => s,
                Err(_) => json_to_string(fallback),
            };
            let len = text.as_str().len();
            let value = match parse_json_text(text.as_str()) {
                Ok(v) => v,
                Err(_) => fallback.clone(),
            };
            (Payload::Text(text), len, Some(value))
        },
    }
}

/// Calls `Registry::render_template`, which compiles `template` and renders
/// it with the registry's helpers and partials: the rendered text, or the
/// error's message.  What it renders is a rendering of `template` against
/// `ctx`; whether it succeeds is not stated (helpers may fail).
#[verifier::external_body]
fn render_inline(hb: &Handlebars<'static>, template: &str, ctx: &Value) -> (r: Result<String, String>)
    ensures
        r matches Ok(s) ==> renders_to(*hb, template@, *ctx, s@),
{
    hb.render_template(template, ctx).map_err(|e| e.to_string())
}

/// Whether `out` is the text a handshake field `t` is sent as: when
/// rendering is on, a rendering of `t` against `ctx` with the registry `hb`,
/// or `t` itself when rendering fails; when it is off, `t` itself.
pub open spec fn handshake_text(hb: Handlebars<'static>, t: Seq<char>, ctx: Value, on: bool, out: Seq<char>) -> bool {
    if on {
        out == t || renders_to(hb, t, ctx, out)
    } else {
        out == t
    }
}

/// A handshake field's text (see `handshake_text`).
fn render_handshake_field(hb: &Handlebars<'static>, t: &str, ctx: &Value, on: bool) -> (r: String)
    ensures
        handshake_text(*hb, t@, *ctx, on, r@),
{
    if on {
        match render_inline(hb, t, ctx) {
            Ok(x) => x,
            Err(_) => t.to_string(),
        }
    } else {
        t.to_string()
    }
}

/// Fills in the URL and the header values of a connection's handshake with
/// the run's variables `ctx`, using the endpoint's registry, when rendering
/// is on (see `handshake_text`); header names are kept, in order.
pub fn render_handshake(
    hb: &Handlebars<'static>,
    url: &str,
    headers: &Option<Vec<(String, String)>>,
    ctx: &Value,
    on: bool,
) -> (r: (String, Option<Vec<(String, String)>>))
    ensures
        handshake_text(*hb, url@, *ctx, on, r.0@),
        match *headers {
            Some(hs) => r.1 matches Some(out) && out@.len() == hs@.len() && forall|i: int|
                0 <= i < hs@.len() ==> (#[trigger] out@[i]).0@ == hs@[i].0@ && handshake_text(
                    *hb,
                    hs@[i].1@,
                    *ctx,
                    on,
                    out@[i].1@,
                ),
            None => r.1 is None,
        },
{
    let u = render_handshake_field(hb, url, ctx, on);
    let hs = match headers {
        Some(hs) => {
            let mut out: Vec<(String, String)> = Vec::new();
            let n = hs.len();
            for i in 0..n
                invariant
                    n == hs@.len(),
                    out@.len() == i,
                    forall|j: int|
                        0 <= j < i ==> (#[trigger] out@[j]).0@ == hs@[j].0@ && handshake_text(
                            *hb,
                            hs@[j].1@,
                            *ctx,
                            on,
                            out@[j].1@,
                        ),
            {
                let name = hs[i].0.clone();
                let value = render_handshake_field(hb, hs[i].1.as_str(), ctx, on);
                out.push((name, value));
            }
            Some(out)
        },
        None => None,
    };
    (u, hs)
}

/// Whether a render outcome came from the template registered under `name`:
/// a text rendered from it against `ctx`, or a failure (always the outcome
/// when nothing is registered under `name`).
pub open spec fn rendered_from(hb: Handlebars<'static>, name: Seq<char>, ctx: Value, out: Option<Seq<char>>) -> bool {
    match out {
        Some(x) => registered_templates(hb).dom().contains(name) && renders_to(
            hb,
            registered_templates(hb)[name],
            ctx,
            x,
        ),
        None => true,
    }
}

/// Renders a prepared message with a JSON context: a templated message is
/// rendered by handlebars under its own name (which fails when no template
/// is registered under it) and the payload follows from that outcome (see
/// `payload_is`); other messages are sent as prepared.
pub fn render_prebuilt(msg: &PrebuiltMessage, hb: &Handlebars<'static>, ctx: &Value) -> (r: (
    Payload,
    usize,
    Option<Value>,
))
    ensures
        exists|out: Option<Seq<char>>|
            #[trigger] payload_is(*msg, out, r) && match *msg {
                PrebuiltMessage::TemplatedText { name } => rendered_from(*hb, name@, *ctx, out),
                PrebuiltMessage::TemplatedJson { name, .. } => rendered_from(*hb, name@, *ctx, out),
                _ => out is None,
            },
{
    match msg {
        PrebuiltMessage::TemplatedText { name } => {
            let rendered = render_named(hb, name.as_str(), ctx);
            let ghost out = ok_text(rendered);
            let r = payload_from_render(msg, rendered);
            proof {
                assert(payload_is(*msg, out, r));
            }
            r
        },
        PrebuiltMessage::TemplatedJson { name, .. } => {
            let rendered = render_named(hb, name.as_str(), ctx);
            let ghost out = ok_text(rendered);
            let r = payload_from_render(msg, rendered);
            proof {
                assert(payload_is(*msg, out, r));
            }
            r
        },
        _ => {
            let r = payload_from_render(msg, Err(String::new()));
            proof {
                assert(payload_is(*msg, None, r));
            }
            r
        },
    }
}

/// The key under which all sends wait in sequential pairing.
pub open spec fn sequential_key() -> Seq<char> {
    seq!['\u{0}', '_', '_', 'w', 's', '_', 's', 'e', 'q', '_', '_']
}

fn sequential_key_string() -> (r: String)
    ensures
        r@ == sequential_key(),
{
    let mut v: Vec<char> = Vec::new();
    v.push('\u{0}');
    v.push('_');
    v.push('_');
    v.push('w');
    v.push('s');
    v.push('_');
    v.push('s');
    v.push('e');
    v.push('q');
    v.push('_');
    v.push('_');
    proof {
        assert(v@ =~= sequential_key());
    }
    string_from_chars(&v)
}

/// The key a sent message with the given JSON value waits under (see
/// `extract_send_id_prebuilt`).
pub open spec fn send_key_of(matcher: PrebuiltMatcher, json_val: Option<Value>) -> Option<Seq<char>> {
    match matcher {
        PrebuiltMatcher::JsonPath { send, .. } => match json_val {
            Some(v) => key_of_selection(compiled_select(send, v)),
            None => None,
        },
        PrebuiltMatcher::Sequential => Some(sequential_key()),
        PrebuiltMatcher::Unpaired => None,
    }
}

/// The key a received message answers (see `extract_recv_id_prebuilt`).
pub open spec fn recv_key_of(matcher: PrebuiltMatcher, payload: Seq<u8>, is_text: bool) -> Option<Seq<char>> {
    match matcher {
        PrebuiltMatcher::JsonPath { recv, .. } => if is_text && json_parses(payload) {
            key_of_selection(compiled_select(recv, json_parsed(payload)))
        } else {
            None
        },
        PrebuiltMatcher::Sequential => Some(sequential_key()),
        PrebuiltMatcher::Unpaired => None,
    }
}

/// The key a sent message waits under: in sequential pairing the one shared
/// key; with JSONPath pairing the first value the send path finds in the
/// message's JSON (none when the message is not JSON or the path finds
/// nothing); in one-way mode none.
pub fn extract_send_id_prebuilt(matcher: &PrebuiltMatcher, json_val: &Option<Value>) -> (r: Option<String>)
    requires
        matcher_safe(*matcher),
    ensures
        key_text(r) == send_key_of(*matcher, *json_val),
{
    match matcher {
        PrebuiltMatcher::JsonPath { send, .. } => {
            let val = match json_val {
                Some(v) => v,
                None => {
                    return None;
                },
            };
            match select_compiled(send, val) {
                Ok(found) => {
                    if found.len() > 0 {
                        Some(value_to_match_key(&found[0]))
                    } else {
                        None
                    }
                },
                Err(_) => None,
            }
        },
        PrebuiltMatcher::Sequential => Some(sequential_key_string()),
        PrebuiltMatcher::Unpaired => None,
    }
}

/// The key a received message answers: in sequential pairing the one shared
/// key; with JSONPath pairing the first value the receive path finds in a
/// text message's JSON (none for binary messages, non-JSON text, or when the
/// path finds nothing); in one-way mode none.
pub fn extract_recv_id_prebuilt(matcher: &PrebuiltMatcher, payload: &[u8], is_text: bool) -> (r: Option<String>)
    requires
        matcher_safe(*matcher),
    ensures
        key_text(r) == recv_key_of(*matcher, payload@, is_text),
{
    match matcher {
        PrebuiltMatcher::JsonPath { recv, .. } => {
            if !is_text {
                return None;
            }
            let val = match parse_json(payload) {
                Ok(v) => v,
                Err(_) => {
                    return None;
                },
            };
            match select_compiled(recv, &val) {
                Ok(found) => {
                    if found.len() > 0 {
                        Some(value_to_match_key(&found[0]))
                    } else {
                        None
                    }
                },
                Err(_) => None,
            }
        },
        PrebuiltMatcher::Sequential => Some(sequential_key_string()),
        PrebuiltMatcher::Unpaired => None,
    }
}

} // verus!

verus! {

/// The scope of an endpoint's messages of one part.
pub open spec fn scope_spec(endpoint_name: Seq<char>, part: Seq<char>) -> Seq<char> {
    "ep."@ + endpoint_name + "."@ + part
}

/// The parts of an endpoint whose messages are prepared.
pub open spec fn is_part(p: Seq<char>) -> bool {
    p == "send"@ || p == "onconn"@ || p == "hb"@
}

/// The kinds of templates.
pub open spec fn is_kind(k: Seq<char>) -> bool {
    k == "text"@ || k == "json"@
}

/// A template name of one part of an endpoint is no template name of another part.
proof fn lemma_other_part_names(ep: Seq<char>, p1: Seq<char>, k1: Seq<char>, i1: nat, p2: Seq<char>)
    requires
        is_part(p1),
        is_part(p2),
        p1 != p2,
        is_kind(k1),
    ensures
        outside_scope(template_name(scope_spec(ep, p1), k1, i1), scope_spec(ep, p2)),
{
    assert forall|kind: Seq<char>, idx: nat| is_kind(kind) implies template_name(scope_spec(ep, p1), k1, i1)
        != #[trigger] template_name(scope_spec(ep, p2), kind, idx) by {
        if template_name(scope_spec(ep, p1), k1, i1) == template_name(scope_spec(ep, p2), kind, idx) {
            law_template_names_distinct(ep, p1, k1, i1, p2, kind, idx);
        }
    }
}

/// Every template of an endpoint is registered under a name of its own: two
/// templates (of any part, kind and position) share a name only if they are
/// the same template.  So no template replaces another in the registry.
pub proof fn law_template_names_distinct(
    endpoint_name: Seq<char>,
    p1: Seq<char>,
    k1: Seq<char>,
    i1: nat,
    p2: Seq<char>,
    k2: Seq<char>,
    i2: nat,
)
    requires
        is_part(p1),
        is_part(p2),
        is_kind(k1),
        is_kind(k2),
        template_name(scope_spec(endpoint_name, p1), k1, i1) == template_name(
            scope_spec(endpoint_name, p2),
            k2,
            i2,
        ),
    ensures
        p1 == p2,
        k1 == k2,
        i1 == i2,
{
    reveal_strlit("ep.");
    reveal_strlit(".");
    reveal_strlit("send");
    reveal_strlit("onconn");
    reveal_strlit("hb");
    reveal_strlit("text");
    reveal_strlit("json");
    let a = "ep."@ + endpoint_name + "."@;
    let c1 = k1 + "."@ + decimal(i1);
    let c2 = k2 + "."@ + decimal(i2);
    let b1 = p1 + "."@ + c1;
    let b2 = p2 + "."@ + c2;
    let n1 = template_name(scope_spec(endpoint_name, p1), k1, i1);
    let n2 = template_name(scope_spec(endpoint_name, p2), k2, i2);
    assert(n1 =~= a + b1);
    assert(n2 =~= a + b2);
    assert(b1 =~= n1.subrange(a.len() as int, n1.len() as int));
    assert(b2 =~= n2.subrange(a.len() as int, n2.len() as int));
    assert(b1 == b2);
    assert(b1[0] == p1[0]);
    assert(b2[0] == p2[0]);
    assert(p1 == p2);
    assert(c1 =~= b1.subrange(p1.len() as int + 1, b1.len() as int));
    assert(c2 =~= b2.subrange(p2.len() as int + 1, b2.len() as int));
    assert(c1[0] == k1[0]);
    assert(c2[0] == k2[0]);
    assert(k1 == k2);
    assert(decimal(i1) =~= c1.subrange(5, c1.len() as int));
    assert(decimal(i2) =~= c2.subrange(5, c2.len() as int));
    lemma_decimal_injective(i1, i2);
}

} // verus!
