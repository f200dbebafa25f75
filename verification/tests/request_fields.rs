use atomic_bomb_engine::prebuilt::render_handshake;
use atomic_bomb_engine::request_fields::render_request_fields;
use atomic_bomb_engine::setup::first_selected;
use handlebars::Handlebars;
use serde_json::Value;

fn json(text: &str) -> Value {
    serde_json::from_str(text).unwrap()
}

fn pairs(items: &[(&str, &str)]) -> Vec<(String, String)> {
    items.iter().map(|(k, v)| (k.to_string(), v.to_string())).collect()
}

#[test]
fn request_fields_are_rendered_with_the_variables() {
    let ctx = json("{\"token\":\"abc\",\"id\":7}");
    let r = render_request_fields(
        &pairs(&[("Authorization", "Bearer {{token}}"), ("X-Plain", "v")]),
        &Some("sid={{token}}".to_string()),
        &Some(json("{\"id\":\"{{id}}\"}")),
        &Some(pairs(&[("user", "u{{id}}")])),
        &ctx,
        true,
        true,
    )
    .unwrap();
    assert_eq!(r.headers, pairs(&[("Authorization", "Bearer abc"), ("X-Plain", "v")]));
    assert_eq!(r.cookie, Some("sid=abc".to_string()));
    assert_eq!(r.json, Some(json("{\"id\":\"7\"}")));
    assert_eq!(r.form, Some(pairs(&[("user", "u7")])));
}

#[test]
fn request_fields_stay_as_written_when_rendering_is_off() {
    let ctx = json("{\"token\":\"abc\"}");
    let body = json("{\"a\":\"{{token}}\"}");
    let r = render_request_fields(
        &pairs(&[("Authorization", "Bearer {{token}}")]),
        &None,
        &Some(body.clone()),
        &Some(pairs(&[("user", "{{token}}")])),
        &ctx,
        false,
        true,
    )
    .unwrap();
    assert_eq!(r.headers, pairs(&[("Authorization", "Bearer {{token}}")]));
    assert_eq!(r.cookie, None);
    assert_eq!(r.json, Some(body));
    assert_eq!(r.form, Some(pairs(&[("user", "abc")])));
}

#[test]
fn a_template_that_does_not_render_is_kept() {
    let ctx = json("{}");
    let r = render_request_fields(&pairs(&[("X", "{{#if}}")]), &None, &None, &None, &ctx, true, true).unwrap();
    assert_eq!(r.headers, pairs(&[("X", "{{#if}}")]));
    assert!(r.form.is_none());
}

#[test]
fn a_json_string_body_is_read_as_json() {
    let ctx = json("{}");
    let r = render_request_fields(&Vec::new(), &None, &Some(Value::String("[1,2]".to_string())), &None, &ctx, false, false)
        .unwrap();
    assert_eq!(r.json, Some(json("[1,2]")));
}

#[test]
fn a_json_body_that_is_not_json_fails() {
    let ctx = json("{}");
    let e = render_request_fields(&Vec::new(), &None, &Some(Value::String("not json".to_string())), &None, &ctx, false, false)
        .err()
        .unwrap();
    assert!(e.starts_with("转换json失败:"));
    assert!(e.ends_with(", 原始json: \"not json\""));
}

#[test]
fn setup_extraction_takes_the_first_value() {
    let body = json("{\"data\":[{\"token\":\"t1\"},{\"token\":\"t2\"}]}");
    assert_eq!(first_selected(&body, "$.data[*].token").unwrap(), Some(Value::String("t1".to_string())));
    assert_eq!(first_selected(&body, "$.missing").unwrap(), None);
}

#[test]
fn handshake_url_and_headers_are_rendered() {
    let hb: Handlebars<'static> = Handlebars::new();
    let ctx = json("{\"room\":\"r1\",\"token\":\"abc\"}");
    let (url, headers) = render_handshake(
        &hb,
        "ws://h/{{room}}",
        &Some(pairs(&[("Authorization", "Bearer {{token}}")])),
        &ctx,
        true,
    );
    assert_eq!(url, "ws://h/r1");
    assert_eq!(headers, Some(pairs(&[("Authorization", "Bearer abc")])));
    let (url, headers) = render_handshake(&hb, "ws://h/{{room}}", &None, &ctx, false);
    assert_eq!(url, "ws://h/{{room}}");
    assert_eq!(headers, None);
}
