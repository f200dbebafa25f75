use atomic_bomb_engine::prebuilt::{
    extract_recv_id_prebuilt, extract_send_id_prebuilt, has_handlebars_var, payload_from_render, render_prebuilt,
    EndpointPrebuilt, Payload, PrebuiltMatcher, PrebuiltMessage,
};
use atomic_bomb_engine::ws_model::{Heartbeat, MessageMatcher, WsMessageTemplate, WsMode};
use handlebars::Handlebars;
use serde_json::Value;

fn json(text: &str) -> Value {
    serde_json::from_str(text).unwrap()
}

fn jsonpath_mode(send: &str, recv: &str) -> WsMode {
    WsMode::RequestResponse {
        match_by: MessageMatcher::JsonPath { send_path: send.to_string(), recv_path: recv.to_string() },
        timeout_ms: 1000,
    }
}

#[test]
fn placeholders_are_detected() {
    assert!(has_handlebars_var("hello {{name}}"));
    assert!(has_handlebars_var("{{"));
    assert!(!has_handlebars_var("hello {name}"));
    assert!(!has_handlebars_var(""));
}

#[test]
fn templates_are_prepared_by_kind() {
    let mut hb = Handlebars::new();
    let t = PrebuiltMessage::from_template(0, "ep.x.send", &WsMessageTemplate::Text("hi {{name}}".to_string()), &mut hb).unwrap();
    match &t {
        PrebuiltMessage::TemplatedText { name } => assert_eq!(name, "ep.x.send.text.0"),
        _ => panic!("expected a templated text"),
    }
    assert!(hb.has_template("ep.x.send.text.0"));
    let s = PrebuiltMessage::from_template(1, "ep.x.send", &WsMessageTemplate::Text("plain".to_string()), &mut hb).unwrap();
    assert!(matches!(s, PrebuiltMessage::StaticText(ref v) if v == "plain"));
    let b = PrebuiltMessage::from_template(2, "ep.x.send", &WsMessageTemplate::Binary(vec![1, 2]), &mut hb).unwrap();
    assert!(matches!(b, PrebuiltMessage::Binary(ref v) if v == &vec![1u8, 2]));
    let j = PrebuiltMessage::from_template(3, "ep.x.send", &WsMessageTemplate::Json(json("{\"a\":\"{{v}}\"}")), &mut hb).unwrap();
    match &j {
        PrebuiltMessage::TemplatedJson { name, .. } => assert_eq!(name, "ep.x.send.json.3"),
        _ => panic!("expected a templated json"),
    }
    let sj = PrebuiltMessage::from_template(4, "ep.x.send", &WsMessageTemplate::Json(json("{\"a\":1}")), &mut hb).unwrap();
    match &sj {
        PrebuiltMessage::StaticJson { rendered, value } => {
            assert_eq!(rendered, "{\"a\":1}");
            assert_eq!(value, &json("{\"a\":1}"));
        }
        _ => panic!("expected a static json"),
    }
}

#[test]
fn bad_template_is_an_error() {
    let mut hb = Handlebars::new();
    let r = PrebuiltMessage::from_template(0, "ep.x.send", &WsMessageTemplate::Text("{{#if}}oops".to_string()), &mut hb);
    let e = r.err().unwrap();
    assert!(e.starts_with("注册文本模板 ep.x.send.text.0 失败: "));
    assert!(!hb.has_template("ep.x.send.text.0"));
}

#[test]
fn rendering_fills_placeholders() {
    let mut hb = Handlebars::new();
    let t = PrebuiltMessage::from_template(0, "s", &WsMessageTemplate::Text("hello {{name}}".to_string()), &mut hb).unwrap();
    let (payload, len, value) = render_prebuilt(&t, &hb, &json("{\"name\":\"bob\"}"));
    assert!(matches!(payload, Payload::Text(ref s) if s == "hello bob"));
    assert_eq!(len, 9);
    assert!(value.is_none());
    let j = PrebuiltMessage::from_template(1, "s", &WsMessageTemplate::Json(json("{\"id\":\"{{id}}\"}")), &mut hb).unwrap();
    let (payload, len, value) = render_prebuilt(&j, &hb, &json("{\"id\":\"7\"}"));
    assert!(matches!(payload, Payload::Text(ref s) if s == "{\"id\":\"7\"}"));
    assert_eq!(len, 10);
    assert_eq!(value, Some(json("{\"id\":\"7\"}")));
}

#[test]
fn unregistered_template_renders_empty() {
    let hb = Handlebars::new();
    let msg = PrebuiltMessage::TemplatedText { name: "missing".to_string() };
    let (payload, len, value) = render_prebuilt(&msg, &hb, &json("{}"));
    assert!(matches!(payload, Payload::Text(ref s) if s.is_empty()));
    assert_eq!(len, 0);
    assert!(value.is_none());
    let fallback = json("{\"a\":\"{{x}}\"}");
    let msg = PrebuiltMessage::TemplatedJson { name: "missing".to_string(), fallback: fallback.clone() };
    let (payload, _, value) = render_prebuilt(&msg, &hb, &json("{}"));
    assert!(matches!(payload, Payload::Text(ref s) if s == "{\"a\":\"{{x}}\"}"));
    assert_eq!(value, Some(fallback));
}

#[test]
fn static_messages_render_as_prepared() {
    let hb = Handlebars::new();
    let (payload, len, value) = render_prebuilt(&PrebuiltMessage::StaticText("[1]".to_string()), &hb, &json("{}"));
    assert!(matches!(payload, Payload::Text(ref s) if s == "[1]"));
    assert_eq!(len, 3);
    assert_eq!(value, Some(json("[1]")));
    let (payload, len, value) = render_prebuilt(&PrebuiltMessage::Binary(vec![9, 9, 9, 9]), &hb, &json("{}"));
    assert!(matches!(payload, Payload::Binary(ref b) if b.len() == 4));
    assert_eq!(len, 4);
    assert!(value.is_none());
    let (_, len, _) = render_prebuilt(&PrebuiltMessage::StaticText("é".to_string()), &hb, &json("{}"));
    assert_eq!(len, 2);
}

#[test]
fn endpoint_is_prepared() {
    let send = vec![WsMessageTemplate::Text("a {{x}}".to_string()), WsMessageTemplate::Binary(vec![0])];
    let onconn = vec![WsMessageTemplate::Text("auth".to_string())];
    let hb_cfg = Heartbeat { interval_secs: 5, payload: Some(WsMessageTemplate::Text("ping".to_string())), timeout_secs: 10 };
    let p = EndpointPrebuilt::build("chat", Some(&send), Some(&onconn), Some(&hb_cfg), &WsMode::OneWay, Handlebars::new()).unwrap();
    assert_eq!(p.send_messages.len(), 2);
    assert_eq!(p.on_connect.len(), 1);
    assert!(matches!(p.heartbeat_payload, Some(PrebuiltMessage::StaticText(_))));
    assert!(matches!(p.matcher, PrebuiltMatcher::Unpaired));
    assert!(p.handlebars.has_template("ep.chat.send.text.0"));
}

#[test]
fn endpoint_with_a_bad_path_is_refused() {
    let r = EndpointPrebuilt::build("chat", None, None, None, &jsonpath_mode("$[", "$.id"), Handlebars::new());
    assert!(r.err().unwrap().starts_with("send_path 编译失败 $[: "));
    let r = EndpointPrebuilt::build("chat", None, None, None, &jsonpath_mode("$.id", "$["), Handlebars::new());
    assert!(r.err().unwrap().starts_with("recv_path 编译失败 $[: "));
}

#[test]
fn match_keys_by_matcher() {
    let p = EndpointPrebuilt::build("c", None, None, None, &jsonpath_mode("$.id", "$.reply_to"), Handlebars::new()).unwrap();
    assert_eq!(extract_send_id_prebuilt(&p.matcher, &Some(json("{\"id\":5}"))), Some("5".to_string()));
    assert_eq!(extract_send_id_prebuilt(&p.matcher, &Some(json("{\"id\":\"abc\"}"))), Some("abc".to_string()));
    assert_eq!(extract_send_id_prebuilt(&p.matcher, &Some(json("{\"id\":true}"))), Some("true".to_string()));
    assert_eq!(extract_send_id_prebuilt(&p.matcher, &Some(json("{\"id\":{\"x\":1}}"))), Some("{\"x\":1}".to_string()));
    assert_eq!(extract_send_id_prebuilt(&p.matcher, &Some(json("{\"other\":1}"))), None);
    assert_eq!(extract_send_id_prebuilt(&p.matcher, &None), None);
    assert_eq!(extract_recv_id_prebuilt(&p.matcher, b"{\"reply_to\":5}", true), Some("5".to_string()));
    assert_eq!(extract_recv_id_prebuilt(&p.matcher, b"{\"reply_to\":5}", false), None);
    assert_eq!(extract_recv_id_prebuilt(&p.matcher, b"nope", true), None);
    let seq = EndpointPrebuilt::build(
        "c",
        None,
        None,
        None,
        &WsMode::RequestResponse { match_by: MessageMatcher::Sequential, timeout_ms: 0 },
        Handlebars::new(),
    )
    .unwrap();
    assert_eq!(extract_send_id_prebuilt(&seq.matcher, &None), Some("\u{0}__ws_seq__".to_string()));
    assert_eq!(extract_recv_id_prebuilt(&seq.matcher, b"x", false), Some("\u{0}__ws_seq__".to_string()));
    let one_way = EndpointPrebuilt::build("c", None, None, None, &WsMode::OneWay, Handlebars::new()).unwrap();
    assert_eq!(extract_send_id_prebuilt(&one_way.matcher, &Some(json("{\"id\":1}"))), None);
    assert_eq!(extract_recv_id_prebuilt(&one_way.matcher, b"{\"id\":1}", true), None);
}

#[test]
fn payloads_follow_the_render_outcome() {
    let text = PrebuiltMessage::TemplatedText { name: "t".to_string() };
    let (p, len, v) = payload_from_render(&text, Ok("[1]".to_string()));
    assert!(matches!(p, Payload::Text(ref s) if s == "[1]"));
    assert_eq!(len, 3);
    assert_eq!(v, Some(json("[1]")));
    let (p, len, v) = payload_from_render(&text, Err("no template".to_string()));
    assert!(matches!(p, Payload::Text(ref s) if s.is_empty()));
    assert_eq!(len, 0);
    assert!(v.is_none());
    let fallback = json("{\"a\":\"{{x}}\"}");
    let js = PrebuiltMessage::TemplatedJson { name: "j".to_string(), fallback: fallback.clone() };
    let (p, _, v) = payload_from_render(&js, Ok("not json".to_string()));
    assert!(matches!(p, Payload::Text(ref s) if s == "not json"));
    assert_eq!(v, Some(fallback.clone()));
    let (p, _, v) = payload_from_render(&js, Err("e".to_string()));
    assert!(matches!(p, Payload::Text(ref s) if s == "{\"a\":\"{{x}}\"}"));
    assert_eq!(v, Some(fallback));
    let (p, len, _) = payload_from_render(&PrebuiltMessage::StaticText("abc".to_string()), Ok("zzz".to_string()));
    assert!(matches!(p, Payload::Text(ref s) if s == "abc"));
    assert_eq!(len, 3);
}

#[test]
fn prepared_messages_come_from_their_templates() {
    let send = vec![
        WsMessageTemplate::Text("plain".to_string()),
        WsMessageTemplate::Text("x {{y}}".to_string()),
        WsMessageTemplate::Json(json("{\"k\":2}")),
    ];
    let p = EndpointPrebuilt::build("ep", Some(&send), None, None, &WsMode::OneWay, Handlebars::new()).unwrap();
    assert!(matches!(p.send_messages[0], PrebuiltMessage::StaticText(ref s) if s == "plain"));
    assert!(matches!(p.send_messages[1], PrebuiltMessage::TemplatedText { ref name } if name == "ep.ep.send.text.1"));
    assert!(matches!(p.send_messages[2], PrebuiltMessage::StaticJson { ref rendered, .. } if rendered == "{\"k\":2}"));
}

#[test]
fn built_messages_render_their_own_templates() {
    let send = vec![
        WsMessageTemplate::Text("a {{x}}".to_string()),
        WsMessageTemplate::Text("b {{x}}".to_string()),
    ];
    let onconn = vec![WsMessageTemplate::Text("c {{x}}".to_string())];
    let p = EndpointPrebuilt::build("e", Some(&send), Some(&onconn), None, &WsMode::OneWay, Handlebars::new()).unwrap();
    let ctx = json("{\"x\":\"1\"}");
    let texts: Vec<String> = p
        .send_messages
        .iter()
        .chain(p.on_connect.iter())
        .map(|m| match render_prebuilt(m, &p.handlebars, &ctx).0 {
            Payload::Text(t) => t,
            Payload::Binary(_) => String::new(),
        })
        .collect();
    assert_eq!(texts, vec!["a 1".to_string(), "b 1".to_string(), "c 1".to_string()]);
}
