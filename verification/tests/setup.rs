use atomic_bomb_engine::setup::{render_global_setup_urls_once, SetupApiEndpoint};
use serde_json::Value;

fn build_setup(url: &str) -> SetupApiEndpoint {
    SetupApiEndpoint {
        name: "global-setup".to_string(),
        url: url.to_string(),
        method: "GET".to_string(),
        json: None,
        form_data: None,
        multipart_options: None,
        headers: None,
        cookies: None,
        jsonpath_extract: None,
    }
}

#[test]
fn test_render_global_setup_urls_once_success() {
    let context: Value = serde_json::from_str("{\"base\":\"http://127.0.0.1:8080\"}").unwrap();
    let options = Some(vec![build_setup("{{base}}/setup")]);

    let rendered = render_global_setup_urls_once(options, &context, "全局setup")
        .expect("should render url")
        .expect("options should exist");

    assert_eq!(rendered[0].url, "http://127.0.0.1:8080/setup");
}

#[test]
fn test_render_global_setup_urls_once_missing_key_renders_empty() {
    let context: Value = serde_json::from_str("{}").unwrap();
    let options = Some(vec![build_setup("{{base}}/setup")]);

    let rendered = render_global_setup_urls_once(options, &context, "全局setup")
        .expect("render should not fail in non-strict mode")
        .expect("options should exist");

    assert_eq!(rendered[0].url, "/setup");
}

#[test]
fn no_setup_stays_none() {
    let context: Value = serde_json::from_str("{}").unwrap();
    assert!(render_global_setup_urls_once(None, &context, "全局setup").unwrap().is_none());
}

#[test]
fn items_keep_everything_but_the_url() {
    let context: Value = serde_json::from_str("{\"id\":7}").unwrap();
    let mut a = build_setup("/a/{{id}}");
    a.name = "first".to_string();
    a.cookies = Some("c=1".to_string());
    let b = build_setup("/b");
    let rendered = render_global_setup_urls_once(Some(vec![a, b]), &context, "p").unwrap().unwrap();
    assert_eq!(rendered.len(), 2);
    assert_eq!(rendered[0].url, "/a/7");
    assert_eq!(rendered[0].name, "first");
    assert_eq!(rendered[0].cookies, Some("c=1".to_string()));
    assert_eq!(rendered[1].url, "/b");
}

#[test]
fn a_bad_template_names_phase_item_and_url() {
    let context: Value = serde_json::from_str("{}").unwrap();
    let r = render_global_setup_urls_once(Some(vec![build_setup("{{#if}}x")]), &context, "全局teardown");
    let e = r.err().unwrap();
    assert!(e.starts_with("全局teardown URL模板渲染失败, name: \"global-setup\", url: \"{{#if}}x\", err: "));
}
