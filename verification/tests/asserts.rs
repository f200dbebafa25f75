use atomic_bomb_engine::asserts::{
    assert_step, check_assertions, check_ws_connection_end, check_ws_message, http_options_safe,
    normalize_serde_error, ws_options_safe, AssertOption, AssertStep, AssertTask, WsAssertState,
};
use atomic_bomb_engine::json::jsonpath_is_safe;
use atomic_bomb_engine::ws_model::{AssertTrigger, WsAssertOption};
use serde_json::Value;

fn json(text: &str) -> Value {
    serde_json::from_str(text).unwrap()
}

fn opt(path: &str, reference: &str) -> AssertOption {
    AssertOption { jsonpath: path.to_string(), reference_object: json(reference) }
}

fn ws_opt(path: &str, reference: &str, on_match: AssertTrigger) -> WsAssertOption {
    WsAssertOption { jsonpath: path.to_string(), reference_object: json(reference), on_match }
}

#[test]
fn serde_error_loses_its_position() {
    assert_eq!(
        normalize_serde_error("expected value at line 1 column 1"),
        "JSONPath查询失败:expected value"
    );
    assert_eq!(normalize_serde_error("EOF while parsing"), "JSONPath查询失败:EOF while parsing");
}

#[test]
fn matching_value_passes() {
    let (errors, ok) = check_assertions(b"{\"code\":200}", &vec![opt("$.code", "200")]);
    assert!(errors.is_empty());
    assert!(ok);
}

#[test]
fn no_assertions_pass() {
    let (errors, ok) = check_assertions(b"[1,2]", &vec![]);
    assert!(errors.is_empty());
    assert!(ok);
}

#[test]
fn different_value_fails_with_both_values() {
    let (errors, ok) = check_assertions(b"{\"code\":200}", &vec![opt("$.code", "201")]);
    assert_eq!(errors, vec!["预期结果：Number(201), 实际结果：Number(200)".to_string()]);
    assert!(!ok);
}

#[test]
fn nothing_found_fails() {
    let (errors, ok) = check_assertions(b"{\"code\":200}", &vec![opt("$.missing", "1")]);
    assert_eq!(errors, vec!["没有匹配到任何结果".to_string()]);
    assert!(!ok);
}

#[test]
fn several_found_fails() {
    let (errors, ok) = check_assertions(b"{\"a\":[1,2]}", &vec![opt("$.a[*]", "1")]);
    assert_eq!(errors, vec!["匹配到多个值，无法断言".to_string()]);
    assert!(!ok);
}

#[test]
fn first_failure_stops_the_check() {
    let body = b"{\"a\":1,\"b\":2}";
    let (errors, ok) = check_assertions(body, &vec![opt("$.a", "1"), opt("$.b", "3"), opt("$.c", "1")]);
    assert_eq!(errors, vec!["预期结果：Number(3), 实际结果：Number(2)".to_string()]);
    assert!(!ok);
}

#[test]
fn body_that_is_not_json_fails() {
    let (errors, ok) = check_assertions(b"not json", &vec![opt("$.a", "1")]);
    assert_eq!(errors.len(), 1);
    assert!(errors[0].starts_with("JSONPath查询失败:"));
    assert!(!errors[0].contains(" at line "));
    assert!(!ok);
}

#[test]
fn broken_query_fails_without_message() {
    let (errors, ok) = check_assertions(b"{\"a\":1}", &vec![opt("$[", "1")]);
    assert!(errors.is_empty());
    assert!(!ok);
}

#[test]
fn task_runs_its_assertions() {
    let task = AssertTask {
        assert_options: vec![opt("$.user.name", "\"bob\"")],
        body_bytes: b"{\"user\":{\"name\":\"alice\"}}".to_vec(),
        verbose: false,
        api_name: "login".to_string(),
        endpoint_url: "http://localhost/login".to_string(),
    };
    let (errors, ok) = task.process();
    assert_eq!(
        errors,
        vec!["预期结果：String(\"bob\"), 实际结果：String(\"alice\")".to_string()]
    );
    assert!(!ok);
}

#[test]
fn assertion_steps() {
    assert_eq!(assert_step(false, 1, true), AssertStep::QueryFailed);
    assert_eq!(assert_step(true, 0, false), AssertStep::NoMatch);
    assert_eq!(assert_step(true, 2, true), AssertStep::MultipleMatches);
    assert_eq!(assert_step(true, 1, true), AssertStep::Pass);
    assert_eq!(assert_step(true, 1, false), AssertStep::Mismatch);
}

fn ws(body: &[u8], options: &Vec<WsAssertOption>, state: &mut WsAssertState) -> Vec<String> {
    check_ws_message(body, options, state)
}

#[test]
fn ws_every_message_mismatch() {
    let options = vec![ws_opt("$.v", "1", AssertTrigger::EveryMessage)];
    let mut st = WsAssertState::new(1);
    assert_eq!(ws(b"{\"v\":2}", &options, &mut st), vec!["预期: Number(1), 实际: Some(Number(2))".to_string()]);
    assert_eq!(ws(b"{\"v\":2}", &options, &mut st), vec!["预期: Number(1), 实际: Some(Number(2))".to_string()]);
    let missing = vec![ws_opt("$.w", "1", AssertTrigger::EveryMessage)];
    assert_eq!(ws(b"{\"v\":2}", &missing, &mut st), vec!["预期: Number(1), 实际: None".to_string()]);
    assert!(ws(b"{\"v\":1}", &options, &mut st).is_empty());
    assert!(check_ws_connection_end(&options, &st).is_empty());
}

#[test]
fn ws_first_match_fires_once() {
    let options = vec![ws_opt("$.v", "1", AssertTrigger::FirstMatch)];
    let mut st = WsAssertState::new(1);
    // no hit: skipped, the rule keeps waiting
    assert!(ws(b"{\"w\":2}", &options, &mut st).is_empty());
    assert_eq!(st.fired, vec![false]);
    // the first hit is checked
    assert_eq!(
        ws(b"{\"v\":2}", &options, &mut st),
        vec!["FirstMatch 不一致 预期: Number(1), 实际: Some(Number(2))".to_string()]
    );
    assert_eq!(st.fired, vec![true]);
    // after its first hit the rule no longer fires
    assert!(ws(b"{\"v\":3}", &options, &mut st).is_empty());
    let mut fresh = WsAssertState::new(1);
    assert!(ws(b"{\"v\":1}", &options, &mut fresh).is_empty());
    assert!(ws(b"{\"v\":5}", &options, &mut fresh).is_empty());
}

#[test]
fn ws_no_match_fails_a_connection_without_a_match() {
    let options = vec![ws_opt("$.v", "1", AssertTrigger::NoMatch)];
    let mut st = WsAssertState::new(1);
    assert!(ws(b"{\"v\":2}", &options, &mut st).is_empty());
    assert!(ws(b"{}", &options, &mut st).is_empty());
    assert_eq!(
        check_ws_connection_end(&options, &st),
        vec!["NoMatch 整个连接周期内未匹配 预期: Number(1)".to_string()]
    );
    assert!(ws(b"{\"v\":1}", &options, &mut st).is_empty());
    assert_eq!(st.matched, vec![true]);
    assert!(check_ws_connection_end(&options, &st).is_empty());
}

#[test]
fn ws_checks_every_assertion() {
    let options = vec![
        ws_opt("$.a", "1", AssertTrigger::EveryMessage),
        ws_opt("$.b", "2", AssertTrigger::EveryMessage),
        ws_opt("$[", "2", AssertTrigger::EveryMessage),
    ];
    let mut st = WsAssertState::new(3);
    let errors = ws(b"{\"a\":0,\"b\":0}", &options, &mut st);
    assert_eq!(errors.len(), 3);
    assert_eq!(errors[0], "预期: Number(1), 实际: Some(Number(0))");
    assert_eq!(errors[1], "预期: Number(2), 实际: Some(Number(0))");
    assert!(errors[2].starts_with("JSONPath 错误: "));
}

#[test]
fn ws_message_that_is_not_json() {
    let options = vec![ws_opt("$.a", "1", AssertTrigger::FirstMatch)];
    let mut st = WsAssertState::new(1);
    let errors = ws(b"hello", &options, &mut st);
    assert_eq!(errors.len(), 1);
    assert!(errors[0].starts_with("JSON解析失败: "));
    assert_eq!(st.fired, vec![false]);
}

#[test]
fn path_safety() {
    assert!(jsonpath_is_safe("$.a.b[0]"));
    assert!(jsonpath_is_safe("$.a[1:3]"));
    assert!(!jsonpath_is_safe("$[0:2:0]"));
    assert!(!jsonpath_is_safe("$.a[?(@.b == 1)]"));
    assert!(ws_options_safe(&vec![ws_opt("$.a", "1", AssertTrigger::NoMatch)]));
    assert!(!ws_options_safe(&vec![ws_opt("$[::1]", "1", AssertTrigger::NoMatch)]));
    assert!(http_options_safe(&vec![opt("$.a", "1")]));
    assert!(!http_options_safe(&vec![opt("$..x[?(@)]", "1")]));
}
