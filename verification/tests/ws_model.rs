use atomic_bomb_engine::ws_model::{
    assert_trigger_from_name, default_match_timeout_ms, default_trigger, matcher_from_parts,
    mode_from_parts, AssertTrigger, MessageMatcher, WsMode,
};

#[test]
fn defaults() {
    assert_eq!(default_match_timeout_ms(), 30_000);
    assert_eq!(default_trigger(), AssertTrigger::EveryMessage);
}

#[test]
fn trigger_names() {
    assert_eq!(assert_trigger_from_name("EveryMessage"), Ok(AssertTrigger::EveryMessage));
    assert_eq!(assert_trigger_from_name("FirstMatch"), Ok(AssertTrigger::FirstMatch));
    assert_eq!(assert_trigger_from_name("NoMatch"), Ok(AssertTrigger::NoMatch));
    assert_eq!(assert_trigger_from_name("firstmatch"), Err("未知的 on_match: firstmatch".to_string()));
}

#[test]
fn matcher_names() {
    assert!(matches!(matcher_from_parts("Sequential", None, None), Ok(MessageMatcher::Sequential)));
    match matcher_from_parts("JsonPath", Some("$.id".to_string()), Some("$.rid".to_string())) {
        Ok(MessageMatcher::JsonPath { send_path, recv_path }) => {
            assert_eq!(send_path, "$.id");
            assert_eq!(recv_path, "$.rid");
        }
        _ => panic!("expected a JSONPath matcher"),
    }
    assert_eq!(
        matcher_from_parts("JsonPath", None, Some("$.rid".to_string())).err().unwrap(),
        "JsonPath matcher 需要 send_path"
    );
    assert_eq!(
        matcher_from_parts("JsonPath", Some("$.id".to_string()), None).err().unwrap(),
        "JsonPath matcher 需要 recv_path"
    );
    assert_eq!(matcher_from_parts("Fifo", None, None).err().unwrap(), "未知的 matcher 类型: Fifo");
}

#[test]
fn mode_names() {
    assert!(matches!(mode_from_parts("OneWay", None, None), Ok(WsMode::OneWay)));
    match mode_from_parts("RequestResponse", Some(MessageMatcher::Sequential), None) {
        Ok(WsMode::RequestResponse { match_by: MessageMatcher::Sequential, timeout_ms }) => {
            assert_eq!(timeout_ms, 30_000)
        }
        _ => panic!("expected request-response"),
    }
    match mode_from_parts("RequestResponse", Some(MessageMatcher::Sequential), Some(5)) {
        Ok(WsMode::RequestResponse { timeout_ms, .. }) => assert_eq!(timeout_ms, 5),
        _ => panic!("expected request-response"),
    }
    assert_eq!(
        mode_from_parts("RequestResponse", None, Some(5)).err().unwrap(),
        "RequestResponse 模式需要 match_by"
    );
    assert_eq!(mode_from_parts("Duplex", None, None).err().unwrap(), "未知的 ws mode: Duplex");
}
