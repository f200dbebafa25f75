//! Configuration of WebSocket endpoints: modes, reply matching, message
//! templates, heartbeat, reconnection and assertions.
use vstd::prelude::*;
use serde_json::Value;
use crate::text::{chars_equal, chars_of};

verus! {

broadcast use vstd::string::group_string_axioms;

#[verifier::external_type_specification]
#[verifier::external_body]
pub struct ExJsonValue(Value);

/// `serde_json::Value` derives `Clone`: a clone is the same value.
pub assume_specification[ <Value as Clone>::clone ](v: &Value) -> (r: Value)
    ensures
        r == *v,
;

/// How replies are counted.
#[derive(Clone, Debug)]
pub enum WsMode {
    /// Only sent and received messages are counted; nothing is paired.
    OneWay,
    /// Each send is paired with a reply by `match_by`; the round trip is timed.
    RequestResponse {
        match_by: MessageMatcher,
        /// Milliseconds to wait for a reply; 0 waits forever.
        timeout_ms: u64,
    },
}

/// The reply timeout used when none is configured: 30 seconds.
pub fn default_match_timeout_ms() -> (r: u64)
    ensures
        r == 30000,
{
    30_000
}

/// How a reply finds its send.
#[derive(Clone, Debug)]
pub enum MessageMatcher {
    /// The value at `send_path` in a sent JSON message is its key; the value at
    /// `recv_path` in a received one names the send it answers.  Sends with the
    /// same key are answered oldest first.
    JsonPath { send_path: String, recv_path: String },
    /// The n-th reply answers the n-th send still waiting.
    Sequential,
}

/// A message to send; text and JSON go through template rendering.
#[derive(Clone, Debug)]
pub enum WsMessageTemplate {
    Text(String),
    Binary(Vec<u8>),
    Json(Value),
}

/// Heartbeat settings.
#[derive(Clone, Debug)]
pub struct Heartbeat {
    pub interval_secs: u64,
    /// Message sent as heartbeat; none sends a ping frame.
    pub payload: Option<WsMessageTemplate>,
    /// Seconds without any received message after which the connection counts as broken.
    pub timeout_secs: u64,
}

/// Reconnection settings.
#[derive(Clone, Debug)]
pub struct ReconnectPolicy {
    pub max_attempts: u32,
    pub backoff_ms: u64,
}

/// When an assertion applies.
#[derive(Clone, Copy, Debug, PartialEq, Eq, Structural)]
pub enum AssertTrigger {
    /// On every received message.
    EveryMessage,
    /// On the first message of a connection the path finds something in;
    /// after that hit the rule no longer fires.
    FirstMatch,
    /// Over a whole connection: it fails once, when the connection ends, if
    /// no message had a hit equal to the reference.
    NoMatch,
}

/// An assertion on received JSON messages.
#[derive(Clone, Debug)]
pub struct WsAssertOption {
    pub jsonpath: String,
    pub reference_object: Value,
    pub on_match: AssertTrigger,
}

/// The trigger used when none is configured: every message.
pub fn default_trigger() -> (r: AssertTrigger)
    ensures
        r == AssertTrigger::EveryMessage,
{
    AssertTrigger::EveryMessage
}

} // verus!

verus! {

/// Whether a text equals a given word.
fn is_word(s: &str, word: &str) -> (r: bool)
    ensures
        r == (s@ == word@),
{
    let a = chars_of(s);
    let b = chars_of(word);
    chars_equal(&a, &b)
}

/// The trigger an assertion's `on_match` setting names: `EveryMessage`,
/// `FirstMatch` or `NoMatch`; any other word is an error that quotes it.
pub fn assert_trigger_from_name(name: &str) -> (r: Result<AssertTrigger, String>)
    ensures
        name@ == "EveryMessage"@ ==> r == Ok::<AssertTrigger, String>(AssertTrigger::EveryMessage),
        name@ == "FirstMatch"@ ==> r == Ok::<AssertTrigger, String>(AssertTrigger::FirstMatch),
        name@ == "NoMatch"@ ==> r == Ok::<AssertTrigger, String>(AssertTrigger::NoMatch),
        name@ != "EveryMessage"@ && name@ != "FirstMatch"@ && name@ != "NoMatch"@ ==> (r matches Err(
            e,
        ) && e@ == "未知的 on_match: "@ + name@),
{
    proof {
        reveal_strlit("EveryMessage");
        reveal_strlit("FirstMatch");
        reveal_strlit("NoMatch");
        assert("FirstMatch"@.len() == 10);
        assert("EveryMessage"@.len() == 12);
        assert("FirstMatch"@ != "EveryMessage"@);
    }
    if is_word(name, "EveryMessage") {
        Ok(AssertTrigger::EveryMessage)
    } else if is_word(name, "FirstMatch") {
        Ok(AssertTrigger::FirstMatch)
    } else if is_word(name, "NoMatch") {
        Ok(AssertTrigger::NoMatch)
    } else {
        let mut m = "未知的 on_match: ".to_string();
        m.append(name);
        Err(m)
    }
}

/// The reply matcher a configuration names: `Sequential`, or `JsonPath` with
/// both paths given; a missing path or another type name is an error.
pub fn matcher_from_parts(
    kind: &str,
    send_path: Option<String>,
    recv_path: Option<String>,
) -> (r: Result<MessageMatcher, String>)
    ensures
        kind@ == "Sequential"@ ==> r matches Ok(MessageMatcher::Sequential),
        kind@ == "JsonPath"@ ==> (match (send_path, recv_path) {
            (Some(s), Some(v)) => (r matches Ok(MessageMatcher::JsonPath { send_path: s2, recv_path: v2 })
                && s2 == s && v2 == v),
            (None, _) => (r matches Err(e) && e@ == "JsonPath matcher 需要 send_path"@),
            (Some(_), None) => (r matches Err(e) && e@ == "JsonPath matcher 需要 recv_path"@),
        }),
        kind@ != "Sequential"@ && kind@ != "JsonPath"@ ==> (r matches Err(e) && e@
            == "未知的 matcher 类型: "@ + kind@),
{
    proof {
        reveal_strlit("Sequential");
        reveal_strlit("JsonPath");
        assert("Sequential"@.len() == 10);
        assert("JsonPath"@.len() == 8);
        assert("Sequential"@ != "JsonPath"@);
    }
    if is_word(kind, "Sequential") {
        Ok(MessageMatcher::Sequential)
    } else if is_word(kind, "JsonPath") {
        match send_path {
            None => Err("JsonPath matcher 需要 send_path".to_string()),
            Some(s) => match recv_path {
                None => Err("JsonPath matcher 需要 recv_path".to_string()),
                Some(v) => Ok(MessageMatcher::JsonPath { send_path: s, recv_path: v }),
            },
        }
    } else {
        let mut m = "未知的 matcher 类型: ".to_string();
        m.append(kind);
        Err(m)
    }
}

/// The mode a configuration names: `OneWay`, or `RequestResponse` with its
/// matcher and a reply timeout (30 seconds when none is given); a missing
/// matcher or another type name is an error.
pub fn mode_from_parts(
    kind: &str,
    match_by: Option<MessageMatcher>,
    timeout_ms: Option<u64>,
) -> (r: Result<WsMode, String>)
    ensures
        kind@ == "OneWay"@ ==> r matches Ok(WsMode::OneWay),
        kind@ == "RequestResponse"@ ==> (match match_by {
            Some(m) => (r matches Ok(WsMode::RequestResponse { match_by: m2, timeout_ms: t })
                && m2 == m && t == (match timeout_ms {
                Some(x) => x,
                None => 30000,
            })),
            None => (r matches Err(e) && e@ == "RequestResponse 模式需要 match_by"@),
        }),
        kind@ != "OneWay"@ && kind@ != "RequestResponse"@ ==> (r matches Err(e) && e@
            == "未知的 ws mode: "@ + kind@),
{
    proof {
        reveal_strlit("OneWay");
        reveal_strlit("RequestResponse");
        assert("OneWay"@.len() == 6);
        assert("RequestResponse"@.len() == 15);
        assert("OneWay"@ != "RequestResponse"@);
    }
    if is_word(kind, "OneWay") {
        Ok(WsMode::OneWay)
    } else if is_word(kind, "RequestResponse") {
        match match_by {
            None => Err("RequestResponse 模式需要 match_by".to_string()),
            Some(m) => {
                let t = match timeout_ms {
                    Some(x) => x,
                    None => default_match_timeout_ms(),
                };
                Ok(WsMode::RequestResponse { match_by: m, timeout_ms: t })
            },
        }
    } else {
        let mut m = "未知的 ws mode: ".to_string();
        m.append(kind);
        Err(m)
    }
}

} // verus!
