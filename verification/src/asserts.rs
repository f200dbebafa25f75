//! Assertions on response bodies (HTTP) and received messages (WebSocket):
//! a JSONPath query must find exactly the reference value.
use vstd::prelude::*;
use serde_json::Value;
use crate::json::{
    json_debug, json_debug_text, json_equal, json_error_text, json_option_debug, json_option_debug_text,
    json_parsed, json_parses, json_values_equal, jsonpath_is_safe, jsonpath_select, parse_json, safe_jsonpath, select_values, texts,
};
use crate::text::{chars_of, find_chars, find_from, lemma_find_from, string_from_chars, sub_chars};
use crate::ws_model::{AssertTrigger, WsAssertOption};

verus! {

broadcast use vstd::string::group_string_axioms;

/// An assertion on an HTTP response body.
#[derive(Clone, Debug)]
pub struct AssertOption {
    pub jsonpath: String,
    pub reference_object: Value,
}

/// The message recorded for a body that is not JSON: the parser's message up
/// to its position note (" at line ..."), after a fixed prefix.
pub open spec fn normalized_json_error(msg: Seq<char>) -> Seq<char> {
    "JSONPath查询失败:"@ + match find_from(msg, " at line "@, 0) {
        Some(p) => msg.take(p),
        None => msg,
    }
}

/// The message recorded for a body that is not JSON (see `normalized_json_error`).
pub fn normalize_serde_error(msg: &str) -> (r: String)
    ensures
        r@ == normalized_json_error(msg@),
{
    let text = chars_of(msg);
    let pat = chars_of(" at line ");
    proof {
        lemma_find_from(text@, pat@, 0);
    }
    let kept = match find_chars(&text, &pat, 0) {
        Some(p) => sub_chars(&text, 0, p),
        None => sub_chars(&text, 0, text.len()),
    };
    proof {
        assert(text@.subrange(0, text@.len() as int) =~= text@);
    }
    let mut r = "JSONPath查询失败:".to_string();
    r.append(string_from_chars(&kept).as_str());
    r
}

/// The outcome of one HTTP assertion.
#[derive(Clone, Copy, Debug, PartialEq, Eq, Structural)]
pub enum AssertStep {
    /// Exactly one value found, equal to the reference.
    Pass,
    /// The query found nothing.
    NoMatch,
    /// The query found more than one value.
    MultipleMatches,
    /// The one value found differs from the reference.
    Mismatch,
    /// The query itself failed.
    QueryFailed,
}

/// The outcome of one HTTP assertion, from whether the query ran, how many
/// values it found and whether the first equals the reference.
pub fn assert_step(query_ok: bool, found: usize, first_equals: bool) -> (r: AssertStep)
    ensures
        r == if !query_ok {
            AssertStep::QueryFailed
        } else if found == 0 {
            AssertStep::NoMatch
        } else if found > 1 {
            AssertStep::MultipleMatches
        } else if first_equals {
            AssertStep::Pass
        } else {
            AssertStep::Mismatch
        },
{
    if !query_ok {
        AssertStep::QueryFailed
    } else if found == 0 {
        AssertStep::NoMatch
    } else if found > 1 {
        AssertStep::MultipleMatches
    } else if first_equals {
        AssertStep::Pass
    } else {
        AssertStep::Mismatch
    }
}

/// The message recorded when the one value found differs from the reference.
pub open spec fn mismatch_message(reference: Value, found: Value) -> Seq<char> {
    "预期结果："@ + json_debug_text(reference) + ", 实际结果："@ + json_debug_text(found)
}

/// The errors and the success of the assertions from the `i`-th on, on a
/// parsed body: each must find exactly one value equal to its reference; the
/// first that does not ends the assertions with its message (none when the query
/// itself fails).
pub open spec fn http_asserts_from(json: Value, options: Seq<AssertOption>, i: int) -> (Seq<Seq<char>>, bool)
    decreases options.len() - i,
{
    if i < 0 || i >= options.len() {
        (Seq::empty(), true)
    } else {
        let opt = options[i];
        match jsonpath_select(json, opt.jsonpath@) {
            Err(_) => (Seq::empty(), false),
            Ok(found) => if found.len() == 0 {
                (seq!["没有匹配到任何结果"@], false)
            } else if found.len() > 1 {
                (seq!["匹配到多个值，无法断言"@], false)
            } else if json_values_equal(found[0], opt.reference_object) {
                http_asserts_from(json, options, i + 1)
            } else {
                (seq![mismatch_message(opt.reference_object, found[0])], false)
            },
        }
    }
}

/// The errors recorded for an HTTP response body and whether it counts as a
/// success: a body that is not JSON records the parser's message and fails;
/// otherwise the assertions run in order.
pub open spec fn http_assert_outcome(body: Seq<u8>, options: Seq<AssertOption>) -> (Seq<Seq<char>>, bool) {
    if !json_parses(body) {
        (seq![normalized_json_error(json_error_text(body))], false)
    } else {
        http_asserts_from(json_parsed(body), options, 0)
    }
}

/// Whether every assertion's path is within `safe_jsonpath`.
pub open spec fn http_paths_safe(options: Seq<AssertOption>) -> bool {
    forall|i: int| 0 <= i < options.len() ==> safe_jsonpath(#[trigger] options[i].jsonpath@)
}

/// Checks an HTTP response body against its assertions (see
/// `http_assert_outcome`).  Returns the error messages to record and whether
/// the response counts as a success.
pub fn check_assertions(body: &[u8], options: &Vec<AssertOption>) -> (r: (Vec<String>, bool))
    requires
        http_paths_safe(options@),
    ensures
        texts(r.0@) == http_assert_outcome(body@, options@).0,
        r.1 == http_assert_outcome(body@, options@).1,
{
    let mut errors: Vec<String> = Vec::new();
    let json = match parse_json(body) {
        Ok(v) => v,
        Err(e) => {
            errors.push(normalize_serde_error(e.as_str()));
            proof {
                assert(texts(errors@) =~= http_assert_outcome(body@, options@).0);
            }
            return (errors, false);
        },
    };
    let n = options.len();
    for i in 0..n
        invariant
            n == options@.len(),
            http_paths_safe(options@),
            errors@.len() == 0,
            json == json_parsed(body@),
            json_parses(body@),
            http_asserts_from(json, options@, i as int) == http_asserts_from(json, options@, 0),
    {
        let opt = &options[i];
        proof {
            assert(safe_jsonpath(options@[i as int].jsonpath@));
        }
        match select_values(&json, opt.jsonpath.as_str()) {
            Ok(found) => {
                let first_equals = found.len() > 0 && json_equal(&found[0], &opt.reference_object);
                let step = assert_step(true, found.len(), first_equals);
                match step {
                    AssertStep::Pass => {},
                    AssertStep::NoMatch => {
                        errors.push("没有匹配到任何结果".to_string());
                        proof {
                            assert(texts(errors@) =~= http_assert_outcome(body@, options@).0);
                        }
                        return (errors, false);
                    },
                    AssertStep::MultipleMatches => {
                        errors.push("匹配到多个值，无法断言".to_string());
                        proof {
                            assert(texts(errors@) =~= http_assert_outcome(body@, options@).0);
                        }
                        return (errors, false);
                    },
                    _ => {
                        let mut m = "预期结果：".to_string();
                        m.append(json_debug(&opt.reference_object).as_str());
                        m.append(", 实际结果：");
                        m.append(json_debug(&found[0]).as_str());
                        errors.push(m);
                        proof {
                            assert(texts(errors@) =~= http_assert_outcome(body@, options@).0);
                        }
                        return (errors, false);
                    },
                }
            },
            Err(_) => {
                proof {
                    assert(texts(errors@) =~= http_assert_outcome(body@, options@).0);
                }
                return (errors, false);
            },
        }
    }
    proof {
        assert(texts(errors@) =~= http_assert_outcome(body@, options@).0);
    }
    (errors, true)
}

/// An assertion job for one HTTP response: the endpoint's assertions and the
/// body received.
pub struct AssertTask {
    pub assert_options: Vec<AssertOption>,
    pub body_bytes: Vec<u8>,
    /// Whether failures are also printed.
    pub verbose: bool,
    pub api_name: String,
    pub endpoint_url: String,
}

impl AssertTask {
    /// Runs the job (see `http_assert_outcome`): the messages to record under
    /// the endpoint's name and address, and whether the response counts as a
    /// success.  Each message counts as one error.
    pub fn process(&self) -> (r: (Vec<String>, bool))
        requires
            http_paths_safe(self.assert_options@),
        ensures
            texts(r.0@) == http_assert_outcome(self.body_bytes@, self.assert_options@).0,
            r.1 == http_assert_outcome(self.body_bytes@, self.assert_options@).1,
    {
        check_assertions(self.body_bytes.as_slice(), &self.assert_options)
    }
}

/// The message a failed WebSocket assertion records for a message.
pub open spec fn ws_mismatch_message(trigger: AssertTrigger, reference: Value, first: Option<Value>) -> Seq<char> {
    (if trigger == AssertTrigger::FirstMatch {
        "FirstMatch 不一致 预期: "@
    } else {
        "预期: "@
    }) + json_debug_text(reference) + ", 实际: "@ + json_option_debug_text(first)
}

/// The message a no-match assertion records when a connection ends without
/// any message having matched it.
pub open spec fn no_match_message(reference: Value) -> Seq<char> {
    "NoMatch 整个连接周期内未匹配 预期: "@ + json_debug_text(reference)
}

/// What one WebSocket assertion does with a parsed message, given whether it
/// already fired (first match) and whether it already matched (no match):
/// the message it records, if any, and the two flags after.
/// - Every message: a query error or a first value that differs from the
///   reference is an error.
/// - First match: once a message had a hit, the rule no longer fires; until
///   then a message without a hit is skipped, and the first hit is checked
///   (a query error is an error).
/// - No match: a hit equal to the reference marks the rule as matched for the
///   connection; nothing is recorded per message (a query error is).
pub open spec fn ws_rule_step(opt: WsAssertOption, json: Value, fired: bool, matched: bool) -> (
    Option<Seq<char>>,
    bool,
    bool,
) {
    if opt.on_match == AssertTrigger::FirstMatch && fired {
        (None, fired, matched)
    } else {
        match jsonpath_select(json, opt.jsonpath@) {
            Err(e) => (Some("JSONPath 错误: "@ + e), fired, matched),
            Ok(found) => {
                let found_any = found.len() > 0;
                let first_equals = found_any && json_values_equal(found[0], opt.reference_object);
                let msg = ws_mismatch_message(
                    opt.on_match,
                    opt.reference_object,
                    if found_any {
                        Some(found[0])
                    } else {
                        None
                    },
                );
                match opt.on_match {
                    AssertTrigger::EveryMessage => (
                        if first_equals {
                            None
                        } else {
                            Some(msg)
                        },
                        fired,
                        matched,
                    ),
                    AssertTrigger::FirstMatch => if !found_any {
                        (None, fired, matched)
                    } else {
                        (
                            if first_equals {
                                None
                            } else {
                                Some(msg)
                            },
                            true,
                            matched,
                        )
                    },
                    AssertTrigger::NoMatch => (None, fired, matched || first_equals),
                }
            },
        }
    }
}

/// The messages the WebSocket assertions from the `i`-th on record for a
/// parsed message, in order, and the flags after (see `ws_rule_step`).
pub open spec fn ws_rules_from(
    json: Value,
    options: Seq<WsAssertOption>,
    fired: Seq<bool>,
    matched: Seq<bool>,
    i: int,
) -> (Seq<Seq<char>>, Seq<bool>, Seq<bool>)
    decreases options.len() - i,
{
    if i < 0 || i >= options.len() {
        (Seq::empty(), fired, matched)
    } else {
        let (m, f, mt) = ws_rule_step(options[i], json, fired[i], matched[i]);
        let rest = ws_rules_from(json, options, fired.update(i, f), matched.update(i, mt), i + 1);
        (
            match m {
                Some(x) => seq![x] + rest.0,
                None => rest.0,
            },
            rest.1,
            rest.2,
        )
    }
}

/// The messages recorded for a received WebSocket message and the flags
/// after it: a message that is not JSON records the parser's message and
/// changes nothing; otherwise the assertions run in order.
pub open spec fn ws_message_outcome(
    body: Seq<u8>,
    options: Seq<WsAssertOption>,
    fired: Seq<bool>,
    matched: Seq<bool>,
) -> (Seq<Seq<char>>, Seq<bool>, Seq<bool>) {
    if !json_parses(body) {
        (seq!["JSON解析失败: "@ + json_error_text(body)], fired, matched)
    } else {
        ws_rules_from(json_parsed(body), options, fired, matched, 0)
    }
}

/// The messages the no-match assertions from the `i`-th on record when a
/// connection ends: one for each that no message matched.
pub open spec fn no_match_from(options: Seq<WsAssertOption>, matched: Seq<bool>, i: int) -> Seq<Seq<char>>
    decreases options.len() - i,
{
    if i < 0 || i >= options.len() {
        Seq::empty()
    } else {
        let rest = no_match_from(options, matched, i + 1);
        if options[i].on_match == AssertTrigger::NoMatch && !matched[i] {
            seq![no_match_message(options[i].reference_object)] + rest
        } else {
            rest
        }
    }
}

/// Whether every assertion's path is within `safe_jsonpath`.
pub open spec fn ws_paths_safe(options: Seq<WsAssertOption>) -> bool {
    forall|i: int| 0 <= i < options.len() ==> safe_jsonpath(#[trigger] options[i].jsonpath@)
}

/// Whether every WebSocket assertion's path is within `safe_jsonpath`.
pub fn ws_options_safe(options: &Vec<WsAssertOption>) -> (r: bool)
    ensures
        r == ws_paths_safe(options@),
{
    let n = options.len();
    for i in 0..n
        invariant
            n == options@.len(),
            forall|j: int| 0 <= j < i ==> safe_jsonpath(#[trigger] options@[j].jsonpath@),
    {
        if !jsonpath_is_safe(options[i].jsonpath.as_str()) {
            return false;
        }
    }
    true
}

/// Whether every HTTP assertion's path is within `safe_jsonpath`.
pub fn http_options_safe(options: &Vec<AssertOption>) -> (r: bool)
    ensures
        r == http_paths_safe(options@),
{
    let n = options.len();
    for i in 0..n
        invariant
            n == options@.len(),
            forall|j: int| 0 <= j < i ==> safe_jsonpath(#[trigger] options@[j].jsonpath@),
    {
        if !jsonpath_is_safe(options[i].jsonpath.as_str()) {
            return false;
        }
    }
    true
}

/// The state of an endpoint's WebSocket assertions on one connection: per
/// assertion, whether it fired (first match) and whether it matched (no
/// match).
pub struct WsAssertState {
    pub fired: Vec<bool>,
    pub matched: Vec<bool>,
}

impl WsAssertState {
    /// The state of a fresh connection for `n` assertions: nothing fired or matched.
    pub fn new(n: usize) -> (s: Self)
        ensures
            s.fired@ == Seq::new(n as nat, |i: int| false),
            s.matched@ == Seq::new(n as nat, |i: int| false),
    {
        let mut fired: Vec<bool> = Vec::new();
        let mut matched: Vec<bool> = Vec::new();
        for i in 0..n
            invariant
                fired@ == Seq::new(i as nat, |j: int| false),
                matched@ == Seq::new(i as nat, |j: int| false),
        {
            fired.push(false);
            matched.push(false);
            proof {
                assert(fired@ =~= Seq::new((i + 1) as nat, |j: int| false));
                assert(matched@ =~= Seq::new((i + 1) as nat, |j: int| false));
            }
        }
        WsAssertState { fired, matched }
    }
}

/// Checks a received WebSocket message against the endpoint's assertions on
/// one connection (see `ws_message_outcome`): returns the messages to record,
/// each of which counts as one error, and updates the connection's state.
pub fn check_ws_message(body: &[u8], options: &Vec<WsAssertOption>, state: &mut WsAssertState) -> (r: Vec<String>)
    requires
        ws_paths_safe(options@),
        old(state).fired@.len() == options@.len(),
        old(state).matched@.len() == options@.len(),
    ensures
        ({
            let o = ws_message_outcome(body@, options@, old(state).fired@, old(state).matched@);
            &&& texts(r@) == o.0
            &&& final(state).fired@ == o.1
            &&& final(state).matched@ == o.2
        }),
{
    let mut errors: Vec<String> = Vec::new();
    let json = match parse_json(body) {
        Ok(v) => v,
        Err(e) => {
            let mut m = "JSON解析失败: ".to_string();
            m.append(e.as_str());
            errors.push(m);
            proof {
                assert(texts(errors@) =~= seq!["JSON解析失败: "@ + json_error_text(body@)]);
            }
            return errors;
        },
    };
    let ghost f0 = state.fired@;
    let ghost m0 = state.matched@;
    let n = options.len();
    for i in 0..n
        invariant
            n == options@.len(),
            ws_paths_safe(options@),
            json == json_parsed(body@),
            json_parses(body@),
            state.fired@.len() == n,
            state.matched@.len() == n,
            ({
                let total = ws_rules_from(json, options@, f0, m0, 0);
                let tail = ws_rules_from(json, options@, state.fired@, state.matched@, i as int);
                &&& texts(errors@) + tail.0 == total.0
                &&& tail.1 == total.1
                &&& tail.2 == total.2
            }),
    {
        let opt = &options[i];
        let ghost before_f = state.fired@;
        let ghost before_m = state.matched@;
        let ghost before_e = texts(errors@);
        let ghost step = ws_rule_step(options@[i as int], json, before_f[i as int], before_m[i as int]);
        let ghost next = ws_rules_from(
            json,
            options@,
            before_f.update(i as int, step.1),
            before_m.update(i as int, step.2),
            i + 1,
        );
        proof {
            assert(safe_jsonpath(options@[i as int].jsonpath@));
        }
        let mut message: Option<String> = None;
        if opt.on_match == AssertTrigger::FirstMatch && state.fired[i] {
        } else {
            match select_values(&json, opt.jsonpath.as_str()) {
                Err(e) => {
                    let mut m = "JSONPath 错误: ".to_string();
                    m.append(e.as_str());
                    message = Some(m);
                },
                Ok(found) => {
                    let found_any = found.len() > 0;
                    let first_equals = found_any && json_equal(&found[0], &opt.reference_object);
                    let failed = match opt.on_match {
                        AssertTrigger::EveryMessage => !first_equals,
                        AssertTrigger::FirstMatch => found_any && !first_equals,
                        AssertTrigger::NoMatch => false,
                    };
                    if failed {
                        let first = if found_any {
                            Some(&found[0])
                        } else {
                            None
                        };
                        let mut m = match opt.on_match {
                            AssertTrigger::FirstMatch => "FirstMatch 不一致 预期: ".to_string(),
                            _ => "预期: ".to_string(),
                        };
                        m.append(json_debug(&opt.reference_object).as_str());
                        m.append(", 实际: ");
                        m.append(json_option_debug(first).as_str());
                        message = Some(m);
                    }
                    if opt.on_match == AssertTrigger::FirstMatch && found_any {
                        state.fired.set(i, true);
                    }
                    if opt.on_match == AssertTrigger::NoMatch && first_equals {
                        state.matched.set(i, true);
                    }
                },
            }
        }
        proof {
            assert(state.fired@ =~= before_f.update(i as int, step.1));
            assert(state.matched@ =~= before_m.update(i as int, step.2));
        }
        match message {
            Some(m) => {
                errors.push(m);
                proof {
                    assert(texts(errors@) =~= before_e.push(step.0->0));
                    assert(before_e.push(step.0->0) + next.0 =~= before_e + (seq![step.0->0] + next.0));
                }
            },
            None => {},
        }
    }
    proof {
        assert(texts(errors@) + Seq::<Seq<char>>::empty() =~= texts(errors@));
    }
    errors
}

/// The messages the no-match assertions record when a connection ends (see
/// `no_match_from`); each counts as one error.
pub fn check_ws_connection_end(options: &Vec<WsAssertOption>, state: &WsAssertState) -> (r: Vec<String>)
    requires
        state.matched@.len() == options@.len(),
    ensures
        texts(r@) == no_match_from(options@, state.matched@, 0),
{
    let mut errors: Vec<String> = Vec::new();
    let n = options.len();
    for i in 0..n
        invariant
            n == options@.len(),
            state.matched@.len() == n,
            texts(errors@) + no_match_from(options@, state.matched@, i as int) == no_match_from(
                options@,
                state.matched@,
                0,
            ),
    {
        let opt = &options[i];
        let ghost before = texts(errors@);
        let ghost rest = no_match_from(options@, state.matched@, i + 1);
        if opt.on_match == AssertTrigger::NoMatch && !state.matched[i] {
            let mut m = "NoMatch 整个连接周期内未匹配 预期: ".to_string();
            m.append(json_debug(&opt.reference_object).as_str());
            errors.push(m);
            proof {
                assert(texts(errors@) =~= before.push(m@));
                assert(before.push(m@) + rest =~= before + (seq![m@] + rest));
            }
        }
    }
    proof {
        assert(texts(errors@) + Seq::<Seq<char>>::empty() =~= texts(errors@));
    }
    errors
}

} // verus!

verus! {

/// The assertions from any point on record at most one message, and none
/// when they pass.
pub proof fn lemma_http_asserts_from(json: Value, options: Seq<AssertOption>, i: int)
    ensures
        http_asserts_from(json, options, i).0.len() <= 1,
        http_asserts_from(json, options, i).1 ==> http_asserts_from(json, options, i).0.len() == 0,
    decreases options.len() - i,
{
    if 0 <= i < options.len() {
        lemma_http_asserts_from(json, options, i + 1);
    }
}

/// An HTTP response records at most one assertion error, and a response that
/// counts as a success records none: assertions stop at the first failure.
pub proof fn law_http_one_error_at_most(body: Seq<u8>, options: Seq<AssertOption>)
    ensures
        http_assert_outcome(body, options).0.len() <= 1,
        http_assert_outcome(body, options).1 ==> http_assert_outcome(body, options).0.len() == 0,
        !json_parses(body) ==> !http_assert_outcome(body, options).1 && http_assert_outcome(
            body,
            options,
        ).0.len() == 1,
{
    lemma_http_asserts_from(json_parsed(body), options, 0);
}

/// The WebSocket assertions from any point record at most one message each,
/// and keep the lengths of the flags.
pub proof fn lemma_ws_rules_from(
    json: Value,
    options: Seq<WsAssertOption>,
    fired: Seq<bool>,
    matched: Seq<bool>,
    i: int,
)
    requires
        0 <= i,
        fired.len() == options.len(),
        matched.len() == options.len(),
    ensures
        ws_rules_from(json, options, fired, matched, i).0.len() <= if i <= options.len() {
            options.len() - i
        } else {
            0
        },
        ws_rules_from(json, options, fired, matched, i).1.len() == options.len(),
        ws_rules_from(json, options, fired, matched, i).2.len() == options.len(),
    decreases options.len() - i,
{
    if i < options.len() {
        let (m, f, mt) = ws_rule_step(options[i], json, fired[i], matched[i]);
        lemma_ws_rules_from(json, options, fired.update(i, f), matched.update(i, mt), i + 1);
    }
}

/// The flags of one connection's assertions after its messages `bodies`,
/// handled in order, starting from `fired` and `matched`.
pub open spec fn connection_flags(
    bodies: Seq<Seq<u8>>,
    options: Seq<WsAssertOption>,
    fired: Seq<bool>,
    matched: Seq<bool>,
) -> (Seq<bool>, Seq<bool>)
    decreases bodies.len(),
{
    if bodies.len() == 0 {
        (fired, matched)
    } else {
        let before = connection_flags(bodies.drop_last(), options, fired, matched);
        let o = ws_message_outcome(bodies.last(), options, before.0, before.1);
        (o.1, o.2)
    }
}

/// Whether a message is a hit for an assertion: it is JSON and the
/// assertion's path finds at least one value in it.
pub open spec fn has_hit(body: Seq<u8>, opt: WsAssertOption) -> bool {
    &&& json_parses(body)
    &&& jsonpath_select(json_parsed(body), opt.jsonpath@) matches Ok(found) && found.len() > 0
}

/// Whether a message is a hit equal to the assertion's reference: the first
/// value its path finds equals the reference.
pub open spec fn hits_reference(body: Seq<u8>, opt: WsAssertOption) -> bool {
    &&& json_parses(body)
    &&& jsonpath_select(json_parsed(body), opt.jsonpath@) matches Ok(found) && found.len() > 0
        && json_values_equal(found[0], opt.reference_object)
}

/// No assertion has fired or matched yet.
pub open spec fn fresh_flags(n: nat) -> Seq<bool> {
    Seq::new(n, |i: int| false)
}

/// What the assertions from the `i`-th on leave in the flags of assertion
/// `k`: its own step when it is among them, else the flags as they were.
pub proof fn lemma_ws_rules_flag(
    json: Value,
    options: Seq<WsAssertOption>,
    fired: Seq<bool>,
    matched: Seq<bool>,
    i: int,
    k: int,
)
    requires
        0 <= i,
        0 <= k < options.len(),
        fired.len() == options.len(),
        matched.len() == options.len(),
    ensures
        ws_rules_from(json, options, fired, matched, i).1[k] == if k >= i {
            ws_rule_step(options[k], json, fired[k], matched[k]).1
        } else {
            fired[k]
        },
        ws_rules_from(json, options, fired, matched, i).2[k] == if k >= i {
            ws_rule_step(options[k], json, fired[k], matched[k]).2
        } else {
            matched[k]
        },
    decreases options.len() - i,
{
    if i < options.len() {
        let (m, f, mt) = ws_rule_step(options[i], json, fired[i], matched[i]);
        lemma_ws_rules_flag(json, options, fired.update(i, f), matched.update(i, mt), i + 1, k);
    }
}

/// What a received message does to the flags of assertion `k`: its step on
/// the message when the message is JSON, nothing otherwise.
pub proof fn lemma_message_flag(
    body: Seq<u8>,
    options: Seq<WsAssertOption>,
    fired: Seq<bool>,
    matched: Seq<bool>,
    k: int,
)
    requires
        0 <= k < options.len(),
        fired.len() == options.len(),
        matched.len() == options.len(),
    ensures
        ws_message_outcome(body, options, fired, matched).1.len() == options.len(),
        ws_message_outcome(body, options, fired, matched).2.len() == options.len(),
        ws_message_outcome(body, options, fired, matched).1[k] == if json_parses(body) {
            ws_rule_step(options[k], json_parsed(body), fired[k], matched[k]).1
        } else {
            fired[k]
        },
        ws_message_outcome(body, options, fired, matched).2[k] == if json_parses(body) {
            ws_rule_step(options[k], json_parsed(body), fired[k], matched[k]).2
        } else {
            matched[k]
        },
{
    lemma_ws_rules_from(json_parsed(body), options, fired, matched, 0);
    lemma_ws_rules_flag(json_parsed(body), options, fired, matched, 0, k);
}

/// The flags after any messages keep one entry per assertion.
pub proof fn lemma_connection_flags_len(
    bodies: Seq<Seq<u8>>,
    options: Seq<WsAssertOption>,
    fired: Seq<bool>,
    matched: Seq<bool>,
)
    requires
        fired.len() == options.len(),
        matched.len() == options.len(),
    ensures
        connection_flags(bodies, options, fired, matched).0.len() == options.len(),
        connection_flags(bodies, options, fired, matched).1.len() == options.len(),
    decreases bodies.len(),
{
    if bodies.len() > 0 {
        lemma_connection_flags_len(bodies.drop_last(), options, fired, matched);
        let before = connection_flags(bodies.drop_last(), options, fired, matched);
        lemma_ws_rules_from(json_parsed(bodies.last()), options, before.0, before.1, 0);
    }
}

/// A no-match assertion is matched after a connection's messages exactly when
/// it was matched before or one of them was a hit equal to its reference.
pub proof fn lemma_no_match_flag(
    bodies: Seq<Seq<u8>>,
    options: Seq<WsAssertOption>,
    fired: Seq<bool>,
    matched: Seq<bool>,
    k: int,
)
    requires
        0 <= k < options.len(),
        options[k].on_match == AssertTrigger::NoMatch,
        fired.len() == options.len(),
        matched.len() == options.len(),
    ensures
        connection_flags(bodies, options, fired, matched).1[k] <==> (matched[k] || exists|j: int|
            0 <= j < bodies.len() && #[trigger] hits_reference(bodies[j], options[k])),
    decreases bodies.len(),
{
    if bodies.len() > 0 {
        let rest = bodies.drop_last();
        lemma_no_match_flag(rest, options, fired, matched, k);
        lemma_connection_flags_len(rest, options, fired, matched);
        let before = connection_flags(rest, options, fired, matched);
        lemma_message_flag(bodies.last(), options, before.0, before.1, k);
        let last = bodies.last();
        assert(last == bodies[bodies.len() - 1]);
        assert(connection_flags(bodies, options, fired, matched).1[k] == (before.1[k] || hits_reference(
            last,
            options[k],
        )));
        if exists|j: int| 0 <= j < bodies.len() && #[trigger] hits_reference(bodies[j], options[k]) {
            let j = choose|j: int| 0 <= j < bodies.len() && #[trigger] hits_reference(bodies[j], options[k]);
            if j < bodies.len() - 1 {
                assert(rest[j] == bodies[j]);
                assert(hits_reference(rest[j], options[k]));
            }
        }
        if exists|j: int| 0 <= j < rest.len() && #[trigger] hits_reference(rest[j], options[k]) {
            let j = choose|j: int| 0 <= j < rest.len() && #[trigger] hits_reference(rest[j], options[k]);
            assert(rest[j] == bodies[j]);
            assert(hits_reference(bodies[j], options[k]));
        }
    }
}

/// The end of a connection records the message of every no-match assertion
/// from the `i`-th on that is not matched.
pub proof fn lemma_no_match_from_contains(options: Seq<WsAssertOption>, matched: Seq<bool>, i: int, k: int)
    requires
        0 <= i <= k < options.len(),
        options[k].on_match == AssertTrigger::NoMatch,
        !matched[k],
    ensures
        no_match_from(options, matched, i).contains(no_match_message(options[k].reference_object)),
    decreases k - i,
{
    let msg = no_match_message(options[k].reference_object);
    let r = no_match_from(options, matched, i);
    if i == k {
        assert(r[0] == msg);
    } else {
        lemma_no_match_from_contains(options, matched, i + 1, k);
        let rest = no_match_from(options, matched, i + 1);
        let idx = choose|idx: int| 0 <= idx < rest.len() && rest[idx] == msg;
        if options[i].on_match == AssertTrigger::NoMatch && !matched[i] {
            assert(r[idx + 1] == msg);
        } else {
            assert(r[idx] == msg);
        }
    }
}

/// Over a whole connection, a no-match assertion ends up matched exactly when
/// one of the connection's messages was a hit equal to its reference; when
/// none was, the end of the connection records its message, which counts as
/// an error.
pub proof fn law_no_match_over_connection(bodies: Seq<Seq<u8>>, options: Seq<WsAssertOption>, k: int)
    requires
        0 <= k < options.len(),
        options[k].on_match == AssertTrigger::NoMatch,
    ensures
        ({
            let fresh = fresh_flags(options.len());
            let flags = connection_flags(bodies, options, fresh, fresh);
            &&& flags.1[k] <==> exists|j: int| 0 <= j < bodies.len() && #[trigger] hits_reference(bodies[j], options[k])
            &&& !(exists|j: int| 0 <= j < bodies.len() && #[trigger] hits_reference(bodies[j], options[k]))
                ==> no_match_from(options, flags.1, 0).contains(no_match_message(options[k].reference_object))
        }),
{
    let fresh = fresh_flags(options.len());
    lemma_no_match_flag(bodies, options, fresh, fresh, k);
    let flags = connection_flags(bodies, options, fresh, fresh);
    if !flags.1[k] {
        lemma_no_match_from_contains(options, flags.1, 0, k);
    }
}

/// Once a message of a connection is a hit for a first-match assertion, the
/// assertion stays fired for the rest of the connection, and no later
/// message records anything for it.
pub proof fn law_first_match_latches(
    bodies: Seq<Seq<u8>>,
    options: Seq<WsAssertOption>,
    fired: Seq<bool>,
    matched: Seq<bool>,
    k: int,
    j: int,
    l: int,
)
    requires
        0 <= k < options.len(),
        options[k].on_match == AssertTrigger::FirstMatch,
        fired.len() == options.len(),
        matched.len() == options.len(),
        0 <= j < l <= bodies.len(),
        has_hit(bodies[j], options[k]),
    ensures
        connection_flags(bodies.take(l), options, fired, matched).0[k],
        l < bodies.len() ==> ws_rule_step(
            options[k],
            json_parsed(bodies[l]),
            connection_flags(bodies.take(l), options, fired, matched).0[k],
            connection_flags(bodies.take(l), options, fired, matched).1[k],
        ).0 is None,
    decreases l - j,
{
    let pre = bodies.take(l);
    assert(pre.drop_last() =~= bodies.take(l - 1));
    assert(pre.last() == bodies[l - 1]);
    lemma_connection_flags_len(bodies.take(l - 1), options, fired, matched);
    let before = connection_flags(bodies.take(l - 1), options, fired, matched);
    lemma_message_flag(bodies[l - 1], options, before.0, before.1, k);
    if l - 1 > j {
        law_first_match_latches(bodies, options, fired, matched, k, j, l - 1);
    }
}

/// A received WebSocket message records at most one error per assertion, and
/// exactly one when it is not JSON.
pub proof fn law_ws_one_error_per_assertion(
    body: Seq<u8>,
    options: Seq<WsAssertOption>,
    fired: Seq<bool>,
    matched: Seq<bool>,
)
    requires
        fired.len() == options.len(),
        matched.len() == options.len(),
    ensures
        json_parses(body) ==> ws_message_outcome(body, options, fired, matched).0.len() <= options.len(),
        !json_parses(body) ==> ws_message_outcome(body, options, fired, matched).0.len() == 1,
{
    lemma_ws_rules_from(json_parsed(body), options, fired, matched, 0);
}

} // verus!
