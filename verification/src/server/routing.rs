use vstd::prelude::*;
use crate::json::{jbool, jget, jget_str, JsonValue, JsonView};
use crate::json_text::{value_text, value_to_opt_string};
use crate::server::execution::{DispatchRequest, ExecutionMeta};
use crate::server::sequence::{argument_texts, normalize_arguments};
use crate::server::state::{opt_str, strs, ControllerIdentity, ServerState};
use crate::text::{copy_str, str_eq};

verus! {

fn text(s: &str) -> (r: JsonValue)
    ensures
        r@ == JsonView::Str(s@),
{
    JsonValue::String(copy_str(s))
}

fn entry(k: &str, v: JsonValue) -> (r: (String, JsonValue))
    ensures
        r.0@ == k@,
        r.1 == v,
{
    (copy_str(k), v)
}

/// What a message from a Unity client asks for.
#[derive(Clone, Copy, Debug, PartialEq, Eq, Structural)]
pub enum UnityMessageKind {
    Register,
    Heartbeat,
    QaResult,
    Other,
}

pub open spec fn spec_unity_message_kind(payload: JsonView) -> UnityMessageKind {
    match jget_str(payload, "type"@) {
        Some(t) => if t == "register"@ {
            UnityMessageKind::Register
        } else if t == "heartbeat"@ {
            UnityMessageKind::Heartbeat
        } else if t == "qa_result"@ {
            UnityMessageKind::QaResult
        } else {
            UnityMessageKind::Other
        },
        None => UnityMessageKind::Other,
    }
}

pub fn unity_message_kind(payload: &JsonValue) -> (r: UnityMessageKind)
    ensures
        r == spec_unity_message_kind(payload@),
{
    match payload.get_str("type") {
        Some(t) => if str_eq(t, "register") {
            UnityMessageKind::Register
        } else if str_eq(t, "heartbeat") {
            UnityMessageKind::Heartbeat
        } else if str_eq(t, "qa_result") {
            UnityMessageKind::QaResult
        } else {
            UnityMessageKind::Other
        },
        None => UnityMessageKind::Other,
    }
}

/// The client a Unity connection speaks for after a message that is no
/// registration: the one it is bound to, else the message's `clientId`, when
/// that is there and not null (in text form); empty when neither.
pub open spec fn spec_bound_client(bound: Seq<char>, payload: JsonView) -> Seq<char> {
    if bound.len() == 0 {
        match value_text(jget(payload, "clientId"@)) {
            Some(c) => c,
            None => bound,
        }
    } else {
        bound
    }
}

pub fn bound_client(bound: &str, payload: &JsonValue) -> (r: String)
    ensures
        r@ == spec_bound_client(bound@, payload@),
{
    if vstd::string::StrSliceExecFns::unicode_len(bound) == 0 {
        match value_to_opt_string(payload.get("clientId")) {
            Some(c) => c,
            None => copy_str(bound),
        }
    } else {
        copy_str(bound)
    }
}

/// The activity a message counts as when it touches its client: its type, or
/// `message`.
pub fn touch_kind(payload: &JsonValue) -> (r: String)
    ensures
        r@ == match jget_str(payload@, "type"@) {
            Some(t) => t,
            None => "message"@,
        },
{
    match payload.get_str("type") {
        Some(t) => copy_str(t),
        None => copy_str("message"),
    }
}

/// The answer to a registration.
pub fn registered_message(client_id: &str) -> (r: JsonValue)
    ensures
        r@ == JsonView::Object(seq![("clientId"@, JsonView::Str(client_id@)), ("type"@, JsonView::Str("registered"@))]),
{
    let entries = vec![entry("clientId", text(client_id)), entry("type", text("registered"))];
    proof {
        crate::json::lemma_entry_views_new(entries@);
        assert(crate::json::json_entry_views(entries@) =~= seq![("clientId"@, JsonView::Str(client_id@)), ("type"@, JsonView::Str("registered"@))]);
    }
    JsonValue::Object(entries)
}

/// The code of the error that refuses a client name already in use.
pub const DUPLICATE_CLIENT_NAME_ERROR_CODE: &'static str = "duplicate_client_name";

/// Why the connection of a refused client is closed.
pub const DUPLICATE_NAME_CLOSE_REASON: &'static str = "QaTest 客户端名称重复。";

/// The fatal error a client is sent when its name is taken.
pub open spec fn duplicate_name_view(client_id: Seq<char>, client_name: Seq<char>, existing: Seq<char>, message: Seq<char>) -> JsonView {
    JsonView::Object(
        seq![
            ("clientId"@, JsonView::Str(client_id)),
            ("clientName"@, JsonView::Str(client_name)),
            ("code"@, JsonView::Str(DUPLICATE_CLIENT_NAME_ERROR_CODE@)),
            ("error"@, JsonView::Str(message)),
            ("existingClientId"@, JsonView::Str(existing)),
            ("fatal"@, JsonView::Bool(true)),
            ("type"@, JsonView::Str("error"@)),
        ],
    )
}

pub fn duplicate_name_message(client_id: &str, client_name: &str, existing_client_id: &str, message: &str) -> (r: JsonValue)
    ensures
        r@ == duplicate_name_view(client_id@, client_name@, existing_client_id@, message@),
{
    let entries = vec![
        entry("clientId", text(client_id)),
        entry("clientName", text(client_name)),
        entry("code", text(DUPLICATE_CLIENT_NAME_ERROR_CODE)),
        entry("error", text(message)),
        entry("existingClientId", text(existing_client_id)),
        entry("fatal", JsonValue::Bool(true)),
        entry("type", text("error")),
    ];
    proof {
        crate::json::lemma_entry_views_new(entries@);
        assert(crate::json::json_entry_views(entries@) =~= duplicate_name_view(client_id@, client_name@, existing_client_id@, message@)->Object_0);
    }
    JsonValue::Object(entries)
}

/// The answer to a heartbeat, with the server's time.
pub fn heartbeat_ack(server_time: &str) -> (r: JsonValue)
    ensures
        r@ == JsonView::Object(seq![("serverTime"@, JsonView::Str(server_time@)), ("type"@, JsonView::Str("heartbeat_ack"@))]),
{
    let entries = vec![entry("serverTime", text(server_time)), entry("type", text("heartbeat_ack"))];
    proof {
        crate::json::lemma_entry_views_new(entries@);
        assert(crate::json::json_entry_views(entries@) =~= seq![("serverTime"@, JsonView::Str(server_time@)), ("type"@, JsonView::Str("heartbeat_ack"@))]);
    }
    JsonValue::Object(entries)
}

/// What a message from a web console or an MCP process asks for.
#[derive(Clone, Copy, Debug, PartialEq, Eq, Structural)]
pub enum WebMessageKind {
    Refresh,
    Execute,
    ExecuteSequence,
    Stop,
    Other,
}

pub open spec fn spec_web_message_kind(payload: JsonView) -> WebMessageKind {
    match jget_str(payload, "type"@) {
        Some(t) => if t == "refresh"@ {
            WebMessageKind::Refresh
        } else if t == "execute"@ {
            WebMessageKind::Execute
        } else if t == "execute_sequence"@ {
            WebMessageKind::ExecuteSequence
        } else if t == "stop_sequence"@ || t == "cancel_sequence"@ || t == "stop_execution"@ || t
            == "cancel_execution"@ || t == "stop"@ {
            WebMessageKind::Stop
        } else {
            WebMessageKind::Other
        },
        None => WebMessageKind::Other,
    }
}

/// The words a controller stops an execution or a sequence with.
pub open spec fn is_stop_word(t: Seq<char>) -> bool {
    seq!["stop_sequence"@, "cancel_sequence"@, "stop_execution"@, "cancel_execution"@, "stop"@].contains(t)
}

/// A web message is a stop request exactly when its `type` is one of the
/// five stop words: each of them stops, no other word does.
pub proof fn lemma_stop_words_stop(payload: JsonView)
    ensures
        spec_web_message_kind(payload) is Stop <==> (jget_str(payload, "type"@) is Some && is_stop_word(
            jget_str(payload, "type"@)->0,
        )),
{
    reveal_strlit("refresh");
    reveal_strlit("execute");
    reveal_strlit("execute_sequence");
    reveal_strlit("stop_sequence");
    reveal_strlit("cancel_sequence");
    reveal_strlit("stop_execution");
    reveal_strlit("cancel_execution");
    reveal_strlit("stop");
    let words = seq!["stop_sequence"@, "cancel_sequence"@, "stop_execution"@, "cancel_execution"@, "stop"@];
    if let Some(t) = jget_str(payload, "type"@) {
        if words.contains(t) {
            let i = choose|i: int| 0 <= i < words.len() && words[i] == t;
            assert(t[0] == 's' || t[0] == 'c');
            assert(t != "refresh"@ && t != "execute"@ && t != "execute_sequence"@) by {
                assert("refresh"@[0] == 'r');
                assert("execute"@[0] == 'e');
                assert("execute_sequence"@[0] == 'e');
            }
        } else {
            assert(words[0] != t && words[1] != t && words[2] != t && words[3] != t && words[4] != t) by {
                if words[0] == t || words[1] == t || words[2] == t || words[3] == t || words[4] == t {
                    assert(words.contains(t));
                }
            }
        }
    }
}

pub fn web_message_kind(payload: &JsonValue) -> (r: WebMessageKind)
    ensures
        r == spec_web_message_kind(payload@),
        r is Stop <==> (jget_str(payload@, "type"@) is Some && is_stop_word(jget_str(payload@, "type"@)->0)),
{
    proof {
        lemma_stop_words_stop(payload@);
    }
    match payload.get_str("type") {
        Some(t) => if str_eq(t, "refresh") {
            WebMessageKind::Refresh
        } else if str_eq(t, "execute") {
            WebMessageKind::Execute
        } else if str_eq(t, "execute_sequence") {
            WebMessageKind::ExecuteSequence
        } else if str_eq(t, "stop_sequence") || str_eq(t, "cancel_sequence") || str_eq(t, "stop_execution")
            || str_eq(t, "cancel_execution") || str_eq(t, "stop") {
            WebMessageKind::Stop
        } else {
            WebMessageKind::Other
        },
        None => WebMessageKind::Other,
    }
}

/// The request an `execute` message or an HTTP execute call makes: the
/// method's id and name and the timeout as given, the arguments in text form,
/// parallel execution only when asked for with `true`; no waiting, no busy
/// client, no sequence. `timeout_ms` is the body's `timeoutMs` read as a
/// whole number.
pub open spec fn is_execute_request(
    r: DispatchRequest,
    client_id: Seq<char>,
    body: JsonView,
    controller: ControllerIdentity,
    timeout_ms: Option<u64>,
) -> bool {
    &&& r.client_id@ == client_id
    &&& opt_str(r.method_id) == value_text(jget(body, "methodId"@))
    &&& opt_str(r.method_name) == value_text(jget(body, "methodName"@))
    &&& strs(r.arguments@) == argument_texts(jget(body, "arguments"@))
    &&& r.timeout_ms == timeout_ms
    &&& r.controller == controller
    &&& !r.wait_for_result
    &&& !r.allow_busy
    &&& r.allow_parallel_execution == (jbool(jget(body, "allowParallelExecution"@)) == Some(true))
    &&& r.meta.sequence_id is None && r.meta.step_id is None && r.meta.step_index is None
        && r.meta.step_number is None && r.meta.total_steps is None
}

pub fn execute_request(client_id: String, body: &JsonValue, controller: ControllerIdentity, timeout_ms: Option<u64>) -> (r: DispatchRequest)
    ensures
        is_execute_request(r, client_id@, body@, controller, timeout_ms),
{
    DispatchRequest {
        client_id,
        method_id: value_to_opt_string(body.get("methodId")),
        method_name: value_to_opt_string(body.get("methodName")),
        arguments: normalize_arguments(body.get("arguments")),
        timeout_ms,
        controller,
        wait_for_result: false,
        allow_busy: false,
        allow_parallel_execution: match body.get_bool("allowParallelExecution") {
            Some(b) => b,
            None => false,
        },
        meta: ExecutionMeta::empty(),
    }
}

/// The client an `execute` message names: its `clientId` in text form, or
/// empty.
pub fn message_client_id(payload: &JsonValue) -> (r: String)
    ensures
        r@ == match value_text(jget(payload@, "clientId"@)) {
            Some(c) => c,
            None => Seq::empty(),
        },
{
    match value_to_opt_string(payload.get("clientId")) {
        Some(c) => c,
        None => String::new(),
    }
}

/// What a stop message asks to stop, and why: its request id, its sequence
/// id (each in text form, when there), and its reason or
/// `Stopped by controller.`.
pub fn stop_request(payload: &JsonValue) -> (r: (Option<String>, Option<String>, String))
    ensures
        crate::paths::opt_view(r.0) == value_text(jget(payload@, "requestId"@)),
        crate::paths::opt_view(r.1) == value_text(jget(payload@, "sequenceId"@)),
        r.2@ == match value_text(jget(payload@, "reason"@)) {
            Some(t) => t,
            None => "Stopped by controller."@,
        },
{
    let reason = match value_to_opt_string(payload.get("reason")) {
        Some(t) => t,
        None => copy_str("Stopped by controller."),
    };
    (value_to_opt_string(payload.get("requestId")), value_to_opt_string(payload.get("sequenceId")), reason)
}

/// A message of a type with one more member.
pub fn typed_message(kind: &str, key: &str, value: JsonValue) -> (r: JsonValue)
    ensures
        r@ == JsonView::Object(seq![(key@, value@), ("type"@, JsonView::Str(kind@))]),
{
    let ghost v = value@;
    let entries = vec![entry(key, value), entry("type", text(kind))];
    proof {
        crate::json::lemma_entry_views_new(entries@);
        assert(crate::json::json_entry_views(entries@) =~= seq![(key@, v), ("type"@, JsonView::Str(kind@))]);
    }
    JsonValue::Object(entries)
}

/// The answer to an accepted stop: the members of what the stop gave, over a
/// `type` of `stop_accepted` (a value that is no object adds nothing).
pub open spec fn stop_accepted_view(value: JsonView) -> JsonView {
    let es = crate::json::object_entries(value);
    if crate::json::entries_get(es, "type"@) is Some {
        JsonView::Object(es)
    } else {
        JsonView::Object(es.push(("type"@, JsonView::Str("stop_accepted"@))))
    }
}

pub fn stop_accepted(value: &JsonValue) -> (r: JsonValue)
    ensures
        r@ == stop_accepted_view(value@),
{
    let empty: Vec<(String, JsonValue)> = Vec::new();
    let es = match value {
        JsonValue::Object(es) => es,
        _ => &empty,
    };
    assert(crate::json::json_entry_views(es@) == crate::json::object_entries(value@));
    match crate::json::member(es, "type") {
        Some(_) => JsonValue::Object(crate::json::copy_entries(es)),
        None => {
            let mut out = crate::json::copy_entries(es);
            let ghost before = out@;
            let e = entry("type", text("stop_accepted"));
            out.push(e);
            assert(out@.drop_last() =~= before);
            assert(out@.last() == e);
            JsonValue::Object(out)
        },
    }
}

} // verus!
