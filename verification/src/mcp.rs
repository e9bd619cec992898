use vstd::prelude::*;
use vstd::string::StrSliceExecFns;
use crate::json::{
    entries_get, jarray, jbool, jget, jstr, json_entry_views, json_u64, json_views, JsonValue,
    JsonView,
};
use crate::server::state::strs;
use crate::text::{concat2, copy_str, str_eq};

verus! {

/// The MCP protocol version this server speaks by default.
pub const MCP_PROTOCOL_VERSION: &'static str = "2025-11-25";

pub const EXECUTE_TIMEOUT_MS: u64 = 70_000;
pub const SEQUENCE_TIMEOUT_MS: u64 = 180_000;
pub const WS_CONNECT_TIMEOUT_MS: u64 = 10_000;
pub const WATCH_EVENTS_DURATION_MS: u64 = 10_000;
pub const WAIT_RESULT_TIMEOUT_MS: u64 = 180_000;
pub const EVENT_SESSION_TTL_MS: u64 = 600_000;
pub const EVENT_SESSION_MAX_EVENTS: u64 = 500;

/// The protocol versions a client may ask for.
pub open spec fn is_known_protocol_version(v: Seq<char>) -> bool {
    v == "2025-11-25"@ || v == "2025-06-18"@ || v == "2025-03-26"@ || v == "2024-11-05"@
        || v == "2024-10-07"@
}

/// The version an `initialize` answers with: the one the client asks for when
/// it is known, else the default.
pub open spec fn spec_requested_protocol_version(message: JsonView) -> Seq<char> {
    let requested = match jget(message, "params"@) {
        Some(p) => jstr(jget(p, "protocolVersion"@)),
        None => None,
    };
    match requested {
        Some(v) if is_known_protocol_version(v) => v,
        _ => "2025-11-25"@,
    }
}

pub fn requested_protocol_version(message: &JsonValue) -> (r: String)
    ensures
        r@ == spec_requested_protocol_version(message@),
{
    let requested = match message.get("params") {
        Some(p) => match p.get("protocolVersion") {
            Some(v) => v.as_str(),
            None => None,
        },
        None => None,
    };
    match requested {
        Some(v) => {
            if str_eq(v, "2025-11-25") || str_eq(v, "2025-06-18") || str_eq(v, "2025-03-26")
                || str_eq(v, "2024-11-05") || str_eq(v, "2024-10-07") {
                copy_str(v)
            } else {
                copy_str(MCP_PROTOCOL_VERSION)
            }
        },
        None => copy_str(MCP_PROTOCOL_VERSION),
    }
}

/// `arguments[key]` as a string.
pub open spec fn str_arg(a: JsonView, key: Seq<char>) -> Option<Seq<char>> {
    jstr(jget(a, key))
}

/// `arguments[key]` as a string that is not empty.
pub open spec fn required_str_arg(a: JsonView, key: Seq<char>) -> Option<Seq<char>> {
    match str_arg(a, key) {
        Some(s) if s.len() > 0 => Some(s),
        _ => None,
    }
}

pub open spec fn bool_arg_or(a: JsonView, key: Seq<char>, d: bool) -> bool {
    match jbool(jget(a, key)) {
        Some(b) => b,
        None => d,
    }
}

pub open spec fn u64_arg_or(a: JsonView, key: Seq<char>, d: u64) -> u64 {
    match json_u64(jget(a, key)) {
        Some(v) => v,
        None => d,
    }
}

pub open spec fn array_arg(a: JsonView, key: Seq<char>) -> Seq<JsonView> {
    match jarray(jget(a, key)) {
        Some(items) => items,
        None => Seq::empty(),
    }
}

/// The string items of `arguments[key]`, in order; other items are skipped.
pub open spec fn strings_of(items: Seq<JsonView>) -> Seq<Seq<char>>
    decreases items.len(),
{
    if items.len() == 0 {
        Seq::empty()
    } else {
        let r = strings_of(items.drop_last());
        match items.last() {
            JsonView::Str(s) => r.push(s),
            _ => r,
        }
    }
}

pub open spec fn required_message(key: Seq<char>) -> Seq<char> {
    key + " is required."@
}

fn string_arg(a: &JsonValue, key: &str) -> (r: Option<String>)
    ensures
        crate::paths::opt_view(r) == str_arg(a@, key@),
{
    match a.get(key) {
        Some(v) => match v.as_str() {
            Some(s) => Some(copy_str(s)),
            None => None,
        },
        None => None,
    }
}

fn required_string_arg(a: &JsonValue, key: &str) -> (r: Result<String, String>)
    ensures
        match required_str_arg(a@, key@) {
            Some(s) => r is Ok && r->Ok_0@ == s,
            None => r is Err && r->Err_0@ == required_message(key@),
        },
{
    match string_arg(a, key) {
        Some(s) => {
            if s.as_str().unicode_len() > 0 {
                Ok(s)
            } else {
                Err(concat2(key, " is required."))
            }
        },
        None => Err(concat2(key, " is required.")),
    }
}

fn bool_arg(a: &JsonValue, key: &str, d: bool) -> (r: bool)
    ensures
        r == bool_arg_or(a@, key@, d),
{
    match a.get(key) {
        Some(v) => match v.as_bool() {
            Some(b) => b,
            None => d,
        },
        None => d,
    }
}

fn u64_arg(a: &JsonValue, key: &str, d: u64) -> (r: u64)
    ensures
        r == u64_arg_or(a@, key@, d),
{
    match a.get(key) {
        Some(v) => match v.as_u64() {
            Some(n) => n,
            None => d,
        },
        None => d,
    }
}

fn copy_values(items: &Vec<JsonValue>) -> (r: Vec<JsonValue>)
    ensures
        json_views(r@) == json_views(items@),
{
    let mut out: Vec<JsonValue> = Vec::new();
    let mut i: usize = 0;
    while i < items.len()
        invariant
            i <= items@.len(),
            json_views(out@) == json_views(items@.subrange(0, i as int)),
        decreases items@.len() - i,
    {
        let x = items[i].copy();
        let ghost prev = out@;
        out.push(x);
        proof {
            let a = items@.subrange(0, i + 1);
            assert(a.drop_last() == items@.subrange(0, i as int));
            assert(a.last() == items@[i as int]);
            assert(out@.drop_last() == prev);
        }
        i = i + 1;
    }
    assert(items@.subrange(0, items@.len() as int) == items@);
    out
}

fn array_arg_copy(a: &JsonValue, key: &str) -> (r: Vec<JsonValue>)
    ensures
        json_views(r@) == array_arg(a@, key@),
{
    match a.get(key) {
        Some(JsonValue::Array(items)) => copy_values(items),
        _ => {
            let r: Vec<JsonValue> = Vec::new();
            assert(json_views(r@) =~= Seq::<JsonView>::empty());
            r
        },
    }
}

fn string_array_arg(a: &JsonValue, key: &str) -> (r: Vec<String>)
    ensures
        strs(r@) == strings_of(array_arg(a@, key@)),
{
    let mut out: Vec<String> = Vec::new();
    match a.get(key) {
        Some(JsonValue::Array(items)) => {
            let ghost iv = json_views(items@);
            let mut i: usize = 0;
            assert(strs(out@) =~= strings_of(json_views(items@.subrange(0, 0))));
            while i < items.len()
                invariant
                    i <= items@.len(),
                    iv == json_views(items@),
                    strs(out@) == strings_of(json_views(items@.subrange(0, i as int))),
                decreases items@.len() - i,
            {
                let ghost a2 = items@.subrange(0, i + 1);
                assert(a2.drop_last() == items@.subrange(0, i as int));
                assert(a2.last() == items@[i as int]);
                let ghost p = json_views(items@.subrange(0, i as int));
                assert(json_views(a2) == p.push(items@[i as int]@));
                assert(p.push(items@[i as int]@).drop_last() == p);
                assert(p.push(items@[i as int]@).last() == items@[i as int]@);
                match &items[i] {
                    JsonValue::String(s) => {
                        let ghost before = out@;
                        out.push(copy_str(s.as_str()));
                        assert(strs(out@) =~= strs(before).push(s@));
                    },
                    _ => {},
                }
                i = i + 1;
            }
            assert(items@.subrange(0, items@.len() as int) == items@);
            out
        },
        _ => {
            assert(strs(out@) =~= Seq::<Seq<char>>::empty());
            out
        },
    }
}


/// A `tools/call` request, read: which tool and with what.
#[derive(Debug)]
pub enum ToolCall {
    Health,
    ListUnityClients { include_methods: bool },
    FindMethods { client_id: Option<String>, query: String, limit: u64 },
    GetMethod { client_id: Option<String>, query: String },
    GetResults { client_id: Option<String>, status: Option<String>, sequence_id: Option<String>, limit: u64 },
    ExecuteMethod {
        client_id: String,
        method_id: String,
        method_name: Option<String>,
        arguments: Vec<JsonValue>,
        timeout_ms: u64,
    },
    CaptureScreenshot { client_id: String, save_path: String },
    ExecuteSequence {
        client_id: String,
        steps: Vec<JsonValue>,
        stop_on_failure: bool,
        step_delay_ms: u64,
        timeout_ms: u64,
    },
    StopExecution { request_id: String, reason: String, timeout_ms: u64 },
    StopSequence { sequence_id: String, reason: String, timeout_ms: u64 },
    WatchEvents { duration_ms: u64, event_types: Vec<String>, include_snapshot: bool, max_events: u64 },
    /// The filters of the wait, with `includeHistory` and `timeoutMs` filled in.
    WaitForResult { filters: JsonValue },
    OpenEventSession { event_types: Vec<String>, include_snapshot: bool, max_events: u64, ttl_ms: u64 },
    PollEventSession { session_id: String, cursor: u64, max_events: u64 },
    CloseEventSession { session_id: String },
}

/// The parameters of a `tools/call`, when they are an object.
pub open spec fn call_params(message: JsonView) -> Option<JsonView> {
    match jget(message, "params"@) {
        Some(JsonView::Object(es)) => Some(JsonView::Object(es)),
        _ => None,
    }
}

/// The arguments of a call: its `arguments`, or an empty object.
pub open spec fn call_arguments(params: JsonView) -> JsonView {
    match jget(params, "arguments"@) {
        Some(a) => a,
        None => JsonView::Object(Seq::empty()),
    }
}

/// The members of the arguments when they are an object, else none.
pub open spec fn object_entries(a: JsonView) -> Seq<(Seq<char>, JsonView)> {
    match a {
        JsonView::Object(es) => es,
        _ => Seq::empty(),
    }
}

/// The members with `key` added, when it is missing, with value `v`.
pub open spec fn with_default(es: Seq<(Seq<char>, JsonView)>, key: Seq<char>, v: JsonView) -> Seq<(Seq<char>, JsonView)> {
    if entries_get(es, key) is Some {
        es
    } else {
        es.push((key, v))
    }
}

/// The filters of a wait: the arguments' members, with history included and
/// the default timeout where they say nothing of them.
pub open spec fn wait_filters(a: JsonView) -> JsonView {
    JsonView::Object(
        with_default(
            with_default(object_entries(a), "includeHistory"@, JsonView::Bool(true)),
            "timeoutMs"@,
            JsonView::Number("180000"@),
        ),
    )
}

/// How a tool call is read, given the tool's name and its arguments.
pub open spec fn is_tool_call(r: Result<ToolCall, String>, name: Seq<char>, a: JsonView) -> bool {
    if name == "qa_health"@ {
        r matches Ok(ToolCall::Health)
    } else if name == "qa_list_unity_clients"@ {
        r matches Ok(ToolCall::ListUnityClients { include_methods }) && include_methods
            == bool_arg_or(a, "includeMethods"@, true)
    } else if name == "qa_find_methods"@ {
        r matches Ok(ToolCall::FindMethods { client_id, query, limit }) && crate::paths::opt_view(
            client_id,
        ) == str_arg(a, "clientId"@) && query@ == match str_arg(a, "query"@) {
            Some(q) => q,
            None => Seq::empty(),
        } && limit == u64_arg_or(a, "limit"@, 50)
    } else if name == "qa_get_method"@ {
        match required_str_arg(a, "query"@) {
            Some(q) => r matches Ok(ToolCall::GetMethod { client_id, query }) && crate::paths::opt_view(
                client_id,
            ) == str_arg(a, "clientId"@) && query@ == q,
            None => r matches Err(e) && e@ == required_message("query"@),
        }
    } else if name == "qa_get_results"@ {
        r matches Ok(ToolCall::GetResults { client_id, status, sequence_id, limit })
            && crate::paths::opt_view(client_id) == str_arg(a, "clientId"@) && crate::paths::opt_view(
            status,
        ) == str_arg(a, "status"@) && crate::paths::opt_view(sequence_id) == str_arg(
            a,
            "sequenceId"@,
        ) && limit == u64_arg_or(a, "limit"@, 20)
    } else if name == "qa_execute_method"@ {
        match (required_str_arg(a, "clientId"@), required_str_arg(a, "methodId"@)) {
            (None, _) => r matches Err(e) && e@ == required_message("clientId"@),
            (Some(_), None) => r matches Err(e) && e@ == required_message("methodId"@),
            (Some(c), Some(m)) => r matches Ok(
                ToolCall::ExecuteMethod { client_id, method_id, method_name, arguments, timeout_ms },
            ) && client_id@ == c && method_id@ == m && crate::paths::opt_view(method_name) == str_arg(
                a,
                "methodName"@,
            ) && json_views(arguments@) == array_arg(a, "arguments"@) && timeout_ms == u64_arg_or(
                a,
                "timeoutMs"@,
                70000,
            ),
        }
    } else if name == "qa_capture_screenshot"@ {
        match (required_str_arg(a, "clientId"@), required_str_arg(a, "savePath"@)) {
            (None, _) => r matches Err(e) && e@ == required_message("clientId"@),
            (Some(_), None) => r matches Err(e) && e@ == required_message("savePath"@),
            (Some(c), Some(p)) => r matches Ok(ToolCall::CaptureScreenshot { client_id, save_path })
                && client_id@ == c && save_path@ == p,
        }
    } else if name == "qa_execute_sequence"@ {
        match required_str_arg(a, "clientId"@) {
            None => r matches Err(e) && e@ == required_message("clientId"@),
            Some(c) => if array_arg(a, "steps"@).len() == 0 {
                r matches Err(e) && e@ == required_message("steps"@)
            } else {
                r matches Ok(
                    ToolCall::ExecuteSequence {
                        client_id,
                        steps,
                        stop_on_failure,
                        step_delay_ms,
                        timeout_ms,
                    },
                ) && client_id@ == c && json_views(steps@) == array_arg(a, "steps"@) && stop_on_failure
                    == bool_arg_or(a, "stopOnFailure"@, true) && step_delay_ms == u64_arg_or(
                    a,
                    "stepDelayMs"@,
                    0,
                ) && timeout_ms == u64_arg_or(a, "timeoutMs"@, 180000)
            },
        }
    } else if name == "qa_stop_execution"@ {
        match required_str_arg(a, "requestId"@) {
            None => r matches Err(e) && e@ == required_message("requestId"@),
            Some(q) => r matches Ok(ToolCall::StopExecution { request_id, reason, timeout_ms })
                && request_id@ == q && reason@ == match str_arg(a, "reason"@) {
                Some(t) => t,
                None => "Stopped by qamcp."@,
            } && timeout_ms == u64_arg_or(a, "timeoutMs"@, 10000),
        }
    } else if name == "qa_stop_sequence"@ {
        match required_str_arg(a, "sequenceId"@) {
            None => r matches Err(e) && e@ == required_message("sequenceId"@),
            Some(q) => r matches Ok(ToolCall::StopSequence { sequence_id, reason, timeout_ms })
                && sequence_id@ == q && reason@ == match str_arg(a, "reason"@) {
                Some(t) => t,
                None => "Stopped by qamcp."@,
            } && timeout_ms == u64_arg_or(a, "timeoutMs"@, 10000),
        }
    } else if name == "qa_watch_events"@ {
        r matches Ok(ToolCall::WatchEvents { duration_ms, event_types, include_snapshot, max_events })
            && duration_ms == u64_arg_or(a, "durationMs"@, 10000) && strs(event_types@) == strings_of(
            array_arg(a, "eventTypes"@),
        ) && include_snapshot == bool_arg_or(a, "includeSnapshot"@, true) && max_events
            == u64_arg_or(a, "maxEvents"@, 100)
    } else if name == "qa_wait_for_result"@ {
        r matches Ok(ToolCall::WaitForResult { filters }) && filters@ == wait_filters(a)
    } else if name == "qa_open_event_session"@ {
        r matches Ok(ToolCall::OpenEventSession { event_types, include_snapshot, max_events, ttl_ms })
            && strs(event_types@) == strings_of(array_arg(a, "eventTypes"@)) && include_snapshot
            == bool_arg_or(a, "includeSnapshot"@, true) && max_events == u64_arg_or(
            a,
            "maxEvents"@,
            500,
        ) && ttl_ms == u64_arg_or(a, "ttlMs"@, 600000)
    } else if name == "qa_poll_event_session"@ {
        match required_str_arg(a, "sessionId"@) {
            None => r matches Err(e) && e@ == required_message("sessionId"@),
            Some(q) => r matches Ok(ToolCall::PollEventSession { session_id, cursor, max_events })
                && session_id@ == q && cursor == u64_arg_or(a, "cursor"@, 0) && max_events
                == u64_arg_or(a, "maxEvents"@, 100),
        }
    } else if name == "qa_close_event_session"@ {
        match required_str_arg(a, "sessionId"@) {
            None => r matches Err(e) && e@ == required_message("sessionId"@),
            Some(q) => r matches Ok(ToolCall::CloseEventSession { session_id }) && session_id@ == q,
        }
    } else {
        r matches Err(e) && e@ == "Unknown tool: "@ + name
    }
}

/// How a `tools/call` message is read: its parameters must be an object with
/// a tool name, and the tool reads its arguments.
pub open spec fn spec_tool_call(r: Result<ToolCall, String>, message: JsonView) -> bool {
    match call_params(message) {
        None => r matches Err(e) && e@ == "tools/call requires params."@,
        Some(p) => match jstr(jget(p, "name"@)) {
            None => r matches Err(e) && e@ == "tools/call requires params.name."@,
            Some(name) => is_tool_call(r, name, call_arguments(p)),
        },
    }
}

fn add_default(obj: &mut JsonValue, key: &str, v: JsonValue)
    requires
        old(obj)@ is Object,
    ensures
        final(obj)@ == JsonView::Object(with_default(object_entries(old(obj)@), key@, v@)),
{
    if obj.get(key).is_some() {
        return ;
    }
    match obj {
        JsonValue::Object(es) => {
            let ghost before = es@;
            let kv = (copy_str(key), v);
            let ghost kvv = kv;
            es.push(kv);
            proof {
                assert(es@.drop_last() == before);
                assert(es@.last() == kvv);
            }
        },
        _ => {},
    }
}

/// A `tools/call` is refused as a call of an unknown tool exactly when its
/// name is not one of the tools that `tools/list` gives: a listed tool is read
/// (its call, or what its arguments lack), an unlisted one is refused with
/// "Unknown tool: " and its name.
pub proof fn lemma_unknown_tool_iff_unlisted(r: Result<ToolCall, String>, name: Seq<char>, a: JsonView)
    requires
        is_tool_call(r, name, a),
    ensures
        (r matches Err(e) && e@ == "Unknown tool: "@ + name) <==> !crate::mcp_tools::tool_names().contains(name),
{
    reveal_strlit("Unknown tool: ");
    reveal_strlit("query");
    reveal_strlit("clientId");
    reveal_strlit("methodId");
    reveal_strlit("savePath");
    reveal_strlit("steps");
    reveal_strlit("requestId");
    reveal_strlit("sequenceId");
    reveal_strlit("sessionId");
    assert(("Unknown tool: "@ + name)[0] == 'U');
    assert(required_message("query"@)[0] == 'q');
    assert(required_message("clientId"@)[0] == 'c');
    assert(required_message("methodId"@)[0] == 'm');
    assert(required_message("savePath"@)[0] == 's');
    assert(required_message("steps"@)[0] == 's');
    assert(required_message("requestId"@)[0] == 'r');
    assert(required_message("sequenceId"@)[0] == 's');
    assert(required_message("sessionId"@)[0] == 's');
    let names = crate::mcp_tools::tool_names();
    if !names.contains(name) {
        assert forall|k: int| 0 <= k < names.len() implies names[k] != name by {
            if names[k] == name {
                assert(names.contains(name));
            }
        }
        assert(names[0] != name && names[1] != name && names[2] != name && names[3] != name);
        assert(names[4] != name && names[5] != name && names[6] != name && names[7] != name);
        assert(names[8] != name && names[9] != name && names[10] != name && names[11] != name);
        assert(names[12] != name && names[13] != name && names[14] != name);
    }
}

/// A call of `qa_execute_method` that is read runs the method named by the
/// call's `methodId` on the client named by its `clientId`, under its
/// `methodName` when it gives one, with exactly the items of the call's
/// `arguments` array, in order (none when that member is missing or not an
/// array); `arguments` is the member that the tool's input schema lists for
/// them.
pub proof fn lemma_execute_method_takes_its_arguments(r: Result<ToolCall, String>, a: JsonView)
    requires
        is_tool_call(r, "qa_execute_method"@, a),
    ensures
        match r {
            Ok(ToolCall::ExecuteMethod { client_id, method_id, method_name, arguments, .. }) => {
                &&& json_views(arguments@) == match jget(a, "arguments"@) {
                    Some(JsonView::Array(items)) => items,
                    _ => Seq::empty(),
                }
                &&& jget(a, "clientId"@) == Some(JsonView::Str(client_id@))
                &&& jget(a, "methodId"@) == Some(JsonView::Str(method_id@))
                &&& crate::paths::opt_view(method_name) == match jget(a, "methodName"@) {
                    Some(JsonView::Str(n)) => Some(n),
                    _ => None,
                }
            },
            _ => true,
        },
        jget(
            jget(jget(crate::mcp_tools::qa_execute_method_view(), "inputSchema"@)->0, "properties"@)->0,
            "arguments"@,
        ) == Some(crate::mcp_tools::qa_arguments_view()),
{
    reveal_strlit("name");
    reveal_strlit("title");
    reveal_strlit("description");
    reveal_strlit("inputSchema");
    reveal_strlit("type");
    reveal_strlit("properties");
    reveal_strlit("clientId");
    reveal_strlit("methodId");
    reveal_strlit("methodName");
    reveal_strlit("arguments");
    let es = crate::mcp_tools::qa_execute_method_view()->Object_0;
    assert("description"@[0] != "inputSchema"@[0]);
    assert forall|j: int| 0 <= j < 3 implies (#[trigger] es[j]).0 != "inputSchema"@ by {
        if j == 2 {
            assert(es[j].0[0] != "inputSchema"@[0]);
        }
    }
    crate::json::lemma_entries_get_first(es, "inputSchema"@, 3);
    let schema = es[3].1;
    let ss = schema->Object_0;
    assert(ss[0].0 == "type"@);
    assert("type"@.len() != "properties"@.len());
    assert(ss[0].0 != "properties"@);
    crate::json::lemma_entries_get_first(ss, "properties"@, 1);
    let ps = ss[1].1->Object_0;
    assert(ps[0].0 != "arguments"@ && ps[1].0 != "arguments"@ && ps[2].0 != "arguments"@);
    crate::json::lemma_entries_get_first(ps, "arguments"@, 3);
}

/// Reads a `tools/call` message.
pub fn parse_tool_call(message: &JsonValue) -> (r: Result<ToolCall, String>)
    ensures
        spec_tool_call(r, message@),
{
    let params = match message.get("params") {
        Some(p) => match p {
            JsonValue::Object(_) => p,
            _ => return Err(copy_str("tools/call requires params.")),
        },
        None => return Err(copy_str("tools/call requires params.")),
    };
    let name = match params.get("name") {
        Some(v) => match v.as_str() {
            Some(n) => n,
            None => return Err(copy_str("tools/call requires params.name.")),
        },
        None => return Err(copy_str("tools/call requires params.name.")),
    };
    let empty = JsonValue::Object(Vec::new());
    let a: &JsonValue = match params.get("arguments") {
        Some(v) => v,
        None => &empty,
    };
    if str_eq(name, "qa_health") {
        Ok(ToolCall::Health)
    } else if str_eq(name, "qa_list_unity_clients") {
        Ok(ToolCall::ListUnityClients { include_methods: bool_arg(a, "includeMethods", true) })
    } else if str_eq(name, "qa_find_methods") {
        let query = match string_arg(a, "query") {
            Some(q) => q,
            None => String::new(),
        };
        Ok(ToolCall::FindMethods { client_id: string_arg(a, "clientId"), query, limit: u64_arg(a, "limit", 50) })
    } else if str_eq(name, "qa_get_method") {
        let query = required_string_arg(a, "query")?;
        Ok(ToolCall::GetMethod { client_id: string_arg(a, "clientId"), query })
    } else if str_eq(name, "qa_get_results") {
        Ok(
            ToolCall::GetResults {
                client_id: string_arg(a, "clientId"),
                status: string_arg(a, "status"),
                sequence_id: string_arg(a, "sequenceId"),
                limit: u64_arg(a, "limit", 20),
            },
        )
    } else if str_eq(name, "qa_execute_method") {
        let client_id = required_string_arg(a, "clientId")?;
        let method_id = required_string_arg(a, "methodId")?;
        Ok(
            ToolCall::ExecuteMethod {
                client_id,
                method_id,
                method_name: string_arg(a, "methodName"),
                arguments: array_arg_copy(a, "arguments"),
                timeout_ms: u64_arg(a, "timeoutMs", EXECUTE_TIMEOUT_MS),
            },
        )
    } else if str_eq(name, "qa_capture_screenshot") {
        let client_id = required_string_arg(a, "clientId")?;
        let save_path = required_string_arg(a, "savePath")?;
        Ok(ToolCall::CaptureScreenshot { client_id, save_path })
    } else if str_eq(name, "qa_execute_sequence") {
        let client_id = required_string_arg(a, "clientId")?;
        let steps = array_arg_copy(a, "steps");
        if steps.len() == 0 {
            return Err(concat2("steps", " is required."));
        }
        Ok(
            ToolCall::ExecuteSequence {
                client_id,
                steps,
                stop_on_failure: bool_arg(a, "stopOnFailure", true),
                step_delay_ms: u64_arg(a, "stepDelayMs", 0),
                timeout_ms: u64_arg(a, "timeoutMs", SEQUENCE_TIMEOUT_MS),
            },
        )
    } else if str_eq(name, "qa_stop_execution") {
        let request_id = required_string_arg(a, "requestId")?;
        let reason = match string_arg(a, "reason") {
            Some(t) => t,
            None => copy_str("Stopped by qamcp."),
        };
        Ok(ToolCall::StopExecution { request_id, reason, timeout_ms: u64_arg(a, "timeoutMs", WS_CONNECT_TIMEOUT_MS) })
    } else if str_eq(name, "qa_stop_sequence") {
        let sequence_id = required_string_arg(a, "sequenceId")?;
        let reason = match string_arg(a, "reason") {
            Some(t) => t,
            None => copy_str("Stopped by qamcp."),
        };
        Ok(ToolCall::StopSequence { sequence_id, reason, timeout_ms: u64_arg(a, "timeoutMs", WS_CONNECT_TIMEOUT_MS) })
    } else if str_eq(name, "qa_watch_events") {
        Ok(
            ToolCall::WatchEvents {
                duration_ms: u64_arg(a, "durationMs", WATCH_EVENTS_DURATION_MS),
                event_types: string_array_arg(a, "eventTypes"),
                include_snapshot: bool_arg(a, "includeSnapshot", true),
                max_events: u64_arg(a, "maxEvents", 100),
            },
        )
    } else if str_eq(name, "qa_wait_for_result") {
        let mut filters = match a {
            JsonValue::Object(es) => JsonValue::Object(crate::json::copy_entries(es)),
            _ => JsonValue::Object(Vec::new()),
        };
        proof {
            assert(object_entries(filters@) =~= object_entries(a@)) by {
                match a@ {
                    JsonView::Object(_) => {},
                    _ => {
                        assert(json_entry_views(Seq::<(String, JsonValue)>::empty()) =~= Seq::<(Seq<char>, JsonView)>::empty());
                    },
                }
            }
        }
        add_default(&mut filters, "includeHistory", JsonValue::Bool(true));
        add_default(&mut filters, "timeoutMs", JsonValue::Number(copy_str("180000")));
        Ok(ToolCall::WaitForResult { filters })
    } else if str_eq(name, "qa_open_event_session") {
        Ok(
            ToolCall::OpenEventSession {
                event_types: string_array_arg(a, "eventTypes"),
                include_snapshot: bool_arg(a, "includeSnapshot", true),
                max_events: u64_arg(a, "maxEvents", EVENT_SESSION_MAX_EVENTS),
                ttl_ms: u64_arg(a, "ttlMs", EVENT_SESSION_TTL_MS),
            },
        )
    } else if str_eq(name, "qa_poll_event_session") {
        let session_id = required_string_arg(a, "sessionId")?;
        Ok(
            ToolCall::PollEventSession {
                session_id,
                cursor: u64_arg(a, "cursor", 0),
                max_events: u64_arg(a, "maxEvents", 100),
            },
        )
    } else if str_eq(name, "qa_close_event_session") {
        let session_id = required_string_arg(a, "sessionId")?;
        Ok(ToolCall::CloseEventSession { session_id })
    } else {
        Err(concat2("Unknown tool: ", name))
    }
}


/// What an incoming JSON-RPC message asks for.
#[derive(Debug)]
pub enum McpRequest {
    /// A message without an id: nothing is answered.
    Notification,
    Initialize { id: JsonValue, protocol_version: String },
    Ping { id: JsonValue },
    ListTools { id: JsonValue },
    CallTool { id: JsonValue, call: Result<ToolCall, String> },
    /// A method the server does not have; `message` is the error to answer.
    Unknown { id: JsonValue, message: String },
}

/// The method a message names, or empty.
pub open spec fn message_method(message: JsonView) -> Seq<char> {
    match jstr(jget(message, "method"@)) {
        Some(m) => m,
        None => Seq::empty(),
    }
}

/// How a message is read: no id means no answer; else its method decides.
pub open spec fn spec_mcp_request(r: McpRequest, message: JsonView) -> bool {
    match jget(message, "id"@) {
        None => r matches McpRequest::Notification,
        Some(id) => {
            let m = message_method(message);
            if m == "initialize"@ {
                r matches McpRequest::Initialize { id: i, protocol_version } && i@ == id
                    && protocol_version@ == spec_requested_protocol_version(message)
            } else if m == "ping"@ {
                r matches McpRequest::Ping { id: i } && i@ == id
            } else if m == "tools/list"@ {
                r matches McpRequest::ListTools { id: i } && i@ == id
            } else if m == "tools/call"@ {
                r matches McpRequest::CallTool { id: i, call } && i@ == id && spec_tool_call(
                    call,
                    message,
                )
            } else {
                r matches McpRequest::Unknown { id: i, message: e } && i@ == id && e@
                    == "Method not found: "@ + m
            }
        },
    }
}

/// Reads an incoming JSON-RPC message.
pub fn classify_message(message: &JsonValue) -> (r: McpRequest)
    ensures
        spec_mcp_request(r, message@),
{
    let id = match message.get("id") {
        Some(v) => v.copy(),
        None => return McpRequest::Notification,
    };
    let method = match message.get("method") {
        Some(v) => match v.as_str() {
            Some(m) => m,
            None => "",
        },
        None => "",
    };
    proof {
        reveal_strlit("");
        assert(method@ == message_method(message@));
        assert(jget(message@, "id"@) == Some(id@));
    }
    if str_eq(method, "initialize") {
        McpRequest::Initialize { id, protocol_version: requested_protocol_version(message) }
    } else if str_eq(method, "ping") {
        McpRequest::Ping { id }
    } else if str_eq(method, "tools/list") {
        McpRequest::ListTools { id }
    } else if str_eq(method, "tools/call") {
        McpRequest::CallTool { id, call: parse_tool_call(message) }
    } else {
        McpRequest::Unknown { id, message: concat2("Method not found: ", method) }
    }
}

fn member(key: &str, v: JsonValue) -> (r: (String, JsonValue))
    ensures
        r.0@ == key@,
        r.1 == v,
{
    (copy_str(key), v)
}

fn text_value(s: &str) -> (r: JsonValue)
    ensures
        r@ == JsonView::Str(s@),
{
    JsonValue::String(copy_str(s))
}

/// A JSON-RPC answer that carries `result`.
pub open spec fn success_view(id: JsonView, result: JsonView) -> JsonView {
    JsonView::Object(seq![("jsonrpc"@, JsonView::Str("2.0"@)), ("id"@, id), ("result"@, result)])
}

/// A JSON-RPC answer that carries an error.
pub open spec fn error_view(id: JsonView, code: Seq<char>, message: Seq<char>) -> JsonView {
    JsonView::Object(
        seq![
            ("jsonrpc"@, JsonView::Str("2.0"@)),
            ("id"@, id),
            ("error"@, JsonView::Object(seq![("code"@, JsonView::Number(code)), ("message"@, JsonView::Str(message))])),
        ],
    )
}

pub fn success_response(id: JsonValue, result: JsonValue) -> (r: JsonValue)
    ensures
        r@ == success_view(id@, result@),
{
    let v = vec![member("jsonrpc", text_value("2.0")), member("id", id), member("result", result)];
    let r = JsonValue::Object(v);
    proof {
        crate::json::lemma_entry_views_len(v@);
        crate::json::lemma_entry_views_index(v@, 0);
        crate::json::lemma_entry_views_index(v@, 1);
        crate::json::lemma_entry_views_index(v@, 2);
        assert(json_entry_views(v@) =~= seq![("jsonrpc"@, JsonView::Str("2.0"@)), ("id"@, id@), ("result"@, result@)]);
    }
    r
}

/// An error answer; `code` is the JSON-RPC error code in decimal.
pub fn error_response(id: JsonValue, code: &str, message: &str) -> (r: JsonValue)
    ensures
        r@ == error_view(id@, code@, message@),
{
    let inner = vec![member("code", JsonValue::Number(copy_str(code))), member("message", text_value(message))];
    let e = JsonValue::Object(inner);
    proof {
        crate::json::lemma_entry_views_len(inner@);
        crate::json::lemma_entry_views_index(inner@, 0);
        crate::json::lemma_entry_views_index(inner@, 1);
        assert(json_entry_views(inner@) =~= seq![("code"@, JsonView::Number(code@)), ("message"@, JsonView::Str(message@))]);
    }
    let v = vec![member("jsonrpc", text_value("2.0")), member("id", id), member("error", e)];
    let r = JsonValue::Object(v);
    proof {
        crate::json::lemma_entry_views_len(v@);
        crate::json::lemma_entry_views_index(v@, 0);
        crate::json::lemma_entry_views_index(v@, 1);
        crate::json::lemma_entry_views_index(v@, 2);
        assert(json_entry_views(v@) =~= seq![("jsonrpc"@, JsonView::Str("2.0"@)), ("id"@, id@), ("error"@, e@)]);
    }
    r
}

/// What a tool call answers: the tool's data as `structuredContent`, and one
/// text item under `content` that holds `text`, the data written out.
pub open spec fn tool_result_view(data: JsonView, text: Seq<char>) -> JsonView {
    JsonView::Object(
        seq![
            (
                "content"@,
                JsonView::Array(
                    seq![JsonView::Object(seq![("type"@, JsonView::Str("text"@)), ("text"@, JsonView::Str(text))])],
                ),
            ),
            ("structuredContent"@, data),
        ],
    )
}

/// Wraps what a tool returned into the result of its `tools/call`: the data
/// itself, and its pretty-printed JSON as the text item.
pub fn tool_result(data: JsonValue) -> (r: JsonValue)
    ensures
        r@ == tool_result_view(data@, crate::json_text::pretty_text(data@)),
{
    let text = data.to_pretty_text();
    let ghost dv = data@;
    let ghost tv = text@;
    let item = vec![
        (copy_str("type"), JsonValue::String(copy_str("text"))),
        (copy_str("text"), JsonValue::String(text)),
    ];
    proof {
        crate::json::lemma_entry_views_new(item@);
        assert(json_entry_views(item@) =~= seq![("type"@, JsonView::Str("text"@)), ("text"@, JsonView::Str(tv))]);
    }
    let content = vec![JsonValue::Object(item)];
    proof {
        crate::json::lemma_json_views_new(content@);
        assert(json_views(content@) =~= tool_result_view(dv, tv)->Object_0[0].1->Array_0);
    }
    let entries = vec![
        (copy_str("content"), JsonValue::Array(content)),
        (copy_str("structuredContent"), data),
    ];
    proof {
        crate::json::lemma_entry_views_new(entries@);
        assert(json_entry_views(entries@) =~= tool_result_view(dv, tv)->Object_0);
    }
    JsonValue::Object(entries)
}

} // verus!
