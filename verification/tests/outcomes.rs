use qatest::json::JsonValue;
use qatest::mcp::tool_result;
use qatest::mcp_tools::tool_definitions;
use qatest::qa::api::check_describe_query;
use qatest::qa::events::{missing_session_answer, session_not_found, SessionStore};
use qatest::qa::ws::{kept_controller_id, EventSession, WatchLog};
use qatest::server::artifacts::{artifact_directory, sanitize_file_name};
use qatest::server::execution::{send_failure_patch, timeout_patch};
use qatest::server::archive::ArchiveRecord;
use qatest::server::state::{ControllerIdentity, ExecutionRecord, ExecutionStatus, ServerState};

fn find_tool(name: &str) -> JsonValue {
    tool_definitions().into_iter().find(|tool| tool.get_str("name") == Some(name)).unwrap()
}

fn strings(value: Option<&JsonValue>) -> Vec<String> {
    value
        .and_then(|v| v.as_array())
        .map(|items| items.iter().filter_map(|item| item.as_str().map(|s| s.to_string())).collect())
        .unwrap_or_default()
}

#[test]
fn stop_sequence_tool_requires_its_sequence_id() {
    let tool = find_tool("qa_stop_sequence");
    let schema = tool.get("inputSchema").unwrap();
    assert_eq!(strings(schema.get("required")), vec!["sequenceId".to_string()]);
    assert_eq!(schema.get_str("type"), Some("object"));
    let annotations = tool.get("annotations").unwrap();
    assert!(matches!(annotations.get("destructiveHint"), Some(JsonValue::Bool(true))));
    assert!(matches!(annotations.get("openWorldHint"), Some(JsonValue::Bool(false))));
    assert_eq!(annotations.get_str("title"), tool.get_str("title"));
}

#[test]
fn execute_method_tool_requires_client_and_method() {
    let tool = find_tool("qa_execute_method");
    let schema = tool.get("inputSchema").unwrap();
    assert_eq!(strings(schema.get("required")), vec!["clientId".to_string(), "methodId".to_string()]);
    let timeout = schema.get("properties").unwrap().get("timeoutMs").unwrap();
    assert!(matches!(timeout.get("minimum"), Some(JsonValue::Number(n)) if n == "1000"));
    assert!(matches!(timeout.get("maximum"), Some(JsonValue::Number(n)) if n == "300000"));
}

#[test]
fn health_tool_takes_no_arguments() {
    let tool = find_tool("qa_health");
    let schema = tool.get("inputSchema").unwrap();
    assert!(matches!(schema.get("properties"), Some(JsonValue::Object(entries)) if entries.is_empty()));
    assert!(strings(schema.get("required")).is_empty());
}

#[test]
fn tool_result_wraps_data_and_its_text() {
    let data = JsonValue::Object(vec![("ok".to_string(), JsonValue::Bool(true))]);
    let result = tool_result(data);
    assert!(matches!(result.get("structuredContent").and_then(|d| d.get("ok")), Some(JsonValue::Bool(true))));
    let content = result.get("content").and_then(|c| c.as_array()).unwrap();
    assert_eq!(content.len(), 1);
    assert_eq!(content[0].get_str("type"), Some("text"));
    assert_eq!(content[0].get_str("text"), Some("{\n  \"ok\": true\n}"));
}

#[test]
fn timeout_fails_the_execution_after_its_limit() {
    let patch = timeout_patch(2500, "2024-01-01T00:00:00.000Z".to_string());
    assert_eq!(patch.status, ExecutionStatus::Failed);
    assert!(!patch.success);
    assert_eq!(patch.error, "Timed out after 2500 ms.");
    assert_eq!(patch.duration_ms, 2500);
    assert_eq!(patch.finished_at, "2024-01-01T00:00:00.000Z");
    assert!(matches!(&patch.result, JsonValue::String(s) if s.is_empty()));
    assert!(patch.client_id.is_none() && patch.method_id.is_none() && patch.method_name.is_none());
}

#[test]
fn unsent_command_fails_the_execution_at_once() {
    let patch = send_failure_patch("t".to_string());
    assert_eq!(patch.status, ExecutionStatus::Failed);
    assert_eq!(patch.error, "Failed to send execution command.");
    assert_eq!(patch.duration_ms, 0);
}

#[test]
fn describe_refuses_an_empty_query_before_asking() {
    let usage = "describe requires --query <methodId-or-methodName>.".to_string();
    assert_eq!(check_describe_query(""), Err(usage.clone()));
    assert_eq!(check_describe_query(" | |"), Err(usage));
    assert_eq!(check_describe_query("Open|Close"), Ok(()));
}

#[test]
fn sanitized_names_are_single_safe_components() {
    assert_eq!(sanitize_file_name(Some("  a  b??c.png ")), Some("a_b_c.png".to_string()));
    assert_eq!(sanitize_file_name(Some("__--x--__")), Some("x".to_string()));
    assert_eq!(sanitize_file_name(Some("   ")), None);
    assert_eq!(sanitize_file_name(None), None);
    assert_eq!(sanitize_file_name(Some("CON.txt")), None);
    assert_eq!(sanitize_file_name(Some("METADATA.JSON")), None);
    let long = "y".repeat(400);
    assert_eq!(sanitize_file_name(Some(&long)).unwrap().len(), 160);
}

#[test]
fn event_session_answers_tell_the_session() {
    let mut session = EventSession::new(
        "s1".to_string(),
        vec!["qa_result".to_string()],
        false,
        2,
        60000,
        "t0".to_string(),
        "t1".to_string(),
    );
    let summary = session.summary();
    assert_eq!(summary.get_str("sessionId"), Some("s1"));
    assert_eq!(summary.get_str("status"), Some("open"));
    assert!(matches!(summary.get("lastPolledAt"), Some(JsonValue::Null)));
    assert!(matches!(summary.get("nextIndex"), Some(JsonValue::Number(n)) if n == "1"));
    let message = JsonValue::Object(vec![("type".to_string(), JsonValue::String("qa_result".to_string()))]);
    assert!(session.record_event(message, "t2".to_string()));
    let polled = session.poll(0, 10, "t3".to_string());
    let answer = session.poll_answer(&polled);
    assert_eq!(answer.get_str("lastPolledAt"), Some("t3"));
    assert!(matches!(answer.get("count"), Some(JsonValue::Number(n)) if n == "1"));
    assert!(matches!(answer.get("nextCursor"), Some(JsonValue::Number(n)) if n == "1"));
    assert!(matches!(answer.get("hasMore"), Some(JsonValue::Bool(false))));
    let events = answer.get("events").and_then(|e| e.as_array()).unwrap();
    assert_eq!(events[0].get_str("type"), Some("qa_result"));
    assert_eq!(events[0].get_str("receivedAt"), Some("t2"));
    let closed = session.close_answer("done");
    assert_eq!(closed.get_str("status"), Some("closed"));
    assert_eq!(closed.get_str("closeReason"), Some("done"));
    assert!(matches!(closed.get("existed"), Some(JsonValue::Bool(true))));
    let missing = missing_session_answer("nope");
    assert!(matches!(missing.get("existed"), Some(JsonValue::Bool(false))));
    assert_eq!(session_not_found("nope"), "QA event session not found: nope");
    let log = WatchLog::new(Vec::new(), true, 5);
    let watch = log.answer(true, 1500, Some(1000), "bye");
    assert_eq!(watch.get_str("status"), Some("closed"));
    assert!(matches!(watch.get("closeCode"), Some(JsonValue::Number(n)) if n == "1000"));
    assert!(matches!(watch.get("truncated"), Some(JsonValue::Bool(false))));
}

fn archived_execution(method_id: &str, method_name: &str) -> ExecutionRecord {
    ExecutionRecord {
        request_id: "req-1".to_string(),
        client_id: "unity-1".to_string(),
        client_name: None,
        client_ip_address: None,
        client_remote_address: None,
        client_ip_addresses: None,
        method_id: method_id.to_string(),
        method_name: method_name.to_string(),
        arguments: vec!["a".to_string(), "b".to_string()],
        status: ExecutionStatus::Failed,
        allow_parallel_execution: false,
        success: Some(false),
        result: Some(JsonValue::String("ok".to_string())),
        error: Some(String::new()),
        duration_ms: Some(5),
        started_at: Some("2024-01-01T00:00:00.000Z".to_string()),
        finished_at: Some("not a time".to_string()),
        sequence_id: Some("seq-1".to_string()),
        step_id: None,
        step_index: Some(2),
        step_number: Some(3),
        total_steps: None,
    }
}

#[test]
fn archive_row_reads_the_execution() {
    let state = ServerState::new();
    let controller = ControllerIdentity { id: " ctl ".to_string(), controller_type: String::new() };
    let row = ArchiveRecord::from_execution(&state, &archived_execution("Demo.Tests.Jump(int)", "  Jump  "), Some(&controller));
    assert_eq!(row.method_id, "Demo.Tests.Jump(int)");
    assert_eq!(row.method_name.as_deref(), Some("Jump"));
    assert_eq!(row.method_real_name.as_deref(), Some("Jump"));
    assert_eq!(row.method_display_name.as_deref(), Some("Jump"));
    assert_eq!(row.controller_id.as_deref(), Some("ctl"));
    assert_eq!(row.controller_type, None);
    assert_eq!(row.client_name, None);
    assert_eq!(row.client_snapshot_json, None);
    assert_eq!(row.error_text, None);
    assert_eq!(row.duration_ms, Some(5));
    assert_eq!(row.step_index, Some(2));
    assert_eq!(row.step_number, Some(3));
    assert_eq!(row.total_steps, None);
    assert_eq!(row.sequence_id.as_deref(), Some("seq-1"));
    assert_eq!(row.arguments_json, "[\"a\",\"b\"]");
    assert_eq!(row.result_json.as_deref(), Some("\"ok\""));
    assert_eq!(row.started_at, Some(1_704_067_200_000_000));
    assert_eq!(row.finished_at, None);
    let unnamed = ArchiveRecord::from_execution(&state, &archived_execution(" ", ""), None);
    assert_eq!(unnamed.method_id, "req-1");
    assert_eq!(unnamed.method_real_name, None);
    assert_eq!(unnamed.controller_id, None);
}

#[test]
fn controller_id_is_kept_for_the_process() {
    let mut chosen: Option<String> = None;
    let first = kept_controller_id(&mut chosen, None);
    assert!(first.starts_with("qamcp:"));
    assert_eq!(first.len(), "qamcp:".len() + 36);
    let second = kept_controller_id(&mut chosen, Some("other"));
    assert_eq!(first, second);
    let mut configured: Option<String> = None;
    assert_eq!(kept_controller_id(&mut configured, Some(" ctl ")), " ctl ");
    assert_eq!(kept_controller_id(&mut configured, None), " ctl ");
}

#[test]
fn archive_row_keeps_the_registered_client_and_method() {
    let mut state = ServerState::new();
    let method = JsonValue::Object(vec![
        ("id".to_string(), JsonValue::String("Demo.Tests.Jump(int)".to_string())),
        ("name".to_string(), JsonValue::String(" Jump high ".to_string())),
        ("declaringType".to_string(), JsonValue::String("Demo.Tests".to_string())),
    ]);
    let payload = JsonValue::Object(vec![
        ("clientId".to_string(), JsonValue::String("unity-1".to_string())),
        ("name".to_string(), JsonValue::String("Editor".to_string())),
        ("methods".to_string(), JsonValue::Array(vec![method])),
    ]);
    state.register_unity_client("conn-1", "10.0.0.2:5000", &payload, 1_704_067_200_000_000_000);
    let row = ArchiveRecord::from_execution(&state, &archived_execution("Demo.Tests.Jump(int)", ""), None);
    assert_eq!(row.client_name.as_deref(), Some("Editor"));
    assert_eq!(row.method_display_name.as_deref(), Some("Jump high"));
    assert_eq!(row.declaring_type.as_deref(), Some("Demo.Tests"));
    assert_eq!(row.return_type, None);
    assert_eq!(row.method_real_name.as_deref(), Some("Jump"));
    let snapshot = row.client_snapshot_json.unwrap();
    assert!(snapshot.contains("\"connectedAt\":\"2024-01-01T00:00:00+00:00\""), "{snapshot}");
    assert!(row.method_metadata_json.unwrap().contains("\"declaringType\":\"Demo.Tests\""));
}

#[test]
fn closed_session_stays_closed() {
    let mut store: SessionStore<u32> = SessionStore::new();
    store.insert("s1".to_string(), 1);
    store.insert("s2".to_string(), 2);
    store.insert("s1".to_string(), 3);
    assert_eq!(store.get("s1"), Some(&3));
    assert_eq!(store.remove("s1"), Some(3));
    assert_eq!(store.get("s1"), None);
    assert_eq!(store.remove("s1"), None);
    assert_eq!(store.get("s2"), Some(&2));
}

#[test]
fn tool_result_text_is_the_pretty_data() {
    let data = JsonValue::Object(vec![
        ("b".to_string(), JsonValue::Number("1".to_string())),
        ("a".to_string(), JsonValue::Array(vec![JsonValue::Bool(true)])),
    ]);
    let result = tool_result(data);
    let content = result.get("content").and_then(|c| c.as_array()).unwrap();
    let value: serde_json::Value = serde_json::from_str("{\"b\": 1, \"a\": [true]}").unwrap();
    let expected = serde_json::to_string_pretty(&value).unwrap();
    assert_eq!(content[0].get_str("text"), Some(expected.as_str()));
}

#[test]
fn archive_snapshot_keeps_the_clock_and_sorts_its_keys() {
    let mut state = ServerState::new();
    let payload = JsonValue::Object(vec![
        ("clientId".to_string(), JsonValue::String("unity-1".to_string())),
        ("name".to_string(), JsonValue::String("Editor".to_string())),
    ]);
    state.register_unity_client("conn-1", "10.0.0.2:5000", &payload, 1_704_067_200_123_456_789);
    let row = ArchiveRecord::from_execution(&state, &archived_execution("M", ""), None);
    let snapshot = row.client_snapshot_json.unwrap();
    assert!(snapshot.starts_with("{\"available\":true,\"clientId\":\"unity-1\","), "{snapshot}");
    assert!(snapshot.contains("\"connectedAt\":\"2024-01-01T00:00:00.123456789+00:00\""), "{snapshot}");
}

#[test]
fn artifact_ids_in_every_uuid_form_are_accepted() {
    use_uuid_forms();
}

fn use_uuid_forms() {
    let ok = [
        "123e4567-e89b-12d3-a456-426614174000",
        "123E4567E89B12D3A456426614174000",
        "{123e4567-e89b-12d3-a456-426614174000}",
        "URN:uuid:123e4567-e89b-12d3-a456-426614174000",
    ];
    for id in ok {
        assert!(artifact_directory("s", id).is_ok(), "{id}");
        assert_eq!(uuid::Uuid::parse_str(id).is_ok(), true);
    }
    let bad = [
        "123e4567-e89b-12d3-a456-42661417400g",
        "123e4567e89b-12d3-a456-4266141740000",
        "{123e4567-e89b-12d3-a456-426614174000]",
        "urn:uid::123e4567-e89b-12d3-a456-426614174000",
        "",
    ];
    for id in bad {
        assert!(artifact_directory("s", id).is_err(), "{id}");
        assert_eq!(uuid::Uuid::parse_str(id).is_ok(), false);
    }
}
