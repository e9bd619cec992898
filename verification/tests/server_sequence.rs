use qatest::json::JsonValue;
use qatest::server::execution::ExecutionMeta;
use qatest::server::sequence::{
    normalize_sequence_steps, parse_sequence_request, server_failure_record, SequenceAction,
    SequenceStatus,
};
use qatest::server::state::{ControllerIdentity, ExecutionRecord, ExecutionStatus, ServerState, UnityClient};

fn object(entries: Vec<(&str, JsonValue)>) -> JsonValue {
    JsonValue::Object(entries.into_iter().map(|(k, v)| (k.to_string(), v)).collect())
}

fn text(value: &str) -> JsonValue {
    JsonValue::String(value.to_string())
}

fn client(client_id: &str) -> UnityClient {
    UnityClient {
        client_id: client_id.to_string(),
        name: client_id.to_string(),
        ip_address: String::new(),
        ip_addresses: Vec::new(),
        remote_address: String::new(),
        platform: String::new(),
        unity_version: String::new(),
        device_name: String::new(),
        operating_system: String::new(),
        methods: Vec::new(),
        connected_at: 0,
        last_seen_at: 0,
        availability_changed_at: 0,
        available: true,
        unavailable_reason: String::new(),
        client_busy: false,
        current_request_id: String::new(),
        current_method_name: String::new(),
        connection_id: "k".to_string(),
        is_alive: true,
        lock: None,
    }
}

fn result(status: ExecutionStatus, success: bool) -> ExecutionRecord {
    let mut r = server_failure_record(
        "c1",
        Some("A()"),
        None,
        &Vec::new(),
        "",
        &ExecutionMeta::empty(),
        "r".to_string(),
        "t".to_string(),
    );
    r.status = status;
    r.success = Some(success);
    r
}

fn payload(stop_on_failure: bool) -> JsonValue {
    object(vec![
        ("sequenceId", text("seq-1")),
        ("clientId", text("c1")),
        ("stopOnFailure", JsonValue::Bool(stop_on_failure)),
        (
            "steps",
            JsonValue::Array(vec![
                object(vec![
                    ("methodId", text("A()")),
                    ("stepId", text("s1")),
                    (
                        "arguments",
                        JsonValue::Array(vec![JsonValue::Number("1".to_string()), text("x")]),
                    ),
                ]),
                object(vec![("foo", JsonValue::Bool(true))]),
                object(vec![("methodName", text("B"))]),
            ]),
        ),
    ])
}

#[test]
fn steps_without_a_method_are_dropped() {
    let steps = normalize_sequence_steps(
        Some(&JsonValue::Array(vec![
            object(vec![("methodId", text(""))]),
            object(vec![("methodId", text("M()")), ("allowParallelExecution", JsonValue::Bool(true))]),
        ])),
        &vec![None, Some(50)],
    );
    assert_eq!(steps.len(), 1);
    assert_eq!(steps[0].method_id, "M()");
    assert_eq!(steps[0].method_name, "M()");
    assert_eq!(steps[0].timeout_ms, Some(50));
    assert!(steps[0].allow_parallel_execution);
    assert_eq!(steps[0].step_id.len(), 36);
}

#[test]
fn sequence_runs_steps_in_order_and_counts_results() {
    let mut state = ServerState::new();
    state.unity_clients.push(client("c1"));
    let controller = ControllerIdentity { id: "ctl".to_string(), controller_type: "web".to_string() };
    let request = parse_sequence_request(&payload(false), &vec![None, None, None], 10, Some(900));
    assert_eq!(request.sequence_id, "seq-1");
    assert_eq!(request.steps.len(), 2);
    assert_eq!(request.steps[0].arguments, vec!["1".to_string(), "x".to_string()]);
    assert_eq!(request.steps[1].method_id, "B");
    assert_eq!(request.steps[1].method_name, "B");

    let mut run = state
        .begin_execution_sequence(&controller, request, "t0".to_string(), false, 1)
        .unwrap();
    assert!(state.unity_clients[0].lock.is_some());
    assert_eq!(state.active_sequences.len(), 1);

    match state.next_sequence_action(&mut run) {
        SequenceAction::Dispatch(req) => {
            assert_eq!(req.method_id, Some("A()".to_string()));
            assert_eq!(req.timeout_ms, Some(900));
            assert_eq!(req.meta.step_number, Some(1));
            assert_eq!(req.meta.total_steps, Some(2));
        }
        other => panic!("expected a dispatch, got {:?}", other),
    }
    assert!(state.record_step_result(&mut run, result(ExecutionStatus::Failed, false)));
    match state.next_sequence_action(&mut run) {
        SequenceAction::Sleep(ms) => assert_eq!(ms, 10),
        other => panic!("expected a pause, got {:?}", other),
    }
    match state.next_sequence_action(&mut run) {
        SequenceAction::Dispatch(req) => assert_eq!(req.meta.step_index, Some(1)),
        other => panic!("expected a dispatch, got {:?}", other),
    }
    assert!(state.record_step_result(&mut run, result(ExecutionStatus::Success, true)));
    assert!(matches!(state.next_sequence_action(&mut run), SequenceAction::Finish));
    let released = state.finish_sequence(&mut run, "t9".to_string());
    assert!(released.is_some());
    assert_eq!(run.status, SequenceStatus::Failed);
    assert_eq!(run.completed_steps, 2);
    assert_eq!(run.success_count, 1);
    assert_eq!(run.failed_count, 1);
    assert!(state.active_sequences.is_empty());
    assert!(state.unity_clients[0].lock.is_none());
}

#[test]
fn cancelled_step_cancels_the_sequence() {
    let mut state = ServerState::new();
    state.unity_clients.push(client("c1"));
    let controller = ControllerIdentity { id: "ctl".to_string(), controller_type: "web".to_string() };
    let request = parse_sequence_request(&payload(true), &Vec::new(), 0, None);
    let mut run = state
        .begin_execution_sequence(&controller, request, "t0".to_string(), false, 1)
        .unwrap();
    assert!(!state.record_step_result(&mut run, result(ExecutionStatus::Cancelled, false)));
    assert!(state.is_sequence_cancelled("seq-1"));
    assert!(matches!(state.next_sequence_action(&mut run), SequenceAction::Finish));
    state.finish_sequence(&mut run, "t1".to_string());
    assert_eq!(run.status, SequenceStatus::Cancelled);
    assert_eq!(run.cancel_reason, Some("Stopped by controller.".to_string()));
    assert_eq!(run.cancelled_count, 1);
}

#[test]
fn sequences_need_a_client_and_steps() {
    let mut state = ServerState::new();
    let controller = ControllerIdentity { id: "ctl".to_string(), controller_type: "web".to_string() };
    let empty = parse_sequence_request(&object(vec![]), &Vec::new(), 0, None);
    let error = state
        .begin_execution_sequence(&controller, empty, "t".to_string(), false, 1)
        .unwrap_err();
    assert_eq!(error.message, "clientId is required.");
    assert_eq!(error.status.code(), 400);
    let no_steps = parse_sequence_request(&object(vec![("clientId", text("c1"))]), &Vec::new(), 0, None);
    let error = state
        .begin_execution_sequence(&controller, no_steps, "t".to_string(), false, 1)
        .unwrap_err();
    assert_eq!(error.message, "At least one request step is required.");
    let offline = parse_sequence_request(&payload(true), &Vec::new(), 0, None);
    let error = state
        .begin_execution_sequence(&controller, offline, "t".to_string(), false, 1)
        .unwrap_err();
    assert_eq!(error.status.code(), 404);
}
