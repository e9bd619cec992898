use qatest::json::JsonValue;
use qatest::qa::ws::{EventSession, WatchLog};
use qatest::server::state::{
    ControllerIdentity, ExecutionRecord, ExecutionStatus, PendingExecution, ServerState,
    StatusCode, UnityClient, HISTORY_LIMIT,
};

fn unity_client(client_id: &str) -> UnityClient {
    UnityClient {
        client_id: client_id.to_string(),
        name: format!("{client_id}-name"),
        ip_address: String::new(),
        ip_addresses: Vec::new(),
        remote_address: String::new(),
        platform: String::new(),
        unity_version: String::new(),
        device_name: String::new(),
        operating_system: String::new(),
        methods: Vec::new(),
        connected_at: 0,
        last_seen_at: 0,
        availability_changed_at: 0,
        available: true,
        unavailable_reason: String::new(),
        client_busy: false,
        current_request_id: String::new(),
        current_method_name: String::new(),
        connection_id: "conn".to_string(),
        is_alive: true,
        lock: None,
    }
}

fn record(request_id: &str) -> ExecutionRecord {
    ExecutionRecord {
        request_id: request_id.to_string(),
        client_id: "c1".to_string(),
        client_name: None,
        client_ip_address: None,
        client_remote_address: None,
        client_ip_addresses: None,
        method_id: "M()".to_string(),
        method_name: "M".to_string(),
        arguments: Vec::new(),
        status: ExecutionStatus::Running,
        allow_parallel_execution: false,
        success: None,
        result: None,
        error: None,
        duration_ms: None,
        started_at: None,
        finished_at: None,
        sequence_id: None,
        step_id: None,
        step_index: None,
        step_number: None,
        total_steps: None,
    }
}

fn controller(id: &str) -> ControllerIdentity {
    ControllerIdentity { id: id.to_string(), controller_type: "mcp".to_string() }
}

#[test]
fn lock_holder_excludes_other_controllers() {
    let mut state = ServerState::new();
    state.unity_clients.push(unity_client("c1"));

    let taken = state
        .prepare_client_for_execution("c1", &controller("a"), false, false, false, 10)
        .unwrap();
    let event = taken.expect("the lock is taken");
    assert_eq!(event.client_id, "c1");
    assert_eq!(event.lock.owner_id, "a");

    let refused = state
        .prepare_client_for_execution("c1", &controller("b"), true, false, false, 11)
        .unwrap_err();
    assert_eq!(refused.status, StatusCode::Locked);
    assert_eq!(refused.status.code(), 423);
    assert_eq!(refused.message, "Unity client c1 is locked by another controller.");

    assert!(state
        .prepare_client_for_execution("c1", &controller("a"), true, false, false, 12)
        .is_ok());

    let missing = state
        .prepare_client_for_execution("c2", &controller("a"), false, false, false, 13)
        .unwrap_err();
    assert_eq!(missing.status.code(), 404);
    assert_eq!(missing.message, "Unity client c2 is not online.");
}

#[test]
fn only_the_owner_stops_an_execution() {
    let mut state = ServerState::new();
    state.unity_clients.push(unity_client("c1"));
    state.pending_executions.push(PendingExecution {
        request_id: "r1".to_string(),
        started: record("r1"),
        client_id: "c1".to_string(),
        owner_id: "a".to_string(),
        owner_type: "mcp".to_string(),
    });

    let refused = state
        .stop_execution_or_sequence(
            Some("r1".to_string()),
            None,
            &controller("b"),
            "stop".to_string(),
            "t".to_string(),
        )
        .unwrap_err();
    assert_eq!(refused.status, StatusCode::Forbidden);
    assert_eq!(refused.message, "Only the controller that owns this execution can stop it.");
    assert_eq!(state.pending_executions.len(), 1);

    let unknown = state
        .stop_execution_or_sequence(
            Some("r9".to_string()),
            None,
            &controller("a"),
            "stop".to_string(),
            "t".to_string(),
        )
        .unwrap_err();
    assert_eq!(unknown.status.code(), 404);
    assert_eq!(unknown.message, "Execution r9 is not running.");

    let stopped = state
        .stop_execution_or_sequence(
            Some("r1".to_string()),
            None,
            &controller("a"),
            "stop".to_string(),
            "t".to_string(),
        )
        .unwrap();
    let completion = stopped.completion.expect("the execution ends");
    assert_eq!(completion.record.status, ExecutionStatus::Cancelled);
    assert_eq!(state.pending_executions.len(), 0);

    let neither = state
        .stop_execution_or_sequence(None, None, &controller("a"), "stop".to_string(), "t".to_string())
        .unwrap_err();
    assert_eq!(neither.status.code(), 400);
}

#[test]
fn history_keeps_the_newest_records_and_replaces_by_id() {
    let mut state = ServerState::new();
    for i in 0..(HISTORY_LIMIT + 5) {
        state.add_history(record(&format!("r{i}")));
    }
    assert_eq!(state.execution_history.len(), HISTORY_LIMIT);
    assert_eq!(state.execution_history[0].request_id, format!("r{}", HISTORY_LIMIT + 4));
    assert_eq!(state.find_history("r0"), None);

    let mut done = record("r100");
    done.status = ExecutionStatus::Success;
    state.add_history(done);
    assert_eq!(state.execution_history.len(), HISTORY_LIMIT);
    let i = state.find_history("r100").expect("kept");
    assert_eq!(state.execution_history[i].status, ExecutionStatus::Success);
}

#[test]
fn polls_resume_where_they_stopped() {
    let mut session = EventSession::new(
        "s".to_string(),
        Vec::new(),
        true,
        3,
        1000,
        "t0".to_string(),
        "t1".to_string(),
    );
    for i in 0..5 {
        let message = JsonValue::Object(vec![
            ("type".to_string(), JsonValue::String("qa_result".to_string())),
            ("n".to_string(), JsonValue::Number(i.to_string())),
        ]);
        assert!(session.record_event(message, format!("t{i}")));
    }
    assert_eq!(session.events.len(), 3);
    assert_eq!(session.dropped_events, 2);

    let first = session.poll(0, 2, "p1".to_string());
    assert_eq!(first.lost_event_count, 0);
    let indices: Vec<u64> = first.events.iter().map(|e| e.index).collect();
    assert_eq!(indices, vec![3, 4]);
    assert!(first.has_more);
    assert_eq!(first.next_cursor, 4);

    let second = session.poll(first.next_cursor, 10, "p2".to_string());
    let indices: Vec<u64> = second.events.iter().map(|e| e.index).collect();
    assert_eq!(indices, vec![5]);
    assert!(!second.has_more);

    let late = session.poll(1, 10, "p3".to_string());
    assert_eq!(late.lost_event_count, 1);
}

#[test]
fn watch_keeps_wanted_events_up_to_its_limit() {
    let mut log = WatchLog::new(vec![" qa_result ".to_string(), "qa_result".to_string()], false, 2);
    assert_eq!(log.event_types, vec!["qa_result".to_string()]);
    let event = |kind: &str| {
        JsonValue::Object(vec![("type".to_string(), JsonValue::String(kind.to_string()))])
    };
    assert!(!log.record(event("snapshot"), "t0".to_string()));
    assert!(log.record(event("qa_result"), "t1".to_string()));
    assert!(!log.record(event("sequence_finished"), "t2".to_string()));
    assert!(log.record(event("qa_result"), "t3".to_string()));
    assert!(!log.record(event("qa_result"), "t4".to_string()));
    assert_eq!(log.events.len(), 2);
    assert_eq!(log.events[1].index, 2);
    assert_eq!(log.events[1].received_at, "t3");
    assert_eq!(log.events[1].event_type, "qa_result");
    assert_eq!(log.dropped_events, 1);
}
