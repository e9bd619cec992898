use qatest::json::JsonValue;
use qatest::server::clients::RegisterOutcome;
use qatest::server::state::{
    ClientLock, ExecutionRecord, ExecutionStatus, ServerState, UnityClient,
};

fn execution_record(request_id: &str, status: &str) -> ExecutionRecord {
    let status = match status {
        "running" => ExecutionStatus::Running,
        "success" => ExecutionStatus::Success,
        "cancelled" => ExecutionStatus::Cancelled,
        _ => ExecutionStatus::Failed,
    };
    ExecutionRecord {
        request_id: request_id.to_string(),
        client_id: "client-1".to_string(),
        client_name: None,
        client_ip_address: None,
        client_remote_address: None,
        client_ip_addresses: None,
        method_id: "Method()".to_string(),
        method_name: "Method".to_string(),
        arguments: Vec::new(),
        status,
        allow_parallel_execution: false,
        success: None,
        result: None,
        error: None,
        duration_ms: None,
        started_at: None,
        finished_at: None,
        sequence_id: None,
        step_id: None,
        step_index: None,
        step_number: None,
        total_steps: None,
    }
}

fn unity_client(client_id: &str, name: &str, connection_id: &str) -> UnityClient {
    UnityClient {
        client_id: client_id.to_string(),
        name: name.to_string(),
        ip_address: String::new(),
        ip_addresses: Vec::new(),
        remote_address: String::new(),
        platform: String::new(),
        unity_version: String::new(),
        device_name: String::new(),
        operating_system: String::new(),
        methods: Vec::new(),
        connected_at: 0,
        last_seen_at: 0,
        availability_changed_at: 0,
        available: true,
        unavailable_reason: String::new(),
        client_busy: false,
        current_request_id: String::new(),
        current_method_name: String::new(),
        connection_id: connection_id.to_string(),
        is_alive: true,
        lock: None,
    }
}

fn object(entries: Vec<(&str, JsonValue)>) -> JsonValue {
    JsonValue::Object(entries.into_iter().map(|(k, v)| (k.to_string(), v)).collect())
}

fn text(value: &str) -> JsonValue {
    JsonValue::String(value.to_string())
}

#[test]
fn stale_busy_report_requires_terminal_history() {
    let mut inner = ServerState::new();

    assert!(!inner.is_stale_busy_report("request-1"));

    inner
        .execution_history
        .push(execution_record("request-1", "running"));
    assert!(!inner.is_stale_busy_report("request-1"));

    inner.execution_history.clear();
    inner
        .execution_history
        .push(execution_record("request-1", "failed"));
    assert!(inner.is_stale_busy_report("request-1"));
}

#[test]
fn stale_busy_report_requires_all_reported_requests_terminal() {
    let mut inner = ServerState::new();
    inner
        .execution_history
        .push(execution_record("request-1", "failed"));

    assert!(!inner.is_stale_busy_report("request-1,request-2"));

    inner
        .execution_history
        .push(execution_record("request-2", "success"));
    assert!(inner.is_stale_busy_report("request-1,request-2"));
}

#[test]
fn duplicate_client_name_matches_different_connection() {
    let mut inner = ServerState::new();
    inner
        .unity_clients
        .push(unity_client("client-1", "shared-name", "connection-1"));

    let duplicate = inner.find_duplicate_client_name("client-2", "connection-2", "shared-name");

    assert!(duplicate.is_some());
    assert_eq!(inner.unity_clients[duplicate.unwrap()].client_id, "client-1");
}

#[test]
fn duplicate_client_name_rejects_same_client_id_on_new_connection() {
    let mut inner = ServerState::new();
    inner
        .unity_clients
        .push(unity_client("client-1", "shared-name", "connection-1"));

    let duplicate = inner.find_duplicate_client_name("client-1", "connection-2", "shared-name");

    assert!(duplicate.is_some());
}

#[test]
fn duplicate_client_name_allows_same_connection_refresh() {
    let mut inner = ServerState::new();
    inner
        .unity_clients
        .push(unity_client("client-1", "shared-name", "connection-1"));

    let duplicate = inner.find_duplicate_client_name("client-1", "connection-1", "shared-name");

    assert!(duplicate.is_none());
}

#[test]
fn duplicate_client_name_rejects_changed_client_id_on_same_connection() {
    let mut inner = ServerState::new();
    inner
        .unity_clients
        .push(unity_client("client-1", "shared-name", "connection-1"));

    let duplicate = inner.find_duplicate_client_name("client-2", "connection-1", "shared-name");

    assert!(duplicate.is_some());
}

#[test]
fn registration_fills_the_client_and_rejects_taken_names() {
    let mut inner = ServerState::new();
    let payload = object(vec![
        ("clientId", text("c1")),
        ("name", text("  Editor ")),
        (
            "ipAddresses",
            JsonValue::Array(vec![text(""), text("10.0.0.2"), JsonValue::Null]),
        ),
        ("busy", JsonValue::Bool(false)),
    ]);
    match inner.register_unity_client("conn-1", "10.0.0.2:5000", &payload, 100) {
        RegisterOutcome::Registered { client_id, replaced_connection, .. } => {
            assert_eq!(client_id, "c1");
            assert_eq!(replaced_connection, None);
        }
        RegisterOutcome::Rejected { .. } => panic!("expected a registration"),
    }
    let c = &inner.unity_clients[0];
    assert_eq!(c.name, "Editor");
    assert_eq!(c.ip_address, "10.0.0.2");
    assert_eq!(c.ip_addresses, vec!["10.0.0.2".to_string()]);
    assert_eq!(c.platform, "unknown");
    assert_eq!(c.connected_at, 100);

    let rival = object(vec![("clientId", text("c2")), ("name", text("Editor"))]);
    match inner.register_unity_client("conn-2", "x", &rival, 200) {
        RegisterOutcome::Rejected { existing_client_id, client_name, message, .. } => {
            assert_eq!(existing_client_id, "c1");
            assert_eq!(client_name, "Editor");
            assert!(message.contains("Editor"));
        }
        RegisterOutcome::Registered { .. } => panic!("expected a rejection"),
    }
    assert_eq!(inner.unity_clients.len(), 1);

    let again = object(vec![("clientId", text("c1")), ("name", text("Editor"))]);
    match inner.register_unity_client("conn-3", "x", &again, 300) {
        RegisterOutcome::Rejected { .. } => {}
        RegisterOutcome::Registered { .. } => panic!("a new connection may not take the name"),
    }
}

#[test]
fn idle_registration_releases_an_unused_lock() {
    let mut inner = ServerState::new();
    let mut c = unity_client("c1", "n", "conn-1");
    c.lock = Some(ClientLock {
        owner_id: "owner".to_string(),
        owner_type: "web".to_string(),
        acquired_at: 1,
        last_seen_at: 1,
    });
    inner.unity_clients.push(c);
    let payload = object(vec![("clientId", text("c1")), ("name", text("renamed"))]);
    match inner.register_unity_client("conn-2", "x", &payload, 5) {
        RegisterOutcome::Registered { released, replaced_connection, .. } => {
            assert!(released.is_some());
            assert_eq!(replaced_connection, Some("conn-1".to_string()));
        }
        RegisterOutcome::Rejected { .. } => panic!("expected a registration"),
    }
    assert!(inner.unity_clients[0].lock.is_none());
    assert_eq!(inner.unity_clients[0].connected_at, 0);
    assert_eq!(inner.unity_clients[0].name, "renamed");
}

#[test]
fn touching_and_removing_clients_follow_the_connection() {
    let mut inner = ServerState::new();
    let mut c = unity_client("c1", "n", "conn-1");
    c.available = false;
    c.unavailable_reason = "heartbeat_timeout".to_string();
    inner.unity_clients.push(c);
    assert!(!inner.touch_unity_client("c1", "other", 9));
    assert!(inner.touch_unity_client("c1", "conn-1", 9));
    assert!(inner.unity_clients[0].available);
    assert_eq!(inner.unity_clients[0].unavailable_reason, "");
    assert_eq!(inner.unity_clients[0].availability_changed_at, 9);
    assert!(!inner.remove_unity_client("c1", Some("other")));
    assert!(inner.remove_unity_client("c1", None));
    assert!(inner.unity_clients.is_empty());
}

#[test]
fn busy_reports_update_the_client_state() {
    let mut inner = ServerState::new();
    inner.unity_clients.push(unity_client("c1", "n", "conn-1"));
    let report = object(vec![
        ("busy", JsonValue::Bool(true)),
        ("currentRequestId", text("r9")),
        ("currentMethodName", text("Ping")),
    ]);
    let update = inner.update_unity_client_execution_state("c1", "conn-1", &report);
    assert!(update.changed);
    assert!(inner.unity_clients[0].client_busy);
    assert_eq!(inner.unity_clients[0].current_request_id, "r9");

    inner.execution_history.push(execution_record("r9", "success"));
    let update = inner.update_unity_client_execution_state("c1", "conn-1", &report);
    assert!(update.ignored_stale_busy);
    assert!(!inner.unity_clients[0].client_busy);

    let silent = object(vec![("type", text("heartbeat"))]);
    let update = inner.update_unity_client_execution_state("c1", "conn-1", &silent);
    assert!(!update.changed);
}

#[test]
fn heartbeat_rounds_fail_silent_clients_and_mark_stale_ones() {
    let mut inner = ServerState::new();
    inner.unity_clients.push(unity_client("c1", "a", "k1"));
    let mut quiet = unity_client("c2", "b", "k2");
    quiet.is_alive = false;
    inner.unity_clients.push(quiet);
    let round = inner.begin_heartbeat();
    assert_eq!(round.unity_pings, vec![("c1".to_string(), "k1".to_string())]);
    assert_eq!(round.unity_failures, vec![("c2".to_string(), "k2".to_string())]);
    assert!(!inner.unity_clients[0].is_alive);

    let stale = inner.mark_stale_unity_clients(1_000_000_000, 500);
    assert_eq!(stale, vec!["c1".to_string(), "c2".to_string()]);
    assert!(!inner.unity_clients[0].available);
    assert_eq!(inner.unity_clients[0].unavailable_reason, "heartbeat_timeout");
    assert!(inner.mark_stale_unity_clients(2_000_000_000, 500).is_empty());
}

#[test]
fn controllers_gain_and_lose_sockets() {
    let mut inner = ServerState::new();
    let id = inner.attach_controller("s1", Some(" ctl "), None, Some("mcp"), 7);
    assert_eq!(id.id, "ctl");
    assert_eq!(id.controller_type, "mcp");
    let again = inner.attach_controller("s2", Some("ctl"), Some(" "), None, 8);
    assert_eq!(again.controller_type, "web");
    assert_eq!(inner.controllers.len(), 1);
    assert_eq!(inner.controllers[0].sockets.len(), 2);

    let gone = inner.detach_web_socket("s1", 9).unwrap();
    assert_eq!(gone.controller_id, "ctl");
    assert_eq!(inner.controllers[0].sockets, vec!["s2".to_string()]);
    assert_eq!(inner.controllers[0].last_disconnected_at, Some(9));
    assert!(inner.detach_web_socket("s1", 10).is_none());

    let fresh = inner.attach_controller("s3", None, None, None, 11);
    assert_eq!(fresh.id.len(), 36);
    assert_eq!(fresh.controller_type, "web");
}
