use qatest::cli::simplify_method_id;
use qatest::config::{normalize_qa_server_url, read_qamcp_config, save_qa_server_url};
use qatest::json::JsonValue;
use qatest::mcp_tools::tool_definitions;
use qatest::qa::api::{resolve_method_query, MethodRecord};
use qatest::qa::artifacts::{
    artifact_download_target, build_screenshot_summary, extract_artifact_from_execution,
    resolve_register_url, select_method_candidate, ArtifactStep,
};

fn to_json(v: &serde_json::Value) -> JsonValue {
    match v {
        serde_json::Value::Null => JsonValue::Null,
        serde_json::Value::Bool(b) => JsonValue::Bool(*b),
        serde_json::Value::Number(n) => JsonValue::Number(n.to_string()),
        serde_json::Value::String(s) => JsonValue::String(s.clone()),
        serde_json::Value::Array(items) => JsonValue::Array(items.iter().map(to_json).collect()),
        serde_json::Value::Object(map) => {
            JsonValue::Object(map.iter().map(|(k, v)| (k.clone(), to_json(v))).collect())
        }
    }
}

fn parse(text: &str) -> JsonValue {
    to_json(&serde_json::from_str::<serde_json::Value>(text).unwrap())
}

fn object(entries: &[(&str, &str)]) -> JsonValue {
    JsonValue::Object(
        entries
            .iter()
            .map(|(k, v)| (k.to_string(), JsonValue::String(v.to_string())))
            .collect(),
    )
}

fn method_record(method_id: &str, method_name: &str) -> MethodRecord {
    MethodRecord {
        record: object(&[("methodId", method_id), ("methodName", method_name)]),
        normalized_method_id: method_id.to_lowercase(),
        normalized_short_method_id: simplify_method_id(method_id).to_lowercase(),
        normalized_method_name: method_name.to_lowercase(),
        haystack: format!("{method_id}\n{method_name}").to_lowercase(),
    }
}

fn extract(execution: &JsonValue) -> ArtifactStep {
    let mut parsed: Vec<(String, Option<JsonValue>)> = Vec::new();
    loop {
        match extract_artifact_from_execution(execution, &parsed) {
            ArtifactStep::NeedsParse(text) => {
                let value = serde_json::from_str::<serde_json::Value>(&text)
                    .ok()
                    .map(|v| to_json(&v));
                parsed.push((text, value));
            }
            done => return done,
        }
    }
}

#[test]
fn resolve_method_query_matches_multiple_terms_independently() {
    let methods = vec![
        method_record("Ping()", "连通性检查"),
        method_record("OperateListItemAndGetData(System.String)", "操作列表项并获取数据"),
    ];

    let ping = resolve_method_query(&methods, "连通性检查").unwrap();
    assert_eq!(ping.match_type.name(), "methodName");
    assert_eq!(methods[ping.method].record.get_str("methodId"), Some("Ping()"));

    let operate = resolve_method_query(&methods, "OperateListItemAndGetData").unwrap();
    assert_eq!(operate.match_type.name(), "shortMethodId");
    assert_eq!(
        methods[operate.method].record.get_str("methodName"),
        Some("操作列表项并获取数据")
    );
}

#[test]
fn resolve_method_query_prefers_exact_short_method_id() {
    let methods = vec![
        method_record("OperateListItemAndGetData(System.String)", "操作列表项并获取数据"),
        method_record("OperateListItem(System.String)", "操作列表项"),
    ];

    let method_match = resolve_method_query(&methods, "OperateListItemAndGetData").unwrap();

    assert_eq!(method_match.match_type.name(), "shortMethodId");
    assert_eq!(
        methods[method_match.method].record.get_str("methodId"),
        Some("OperateListItemAndGetData(System.String)")
    );
}

#[test]
fn resolve_method_query_reports_candidates_for_multiple_exact_matches() {
    let methods = vec![
        method_record("Ping(System.String)", "字符串连通性检查"),
        method_record("Ping(System.Int32)", "数字连通性检查"),
    ];

    let error = match resolve_method_query(&methods, "Ping") {
        Ok(_) => panic!("expected multiple matches"),
        Err(error) => error,
    };

    assert!(error.contains("Multiple methods exactly matched query: Ping."));
    assert!(error.contains("Ping(System.String)"));
    assert!(error.contains("Ping(System.Int32)"));
}

#[test]
fn resolve_method_query_does_not_use_fuzzy_matching() {
    let methods = vec![
        method_record("Ping()", "连通性检查"),
        method_record("PingAdvanced()", "高级连通性检查"),
    ];

    let error = match resolve_method_query(&methods, "连通性") {
        Ok(_) => panic!("expected no exact match"),
        Err(error) => error,
    };

    assert!(error.contains("No method exactly matched query: 连通性."));
}

#[test]
fn parses_artifact_from_string_result() {
    let execution =
        parse(r#"{"result": {"result": "{\"artifactId\":\"a\",\"fileName\":\"screen.png\"}"}}"#);

    let artifact = match extract(&execution) {
        ArtifactStep::Found(v) => v,
        other => panic!("no artifact: {other:?}"),
    };

    assert_eq!(artifact.get_str("artifactId"), Some("a"));
    assert_eq!(artifact.get_str("fileName"), Some("screen.png"));
}

#[test]
fn parses_nested_artifact_from_object_result() {
    let execution = parse(
        r#"{"result": {"result": {"ok": true, "artifact": {"downloadUrl": "/api/artifacts/id/download", "fileName": "screen.png"}}}}"#,
    );

    let artifact = match extract(&execution) {
        ArtifactStep::Found(v) => v,
        other => panic!("no artifact: {other:?}"),
    };

    assert_eq!(artifact.get_str("downloadUrl"), Some("/api/artifacts/id/download"));
}

#[test]
fn selects_exact_short_method_id_before_first_search_result() {
    let methods = vec![
        object(&[("methodId", "OtherCaptureScreenshotToRegister()"), ("methodName", "Other")]),
        object(&[("methodId", "CaptureScreenshotToRegister(System.String)"), ("methodName", "截图")]),
    ];

    let selected = select_method_candidate(&methods, "CaptureScreenshotToRegister").unwrap();

    assert_eq!(
        selected.get_str("methodId"),
        Some("CaptureScreenshotToRegister(System.String)")
    );
}

#[test]
fn builds_download_url_from_artifact_id() {
    let artifact = object(&[("artifactId", "123e4567-e89b-12d3-a456-426614174000")]);

    let target = artifact_download_target(&artifact).unwrap();
    let url = resolve_register_url(&target, "http://localhost:3000/").unwrap();

    assert_eq!(
        url::Url::parse(&url).unwrap().path(),
        "/api/artifacts/123e4567-e89b-12d3-a456-426614174000/download"
    );
}

#[test]
fn builds_minimal_screenshot_summary() {
    let artifact = parse(
        r#"{
            "artifact": {"artifactId": "artifact-1", "fileName": "server.png", "sha256": "server-sha", "sizeBytes": 100},
            "clientId": "client-1",
            "clientName": "client-name",
            "fileName": "screen.png",
            "height": 1080,
            "pngSizeBytes": 2371842,
            "width": 1920
        }"#,
    );
    let download = parse(
        r#"{"fileName": "local.png", "savedPath": "./img.png", "sha256": "download-sha", "sizeBytes": 2371842}"#,
    );

    let summary = build_screenshot_summary(&artifact, &download);

    assert_eq!(summary.get("success").and_then(|v| v.as_bool()), Some(true));
    assert_eq!(summary.get_str("savedPath"), Some("./img.png"));
    assert_eq!(summary.get_str("artifactId"), Some("artifact-1"));
    assert_eq!(summary.get_str("fileName"), Some("local.png"));
    assert_eq!(summary.get_str("clientId"), Some("client-1"));
    assert_eq!(summary.get_str("clientName"), Some("client-name"));
    assert_eq!(summary.get("width").and_then(|v| v.as_u64()), Some(1920));
    assert_eq!(summary.get("height").and_then(|v| v.as_u64()), Some(1080));
    assert_eq!(summary.get("sizeBytes").and_then(|v| v.as_u64()), Some(2371842));
    assert_eq!(summary.get_str("sha256"), Some("download-sha"));
    assert!(summary.get("artifact").is_none());
    assert!(summary.get("download").is_none());
    assert!(summary.get("execution").is_none());
    assert!(summary.get("result").is_none());
    assert!(summary.get("selectedMethod").is_none());
}

#[test]
fn normalizes_ws_urls_to_http_roots() {
    let url = normalize_qa_server_url("ws://localhost:3456/ws?role=unity").unwrap();
    assert_eq!(url, "http://localhost:3456/");
}

#[test]
fn adds_default_http_scheme() {
    let url = normalize_qa_server_url("localhost:3000").unwrap();
    assert_eq!(url, "http://localhost:3000/");
}

#[test]
fn server_url_errors_and_secure_schemes() {
    assert_eq!(normalize_qa_server_url("   "), Err("serverUrl cannot be empty.".to_string()));
    assert_eq!(
        normalize_qa_server_url("ftp://host/x"),
        Err("serverUrl must use http, https, ws, or wss.".to_string())
    );
    assert_eq!(
        normalize_qa_server_url(" wss://host:8443/a/b#frag ").unwrap(),
        "https://host:8443/"
    );
}

#[test]
fn saved_server_url_is_read_back() {
    let file = vec![("other".to_string(), JsonValue::Bool(true))];
    let (written, answer) = save_qa_server_url("cfg.json", &file, "ws://10.0.0.5:3000/ws").unwrap();
    assert_eq!(answer.get_str("serverUrl"), Some("http://10.0.0.5:3000/"));
    assert_eq!(answer.get("saved").and_then(|v| v.as_bool()), Some(true));
    let entries = match written {
        JsonValue::Object(es) => es,
        other => panic!("not an object: {other:?}"),
    };
    let config = read_qamcp_config("cfg.json", Some(&entries)).unwrap();
    assert_eq!(config.get_str("serverUrl"), Some("http://10.0.0.5:3000/"));
    assert_eq!(config.get("other").and_then(|v| v.as_bool()), Some(true));
    assert_eq!(config.get("exists").and_then(|v| v.as_bool()), Some(true));

    let missing = read_qamcp_config("cfg.json", None).unwrap();
    assert_eq!(missing.get_str("serverUrl"), Some("http://localhost:3000/"));
    assert_eq!(missing.get("exists").and_then(|v| v.as_bool()), Some(false));
}

#[test]
fn exposes_expected_tool_count() {
    let tools = tool_definitions();
    let names: Vec<&str> = tools.iter().filter_map(|tool| tool.get_str("name")).collect();
    assert_eq!(names.len(), 15);
    assert!(names.contains(&"qa_execute_method"));
    assert!(names.contains(&"qa_capture_screenshot"));
    assert!(names.contains(&"qa_open_event_session"));
    assert!(names.contains(&"qa_close_event_session"));
}
