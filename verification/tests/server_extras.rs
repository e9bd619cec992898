use qatest::json::JsonValue;
use qatest::network::{AccessScope, IpAddress};
use qatest::server::artifacts::{
    artifact_directory, attachment_disposition, create_artifact, prepare_artifact,
    CreateArtifactQuery,
};
use qatest::server::auth::{web_login, LOGOUT_COOKIE};
use qatest::server::config::{env_bool, env_positive_u16, env_positive_u64, parse_unsigned, Config};
use qatest::server::state::StatusCode;

fn vars(items: &[(&str, &str)]) -> Vec<(String, String)> {
    items.iter().map(|(k, v)| (k.to_string(), v.to_string())).collect()
}

fn query(client_id: &str, kind: &str, file_name: Option<&str>) -> CreateArtifactQuery {
    CreateArtifactQuery {
        client_id: client_id.to_string(),
        kind: kind.to_string(),
        file_name: file_name.map(|f| f.to_string()),
    }
}

#[test]
fn login_checks_the_token_and_sets_a_hex_cookie() {
    let open = web_login(None, None).unwrap();
    assert!(open.set_cookie.is_none());
    assert_eq!(open.body.get("tokenRequired").and_then(|v| v.as_bool()), Some(false));

    let body = JsonValue::Object(vec![("token".to_string(), JsonValue::String("ab".to_string()))]);
    let ok = web_login(Some("ab"), Some(&body)).unwrap();
    assert_eq!(
        ok.set_cookie.as_deref(),
        Some("qa_web_console_token=6162; HttpOnly; SameSite=Lax; Path=/")
    );
    assert_eq!(ok.body.get("authenticated").and_then(|v| v.as_bool()), Some(true));

    let wrong = web_login(Some("ab"), Some(&JsonValue::Object(Vec::new()))).unwrap_err();
    assert_eq!(wrong.status, StatusCode::Unauthorized);
    assert_eq!(wrong.message, "Invalid web console token.");

    let not_json = web_login(Some("ab"), None).unwrap_err();
    assert_eq!(not_json.status.code(), 400);
    assert!(LOGOUT_COOKIE.ends_with("Max-Age=0"));
}

#[test]
fn environment_numbers_and_switches() {
    assert_eq!(parse_unsigned("+42", 100), Some(42));
    assert_eq!(parse_unsigned("101", 100), None);
    assert_eq!(parse_unsigned("4x", 100), None);
    assert_eq!(env_positive_u64(Some(" 2500 "), 9), 2500);
    assert_eq!(env_positive_u64(Some("0"), 9), 9);
    assert_eq!(env_positive_u64(None, 9), 9);
    assert_eq!(env_positive_u16(Some("70000"), 3000), 3000);
    assert!(env_bool(Some(" Enabled "), false));
    assert!(!env_bool(Some("off"), true));
    assert!(env_bool(Some("maybe"), true));
}

#[test]
fn configuration_from_the_environment() {
    let defaults = Config::from_env(&Vec::new(), None, "client/dist", "artifacts");
    assert_eq!(defaults.port, 3000);
    assert_eq!(defaults.access_scope, AccessScope::Private);
    assert_eq!(defaults.execution_timeout_ms, 20_000);
    assert_eq!(defaults.unity_heartbeat_stale_ms, 45_000);
    assert_eq!(defaults.heartbeat_interval_ms, 15_000);
    assert_eq!(defaults.artifact_max_bytes, 20 * 1024 * 1024);
    assert_eq!(defaults.client_dist_dir, "client/dist");
    assert_eq!(defaults.log_prefix, "registerserver");
    assert!(defaults.web_console_token.is_none());
    assert!(matches!(defaults.listen_host, IpAddress::V4([0, 0, 0, 0])));

    let set = Config::from_env(
        &vars(&[
            ("PORT", "3001"),
            ("QA_ACCESS_SCOPE", "public"),
            ("QA_WEB_CONSOLE_TOKEN", "  secret  "),
            ("QA_ARTIFACT_DIR", "/data/a"),
            ("EXECUTION_TIMEOUT_MS", "-5"),
        ]),
        Some(IpAddress::V4([127, 0, 0, 1])),
        "client/dist",
        "artifacts",
    );
    assert_eq!(set.port, 3001);
    assert_eq!(set.access_scope, AccessScope::Unrestricted);
    assert_eq!(set.web_console_token.as_deref(), Some("secret"));
    assert_eq!(set.artifact_dir, "/data/a");
    assert_eq!(set.execution_timeout_ms, 20_000);
}

#[test]
fn uploads_are_checked_and_described() {
    let q = query(" client-1 ", "screenshot", Some("shot.png"));
    let p = prepare_artifact(
        &q,
        Some(Some("image/png; charset=binary")),
        b"abc",
        10,
        "store",
        "id-1".to_string(),
        "2024-01-01T00:00:00.000Z".to_string(),
    )
    .unwrap();
    assert_eq!(p.metadata.client_id, "client-1");
    assert_eq!(p.metadata.file_name, "shot.png");
    assert_eq!(p.metadata.content_type, "image/png");
    assert_eq!(p.metadata.size_bytes, 3);
    assert_eq!(
        p.metadata.sha256,
        "ba7816bf8f01cfea414140de5dae2223b00361a396177a9cb410ff61f20015ad"
    );
    assert_eq!(p.metadata.download_url, "/api/artifacts/id-1/download");
    assert_eq!(p.directory, "store/id-1");
    assert_eq!(p.file_path, "store/id-1/shot.png");
    assert_eq!(p.metadata_path, "store/id-1/metadata.json");
    assert_eq!(p.metadata.sha256.len(), 64);

    let empty = prepare_artifact(&q, Some(Some("image/png")), b"", 10, "s", "i".to_string(), "t".to_string()).unwrap_err();
    assert_eq!(empty.status, StatusCode::BadRequest);
    assert_eq!(empty.message, "Artifact body is empty.");

    let big = prepare_artifact(&q, Some(Some("image/png")), b"abcdef", 5, "s", "i".to_string(), "t".to_string()).unwrap_err();
    assert_eq!(big.status.code(), 413);
    assert_eq!(big.message, "Artifact body exceeds QA_ARTIFACT_MAX_BYTES (5 bytes).");

    let no_client = prepare_artifact(&query(" ", "k", None), None, b"a", 5, "s", "i".to_string(), "t".to_string())
        .unwrap_err();
    assert_eq!(no_client.message, "clientId is required.");

    let missing_type = prepare_artifact(&q, None, b"a", 5, "s", "i".to_string(), "t".to_string()).unwrap_err();
    assert_eq!(missing_type.message, "Content-Type is required.");

    let media = prepare_artifact(&q, Some(Some("text/plain")), b"a", 5, "s", "i".to_string(), "t".to_string())
        .unwrap_err();
    assert_eq!(media.status.code(), 415);

    let created = create_artifact(&query("c", "screenshot", None), Some(Some("image/jpeg")), b"x", 5, "s").unwrap();
    assert_eq!(created.metadata.artifact_id.len(), 36);
    assert_eq!(created.metadata.file_name, "screenshot.jpg");
    assert!(artifact_directory("s", &created.metadata.artifact_id).is_ok());
}

#[test]
fn artifact_ids_must_be_uuids() {
    assert_eq!(
        artifact_directory("store", "123e4567-e89b-12d3-a456-426614174000").unwrap(),
        "store/123e4567-e89b-12d3-a456-426614174000"
    );
    let bad = artifact_directory("store", "../etc").unwrap_err();
    assert_eq!(bad.status, StatusCode::BadRequest);
    assert_eq!(bad.message, "artifactId must be a UUID.");
    assert_eq!(attachment_disposition("a.png"), "attachment; filename=\"a.png\"");
}
