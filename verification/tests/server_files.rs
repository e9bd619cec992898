use qatest::server::artifacts::{
    fallback_file_name, is_reserved_windows_name, normalized_content_type, sanitize_file_name,
};
use qatest::server::auth::{
    constant_time_eq, cookie_value, hex_encode, is_browser_web_socket, is_web_console_authorized,
};

#[test]
fn sanitize_file_name_blocks_path_traversal() {
    assert_eq!(
        sanitize_file_name(Some("..\\..//screen.png")),
        Some("screen.png".to_string())
    );
}

#[test]
fn sanitize_file_name_rejects_metadata_sidecar_name() {
    assert_eq!(sanitize_file_name(Some("metadata.json")), None);
}

#[test]
fn fallback_file_name_uses_kind_and_content_type() {
    assert_eq!(
        fallback_file_name("screenshot", "image/png"),
        "screenshot.png"
    );
}

#[test]
fn file_names_collapse_runs_and_stop_at_limit() {
    assert_eq!(sanitize_file_name(Some("a  b??c")), Some("a_b_c".to_string()));
    assert_eq!(sanitize_file_name(None), None);
    assert_eq!(sanitize_file_name(Some("  ")), None);
    assert_eq!(sanitize_file_name(Some("CON.txt")), None);
    assert_eq!(sanitize_file_name(Some("MetaData.JSON")), None);
    let long = "x".repeat(200);
    assert_eq!(sanitize_file_name(Some(&long)), Some("x".repeat(160)));
    assert_eq!(fallback_file_name("??", "text/plain"), "artifact.bin");
    assert_eq!(fallback_file_name("photo", "image/jpeg"), "photo.jpg");
}

#[test]
fn reserved_names_are_device_names() {
    assert!(is_reserved_windows_name("lpt3"));
    assert!(is_reserved_windows_name("Aux.log"));
    assert!(!is_reserved_windows_name("console"));
}

#[test]
fn content_types_are_normalized() {
    assert_eq!(
        normalized_content_type(Some(Some(" Image/PNG ; charset=x"))),
        Ok("image/png".to_string())
    );
    assert_eq!(
        normalized_content_type(None),
        Err("Content-Type is required.".to_string())
    );
    assert_eq!(
        normalized_content_type(Some(None)),
        Err("Content-Type is invalid.".to_string())
    );
    assert!(normalized_content_type(Some(Some("text/plain"))).is_err());
}

#[test]
fn hex_and_constant_time_comparison() {
    assert_eq!(hex_encode(&[0x00, 0xab, 0x7f]), "00ab7f");
    assert!(constant_time_eq(b"abc", b"abc"));
    assert!(!constant_time_eq(b"abc", b"abd"));
    assert!(!constant_time_eq(b"abc", b"ab"));
}

#[test]
fn cookies_and_console_authorization() {
    let headers = vec![
        None,
        Some("a=1; qa_web_console_token=7365; b=2".to_string()),
    ];
    assert_eq!(
        cookie_value(&headers, "qa_web_console_token"),
        Some("7365".to_string())
    );
    assert_eq!(cookie_value(&headers, "c"), None);
    assert!(is_web_console_authorized(Some("se"), &headers));
    assert!(!is_web_console_authorized(Some("other"), &headers));
    assert!(is_web_console_authorized(None, &Vec::new()));
    assert!(!is_web_console_authorized(Some("se"), &Vec::new()));
}

#[test]
fn browser_sockets_are_web_role_and_not_mcp() {
    assert!(is_browser_web_socket(Some("web"), None));
    assert!(!is_browser_web_socket(Some("web"), Some("mcp")));
    assert!(!is_browser_web_socket(None, None));
    assert!(!is_browser_web_socket(Some("unity"), Some("web")));
}
