use qatest::cli::{
    normalize_cli_command, normalize_cli_option_name, normalize_config_key, parse_boolean_option,
    require_option, should_run_cli, simplify_method_id, split_inline_option,
};
use qatest::config::{get_qamcp_config_path, get_qamcp_runtime_directory, has_url_scheme};

fn args(items: &[&str]) -> Vec<String> {
    items.iter().map(|item| item.to_string()).collect()
}

#[test]
fn simplify_method_id_drops_parameter_signature() {
    assert_eq!(
        simplify_method_id("OperateListItemAndGetData(System.String,System.Int32)"),
        "OperateListItemAndGetData"
    );
    assert_eq!(simplify_method_id("Ping()"), "Ping");
    assert_eq!(simplify_method_id("AlreadySimple"), "AlreadySimple");
}

#[test]
fn maps_legacy_command_aliases() {
    assert_eq!(normalize_cli_command("exec"), "run");
    assert_eq!(normalize_cli_command("stdio"), "mcp");
}

#[test]
fn does_not_alias_method_discovery_commands() {
    assert_eq!(normalize_cli_command("tools"), "tools");
    assert_eq!(normalize_cli_command("methods"), "methods");
    assert_eq!(normalize_cli_command("find"), "find");
    assert_eq!(normalize_cli_command("tool"), "tool");
    assert_eq!(normalize_cli_command("method"), "method");
    assert_eq!(normalize_cli_command("qa_find_methods"), "qa_find_methods");
    assert_eq!(normalize_cli_command("qa_get_method"), "qa_get_method");
}

#[test]
fn command_aliases_cover_every_command() {
    assert_eq!(normalize_cli_command("status"), "health");
    assert_eq!(normalize_cli_command("list"), "clients");
    assert_eq!(normalize_cli_command("cfg"), "config");
    assert_eq!(normalize_cli_command("history"), "results");
    assert_eq!(normalize_cli_command("screenshot"), "capture-screenshot");
    assert_eq!(normalize_cli_command("seq"), "sequence");
    assert_eq!(normalize_cli_command("stopseq"), "stop");
    assert_eq!(normalize_cli_command("events"), "watch");
    assert_eq!(normalize_cli_command("qa_wait_for_result"), "wait");
}

#[test]
fn server_words_start_the_server_unless_help_is_asked() {
    assert!(should_run_cli(&args(&[])));
    assert!(should_run_cli(&args(&["health"])));
    assert!(!should_run_cli(&args(&["mcp"])));
    assert!(!should_run_cli(&args(&["serve", "--verbose"])));
    assert!(should_run_cli(&args(&["stdio", "--help"])));
    assert!(should_run_cli(&args(&["mcp", "-h"])));
}

#[test]
fn short_options_expand_to_long_names() {
    assert_eq!(normalize_cli_option_name("-c"), "--client");
    assert_eq!(normalize_cli_option_name("-a"), "--arg");
    assert_eq!(normalize_cli_option_name("--limit"), "--limit");
}

#[test]
fn inline_option_splits_at_first_equals() {
    assert_eq!(
        split_inline_option("--arg=a=b"),
        ("--arg".to_string(), Some("a=b".to_string()))
    );
    assert_eq!(split_inline_option("--arg"), ("--arg".to_string(), None));
    assert_eq!(
        split_inline_option("--arg="),
        ("--arg".to_string(), Some(String::new()))
    );
}

#[test]
fn boolean_option_accepts_words_and_rejects_others() {
    assert_eq!(parse_boolean_option(" YES ", "--simple"), Ok(true));
    assert_eq!(parse_boolean_option("off", "--simple"), Ok(false));
    assert_eq!(
        parse_boolean_option("maybe", "--simple"),
        Err("Option --simple requires a boolean value.".to_string())
    );
}

#[test]
fn required_option_rejects_missing_and_empty_values() {
    assert_eq!(
        require_option(&Some("c1".to_string()), "missing"),
        Ok("c1".to_string())
    );
    assert_eq!(
        require_option(&Some(String::new()), "missing"),
        Err("missing".to_string())
    );
    assert_eq!(require_option(&None, "missing"), Err("missing".to_string()));
}

#[test]
fn config_keys_accept_spellings_of_server_url() {
    assert_eq!(normalize_config_key(" server-url "), "serverUrl");
    assert_eq!(normalize_config_key("SERVER_URL"), "serverUrl");
    assert_eq!(normalize_config_key("url"), "serverUrl");
    assert_eq!(normalize_config_key("Other-Key"), "otherkey");
}

#[test]
fn config_path_joins_runtime_directory() {
    assert_eq!(get_qamcp_config_path("/opt/qamcp"), "/opt/qamcp/qamcp.config.json");
    assert_eq!(get_qamcp_config_path("/opt/qamcp/"), "/opt/qamcp/qamcp.config.json");
    assert_eq!(get_qamcp_config_path(""), "qamcp.config.json");
}

#[test]
fn runtime_directory_prefers_configured_value() {
    assert_eq!(
        get_qamcp_runtime_directory(Some(" /etc/qa "), Some("/bin")),
        Some("/etc/qa".to_string())
    );
    assert_eq!(
        get_qamcp_runtime_directory(Some("   "), Some("/bin")),
        Some("/bin".to_string())
    );
    assert_eq!(get_qamcp_runtime_directory(None, None), None);
}

#[test]
fn url_scheme_needs_letter_then_scheme_characters() {
    assert!(has_url_scheme("http://localhost:3000"));
    assert!(has_url_scheme("svn+ssh://host"));
    assert!(!has_url_scheme("localhost:3000"));
    assert!(!has_url_scheme("1http://host"));
    assert!(!has_url_scheme("://host"));
    assert!(!has_url_scheme("ht tp://host"));
}
