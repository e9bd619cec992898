use qatest::cli::help::help_text;
use qatest::cli::output::{key_values, render_cli_output, render_config, render_stop, render_watch, table};
use qatest::cli::parser::CliOptions;
use qatest::cli::plan::{config_action, early_action, plan_command, CommandPlan, ConfigAction, EarlyAction};
use qatest::json::JsonValue;

fn strings(items: &[&str]) -> Vec<String> {
    items.iter().map(|item| item.to_string()).collect()
}

fn object(entries: Vec<(&str, JsonValue)>) -> JsonValue {
    JsonValue::Object(entries.into_iter().map(|(k, v)| (k.to_string(), v)).collect())
}

fn text(value: &str) -> JsonValue {
    JsonValue::String(value.to_string())
}

#[test]
fn table_pads_columns_and_collapses_whitespace() {
    let rows = vec![strings(&["x y\tz", "1"]), strings(&["long", ""])];
    let lines = table(&vec!["a", "bb"], &rows);
    assert_eq!(lines, strings(&["a      bb", "-----  --", "x y z  1 ", "long     "]));
    assert!(table(&vec!["a"], &Vec::new()).is_empty());
}

#[test]
fn table_truncates_cells_beyond_eighty_columns() {
    let wide = "w".repeat(90);
    let lines = table(&vec!["c"], &vec![vec![wide]]);
    assert_eq!(lines[1], "-".repeat(80));
    assert_eq!(lines[2], format!("{}...", "w".repeat(77)));
}

#[test]
fn key_values_skip_empty_values_and_align_keys() {
    let lines = key_values(&vec![
        ("Config", Some("a".to_string())),
        ("Exists", None),
        ("Blank", Some(String::new())),
        ("Server", Some("http://x/".to_string())),
    ]);
    assert_eq!(lines, strings(&["Config  a", "Server  http://x/"]));
}

#[test]
fn config_output_shows_path_value_or_summary() {
    let path = object(vec![("action", text("path")), ("configPath", text("/p/qamcp.config.json"))]);
    assert_eq!(render_config(&path), strings(&["/p/qamcp.config.json"]));

    let get = object(vec![("action", text("get")), ("value", text("http://h/"))]);
    assert_eq!(render_config(&get), strings(&["http://h/"]));

    let saved = object(vec![
        ("configPath", text("/c")),
        ("exists", JsonValue::Bool(true)),
        ("saved", JsonValue::Bool(true)),
        ("serverUrl", text("http://h/")),
    ]);
    assert_eq!(
        render_config(&saved),
        strings(&["已保存 qamcp 配置。", "Config  /c", "Exists  yes", "Server  http://h/"])
    );
}

#[test]
fn stop_and_watch_outputs() {
    let stop = object(vec![
        ("acknowledgement", object(vec![("requestId", text("r1"))])),
        ("controllerId", text("c")),
    ]);
    assert_eq!(
        render_stop(&stop),
        strings(&["Status      stop_accepted", "Controller  c", "Request     r1"])
    );

    let watch = object(vec![
        ("count", JsonValue::Number("0".to_string())),
        ("truncated", JsonValue::Bool(true)),
        ("droppedEvents", JsonValue::Number("2".to_string())),
        ("events", JsonValue::Array(Vec::new())),
    ]);
    assert_eq!(render_watch(&watch), strings(&["Events: 0 (2 dropped)", "No events captured."]));
}

#[test]
fn text_output_only_when_asked() {
    let data = object(vec![("action", text("path")), ("configPath", text("/p"))]);
    assert!(render_cli_output("config", &data, None, None, None).is_none());
    assert!(render_cli_output("config", &data, Some(false), None, None).is_none());
    assert_eq!(
        render_cli_output("config", &data, Some(true), None, None),
        Some(strings(&["/p"]))
    );
    assert!(render_cli_output("mcp", &data, Some(true), None, None).is_none());
}

#[test]
fn help_texts_per_command() {
    assert!(help_text(Some("run")).starts_with("run 选项:"));
    assert!(help_text(Some("run")).contains("--arg-file <path>"));
    assert_eq!(help_text(Some("no-such-command")), help_text(None));
    assert!(help_text(Some("watch")).starts_with("watch"));
}

#[test]
fn early_actions_for_help_and_version() {
    assert!(matches!(early_action(&Vec::new()), Some(EarlyAction::Help(None))));
    assert!(matches!(
        early_action(&strings(&["help", "exec"])),
        Some(EarlyAction::Help(Some(c))) if c == "run"
    ));
    assert!(matches!(early_action(&strings(&["-h"])), Some(EarlyAction::Help(None))));
    assert!(matches!(early_action(&strings(&["--version"])), Some(EarlyAction::Version)));
    assert!(early_action(&strings(&["health"])).is_none());
}

#[test]
fn plans_follow_the_options() {
    let mut options = CliOptions::new();
    options.query = Some("Ping".to_string());
    options.limit = Some(-3);
    match plan_command("search", &options).unwrap() {
        CommandPlan::Search { client, query, limit, simple } => {
            assert_eq!(client, None);
            assert_eq!(query, "Ping");
            assert_eq!(limit, 0);
            assert!(simple);
        }
        other => panic!("unexpected plan {other:?}"),
    }

    let mut run = CliOptions::new();
    run.client = Some("u1".to_string());
    run.positionals = strings(&["T.M()", "x"]);
    match plan_command("run", &run).unwrap() {
        CommandPlan::Run { client, method, positional_offset, timeout_ms, .. } => {
            assert_eq!(client, "u1");
            assert_eq!(method, "T.M()");
            assert_eq!(positional_offset, 1);
            assert_eq!(timeout_ms, 70_000);
        }
        other => panic!("unexpected plan {other:?}"),
    }

    let missing = CliOptions::new();
    assert_eq!(
        plan_command("run", &missing).unwrap_err(),
        "run requires --client <clientId>."
    );

    let mut foreign = CliOptions::new();
    foreign.server_url = Some("http://h".to_string());
    assert!(plan_command("health", &foreign).is_err());
}

#[test]
fn config_actions_from_positionals() {
    let mut set = CliOptions::new();
    set.positionals = strings(&["set", "serverUrl", "http://h:1"]);
    assert!(matches!(config_action(&set).unwrap(), ConfigAction::Save(u) if u == "http://h:1"));

    let mut path = CliOptions::new();
    path.positionals = strings(&["path"]);
    assert!(matches!(config_action(&path).unwrap(), ConfigAction::Path));

    let mut unknown = CliOptions::new();
    unknown.positionals = strings(&["get", "color"]);
    assert_eq!(config_action(&unknown).unwrap_err(), "未知配置项: color。");

    assert!(matches!(config_action(&CliOptions::new()).unwrap(), ConfigAction::Show));
}
