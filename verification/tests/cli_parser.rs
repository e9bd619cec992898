use qatest::cli::parser::{
    collect_cli_arguments, parse_cli_args, ArgumentGather, CliOptions, CliParse, ParsedCliArgs,
    Readings,
};
use qatest::json::JsonValue;

fn to_json(v: &serde_json::Value) -> JsonValue {
    match v {
        serde_json::Value::Null => JsonValue::Null,
        serde_json::Value::Bool(b) => JsonValue::Bool(*b),
        serde_json::Value::Number(n) => JsonValue::Number(n.to_string()),
        serde_json::Value::String(s) => JsonValue::String(s.clone()),
        serde_json::Value::Array(items) => JsonValue::Array(items.iter().map(to_json).collect()),
        serde_json::Value::Object(map) => {
            JsonValue::Object(map.iter().map(|(k, v)| (k.clone(), to_json(v))).collect())
        }
    }
}

fn text(s: &str) -> JsonValue {
    JsonValue::String(s.to_string())
}

fn same(a: &[JsonValue], b: &[JsonValue]) -> bool {
    format!("{a:?}") == format!("{b:?}")
}

fn parse(items: &[&str]) -> Result<ParsedCliArgs, String> {
    let argv: Vec<String> = items.iter().map(|item| item.to_string()).collect();
    let mut readings = Readings::new();
    loop {
        match parse_cli_args(&argv, &readings) {
            CliParse::Done(result) => return result,
            CliParse::NeedNumber(t) => {
                let n = t
                    .parse::<f64>()
                    .ok()
                    .filter(|n| n.is_finite())
                    .map(|n| n.floor() as i64);
                readings.numbers.push((t, n));
            }
            CliParse::NeedJson(t) => {
                let v = serde_json::from_str::<serde_json::Value>(&t)
                    .ok()
                    .map(|v| to_json(&v));
                readings.jsons.push((t, v));
            }
        }
    }
}

/// Gathers the arguments; `disk` lists the files that can be read and
/// their text.
fn collect_with(options: &CliOptions, disk: &[(&str, &str)]) -> Result<Vec<JsonValue>, String> {
    let mut files: Vec<(String, Option<String>)> = Vec::new();
    loop {
        match collect_cli_arguments(options, 0, &files) {
            ArgumentGather::Done(result) => return result,
            ArgumentGather::NeedFile(path) => {
                let content = disk
                    .iter()
                    .find(|(p, _)| *p == path)
                    .map(|(_, text)| text.to_string());
                files.push((path, content));
            }
        }
    }
}

fn collect(options: &CliOptions) -> Result<Vec<JsonValue>, String> {
    collect_with(options, &[])
}

fn parse_error(items: &[&str]) -> String {
    match parse(items) {
        Ok(_) => panic!("{items:?} should fail"),
        Err(error) => error,
    }
}

#[test]
fn parses_repeated_args_and_full_tools_flag() {
    let parsed = parse(&[
        "run",
        "-c",
        "unity-editor-1",
        "--tool",
        "QaTestSample.Ping()",
        "--arg",
        "alpha",
        "--arg=2",
    ])
    .unwrap();
    assert_eq!(parsed.command, "run");
    assert_eq!(parsed.options.client.as_deref(), Some("unity-editor-1"));
    assert_eq!(parsed.options.method.as_deref(), Some("QaTestSample.Ping()"));
    assert_eq!(parsed.options.arg, ["alpha", "2"]);
}

#[test]
fn collects_repeated_args_as_ordered_json_strings() {
    let parsed = parse(&[
        "run",
        "--client",
        "unity-editor-1",
        "--tool",
        "QaTestSample.Login(System.String,System.String)",
        "-a",
        "42513",
        "-a",
        "cn",
    ])
    .unwrap();

    assert!(same(&collect(&parsed.options).unwrap(), &[text("42513"), text("cn")]));
}

#[test]
fn screenshot_accepts_only_client_and_output() {
    let parsed = parse(&["screenshot", "-c", "unity-editor-1", "-o", "target/screens/"]).unwrap();

    assert_eq!(parsed.command, "capture-screenshot");
    assert_eq!(parsed.options.client.as_deref(), Some("unity-editor-1"));
    assert_eq!(parsed.options.save_path.as_deref(), Some("target/screens/"));
}

#[test]
fn screenshot_rejects_removed_options() {
    let timeout_error = parse_error(&[
        "screenshot",
        "-c",
        "unity-editor-1",
        "-o",
        "target/screens/",
        "--timeout",
        "120000",
    ]);
    assert!(timeout_error.contains("does not accept --timeout"));

    let tool_error = parse_error(&[
        "screenshot",
        "-c",
        "unity-editor-1",
        "-o",
        "target/screens/",
        "--tool",
        "CaptureScreenshotToRegister()",
    ]);
    assert!(tool_error.contains("does not accept --tool"));

    let tag_error = parse_error(&[
        "screenshot",
        "-c",
        "unity-editor-1",
        "-o",
        "target/screens/",
        "--tag",
        "smoke",
    ]);
    assert!(tag_error.contains("Unknown option: --tag"));
}

#[test]
fn collects_arg_files_in_command_line_order() {
    let path_text = "qamcp_arg_file.txt";
    let parsed = parse(&[
        "run",
        "--client",
        "unity-editor-1",
        "--tool",
        "QaTestSample.Login(System.String,System.String,System.String)",
        "-a",
        "before",
        "--arg-file",
        path_text,
        "--arg=after",
    ])
    .unwrap();

    let result = collect_with(&parsed.options, &[(path_text, "line 1\nline 2")]);

    assert!(same(
        &result.unwrap(),
        &[text("before"), text("line 1\nline 2"), text("after")]
    ));
}

#[test]
fn reports_missing_arg_file_path() {
    let path_text = "qamcp_missing_arg_file.txt";
    let parsed = parse(&[
        "run",
        "--client",
        "unity-editor-1",
        "--tool",
        "QaTestSample.Ping(System.String)",
        "--arg-file",
        path_text,
    ])
    .unwrap();
    let error = collect(&parsed.options).unwrap_err();

    assert!(error.contains("Failed to read argument file"));
}

#[test]
fn rejects_mixed_arg_sources() {
    let parsed = parse(&[
        "run",
        "--client",
        "unity-editor-1",
        "--tool",
        "QaTestSample.Ping(System.String)",
        "--args",
        "[\"alpha\"]",
        "-a",
        "beta",
    ])
    .unwrap();
    let error = collect(&parsed.options).unwrap_err();

    assert!(error.contains("Use either repeated -a/--arg/--arg-file values"));
}

#[test]
fn rejects_args_mixed_with_arg_file() {
    let parsed = parse(&[
        "run",
        "--client",
        "unity-editor-1",
        "--tool",
        "QaTestSample.Ping(System.String)",
        "--args",
        "[\"alpha\"]",
        "--arg-file",
        "record.txt",
    ])
    .unwrap();
    let error = collect(&parsed.options).unwrap_err();

    assert!(error.contains("Use either repeated -a/--arg/--arg-file values"));
}

#[test]
fn legacy_args_array_is_used_as_given() {
    let parsed = parse(&["run", "-c", "u1", "--tool", "T.M()", "--args", "[\"x\", 3]", "--limit", "7"])
        .unwrap();
    assert_eq!(parsed.options.limit, Some(7));
    assert!(same(
        &collect(&parsed.options).unwrap(),
        &[text("x"), JsonValue::Number("3".to_string())]
    ));
    let error = parse_error(&["results", "--limit", "many"]);
    assert!(error.contains("requires a number"));
}
