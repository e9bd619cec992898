use vstd::prelude::*;
use vstd::string::StrSliceExecFns;
use crate::cli::parser::{non_negative, CliOptions, OptionsView};
use crate::cli::{cli_command_alias, config_key, normalize_cli_command, normalize_config_key};
use crate::json::{JsonValue, JsonView};
use crate::server::state::{opt_str, strs};
use crate::text::{concat3, copy_str, str_eq};

verus! {

/// How long `run` waits for its result by default, in milliseconds.
pub const EXECUTE_TIMEOUT_MS: u64 = 70_000;

/// How long `sequence` waits by default, in milliseconds.
pub const SEQUENCE_TIMEOUT_MS: u64 = 180_000;

/// How long `wait` waits by default, in milliseconds.
pub const WAIT_RESULT_TIMEOUT_MS: u64 = 180_000;

/// How long `watch` listens by default, in milliseconds.
pub const WATCH_EVENTS_DURATION_MS: u64 = 10_000;

/// How long connecting to the QA server's WebSocket may take, in milliseconds.
pub const WS_CONNECT_TIMEOUT_MS: u64 = 10_000;

/// What a command line asks for before its options are read.
#[derive(Debug)]
pub enum EarlyAction {
    /// Help, for a command (normalized) or in general.
    Help(Option<String>),
    Version,
}

pub open spec fn is_help_word(w: Seq<char>) -> bool {
    w == "--help"@ || w == "-h"@ || w == "help"@
}

pub open spec fn is_version_word(w: Seq<char>) -> bool {
    w == "--version"@ || w == "-v"@ || w == "version"@
}

/// No words, or a first word that asks for help, shows help (for the command
/// named after `help`); a first word that asks for the version shows it.
pub open spec fn spec_early_action(argv: Seq<Seq<char>>) -> Option<Option<Option<Seq<char>>>> {
    if argv.len() == 0 {
        Some(Some(None))
    } else if is_help_word(argv[0]) {
        if argv[0] == "help"@ && argv.len() > 1 {
            Some(Some(Some(cli_command_alias(argv[1]))))
        } else {
            Some(Some(None))
        }
    } else if is_version_word(argv[0]) {
        Some(None)
    } else {
        None
    }
}

/// Whether the command line asks for help or the version before anything else.
pub fn early_action(argv: &Vec<String>) -> (r: Option<EarlyAction>)
    ensures
        match spec_early_action(strs(argv@)) {
            None => r is None,
            Some(None) => r matches Some(EarlyAction::Version),
            Some(Some(c)) => r matches Some(EarlyAction::Help(x)) && opt_str(x) == c,
        },
{
    if argv.len() == 0 {
        return Some(EarlyAction::Help(None));
    }
    let first = argv[0].as_str();
    assert(strs(argv@)[0] == first@);
    if str_eq(first, "--help") || str_eq(first, "-h") || str_eq(first, "help") {
        if str_eq(first, "help") && argv.len() > 1 {
            assert(strs(argv@)[1] == argv@[1]@);
            return Some(EarlyAction::Help(Some(normalize_cli_command(argv[1].as_str()))));
        }
        return Some(EarlyAction::Help(None));
    }
    if str_eq(first, "--version") || str_eq(first, "-v") || str_eq(first, "version") {
        return Some(EarlyAction::Version);
    }
    None
}

/// What `config` does.
#[derive(Debug)]
pub enum ConfigAction {
    /// Save this server address.
    Save(String),
    /// Show the configuration.
    Show,
    /// Show where the file is.
    Path,
    /// Show the server address.
    Get,
}

pub enum ConfigActionView {
    Save(Seq<char>),
    Show,
    Path,
    Get,
}

pub open spec fn config_action_view(a: ConfigAction) -> ConfigActionView {
    match a {
        ConfigAction::Save(u) => ConfigActionView::Save(u@),
        ConfigAction::Show => ConfigActionView::Show,
        ConfigAction::Path => ConfigActionView::Path,
        ConfigAction::Get => ConfigActionView::Get,
    }
}

pub open spec fn pos(o: OptionsView, i: int) -> Option<Seq<char>> {
    if 0 <= i < o.positionals.len() {
        Some(o.positionals[i])
    } else {
        None
    }
}

pub open spec fn text_or_empty(t: Option<Seq<char>>) -> Seq<char> {
    match t {
        Some(v) => v,
        None => Seq::empty(),
    }
}

/// What `config` does: save `--server-url`; with no words, or `show`, show;
/// `path`; `get [serverUrl]`; `set serverUrl <url>`; `serverUrl <url>`. Keys
/// are compared without case, `-` and `_`; anything else is an error.
pub open spec fn spec_config_action(o: OptionsView) -> Result<ConfigActionView, Seq<char>> {
    let action = pos(o, 0);
    let key = pos(o, 1);
    let value = pos(o, 2);
    let extra = o.positionals.len() > 3;
    match o.server_url {
        Some(u) => Ok(ConfigActionView::Save(u)),
        None => if action is None || action == Some("show"@) {
            Ok(ConfigActionView::Show)
        } else if action == Some("path"@) {
            Ok(ConfigActionView::Path)
        } else if action == Some("get"@) {
            if config_key(
                match key {
                    Some(k) => k,
                    None => "serverUrl"@,
                },
            ) != "serverUrl"@ {
                Err("未知配置项: "@ + text_or_empty(key) + "。"@)
            } else {
                Ok(ConfigActionView::Get)
            }
        } else if action == Some("set"@) {
            if config_key(text_or_empty(key)) != "serverUrl"@ {
                Err("未知配置项: "@ + text_or_empty(key) + "。运行 \"qamcp config --help\" 查看用法。"@)
            } else if value is None || extra {
                Err("用法: qamcp config set serverUrl <url>"@)
            } else {
                Ok(ConfigActionView::Save(value->0))
            }
        } else if config_key(text_or_empty(action)) == "serverUrl"@ {
            if key is None || value is Some || o.positionals.len() > 3 {
                Err("用法: qamcp config serverUrl <url>"@)
            } else {
                Ok(ConfigActionView::Save(key->0))
            }
        } else {
            Err("未知 config 操作: "@ + text_or_empty(action) + "。运行 \"qamcp config --help\" 查看用法。"@)
        },
    }
}

fn positional(o: &CliOptions, i: usize) -> (r: Option<&str>)
    ensures
        match r {
            Some(t) => pos(o@, i as int) == Some(t@),
            None => pos(o@, i as int) is None,
        },
{
    if i < o.positionals.len() {
        Some(o.positionals[i].as_str())
    } else {
        None
    }
}

pub fn config_action(options: &CliOptions) -> (r: Result<ConfigAction, String>)
    ensures
        match spec_config_action(options@) {
            Ok(a) => r matches Ok(x) && config_action_view(x) == a,
            Err(e) => r matches Err(x) && x@ == e,
        },
{
    if let Some(u) = &options.server_url {
        return Ok(ConfigAction::Save(copy_str(u.as_str())));
    }
    let action = positional(options, 0);
    let key = positional(options, 1);
    let value = positional(options, 2);
    let extra = options.positionals.len() > 3;
    let key_text = match key {
        Some(k) => k,
        None => "",
    };
    proof {
        reveal_strlit("");
    }
    match action {
        None => return Ok(ConfigAction::Show),
        Some(a) => {
            if str_eq(a, "show") {
                return Ok(ConfigAction::Show);
            }
            if str_eq(a, "path") {
                return Ok(ConfigAction::Path);
            }
            if str_eq(a, "get") {
                let k = normalize_config_key(
                    match key {
                        Some(k) => k,
                        None => "serverUrl",
                    },
                );
                if !str_eq(k.as_str(), "serverUrl") {
                    return Err(concat3("未知配置项: ", key_text, "。"));
                }
                return Ok(ConfigAction::Get);
            }
            if str_eq(a, "set") {
                proof {
                    reveal_strlit("set");
                    reveal_strlit("show");
                    reveal_strlit("path");
                    reveal_strlit("get");
                    assert("set"@[1] != "show"@[1] && "set"@[0] != "path"@[0] && "set"@[0] != "get"@[0]);
                    assert("set"@ != "show"@ && "set"@ != "path"@ && "set"@ != "get"@);
                }
                let k = normalize_config_key(key_text);
                assert(pos(options@, 0) == Some("set"@));
                assert(!(pos(options@, 0) is None || pos(options@, 0) == Some("show"@)));
                assert(pos(options@, 0) != Some("path"@));
                assert(pos(options@, 0) != Some("get"@));
                assert(text_or_empty(pos(options@, 1)) == key_text@);
                if !str_eq(k.as_str(), "serverUrl") {
                    return Err(concat3("未知配置项: ", key_text, "。运行 \"qamcp config --help\" 查看用法。"));
                }
                return match value {
                    Some(v) if !extra => Ok(ConfigAction::Save(copy_str(v))),
                    _ => Err(copy_str("用法: qamcp config set serverUrl <url>")),
                };
            }
            let ak = normalize_config_key(a);
            if str_eq(ak.as_str(), "serverUrl") {
                return match (key, value) {
                    (Some(k), None) if !extra => Ok(ConfigAction::Save(copy_str(k))),
                    _ => Err(copy_str("用法: qamcp config serverUrl <url>")),
                };
            }
            Err(concat3("未知 config 操作: ", a, "。运行 \"qamcp config --help\" 查看用法。"))
        },
    }
}

/// What a command does, once its options are read.
#[derive(Debug)]
pub enum CommandPlan {
    /// Show the help of the command.
    Help(String),
    Config(ConfigAction),
    Health,
    Clients { include_methods: bool },
    Search { client: Option<String>, query: String, limit: usize, simple: bool },
    Describe { client: Option<String>, query: String },
    Results { client: Option<String>, status: Option<String>, sequence: Option<String>, limit: usize },
    /// Run a method; its arguments are gathered from the options, skipping
    /// `positional_offset` positional words.
    Run { client: String, method: String, name: Option<String>, positional_offset: usize, timeout_ms: u64 },
    Screenshot { client: String, save_path: String },
    /// Run a sequence; its steps are loaded from the options.
    Sequence { client: String, stop_on_failure: bool, step_delay_ms: u64, timeout_ms: u64 },
    Stop { request: Option<String>, sequence: Option<String>, reason: String, timeout_ms: u64 },
    Wait { filters: JsonValue },
    Watch { duration_ms: u64, events: Vec<String>, snapshot: bool, limit: usize },
}

pub enum PlanView {
    Help(Seq<char>),
    Config(ConfigActionView),
    Health,
    Clients(bool),
    Search(Option<Seq<char>>, Seq<char>, usize, bool),
    Describe(Option<Seq<char>>, Seq<char>),
    Results(Option<Seq<char>>, Option<Seq<char>>, Option<Seq<char>>, usize),
    Run(Seq<char>, Seq<char>, Option<Seq<char>>, usize, u64),
    Screenshot(Seq<char>, Seq<char>),
    Sequence(Seq<char>, bool, u64, u64),
    Stop(Option<Seq<char>>, Option<Seq<char>>, Seq<char>, u64),
    Wait(JsonView),
    Watch(u64, Seq<Seq<char>>, bool, usize),
}

pub open spec fn plan_view(p: CommandPlan) -> PlanView {
    match p {
        CommandPlan::Help(c) => PlanView::Help(c@),
        CommandPlan::Config(a) => PlanView::Config(config_action_view(a)),
        CommandPlan::Health => PlanView::Health,
        CommandPlan::Clients { include_methods } => PlanView::Clients(include_methods),
        CommandPlan::Search { client, query, limit, simple } => PlanView::Search(opt_str(client), query@, limit, simple),
        CommandPlan::Describe { client, query } => PlanView::Describe(opt_str(client), query@),
        CommandPlan::Results { client, status, sequence, limit } => PlanView::Results(
            opt_str(client),
            opt_str(status),
            opt_str(sequence),
            limit,
        ),
        CommandPlan::Run { client, method, name, positional_offset, timeout_ms } => PlanView::Run(
            client@,
            method@,
            opt_str(name),
            positional_offset,
            timeout_ms,
        ),
        CommandPlan::Screenshot { client, save_path } => PlanView::Screenshot(client@, save_path@),
        CommandPlan::Sequence { client, stop_on_failure, step_delay_ms, timeout_ms } => PlanView::Sequence(
            client@,
            stop_on_failure,
            step_delay_ms,
            timeout_ms,
        ),
        CommandPlan::Stop { request, sequence, reason, timeout_ms } => PlanView::Stop(
            opt_str(request),
            opt_str(sequence),
            reason@,
            timeout_ms,
        ),
        CommandPlan::Wait { filters } => PlanView::Wait(filters@),
        CommandPlan::Watch { duration_ms, events, snapshot, limit } => PlanView::Watch(
            duration_ms,
            strs(events@),
            snapshot,
            limit,
        ),
    }
}

/// The words joined with single spaces.
pub open spec fn join_spaces(ws: Seq<Seq<char>>) -> Seq<char>
    decreases ws.len(),
{
    if ws.len() == 0 {
        Seq::empty()
    } else if ws.len() == 1 {
        ws[0]
    } else {
        join_spaces(ws.drop_last()) + " "@ + ws.last()
    }
}

/// The query of `search` and `describe`: `--query`, else the positional words.
pub open spec fn query_of(o: OptionsView) -> Seq<char> {
    match o.query {
        Some(q) => q,
        None => join_spaces(o.positionals),
    }
}

/// A limit: the one given (below zero counts as zero), else the default.
pub open spec fn limit_of(o: OptionsView, default: i64) -> usize {
    (non_negative(
        match o.limit {
            Some(l) => l,
            None => default,
        },
    )) as usize
}

pub open spec fn given_text(t: Option<Seq<char>>) -> bool {
    t matches Some(v) && v.len() > 0
}

pub open spec fn opt_json_text(t: Option<Seq<char>>) -> JsonView {
    match t {
        Some(v) => JsonView::Str(v),
        None => JsonView::Null,
    }
}

/// The filters `wait` waits with.
pub open spec fn wait_filters(o: OptionsView) -> JsonView {
    JsonView::Object(
        seq![
            ("clientId"@, opt_json_text(o.client)),
            ("includeHistory"@, JsonView::Bool(o.history != Some(false))),
            ("methodId"@, opt_json_text(o.method)),
            ("methodName"@, opt_json_text(o.name)),
            ("requestId"@, opt_json_text(o.request)),
            ("sequenceId"@, opt_json_text(o.sequence)),
            ("status"@, opt_json_text(o.status)),
            (
                "timeoutMs"@,
                JsonView::Number(
                    crate::text::decimal(
                        (match o.timeout {
                            Some(t) => t,
                            None => WAIT_RESULT_TIMEOUT_MS,
                        }) as nat,
                    ),
                ),
            ),
        ],
    )
}

pub open spec fn server_url_only_for_config() -> Seq<char> {
    "--server-url 只支持 \"qamcp config\"。请先运行 \"qamcp config set serverUrl <url>\"。"@
}

/// What a command does with its options: `--server-url` belongs to `config`
/// only; `--help` shows the command's help; each command takes its settings
/// from the options, with its defaults, and its required options must be
/// given (not empty); an unknown command is an error.
pub open spec fn spec_plan_command(command: Seq<char>, o: OptionsView) -> Result<PlanView, Seq<char>> {
    if o.server_url is Some && command != "config"@ {
        Err(server_url_only_for_config())
    } else if o.help {
        Ok(PlanView::Help(command))
    } else if command == "config"@ {
        match spec_config_action(o) {
            Ok(a) => Ok(PlanView::Config(a)),
            Err(e) => Err(e),
        }
    } else if command == "health"@ {
        Ok(PlanView::Health)
    } else if command == "clients"@ {
        Ok(PlanView::Clients(o.methods == Some(true)))
    } else if command == "search"@ {
        Ok(PlanView::Search(o.client, query_of(o), limit_of(o, 50), o.simple != Some(false)))
    } else if command == "describe"@ {
        Ok(PlanView::Describe(o.client, query_of(o)))
    } else if command == "results"@ {
        Ok(PlanView::Results(o.client, o.status, o.sequence, limit_of(o, 20)))
    } else if command == "run"@ {
        let from_position = o.method is None && o.positionals.len() > 0;
        let method = if from_position {
            Some(o.positionals[0])
        } else {
            o.method
        };
        if !given_text(o.client) {
            Err("run requires --client <clientId>."@)
        } else if !given_text(method) {
            Err("run requires --tool <toolId>."@)
        } else {
            Ok(
                PlanView::Run(
                    o.client->0,
                    method->0,
                    o.name,
                    if from_position {
                        1
                    } else {
                        0
                    },
                    match o.timeout {
                        Some(t) => t,
                        None => EXECUTE_TIMEOUT_MS,
                    },
                ),
            )
        }
    } else if command == "capture-screenshot"@ {
        let save_path = if o.save_path is None && o.positionals.len() > 0 {
            Some(o.positionals[0])
        } else {
            o.save_path
        };
        if !given_text(o.client) {
            Err("capture-screenshot requires --client <clientId>."@)
        } else if !given_text(save_path) {
            Err("capture-screenshot requires --output <path>."@)
        } else {
            Ok(PlanView::Screenshot(o.client->0, save_path->0))
        }
    } else if command == "sequence"@ {
        if !given_text(o.client) {
            Err("sequence requires --client <clientId>."@)
        } else {
            Ok(
                PlanView::Sequence(
                    o.client->0,
                    o.stop_on_failure != Some(false),
                    match o.step_delay {
                        Some(d) => d,
                        None => 0,
                    },
                    match o.timeout {
                        Some(t) => t,
                        None => SEQUENCE_TIMEOUT_MS,
                    },
                ),
            )
        }
    } else if command == "stop"@ {
        if o.request is None && o.sequence is None {
            Err("stop requires --request <requestId> or --sequence <sequenceId>."@)
        } else {
            Ok(
                PlanView::Stop(
                    o.request,
                    o.sequence,
                    match o.reason {
                        Some(r) => r,
                        None => "Stopped by qamcp CLI."@,
                    },
                    match o.timeout {
                        Some(t) => t,
                        None => WS_CONNECT_TIMEOUT_MS,
                    },
                ),
            )
        }
    } else if command == "wait"@ {
        Ok(PlanView::Wait(wait_filters(o)))
    } else if command == "watch"@ {
        Ok(
            PlanView::Watch(
                match o.duration {
                    Some(d) => d,
                    None => WATCH_EVENTS_DURATION_MS,
                },
                o.event,
                o.snapshot != Some(false),
                limit_of(o, 100),
            ),
        )
    } else {
        Err("Unknown command: "@ + command + ". Run \"qamcp --help\" for usage."@)
    }
}

fn join_words(ws: &Vec<String>) -> (r: String)
    ensures
        r@ == join_spaces(strs(ws@)),
{
    let mut out = String::new();
    let mut i: usize = 0;
    while i < ws.len()
        invariant
            i <= ws@.len(),
            out@ == join_spaces(strs(ws@).take(i as int)),
        decreases ws@.len() - i,
    {
        let ghost a = strs(ws@).take(i + 1);
        assert(a.drop_last() =~= strs(ws@).take(i as int));
        assert(a.last() == ws@[i as int]@);
        if i == 0 {
            out = copy_str(ws[i].as_str());
            assert(a.len() == 1);
        } else {
            out = concat3(out.as_str(), " ", ws[i].as_str());
        }
        i = i + 1;
    }
    assert(strs(ws@).take(ws@.len() as int) =~= strs(ws@));
    out
}

fn query_exec(o: &CliOptions) -> (r: String)
    ensures
        r@ == query_of(o@),
{
    match &o.query {
        Some(q) => copy_str(q.as_str()),
        None => join_words(&o.positionals),
    }
}

fn limit_exec(o: &CliOptions, default: i64) -> (r: usize)
    ensures
        r == limit_of(o@, default),
{
    let l = match o.limit {
        Some(l) => l,
        None => default,
    };
    let n: u64 = if l < 0 {
        0
    } else {
        l as u64
    };
    n as usize
}

fn given_exec(t: &Option<String>) -> (r: bool)
    ensures
        r == given_text(opt_str(*t)),
{
    match t {
        Some(v) => v.as_str().unicode_len() > 0,
        None => false,
    }
}

fn opt_json_text_exec(t: &Option<String>) -> (r: JsonValue)
    ensures
        r@ == opt_json_text(opt_str(*t)),
{
    match t {
        Some(v) => JsonValue::String(copy_str(v.as_str())),
        None => JsonValue::Null,
    }
}

fn wait_filters_exec(o: &CliOptions) -> (r: JsonValue)
    ensures
        r@ == wait_filters(o@),
{
    let timeout = match o.timeout {
        Some(t) => t,
        None => WAIT_RESULT_TIMEOUT_MS,
    };
    let entries = vec![
        (copy_str("clientId"), opt_json_text_exec(&o.client)),
        (copy_str("includeHistory"), JsonValue::Bool(o.history != Some(false))),
        (copy_str("methodId"), opt_json_text_exec(&o.method)),
        (copy_str("methodName"), opt_json_text_exec(&o.name)),
        (copy_str("requestId"), opt_json_text_exec(&o.request)),
        (copy_str("sequenceId"), opt_json_text_exec(&o.sequence)),
        (copy_str("status"), opt_json_text_exec(&o.status)),
        (copy_str("timeoutMs"), JsonValue::Number(crate::text::u64_to_string(timeout))),
    ];
    proof {
        crate::json::lemma_entry_views_new(entries@);
        assert(crate::json::json_entry_views(entries@) =~= wait_filters(o@)->Object_0);
    }
    JsonValue::Object(entries)
}

fn copy_opt(t: &Option<String>) -> (r: Option<String>)
    ensures
        opt_str(r) == opt_str(*t),
{
    match t {
        Some(v) => Some(copy_str(v.as_str())),
        None => None,
    }
}

/// Decides what a command does with its options.
#[verifier::rlimit(80)]
pub fn plan_command(command: &str, options: &CliOptions) -> (r: Result<CommandPlan, String>)
    ensures
        match spec_plan_command(command@, options@) {
            Ok(p) => r matches Ok(x) && plan_view(x) == p,
            Err(e) => r matches Err(x) && x@ == e,
        },
{
    let o = options;
    if o.server_url.is_some() && !str_eq(command, "config") {
        return Err(copy_str("--server-url 只支持 \"qamcp config\"。请先运行 \"qamcp config set serverUrl <url>\"。"));
    }
    if o.help {
        return Ok(CommandPlan::Help(copy_str(command)));
    }
    if str_eq(command, "config") {
        return match config_action(o) {
            Ok(a) => Ok(CommandPlan::Config(a)),
            Err(e) => Err(e),
        };
    }
    if str_eq(command, "health") {
        return Ok(CommandPlan::Health);
    }
    if str_eq(command, "clients") {
        return Ok(CommandPlan::Clients { include_methods: o.methods == Some(true) });
    }
    if str_eq(command, "search") {
        return Ok(
            CommandPlan::Search {
                client: copy_opt(&o.client),
                query: query_exec(o),
                limit: limit_exec(o, 50),
                simple: o.simple != Some(false),
            },
        );
    }
    if str_eq(command, "describe") {
        return Ok(CommandPlan::Describe { client: copy_opt(&o.client), query: query_exec(o) });
    }
    if str_eq(command, "results") {
        return Ok(
            CommandPlan::Results {
                client: copy_opt(&o.client),
                status: copy_opt(&o.status),
                sequence: copy_opt(&o.sequence),
                limit: limit_exec(o, 20),
            },
        );
    }
    if str_eq(command, "run") {
        let from_position = o.method.is_none() && o.positionals.len() > 0;
        let method = if from_position {
            Some(copy_str(o.positionals[0].as_str()))
        } else {
            copy_opt(&o.method)
        };
        if !given_exec(&o.client) {
            return Err(copy_str("run requires --client <clientId>."));
        }
        if !given_exec(&method) {
            return Err(copy_str("run requires --tool <toolId>."));
        }
        let client = copy_opt(&o.client);
        return match (client, method) {
            (Some(c), Some(m)) => Ok(
                CommandPlan::Run {
                    client: c,
                    method: m,
                    name: copy_opt(&o.name),
                    positional_offset: if from_position {
                        1
                    } else {
                        0
                    },
                    timeout_ms: match o.timeout {
                        Some(t) => t,
                        None => EXECUTE_TIMEOUT_MS,
                    },
                },
            ),
            _ => Err(copy_str("run requires --client <clientId>.")),
        };
    }
    if str_eq(command, "capture-screenshot") {
        let save_path = if o.save_path.is_none() && o.positionals.len() > 0 {
            Some(copy_str(o.positionals[0].as_str()))
        } else {
            copy_opt(&o.save_path)
        };
        if !given_exec(&o.client) {
            return Err(copy_str("capture-screenshot requires --client <clientId>."));
        }
        if !given_exec(&save_path) {
            return Err(copy_str("capture-screenshot requires --output <path>."));
        }
        return match (copy_opt(&o.client), save_path) {
            (Some(c), Some(p)) => Ok(CommandPlan::Screenshot { client: c, save_path: p }),
            _ => Err(copy_str("capture-screenshot requires --client <clientId>.")),
        };
    }
    if str_eq(command, "sequence") {
        if !given_exec(&o.client) {
            return Err(copy_str("sequence requires --client <clientId>."));
        }
        return match copy_opt(&o.client) {
            Some(c) => Ok(
                CommandPlan::Sequence {
                    client: c,
                    stop_on_failure: o.stop_on_failure != Some(false),
                    step_delay_ms: match o.step_delay {
                        Some(d) => d,
                        None => 0,
                    },
                    timeout_ms: match o.timeout {
                        Some(t) => t,
                        None => SEQUENCE_TIMEOUT_MS,
                    },
                },
            ),
            None => Err(copy_str("sequence requires --client <clientId>.")),
        };
    }
    if str_eq(command, "stop") {
        if o.request.is_none() && o.sequence.is_none() {
            return Err(copy_str("stop requires --request <requestId> or --sequence <sequenceId>."));
        }
        return Ok(
            CommandPlan::Stop {
                request: copy_opt(&o.request),
                sequence: copy_opt(&o.sequence),
                reason: match &o.reason {
                    Some(r) => copy_str(r.as_str()),
                    None => copy_str("Stopped by qamcp CLI."),
                },
                timeout_ms: match o.timeout {
                    Some(t) => t,
                    None => WS_CONNECT_TIMEOUT_MS,
                },
            },
        );
    }
    if str_eq(command, "wait") {
        return Ok(CommandPlan::Wait { filters: wait_filters_exec(o) });
    }
    if str_eq(command, "watch") {
        return Ok(
            CommandPlan::Watch {
                duration_ms: match o.duration {
                    Some(d) => d,
                    None => WATCH_EVENTS_DURATION_MS,
                },
                events: crate::server::state::copy_strings(&o.event),
                snapshot: o.snapshot != Some(false),
                limit: limit_exec(o, 100),
            },
        );
    }
    Err(concat3("Unknown command: ", command, ". Run \"qamcp --help\" for usage."))
}

/// `config` shown: the configuration with `action` set to `show` (a value
/// that is no object is shown as it is).
pub open spec fn config_show_view(config: JsonView) -> JsonView {
    match config {
        JsonView::Object(es) => JsonView::Object(crate::json::entries_with(es, "action"@, JsonView::Str("show"@))),
        other => other,
    }
}

pub fn config_show(config: &JsonValue) -> (r: JsonValue)
    ensures
        r@ == config_show_view(config@),
{
    match config {
        JsonValue::Object(es) => JsonValue::Object(crate::json::with_member(es, "action", JsonValue::String(copy_str("show")))),
        other => other.copy(),
    }
}

/// `config path`: where the configuration file is.
pub fn config_path_data(config_path: &str) -> (r: JsonValue)
    ensures
        r@ == JsonView::Object(seq![("action"@, JsonView::Str("path"@)), ("configPath"@, JsonView::Str(config_path@))]),
{
    let entries = vec![
        (copy_str("action"), JsonValue::String(copy_str("path"))),
        (copy_str("configPath"), JsonValue::String(copy_str(config_path))),
    ];
    proof {
        crate::json::lemma_entry_views_new(entries@);
        assert(crate::json::json_entry_views(entries@) =~= seq![("action"@, JsonView::Str("path"@)), ("configPath"@, JsonView::Str(config_path@))]);
    }
    JsonValue::Object(entries)
}

/// `config get`: the server address of the configuration (null when it has
/// none) and where the file is.
pub open spec fn config_get_view(config: JsonView, config_path: Seq<char>) -> JsonView {
    JsonView::Object(
        seq![
            ("action"@, JsonView::Str("get"@)),
            ("configPath"@, JsonView::Str(config_path)),
            ("key"@, JsonView::Str("serverUrl"@)),
            (
                "value"@,
                match crate::json::jget(config, "serverUrl"@) {
                    Some(v) => v,
                    None => JsonView::Null,
                },
            ),
        ],
    )
}

pub fn config_get_data(config: &JsonValue, config_path: &str) -> (r: JsonValue)
    ensures
        r@ == config_get_view(config@, config_path@),
{
    let value = match config.get("serverUrl") {
        Some(v) => v.copy(),
        None => JsonValue::Null,
    };
    let entries = vec![
        (copy_str("action"), JsonValue::String(copy_str("get"))),
        (copy_str("configPath"), JsonValue::String(copy_str(config_path))),
        (copy_str("key"), JsonValue::String(copy_str("serverUrl"))),
        (copy_str("value"), value),
    ];
    proof {
        crate::json::lemma_entry_views_new(entries@);
        assert(crate::json::json_entry_views(entries@) =~= config_get_view(config@, config_path@)->Object_0);
    }
    JsonValue::Object(entries)
}

/// A method as the short search listing shows it: its short id and its name
/// (empty when they are not strings).
pub open spec fn simple_method_view(m: JsonView) -> JsonView {
    JsonView::Object(
        seq![
            (
                "methodId"@,
                JsonView::Str(
                    crate::cli::simple_method_id(
                        match crate::json::jget_str(m, "methodId"@) {
                            Some(t) => t,
                            None => Seq::empty(),
                        },
                    ),
                ),
            ),
            (
                "methodName"@,
                JsonView::Str(
                    match crate::json::jget_str(m, "methodName"@) {
                        Some(t) => t,
                        None => Seq::empty(),
                    },
                ),
            ),
        ],
    )
}

/// Search data with each method cut down to its short id and its name.
pub open spec fn simplify_entries(es: Seq<(Seq<char>, JsonView)>) -> Seq<(Seq<char>, JsonView)> {
    es.map_values(
        |e: (Seq<char>, JsonView)|
            if e.0 == "methods"@ && e.1 is Array {
                (e.0, JsonView::Array(e.1->Array_0.map_values(|m: JsonView| simple_method_view(m))))
            } else {
                e
            },
    )
}

pub open spec fn simplify_tools_view(data: JsonView) -> JsonView {
    match data {
        JsonView::Object(es) => JsonView::Object(simplify_entries(es)),
        other => other,
    }
}

fn simple_method(m: &JsonValue) -> (r: JsonValue)
    ensures
        r@ == simple_method_view(m@),
{
    proof {
        reveal_strlit("");
    }
    let id = match m.get_str("methodId") {
        Some(t) => t,
        None => "",
    };
    let name = match m.get_str("methodName") {
        Some(t) => t,
        None => "",
    };
    assert(id@ == match crate::json::jget_str(m@, "methodId"@) {
        Some(t) => t,
        None => Seq::<char>::empty(),
    });
    assert(name@ == match crate::json::jget_str(m@, "methodName"@) {
        Some(t) => t,
        None => Seq::<char>::empty(),
    });
    let entries = vec![
        (copy_str("methodId"), JsonValue::String(crate::cli::simplify_method_id(id))),
        (copy_str("methodName"), JsonValue::String(copy_str(name))),
    ];
    proof {
        crate::json::lemma_entry_views_new(entries@);
        assert(crate::json::json_entry_views(entries@) =~= simple_method_view(m@)->Object_0);
    }
    JsonValue::Object(entries)
}

fn simple_methods(items: &Vec<JsonValue>) -> (r: Vec<JsonValue>)
    ensures
        crate::json::json_views(r@) == crate::json::json_views(items@).map_values(|m: JsonView| simple_method_view(m)),
{
    let ghost iv = crate::json::json_views(items@);
    proof {
        crate::json::lemma_json_views_len(items@);
    }
    let mut out: Vec<JsonValue> = Vec::new();
    let mut i: usize = 0;
    while i < items.len()
        invariant
            i <= items@.len(),
            iv == crate::json::json_views(items@),
            iv.len() == items@.len(),
            crate::json::json_views(out@) == iv.take(i as int).map_values(|m: JsonView| simple_method_view(m)),
        decreases items@.len() - i,
    {
        proof {
            crate::json::lemma_json_views_index(items@, i as int);
        }
        let x = simple_method(&items[i]);
        let ghost before = out@;
        out.push(x);
        assert(out@.drop_last() =~= before);
        assert(out@.last() == x);
        assert(iv.take(i + 1).map_values(|m: JsonView| simple_method_view(m)) =~= iv.take(i as int).map_values(
            |m: JsonView| simple_method_view(m),
        ).push(simple_method_view(iv[i as int])));
        i = i + 1;
    }
    assert(iv.take(items@.len() as int) =~= iv);
    out
}

/// Cuts the methods of search data down to their short ids and names.
pub fn simplify_tools_data(data: &JsonValue) -> (r: JsonValue)
    ensures
        r@ == simplify_tools_view(data@),
{
    let es = match data {
        JsonValue::Object(es) => es,
        other => return other.copy(),
    };
    let ghost ev = crate::json::json_entry_views(es@);
    proof {
        crate::json::lemma_entry_views_len(es@);
    }
    let mut out: Vec<(String, JsonValue)> = Vec::new();
    let mut i: usize = 0;
    while i < es.len()
        invariant
            i <= es@.len(),
            ev == crate::json::json_entry_views(es@),
            ev.len() == es@.len(),
            crate::json::json_entry_views(out@) == simplify_entries(ev.take(i as int)),
        decreases es@.len() - i,
    {
        proof {
            crate::json::lemma_entry_views_index(es@, i as int);
        }
        let k = copy_str(es[i].0.as_str());
        let v = match &es[i].1 {
            JsonValue::Array(items) => if str_eq(es[i].0.as_str(), "methods") {
                JsonValue::Array(simple_methods(items))
            } else {
                es[i].1.copy()
            },
            other => other.copy(),
        };
        assert((k@, v@) == (if ev[i as int].0 == "methods"@ && ev[i as int].1 is Array {
            (ev[i as int].0, JsonView::Array(ev[i as int].1->Array_0.map_values(|m: JsonView| simple_method_view(m))))
        } else {
            ev[i as int]
        }));
        let ghost before = out@;
        let e = (k, v);
        out.push(e);
        assert(out@.drop_last() =~= before);
        assert(out@.last() == e);
        assert(simplify_entries(ev.take(i + 1)) =~= simplify_entries(ev.take(i as int)).push(
            simplify_entries(ev.take(i + 1))[i as int],
        ));
        i = i + 1;
    }
    assert(ev.take(es@.len() as int) =~= ev);
    JsonValue::Object(out)
}

} // verus!
