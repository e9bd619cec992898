use vstd::prelude::*;
use vstd::string::StrSliceExecFns;
use crate::cli::{
    cli_command_alias, cli_option_alias, inline_option, normalize_cli_command,
    normalize_cli_option_name, parse_boolean_option, boolean_word, boolean_option_error,
    split_inline_option, CliArgumentSource,
};
use crate::json::{JsonValue, JsonView};
use crate::server::state::{opt_str, strs};
use crate::text::{
    concat3, copy_str, spec_to_lowercase, split_char, split_trimmed, str_eq, string_views, trim,
    trimmed_nonempty,
};

verus! {

/// The kind of value an option takes.
#[derive(Clone, Copy, Debug, PartialEq, Eq, Structural)]
pub enum OptionType {
    Boolean,
    String,
    Number,
    Json,
    Csv,
}

/// Which setting an option sets.
#[derive(Clone, Copy, Debug, PartialEq, Eq, Structural)]
pub enum OptionKey {
    Help,
    Text,
    Methods,
    Simple,
    Snapshot,
    StopOnFailure,
    History,
    Client,
    ServerUrl,
    Method,
    Name,
    Query,
    SavePath,
    Status,
    Sequence,
    Request,
    Reason,
    Arg,
    ArgFile,
    Args,
    Step,
    Steps,
    StepsFile,
    Event,
    Limit,
    Timeout,
    Duration,
    StepDelay,
}

/// What an option is: the setting, the kind of value, whether it may be
/// repeated, and the value a boolean switch always sets, if it has one.
#[derive(Clone, Copy, Debug, PartialEq, Eq, Structural)]
pub struct OptionSpec {
    pub key: OptionKey,
    pub option_type: OptionType,
    pub repeat: bool,
    pub fixed_bool: Option<bool>,
}

pub open spec fn boolean(key: OptionKey, fixed_bool: Option<bool>) -> OptionSpec {
    OptionSpec { key, option_type: OptionType::Boolean, repeat: false, fixed_bool }
}

pub open spec fn string_option(key: OptionKey, repeat: bool) -> OptionSpec {
    OptionSpec { key, option_type: OptionType::String, repeat, fixed_bool: None }
}

pub open spec fn number_option(key: OptionKey) -> OptionSpec {
    OptionSpec { key, option_type: OptionType::Number, repeat: false, fixed_bool: None }
}

pub open spec fn json_option(key: OptionKey, repeat: bool) -> OptionSpec {
    OptionSpec { key, option_type: OptionType::Json, repeat, fixed_bool: None }
}

/// The options the command line knows, by their long names.
pub open spec fn spec_option_spec(name: Seq<char>) -> Option<OptionSpec> {
    if name == "--help"@ {
        Some(boolean(OptionKey::Help, None))
    } else if name == "--json"@ || name == "--raw"@ {
        Some(boolean(OptionKey::Text, Some(false)))
    } else if name == "--text"@ || name == "--human"@ || name == "--no-json"@ {
        Some(boolean(OptionKey::Text, Some(true)))
    } else if name == "--methods"@ || name == "--tools"@ {
        Some(boolean(OptionKey::Methods, None))
    } else if name == "--no-methods"@ || name == "--no-tools"@ {
        Some(boolean(OptionKey::Methods, Some(false)))
    } else if name == "--simple"@ {
        Some(boolean(OptionKey::Simple, None))
    } else if name == "--full"@ || name == "--no-simple"@ {
        Some(boolean(OptionKey::Simple, Some(false)))
    } else if name == "--snapshot"@ {
        Some(boolean(OptionKey::Snapshot, None))
    } else if name == "--no-snapshot"@ {
        Some(boolean(OptionKey::Snapshot, Some(false)))
    } else if name == "--stop-on-failure"@ {
        Some(boolean(OptionKey::StopOnFailure, None))
    } else if name == "--no-stop-on-failure"@ {
        Some(boolean(OptionKey::StopOnFailure, Some(false)))
    } else if name == "--history"@ {
        Some(boolean(OptionKey::History, None))
    } else if name == "--no-history"@ {
        Some(boolean(OptionKey::History, Some(false)))
    } else if name == "--client"@ {
        Some(string_option(OptionKey::Client, false))
    } else if name == "--server-url"@ {
        Some(string_option(OptionKey::ServerUrl, false))
    } else if name == "--method"@ || name == "--tool"@ {
        Some(string_option(OptionKey::Method, false))
    } else if name == "--name"@ {
        Some(string_option(OptionKey::Name, false))
    } else if name == "--query"@ {
        Some(string_option(OptionKey::Query, false))
    } else if name == "--save-path"@ || name == "--output"@ || name == "-o"@ {
        Some(string_option(OptionKey::SavePath, false))
    } else if name == "--status"@ {
        Some(string_option(OptionKey::Status, false))
    } else if name == "--sequence"@ {
        Some(string_option(OptionKey::Sequence, false))
    } else if name == "--request"@ {
        Some(string_option(OptionKey::Request, false))
    } else if name == "--reason"@ {
        Some(string_option(OptionKey::Reason, false))
    } else if name == "--arg"@ {
        Some(string_option(OptionKey::Arg, true))
    } else if name == "--arg-file"@ {
        Some(string_option(OptionKey::ArgFile, true))
    } else if name == "--args"@ {
        Some(json_option(OptionKey::Args, false))
    } else if name == "--step"@ {
        Some(json_option(OptionKey::Step, true))
    } else if name == "--steps"@ {
        Some(json_option(OptionKey::Steps, false))
    } else if name == "--steps-file"@ {
        Some(string_option(OptionKey::StepsFile, false))
    } else if name == "--event"@ {
        Some(OptionSpec { key: OptionKey::Event, option_type: OptionType::Csv, repeat: true, fixed_bool: None })
    } else if name == "--limit"@ {
        Some(number_option(OptionKey::Limit))
    } else if name == "--timeout"@ {
        Some(number_option(OptionKey::Timeout))
    } else if name == "--duration"@ {
        Some(number_option(OptionKey::Duration))
    } else if name == "--step-delay"@ {
        Some(number_option(OptionKey::StepDelay))
    } else {
        None
    }
}

fn boolean_exec(key: OptionKey, fixed_bool: Option<bool>) -> (r: OptionSpec)
    ensures
        r == boolean(key, fixed_bool),
{
    OptionSpec { key, option_type: OptionType::Boolean, repeat: false, fixed_bool }
}

fn string_exec(key: OptionKey, repeat: bool) -> (r: OptionSpec)
    ensures
        r == string_option(key, repeat),
{
    OptionSpec { key, option_type: OptionType::String, repeat, fixed_bool: None }
}

fn number_exec(key: OptionKey) -> (r: OptionSpec)
    ensures
        r == number_option(key),
{
    OptionSpec { key, option_type: OptionType::Number, repeat: false, fixed_bool: None }
}

fn json_exec(key: OptionKey, repeat: bool) -> (r: OptionSpec)
    ensures
        r == json_option(key, repeat),
{
    OptionSpec { key, option_type: OptionType::Json, repeat, fixed_bool: None }
}

/// What the option named `name` (a long name) is, if the command line knows it.
pub fn get_cli_option_spec(name: &str) -> (r: Option<OptionSpec>)
    ensures
        r == spec_option_spec(name@),
{
    let n = name;
    if str_eq(n, "--help") {
        Some(boolean_exec(OptionKey::Help, None))
    } else if str_eq(n, "--json") || str_eq(n, "--raw") {
        Some(boolean_exec(OptionKey::Text, Some(false)))
    } else if str_eq(n, "--text") || str_eq(n, "--human") || str_eq(n, "--no-json") {
        Some(boolean_exec(OptionKey::Text, Some(true)))
    } else if str_eq(n, "--methods") || str_eq(n, "--tools") {
        Some(boolean_exec(OptionKey::Methods, None))
    } else if str_eq(n, "--no-methods") || str_eq(n, "--no-tools") {
        Some(boolean_exec(OptionKey::Methods, Some(false)))
    } else if str_eq(n, "--simple") {
        Some(boolean_exec(OptionKey::Simple, None))
    } else if str_eq(n, "--full") || str_eq(n, "--no-simple") {
        Some(boolean_exec(OptionKey::Simple, Some(false)))
    } else if str_eq(n, "--snapshot") {
        Some(boolean_exec(OptionKey::Snapshot, None))
    } else if str_eq(n, "--no-snapshot") {
        Some(boolean_exec(OptionKey::Snapshot, Some(false)))
    } else if str_eq(n, "--stop-on-failure") {
        Some(boolean_exec(OptionKey::StopOnFailure, None))
    } else if str_eq(n, "--no-stop-on-failure") {
        Some(boolean_exec(OptionKey::StopOnFailure, Some(false)))
    } else if str_eq(n, "--history") {
        Some(boolean_exec(OptionKey::History, None))
    } else if str_eq(n, "--no-history") {
        Some(boolean_exec(OptionKey::History, Some(false)))
    } else if str_eq(n, "--client") {
        Some(string_exec(OptionKey::Client, false))
    } else if str_eq(n, "--server-url") {
        Some(string_exec(OptionKey::ServerUrl, false))
    } else if str_eq(n, "--method") || str_eq(n, "--tool") {
        Some(string_exec(OptionKey::Method, false))
    } else if str_eq(n, "--name") {
        Some(string_exec(OptionKey::Name, false))
    } else if str_eq(n, "--query") {
        Some(string_exec(OptionKey::Query, false))
    } else if str_eq(n, "--save-path") || str_eq(n, "--output") || str_eq(n, "-o") {
        Some(string_exec(OptionKey::SavePath, false))
    } else if str_eq(n, "--status") {
        Some(string_exec(OptionKey::Status, false))
    } else if str_eq(n, "--sequence") {
        Some(string_exec(OptionKey::Sequence, false))
    } else if str_eq(n, "--request") {
        Some(string_exec(OptionKey::Request, false))
    } else if str_eq(n, "--reason") {
        Some(string_exec(OptionKey::Reason, false))
    } else if str_eq(n, "--arg") {
        Some(string_exec(OptionKey::Arg, true))
    } else if str_eq(n, "--arg-file") {
        Some(string_exec(OptionKey::ArgFile, true))
    } else if str_eq(n, "--args") {
        Some(json_exec(OptionKey::Args, false))
    } else if str_eq(n, "--step") {
        Some(json_exec(OptionKey::Step, true))
    } else if str_eq(n, "--steps") {
        Some(json_exec(OptionKey::Steps, false))
    } else if str_eq(n, "--steps-file") {
        Some(string_exec(OptionKey::StepsFile, false))
    } else if str_eq(n, "--event") {
        Some(OptionSpec { key: OptionKey::Event, option_type: OptionType::Csv, repeat: true, fixed_bool: None })
    } else if str_eq(n, "--limit") {
        Some(number_exec(OptionKey::Limit))
    } else if str_eq(n, "--timeout") {
        Some(number_exec(OptionKey::Timeout))
    } else if str_eq(n, "--duration") {
        Some(number_exec(OptionKey::Duration))
    } else if str_eq(n, "--step-delay") {
        Some(number_exec(OptionKey::StepDelay))
    } else {
        None
    }
}

/// A value read for an option.
#[derive(Debug)]
pub enum CliValue {
    Bool(bool),
    String(String),
    Number(i64),
    Json(JsonValue),
    Csv(Vec<String>),
}

pub enum ValueView {
    Bool(bool),
    Str(Seq<char>),
    Number(i64),
    Json(JsonView),
    Csv(Seq<Seq<char>>),
}

impl View for CliValue {
    type V = ValueView;

    open spec fn view(&self) -> ValueView {
        match self {
            CliValue::Bool(b) => ValueView::Bool(*b),
            CliValue::String(s) => ValueView::Str(s@),
            CliValue::Number(n) => ValueView::Number(*n),
            CliValue::Json(v) => ValueView::Json(v@),
            CliValue::Csv(v) => ValueView::Csv(strs(v@)),
        }
    }
}

/// Where a positional argument comes from, as values.
pub enum SourceView {
    Value(Seq<char>),
    File(Seq<char>),
}

pub open spec fn source_view(s: CliArgumentSource) -> SourceView {
    match s {
        CliArgumentSource::Value(v) => SourceView::Value(v@),
        CliArgumentSource::File(p) => SourceView::File(p@),
    }
}

/// The options of one command line.
#[derive(Debug)]
pub struct CliOptions {
    pub positionals: Vec<String>,
    pub help: bool,
    pub text: Option<bool>,
    pub methods: Option<bool>,
    pub simple: Option<bool>,
    pub snapshot: Option<bool>,
    pub stop_on_failure: Option<bool>,
    pub history: Option<bool>,
    pub client: Option<String>,
    pub server_url: Option<String>,
    pub method: Option<String>,
    pub name: Option<String>,
    pub query: Option<String>,
    pub save_path: Option<String>,
    pub status: Option<String>,
    pub sequence: Option<String>,
    pub request: Option<String>,
    pub reason: Option<String>,
    pub arg: Vec<String>,
    pub arg_sources: Vec<CliArgumentSource>,
    pub args: Option<JsonValue>,
    pub step: Vec<JsonValue>,
    pub steps: Option<JsonValue>,
    pub steps_file: Option<String>,
    pub event: Vec<String>,
    pub limit: Option<i64>,
    pub timeout: Option<u64>,
    pub duration: Option<u64>,
    pub step_delay: Option<u64>,
}

/// The options as values.
pub struct OptionsView {
    pub positionals: Seq<Seq<char>>,
    pub help: bool,
    pub text: Option<bool>,
    pub methods: Option<bool>,
    pub simple: Option<bool>,
    pub snapshot: Option<bool>,
    pub stop_on_failure: Option<bool>,
    pub history: Option<bool>,
    pub client: Option<Seq<char>>,
    pub server_url: Option<Seq<char>>,
    pub method: Option<Seq<char>>,
    pub name: Option<Seq<char>>,
    pub query: Option<Seq<char>>,
    pub save_path: Option<Seq<char>>,
    pub status: Option<Seq<char>>,
    pub sequence: Option<Seq<char>>,
    pub request: Option<Seq<char>>,
    pub reason: Option<Seq<char>>,
    pub arg: Seq<Seq<char>>,
    pub arg_sources: Seq<SourceView>,
    pub args: Option<JsonView>,
    pub step: Seq<JsonView>,
    pub steps: Option<JsonView>,
    pub steps_file: Option<Seq<char>>,
    pub event: Seq<Seq<char>>,
    pub limit: Option<i64>,
    pub timeout: Option<u64>,
    pub duration: Option<u64>,
    pub step_delay: Option<u64>,
}

impl View for CliOptions {
    type V = OptionsView;

    open spec fn view(&self) -> OptionsView {
        OptionsView {
            positionals: strs(self.positionals@),
            help: self.help,
            text: self.text,
            methods: self.methods,
            simple: self.simple,
            snapshot: self.snapshot,
            stop_on_failure: self.stop_on_failure,
            history: self.history,
            client: opt_str(self.client),
            server_url: opt_str(self.server_url),
            method: opt_str(self.method),
            name: opt_str(self.name),
            query: opt_str(self.query),
            save_path: opt_str(self.save_path),
            status: opt_str(self.status),
            sequence: opt_str(self.sequence),
            request: opt_str(self.request),
            reason: opt_str(self.reason),
            arg: strs(self.arg@),
            arg_sources: self.arg_sources@.map_values(|s: CliArgumentSource| source_view(s)),
            args: crate::server::state::opt_json(self.args),
            step: crate::json::json_views(self.step@),
            steps: crate::server::state::opt_json(self.steps),
            steps_file: opt_str(self.steps_file),
            event: strs(self.event@),
            limit: self.limit,
            timeout: self.timeout,
            duration: self.duration,
            step_delay: self.step_delay,
        }
    }
}

/// No option given.
pub open spec fn default_options() -> OptionsView {
    OptionsView {
        positionals: Seq::empty(),
        help: false,
        text: None,
        methods: None,
        simple: None,
        snapshot: None,
        stop_on_failure: None,
        history: None,
        client: None,
        server_url: None,
        method: None,
        name: None,
        query: None,
        save_path: None,
        status: None,
        sequence: None,
        request: None,
        reason: None,
        arg: Seq::empty(),
        arg_sources: Seq::empty(),
        args: None,
        step: Seq::empty(),
        steps: None,
        steps_file: None,
        event: Seq::empty(),
        limit: None,
        timeout: None,
        duration: None,
        step_delay: None,
    }
}

impl CliOptions {
    pub fn new() -> (r: CliOptions)
        ensures
            r@ == default_options(),
    {
        let r = CliOptions {
            positionals: Vec::new(),
            help: false,
            text: None,
            methods: None,
            simple: None,
            snapshot: None,
            stop_on_failure: None,
            history: None,
            client: None,
            server_url: None,
            method: None,
            name: None,
            query: None,
            save_path: None,
            status: None,
            sequence: None,
            request: None,
            reason: None,
            arg: Vec::new(),
            arg_sources: Vec::new(),
            args: None,
            step: Vec::new(),
            steps: None,
            steps_file: None,
            event: Vec::new(),
            limit: None,
            timeout: None,
            duration: None,
            step_delay: None,
        };
        assert(r@.positionals =~= Seq::<Seq<char>>::empty());
        assert(r@.arg =~= Seq::<Seq<char>>::empty());
        assert(r@.arg_sources =~= Seq::<SourceView>::empty());
        assert(r@.step =~= Seq::<JsonView>::empty());
        assert(r@.event =~= Seq::<Seq<char>>::empty());
        r
    }
}

/// A count given as a number: below zero counts as zero.
pub open spec fn non_negative(n: i64) -> u64 {
    if n < 0 {
        0
    } else {
        n as u64
    }
}

/// The key's name, as an error names it.
pub open spec fn key_name(k: OptionKey) -> Seq<char> {
    match k {
        OptionKey::Help => "help"@,
        OptionKey::Text => "text"@,
        OptionKey::Methods => "methods"@,
        OptionKey::Simple => "simple"@,
        OptionKey::Snapshot => "snapshot"@,
        OptionKey::StopOnFailure => "stopOnFailure"@,
        OptionKey::History => "history"@,
        OptionKey::Client => "client"@,
        OptionKey::ServerUrl => "serverUrl"@,
        OptionKey::Method => "method"@,
        OptionKey::Name => "name"@,
        OptionKey::Query => "query"@,
        OptionKey::SavePath => "savePath"@,
        OptionKey::Status => "status"@,
        OptionKey::Sequence => "sequence"@,
        OptionKey::Request => "request"@,
        OptionKey::Reason => "reason"@,
        OptionKey::Arg => "arg"@,
        OptionKey::ArgFile => "argFile"@,
        OptionKey::Args => "args"@,
        OptionKey::Step => "step"@,
        OptionKey::Steps => "steps"@,
        OptionKey::StepsFile => "stepsFile"@,
        OptionKey::Event => "event"@,
        OptionKey::Limit => "limit"@,
        OptionKey::Timeout => "timeout"@,
        OptionKey::Duration => "duration"@,
        OptionKey::StepDelay => "stepDelay"@,
    }
}

fn key_name_exec(k: OptionKey) -> (r: &'static str)
    ensures
        r@ == key_name(k),
{
    match k {
        OptionKey::Help => "help",
        OptionKey::Text => "text",
        OptionKey::Methods => "methods",
        OptionKey::Simple => "simple",
        OptionKey::Snapshot => "snapshot",
        OptionKey::StopOnFailure => "stopOnFailure",
        OptionKey::History => "history",
        OptionKey::Client => "client",
        OptionKey::ServerUrl => "serverUrl",
        OptionKey::Method => "method",
        OptionKey::Name => "name",
        OptionKey::Query => "query",
        OptionKey::SavePath => "savePath",
        OptionKey::Status => "status",
        OptionKey::Sequence => "sequence",
        OptionKey::Request => "request",
        OptionKey::Reason => "reason",
        OptionKey::Arg => "arg",
        OptionKey::ArgFile => "argFile",
        OptionKey::Args => "args",
        OptionKey::Step => "step",
        OptionKey::Steps => "steps",
        OptionKey::StepsFile => "stepsFile",
        OptionKey::Event => "event",
        OptionKey::Limit => "limit",
        OptionKey::Timeout => "timeout",
        OptionKey::Duration => "duration",
        OptionKey::StepDelay => "stepDelay",
    }
}

/// The options after one option is set; a value of the wrong kind for the
/// setting is an error. A boolean switch with a fixed value sets that value
/// whatever was given.
pub open spec fn spec_set_option(o: OptionsView, spec: OptionSpec, value: ValueView) -> Result<OptionsView, Seq<char>> {
    let v = match (spec.fixed_bool, value) {
        (Some(f), ValueView::Bool(_)) => ValueView::Bool(f),
        (_, x) => x,
    };
    match (spec.key, v) {
        (OptionKey::Help, ValueView::Bool(b)) => Ok(OptionsView { help: b, ..o }),
        (OptionKey::Text, ValueView::Bool(b)) => Ok(OptionsView { text: Some(b), ..o }),
        (OptionKey::Methods, ValueView::Bool(b)) => Ok(OptionsView { methods: Some(b), ..o }),
        (OptionKey::Simple, ValueView::Bool(b)) => Ok(OptionsView { simple: Some(b), ..o }),
        (OptionKey::Snapshot, ValueView::Bool(b)) => Ok(OptionsView { snapshot: Some(b), ..o }),
        (OptionKey::StopOnFailure, ValueView::Bool(b)) => Ok(OptionsView { stop_on_failure: Some(b), ..o }),
        (OptionKey::History, ValueView::Bool(b)) => Ok(OptionsView { history: Some(b), ..o }),
        (OptionKey::Client, ValueView::Str(t)) => Ok(OptionsView { client: Some(t), ..o }),
        (OptionKey::ServerUrl, ValueView::Str(t)) => Ok(OptionsView { server_url: Some(t), ..o }),
        (OptionKey::Method, ValueView::Str(t)) => Ok(OptionsView { method: Some(t), ..o }),
        (OptionKey::Name, ValueView::Str(t)) => Ok(OptionsView { name: Some(t), ..o }),
        (OptionKey::Query, ValueView::Str(t)) => Ok(OptionsView { query: Some(t), ..o }),
        (OptionKey::SavePath, ValueView::Str(t)) => Ok(OptionsView { save_path: Some(t), ..o }),
        (OptionKey::Status, ValueView::Str(t)) => Ok(OptionsView { status: Some(t), ..o }),
        (OptionKey::Sequence, ValueView::Str(t)) => Ok(OptionsView { sequence: Some(t), ..o }),
        (OptionKey::Request, ValueView::Str(t)) => Ok(OptionsView { request: Some(t), ..o }),
        (OptionKey::Reason, ValueView::Str(t)) => Ok(OptionsView { reason: Some(t), ..o }),
        (OptionKey::Arg, ValueView::Str(t)) => if spec.repeat {
            Ok(OptionsView { arg: o.arg.push(t), arg_sources: o.arg_sources.push(SourceView::Value(t)), ..o })
        } else {
            Err("Invalid value for option "@ + key_name(spec.key))
        },
        (OptionKey::ArgFile, ValueView::Str(t)) => if spec.repeat {
            Ok(OptionsView { arg_sources: o.arg_sources.push(SourceView::File(t)), ..o })
        } else {
            Err("Invalid value for option "@ + key_name(spec.key))
        },
        (OptionKey::Args, ValueView::Json(j)) => Ok(OptionsView { args: Some(j), ..o }),
        (OptionKey::Step, ValueView::Json(j)) => if spec.repeat {
            Ok(OptionsView { step: o.step.push(j), ..o })
        } else {
            Err("Invalid value for option "@ + key_name(spec.key))
        },
        (OptionKey::Steps, ValueView::Json(j)) => Ok(OptionsView { steps: Some(j), ..o }),
        (OptionKey::StepsFile, ValueView::Str(t)) => Ok(OptionsView { steps_file: Some(t), ..o }),
        (OptionKey::Event, ValueView::Csv(vs)) => if spec.repeat {
            Ok(OptionsView { event: o.event + vs, ..o })
        } else {
            Err("Invalid value for option "@ + key_name(spec.key))
        },
        (OptionKey::Limit, ValueView::Number(n)) => Ok(OptionsView { limit: Some(n), ..o }),
        (OptionKey::Timeout, ValueView::Number(n)) => Ok(OptionsView { timeout: Some(non_negative(n)), ..o }),
        (OptionKey::Duration, ValueView::Number(n)) => Ok(OptionsView { duration: Some(non_negative(n)), ..o }),
        (OptionKey::StepDelay, ValueView::Number(n)) => Ok(OptionsView { step_delay: Some(non_negative(n)), ..o }),
        _ => Err("Invalid value for option "@ + key_name(spec.key)),
    }
}

fn non_negative_exec(n: i64) -> (r: u64)
    ensures
        r == non_negative(n),
{
    if n < 0 {
        0
    } else {
        n as u64
    }
}

impl CliOptions {
    /// Sets one option.
    #[verifier::rlimit(60)]
    pub fn set_cli_option(&mut self, spec: OptionSpec, value: CliValue) -> (r: Result<(), String>)
        ensures
            match spec_set_option(old(self)@, spec, value@) {
                Ok(o) => r is Ok && final(self)@ == o,
                Err(e) => r matches Err(x) && x@ == e && final(self)@ == old(self)@,
            },
    {
        let value = match (spec.fixed_bool, value) {
            (Some(f), CliValue::Bool(_)) => CliValue::Bool(f),
            (_, x) => x,
        };
        match (spec.key, value) {
            (OptionKey::Help, CliValue::Bool(b)) => self.help = b,
            (OptionKey::Text, CliValue::Bool(b)) => self.text = Some(b),
            (OptionKey::Methods, CliValue::Bool(b)) => self.methods = Some(b),
            (OptionKey::Simple, CliValue::Bool(b)) => self.simple = Some(b),
            (OptionKey::Snapshot, CliValue::Bool(b)) => self.snapshot = Some(b),
            (OptionKey::StopOnFailure, CliValue::Bool(b)) => self.stop_on_failure = Some(b),
            (OptionKey::History, CliValue::Bool(b)) => self.history = Some(b),
            (OptionKey::Client, CliValue::String(t)) => self.client = Some(t),
            (OptionKey::ServerUrl, CliValue::String(t)) => self.server_url = Some(t),
            (OptionKey::Method, CliValue::String(t)) => self.method = Some(t),
            (OptionKey::Name, CliValue::String(t)) => self.name = Some(t),
            (OptionKey::Query, CliValue::String(t)) => self.query = Some(t),
            (OptionKey::SavePath, CliValue::String(t)) => self.save_path = Some(t),
            (OptionKey::Status, CliValue::String(t)) => self.status = Some(t),
            (OptionKey::Sequence, CliValue::String(t)) => self.sequence = Some(t),
            (OptionKey::Request, CliValue::String(t)) => self.request = Some(t),
            (OptionKey::Reason, CliValue::String(t)) => self.reason = Some(t),
            (OptionKey::Arg, CliValue::String(t)) if spec.repeat => {
                let ghost a = self.arg@;
                let ghost s = self.arg_sources@;
                self.arg.push(copy_str(t.as_str()));
                self.arg_sources.push(CliArgumentSource::Value(t));
                assert(strs(self.arg@) =~= strs(a).push(self.arg@.last()@));
                assert(self.arg_sources@.map_values(|x: CliArgumentSource| source_view(x)) =~= s.map_values(
                    |x: CliArgumentSource| source_view(x),
                ).push(source_view(self.arg_sources@.last())));
            },
            (OptionKey::ArgFile, CliValue::String(t)) if spec.repeat => {
                let ghost s = self.arg_sources@;
                self.arg_sources.push(CliArgumentSource::File(t));
                assert(self.arg_sources@.map_values(|x: CliArgumentSource| source_view(x)) =~= s.map_values(
                    |x: CliArgumentSource| source_view(x),
                ).push(source_view(self.arg_sources@.last())));
            },
            (OptionKey::Args, CliValue::Json(j)) => self.args = Some(j),
            (OptionKey::Step, CliValue::Json(j)) if spec.repeat => {
                let ghost s = self.step@;
                self.step.push(j);
                assert(self.step@.drop_last() =~= s);
            },
            (OptionKey::Steps, CliValue::Json(j)) => self.steps = Some(j),
            (OptionKey::StepsFile, CliValue::String(t)) => self.steps_file = Some(t),
            (OptionKey::Event, CliValue::Csv(vs)) if spec.repeat => {
                let ghost s = self.event@;
                let mut ev = crate::server::state::copy_strings(&self.event);
                let mut k: usize = 0;
                while k < vs.len()
                    invariant
                        k <= vs@.len(),
                        strs(ev@) == strs(s) + strs(vs@).take(k as int),
                    decreases vs@.len() - k,
                {
                    let ghost before = ev@;
                    ev.push(copy_str(vs[k].as_str()));
                    assert(strs(ev@) =~= strs(before).push(vs@[k as int]@));
                    assert(strs(vs@).take(k + 1) =~= strs(vs@).take(k as int).push(vs@[k as int]@));
                    k = k + 1;
                }
                assert(strs(vs@).take(vs@.len() as int) =~= strs(vs@));
                self.event = ev;
            },
            (OptionKey::Limit, CliValue::Number(n)) => self.limit = Some(n),
            (OptionKey::Timeout, CliValue::Number(n)) => self.timeout = Some(non_negative_exec(n)),
            (OptionKey::Duration, CliValue::Number(n)) => self.duration = Some(non_negative_exec(n)),
            (OptionKey::StepDelay, CliValue::Number(n)) => self.step_delay = Some(non_negative_exec(n)),
            _ => return Err(crate::text::concat2("Invalid value for option ", key_name_exec(spec.key))),
        }
        Ok(())
    }
}

/// The value the first entry for a text holds.
pub open spec fn lookup_text<T>(table: Seq<(Seq<char>, T)>, t: Seq<char>) -> Option<T>
    decreases table.len(),
{
    if table.len() == 0 {
        None
    } else if table[0].0 == t {
        Some(table[0].1)
    } else {
        lookup_text(table.drop_first(), t)
    }
}

/// What the command line's texts read as, as far as known: numbers (the
/// whole part of a finite number; none for a text that is no number) and
/// JSON values (none for a text that is not JSON).
#[derive(Debug)]
pub struct Readings {
    pub numbers: Vec<(String, Option<i64>)>,
    pub jsons: Vec<(String, Option<JsonValue>)>,
}

pub open spec fn number_views(t: Seq<(String, Option<i64>)>) -> Seq<(Seq<char>, Option<i64>)> {
    t.map_values(|e: (String, Option<i64>)| (e.0@, e.1))
}

pub open spec fn json_views_table(t: Seq<(String, Option<JsonValue>)>) -> Seq<(Seq<char>, Option<JsonView>)> {
    t.map_values(|e: (String, Option<JsonValue>)| (e.0@, crate::server::state::opt_json(e.1)))
}

impl Readings {
    pub fn new() -> (r: Readings)
        ensures
            r.numbers@.len() == 0,
            r.jsons@.len() == 0,
    {
        Readings { numbers: Vec::new(), jsons: Vec::new() }
    }

    fn number(&self, t: &str) -> (r: Option<Option<i64>>)
        ensures
            r == lookup_text(number_views(self.numbers@), t@),
    {
        let ghost tv = number_views(self.numbers@);
        let mut i: usize = 0;
        assert(tv.subrange(0, tv.len() as int) =~= tv);
        while i < self.numbers.len()
            invariant
                i <= self.numbers@.len(),
                tv == number_views(self.numbers@),
                lookup_text(tv, t@) == lookup_text(tv.subrange(i as int, tv.len() as int), t@),
            decreases self.numbers@.len() - i,
        {
            let ghost rest = tv.subrange(i as int, tv.len() as int);
            assert(rest.drop_first() =~= tv.subrange(i + 1, tv.len() as int));
            assert(rest[0] == (self.numbers@[i as int].0@, self.numbers@[i as int].1));
            if str_eq(self.numbers[i].0.as_str(), t) {
                return Some(self.numbers[i].1);
            }
            i = i + 1;
        }
        None
    }

    fn json(&self, t: &str) -> (r: Option<Option<JsonValue>>)
        ensures
            match lookup_text(json_views_table(self.jsons@), t@) {
                None => r is None,
                Some(x) => r matches Some(y) && crate::server::state::opt_json(y) == x,
            },
    {
        let ghost tv = json_views_table(self.jsons@);
        let mut i: usize = 0;
        assert(tv.subrange(0, tv.len() as int) =~= tv);
        while i < self.jsons.len()
            invariant
                i <= self.jsons@.len(),
                tv == json_views_table(self.jsons@),
                lookup_text(tv, t@) == lookup_text(tv.subrange(i as int, tv.len() as int), t@),
            decreases self.jsons@.len() - i,
        {
            let ghost rest = tv.subrange(i as int, tv.len() as int);
            assert(rest.drop_first() =~= tv.subrange(i + 1, tv.len() as int));
            assert(rest[0] == (self.jsons@[i as int].0@, crate::server::state::opt_json(self.jsons@[i as int].1)));
            if str_eq(self.jsons[i].0.as_str(), t) {
                return Some(
                    match &self.jsons[i].1 {
                        Some(v) => Some(v.copy()),
                        None => None,
                    },
                );
            }
            i = i + 1;
        }
        None
    }
}

/// What reading an option's value comes to.
pub enum ReadView {
    Value(ValueView),
    Error(Seq<char>),
    NeedNumber(Seq<char>),
    NeedJson(Seq<char>),
}

enum Read {
    Value(CliValue),
    Error(String),
    NeedNumber(String),
    NeedJson(String),
}

spec fn read_view(r: Read) -> ReadView {
    match r {
        Read::Value(v) => ReadView::Value(v@),
        Read::Error(e) => ReadView::Error(e@),
        Read::NeedNumber(t) => ReadView::NeedNumber(t@),
        Read::NeedJson(t) => ReadView::NeedJson(t@),
    }
}

/// Reads an option's value by its kind; `option_name` is the option as
/// written, for errors.
pub open spec fn read_value(
    text: Seq<char>,
    option_name: Seq<char>,
    spec: OptionSpec,
    numbers: Seq<(Seq<char>, Option<i64>)>,
    jsons: Seq<(Seq<char>, Option<JsonView>)>,
) -> ReadView {
    match spec.option_type {
        OptionType::Boolean => match boolean_word(spec_to_lowercase(trim(text))) {
            Some(b) => ReadView::Value(ValueView::Bool(b)),
            None => ReadView::Error(boolean_option_error(option_name)),
        },
        OptionType::String => ReadView::Value(ValueView::Str(text)),
        OptionType::Number => match lookup_text(numbers, text) {
            None => ReadView::NeedNumber(text),
            Some(None) => ReadView::Error("Option "@ + option_name + " requires a number."@),
            Some(Some(n)) => ReadView::Value(ValueView::Number(n)),
        },
        OptionType::Json => match lookup_text(jsons, text) {
            None => ReadView::NeedJson(text),
            Some(None) => ReadView::Error("Option "@ + option_name + " requires valid JSON"@),
            Some(Some(v)) => ReadView::Value(ValueView::Json(v)),
        },
        OptionType::Csv => ReadView::Value(ValueView::Csv(trimmed_nonempty(split_char(text, ',')))),
    }
}

fn read_value_exec(text: &str, option_name: &str, spec: OptionSpec, readings: &Readings) -> (r: Read)
    ensures
        read_view(r) == read_value(
            text@,
            option_name@,
            spec,
            number_views(readings.numbers@),
            json_views_table(readings.jsons@),
        ),
{
    match spec.option_type {
        OptionType::Boolean => match parse_boolean_option(text, option_name) {
            Ok(b) => Read::Value(CliValue::Bool(b)),
            Err(e) => Read::Error(e),
        },
        OptionType::String => Read::Value(CliValue::String(copy_str(text))),
        OptionType::Number => match readings.number(text) {
            None => Read::NeedNumber(copy_str(text)),
            Some(None) => Read::Error(concat3("Option ", option_name, " requires a number.")),
            Some(Some(n)) => Read::Value(CliValue::Number(n)),
        },
        OptionType::Json => match readings.json(text) {
            None => Read::NeedJson(copy_str(text)),
            Some(None) => Read::Error(concat3("Option ", option_name, " requires valid JSON")),
            Some(Some(v)) => Read::Value(CliValue::Json(v)),
        },
        OptionType::Csv => {
            let parts = split_trimmed(text, ',');
            assert(strs(parts@) =~= string_views(parts@));
            Read::Value(CliValue::Csv(parts))
        },
    }
}

/// Where parsing the options stands.
pub enum ParseView {
    Done(Result<OptionsView, Seq<char>>),
    NeedNumber(Seq<char>),
    NeedJson(Seq<char>),
}

pub open spec fn is_option_word(arg: Seq<char>) -> bool {
    arg.len() > 0 && arg[0] == '-'
}

/// Reads the options from position `i` on, `o` holding those read so far:
/// `--` makes the rest positional; a word that does not start with `-` is
/// positional; an option is looked up by its long name (after `=`, an inline
/// value); a switch takes `true` or its inline value, another option its
/// inline value or the next word.
pub open spec fn parse_from(
    argv: Seq<Seq<char>>,
    i: int,
    o: OptionsView,
    numbers: Seq<(Seq<char>, Option<i64>)>,
    jsons: Seq<(Seq<char>, Option<JsonView>)>,
) -> ParseView
    decreases argv.len() - i,
{
    if i < 0 || i >= argv.len() {
        ParseView::Done(Ok(o))
    } else {
        let arg = argv[i];
        if arg == "--"@ {
            ParseView::Done(Ok(OptionsView { positionals: o.positionals + argv.subrange(i + 1, argv.len() as int), ..o }))
        } else if !is_option_word(arg) {
            parse_from(argv, i + 1, OptionsView { positionals: o.positionals.push(arg), ..o }, numbers, jsons)
        } else {
            let raw = inline_option(arg).0;
            let inline = inline_option(arg).1;
            match spec_option_spec(cli_option_alias(raw)) {
                None => ParseView::Done(Err("Unknown option: "@ + raw + "."@)),
                Some(sp) => {
                    let read = if sp.option_type == OptionType::Boolean {
                        match inline {
                            Some(v) => match boolean_word(spec_to_lowercase(trim(v))) {
                                Some(b) => ReadView::Value(ValueView::Bool(b)),
                                None => ReadView::Error(boolean_option_error(raw)),
                            },
                            None => ReadView::Value(ValueView::Bool(true)),
                        }
                    } else {
                        match inline {
                            Some(v) => read_value(v, raw, sp, numbers, jsons),
                            None => if i + 1 < argv.len() {
                                read_value(argv[i + 1], raw, sp, numbers, jsons)
                            } else {
                                ReadView::Error("Option "@ + raw + " requires a value."@)
                            },
                        }
                    };
                    let next = if sp.option_type != OptionType::Boolean && inline is None {
                        i + 2
                    } else {
                        i + 1
                    };
                    match read {
                        ReadView::Error(e) => ParseView::Done(Err(e)),
                        ReadView::NeedNumber(t) => ParseView::NeedNumber(t),
                        ReadView::NeedJson(t) => ParseView::NeedJson(t),
                        ReadView::Value(v) => match spec_set_option(o, sp, v) {
                            Err(e) => ParseView::Done(Err(e)),
                            Ok(o2) => parse_from(argv, next, o2, numbers, jsons),
                        },
                    }
                },
            }
        }
    }
}

/// A command line read: the command and its options.
#[derive(Debug)]
pub struct ParsedCliArgs {
    pub command: String,
    pub options: CliOptions,
}

/// Where reading a command line stands: done, or in need of what a text
/// reads as.
#[derive(Debug)]
pub enum CliParse {
    Done(Result<ParsedCliArgs, String>),
    NeedNumber(String),
    NeedJson(String),
}

pub enum CliParseView {
    Done(Result<(Seq<char>, OptionsView), Seq<char>>),
    NeedNumber(Seq<char>),
    NeedJson(Seq<char>),
}

pub open spec fn cli_parse_view(r: CliParse) -> CliParseView {
    match r {
        CliParse::Done(Ok(p)) => CliParseView::Done(Ok((p.command@, p.options@))),
        CliParse::Done(Err(e)) => CliParseView::Done(Err(e@)),
        CliParse::NeedNumber(t) => CliParseView::NeedNumber(t@),
        CliParse::NeedJson(t) => CliParseView::NeedJson(t@),
    }
}

/// The checks a command makes of its options: a screenshot takes no method
/// and no timeout.
pub open spec fn spec_validate_command_options(command: Seq<char>, o: OptionsView) -> Result<(), Seq<char>> {
    if command == "capture-screenshot"@ && o.method is Some {
        Err("capture-screenshot does not accept --tool/--method; it uses the default screenshot QaTest method."@)
    } else if command == "capture-screenshot"@ && o.timeout is Some {
        Err("capture-screenshot does not accept --timeout; it uses the default timeout."@)
    } else {
        Ok(())
    }
}

pub fn validate_command_options(command: &str, options: &CliOptions) -> (r: Result<(), String>)
    ensures
        match spec_validate_command_options(command@, options@) {
            Ok(()) => r is Ok,
            Err(e) => r matches Err(x) && x@ == e,
        },
{
    if str_eq(command, "capture-screenshot") {
        if options.method.is_some() {
            return Err(
                copy_str(
                    "capture-screenshot does not accept --tool/--method; it uses the default screenshot QaTest method.",
                ),
            );
        }
        if options.timeout.is_some() {
            return Err(copy_str("capture-screenshot does not accept --timeout; it uses the default timeout."));
        }
    }
    Ok(())
}

pub open spec fn missing_command_message() -> Seq<char> {
    "Missing command. Run \"qamcp --help\" for usage."@
}

/// Reading a command line: a first word that is the command (not empty, not
/// an option), then the options; the command's own checks come last.
pub open spec fn spec_parse_cli_args(
    argv: Seq<Seq<char>>,
    numbers: Seq<(Seq<char>, Option<i64>)>,
    jsons: Seq<(Seq<char>, Option<JsonView>)>,
) -> CliParseView {
    let raw = if argv.len() > 0 {
        argv[0]
    } else {
        Seq::empty()
    };
    if raw.len() == 0 || raw[0] == '-' {
        CliParseView::Done(Err(missing_command_message()))
    } else {
        let command = cli_command_alias(raw);
        match parse_from(argv, 1, default_options(), numbers, jsons) {
            ParseView::Done(Ok(o)) => match spec_validate_command_options(command, o) {
                Ok(()) => CliParseView::Done(Ok((command, o))),
                Err(e) => CliParseView::Done(Err(e)),
            },
            ParseView::Done(Err(e)) => CliParseView::Done(Err(e)),
            ParseView::NeedNumber(t) => CliParseView::NeedNumber(t),
            ParseView::NeedJson(t) => CliParseView::NeedJson(t),
        }
    }
}

/// Reads a command line (without the program's name), as far as `readings`
/// say what its texts read as.
#[verifier::rlimit(80)]
pub fn parse_cli_args(argv: &Vec<String>, readings: &Readings) -> (r: CliParse)
    ensures
        cli_parse_view(r) == spec_parse_cli_args(
            strs(argv@),
            number_views(readings.numbers@),
            json_views_table(readings.jsons@),
        ),
{
    let ghost av = strs(argv@);
    let ghost nv = number_views(readings.numbers@);
    let ghost jv = json_views_table(readings.jsons@);
    if argv.len() == 0 {
        return CliParse::Done(Err(copy_str("Missing command. Run \"qamcp --help\" for usage.")));
    }
    let first = argv[0].as_str();
    if first.unicode_len() == 0 || first.get_char(0) == '-' {
        return CliParse::Done(Err(copy_str("Missing command. Run \"qamcp --help\" for usage.")));
    }
    let command = normalize_cli_command(first);
    assert(av[0] == first@);
    let mut options = CliOptions::new();
    let mut index: usize = 1;
    while index < argv.len()
        invariant
            1 <= index <= argv@.len(),
            av == strs(argv@),
            command@ == cli_command_alias(av[0]),
            av[0].len() > 0 && av[0][0] != '-',
            nv == number_views(readings.numbers@),
            jv == json_views_table(readings.jsons@),
            parse_from(av, 1, default_options(), nv, jv) == parse_from(av, index as int, options@, nv, jv),
        decreases argv@.len() - index,
    {
        let arg = argv[index].as_str();
        assert(av[index as int] == arg@);
        if str_eq(arg, "--") {
            let mut k = index + 1;
            let ghost before = options.positionals@;
            let ghost pre = options@;
            while k < argv.len()
                invariant
                    index + 1 <= k <= argv@.len(),
                    av == strs(argv@),
                    strs(options.positionals@) == strs(before) + av.subrange(index + 1, k as int),
                    pre.positionals == strs(before),
                    options@ == (OptionsView { positionals: strs(options.positionals@), ..pre }),
                decreases argv@.len() - k,
            {
                let ghost b = options.positionals@;
                options.positionals.push(copy_str(argv[k].as_str()));
                assert(strs(options.positionals@) =~= strs(b).push(av[k as int]));
                assert(av.subrange(index + 1, k + 1) =~= av.subrange(index + 1, k as int).push(av[k as int]));
                k = k + 1;
            }
            assert(av.subrange(index + 1, argv@.len() as int) == av.subrange(index + 1, k as int));
            return match validate_command_options(command.as_str(), &options) {
                Err(e) => CliParse::Done(Err(e)),
                Ok(()) => CliParse::Done(Ok(ParsedCliArgs { command, options })),
            };
        }
        if arg.unicode_len() == 0 || arg.get_char(0) != '-' {
            let ghost b = options.positionals@;
            options.positionals.push(copy_str(arg));
            assert(strs(options.positionals@) =~= strs(b).push(arg@));
            index = index + 1;
            continue;
        }
        let (raw, inline) = split_inline_option(arg);
        let name = normalize_cli_option_name(raw.as_str());
        assert(is_option_word(arg@));
        assert(arg@ != "--"@);
        let spec = match get_cli_option_spec(name.as_str()) {
            Some(sp) => sp,
            None => {
                let e = concat3("Unknown option: ", raw.as_str(), ".");
                assert(parse_from(av, index as int, options@, nv, jv) == ParseView::Done(Err(e@)));
                return CliParse::Done(Err(e));
            },
        };
        let mut next = index + 1;
        let read = if spec.option_type == OptionType::Boolean {
            match &inline {
                Some(v) => match parse_boolean_option(v.as_str(), raw.as_str()) {
                    Ok(b) => Read::Value(CliValue::Bool(b)),
                    Err(e) => Read::Error(e),
                },
                None => Read::Value(CliValue::Bool(true)),
            }
        } else {
            match &inline {
                Some(v) => read_value_exec(v.as_str(), raw.as_str(), spec, readings),
                None => {
                    if index + 1 < argv.len() {
                        next = index + 2;
                        assert(av[index + 1] == argv@[index + 1]@);
                        read_value_exec(argv[index + 1].as_str(), raw.as_str(), spec, readings)
                    } else {
                        Read::Error(concat3("Option ", raw.as_str(), " requires a value."))
                    }
                },
            }
        };
        match read {
            Read::Error(e) => return CliParse::Done(Err(e)),
            Read::NeedNumber(t) => return CliParse::NeedNumber(t),
            Read::NeedJson(t) => return CliParse::NeedJson(t),
            Read::Value(v) => {
                match options.set_cli_option(spec, v) {
                    Err(e) => return CliParse::Done(Err(e)),
                    Ok(()) => {},
                }
            },
        }
        index = next;
    }
    match validate_command_options(command.as_str(), &options) {
        Err(e) => CliParse::Done(Err(e)),
        Ok(()) => CliParse::Done(Ok(ParsedCliArgs { command, options })),
    }
}

/// What gathering the arguments of `run` comes to, as values.
pub enum GatherView {
    Done(Result<Seq<JsonView>, Seq<char>>),
    NeedFile(Seq<char>),
}

/// What gathering the arguments of `run` comes to.
#[derive(Debug)]
pub enum ArgumentGather {
    Done(Result<Vec<JsonValue>, String>),
    /// The text of this file is needed.
    NeedFile(String),
}

pub open spec fn gather_view(r: ArgumentGather) -> GatherView {
    match r {
        ArgumentGather::Done(Ok(v)) => GatherView::Done(Ok(crate::json::json_views(v@))),
        ArgumentGather::Done(Err(e)) => GatherView::Done(Err(e@)),
        ArgumentGather::NeedFile(p) => GatherView::NeedFile(p@),
    }
}

pub open spec fn text_views(t: Seq<(String, Option<String>)>) -> Seq<(Seq<char>, Option<Seq<char>>)> {
    t.map_values(|e: (String, Option<String>)| (e.0@, crate::paths::opt_view(e.1)))
}

pub open spec fn mixed_arguments_message() -> Seq<char> {
    "Use either repeated -a/--arg/--arg-file values or legacy --args JSON array, not both."@
}

/// The argument sources from the `k`th on, each as a JSON string: a value as
/// it is, a file as its text.
pub open spec fn gather_sources(
    sources: Seq<SourceView>,
    files: Seq<(Seq<char>, Option<Seq<char>>)>,
) -> GatherView
    decreases sources.len(),
{
    if sources.len() == 0 {
        GatherView::Done(Ok(Seq::empty()))
    } else {
        let first = match sources[0] {
            SourceView::Value(v) => Ok(Ok(JsonView::Str(v))),
            SourceView::File(p) => match lookup_text(files, p) {
                None => Err(p),
                Some(None) => Ok(Err("Failed to read argument file "@ + p)),
                Some(Some(t)) => Ok(Ok(JsonView::Str(t))),
            },
        };
        match first {
            Err(p) => GatherView::NeedFile(p),
            Ok(Err(e)) => GatherView::Done(Err(e)),
            Ok(Ok(x)) => match gather_sources(sources.drop_first(), files) {
                GatherView::Done(Ok(rest)) => GatherView::Done(Ok(seq![x] + rest)),
                other => other,
            },
        }
    }
}

/// The positional words after the first `offset` (none when there are no
/// more).
pub open spec fn positional_tail(ps: Seq<Seq<char>>, offset: nat) -> Seq<Seq<char>> {
    if offset >= ps.len() {
        Seq::empty()
    } else {
        ps.skip(offset as int)
    }
}

/// The arguments of `run`: the legacy `--args` array (not with repeated
/// values), else the repeated values and files in order, else the positional
/// words after the first `offset`.
pub open spec fn spec_collect_arguments(o: OptionsView, offset: nat, files: Seq<(Seq<char>, Option<Seq<char>>)>) -> GatherView {
    if o.args is Some && (o.arg_sources.len() > 0 || o.arg.len() > 0) {
        GatherView::Done(Err(mixed_arguments_message()))
    } else if o.args is Some {
        match o.args->0 {
            JsonView::Array(items) => GatherView::Done(Ok(items)),
            _ => GatherView::Done(
                Err(
                    "--args must be a JSON array. Prefer repeated -a/--arg values for shell-safe qamcp run calls."@,
                ),
            ),
        }
    } else if o.arg_sources.len() > 0 {
        gather_sources(o.arg_sources, files)
    } else if o.arg.len() > 0 {
        GatherView::Done(Ok(o.arg.map_values(|a: Seq<char>| JsonView::Str(a))))
    } else {
        GatherView::Done(Ok(positional_tail(o.positionals, offset).map_values(|a: Seq<char>| JsonView::Str(a))))
    }
}

fn file_text<'a>(files: &'a Vec<(String, Option<String>)>, path: &str) -> (r: Option<&'a Option<String>>)
    ensures
        match lookup_text(text_views(files@), path@) {
            None => r is None,
            Some(x) => r matches Some(y) && crate::paths::opt_view(*y) == x,
        },
{
    let ghost tv = text_views(files@);
    let mut i: usize = 0;
    assert(tv.subrange(0, tv.len() as int) =~= tv);
    while i < files.len()
        invariant
            i <= files@.len(),
            tv == text_views(files@),
            lookup_text(tv, path@) == lookup_text(tv.subrange(i as int, tv.len() as int), path@),
        decreases files@.len() - i,
    {
        let ghost rest = tv.subrange(i as int, tv.len() as int);
        assert(rest.drop_first() =~= tv.subrange(i + 1, tv.len() as int));
        assert(rest[0] == (files@[i as int].0@, crate::paths::opt_view(files@[i as int].1)));
        if str_eq(files[i].0.as_str(), path) {
            return Some(&files[i].1);
        }
        i = i + 1;
    }
    None
}

fn texts_as_json(v: &Vec<String>, from: usize) -> (r: Vec<JsonValue>)
    requires
        from <= v@.len(),
    ensures
        crate::json::json_views(r@) == strs(v@).skip(from as int).map_values(|a: Seq<char>| JsonView::Str(a)),
{
    let mut out: Vec<JsonValue> = Vec::new();
    let mut i: usize = from;
    while i < v.len()
        invariant
            from <= i <= v@.len(),
            crate::json::json_views(out@) == strs(v@).subrange(from as int, i as int).map_values(|a: Seq<char>| JsonView::Str(a)),
        decreases v@.len() - i,
    {
        let ghost before = out@;
        let x = JsonValue::String(copy_str(v[i].as_str()));
        out.push(x);
        assert(out@.drop_last() =~= before);
        assert(out@.last() == x);
        assert(x@ == JsonView::Str(v@[i as int]@));
        assert(crate::json::json_views(out@) == crate::json::json_views(before).push(x@));
        assert(strs(v@).subrange(from as int, i + 1).map_values(|a: Seq<char>| JsonView::Str(a)) =~= strs(v@).subrange(
            from as int,
            i as int,
        ).map_values(|a: Seq<char>| JsonView::Str(a)).push(JsonView::Str(v@[i as int]@)));
        i = i + 1;
    }
    assert(strs(v@).subrange(from as int, v@.len() as int) =~= strs(v@).skip(from as int));
    out
}

/// Gathers the arguments of `run`, as far as `files` give the texts of the
/// argument files (none for a file that could not be read).
pub fn collect_cli_arguments(options: &CliOptions, positional_offset: usize, files: &Vec<(String, Option<String>)>) -> (r: ArgumentGather)
    ensures
        gather_view(r) == spec_collect_arguments(options@, positional_offset as nat, text_views(files@)),
{
    if options.args.is_some() && (options.arg_sources.len() > 0 || options.arg.len() > 0) {
        return ArgumentGather::Done(
            Err(copy_str("Use either repeated -a/--arg/--arg-file values or legacy --args JSON array, not both.")),
        );
    }
    if let Some(args) = &options.args {
        return match args {
            JsonValue::Array(items) => ArgumentGather::Done(Ok(crate::json::copy_values(items))),
            _ => ArgumentGather::Done(
                Err(
                    copy_str(
                        "--args must be a JSON array. Prefer repeated -a/--arg values for shell-safe qamcp run calls.",
                    ),
                ),
            ),
        };
    }
    if options.arg_sources.len() > 0 {
        let ghost sv = options@.arg_sources;
        let ghost fv = text_views(files@);
        let mut out: Vec<JsonValue> = Vec::new();
        let mut i: usize = 0;
        assert(sv.subrange(0, sv.len() as int) =~= sv);
        while i < options.arg_sources.len()
            invariant
                i <= options.arg_sources@.len(),
                sv == options@.arg_sources,
                sv.len() == options.arg_sources@.len(),
                fv == text_views(files@),
                spec_collect_arguments(options@, positional_offset as nat, fv) == gather_sources(sv, fv),
                gather_sources(sv, fv) == match gather_sources(sv.subrange(i as int, sv.len() as int), fv) {
                    GatherView::Done(Ok(rest)) => GatherView::Done(Ok(crate::json::json_views(out@) + rest)),
                    other => other,
                },
            decreases options.arg_sources@.len() - i,
        {
            let ghost rest = sv.subrange(i as int, sv.len() as int);
            assert(rest.drop_first() =~= sv.subrange(i + 1, sv.len() as int));
            assert(rest[0] == source_view(options.arg_sources@[i as int]));
            let x = match &options.arg_sources[i] {
                CliArgumentSource::Value(v) => JsonValue::String(copy_str(v.as_str())),
                CliArgumentSource::File(p) => match file_text(files, p.as_str()) {
                    None => return ArgumentGather::NeedFile(copy_str(p.as_str())),
                    Some(None) => return ArgumentGather::Done(Err(crate::text::concat2("Failed to read argument file ", p.as_str()))),
                    Some(Some(t)) => JsonValue::String(copy_str(t.as_str())),
                },
            };
            let ghost before = out@;
            out.push(x);
            proof {
                assert(out@.drop_last() =~= before);
                let g = gather_sources(rest.drop_first(), fv);
                match g {
                    GatherView::Done(Ok(r2)) => {
                        assert(crate::json::json_views(before) + (seq![x@] + r2) =~= crate::json::json_views(out@) + r2);
                    },
                    _ => {},
                }
            }
            i = i + 1;
        }
        assert(sv.subrange(sv.len() as int, sv.len() as int) =~= Seq::<SourceView>::empty());
        assert(crate::json::json_views(out@) + Seq::<JsonView>::empty() =~= crate::json::json_views(out@));
        return ArgumentGather::Done(Ok(out));
    }
    if options.arg.len() > 0 {
        let out = texts_as_json(&options.arg, 0);
        assert(strs(options.arg@).skip(0) =~= strs(options.arg@));
        return ArgumentGather::Done(Ok(out));
    }
    if positional_offset >= options.positionals.len() {
        let empty: Vec<JsonValue> = Vec::new();
        assert(crate::json::json_views(empty@) =~= positional_tail(strs(options.positionals@), positional_offset as nat).map_values(
            |a: Seq<char>| JsonView::Str(a),
        ));
        return ArgumentGather::Done(Ok(empty));
    }
    ArgumentGather::Done(Ok(texts_as_json(&options.positionals, positional_offset)))
}

/// A sequence step as the command line sends it: its arguments (an array, or
/// none), its method id, and its method name and step id (null when they are
/// not strings).
pub open spec fn step_view(step: Seq<(Seq<char>, JsonView)>, method_id: Seq<char>) -> JsonView {
    let o = JsonView::Object(step);
    JsonView::Object(
        seq![
            (
                "arguments"@,
                JsonView::Array(
                    match crate::json::jarray(crate::json::jget(o, "arguments"@)) {
                        Some(a) => a,
                        None => Seq::empty(),
                    },
                ),
            ),
            ("methodId"@, JsonView::Str(method_id)),
            (
                "methodName"@,
                match crate::json::jget_str(o, "methodName"@) {
                    Some(n) => JsonView::Str(n),
                    None => JsonView::Null,
                },
            ),
            (
                "stepId"@,
                match crate::json::jget_str(o, "stepId"@) {
                    Some(n) => JsonView::Str(n),
                    None => JsonView::Null,
                },
            ),
        ],
    )
}

/// Checks the steps from the `k`th on (numbered from `k + 1`): each must be an
/// object with a non-empty `methodId` string.
pub open spec fn check_steps(steps: Seq<JsonView>, k: nat) -> Result<Seq<JsonView>, Seq<char>>
    decreases steps.len(),
{
    if steps.len() == 0 {
        Ok(Seq::empty())
    } else {
        let first = match steps[0] {
            JsonView::Object(es) => match crate::json::jget_str(steps[0], "methodId"@) {
                Some(m) if m.len() > 0 => Ok(step_view(es, m)),
                _ => Err("sequence step "@ + crate::text::decimal(k + 1) + " requires methodId."@),
            },
            _ => Err("sequence step "@ + crate::text::decimal(k + 1) + " must be an object."@),
        };
        match first {
            Err(e) => Err(e),
            Ok(x) => match check_steps(steps.drop_first(), k + 1) {
                Ok(rest) => Ok(seq![x] + rest),
                Err(e) => Err(e),
            },
        }
    }
}

/// The steps of a sequence: a non-empty JSON array of valid steps.
pub open spec fn spec_validate_sequence_steps(steps: JsonView) -> Result<Seq<JsonView>, Seq<char>> {
    match steps {
        JsonView::Array(items) => if items.len() == 0 {
            Err("sequence requires at least one step."@)
        } else {
            check_steps(items, 0)
        },
        _ => Err("--steps must be a JSON array."@),
    }
}

fn step_json(es: &Vec<(String, JsonValue)>, method_id: &str) -> (r: JsonValue)
    ensures
        r@ == step_view(crate::json::json_entry_views(es@), method_id@),
{
    let ghost o = JsonView::Object(crate::json::json_entry_views(es@));
    let arguments = match crate::json::member(es, "arguments") {
        Some(JsonValue::Array(items)) => JsonValue::Array(crate::json::copy_values(items)),
        _ => JsonValue::Array(Vec::new()),
    };
    let name = match crate::json::member(es, "methodName") {
        Some(JsonValue::String(n)) => JsonValue::String(copy_str(n.as_str())),
        _ => JsonValue::Null,
    };
    let step_id = match crate::json::member(es, "stepId") {
        Some(JsonValue::String(n)) => JsonValue::String(copy_str(n.as_str())),
        _ => JsonValue::Null,
    };
    let entries = vec![
        (copy_str("arguments"), arguments),
        (copy_str("methodId"), JsonValue::String(copy_str(method_id))),
        (copy_str("methodName"), name),
        (copy_str("stepId"), step_id),
    ];
    proof {
        crate::json::lemma_entry_views_new(entries@);
        assert(crate::json::json_entry_views(entries@) =~= step_view(crate::json::json_entry_views(es@), method_id@)->Object_0);
    }
    JsonValue::Object(entries)
}

/// Checks the steps of a sequence and puts each in the form it is sent in.
pub fn validate_sequence_steps(steps: &JsonValue) -> (r: Result<Vec<JsonValue>, String>)
    ensures
        match spec_validate_sequence_steps(steps@) {
            Ok(v) => r matches Ok(x) && crate::json::json_views(x@) == v,
            Err(e) => r matches Err(x) && x@ == e,
        },
{
    let items = match steps {
        JsonValue::Array(items) => items,
        _ => return Err(copy_str("--steps must be a JSON array.")),
    };
    proof {
        crate::json::lemma_json_views_len(items@);
    }
    if items.len() == 0 {
        return Err(copy_str("sequence requires at least one step."));
    }
    let ghost iv = crate::json::json_views(items@);
    let mut out: Vec<JsonValue> = Vec::new();
    let mut i: usize = 0;
    assert(iv.subrange(0, iv.len() as int) =~= iv);
    while i < items.len()
        invariant
            i <= items@.len(),
            iv == crate::json::json_views(items@),
            iv.len() == items@.len(),
            iv.len() > 0,
            steps@ == JsonView::Array(iv),
            check_steps(iv, 0) == match check_steps(iv.subrange(i as int, iv.len() as int), i as nat) {
                Ok(rest) => Ok(crate::json::json_views(out@) + rest),
                Err(e) => Err(e),
            },
        decreases items@.len() - i,
    {
        let ghost rest = iv.subrange(i as int, iv.len() as int);
        assert(rest.drop_first() =~= iv.subrange(i + 1, iv.len() as int));
        proof {
            crate::json::lemma_json_views_index(items@, i as int);
        }
        assert(rest[0] == items@[i as int]@);
        let x = match &items[i] {
            JsonValue::Object(es) => match items[i].get_str("methodId") {
                Some(m) => if m.unicode_len() > 0 {
                    step_json(es, m)
                } else {
                    let n = crate::text::u64_to_string((i as u64) + 1);
                    let e = concat3("sequence step ", n.as_str(), " requires methodId.");
                    assert(rest[0] is Object);
                    assert(check_steps(rest, i as nat) == Err::<Seq<JsonView>, Seq<char>>(e@));
                    return Err(e);
                },
                None => {
                    let n = crate::text::u64_to_string((i as u64) + 1);
                    let e = concat3("sequence step ", n.as_str(), " requires methodId.");
                    assert(rest[0] is Object);
                    assert(check_steps(rest, i as nat) == Err::<Seq<JsonView>, Seq<char>>(e@));
                    return Err(e);
                },
            },
            _ => {
                let n = crate::text::u64_to_string((i as u64) + 1);
                return Err(concat3("sequence step ", n.as_str(), " must be an object."));
            },
        };
        let ghost before = out@;
        out.push(x);
        proof {
            assert(out@.drop_last() =~= before);
            assert(out@.last() == x);
            match check_steps(rest.drop_first(), (i + 1) as nat) {
                Ok(r2) => {
                    assert(crate::json::json_views(before) + (seq![x@] + r2) =~= crate::json::json_views(out@) + r2);
                },
                Err(_) => {},
            }
        }
        i = i + 1;
    }
    assert(iv.subrange(iv.len() as int, iv.len() as int) =~= Seq::<JsonView>::empty());
    assert(crate::json::json_views(out@) + Seq::<JsonView>::empty() =~= crate::json::json_views(out@));
    Ok(out)
}

/// What loading the steps of a sequence comes to.
#[derive(Debug)]
pub enum StepsLoad {
    Done(Result<Vec<JsonValue>, String>),
    /// The text of this steps file is needed.
    NeedFile(String),
    /// What this text reads as JSON is needed.
    NeedJson(String),
}

pub enum StepsLoadView {
    Done(Result<Seq<JsonView>, Seq<char>>),
    NeedFile(Seq<char>),
    NeedJson(Seq<char>),
}

pub open spec fn steps_load_view(r: StepsLoad) -> StepsLoadView {
    match r {
        StepsLoad::Done(Ok(v)) => StepsLoadView::Done(Ok(crate::json::json_views(v@))),
        StepsLoad::Done(Err(e)) => StepsLoadView::Done(Err(e@)),
        StepsLoad::NeedFile(p) => StepsLoadView::NeedFile(p@),
        StepsLoad::NeedJson(t) => StepsLoadView::NeedJson(t@),
    }
}

pub open spec fn validated(r: Result<Seq<JsonView>, Seq<char>>) -> StepsLoadView {
    StepsLoadView::Done(r)
}

/// The steps of a sequence: from the steps file (read, then read as JSON; a
/// failure of either names the file), else from `--steps`, else from the
/// repeated `--step` values; one of them must be given.
pub open spec fn spec_load_sequence_steps(
    o: OptionsView,
    files: Seq<(Seq<char>, Option<Seq<char>>)>,
    jsons: Seq<(Seq<char>, Option<JsonView>)>,
) -> StepsLoadView {
    match o.steps_file {
        Some(p) => match lookup_text(files, p) {
            None => StepsLoadView::NeedFile(p),
            Some(None) => StepsLoadView::Done(Err("Failed to read JSON file "@ + p)),
            Some(Some(t)) => match lookup_text(jsons, t) {
                None => StepsLoadView::NeedJson(t),
                Some(None) => StepsLoadView::Done(Err("Failed to read JSON file "@ + p)),
                Some(Some(v)) => validated(spec_validate_sequence_steps(v)),
            },
        },
        None => match o.steps {
            Some(v) => validated(spec_validate_sequence_steps(v)),
            None => if o.step.len() > 0 {
                validated(spec_validate_sequence_steps(JsonView::Array(o.step)))
            } else {
                StepsLoadView::Done(Err("sequence requires --steps <json>, --step <json>, or --steps-file <path>."@))
            },
        },
    }
}

/// Loads the steps of a sequence, as far as `files` give file texts and
/// `readings` what texts read as JSON.
pub fn load_sequence_steps(options: &CliOptions, files: &Vec<(String, Option<String>)>, readings: &Readings) -> (r: StepsLoad)
    ensures
        steps_load_view(r) == spec_load_sequence_steps(options@, text_views(files@), json_views_table(readings.jsons@)),
{
    if let Some(p) = &options.steps_file {
        return match file_text(files, p.as_str()) {
            None => StepsLoad::NeedFile(copy_str(p.as_str())),
            Some(None) => StepsLoad::Done(Err(crate::text::concat2("Failed to read JSON file ", p.as_str()))),
            Some(Some(t)) => match readings.json(t.as_str()) {
                None => StepsLoad::NeedJson(copy_str(t.as_str())),
                Some(None) => StepsLoad::Done(Err(crate::text::concat2("Failed to read JSON file ", p.as_str()))),
                Some(Some(v)) => StepsLoad::Done(validate_sequence_steps(&v)),
            },
        };
    }
    if let Some(v) = &options.steps {
        return StepsLoad::Done(validate_sequence_steps(v));
    }
    if options.step.len() > 0 {
        let arr = JsonValue::Array(crate::json::copy_values(&options.step));
        return StepsLoad::Done(validate_sequence_steps(&arr));
    }
    StepsLoad::Done(Err(copy_str("sequence requires --steps <json>, --step <json>, or --steps-file <path>.")))
}

} // verus!
