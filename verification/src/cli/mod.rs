use vstd::prelude::*;
use vstd::string::StrSliceExecFns;
use crate::text::{
    before_first, chars_of, concat3, copy_str, find_char, index_of, spec_to_lowercase, str_eq,
    string_from, string_from_range, to_lowercase, trim, trim_bounds, trim_string,
};

pub mod help;
pub mod parser;
pub mod plan;
pub mod output;

verus! {

/// Where one positional argument of `run` comes from: a value given on the
/// command line, or a file whose text is the value.
#[derive(Clone, Debug, PartialEq, Eq)]
pub enum CliArgumentSource {
    Value(String),
    File(String),
}

/// The words that start the MCP server on standard input and output.
pub open spec fn is_server_command(c: Seq<char>) -> bool {
    c == "mcp"@ || c == "serve"@ || c == "stdio"@
}

pub open spec fn is_help_flag(c: Seq<char>) -> bool {
    c == "--help"@ || c == "-h"@
}

/// The program runs as a command-line tool unless its first argument names the
/// server; asking the server command for help runs the tool too.
pub open spec fn spec_should_run_cli(args: Seq<Seq<char>>) -> bool {
    ||| args.len() == 0
    ||| !is_server_command(args[0])
    ||| (args.len() > 1 && is_help_flag(args[1]))
}

pub open spec fn arg_views(args: Seq<String>) -> Seq<Seq<char>> {
    Seq::new(args.len(), |i: int| args[i]@)
}

fn is_server_word(c: &str) -> (r: bool)
    ensures
        r == is_server_command(c@),
{
    str_eq(c, "mcp") || str_eq(c, "serve") || str_eq(c, "stdio")
}

/// Whether the arguments (without the program name) ask for the command-line
/// tool rather than the MCP server.
pub fn should_run_cli(args: &[String]) -> (r: bool)
    ensures
        r == spec_should_run_cli(arg_views(args@)),
{
    if args.len() == 0 {
        return true;
    }
    let first = args[0].as_str();
    if is_server_word(first) && args.len() > 1 {
        let second = args[1].as_str();
        if str_eq(second, "--help") || str_eq(second, "-h") {
            return true;
        }
    }
    !is_server_word(first)
}

/// The command that a command word or one of its aliases stands for; any other
/// word stands for itself.
pub open spec fn cli_command_alias(c: Seq<char>) -> Seq<char> {
    if c == "status"@ {
        "health"@
    } else if c == "serve"@ || c == "stdio"@ {
        "mcp"@
    } else if c == "qa_health"@ {
        "health"@
    } else if c == "list"@ || c == "client"@ || c == "qa_list_unity_clients"@ {
        "clients"@
    } else if c == "cfg"@ {
        "config"@
    } else if c == "history"@ || c == "result"@ || c == "qa_get_results"@ {
        "results"@
    } else if c == "exec"@ || c == "execute"@ || c == "qa_execute_method"@ {
        "run"@
    } else if c == "capture-screenshot"@ || c == "screenshot"@ || c == "qa_capture_screenshot"@ {
        "capture-screenshot"@
    } else if c == "seq"@ || c == "qa_execute_sequence"@ {
        "sequence"@
    } else if c == "stop-execution"@ || c == "qa_stop_execution"@ || c == "stop-sequence"@ || c
        == "stopseq"@ || c == "qa_stop_sequence"@ {
        "stop"@
    } else if c == "events"@ || c == "qa_watch_events"@ {
        "watch"@
    } else if c == "qa_wait_for_result"@ {
        "wait"@
    } else {
        c
    }
}

/// Maps a command word to the command it names.
pub fn normalize_cli_command(command: &str) -> (r: String)
    ensures
        r@ == cli_command_alias(command@),
{
    let c = command;
    if str_eq(c, "status") {
        copy_str("health")
    } else if str_eq(c, "serve") || str_eq(c, "stdio") {
        copy_str("mcp")
    } else if str_eq(c, "qa_health") {
        copy_str("health")
    } else if str_eq(c, "list") || str_eq(c, "client") || str_eq(c, "qa_list_unity_clients") {
        copy_str("clients")
    } else if str_eq(c, "cfg") {
        copy_str("config")
    } else if str_eq(c, "history") || str_eq(c, "result") || str_eq(c, "qa_get_results") {
        copy_str("results")
    } else if str_eq(c, "exec") || str_eq(c, "execute") || str_eq(c, "qa_execute_method") {
        copy_str("run")
    } else if str_eq(c, "capture-screenshot") || str_eq(c, "screenshot") || str_eq(
        c,
        "qa_capture_screenshot",
    ) {
        copy_str("capture-screenshot")
    } else if str_eq(c, "seq") || str_eq(c, "qa_execute_sequence") {
        copy_str("sequence")
    } else if str_eq(c, "stop-execution") || str_eq(c, "qa_stop_execution") || str_eq(
        c,
        "stop-sequence",
    ) || str_eq(c, "stopseq") || str_eq(c, "qa_stop_sequence") {
        copy_str("stop")
    } else if str_eq(c, "events") || str_eq(c, "qa_watch_events") {
        copy_str("watch")
    } else if str_eq(c, "qa_wait_for_result") {
        copy_str("wait")
    } else {
        copy_str(c)
    }
}

/// The long form of a one-letter option; any other name stands for itself.
pub open spec fn cli_option_alias(n: Seq<char>) -> Seq<char> {
    if n == "-c"@ {
        "--client"@
    } else if n == "-m"@ {
        "--method"@
    } else if n == "-t"@ {
        "--tool"@
    } else if n == "-q"@ {
        "--query"@
    } else if n == "-n"@ {
        "--name"@
    } else if n == "-a"@ {
        "--arg"@
    } else if n == "-l"@ {
        "--limit"@
    } else if n == "-s"@ {
        "--status"@
    } else if n == "-r"@ {
        "--request"@
    } else if n == "-h"@ {
        "--help"@
    } else {
        n
    }
}

pub fn normalize_cli_option_name(name: &str) -> (r: String)
    ensures
        r@ == cli_option_alias(name@),
{
    let n = name;
    if str_eq(n, "-c") {
        copy_str("--client")
    } else if str_eq(n, "-m") {
        copy_str("--method")
    } else if str_eq(n, "-t") {
        copy_str("--tool")
    } else if str_eq(n, "-q") {
        copy_str("--query")
    } else if str_eq(n, "-n") {
        copy_str("--name")
    } else if str_eq(n, "-a") {
        copy_str("--arg")
    } else if str_eq(n, "-l") {
        copy_str("--limit")
    } else if str_eq(n, "-s") {
        copy_str("--status")
    } else if str_eq(n, "-r") {
        copy_str("--request")
    } else if str_eq(n, "-h") {
        copy_str("--help")
    } else {
        copy_str(n)
    }
}

/// A method id without its parameter list: the part before the first `(`,
/// trimmed.
pub open spec fn simple_method_id(id: Seq<char>) -> Seq<char> {
    trim(before_first(id, '('))
}

pub fn simplify_method_id(method_id: &str) -> (r: String)
    ensures
        r@ == simple_method_id(method_id@),
{
    let v = chars_of(method_id);
    let end = match find_char(&v, '(') {
        Some(k) => k,
        None => v.len(),
    };
    proof {
        crate::text::lemma_index_of(v@, '(');
    }
    let head = string_from_range(&v, 0, end);
    assert(head@ == before_first(method_id@, '(')) by {
        if index_of(v@, '(') is None {
            assert(v@.subrange(0, v@.len() as int) == v@);
        }
    }
    trim_string(head.as_str())
}

/// An option written `--name=value`: the name, and the value after the first
/// `=`; without `=` the whole argument is the name.
pub open spec fn inline_option(arg: Seq<char>) -> (Seq<char>, Option<Seq<char>>) {
    match index_of(arg, '=') {
        Some(k) => (arg.subrange(0, k), Some(arg.subrange(k + 1, arg.len() as int))),
        None => (arg, None),
    }
}

pub fn split_inline_option(arg: &str) -> (r: (String, Option<String>))
    ensures
        r.0@ == inline_option(arg@).0,
        crate::paths::opt_view(r.1) == inline_option(arg@).1,
{
    let v = chars_of(arg);
    proof {
        crate::text::lemma_index_of(v@, '=');
    }
    match find_char(&v, '=') {
        Some(k) => (string_from_range(&v, 0, k), Some(string_from(&v, k + 1))),
        None => (copy_str(arg), None),
    }
}

pub open spec fn boolean_word(w: Seq<char>) -> Option<bool> {
    if w == "1"@ || w == "true"@ || w == "yes"@ || w == "on"@ {
        Some(true)
    } else if w == "0"@ || w == "false"@ || w == "no"@ || w == "off"@ {
        Some(false)
    } else {
        None
    }
}

pub open spec fn boolean_option_error(option_name: Seq<char>) -> Seq<char> {
    "Option "@ + option_name + " requires a boolean value."@
}

/// Reads a boolean option value: one of the words for true or false, after
/// trimming and lowercasing; anything else is an error that names the option.
pub fn parse_boolean_option(value: &str, option_name: &str) -> (r: Result<bool, String>)
    ensures
        match boolean_word(spec_to_lowercase(trim(value@))) {
            Some(b) => r == Ok::<bool, String>(b),
            None => r is Err && r->Err_0@ == boolean_option_error(option_name@),
        },
{
    let t = trim_string(value);
    let w = to_lowercase(t.as_str());
    let w = w.as_str();
    if str_eq(w, "1") || str_eq(w, "true") || str_eq(w, "yes") || str_eq(w, "on") {
        Ok(true)
    } else if str_eq(w, "0") || str_eq(w, "false") || str_eq(w, "no") || str_eq(w, "off") {
        Ok(false)
    } else {
        Err(concat3("Option ", option_name, " requires a boolean value."))
    }
}

/// A required option: its value when it is given and not empty, else an error
/// with `message`.
pub fn require_option(value: &Option<String>, message: &str) -> (r: Result<String, String>)
    ensures
        match value {
            Some(v) if v@.len() > 0 => r is Ok && r->Ok_0@ == v@,
            _ => r is Err && r->Err_0@ == message@,
        },
{
    match value {
        Some(v) => {
            if v.as_str().unicode_len() > 0 {
                Ok(copy_str(v.as_str()))
            } else {
                Err(copy_str(message))
            }
        },
        None => Err(copy_str(message)),
    }
}

} // verus!

verus! {

/// `s` without its `-` and `_` characters.
pub open spec fn without_separators(s: Seq<char>) -> Seq<char>
    decreases s.len(),
{
    if s.len() == 0 {
        s
    } else {
        let r = without_separators(s.drop_last());
        if s.last() == '-' || s.last() == '_' {
            r
        } else {
            r.push(s.last())
        }
    }
}

/// A configuration key as the user may spell it: trimmed, lowercased, without
/// `-` and `_`; the spellings of the server address all name `serverUrl`.
pub open spec fn config_key(key: Seq<char>) -> Seq<char> {
    let n = without_separators(spec_to_lowercase(trim(key)));
    if n == "serverurl"@ || n == "url"@ {
        "serverUrl"@
    } else {
        n
    }
}

fn remove_separators(s: &str) -> (r: String)
    ensures
        r@ == without_separators(s@),
{
    let v = chars_of(s);
    let mut r = String::new();
    let mut i: usize = 0;
    while i < v.len()
        invariant
            i <= v@.len(),
            v@ == s@,
            r@ == without_separators(v@.subrange(0, i as int)),
        decreases v@.len() - i,
    {
        let ghost pre = v@.subrange(0, i + 1);
        assert(pre.drop_last() == v@.subrange(0, i as int));
        assert(pre.last() == v@[i as int]);
        let c = v[i];
        if c != '-' && c != '_' {
            crate::text::push_char(&mut r, c);
        }
        i = i + 1;
    }
    assert(v@.subrange(0, v@.len() as int) == v@);
    r
}

pub fn normalize_config_key(key: &str) -> (r: String)
    ensures
        r@ == config_key(key@),
{
    let t = trim_string(key);
    let l = to_lowercase(t.as_str());
    let n = remove_separators(l.as_str());
    if str_eq(n.as_str(), "serverurl") || str_eq(n.as_str(), "url") {
        copy_str("serverUrl")
    } else {
        n
    }
}

} // verus!
