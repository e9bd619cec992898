use vstd::prelude::*;
use vstd::string::StrSliceExecFns;
use crate::json::{entries_with, jget_str, json_entry_views, with_member, JsonValue, JsonView};
use crate::paths::{join_path, join_path_exec};
use crate::text::{
    chars_of, concat2, concat3, copy_str, is_alphanumeric_ascii, is_ascii_alphanumeric, str_eq, trim,
    trim_string,
};
use crate::urls::{
    spec_url_parse, spec_url_scheme, spec_url_with_path, spec_url_with_scheme,
    spec_url_without_fragment, spec_url_without_query, url_parse, url_scheme, url_with_path,
    url_with_scheme, url_without_fragment, url_without_query,
};

verus! {

pub const CONFIG_FILE_NAME: &'static str = "qamcp.config.json";

/// Where the configuration file lives: `qamcp.config.json` in the runtime
/// directory.
pub fn get_qamcp_config_path(runtime_directory: &str) -> (r: String)
    ensures
        r@ == join_path(runtime_directory@, "qamcp.config.json"@),
{
    join_path_exec(runtime_directory, "qamcp.config.json")
}

/// The runtime directory: the configured directory, trimmed, when it is set
/// and not blank; else the directory of the executable, if it has one.
pub open spec fn runtime_directory(configured: Option<Seq<char>>, exe_dir: Option<Seq<char>>) -> Option<Seq<char>> {
    match configured {
        Some(c) if trim(c).len() > 0 => Some(trim(c)),
        _ => exe_dir,
    }
}

pub fn get_qamcp_runtime_directory(configured: Option<&str>, exe_dir: Option<&str>) -> (r: Option<String>)
    ensures
        crate::paths::opt_view(r) == runtime_directory(
            match configured {
                Some(c) => Some(c@),
                None => None,
            },
            match exe_dir {
                Some(d) => Some(d@),
                None => None,
            },
        ),
{
    if let Some(c) = configured {
        let t = trim_string(c);
        if t.as_str().unicode_len() > 0 {
            return Some(t);
        }
    }
    match exe_dir {
        Some(d) => Some(copy_str(d)),
        None => None,
    }
}

pub open spec fn is_ascii_alpha(c: char) -> bool {
    ('a' <= c && c <= 'z') || ('A' <= c && c <= 'Z')
}

pub open spec fn is_scheme_char(c: char) -> bool {
    is_ascii_alphanumeric(c) || c == '+' || c == '-' || c == '.'
}

/// A URL scheme: an ASCII letter, then letters, digits, `+`, `-` or `.`.
pub open spec fn is_scheme(s: Seq<char>) -> bool {
    s.len() > 0 && is_ascii_alpha(s[0]) && forall|i: int| 1 <= i < s.len() ==> is_scheme_char(s[i])
}

/// The index of the first `://` in `s`.
pub open spec fn index_of_scheme_separator(s: Seq<char>) -> Option<int>
    decreases s.len(),
{
    if s.len() < 3 {
        None
    } else if s[0] == ':' && s[1] == '/' && s[2] == '/' {
        Some(0)
    } else {
        match index_of_scheme_separator(s.drop_first()) {
            Some(k) => Some(k + 1),
            None => None,
        }
    }
}

/// Whether `value` starts with a scheme followed by `://`, the scheme being
/// what stands before the first `://`.
pub open spec fn spec_has_url_scheme(value: Seq<char>) -> bool {
    match index_of_scheme_separator(value) {
        Some(k) => is_scheme(value.subrange(0, k)),
        None => false,
    }
}

fn find_scheme_separator(v: &Vec<char>) -> (r: Option<usize>)
    ensures
        match r {
            Some(k) => index_of_scheme_separator(v@) == Some(k as int) && k + 3 <= v@.len(),
            None => index_of_scheme_separator(v@) is None,
        },
{
    let mut i: usize = 0;
    assert(v@.subrange(0, v@.len() as int) == v@);
    while v.len() - i >= 3
        invariant
            i <= v@.len(),
            index_of_scheme_separator(v@) == match index_of_scheme_separator(
                v@.subrange(i as int, v@.len() as int),
            ) {
                Some(k) => Some(k + i),
                None => None,
            },
        decreases v@.len() - i,
    {
        let ghost t = v@.subrange(i as int, v@.len() as int);
        assert(t[0] == v@[i as int] && t[1] == v@[i + 1] && t[2] == v@[i + 2]);
        assert(t.drop_first() == v@.subrange(i + 1, v@.len() as int));
        if v[i] == ':' && v[i + 1] == '/' && v[i + 2] == '/' {
            return Some(i);
        }
        i = i + 1;
    }
    None
}

pub fn has_url_scheme(value: &str) -> (r: bool)
    ensures
        r == spec_has_url_scheme(value@),
{
    let v = chars_of(value);
    match find_scheme_separator(&v) {
        None => false,
        Some(k) => {
            if k == 0 {
                return false;
            }
            let first = v[0];
            if !(('a' <= first && first <= 'z') || ('A' <= first && first <= 'Z')) {
                return false;
            }
            let mut i: usize = 1;
            while i < k
                invariant
                    1 <= i <= k,
                    k + 3 <= v@.len(),
                    v@ == value@,
                    index_of_scheme_separator(v@) == Some(k as int),
                    forall|j: int| 1 <= j < i ==> is_scheme_char(#[trigger] v@[j]),
                decreases k - i,
            {
                let c = v[i];
                if !(is_alphanumeric_ascii(c) || c == '+' || c == '-' || c == '.') {
                    assert(v@.subrange(0, k as int)[i as int] == c);
                    assert(!is_scheme_char(c));
                    return false;
                }
                i = i + 1;
            }
            assert forall|j: int| 1 <= j < k implies is_scheme_char(#[trigger] v@.subrange(0, k as int)[j]) by {
                assert(v@.subrange(0, k as int)[j] == v@[j]);
            }
            true
        },
    }
}

/// The address used when none is configured.
pub const DEFAULT_REGISTER_SERVER_URL: &'static str = "http://localhost:3000";

pub open spec fn scheme_message() -> Seq<char> {
    "serverUrl must use http, https, ws, or wss."@
}

/// A URL reduced to the root of its server: no fragment, no query, path `/`.
pub open spec fn url_root(url: Seq<char>) -> Seq<char> {
    spec_url_with_path(spec_url_without_query(spec_url_without_fragment(url)), "/"@)
}

/// The QA server address that a configured value stands for: trimmed, given
/// `http://` when it names no scheme, parsed; `ws` becomes `http` and `wss`
/// becomes `https`, other schemes than these four are refused; then reduced
/// to the server's root.
pub open spec fn spec_normalize_server_url(value: Seq<char>) -> Result<Seq<char>, Seq<char>> {
    let raw = trim(value);
    let with_protocol = if spec_has_url_scheme(raw) {
        raw
    } else {
        "http://"@ + raw
    };
    if raw.len() == 0 {
        Err("serverUrl cannot be empty."@)
    } else {
        match spec_url_parse(with_protocol) {
            None => Err("Invalid serverUrl: "@ + raw),
            Some(u) => {
                let scheme = spec_url_scheme(u);
                let switched = if scheme == "ws"@ {
                    spec_url_with_scheme(u, "http"@)
                } else if scheme == "wss"@ {
                    spec_url_with_scheme(u, "https"@)
                } else if scheme == "http"@ || scheme == "https"@ {
                    Some(u)
                } else {
                    None
                };
                match switched {
                    Some(v) => Ok(url_root(v)),
                    None => Err(scheme_message()),
                }
            },
        }
    }
}

pub fn normalize_qa_server_url(value: &str) -> (r: Result<String, String>)
    ensures
        match spec_normalize_server_url(value@) {
            Ok(u) => r matches Ok(x) && x@ == u,
            Err(e) => r matches Err(x) && x@ == e,
        },
{
    let raw = trim_string(value);
    if raw.as_str().unicode_len() == 0 {
        return Err(copy_str("serverUrl cannot be empty."));
    }
    let with_protocol = if has_url_scheme(raw.as_str()) {
        copy_str(raw.as_str())
    } else {
        concat2("http://", raw.as_str())
    };
    let u = match url_parse(with_protocol.as_str()) {
        Some(u) => u,
        None => return Err(concat2("Invalid serverUrl: ", raw.as_str())),
    };
    let scheme = url_scheme(u.as_str());
    let switched = if str_eq(scheme.as_str(), "ws") {
        url_with_scheme(u.as_str(), "http")
    } else if str_eq(scheme.as_str(), "wss") {
        url_with_scheme(u.as_str(), "https")
    } else if str_eq(scheme.as_str(), "http") || str_eq(scheme.as_str(), "https") {
        Some(u)
    } else {
        None
    };
    match switched {
        Some(v) => {
            let a = url_without_fragment(v.as_str());
            let b = url_without_query(a.as_str());
            Ok(url_with_path(b.as_str(), "/"))
        },
        None => Err(copy_str("serverUrl must use http, https, ws, or wss.")),
    }
}


/// The members of a configuration file, which must hold a JSON object.
pub fn raw_config_entries(config_path: &str, parsed: JsonValue) -> (r: Result<Vec<(String, JsonValue)>, String>)
    ensures
        match parsed@ {
            JsonView::Object(es) => r matches Ok(x) && json_entry_views(x@) == es,
            _ => r matches Err(e) && e@ == "qamcp config at "@ + config_path@ + " must be a JSON object."@,
        },
{
    match parsed {
        JsonValue::Object(es) => Ok(es),
        _ => Err(concat3("qamcp config at ", config_path, " must be a JSON object.")),
    }
}

/// The configured server text: the file's `serverUrl` string, else the default.
pub open spec fn configured_server(es: Seq<(Seq<char>, JsonView)>) -> Seq<char> {
    match jget_str(JsonView::Object(es), "serverUrl"@) {
        Some(u) => u,
        None => DEFAULT_REGISTER_SERVER_URL@,
    }
}

/// The configuration as `config` shows it: where the file is, whether it
/// exists, its members, and the server address normalized.
pub open spec fn spec_config_view(config_path: Seq<char>, file: Option<Seq<(Seq<char>, JsonView)>>) -> Result<JsonView, Seq<char>> {
    match file {
        None => match spec_normalize_server_url(DEFAULT_REGISTER_SERVER_URL@) {
            Err(e) => Err(e),
            Ok(u) => Ok(
                JsonView::Object(
                    seq![
                        ("configPath"@, JsonView::Str(config_path)),
                        ("exists"@, JsonView::Bool(false)),
                        ("serverUrl"@, JsonView::Str(u)),
                    ],
                ),
            ),
        },
        Some(es) => match spec_normalize_server_url(configured_server(es)) {
            Err(e) => Err(e),
            Ok(u) => Ok(
                JsonView::Object(
                    entries_with(
                        entries_with(entries_with(es, "configPath"@, JsonView::Str(config_path)), "exists"@, JsonView::Bool(true)),
                        "serverUrl"@,
                        JsonView::Str(u),
                    ),
                ),
            ),
        },
    }
}

/// Reads the configuration: `file` holds the members of the file when it exists.
pub fn read_qamcp_config(config_path: &str, file: Option<&Vec<(String, JsonValue)>>) -> (r: Result<JsonValue, String>)
    ensures
        match spec_config_view(
            config_path@,
            match file {
                Some(es) => Some(json_entry_views(es@)),
                None => None,
            },
        ) {
            Ok(v) => r matches Ok(x) && x@ == v,
            Err(e) => r matches Err(x) && x@ == e,
        },
{
    match file {
        None => {
            let u = match normalize_qa_server_url(DEFAULT_REGISTER_SERVER_URL) {
                Ok(u) => u,
                Err(e) => return Err(e),
            };
            let entries = vec![
                (copy_str("configPath"), JsonValue::String(copy_str(config_path))),
                (copy_str("exists"), JsonValue::Bool(false)),
                (copy_str("serverUrl"), JsonValue::String(u)),
            ];
            proof {
                crate::json::lemma_entry_views_new(entries@);
                assert(json_entry_views(entries@) =~= seq![
                    ("configPath"@, JsonView::Str(config_path@)),
                    ("exists"@, JsonView::Bool(false)),
                    ("serverUrl"@, JsonView::Str(entries@[2].1->String_0@)),
                ]);
            }
            Ok(JsonValue::Object(entries))
        },
        Some(es) => {
            let server = match crate::json::member(es, "serverUrl") {
                Some(v) => match v.as_str() {
                    Some(u) => copy_str(u),
                    None => copy_str(DEFAULT_REGISTER_SERVER_URL),
                },
                None => copy_str(DEFAULT_REGISTER_SERVER_URL),
            };
            let u = match normalize_qa_server_url(server.as_str()) {
                Ok(u) => u,
                Err(e) => return Err(e),
            };
            let a = with_member(es, "configPath", JsonValue::String(copy_str(config_path)));
            let b = with_member(&a, "exists", JsonValue::Bool(true));
            let c = with_member(&b, "serverUrl", JsonValue::String(u));
            Ok(JsonValue::Object(c))
        },
    }
}

/// What saving a server address writes and answers: the file's members with
/// `serverUrl` set to the normalized address, and the saved configuration's
/// summary.
pub open spec fn spec_save_server_url(
    config_path: Seq<char>,
    file: Seq<(Seq<char>, JsonView)>,
    server_url: Seq<char>,
) -> Result<(JsonView, JsonView), Seq<char>> {
    match spec_normalize_server_url(server_url) {
        Err(e) => Err(e),
        Ok(u) => Ok(
            (
                JsonView::Object(entries_with(file, "serverUrl"@, JsonView::Str(u))),
                JsonView::Object(
                    seq![
                        ("configPath"@, JsonView::Str(config_path)),
                        ("exists"@, JsonView::Bool(true)),
                        ("saved"@, JsonView::Bool(true)),
                        ("serverUrl"@, JsonView::Str(u)),
                    ],
                ),
            ),
        ),
    }
}

/// Saves a server address: `file` holds the members of the file (none when it
/// does not exist yet). Gives what to write to the file and what to answer.
pub fn save_qa_server_url(config_path: &str, file: &Vec<(String, JsonValue)>, server_url: &str) -> (r: Result<(JsonValue, JsonValue), String>)
    ensures
        match spec_save_server_url(config_path@, json_entry_views(file@), server_url@) {
            Ok((f, a)) => r matches Ok(x) && x.0@ == f && x.1@ == a,
            Err(e) => r matches Err(x) && x@ == e,
        },
{
    let u = match normalize_qa_server_url(server_url) {
        Ok(u) => u,
        Err(e) => return Err(e),
    };
    let written = with_member(file, "serverUrl", JsonValue::String(copy_str(u.as_str())));
    let entries = vec![
        (copy_str("configPath"), JsonValue::String(copy_str(config_path))),
        (copy_str("exists"), JsonValue::Bool(true)),
        (copy_str("saved"), JsonValue::Bool(true)),
        (copy_str("serverUrl"), JsonValue::String(u)),
    ];
    proof {
        crate::json::lemma_entry_views_new(entries@);
        assert(json_entry_views(entries@) =~= seq![
            ("configPath"@, JsonView::Str(config_path@)),
            ("exists"@, JsonView::Bool(true)),
            ("saved"@, JsonView::Bool(true)),
            ("serverUrl"@, JsonView::Str(entries@[3].1->String_0@)),
        ]);
    }
    Ok((JsonValue::Object(written), JsonValue::Object(entries)))
}

/// The server address in a configuration read by `read_qamcp_config`.
pub fn get_qa_server_url(config: &JsonValue) -> (r: Result<String, String>)
    ensures
        match spec_normalize_server_url(
            match jget_str(config@, "serverUrl"@) {
                Some(u) => u,
                None => DEFAULT_REGISTER_SERVER_URL@,
            },
        ) {
            Ok(u) => r matches Ok(x) && x@ == u,
            Err(e) => r matches Err(x) && x@ == e,
        },
{
    match config.get_str("serverUrl") {
        Some(u) => normalize_qa_server_url(u),
        None => normalize_qa_server_url(DEFAULT_REGISTER_SERVER_URL),
    }
}

/// Saving a server address and reading the configuration back gives that
/// address: the file then holds the normalized address as `serverUrl`, reading
/// takes exactly that text, and, where normalizing the normalized address
/// changes nothing, the configuration read shows the saved address.
pub proof fn lemma_saved_server_url_reads_back(
    config_path: Seq<char>,
    file: Seq<(Seq<char>, JsonView)>,
    server_url: Seq<char>,
)
    requires
        spec_save_server_url(config_path, file, server_url) is Ok,
    ensures
        ({
            let u = spec_normalize_server_url(server_url)->Ok_0;
            let written = entries_with(file, "serverUrl"@, JsonView::Str(u));
            &&& spec_save_server_url(config_path, file, server_url)->Ok_0.0 == JsonView::Object(written)
            &&& configured_server(written) == u
            &&& spec_normalize_server_url(u) == Ok::<Seq<char>, Seq<char>>(u) ==> {
                &&& spec_config_view(config_path, Some(written)) is Ok
                &&& jget_str(spec_config_view(config_path, Some(written))->Ok_0, "serverUrl"@) == Some(u)
            }
        }),
{
    let u = spec_normalize_server_url(server_url)->Ok_0;
    let written = entries_with(file, "serverUrl"@, JsonView::Str(u));
    crate::json::lemma_get_after_with(file, "serverUrl"@, JsonView::Str(u));
    let a = entries_with(entries_with(written, "configPath"@, JsonView::Str(config_path)), "exists"@, JsonView::Bool(true));
    crate::json::lemma_get_after_with(a, "serverUrl"@, JsonView::Str(u));
}

} // verus!
