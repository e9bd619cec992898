use vstd::prelude::*;
use vstd::string::StrSliceExecFns;
use crate::json::{digits_value, is_digit_char};
use crate::network::{AccessScope, IpAddress};
use crate::text::{ascii_lower, chars_of, copy_str, str_eq, to_ascii_lowercase, trim, trim_string};

verus! {

/// The digits of an unsigned number, without the `+` it may start with.
pub open spec fn unsigned_digits(s: Seq<char>) -> Seq<char> {
    if s.len() > 0 && s[0] == '+' {
        s.drop_first()
    } else {
        s
    }
}

/// Text made of one decimal digit or more.
pub open spec fn all_digits(s: Seq<char>) -> bool {
    s.len() > 0 && forall|i: int| 0 <= i < s.len() ==> is_digit_char(#[trigger] s[i])
}

/// What `str::parse` gives for an unsigned type whose largest value is `max`:
/// an optional `+`, then digits, of a value that fits.
pub open spec fn spec_parse_unsigned(s: Seq<char>, max: nat) -> Option<nat> {
    let d = unsigned_digits(s);
    if all_digits(d) && digits_value(d) <= max {
        Some(digits_value(d))
    } else {
        None
    }
}

pub fn parse_unsigned(s: &str, max: u64) -> (r: Option<u64>)
    ensures
        match spec_parse_unsigned(s@, max as nat) {
            Some(n) => r == Some(n as u64),
            None => r is None,
        },
{
    let v = chars_of(s);
    let body = if v.len() > 0 && v[0] == '+' {
        crate::text::string_from(&v, 1)
    } else {
        copy_str(s)
    };
    assert(body@ == unsigned_digits(s@)) by {
        if v@.len() > 0 && v@[0] == '+' {
            assert(v@.subrange(1, v@.len() as int) =~= s@.drop_first());
        }
    }
    match crate::json::digits_u64(body.as_str()) {
        Some(n) => if n <= max {
            Some(n)
        } else {
            None
        },
        None => None,
    }
}

/// A positive number from the environment: the variable's value, trimmed,
/// when it parses and is above zero; else the fallback.
pub open spec fn spec_env_positive(value: Option<Seq<char>>, max: nat, fallback: nat) -> nat {
    match value {
        Some(v) => match spec_parse_unsigned(trim(v), max) {
            Some(n) if n > 0 => n,
            _ => fallback,
        },
        None => fallback,
    }
}

pub open spec fn opt_text(o: Option<&str>) -> Option<Seq<char>> {
    match o {
        Some(t) => Some(t@),
        None => None,
    }
}

fn env_positive(value: Option<&str>, max: u64, fallback: u64) -> (r: u64)
    requires
        fallback <= max,
    ensures
        r as nat == spec_env_positive(opt_text(value), max as nat, fallback as nat),
        r <= max,
{
    match value {
        Some(v) => {
            let t = trim_string(v);
            match parse_unsigned(t.as_str(), max) {
                Some(n) => if n > 0 {
                    n
                } else {
                    fallback
                },
                None => fallback,
            }
        },
        None => fallback,
    }
}

pub fn env_positive_u64(value: Option<&str>, fallback: u64) -> (r: u64)
    ensures
        r as nat == spec_env_positive(opt_text(value), u64::MAX as nat, fallback as nat),
{
    env_positive(value, u64::MAX, fallback)
}

pub fn env_positive_u32(value: Option<&str>, fallback: u32) -> (r: u32)
    ensures
        r as nat == spec_env_positive(opt_text(value), u32::MAX as nat, fallback as nat),
{
    env_positive(value, u32::MAX as u64, fallback as u64) as u32
}

pub fn env_positive_u16(value: Option<&str>, fallback: u16) -> (r: u16)
    ensures
        r as nat == spec_env_positive(opt_text(value), u16::MAX as nat, fallback as nat),
{
    env_positive(value, u16::MAX as u64, fallback as u64) as u16
}

pub fn env_positive_usize(value: Option<&str>, fallback: usize) -> (r: usize)
    ensures
        r as nat == spec_env_positive(opt_text(value), usize::MAX as nat, fallback as nat),
{
    env_positive(value, usize::MAX as u64, fallback as u64) as usize
}

/// A switch from the environment: `1`, `true`, `yes`, `on` or `enabled`
/// turn it on, `0`, `false`, `no`, `off` or `disabled` off (trimmed, in any
/// case); anything else, or no value, leaves the fallback.
pub open spec fn spec_env_bool(value: Option<Seq<char>>, fallback: bool) -> bool {
    match value {
        Some(v) => {
            let w = ascii_lower(trim(v));
            if w == "1"@ || w == "true"@ || w == "yes"@ || w == "on"@ || w == "enabled"@ {
                true
            } else if w == "0"@ || w == "false"@ || w == "no"@ || w == "off"@ || w == "disabled"@ {
                false
            } else {
                fallback
            }
        },
        None => fallback,
    }
}

pub fn env_bool(value: Option<&str>, fallback: bool) -> (r: bool)
    ensures
        r == spec_env_bool(opt_text(value), fallback),
{
    match value {
        Some(v) => {
            let t = trim_string(v);
            let l = to_ascii_lowercase(t.as_str());
            let w = l.as_str();
            if str_eq(w, "1") || str_eq(w, "true") || str_eq(w, "yes") || str_eq(w, "on") || str_eq(w, "enabled") {
                true
            } else if str_eq(w, "0") || str_eq(w, "false") || str_eq(w, "no") || str_eq(w, "off") || str_eq(
                w,
                "disabled",
            ) {
                false
            } else {
                fallback
            }
        },
        None => fallback,
    }
}

/// A text from the environment, trimmed; none when it is blank.
pub open spec fn spec_env_text(value: Option<Seq<char>>) -> Option<Seq<char>> {
    match value {
        Some(v) if trim(v).len() > 0 => Some(trim(v)),
        _ => None,
    }
}

pub fn env_text(value: Option<&str>) -> (r: Option<String>)
    ensures
        crate::paths::opt_view(r) == spec_env_text(opt_text(value)),
{
    match value {
        Some(v) => {
            let t = trim_string(v);
            if t.as_str().unicode_len() > 0 {
                Some(t)
            } else {
                None
            }
        },
        None => None,
    }
}

/// The value of the first variable named `name`.
pub open spec fn env_value(vars: Seq<(Seq<char>, Seq<char>)>, name: Seq<char>) -> Option<Seq<char>>
    decreases vars.len(),
{
    if vars.len() == 0 {
        None
    } else if vars[0].0 == name {
        Some(vars[0].1)
    } else {
        env_value(vars.drop_first(), name)
    }
}

pub open spec fn var_views(vars: Seq<(String, String)>) -> Seq<(Seq<char>, Seq<char>)> {
    vars.map_values(|p: (String, String)| (p.0@, p.1@))
}

fn lookup<'a>(vars: &'a Vec<(String, String)>, name: &str) -> (r: Option<&'a str>)
    ensures
        opt_text(r) == env_value(var_views(vars@), name@),
{
    let ghost vv = var_views(vars@);
    let mut i: usize = 0;
    assert(vv.subrange(0, vv.len() as int) =~= vv);
    while i < vars.len()
        invariant
            i <= vars@.len(),
            vv == var_views(vars@),
            env_value(vv, name@) == env_value(vv.subrange(i as int, vv.len() as int), name@),
        decreases vars@.len() - i,
    {
        let ghost rest = vv.subrange(i as int, vv.len() as int);
        assert(rest.drop_first() =~= vv.subrange(i + 1, vv.len() as int));
        assert(rest[0] == (vars@[i as int].0@, vars@[i as int].1@));
        if str_eq(vars[i].0.as_str(), name) {
            return Some(vars[i].1.as_str());
        }
        i = i + 1;
    }
    None
}

/// How the register server runs.
#[derive(Debug)]
pub struct Config {
    pub port: u16,
    pub listen_host: IpAddress,
    pub access_scope: AccessScope,
    pub heartbeat_interval_ms: u64,
    pub websocket_outbound_queue_size: usize,
    pub unity_heartbeat_stale_ms: u64,
    pub execution_timeout_ms: u64,
    pub method_refresh_min_count: usize,
    pub method_refresh_timeout_ms: u64,
    pub web_console_token: Option<String>,
    pub client_dist_dir: String,
    pub artifact_dir: String,
    pub artifact_max_bytes: usize,
    pub log_dir: Option<String>,
    pub log_prefix: String,
    pub archive_mysql_enabled: bool,
    pub archive_mysql_url: Option<String>,
    pub archive_mysql_max_connections: u32,
    pub archive_queue_size: usize,
}

/// The configuration that these environment variables give, each setting
/// with its default. `listen_host` is `QA_LISTEN_HOST` read as an address,
/// when it is one; the directories default to the given ones.
pub open spec fn spec_config(
    c: Config,
    vars: Seq<(Seq<char>, Seq<char>)>,
    listen_host: Option<IpAddress>,
    default_client_dist_dir: Seq<char>,
    default_artifact_dir: Seq<char>,
) -> bool {
    &&& c.port as nat == spec_env_positive(env_value(vars, "PORT"@), u16::MAX as nat, 3000)
    &&& c.listen_host == match listen_host {
        Some(h) => h,
        None => IpAddress::V4([0u8, 0u8, 0u8, 0u8]),
    }
    &&& c.access_scope == AccessScope::spec_from_env_value(
        match env_value(vars, "QA_ACCESS_SCOPE"@) {
            Some(v) => v,
            None => "private"@,
        },
    )
    &&& c.heartbeat_interval_ms as nat == spec_env_positive(env_value(vars, "WS_HEARTBEAT_INTERVAL_MS"@), u64::MAX as nat, 15_000)
    &&& c.websocket_outbound_queue_size as nat == spec_env_positive(env_value(vars, "QA_WS_OUTBOUND_QUEUE_SIZE"@), usize::MAX as nat, 1024)
    &&& c.unity_heartbeat_stale_ms as nat == spec_env_positive(env_value(vars, "UNITY_HEARTBEAT_STALE_MS"@), u64::MAX as nat, 45_000)
    &&& c.execution_timeout_ms as nat == spec_env_positive(env_value(vars, "EXECUTION_TIMEOUT_MS"@), u64::MAX as nat, 20_000)
    &&& c.method_refresh_min_count as nat == spec_env_positive(env_value(vars, "QA_METHOD_REFRESH_MIN_COUNT"@), usize::MAX as nat, 5)
    &&& c.method_refresh_timeout_ms as nat == spec_env_positive(env_value(vars, "QA_METHOD_REFRESH_TIMEOUT_MS"@), u64::MAX as nat, 1_500)
    &&& crate::paths::opt_view(c.web_console_token) == spec_env_text(env_value(vars, "QA_WEB_CONSOLE_TOKEN"@))
    &&& c.client_dist_dir@ == match spec_env_text(env_value(vars, "QA_CLIENT_DIST_DIR"@)) {
        Some(d) => d,
        None => default_client_dist_dir,
    }
    &&& c.artifact_dir@ == match spec_env_text(env_value(vars, "QA_ARTIFACT_DIR"@)) {
        Some(d) => d,
        None => default_artifact_dir,
    }
    &&& c.artifact_max_bytes as nat == spec_env_positive(env_value(vars, "QA_ARTIFACT_MAX_BYTES"@), usize::MAX as nat, 20 * 1024 * 1024)
    &&& crate::paths::opt_view(c.log_dir) == spec_env_text(env_value(vars, "QA_LOG_DIR"@))
    &&& c.log_prefix@ == match spec_env_text(env_value(vars, "QA_LOG_PREFIX"@)) {
        Some(p) => p,
        None => "registerserver"@,
    }
    &&& c.archive_mysql_enabled == spec_env_bool(env_value(vars, "QA_EXECUTION_ARCHIVE_MYSQL_ENABLED"@), false)
    &&& crate::paths::opt_view(c.archive_mysql_url) == spec_env_text(env_value(vars, "QA_EXECUTION_ARCHIVE_MYSQL_URL"@))
    &&& c.archive_mysql_max_connections as nat == spec_env_positive(
        env_value(vars, "QA_EXECUTION_ARCHIVE_MYSQL_MAX_CONNECTIONS"@),
        u32::MAX as nat,
        5,
    )
    &&& c.archive_queue_size as nat == spec_env_positive(env_value(vars, "QA_EXECUTION_ARCHIVE_QUEUE_SIZE"@), usize::MAX as nat, 10_000)
}

fn text_or(value: Option<String>, fallback: &str) -> (r: String)
    ensures
        r@ == match crate::paths::opt_view(value) {
            Some(v) => v,
            None => fallback@,
        },
{
    match value {
        Some(v) => v,
        None => copy_str(fallback),
    }
}

impl Config {
    /// Reads the configuration from the environment's variables (`vars`).
    #[verifier::rlimit(40)]
    pub fn from_env(
        vars: &Vec<(String, String)>,
        listen_host: Option<IpAddress>,
        default_client_dist_dir: &str,
        default_artifact_dir: &str,
    ) -> (r: Config)
        ensures
            spec_config(r, var_views(vars@), listen_host, default_client_dist_dir@, default_artifact_dir@),
    {
        let scope_text = match lookup(vars, "QA_ACCESS_SCOPE") {
            Some(v) => v,
            None => "private",
        };
        Config {
            port: env_positive_u16(lookup(vars, "PORT"), 3000),
            listen_host: match listen_host {
                Some(h) => h,
                None => IpAddress::V4([0u8, 0u8, 0u8, 0u8]),
            },
            access_scope: AccessScope::from_env_value(scope_text),
            heartbeat_interval_ms: env_positive_u64(lookup(vars, "WS_HEARTBEAT_INTERVAL_MS"), 15_000),
            websocket_outbound_queue_size: env_positive_usize(lookup(vars, "QA_WS_OUTBOUND_QUEUE_SIZE"), 1024),
            unity_heartbeat_stale_ms: env_positive_u64(lookup(vars, "UNITY_HEARTBEAT_STALE_MS"), 45_000),
            execution_timeout_ms: env_positive_u64(lookup(vars, "EXECUTION_TIMEOUT_MS"), 20_000),
            method_refresh_min_count: env_positive_usize(lookup(vars, "QA_METHOD_REFRESH_MIN_COUNT"), 5),
            method_refresh_timeout_ms: env_positive_u64(lookup(vars, "QA_METHOD_REFRESH_TIMEOUT_MS"), 1_500),
            web_console_token: env_text(lookup(vars, "QA_WEB_CONSOLE_TOKEN")),
            client_dist_dir: text_or(env_text(lookup(vars, "QA_CLIENT_DIST_DIR")), default_client_dist_dir),
            artifact_dir: text_or(env_text(lookup(vars, "QA_ARTIFACT_DIR")), default_artifact_dir),
            artifact_max_bytes: env_positive_usize(lookup(vars, "QA_ARTIFACT_MAX_BYTES"), 20 * 1024 * 1024),
            log_dir: env_text(lookup(vars, "QA_LOG_DIR")),
            log_prefix: text_or(env_text(lookup(vars, "QA_LOG_PREFIX")), "registerserver"),
            archive_mysql_enabled: env_bool(lookup(vars, "QA_EXECUTION_ARCHIVE_MYSQL_ENABLED"), false),
            archive_mysql_url: env_text(lookup(vars, "QA_EXECUTION_ARCHIVE_MYSQL_URL")),
            archive_mysql_max_connections: env_positive_u32(lookup(vars, "QA_EXECUTION_ARCHIVE_MYSQL_MAX_CONNECTIONS"), 5),
            archive_queue_size: env_positive_usize(lookup(vars, "QA_EXECUTION_ARCHIVE_QUEUE_SIZE"), 10_000),
        }
    }
}

} // verus!
