use vstd::prelude::*;
use crate::json::{jget_str, json_entry_views, lemma_entry_views_new, JsonValue, JsonView};
use crate::json_text::compact_text;
use crate::server::execution::{first_matching_method, registered_method_matches};
use crate::server::public::{texts_json, texts_view};
use crate::server::state::{opt_str, strs, ControllerIdentity, ExecutionRecord, ExecutionStatus, ServerState, UnityClient};
use crate::server::util::{parse_rfc3339_micros, rfc3339_auto, spec_parse_rfc3339_micros, spec_rfc3339_auto};
use crate::text::{before_first, chars_of, copy_str, find_char, push_char, string_from_range, trim, trim_string};

verus! {

/// A row of the execution archive, in plain values. The execution's own JSON
/// is added by whoever writes the row.
#[derive(Debug)]
pub struct ArchiveRecord {
    pub request_id: String,
    pub sequence_id: Option<String>,
    pub step_id: Option<String>,
    pub step_index: Option<i64>,
    pub step_number: Option<i64>,
    pub total_steps: Option<i64>,
    pub client_id: String,
    pub client_name: Option<String>,
    pub client_ip: Option<String>,
    pub client_platform: Option<String>,
    pub unity_version: Option<String>,
    pub controller_id: Option<String>,
    pub controller_type: Option<String>,
    pub method_id: String,
    pub method_name: Option<String>,
    pub method_real_name: Option<String>,
    pub method_display_name: Option<String>,
    pub declaring_type: Option<String>,
    pub return_type: Option<String>,
    pub allow_parallel_execution: bool,
    pub status: ExecutionStatus,
    pub success: Option<bool>,
    pub duration_ms: Option<i64>,
    pub error_text: Option<String>,
    pub arguments_json: String,
    pub result_json: Option<String>,
    pub method_metadata_json: Option<String>,
    pub client_snapshot_json: Option<String>,
    /// When the execution started, in microseconds since the epoch.
    pub started_at: Option<i64>,
    /// When the execution finished, in microseconds since the epoch.
    pub finished_at: Option<i64>,
}

/// A text trimmed, or none when nothing is left.
pub open spec fn non_empty(s: Seq<char>) -> Option<Seq<char>> {
    let t = trim(s);
    if t.len() == 0 {
        None
    } else {
        Some(t)
    }
}

/// The first of two texts that is there.
pub open spec fn or_text(a: Option<Seq<char>>, b: Option<Seq<char>>) -> Option<Seq<char>> {
    if a is Some {
        a
    } else {
        b
    }
}

/// The part of `s` after its last `c`; all of `s` when it has none.
pub open spec fn after_last(s: Seq<char>, c: char) -> Seq<char>
    decreases s.len(),
{
    if s.len() == 0 {
        s
    } else if s.last() == c {
        Seq::empty()
    } else {
        after_last(s.drop_last(), c).push(s.last())
    }
}

/// The bare name of a method in an id or name such as `Type.Method(int)`:
/// what stands before the first `(` and after the last `.` before it,
/// trimmed; none when that is empty.
pub open spec fn real_name_from_text(v: Seq<char>) -> Option<Seq<char>> {
    non_empty(trim(after_last(before_first(v, '('), '.')))
}

/// The first of the members `names` of `m` that is a text.
pub open spec fn first_string_field(m: JsonView, names: Seq<Seq<char>>) -> Option<Seq<char>>
    decreases names.len(),
{
    if names.len() == 0 {
        None
    } else {
        match jget_str(m, names[0]) {
            Some(t) => Some(t),
            None => first_string_field(m, names.drop_first()),
        }
    }
}

/// That text, trimmed, when something is left of it.
pub open spec fn string_field(m: JsonView, names: Seq<Seq<char>>) -> Option<Seq<char>> {
    match first_string_field(m, names) {
        Some(t) => non_empty(t),
        None => None,
    }
}

/// The bare name of a registered method: from its `id` or `methodId`, else
/// its `methodName`.
pub open spec fn metadata_real_name(m: JsonView) -> Option<Seq<char>> {
    let from_id = match string_field(m, seq!["id"@, "methodId"@]) {
        Some(t) => real_name_from_text(t),
        None => None,
    };
    or_text(from_id, string_field(m, seq!["methodName"@]))
}

/// The client that ran the execution, when it is still registered.
pub open spec fn archive_client(s: ServerState, e: ExecutionRecord) -> Option<UnityClient> {
    if s.clients().dom().contains(e.client_id@) {
        Some(s.clients()[e.client_id@])
    } else {
        None
    }
}

/// The registered method that the execution ran, when its client still
/// registers one that it names.
pub open spec fn archive_metadata(s: ServerState, e: ExecutionRecord) -> Option<JsonView> {
    match archive_client(s, e) {
        Some(c) => first_matching_method(c.methods@, e.method_id@, e.method_name@),
        None => None,
    }
}

/// A member of the registered method, when there is one.
pub open spec fn metadata_field(meta: Option<JsonView>, names: Seq<Seq<char>>) -> Option<Seq<char>> {
    match meta {
        Some(m) => string_field(m, names),
        None => None,
    }
}

/// A text of the client, when there is one.
pub open spec fn client_text(client: Option<UnityClient>, f: spec_fn(UnityClient) -> Seq<char>) -> Option<Seq<char>> {
    match client {
        Some(c) => non_empty(f(c)),
        None => None,
    }
}

/// A count that fits in an `i64`.
pub open spec fn count_i64(v: Option<usize>) -> Option<i64> {
    match v {
        Some(n) => if n <= i64::MAX {
            Some(n as i64)
        } else {
            None
        },
        None => None,
    }
}

/// A duration that fits in an `i64`.
pub open spec fn duration_i64(v: Option<u64>) -> Option<i64> {
    match v {
        Some(n) => if n <= i64::MAX {
            Some(n as i64)
        } else {
            None
        },
        None => None,
    }
}

/// An instant as the archive keeps it: the RFC 3339 text read as microseconds.
pub open spec fn archive_time(t: Option<String>) -> Option<i64> {
    match t {
        Some(x) => spec_parse_rfc3339_micros(x@),
        None => None,
    }
}

/// What the archive keeps of the client that ran an execution.
pub open spec fn snapshot_view(c: UnityClient) -> JsonView {
    JsonView::Object(
        seq![
            ("clientId"@, JsonView::Str(c.client_id@)),
            ("name"@, JsonView::Str(c.name@)),
            ("ipAddress"@, JsonView::Str(c.ip_address@)),
            ("ipAddresses"@, texts_view(strs(c.ip_addresses@))),
            ("remoteAddress"@, JsonView::Str(c.remote_address@)),
            ("platform"@, JsonView::Str(c.platform@)),
            ("unityVersion"@, JsonView::Str(c.unity_version@)),
            ("deviceName"@, JsonView::Str(c.device_name@)),
            ("operatingSystem"@, JsonView::Str(c.operating_system@)),
            ("connectedAt"@, JsonView::Str(spec_rfc3339_auto(c.connected_at))),
            ("lastSeenAt"@, JsonView::Str(spec_rfc3339_auto(c.last_seen_at))),
            ("available"@, JsonView::Bool(c.available)),
            ("unavailableReason"@, JsonView::Str(c.unavailable_reason@)),
        ],
    )
}

/// The archive row of execution `e`, read against the server state `s` and
/// the controller that owns it, if known: the execution's own fields, the
/// client's name, address, platform and Unity version, the controller, the
/// method's id (else its name, else the request id), its bare name and the
/// display name, declaring type and return type that its registration gives,
/// the error when it is not empty, and the arguments, result, registration
/// and client as JSON text.
pub open spec fn is_archive_of(r: ArchiveRecord, s: ServerState, e: ExecutionRecord, controller: Option<ControllerIdentity>) -> bool {
    let client = archive_client(s, e);
    let meta = archive_metadata(s, e);
    let method_name = non_empty(e.method_name@);
    &&& r.request_id@ == e.request_id@
    &&& opt_str(r.sequence_id) == opt_str(e.sequence_id)
    &&& opt_str(r.step_id) == opt_str(e.step_id)
    &&& r.step_index == count_i64(e.step_index)
    &&& r.step_number == count_i64(e.step_number)
    &&& r.total_steps == count_i64(e.total_steps)
    &&& r.client_id@ == e.client_id@
    &&& opt_str(r.client_name) == client_text(client, |c: UnityClient| c.name@)
    &&& opt_str(r.client_ip) == client_text(client, |c: UnityClient| c.ip_address@)
    &&& opt_str(r.client_platform) == client_text(client, |c: UnityClient| c.platform@)
    &&& opt_str(r.unity_version) == client_text(client, |c: UnityClient| c.unity_version@)
    &&& opt_str(r.controller_id) == match controller {
        Some(k) => non_empty(k.id@),
        None => None,
    }
    &&& opt_str(r.controller_type) == match controller {
        Some(k) => non_empty(k.controller_type@),
        None => None,
    }
    &&& r.method_id@ == match or_text(non_empty(e.method_id@), method_name) {
        Some(t) => t,
        None => e.request_id@,
    }
    &&& opt_str(r.method_name) == method_name
    &&& opt_str(r.method_real_name) == or_text(
        or_text(
            match meta {
                Some(m) => metadata_real_name(m),
                None => None,
            },
            real_name_from_text(e.method_id@),
        ),
        real_name_from_text(e.method_name@),
    )
    &&& opt_str(r.method_display_name) == or_text(metadata_field(meta, seq!["name"@, "displayName"@]), method_name)
    &&& opt_str(r.declaring_type) == metadata_field(meta, seq!["declaringType"@])
    &&& opt_str(r.return_type) == metadata_field(meta, seq!["returnType"@])
    &&& r.allow_parallel_execution == e.allow_parallel_execution
    &&& r.status == e.status
    &&& r.success == e.success
    &&& r.duration_ms == duration_i64(e.duration_ms)
    &&& opt_str(r.error_text) == match e.error {
        Some(x) => if x@.len() > 0 {
            Some(x@)
        } else {
            None
        },
        None => None,
    }
    &&& r.arguments_json@ == compact_text(texts_view(strs(e.arguments@)))
    &&& opt_str(r.result_json) == match e.result {
        Some(v) => Some(compact_text(v@)),
        None => None,
    }
    &&& opt_str(r.method_metadata_json) == match meta {
        Some(m) => Some(compact_text(m)),
        None => None,
    }
    &&& opt_str(r.client_snapshot_json) == match client {
        Some(c) => Some(compact_text(snapshot_view(c))),
        None => None,
    }
    &&& r.started_at == archive_time(e.started_at)
    &&& r.finished_at == archive_time(e.finished_at)
}

fn non_empty_text(s: &str) -> (r: Option<String>)
    ensures
        opt_str(r) == non_empty(s@),
{
    let t = trim_string(s);
    if t.as_str().unicode_len() == 0 {
        None
    } else {
        Some(t)
    }
}

fn copy_opt(o: &Option<String>) -> (r: Option<String>)
    ensures
        opt_str(r) == opt_str(*o),
{
    match o {
        Some(t) => Some(copy_str(t.as_str())),
        None => None,
    }
}

fn or_string(a: Option<String>, b: Option<String>) -> (r: Option<String>)
    ensures
        opt_str(r) == or_text(opt_str(a), opt_str(b)),
{
    match a {
        Some(x) => Some(x),
        None => b,
    }
}

fn after_last_char(s: &str, c: char) -> (r: String)
    ensures
        r@ == after_last(s@, c),
{
    let v = chars_of(s);
    let mut out = String::new();
    let mut i: usize = 0;
    while i < v.len()
        invariant
            i <= v@.len(),
            v@ == s@,
            out@ == after_last(v@.take(i as int), c),
        decreases v@.len() - i,
    {
        let ghost t = v@.take(i + 1);
        assert(t.drop_last() =~= v@.take(i as int));
        assert(t.last() == v@[i as int]);
        if v[i] == c {
            out = String::new();
        } else {
            push_char(&mut out, v[i]);
        }
        i = i + 1;
    }
    assert(v@.take(v@.len() as int) =~= v@);
    out
}

fn before_first_char(s: &str, c: char) -> (r: String)
    ensures
        r@ == before_first(s@, c),
{
    let v = chars_of(s);
    proof {
        crate::text::lemma_index_of(v@, c);
    }
    let end = match find_char(&v, c) {
        Some(k) => k,
        None => v.len(),
    };
    let r = string_from_range(&v, 0, end);
    assert(r@ == before_first(s@, c)) by {
        if crate::text::index_of(v@, c) is None {
            assert(v@.subrange(0, v@.len() as int) == v@);
        }
    }
    r
}

fn real_name_of(v: &str) -> (r: Option<String>)
    ensures
        opt_str(r) == real_name_from_text(v@),
{
    let before = before_first_char(v, '(');
    let after = after_last_char(before.as_str(), '.');
    let t = trim_string(after.as_str());
    non_empty_text(t.as_str())
}

fn field_of(m: &JsonValue, names: &Vec<&str>) -> (r: Option<String>)
    ensures
        opt_str(r) == string_field(m@, names@.map_values(|n: &str| n@)),
{
    let ghost ns = names@.map_values(|n: &str| n@);
    assert(ns.skip(0) =~= ns);
    let mut i: usize = 0;
    while i < names.len()
        invariant
            i <= names@.len(),
            ns == names@.map_values(|n: &str| n@),
            first_string_field(m@, ns) == first_string_field(m@, ns.skip(i as int)),
        decreases names@.len() - i,
    {
        let ghost rest = ns.skip(i as int);
        assert(rest[0] == names@[i as int]@);
        assert(rest.drop_first() =~= ns.skip(i + 1));
        match m.get_str(names[i]) {
            Some(t) => {
                return non_empty_text(t);
            },
            None => {},
        }
        i = i + 1;
    }
    assert(ns.skip(i as int).len() == 0);
    None
}

fn metadata_real_name_of(m: &JsonValue) -> (r: Option<String>)
    ensures
        opt_str(r) == metadata_real_name(m@),
{
    let ids = vec!["id", "methodId"];
    let names = vec!["methodName"];
    proof {
        assert(ids@.map_values(|n: &str| n@) =~= seq!["id"@, "methodId"@]);
        assert(names@.map_values(|n: &str| n@) =~= seq!["methodName"@]);
    }
    let from_id = match field_of(m, &ids) {
        Some(t) => real_name_of(t.as_str()),
        None => None,
    };
    or_string(from_id, field_of(m, &names))
}

fn meta_field(meta: Option<&JsonValue>, names: Vec<&str>) -> (r: Option<String>)
    ensures
        opt_str(r) == metadata_field(crate::json::opt_json_view(meta), names@.map_values(|n: &str| n@)),
{
    match meta {
        Some(m) => field_of(m, &names),
        None => None,
    }
}

fn count_of(v: Option<usize>) -> (r: Option<i64>)
    ensures
        r == count_i64(v),
{
    match v {
        Some(n) => if n as u64 <= 9223372036854775807u64 {
            Some(n as i64)
        } else {
            None
        },
        None => None,
    }
}

fn time_of(t: &Option<String>) -> (r: Option<i64>)
    ensures
        r == archive_time(*t),
{
    match t {
        Some(x) => parse_rfc3339_micros(x.as_str()),
        None => None,
    }
}

fn text_value(s: &str) -> (r: JsonValue)
    ensures
        r@ == JsonView::Str(s@),
{
    JsonValue::String(copy_str(s))
}

fn entry(k: &str, v: JsonValue) -> (r: (String, JsonValue))
    ensures
        r.0@ == k@,
        r.1 == v,
{
    (copy_str(k), v)
}

fn snapshot_json(c: &UnityClient) -> (r: JsonValue)
    ensures
        r@ == snapshot_view(*c),
{
    let connected = rfc3339_auto(c.connected_at);
    let seen = rfc3339_auto(c.last_seen_at);
    let entries = vec![
        entry("clientId", text_value(c.client_id.as_str())),
        entry("name", text_value(c.name.as_str())),
        entry("ipAddress", text_value(c.ip_address.as_str())),
        entry("ipAddresses", texts_json(&c.ip_addresses)),
        entry("remoteAddress", text_value(c.remote_address.as_str())),
        entry("platform", text_value(c.platform.as_str())),
        entry("unityVersion", text_value(c.unity_version.as_str())),
        entry("deviceName", text_value(c.device_name.as_str())),
        entry("operatingSystem", text_value(c.operating_system.as_str())),
        entry("connectedAt", JsonValue::String(connected)),
        entry("lastSeenAt", JsonValue::String(seen)),
        entry("available", JsonValue::Bool(c.available)),
        entry("unavailableReason", text_value(c.unavailable_reason.as_str())),
    ];
    proof {
        lemma_entry_views_new(entries@);
        assert(json_entry_views(entries@) =~= snapshot_view(*c)->Object_0);
    }
    JsonValue::Object(entries)
}

fn first_method_index(ms: &Vec<JsonValue>, mid: &str, mname: &str) -> (r: Option<usize>)
    ensures
        match r {
            Some(j) => j < ms@.len() && first_matching_method(ms@, mid@, mname@) == Some(ms@[j as int]@),
            None => first_matching_method(ms@, mid@, mname@) is None,
        },
{
    let mut j: usize = 0;
    assert(ms@.subrange(0, ms@.len() as int) == ms@);
    while j < ms.len()
        invariant
            j <= ms@.len(),
            first_matching_method(ms@, mid@, mname@) == first_matching_method(
                ms@.subrange(j as int, ms@.len() as int),
                mid@,
                mname@,
            ),
        decreases ms@.len() - j,
    {
        let ghost t = ms@.subrange(j as int, ms@.len() as int);
        assert(t[0] == ms@[j as int]);
        assert(t.drop_first() == ms@.subrange(j + 1, ms@.len() as int));
        if registered_method_matches(&ms[j], mid, mname) {
            return Some(j);
        }
        j = j + 1;
    }
    assert(ms@.subrange(j as int, ms@.len() as int).len() == 0);
    None
}

fn controller_text(controller: Option<&ControllerIdentity>, id: bool) -> (r: Option<String>)
    ensures
        opt_str(r) == match controller {
            Some(k) => non_empty(if id { k.id@ } else { k.controller_type@ }),
            None => None,
        },
{
    match controller {
        Some(k) => if id {
            non_empty_text(k.id.as_str())
        } else {
            non_empty_text(k.controller_type.as_str())
        },
        None => None,
    }
}

impl ArchiveRecord {
    /// The archive row of `execution`, read against the server state and the
    /// controller that owns the execution, if known.
    #[verifier::rlimit(40)]
    pub fn from_execution(s: &ServerState, execution: &ExecutionRecord, controller: Option<&ControllerIdentity>) -> (r: ArchiveRecord)
        requires
            s.wf(),
        ensures
            is_archive_of(
                r,
                *s,
                *execution,
                match controller {
                    Some(k) => Some(*k),
                    None => None,
                },
            ),
    {
        let e = execution;
        let client: Option<&UnityClient> = match s.find_client(e.client_id.as_str()) {
            Some(i) => Some(&s.unity_clients[i]),
            None => None,
        };
        let ghost cv: Option<UnityClient> = match client {
            Some(c) => Some(*c),
            None => None,
        };
        assert(cv == archive_client(*s, *e));
        let meta: Option<&JsonValue> = match client {
            Some(c) => match first_method_index(&c.methods, e.method_id.as_str(), e.method_name.as_str()) {
                Some(j) => Some(&c.methods[j]),
                None => None,
            },
            None => None,
        };
        let ghost mv = crate::json::opt_json_view(meta);
        assert(mv == archive_metadata(*s, *e));
        let method_name = non_empty_text(e.method_name.as_str());
        let method_id = match non_empty_text(e.method_id.as_str()) {
            Some(t) => t,
            None => match non_empty_text(e.method_name.as_str()) {
                Some(t) => t,
                None => e.request_id.clone(),
            },
        };
        let from_meta = match meta {
            Some(m) => metadata_real_name_of(m),
            None => None,
        };
        let method_real_name = or_string(
            or_string(from_meta, real_name_of(e.method_id.as_str())),
            real_name_of(e.method_name.as_str()),
        );
        let display_names = vec!["name", "displayName"];
        let declaring_names = vec!["declaringType"];
        let return_names = vec!["returnType"];
        proof {
            assert(display_names@.map_values(|n: &str| n@) =~= seq!["name"@, "displayName"@]);
            assert(declaring_names@.map_values(|n: &str| n@) =~= seq!["declaringType"@]);
            assert(return_names@.map_values(|n: &str| n@) =~= seq!["returnType"@]);
        }
        let display = meta_field(meta, display_names);
        let method_display_name = match display {
            Some(t) => Some(t),
            None => match &method_name {
                Some(t) => Some(t.clone()),
                None => None,
            },
        };
        let declaring_type = meta_field(meta, declaring_names);
        let return_type = meta_field(meta, return_names);
        let (client_name, client_ip, client_platform, unity_version, client_snapshot_json) = match client {
            Some(c) => (
                non_empty_text(c.name.as_str()),
                non_empty_text(c.ip_address.as_str()),
                non_empty_text(c.platform.as_str()),
                non_empty_text(c.unity_version.as_str()),
                Some(snapshot_json(c).to_compact_text()),
            ),
            None => (None, None, None, None, None),
        };
        let error_text = match &e.error {
            Some(x) => if x.as_str().unicode_len() > 0 {
                Some(x.clone())
            } else {
                None
            },
            None => None,
        };
        let duration_ms = match e.duration_ms {
            Some(n) => if n <= 9223372036854775807u64 {
                Some(n as i64)
            } else {
                None
            },
            None => None,
        };
        let result_json = match &e.result {
            Some(v) => Some(v.to_compact_text()),
            None => None,
        };
        let method_metadata_json = match meta {
            Some(m) => Some(m.to_compact_text()),
            None => None,
        };
        ArchiveRecord {
            request_id: e.request_id.clone(),
            sequence_id: copy_opt(&e.sequence_id),
            step_id: copy_opt(&e.step_id),
            step_index: count_of(e.step_index),
            step_number: count_of(e.step_number),
            total_steps: count_of(e.total_steps),
            client_id: e.client_id.clone(),
            client_name,
            client_ip,
            client_platform,
            unity_version,
            controller_id: controller_text(controller, true),
            controller_type: controller_text(controller, false),
            method_id,
            method_name,
            method_real_name,
            method_display_name,
            declaring_type,
            return_type,
            allow_parallel_execution: e.allow_parallel_execution,
            status: e.status,
            success: e.success,
            duration_ms,
            error_text,
            arguments_json: texts_json(&e.arguments).to_compact_text(),
            result_json,
            method_metadata_json,
            client_snapshot_json,
            started_at: time_of(&e.started_at),
            finished_at: time_of(&e.finished_at),
        }
    }
}

} // verus!
