use vstd::prelude::*;
use vstd::string::StrSliceExecFns;
use crate::paths::{file_name, file_name_exec, join_path, join_path_exec};
use crate::json::{entries_without, jget, jget_str, object_entries, opt_json_view, JsonValue, JsonView};
use crate::qa::api::array_or_empty;
use crate::text::{
    chars_of, concat3, copy_str, spec_to_lowercase, split_char, str_eq, to_lowercase, trim,
    trim_string,
};

verus! {

/// The name a downloaded artifact is saved under when none can be had.
pub open spec fn default_artifact_file_name() -> Seq<char> {
    "artifact.bin"@
}

/// Whether a save path names a directory by its last character: `/` or `\`.
pub open spec fn spec_looks_like_directory_path(value: Seq<char>) -> bool {
    value.len() > 0 && (value.last() == '/' || value.last() == '\\')
}

pub fn looks_like_directory_path(value: &str) -> (r: bool)
    ensures
        r == spec_looks_like_directory_path(value@),
{
    let v = chars_of(value);
    v.len() > 0 && (v[v.len() - 1] == '/' || v[v.len() - 1] == '\\')
}

/// A local file name from a name the server gave: its last path component,
/// or `artifact.bin` where that is missing or blank.
pub open spec fn local_file_name(value: Seq<char>) -> Seq<char> {
    let t = trim(value);
    if t.len() == 0 {
        default_artifact_file_name()
    } else {
        match file_name(t) {
            Some(n) if trim(n).len() > 0 => n,
            _ => default_artifact_file_name(),
        }
    }
}

pub fn sanitize_local_file_name(value: &str) -> (r: String)
    ensures
        r@ == local_file_name(value@),
{
    let t = trim_string(value);
    if t.as_str().unicode_len() == 0 {
        return copy_str("artifact.bin");
    }
    match file_name_exec(t.as_str()) {
        Some(n) => {
            let nt = trim_string(n.as_str());
            if nt.as_str().unicode_len() > 0 {
                n
            } else {
                copy_str("artifact.bin")
            }
        },
        None => copy_str("artifact.bin"),
    }
}

/// Where a downloaded artifact goes: under the trimmed save path when it is an
/// existing directory (`path_is_dir`) or ends like one, under the local file
/// name; else the save path itself. A blank save path is an error.
pub open spec fn save_path_for(save_path: Seq<char>, file: Seq<char>, path_is_dir: bool) -> Result<Seq<char>, Seq<char>> {
    let t = trim(save_path);
    if t.len() == 0 {
        Err("savePath is required."@)
    } else if path_is_dir || spec_looks_like_directory_path(t) {
        Ok(join_path(t, local_file_name(file)))
    } else {
        Ok(t)
    }
}

/// `path_is_dir` says whether the trimmed save path names an existing
/// directory.
pub fn resolve_save_path(save_path: &str, file_name: &str, path_is_dir: bool) -> (r: Result<String, String>)
    ensures
        match save_path_for(save_path@, file_name@, path_is_dir) {
            Ok(p) => r is Ok && r->Ok_0@ == p,
            Err(e) => r is Err && r->Err_0@ == e,
        },
{
    let t = trim_string(save_path);
    if t.as_str().unicode_len() == 0 {
        return Err(copy_str("savePath is required."));
    }
    if path_is_dir || looks_like_directory_path(t.as_str()) {
        let name = sanitize_local_file_name(file_name);
        return Ok(join_path_exec(t.as_str(), name.as_str()));
    }
    Ok(t)
}

/// A value that counts as missing: null, or a blank string.
pub open spec fn spec_is_empty_json_value(v: JsonView) -> bool {
    match v {
        JsonView::Null => true,
        JsonView::Str(t) => trim(t).len() == 0,
        _ => false,
    }
}

pub fn is_empty_json_value(v: &JsonValue) -> (r: bool)
    ensures
        r == spec_is_empty_json_value(v@),
{
    match v {
        JsonValue::Null => true,
        JsonValue::String(t) => trim_string(t.as_str()).as_str().unicode_len() == 0,
        _ => false,
    }
}

/// The first candidate that is there and not empty.
pub open spec fn first_present(vs: Seq<Option<JsonView>>) -> Option<JsonView>
    decreases vs.len(),
{
    if vs.len() == 0 {
        None
    } else {
        match vs[0] {
            Some(v) if !spec_is_empty_json_value(v) => Some(v),
            _ => first_present(vs.drop_first()),
        }
    }
}

pub open spec fn opt_views(vs: Seq<Option<&JsonValue>>) -> Seq<Option<JsonView>> {
    vs.map_values(|o: Option<&JsonValue>| opt_json_view(o))
}

pub fn first_value<'a>(values: &Vec<Option<&'a JsonValue>>) -> (r: Option<&'a JsonValue>)
    ensures
        opt_json_view(r) == first_present(opt_views(values@)),
{
    let mut i: usize = 0;
    assert(opt_views(values@).subrange(0, values@.len() as int) =~= opt_views(values@));
    while i < values.len()
        invariant
            i <= values@.len(),
            first_present(opt_views(values@)) == first_present(opt_views(values@).subrange(i as int, values@.len() as int)),
        decreases values@.len() - i,
    {
        let ghost rest = opt_views(values@).subrange(i as int, values@.len() as int);
        assert(rest.drop_first() =~= opt_views(values@).subrange(i + 1, values@.len() as int));
        assert(rest[0] == opt_json_view(values@[i as int]));
        match values[i] {
            Some(v) => {
                if !is_empty_json_value(v) {
                    return Some(v);
                }
            },
            None => {},
        }
        i = i + 1;
    }
    None
}

/// A member of an optional value.
pub open spec fn jget_opt(v: Option<JsonView>, key: Seq<char>) -> Option<JsonView> {
    match v {
        Some(x) => jget(x, key),
        None => None,
    }
}

/// A member of the `artifact` member.
pub open spec fn nested(artifact: JsonView, key: Seq<char>) -> Option<JsonView> {
    jget_opt(jget(artifact, "artifact"@), key)
}

/// One member when the value is there.
pub open spec fn opt_entry(key: Seq<char>, v: Option<JsonView>) -> Seq<(Seq<char>, JsonView)> {
    match v {
        Some(x) => seq![(key, x)],
        None => Seq::empty(),
    }
}

/// The summary of a captured screenshot: success, and of each field the first
/// value that is not empty among the download's and the artifact's, in key
/// order; fields with no such value are left out.
pub open spec fn screenshot_summary(artifact: JsonView, download: JsonView) -> JsonView {
    JsonView::Object(
        opt_entry("artifactId"@, first_present(seq![jget(artifact, "artifactId"@), nested(artifact, "artifactId"@)]))
            + opt_entry("clientId"@, first_present(seq![jget(artifact, "clientId"@)]))
            + opt_entry("clientName"@, first_present(seq![jget(artifact, "clientName"@)]))
            + opt_entry(
            "fileName"@,
            first_present(seq![jget(download, "fileName"@), jget(artifact, "fileName"@), nested(artifact, "fileName"@)]),
        ) + opt_entry("height"@, first_present(seq![jget(artifact, "height"@)]))
            + opt_entry("savedPath"@, first_present(seq![jget(download, "savedPath"@)]))
            + opt_entry(
            "sha256"@,
            first_present(seq![jget(download, "sha256"@), jget(artifact, "sha256"@), nested(artifact, "sha256"@)]),
        ) + opt_entry(
            "sizeBytes"@,
            first_present(
                seq![
                    jget(download, "sizeBytes"@),
                    jget(artifact, "sizeBytes"@),
                    jget(artifact, "pngSizeBytes"@),
                    nested(artifact, "sizeBytes"@),
                ],
            ),
        ) + seq![("status"@, JsonView::Str("success"@)), ("success"@, JsonView::Bool(true))]
            + opt_entry("width"@, first_present(seq![jget(artifact, "width"@)])),
    )
}

fn get_nested<'a>(artifact: &'a JsonValue, key: &str) -> (r: Option<&'a JsonValue>)
    ensures
        opt_json_view(r) == nested(artifact@, key@),
{
    match artifact.get("artifact") {
        Some(a) => a.get(key),
        None => None,
    }
}

fn push_optional(entries: &mut Vec<(String, JsonValue)>, key: &str, values: Vec<Option<&JsonValue>>)
    ensures
        crate::json::json_entry_views(final(entries)@) == crate::json::json_entry_views(old(entries)@) + opt_entry(
            key@,
            first_present(opt_views(values@)),
        ),
{
    let ghost before = entries@;
    match first_value(&values) {
        Some(v) => {
            entries.push((copy_str(key), v.copy()));
            assert(entries@.drop_last() =~= before);
        },
        None => {
            assert(crate::json::json_entry_views(entries@) + opt_entry(key@, None) =~= crate::json::json_entry_views(entries@));
        },
    }
}

/// Sums up a captured screenshot from the artifact's metadata and the download.
#[verifier::rlimit(40)]
pub fn build_screenshot_summary(artifact: &JsonValue, download: &JsonValue) -> (r: JsonValue)
    ensures
        r@ == screenshot_summary(artifact@, download@),
{
    let mut es: Vec<(String, JsonValue)> = Vec::new();
    let c1 = vec![artifact.get("artifactId"), get_nested(artifact, "artifactId")];
    assert(opt_views(c1@) =~= seq![jget(artifact@, "artifactId"@), nested(artifact@, "artifactId"@)]);
    push_optional(&mut es, "artifactId", c1);
    let c2 = vec![artifact.get("clientId")];
    assert(opt_views(c2@) =~= seq![jget(artifact@, "clientId"@)]);
    push_optional(&mut es, "clientId", c2);
    let c3 = vec![artifact.get("clientName")];
    assert(opt_views(c3@) =~= seq![jget(artifact@, "clientName"@)]);
    push_optional(&mut es, "clientName", c3);
    let c4 = vec![download.get("fileName"), artifact.get("fileName"), get_nested(artifact, "fileName")];
    assert(opt_views(c4@) =~= seq![jget(download@, "fileName"@), jget(artifact@, "fileName"@), nested(artifact@, "fileName"@)]);
    push_optional(&mut es, "fileName", c4);
    let c5 = vec![artifact.get("height")];
    assert(opt_views(c5@) =~= seq![jget(artifact@, "height"@)]);
    push_optional(&mut es, "height", c5);
    let c6 = vec![download.get("savedPath")];
    assert(opt_views(c6@) =~= seq![jget(download@, "savedPath"@)]);
    push_optional(&mut es, "savedPath", c6);
    let c7 = vec![download.get("sha256"), artifact.get("sha256"), get_nested(artifact, "sha256")];
    assert(opt_views(c7@) =~= seq![jget(download@, "sha256"@), jget(artifact@, "sha256"@), nested(artifact@, "sha256"@)]);
    push_optional(&mut es, "sha256", c7);
    let c8 = vec![
        download.get("sizeBytes"),
        artifact.get("sizeBytes"),
        artifact.get("pngSizeBytes"),
        get_nested(artifact, "sizeBytes"),
    ];
    assert(opt_views(c8@) =~= seq![
        jget(download@, "sizeBytes"@),
        jget(artifact@, "sizeBytes"@),
        jget(artifact@, "pngSizeBytes"@),
        nested(artifact@, "sizeBytes"@),
    ]);
    push_optional(&mut es, "sizeBytes", c8);
    let ghost before = es@;
    let e1 = (copy_str("status"), JsonValue::String(copy_str("success")));
    es.push(e1);
    assert(es@.last() == e1);
    let ghost mid = es@;
    let e2 = (copy_str("success"), JsonValue::Bool(true));
    es.push(e2);
    assert(es@.last() == e2);
    proof {
        assert(es@.drop_last() =~= mid);
        assert(mid.drop_last() =~= before);
        assert(mid.len() > 0);
        assert(mid.last().0@ == "status"@);
        assert(crate::json::json_view(mid.last().1) == JsonView::Str("success"@));
        assert(crate::json::json_entry_views(mid) == crate::json::json_entry_views(before).push(("status"@, JsonView::Str("success"@))));
        assert(es@.len() > 0);
        assert(es@.last().0@ == "success"@);
        assert(crate::json::json_view(es@.last().1) == JsonView::Bool(true));
        assert(crate::json::json_entry_views(es@) == crate::json::json_entry_views(mid).push(("success"@, JsonView::Bool(true))));
        assert(crate::json::json_entry_views(es@) =~= crate::json::json_entry_views(before) + seq![
            ("status"@, JsonView::Str("success"@)),
            ("success"@, JsonView::Bool(true)),
        ]);
    }
    let c9 = vec![artifact.get("width")];
    assert(opt_views(c9@) =~= seq![jget(artifact@, "width"@)]);
    push_optional(&mut es, "width", c9);
    JsonValue::Object(es)
}

/// How a search hit was picked as the screenshot method.
#[derive(Clone, Copy, Debug, PartialEq, Eq, Structural)]
pub enum CandidateKind {
    MethodName,
    ShortMethodId,
    MethodId,
    SearchFirst,
}

impl CandidateKind {
    pub open spec fn spec_tag(self) -> Seq<char> {
        match self {
            CandidateKind::MethodName => "methodName"@,
            CandidateKind::ShortMethodId => "shortMethodId"@,
            CandidateKind::MethodId => "methodId"@,
            CandidateKind::SearchFirst => "searchFirst"@,
        }
    }

    pub fn tag(self) -> (r: &'static str)
        ensures
            r@ == self.spec_tag(),
    {
        match self {
            CandidateKind::MethodName => "methodName",
            CandidateKind::ShortMethodId => "shortMethodId",
            CandidateKind::MethodId => "methodId",
            CandidateKind::SearchFirst => "searchFirst",
        }
    }
}

/// Whether a method's name, short id or id, trimmed and lowercased, is `q`.
pub open spec fn candidate_matches(m: JsonView, kind: CandidateKind, q: Seq<char>) -> bool {
    match kind {
        CandidateKind::MethodName => match jget_str(m, "methodName"@) {
            Some(v) => spec_to_lowercase(trim(v)) == q,
            None => false,
        },
        CandidateKind::ShortMethodId => match jget_str(m, "methodId"@) {
            Some(v) => spec_to_lowercase(crate::cli::simple_method_id(v)) == q,
            None => false,
        },
        CandidateKind::MethodId => match jget_str(m, "methodId"@) {
            Some(v) => spec_to_lowercase(trim(v)) == q,
            None => false,
        },
        CandidateKind::SearchFirst => true,
    }
}

/// The first method that matches.
pub open spec fn first_candidate(ms: Seq<JsonView>, kind: CandidateKind, q: Seq<char>) -> Option<int>
    decreases ms.len(),
{
    if ms.len() == 0 {
        None
    } else {
        match first_candidate(ms.drop_last(), kind, q) {
            Some(i) => Some(i),
            None => if candidate_matches(ms.last(), kind, q) {
                Some(ms.len() - 1)
            } else {
                None
            },
        }
    }
}

/// A method marked with how it was picked (`_qamcpMatchType`); a value that
/// is no object counts as an empty one.
pub open spec fn tagged_candidate(m: JsonView, kind: CandidateKind) -> JsonView {
    JsonView::Object(
        entries_without(object_entries(m), "_qamcpMatchType"@).push(("_qamcpMatchType"@, JsonView::Str(kind.spec_tag()))),
    )
}

/// The screenshot method picked among search hits: the first whose name is
/// the query, else the first whose short id is, else the first whose id is,
/// else the first hit; none when there are no hits. The comparisons are on
/// trimmed, lowercased text.
pub open spec fn spec_select_candidate(ms: Seq<JsonView>, query: Seq<char>) -> Option<JsonView> {
    let q = spec_to_lowercase(trim(query));
    match first_candidate(ms, CandidateKind::MethodName, q) {
        Some(i) => Some(tagged_candidate(ms[i], CandidateKind::MethodName)),
        None => match first_candidate(ms, CandidateKind::ShortMethodId, q) {
            Some(i) => Some(tagged_candidate(ms[i], CandidateKind::ShortMethodId)),
            None => match first_candidate(ms, CandidateKind::MethodId, q) {
                Some(i) => Some(tagged_candidate(ms[i], CandidateKind::MethodId)),
                None => if ms.len() > 0 {
                    Some(tagged_candidate(ms[0], CandidateKind::SearchFirst))
                } else {
                    None
                },
            },
        },
    }
}

proof fn lemma_first_candidate_bound(ms: Seq<JsonView>, kind: CandidateKind, q: Seq<char>)
    ensures
        first_candidate(ms, kind, q) matches Some(i) ==> 0 <= i < ms.len(),
    decreases ms.len(),
{
    if ms.len() > 0 {
        lemma_first_candidate_bound(ms.drop_last(), kind, q);
    }
}

fn candidate_matches_exec(m: &JsonValue, kind: CandidateKind, q: &str) -> (r: bool)
    ensures
        r == candidate_matches(m@, kind, q@),
{
    match kind {
        CandidateKind::MethodName => match m.get_str("methodName") {
            Some(v) => {
                let t = trim_string(v);
                let l = to_lowercase(t.as_str());
                str_eq(l.as_str(), q)
            },
            None => false,
        },
        CandidateKind::ShortMethodId => match m.get_str("methodId") {
            Some(v) => {
                let t = crate::cli::simplify_method_id(v);
                let l = to_lowercase(t.as_str());
                str_eq(l.as_str(), q)
            },
            None => false,
        },
        CandidateKind::MethodId => match m.get_str("methodId") {
            Some(v) => {
                let t = trim_string(v);
                let l = to_lowercase(t.as_str());
                str_eq(l.as_str(), q)
            },
            None => false,
        },
        CandidateKind::SearchFirst => true,
    }
}

fn find_candidate(ms: &Vec<JsonValue>, kind: CandidateKind, q: &str) -> (r: Option<usize>)
    ensures
        match r {
            Some(k) => first_candidate(crate::json::json_views(ms@), kind, q@) == Some(k as int) && k < ms@.len(),
            None => first_candidate(crate::json::json_views(ms@), kind, q@) is None,
        },
{
    let ghost mv = crate::json::json_views(ms@);
    proof {
        crate::json::lemma_json_views_len(ms@);
    }
    let mut i: usize = 0;
    while i < ms.len()
        invariant
            i <= ms@.len(),
            mv == crate::json::json_views(ms@),
            mv.len() == ms@.len(),
            first_candidate(mv.subrange(0, i as int), kind, q@) is None,
        decreases ms@.len() - i,
    {
        proof {
            crate::json::lemma_json_views_index(ms@, i as int);
            let a = mv.subrange(0, i + 1);
            assert(a.drop_last() =~= mv.subrange(0, i as int));
            assert(a.last() == ms@[i as int]@);
        }
        if candidate_matches_exec(&ms[i], kind, q) {
            proof {
                lemma_first_candidate_prefix(mv, kind, q@, i + 1);
            }
            return Some(i);
        }
        i = i + 1;
    }
    assert(mv.subrange(0, ms@.len() as int) =~= mv);
    None
}

/// A match in a prefix is the match of the whole.
proof fn lemma_first_candidate_prefix(ms: Seq<JsonView>, kind: CandidateKind, q: Seq<char>, n: int)
    requires
        0 <= n <= ms.len(),
        first_candidate(ms.subrange(0, n), kind, q) is Some,
    ensures
        first_candidate(ms, kind, q) == first_candidate(ms.subrange(0, n), kind, q),
    decreases ms.len(),
{
    if n == ms.len() {
        assert(ms.subrange(0, n) =~= ms);
    } else {
        assert(ms.drop_last().subrange(0, n) =~= ms.subrange(0, n));
        lemma_first_candidate_prefix(ms.drop_last(), kind, q, n);
    }
}

fn tag_candidate(m: &JsonValue, kind: CandidateKind) -> (r: JsonValue)
    ensures
        r@ == tagged_candidate(m@, kind),
{
    let empty: Vec<(String, JsonValue)> = Vec::new();
    let es = match m {
        JsonValue::Object(es) => es,
        _ => &empty,
    };
    assert(crate::json::json_entry_views(es@) == object_entries(m@));
    JsonValue::Object(crate::json::with_member(es, "_qamcpMatchType", JsonValue::String(copy_str(kind.tag()))))
}

/// Picks the screenshot method among the hits of a search for `query`.
pub fn select_method_candidate(methods: &Vec<JsonValue>, query: &str) -> (r: Option<JsonValue>)
    ensures
        crate::server::state::opt_json(r) == spec_select_candidate(crate::json::json_views(methods@), query@),
{
    let ghost mv = crate::json::json_views(methods@);
    proof {
        crate::json::lemma_json_views_len(methods@);
        lemma_first_candidate_bound(mv, CandidateKind::MethodName, spec_to_lowercase(trim(query@)));
        lemma_first_candidate_bound(mv, CandidateKind::ShortMethodId, spec_to_lowercase(trim(query@)));
        lemma_first_candidate_bound(mv, CandidateKind::MethodId, spec_to_lowercase(trim(query@)));
    }
    let t = trim_string(query);
    let q = to_lowercase(t.as_str());
    assert(q@ == spec_to_lowercase(trim(query@)));
    if let Some(i) = find_candidate(methods, CandidateKind::MethodName, q.as_str()) {
        proof {
            crate::json::lemma_json_views_index(methods@, i as int);
        }
        let r = tag_candidate(&methods[i], CandidateKind::MethodName);
        assert(first_candidate(mv, CandidateKind::MethodName, q@) == Some(i as int));
        assert(r@ == tagged_candidate(mv[i as int], CandidateKind::MethodName));
        return Some(r);
    }
    if let Some(i) = find_candidate(methods, CandidateKind::ShortMethodId, q.as_str()) {
        proof {
            crate::json::lemma_json_views_index(methods@, i as int);
        }
        return Some(tag_candidate(&methods[i], CandidateKind::ShortMethodId));
    }
    if let Some(i) = find_candidate(methods, CandidateKind::MethodId, q.as_str()) {
        proof {
            crate::json::lemma_json_views_index(methods@, i as int);
        }
        return Some(tag_candidate(&methods[i], CandidateKind::MethodId));
    }
    if methods.len() > 0 {
        proof {
            crate::json::lemma_json_views_index(methods@, 0);
        }
        return Some(tag_candidate(&methods[0], CandidateKind::SearchFirst));
    }
    None
}

pub open spec fn missing_field_message(key: Seq<char>) -> Seq<char> {
    "Selected screenshot method is missing "@ + key + "."@
}

/// A string member that is not blank, trimmed.
pub open spec fn spec_required_field(method: JsonView, key: Seq<char>) -> Result<Seq<char>, Seq<char>> {
    match jget_str(method, key) {
        Some(v) if trim(v).len() > 0 => Ok(trim(v)),
        _ => Err(missing_field_message(key)),
    }
}

pub fn required_method_field(method: &JsonValue, key: &str) -> (r: Result<String, String>)
    ensures
        match spec_required_field(method@, key@) {
            Ok(v) => r matches Ok(x) && x@ == v,
            Err(e) => r matches Err(x) && x@ == e,
        },
{
    if let Some(v) = method.get_str(key) {
        let t = trim_string(v);
        if t.as_str().unicode_len() > 0 {
            return Ok(t);
        }
    }
    Err(concat3("Selected screenshot method is missing ", key, "."))
}

/// The method a screenshot runs.
#[derive(Debug)]
pub struct SelectedMethod {
    pub method_id: String,
    pub method_name: Option<String>,
}

/// The searches tried, in order, to find the screenshot method.
pub fn screenshot_method_queries() -> (r: Vec<&'static str>)
    ensures
        r@.len() == 2,
        r@[0]@ == "CaptureScreenshotToRegister"@,
        r@[1]@ == "截图上传到register"@,
{
    vec!["CaptureScreenshotToRegister", "截图上传到register"]
}

/// What the search for one query gives: no method when it had no hits, else
/// the picked method's trimmed id (an error when it has none) and its name
/// when that is a non-empty string.
pub open spec fn spec_screenshot_method(data: JsonView, query: Seq<char>) -> Option<Result<(Seq<char>, Option<Seq<char>>), Seq<char>>> {
    match spec_select_candidate(array_or_empty(data, "methods"@), query) {
        None => None,
        Some(m) => match spec_required_field(m, "methodId"@) {
            Err(e) => Some(Err(e)),
            Ok(id) => Some(
                Ok(
                    (
                        id,
                        match jget_str(m, "methodName"@) {
                            Some(n) if n.len() > 0 => Some(n),
                            _ => None,
                        },
                    ),
                ),
            ),
        },
    }
}

/// Picks the screenshot method from the answer to a search.
pub fn screenshot_method_from(data: &JsonValue, query: &str) -> (r: Option<Result<SelectedMethod, String>>)
    ensures
        match spec_screenshot_method(data@, query@) {
            None => r is None,
            Some(Err(e)) => r matches Some(Err(x)) && x@ == e,
            Some(Ok((id, name))) => r matches Some(Ok(m)) && m.method_id@ == id
                && crate::server::state::opt_str(m.method_name) == name,
        },
{
    let empty: Vec<JsonValue> = Vec::new();
    let methods = match data.get_array("methods") {
        Some(a) => a,
        None => &empty,
    };
    assert(crate::json::json_views(methods@) == array_or_empty(data@, "methods"@));
    let m = match select_method_candidate(methods, query) {
        Some(m) => m,
        None => return None,
    };
    let method_id = match required_method_field(&m, "methodId") {
        Ok(v) => v,
        Err(e) => return Some(Err(e)),
    };
    let method_name = match m.get_str("methodName") {
        Some(n) => if n.unicode_len() > 0 {
            Some(copy_str(n))
        } else {
            None
        },
        None => None,
    };
    Some(Ok(SelectedMethod { method_id, method_name }))
}

/// The error when no search finds a screenshot method.
pub fn no_screenshot_method_message(client_id: &str) -> (r: String)
    ensures
        r@ == "No screenshot QaTest method found for client "@ + client_id@
            + ". Search queries: CaptureScreenshotToRegister, 截图上传到register."@,
{
    concat3(
        "No screenshot QaTest method found for client ",
        client_id,
        ". Search queries: CaptureScreenshotToRegister, 截图上传到register.",
    )
}

/// Where an artifact is downloaded from: its id on the QA server, or a URL.
#[derive(Debug)]
pub enum DownloadSource {
    ArtifactId(String),
    DownloadUrl(String),
}

/// A text given and not blank.
pub open spec fn given(o: Option<Seq<char>>) -> bool {
    o matches Some(t) && trim(t).len() > 0
}

/// Which source a download uses: exactly one of an artifact id and a download
/// URL must be given (a blank one counts as not given), and is used trimmed.
pub open spec fn spec_download_source(artifact_id: Option<Seq<char>>, download_url: Option<Seq<char>>) -> Result<(bool, Seq<char>), Seq<char>> {
    if given(artifact_id) && given(download_url) {
        Err("Provide either artifactId or downloadUrl, not both."@)
    } else if given(artifact_id) {
        Ok((true, trim(artifact_id->0)))
    } else if given(download_url) {
        Ok((false, trim(download_url->0)))
    } else {
        Err("Either artifactId or downloadUrl is required."@)
    }
}

fn given_exec(o: Option<&str>) -> (r: bool)
    ensures
        r == given(crate::qa::api::opt_text(o)),
{
    match o {
        Some(t) => trim_string(t).as_str().unicode_len() > 0,
        None => false,
    }
}

pub fn download_source(artifact_id: Option<&str>, download_url: Option<&str>) -> (r: Result<DownloadSource, String>)
    ensures
        match spec_download_source(crate::qa::api::opt_text(artifact_id), crate::qa::api::opt_text(download_url)) {
            Ok((true, t)) => r matches Ok(DownloadSource::ArtifactId(x)) && x@ == t,
            Ok((false, t)) => r matches Ok(DownloadSource::DownloadUrl(x)) && x@ == t,
            Err(e) => r matches Err(x) && x@ == e,
        },
{
    let a = given_exec(artifact_id);
    let d = given_exec(download_url);
    if a && d {
        return Err(copy_str("Provide either artifactId or downloadUrl, not both."));
    }
    match (artifact_id, download_url) {
        (Some(t), _) if a => Ok(DownloadSource::ArtifactId(trim_string(t))),
        (_, Some(t)) if d => Ok(DownloadSource::DownloadUrl(trim_string(t))),
        _ => Err(copy_str("Either artifactId or downloadUrl is required.")),
    }
}

/// The server path that downloads an artifact by its id.
pub open spec fn artifact_download_path(artifact_id: Seq<char>) -> Seq<char> {
    "/api/artifacts/"@ + crate::qa::api::encoded_path_segment(artifact_id) + "/download"@
}

pub fn artifact_url_path(artifact_id: &str) -> (r: String)
    ensures
        r@ == artifact_download_path(artifact_id@),
{
    let e = crate::qa::api::encode_path_segment(artifact_id);
    concat3("/api/artifacts/", e.as_str(), "/download")
}

/// Where an artifact's metadata says to download it from: its `downloadUrl`
/// string as it is, else the download path of its `artifactId` when that is
/// not blank.
pub open spec fn spec_artifact_download_target(artifact: JsonView) -> Result<Seq<char>, Seq<char>> {
    match jget_str(artifact, "downloadUrl"@) {
        Some(u) => Ok(u),
        None => match jget_str(artifact, "artifactId"@) {
            Some(id) if trim(id).len() > 0 => Ok(artifact_download_path(id)),
            _ => Err("Artifact metadata did not contain downloadUrl or artifactId."@),
        },
    }
}

pub fn artifact_download_target(artifact: &JsonValue) -> (r: Result<String, String>)
    ensures
        match spec_artifact_download_target(artifact@) {
            Ok(u) => r matches Ok(x) && x@ == u,
            Err(e) => r matches Err(x) && x@ == e,
        },
{
    if let Some(u) = artifact.get_str("downloadUrl") {
        return Ok(copy_str(u));
    }
    if let Some(id) = artifact.get_str("artifactId") {
        if trim_string(id).as_str().unicode_len() > 0 {
            return Ok(artifact_url_path(id));
        }
    }
    Err(copy_str("Artifact metadata did not contain downloadUrl or artifactId."))
}

/// `s` without its leading `c`s.
pub open spec fn trim_start_char(s: Seq<char>, c: char) -> Seq<char>
    decreases s.len(),
{
    if s.len() > 0 && s[0] == c {
        trim_start_char(s.drop_first(), c)
    } else {
        s
    }
}

/// `s` without its trailing `c`s.
pub open spec fn trim_end_char(s: Seq<char>, c: char) -> Seq<char>
    decreases s.len(),
{
    if s.len() > 0 && s.last() == c {
        trim_end_char(s.drop_last(), c)
    } else {
        s
    }
}

fn trim_char_bounds(v: &Vec<char>, c: char) -> (r: (usize, usize))
    ensures
        r.0 <= r.1 <= v@.len(),
        v@.subrange(r.0 as int, r.1 as int) == trim_end_char(trim_start_char(v@, c), c),
        forall|k: int| 0 <= k < r.0 ==> v@[k] == c,
        r.0 < v@.len() ==> v@[r.0 as int] != c,
{
    let mut a: usize = 0;
    assert(v@.subrange(0, v@.len() as int) =~= v@);
    while a < v.len() && v[a] == c
        invariant
            a <= v@.len(),
            forall|k: int| 0 <= k < a ==> v@[k] == c,
            trim_start_char(v@, c) == trim_start_char(v@.subrange(a as int, v@.len() as int), c),
        decreases v@.len() - a,
    {
        let ghost t = v@.subrange(a as int, v@.len() as int);
        assert(t.drop_first() =~= v@.subrange(a + 1, v@.len() as int));
        a = a + 1;
    }
    assert(trim_start_char(v@, c) == v@.subrange(a as int, v@.len() as int));
    let mut b: usize = v.len();
    while b > a && v[b - 1] == c
        invariant
            a <= b <= v@.len(),
            trim_end_char(trim_start_char(v@, c), c) == trim_end_char(v@.subrange(a as int, b as int), c),
        decreases b - a,
    {
        let ghost t = v@.subrange(a as int, b as int);
        assert(t.drop_last() =~= v@.subrange(a as int, b - 1));
        b = b - 1;
    }
    (a, b)
}

/// `s.trim_matches(c)`.
pub fn trim_char(s: &str, c: char) -> (r: String)
    ensures
        r@ == trim_end_char(trim_start_char(s@, c), c),
{
    let v = chars_of(s);
    let (a, b) = trim_char_bounds(&v, c);
    crate::text::string_from_range(&v, a, b)
}

/// The file name a `Content-Disposition` value gives: after `filename=` in
/// its first `;`-separated part that starts so (trimmed), without the quotes
/// around it.
pub open spec fn disposition_file_name(parts: Seq<Seq<char>>) -> Option<Seq<char>>
    decreases parts.len(),
{
    if parts.len() == 0 {
        None
    } else {
        let t = trim(parts[0]);
        if t.len() >= 9 && t.subrange(0, 9) == "filename="@ {
            Some(trim_end_char(trim_start_char(t.subrange(9, t.len() as int), '"'), '"'))
        } else {
            disposition_file_name(parts.drop_first())
        }
    }
}

pub fn content_disposition_file_name(value: &str) -> (r: Option<String>)
    ensures
        crate::paths::opt_view(r) == disposition_file_name(split_char(value@, ';')),
{
    let parts = crate::text::split_pieces(value, ';');
    let ghost ps = split_char(value@, ';');
    let mut i: usize = 0;
    assert(ps.subrange(0, ps.len() as int) =~= ps);
    while i < parts.len()
        invariant
            i <= parts@.len(),
            crate::text::string_views(parts@) == ps,
            ps == split_char(value@, ';'),
            disposition_file_name(ps) == disposition_file_name(ps.subrange(i as int, ps.len() as int)),
        decreases parts@.len() - i,
    {
        let ghost rest = ps.subrange(i as int, ps.len() as int);
        assert(rest.drop_first() =~= ps.subrange(i + 1, ps.len() as int));
        assert(rest[0] == parts@[i as int]@);
        let t = trim_string(parts[i].as_str());
        let v = chars_of(t.as_str());
        if v.len() >= 9 {
            let head = crate::text::string_from_range(&v, 0, 9);
            if str_eq(head.as_str(), "filename=") {
                let tail = crate::text::string_from_range(&v, 9, v.len());
                assert(t@ == trim(rest[0]));
                assert(t@.subrange(0, 9) == "filename="@);
                assert(tail@ == t@.subrange(9, t@.len() as int));
                assert(rest.len() > 0);
                assert(disposition_file_name(rest) == Some(
                    trim_end_char(trim_start_char(t@.subrange(9, t@.len() as int), '"'), '"'),
                ));
                return Some(trim_char(tail.as_str(), '"'));
            }
        }
        i = i + 1;
    }
    None
}

/// A file name from the last segment of a URL's path: trimmed, and none when
/// it is empty or `download`.
pub open spec fn name_from_segment(segment: Option<Seq<char>>) -> Option<Seq<char>> {
    match segment {
        Some(s) => if trim(s).len() == 0 || trim(s) == "download"@ {
            None
        } else {
            Some(trim(s))
        },
        None => None,
    }
}

pub fn file_name_from_url_path(url: &str) -> (r: Option<String>)
    ensures
        crate::paths::opt_view(r) == name_from_segment(crate::urls::spec_url_last_segment(url@)),
{
    match crate::urls::url_last_segment(url) {
        Some(seg) => {
            let t = trim_string(seg.as_str());
            if t.as_str().unicode_len() == 0 || str_eq(t.as_str(), "download") {
                None
            } else {
                Some(t)
            }
        },
        None => None,
    }
}

/// The name a download is saved under: the given name when it is not blank
/// (as given), else the `Content-Disposition` name, else the name the URL's
/// path ends with, else `artifact.bin`.
pub open spec fn spec_download_file_name(
    fallback: Option<Seq<char>>,
    disposition: Option<Seq<char>>,
    url: Seq<char>,
) -> Seq<char> {
    if given(fallback) {
        fallback->0
    } else {
        match disposition {
            Some(d) => match disposition_file_name(split_char(d, ';')) {
                Some(n) => n,
                None => match name_from_segment(crate::urls::spec_url_last_segment(url)) {
                    Some(n) => n,
                    None => default_artifact_file_name(),
                },
            },
            None => match name_from_segment(crate::urls::spec_url_last_segment(url)) {
                Some(n) => n,
                None => default_artifact_file_name(),
            },
        }
    }
}

/// `disposition` is the `Content-Disposition` header of the reply, when it
/// has one that is text.
pub fn download_file_name(fallback: Option<&str>, disposition: Option<&str>, url: &str) -> (r: String)
    ensures
        r@ == spec_download_file_name(
            crate::qa::api::opt_text(fallback),
            crate::qa::api::opt_text(disposition),
            url@,
        ),
{
    if given_exec(fallback) {
        match fallback {
            Some(f) => return copy_str(f),
            None => {},
        }
    }
    if let Some(d) = disposition {
        if let Some(n) = content_disposition_file_name(d) {
            return n;
        }
    }
    match file_name_from_url_path(url) {
        Some(n) => n,
        None => copy_str("artifact.bin"),
    }
}

/// What a finished download answers.
pub open spec fn download_summary_view(
    saved_path: Seq<char>,
    size: nat,
    data: Seq<u8>,
    url: Seq<char>,
    file_name: Seq<char>,
    content_type: Seq<char>,
) -> JsonView {
    JsonView::Object(
        seq![
            ("contentType"@, JsonView::Str(content_type)),
            ("downloadUrl"@, JsonView::Str(url)),
            ("fileName"@, JsonView::Str(file_name)),
            ("savedPath"@, JsonView::Str(saved_path)),
            ("sha256"@, JsonView::Str(crate::server::auth::hex_lower(crate::digest::spec_sha256(data)))),
            ("sizeBytes"@, JsonView::Number(crate::text::decimal(size))),
        ],
    )
}

/// Sums up a saved download: where it went, its size and SHA-256, where it
/// came from, its name and its content type (empty when the reply had none).
pub fn download_summary(saved_path: &str, data: &[u8], url: &str, file_name: &str, content_type: &str) -> (r: JsonValue)
    ensures
        r@ == download_summary_view(saved_path@, data@.len(), data@, url@, file_name@, content_type@),
{
    let entries = vec![
        (copy_str("contentType"), JsonValue::String(copy_str(content_type))),
        (copy_str("downloadUrl"), JsonValue::String(copy_str(url))),
        (copy_str("fileName"), JsonValue::String(copy_str(file_name))),
        (copy_str("savedPath"), JsonValue::String(copy_str(saved_path))),
        (copy_str("sha256"), JsonValue::String(crate::digest::sha256_hex(data))),
        (copy_str("sizeBytes"), JsonValue::Number(crate::text::u64_to_string(data.len() as u64))),
    ];
    proof {
        crate::json::lemma_entry_views_new(entries@);
        assert(crate::json::json_entry_views(entries@) =~= seq![
            ("contentType"@, JsonView::Str(content_type@)),
            ("downloadUrl"@, JsonView::Str(url@)),
            ("fileName"@, JsonView::Str(file_name@)),
            ("savedPath"@, JsonView::Str(saved_path@)),
            ("sha256"@, JsonView::Str(crate::server::auth::hex_lower(crate::digest::spec_sha256(data@)))),
            ("sizeBytes"@, JsonView::Number(crate::text::decimal(data@.len()))),
        ]);
    }
    JsonValue::Object(entries)
}

/// A download's error: the reply's JSON `error` text, else its `message`
/// text, else the reply's text itself (trimmed); none for an empty reply.
/// `parsed` is the reply's trimmed text read as JSON, when it is JSON.
pub open spec fn spec_error_message(text: Seq<char>, parsed: Option<JsonView>) -> Option<Seq<char>> {
    let t = trim(text);
    if t.len() == 0 {
        None
    } else {
        match parsed {
            Some(v) => match jget_str(v, "error"@) {
                Some(e) => Some(e),
                None => match jget_str(v, "message"@) {
                    Some(m) => Some(m),
                    None => Some(t),
                },
            },
            None => Some(t),
        }
    }
}

pub fn parse_error_message(text: &str, parsed: Option<&JsonValue>) -> (r: Option<String>)
    ensures
        crate::paths::opt_view(r) == spec_error_message(text@, opt_json_view(parsed)),
{
    let t = trim_string(text);
    if t.as_str().unicode_len() == 0 {
        return None;
    }
    if let Some(v) = parsed {
        if let Some(e) = v.get_str("error") {
            return Some(copy_str(e));
        }
        if let Some(m) = v.get_str("message") {
            return Some(copy_str(m));
        }
    }
    Some(t)
}

/// The error when a download fails with a status and no message.
pub fn download_failed_message(status: u16) -> (r: String)
    ensures
        r@ == "Artifact download failed with HTTP "@ + crate::text::decimal(status as nat) + "."@,
{
    let code = crate::text::u64_to_string(status as u64);
    concat3("Artifact download failed with HTTP ", code.as_str(), ".")
}

/// The URL of the QA server that a download URL or path stands for: the text
/// itself when it is a URL, else joined (without its leading `/`s) to the
/// server's address.
pub open spec fn spec_register_url(value: Seq<char>, server_url: Seq<char>) -> Result<Seq<char>, Seq<char>> {
    match crate::urls::spec_url_parse(value) {
        Some(u) => Ok(u),
        None => match crate::urls::spec_url_join(server_url, trim_start_char(value, '/')) {
            Some(u) => Ok(u),
            None => Err("Failed to build artifact download URL"@),
        },
    }
}

pub fn resolve_register_url(value: &str, server_url: &str) -> (r: Result<String, String>)
    ensures
        match spec_register_url(value@, server_url@) {
            Ok(u) => r matches Ok(x) && x@ == u,
            Err(e) => r matches Err(x) && x@ == e,
        },
{
    if let Some(u) = crate::urls::url_parse(value) {
        return Ok(u);
    }
    let v = chars_of(value);
    let (a, _b) = trim_char_bounds(&v, '/');
    let rest = crate::text::string_from_range(&v, a, v.len());
    assert(rest@ == trim_start_char(value@, '/')) by {
        lemma_trim_start_char_prefix(v@, '/', a as int);
    }
    match crate::urls::url_join(server_url, rest.as_str()) {
        Some(u) => Ok(u),
        None => Err(copy_str("Failed to build artifact download URL")),
    }
}

proof fn lemma_trim_start_char_prefix(s: Seq<char>, c: char, a: int)
    requires
        0 <= a <= s.len(),
        forall|k: int| 0 <= k < a ==> s[k] == c,
        a < s.len() ==> s[a] != c,
    ensures
        trim_start_char(s, c) == s.subrange(a, s.len() as int),
    decreases a,
{
    if a == 0 {
        assert(s.subrange(0, s.len() as int) =~= s);
    } else {
        assert forall|k: int| 0 <= k < a - 1 implies s.drop_first()[k] == c by {
            assert(s.drop_first()[k] == s[k + 1]);
        }
        lemma_trim_start_char_prefix(s.drop_first(), c, a - 1);
        assert(s.drop_first().subrange(a - 1, s.len() - 1) =~= s.subrange(a, s.len() as int));
    }
}

/// Where a search for artifact metadata stands.
#[derive(Debug)]
pub enum MetadataSearch {
    /// The metadata: the first object met with a `downloadUrl` or
    /// `artifactId` string.
    Found(JsonValue),
    /// There is none.
    Missing,
    /// The search met this text and must know what it reads as JSON.
    NeedsParse(String),
}

/// What the search knows of texts read as JSON: each text with its value, or
/// none when it is not JSON.
pub open spec fn parse_views(table: Seq<(String, Option<JsonValue>)>) -> Seq<(Seq<char>, Option<JsonView>)> {
    table.map_values(|e: (String, Option<JsonValue>)| (e.0@, crate::server::state::opt_json(e.1)))
}

/// The value read from a text, as far as the table says: none when the text
/// is not in it.
pub open spec fn lookup_parse(table: Seq<(Seq<char>, Option<JsonView>)>, t: Seq<char>) -> Option<Option<JsonView>>
    decreases table.len(),
{
    if table.len() == 0 {
        None
    } else if table[0].0 == t {
        Some(table[0].1)
    } else {
        lookup_parse(table.drop_first(), t)
    }
}

/// The spec form of [`MetadataSearch`].
pub enum SearchView {
    Found(JsonView),
    Missing,
    NeedsParse(Seq<char>),
}

/// Where the first member named `key` is.
pub open spec fn member_index(es: Seq<(Seq<char>, JsonView)>, key: Seq<char>) -> Option<int>
    decreases es.len(),
{
    if es.len() == 0 {
        None
    } else if es[0].0 == key {
        Some(0)
    } else {
        match member_index(es.drop_first(), key) {
            Some(i) => Some(i + 1),
            None => None,
        }
    }
}

/// `member_index` finds what `entries_get` gets.
pub proof fn lemma_member_index(es: Seq<(Seq<char>, JsonView)>, key: Seq<char>)
    ensures
        match member_index(es, key) {
            Some(i) => 0 <= i < es.len() && crate::json::entries_get(es, key) == Some(es[i].1) && es[i].0 == key
                && forall|j: int| 0 <= j < i ==> es[j].0 != key,
            None => crate::json::entries_get(es, key) is None && forall|j: int| 0 <= j < es.len() ==> es[j].0 != key,
        },
    decreases es.len(),
{
    if es.len() > 0 && es[0].0 != key {
        lemma_member_index(es.drop_first(), key);
        assert forall|j: int| 1 <= j < es.len() implies es[j] == es.drop_first()[j - 1] by {}
    }
}

/// An object that is artifact metadata.
pub open spec fn is_metadata(es: Seq<(Seq<char>, JsonView)>) -> bool {
    crate::json::jget_str(JsonView::Object(es), "downloadUrl"@) is Some || crate::json::jget_str(
        JsonView::Object(es),
        "artifactId"@,
    ) is Some
}

/// The search: an object that is metadata is the answer; in another object
/// the members `artifact`, `metadata`, `data` and `result` are searched, then
/// every member in order; in an array each item in order; a text that is not
/// blank is read as JSON (trimmed) and what it reads as is searched; nothing
/// else holds metadata. The first search that does not come out empty
/// decides. `fuel` bounds how deep texts within texts are read; a text read as
/// JSON holds only shorter texts, so the search never goes deeper than the
/// table is long.
pub open spec fn search_metadata(v: JsonView, table: Seq<(Seq<char>, Option<JsonView>)>, fuel: nat) -> SearchView
    decreases fuel, v, 2nat,
{
    match v {
        JsonView::Object(es) => if is_metadata(es) {
            SearchView::Found(v)
        } else {
            match search_named(es, seq!["artifact"@, "metadata"@, "data"@, "result"@], table, fuel) {
                SearchView::Missing => search_members(es, table, fuel),
                r => r,
            }
        },
        JsonView::Array(items) => search_items(items, table, fuel),
        JsonView::Str(t) => {
            let tt = trim(t);
            if tt.len() == 0 {
                SearchView::Missing
            } else {
                match lookup_parse(table, tt) {
                    None => SearchView::NeedsParse(tt),
                    Some(None) => SearchView::Missing,
                    Some(Some(p)) => if fuel == 0 {
                        SearchView::Missing
                    } else {
                        search_metadata(p, table, (fuel - 1) as nat)
                    },
                }
            }
        },
        _ => SearchView::Missing,
    }
}

pub open spec fn search_items(items: Seq<JsonView>, table: Seq<(Seq<char>, Option<JsonView>)>, fuel: nat) -> SearchView
    decreases fuel, items, 1nat,
{
    if items.len() == 0 {
        SearchView::Missing
    } else {
        match search_metadata(items[0], table, fuel) {
            SearchView::Missing => search_items(items.drop_first(), table, fuel),
            r => r,
        }
    }
}

pub open spec fn search_members(es: Seq<(Seq<char>, JsonView)>, table: Seq<(Seq<char>, Option<JsonView>)>, fuel: nat) -> SearchView
    decreases fuel, es, 1nat,
{
    if es.len() == 0 {
        SearchView::Missing
    } else {
        match search_metadata(es[0].1, table, fuel) {
            SearchView::Missing => search_members(es.drop_first(), table, fuel),
            r => r,
        }
    }
}

pub open spec fn search_named(
    es: Seq<(Seq<char>, JsonView)>,
    keys: Seq<Seq<char>>,
    table: Seq<(Seq<char>, Option<JsonView>)>,
    fuel: nat,
) -> SearchView
    decreases fuel, es, 1nat, keys.len(),
{
    if keys.len() == 0 {
        SearchView::Missing
    } else {
        match member_index(es, keys[0]) {
            Some(i) if 0 <= i < es.len() => match search_metadata(es[i].1, table, fuel) {
                SearchView::Missing => search_named(es, keys.drop_first(), table, fuel),
                r => r,
            },
            _ => search_named(es, keys.drop_first(), table, fuel),
        }
    }
}


pub open spec fn search_view(r: MetadataSearch) -> SearchView {
    match r {
        MetadataSearch::Found(v) => SearchView::Found(v@),
        MetadataSearch::Missing => SearchView::Missing,
        MetadataSearch::NeedsParse(t) => SearchView::NeedsParse(t@),
    }
}

fn lookup_parse_exec<'a>(table: &'a Vec<(String, Option<JsonValue>)>, t: &str) -> (r: Option<&'a Option<JsonValue>>)
    ensures
        match lookup_parse(parse_views(table@), t@) {
            None => r is None,
            Some(x) => r matches Some(y) && crate::server::state::opt_json(*y) == x,
        },
{
    let ghost tv = parse_views(table@);
    let mut i: usize = 0;
    assert(tv.subrange(0, tv.len() as int) =~= tv);
    while i < table.len()
        invariant
            i <= table@.len(),
            tv == parse_views(table@),
            lookup_parse(tv, t@) == lookup_parse(tv.subrange(i as int, tv.len() as int), t@),
        decreases table@.len() - i,
    {
        let ghost rest = tv.subrange(i as int, tv.len() as int);
        assert(rest.drop_first() =~= tv.subrange(i + 1, tv.len() as int));
        assert(rest[0] == (table@[i as int].0@, crate::server::state::opt_json(table@[i as int].1)));
        if str_eq(table[i].0.as_str(), t) {
            return Some(&table[i].1);
        }
        i = i + 1;
    }
    None
}

fn member_position(es: &Vec<(String, JsonValue)>, key: &str) -> (r: Option<usize>)
    ensures
        match member_index(crate::json::json_entry_views(es@), key@) {
            Some(i) => r matches Some(x) && x as int == i && i < es@.len(),
            None => r is None,
        },
{
    let ghost ev = crate::json::json_entry_views(es@);
    proof {
        crate::json::lemma_entry_views_len(es@);
        lemma_member_index(ev, key@);
    }
    let mut i: usize = 0;
    while i < es.len()
        invariant
            i <= es@.len(),
            ev == crate::json::json_entry_views(es@),
            ev.len() == es@.len(),
            forall|j: int| 0 <= j < i ==> ev[j].0 != key@,
            match member_index(ev, key@) {
                Some(k) => 0 <= k < ev.len() && ev[k].0 == key@ && forall|j: int| 0 <= j < k ==> ev[j].0 != key@,
                None => forall|j: int| 0 <= j < ev.len() ==> ev[j].0 != key@,
            },
        decreases es@.len() - i,
    {
        proof {
            crate::json::lemma_entry_views_index(es@, i as int);
        }
        if str_eq(es[i].0.as_str(), key) {
            return Some(i);
        }
        i = i + 1;
    }
    None
}

fn is_missing(r: &MetadataSearch) -> (b: bool)
    ensures
        b == (search_view(*r) is Missing),
{
    match r {
        MetadataSearch::Missing => true,
        _ => false,
    }
}

#[verifier::loop_isolation(false)]
#[verifier::spinoff_prover]
#[verifier::rlimit(40)]
fn search_in(v: &JsonValue, table: &Vec<(String, Option<JsonValue>)>, fuel: usize) -> (r: MetadataSearch)
    ensures
        search_view(r) == search_metadata(v@, parse_views(table@), fuel as nat),
    decreases fuel, v,
{
    let ghost tv = parse_views(table@);
    match v {
        JsonValue::Object(es) => {
            let ghost ev = crate::json::json_entry_views(es@);
            proof {
                crate::json::lemma_entry_views_len(es@);
            }
            if v.get_str("downloadUrl").is_some() || v.get_str("artifactId").is_some() {
                return MetadataSearch::Found(v.copy());
            }
            let keys = vec!["artifact", "metadata", "data", "result"];
            let ghost kv = seq!["artifact"@, "metadata"@, "data"@, "result"@];
            let mut k: usize = 0;
            assert(kv.subrange(0, 4) =~= kv);
            while k < keys.len()
                invariant
                    k <= 4,
                    keys@.len() == 4,
                    forall|j: int| 0 <= j < 4 ==> #[trigger] keys@[j]@ == kv[j],
                    search_named(ev, kv, tv, fuel as nat) == search_named(ev, kv.subrange(k as int, 4), tv, fuel as nat),
                decreases 4 - k,
            {
                let ghost rest = kv.subrange(k as int, 4);
                assert(rest.drop_first() =~= kv.subrange(k + 1, 4));
                assert(rest[0] == keys@[k as int]@);
                proof {
                    lemma_member_index(ev, rest[0]);
                }
                let key = keys[k];
                assert(key@ == rest[0]);
                let ghost mi = member_index(ev, rest[0]);
                let pos = member_position(es, key);
                proof {
                    lemma_member_index(ev, key@);
                    assert(ev == crate::json::json_entry_views(es@));
                    if mi is None {
                        assert(pos is None);
                    }
                }
                match pos {
                    Some(idx) => {
                        proof {
                            crate::json::lemma_entry_views_index(es@, idx as int);
                            assert(decreases_to!(*es => es@[idx as int]));
                            assert(mi == Some(idx as int));
                            assert(ev[idx as int].1 == es@[idx as int].1@);
                        }
                        let r = search_in(&es[idx].1, table, fuel);
                        proof {
                            assert(search_view(r) == search_metadata(ev[idx as int].1, tv, fuel as nat));
                        }
                        if !is_missing(&r) {
                            assert(search_named(ev, rest, tv, fuel as nat) == search_view(r));
                            return r;
                        }
                        assert(search_named(ev, rest, tv, fuel as nat) == search_named(ev, rest.drop_first(), tv, fuel as nat));
                    },
                    None => {
                        assert(mi is None);
                        assert(search_named(ev, rest, tv, fuel as nat) == search_named(ev, rest.drop_first(), tv, fuel as nat));
                    },
                }
                k = k + 1;
            }
            let mut i: usize = 0;
            assert(ev.subrange(0, ev.len() as int) =~= ev);
            while i < es.len()
                invariant
                    i <= es@.len(),
                    ev.len() == es@.len(),
                    search_members(ev, tv, fuel as nat) == search_members(ev.subrange(i as int, ev.len() as int), tv, fuel as nat),
                decreases es@.len() - i,
            {
                let ghost rest = ev.subrange(i as int, ev.len() as int);
                assert(rest.drop_first() =~= ev.subrange(i + 1, ev.len() as int));
                proof {
                    crate::json::lemma_entry_views_index(es@, i as int);
                    assert(decreases_to!(*es => es@[i as int]));
                }
                assert(rest[0].1 == es@[i as int].1@);
                let r = search_in(&es[i].1, table, fuel);
                if !is_missing(&r) {
                    return r;
                }
                i = i + 1;
            }
            MetadataSearch::Missing
        },
        JsonValue::Array(items) => {
            let ghost iv = crate::json::json_views(items@);
            proof {
                crate::json::lemma_json_views_len(items@);
            }
            let mut i: usize = 0;
            assert(iv.subrange(0, iv.len() as int) =~= iv);
            while i < items.len()
                invariant
                    i <= items@.len(),
                    iv.len() == items@.len(),
                    search_items(iv, tv, fuel as nat) == search_items(iv.subrange(i as int, iv.len() as int), tv, fuel as nat),
                decreases items@.len() - i,
            {
                let ghost rest = iv.subrange(i as int, iv.len() as int);
                assert(rest.drop_first() =~= iv.subrange(i + 1, iv.len() as int));
                proof {
                    crate::json::lemma_json_views_index(items@, i as int);
                    assert(decreases_to!(*items => items@[i as int]));
                }
                let r = search_in(&items[i], table, fuel);
                if !is_missing(&r) {
                    return r;
                }
                i = i + 1;
            }
            MetadataSearch::Missing
        },
        JsonValue::String(t) => {
            let tt = trim_string(t.as_str());
            if tt.as_str().unicode_len() == 0 {
                return MetadataSearch::Missing;
            }
            match lookup_parse_exec(table, tt.as_str()) {
                None => MetadataSearch::NeedsParse(tt),
                Some(None) => MetadataSearch::Missing,
                Some(Some(p)) => {
                    if fuel == 0 {
                        MetadataSearch::Missing
                    } else {
                        search_in(p, table, fuel - 1)
                    }
                },
            }
        },
        _ => MetadataSearch::Missing,
    }
}

/// Searches a value for artifact metadata, reading texts as JSON as far as
/// `parsed` says what they read as.
pub fn find_artifact_metadata(value: &JsonValue, parsed: &Vec<(String, Option<JsonValue>)>) -> (r: MetadataSearch)
    ensures
        search_view(r) == search_metadata(value@, parse_views(parsed@), parsed@.len()),
{
    search_in(value, parsed, parsed.len())
}

/// The part of an execution that holds the method's result: `result.result`,
/// else `result`, else the whole execution.
pub open spec fn result_payload(execution: JsonView) -> JsonView {
    match jget(execution, "result"@) {
        Some(r) => match jget(r, "result"@) {
            Some(x) => x,
            None => r,
        },
        None => execution,
    }
}

fn result_payload_exec(execution: &JsonValue) -> (r: &JsonValue)
    ensures
        r@ == result_payload(execution@),
{
    match execution.get("result") {
        Some(r) => match r.get("result") {
            Some(x) => x,
            None => r,
        },
        None => execution,
    }
}

/// Where reading the artifact out of an execution stands.
#[derive(Debug)]
pub enum ArtifactStep {
    Found(JsonValue),
    Failed(String),
    NeedsParse(String),
}

pub enum ArtifactStepView {
    Found(JsonView),
    Failed(Seq<char>),
    NeedsParse(Seq<char>),
}

pub open spec fn artifact_step_view(r: ArtifactStep) -> ArtifactStepView {
    match r {
        ArtifactStep::Found(v) => ArtifactStepView::Found(v@),
        ArtifactStep::Failed(e) => ArtifactStepView::Failed(e@),
        ArtifactStep::NeedsParse(t) => ArtifactStepView::NeedsParse(t@),
    }
}

pub open spec fn no_artifact_message(payload: JsonView) -> Seq<char> {
    "Screenshot QaTest result did not contain downloadUrl or artifactId. Result: "@
        + crate::json_text::compact_text(payload)
}

/// Reading the artifact out of an execution: the result payload, read as JSON
/// when it is a text (a blank text is null; a text that is not JSON is an
/// error), searched for artifact metadata; an error that shows the payload
/// when there is none.
pub open spec fn spec_extract_artifact(execution: JsonView, table: Seq<(Seq<char>, Option<JsonView>)>) -> ArtifactStepView {
    let payload = result_payload(execution);
    let top = match payload {
        JsonView::Str(t) => if trim(t).len() == 0 {
            Some(Ok(JsonView::Null))
        } else {
            match lookup_parse(table, trim(t)) {
                None => None,
                Some(None) => Some(Err(())),
                Some(Some(p)) => Some(Ok(p)),
            }
        },
        _ => Some(Ok(payload)),
    };
    match top {
        None => ArtifactStepView::NeedsParse(trim(payload->Str_0)),
        Some(Err(())) => ArtifactStepView::Failed("Screenshot QaTest result string is not valid JSON"@),
        Some(Ok(p)) => match search_metadata(p, table, table.len()) {
            SearchView::Found(m) => ArtifactStepView::Found(m),
            SearchView::Missing => ArtifactStepView::Failed(no_artifact_message(payload)),
            SearchView::NeedsParse(t) => ArtifactStepView::NeedsParse(t),
        },
    }
}

/// Reads the artifact's metadata out of an execution of the screenshot
/// method, as far as `parsed` says what texts read as JSON.
pub fn extract_artifact_from_execution(execution: &JsonValue, parsed: &Vec<(String, Option<JsonValue>)>) -> (r: ArtifactStep)
    ensures
        artifact_step_view(r) == spec_extract_artifact(execution@, parse_views(parsed@)),
{
    let payload = result_payload_exec(execution);
    let search = match payload {
        JsonValue::String(t) => {
            let tt = trim_string(t.as_str());
            if tt.as_str().unicode_len() == 0 {
                search_in(&JsonValue::Null, parsed, parsed.len())
            } else {
                match lookup_parse_exec(parsed, tt.as_str()) {
                    None => return ArtifactStep::NeedsParse(tt),
                    Some(None) => return ArtifactStep::Failed(copy_str("Screenshot QaTest result string is not valid JSON")),
                    Some(Some(p)) => search_in(p, parsed, parsed.len()),
                }
            }
        },
        _ => search_in(payload, parsed, parsed.len()),
    };
    match search {
        MetadataSearch::Found(m) => ArtifactStep::Found(m),
        MetadataSearch::Missing => {
            let shown = payload.to_compact_text();
            ArtifactStep::Failed(
                crate::text::concat2(
                    "Screenshot QaTest result did not contain downloadUrl or artifactId. Result: ",
                    shown.as_str(),
                ),
            )
        },
        MetadataSearch::NeedsParse(t) => ArtifactStep::NeedsParse(t),
    }
}

} // verus!
