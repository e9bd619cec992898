use vstd::prelude::*;
use vstd::string::StrSliceExecFns;
use crate::text::{
    ascii_lower, before_first, chars_of, concat3, copy_str, eq_ignore_ascii_case, eq_ignore_case,
    find_char, index_of, is_alphanumeric_ascii, is_ascii_alphanumeric, str_eq, string_from_range,
    to_ascii_lowercase, trim, trim_bounds,
};

verus! {

/// The longest file name, in characters, that an artifact is stored under.
pub const MAX_FILE_NAME_CHARS: usize = 160;

pub open spec fn is_file_name_char(c: char) -> bool {
    is_ascii_alphanumeric(c) || c == '.' || c == '-' || c == '_'
}

/// A character of a stored file name: itself where it is safe, else `_`.
pub open spec fn file_name_char(c: char) -> char {
    if is_file_name_char(c) {
        c
    } else {
        '_'
    }
}

/// The safe form of `s` appended to `out`: each character mapped by
/// `file_name_char`, a run of `_` kept as one, and nothing added once `out`
/// holds 160 characters. `last_underscore` says whether `out` ends in an `_`
/// written by this mapping.
pub open spec fn sanitize_run(s: Seq<char>, out: Seq<char>, last_underscore: bool) -> Seq<char>
    decreases s.len(),
{
    if s.len() == 0 || out.len() >= 160 {
        out
    } else {
        let c = file_name_char(s[0]);
        if c == '_' {
            sanitize_run(
                s.drop_first(),
                if last_underscore {
                    out
                } else {
                    out.push('_')
                },
                true,
            )
        } else {
            sanitize_run(s.drop_first(), out.push(c), false)
        }
    }
}

pub open spec fn is_edge_mark(c: char) -> bool {
    c == '.' || c == '_' || c == '-'
}

pub open spec fn strip_marks_start(s: Seq<char>) -> Seq<char>
    decreases s.len(),
{
    if s.len() > 0 && is_edge_mark(s[0]) {
        strip_marks_start(s.drop_first())
    } else {
        s
    }
}

pub open spec fn strip_marks_end(s: Seq<char>) -> Seq<char>
    decreases s.len(),
{
    if s.len() > 0 && is_edge_mark(s.last()) {
        strip_marks_end(s.drop_last())
    } else {
        s
    }
}

/// `s` without leading and trailing `.`, `_` and `-`.
pub open spec fn strip_marks(s: Seq<char>) -> Seq<char> {
    strip_marks_end(strip_marks_start(s))
}

pub open spec fn is_reserved_device_stem(s: Seq<char>) -> bool {
    ||| s == "con"@ || s == "prn"@ || s == "aux"@ || s == "nul"@
    ||| s == "com1"@ || s == "com2"@ || s == "com3"@ || s == "com4"@ || s == "com5"@
    ||| s == "com6"@ || s == "com7"@ || s == "com8"@ || s == "com9"@
    ||| s == "lpt1"@ || s == "lpt2"@ || s == "lpt3"@ || s == "lpt4"@ || s == "lpt5"@
    ||| s == "lpt6"@ || s == "lpt7"@ || s == "lpt8"@ || s == "lpt9"@
}

/// A name that Windows keeps for a device: its part before the first `.`,
/// lowercased, is one of the device names.
pub open spec fn spec_is_reserved_windows_name(v: Seq<char>) -> bool {
    is_reserved_device_stem(ascii_lower(before_first(v, '.')))
}

/// The name an uploaded artifact is stored under, from the name the client
/// asked for: trimmed, made safe, cut to 160 characters and stripped of
/// leading and trailing marks; none where nothing is left, where it names a
/// Windows device, or where it is the metadata file's name.
pub open spec fn sanitized_file_name(value: Option<Seq<char>>) -> Option<Seq<char>> {
    match value {
        None => None,
        Some(v) => {
            let t = trim(v);
            if t.len() == 0 {
                None
            } else {
                let o = strip_marks(sanitize_run(t, Seq::empty(), false));
                if o.len() == 0 || spec_is_reserved_windows_name(o) || eq_ignore_ascii_case(
                    o,
                    "metadata.json"@,
                ) {
                    None
                } else {
                    Some(o)
                }
            }
        },
    }
}

/// No two `_` stand side by side in `s`.
pub open spec fn no_double_underscore(s: Seq<char>) -> bool {
    forall|i: int| 0 <= i < s.len() - 1 ==> !(#[trigger] s[i] == '_' && s[i + 1] == '_')
}

/// Every character of `s` may stand in a stored file name.
pub open spec fn all_file_name_chars(s: Seq<char>) -> bool {
    forall|i: int| 0 <= i < s.len() ==> is_file_name_char(#[trigger] s[i])
}

proof fn lemma_sanitize_run(s: Seq<char>, out: Seq<char>, last_underscore: bool)
    requires
        out.len() <= 160,
        all_file_name_chars(out),
        no_double_underscore(out),
        last_underscore == (out.len() > 0 && out.last() == '_'),
    ensures
        sanitize_run(s, out, last_underscore).len() <= 160,
        all_file_name_chars(sanitize_run(s, out, last_underscore)),
        no_double_underscore(sanitize_run(s, out, last_underscore)),
    decreases s.len(),
{
    if s.len() == 0 || out.len() >= 160 {
    } else {
        let c = file_name_char(s[0]);
        if c == '_' {
            if last_underscore {
                lemma_sanitize_run(s.drop_first(), out, true);
            } else {
                let o = out.push('_');
                assert forall|i: int| 0 <= i < o.len() implies is_file_name_char(#[trigger] o[i]) by {
                    if i < out.len() {
                        assert(o[i] == out[i]);
                    }
                }
                assert forall|i: int| 0 <= i < o.len() - 1 implies !(#[trigger] o[i] == '_' && o[i + 1] == '_') by {
                    assert(o[i] == out[i]);
                    if i + 1 < out.len() {
                        assert(o[i + 1] == out[i + 1]);
                    } else {
                        assert(out.last() == out[i]);
                    }
                }
                lemma_sanitize_run(s.drop_first(), o, true);
            }
        } else {
            let o = out.push(c);
            assert forall|i: int| 0 <= i < o.len() implies is_file_name_char(#[trigger] o[i]) by {
                if i < out.len() {
                    assert(o[i] == out[i]);
                }
            }
            assert forall|i: int| 0 <= i < o.len() - 1 implies !(#[trigger] o[i] == '_' && o[i + 1] == '_') by {
                assert(o[i] == out[i]);
                if i + 1 < out.len() {
                    assert(o[i + 1] == out[i + 1]);
                }
            }
            lemma_sanitize_run(s.drop_first(), o, false);
        }
    }
}

proof fn lemma_strip_marks_start(s: Seq<char>) -> (k: int)
    ensures
        0 <= k <= s.len(),
        strip_marks_start(s) == s.subrange(k, s.len() as int),
        strip_marks_start(s).len() > 0 ==> !is_edge_mark(strip_marks_start(s)[0]),
    decreases s.len(),
{
    if s.len() > 0 && is_edge_mark(s[0]) {
        let k = lemma_strip_marks_start(s.drop_first());
        assert(s.drop_first().subrange(k, s.drop_first().len() as int) == s.subrange(k + 1, s.len() as int));
        k + 1
    } else {
        assert(s.subrange(0, s.len() as int) == s);
        0
    }
}

proof fn lemma_strip_marks_end(s: Seq<char>) -> (e: int)
    ensures
        0 <= e <= s.len(),
        strip_marks_end(s) == s.subrange(0, e),
        strip_marks_end(s).len() > 0 ==> !is_edge_mark(strip_marks_end(s).last()),
    decreases s.len(),
{
    if s.len() > 0 && is_edge_mark(s.last()) {
        let e = lemma_strip_marks_end(s.drop_last());
        assert(s.drop_last().subrange(0, e) == s.subrange(0, e));
        e
    } else {
        assert(s.subrange(0, s.len() as int) == s);
        s.len() as int
    }
}

/// A stored file name that is one safe path component: not empty, at most
/// 160 characters, only ASCII letters and digits, `.`, `-` and `_` (so no `/`
/// and no backslash), no mark at either end, no `__`, not `metadata.json` in
/// any case, and no Windows device name.
pub open spec fn safe_file_name(name: Seq<char>) -> bool {
    &&& 0 < name.len() <= 160
    &&& all_file_name_chars(name)
    &&& !name.contains('/')
    &&& !name.contains('\\')
    &&& !is_edge_mark(name[0])
    &&& !is_edge_mark(name.last())
    &&& no_double_underscore(name)
    &&& !eq_ignore_ascii_case(name, "metadata.json"@)
    &&& !spec_is_reserved_windows_name(name)
}

/// What an upload is stored under is a single safe path component. No name
/// is given for a missing or blank one. A name that is given is not empty and
/// at most 160 characters long; each of its characters is an ASCII letter or
/// digit, `.`, `-` or `_` (so it holds no `/` and no backslash); it neither starts nor
/// ends with `.`, `_` or `-`; no two `_` stand side by side in it; it is not
/// `metadata.json` in any case, and it names no Windows device.
pub proof fn lemma_sanitized_file_name_is_safe(value: Option<Seq<char>>)
    ensures
        (value is None || trim(value->0).len() == 0) ==> sanitized_file_name(value) is None,
        sanitized_file_name(value) matches Some(name) ==> safe_file_name(name),
{
    if let Some(v) = value {
        let t = trim(v);
        if t.len() > 0 {
            let r = sanitize_run(t, Seq::empty(), false);
            lemma_sanitize_run(t, Seq::empty(), false);
            let k = lemma_strip_marks_start(r);
            let a = strip_marks_start(r);
            let e = lemma_strip_marks_end(a);
            let o = strip_marks(r);
            assert(o == r.subrange(k, k + e));
            assert forall|i: int| 0 <= i < o.len() implies is_file_name_char(#[trigger] o[i]) by {
                assert(o[i] == r[k + i]);
            }
            assert forall|i: int| 0 <= i < o.len() - 1 implies !(#[trigger] o[i] == '_' && o[i + 1] == '_') by {
                assert(o[i] == r[k + i]);
                assert(o[i + 1] == r[k + i + 1]);
            }
            if o.len() > 0 {
                assert(o[0] == a[0]);
            }
            assert(!o.contains('/')) by {
                if o.contains('/') {
                    let i = choose|i: int| 0 <= i < o.len() && o[i] == '/';
                    assert(is_file_name_char(o[i]));
                }
            }
            assert(!o.contains('\\')) by {
                if o.contains('\\') {
                    let i = choose|i: int| 0 <= i < o.len() && o[i] == '\\';
                    assert(is_file_name_char(o[i]));
                }
            }
        }
    }
}

fn is_reserved_stem(s: &str) -> (r: bool)
    ensures
        r == is_reserved_device_stem(s@),
{
    str_eq(s, "con") || str_eq(s, "prn") || str_eq(s, "aux") || str_eq(s, "nul") || str_eq(
        s,
        "com1",
    ) || str_eq(s, "com2") || str_eq(s, "com3") || str_eq(s, "com4") || str_eq(s, "com5")
        || str_eq(s, "com6") || str_eq(s, "com7") || str_eq(s, "com8") || str_eq(s, "com9")
        || str_eq(s, "lpt1") || str_eq(s, "lpt2") || str_eq(s, "lpt3") || str_eq(s, "lpt4")
        || str_eq(s, "lpt5") || str_eq(s, "lpt6") || str_eq(s, "lpt7") || str_eq(s, "lpt8")
        || str_eq(s, "lpt9")
}

pub fn is_reserved_windows_name(value: &str) -> (r: bool)
    ensures
        r == spec_is_reserved_windows_name(value@),
{
    let v = chars_of(value);
    proof {
        crate::text::lemma_index_of(v@, '.');
    }
    let end = match find_char(&v, '.') {
        Some(k) => k,
        None => v.len(),
    };
    let stem = string_from_range(&v, 0, end);
    assert(stem@ == before_first(value@, '.')) by {
        if index_of(v@, '.') is None {
            assert(v@.subrange(0, v@.len() as int) == v@);
        }
    }
    let lower = to_ascii_lowercase(stem.as_str());
    is_reserved_stem(lower.as_str())
}

fn first_unmarked(v: &Vec<char>) -> (k: usize)
    ensures
        k <= v@.len(),
        strip_marks_start(v@) == v@.subrange(k as int, v@.len() as int),
{
    let mut k: usize = 0;
    assert(v@.subrange(0, v@.len() as int) == v@);
    while k < v.len() && (v[k] == '.' || v[k] == '_' || v[k] == '-')
        invariant
            k <= v@.len(),
            strip_marks_start(v@) == strip_marks_start(v@.subrange(k as int, v@.len() as int)),
        decreases v@.len() - k,
    {
        let ghost t = v@.subrange(k as int, v@.len() as int);
        assert(t[0] == v@[k as int]);
        assert(t.drop_first() == v@.subrange(k + 1, v@.len() as int));
        k = k + 1;
    }
    proof {
        let t = v@.subrange(k as int, v@.len() as int);
        if t.len() > 0 {
            assert(t[0] == v@[k as int]);
        }
    }
    k
}

fn last_unmarked(v: &Vec<char>, from: usize) -> (e: usize)
    requires
        from <= v@.len(),
    ensures
        from <= e <= v@.len(),
        strip_marks_end(v@.subrange(from as int, v@.len() as int)) == v@.subrange(from as int, e as int),
{
    let mut e: usize = v.len();
    while e > from && (v[e - 1] == '.' || v[e - 1] == '_' || v[e - 1] == '-')
        invariant
            from <= e <= v@.len(),
            strip_marks_end(v@.subrange(from as int, v@.len() as int)) == strip_marks_end(
                v@.subrange(from as int, e as int),
            ),
        decreases e,
    {
        let ghost t = v@.subrange(from as int, e as int);
        assert(t.last() == v@[e - 1]);
        assert(t.drop_last() == v@.subrange(from as int, e - 1));
        e = e - 1;
    }
    proof {
        let t = v@.subrange(from as int, e as int);
        if t.len() > 0 {
            assert(t.last() == v@[e - 1]);
        }
    }
    e
}

/// The characters of the safe form of `t` (before stripping marks).
fn sanitize_chars(t: &Vec<char>) -> (out: Vec<char>)
    ensures
        out@ == sanitize_run(t@, Seq::empty(), false),
{
    let mut out: Vec<char> = Vec::new();
    let mut last_underscore = false;
    let mut i: usize = 0;
    assert(t@.subrange(0, t@.len() as int) == t@);
    while i < t.len() && out.len() < MAX_FILE_NAME_CHARS
        invariant
            i <= t@.len(),
            out@.len() <= 160,
            sanitize_run(t@, Seq::empty(), false) == sanitize_run(
                t@.subrange(i as int, t@.len() as int),
                out@,
                last_underscore,
            ),
        decreases t@.len() - i,
    {
        let ghost s = t@.subrange(i as int, t@.len() as int);
        assert(s[0] == t@[i as int]);
        assert(s.drop_first() == t@.subrange(i + 1, t@.len() as int));
        let ch = t[i];
        let c = if is_alphanumeric_ascii(ch) || ch == '.' || ch == '-' || ch == '_' {
            ch
        } else {
            '_'
        };
        if c == '_' {
            if !last_underscore {
                out.push('_');
            }
            last_underscore = true;
        } else {
            out.push(c);
            last_underscore = false;
        }
        i = i + 1;
    }
    out
}

/// The file name an uploaded artifact is stored under, where the client's
/// name can be made safe.
pub fn sanitize_file_name(value: Option<&str>) -> (r: Option<String>)
    ensures
        crate::paths::opt_view(r) == sanitized_file_name(
            match value {
                Some(v) => Some(v@),
                None => None,
            },
        ),
        value is None ==> r is None,
        value matches Some(v) && trim(v@).len() == 0 ==> r is None,
        r matches Some(name) ==> safe_file_name(name@),
{
    proof {
        lemma_sanitized_file_name_is_safe(
            match value {
                Some(v) => Some(v@),
                None => None,
            },
        );
    }
    let value = match value {
        Some(v) => v,
        None => return None,
    };
    let v = chars_of(value);
    let (a, b) = trim_bounds(&v);
    if a == b {
        return None;
    }
    let mut t: Vec<char> = Vec::new();
    let mut i = a;
    while i < b
        invariant
            a <= i <= b <= v@.len(),
            t@ == v@.subrange(a as int, i as int),
        decreases b - i,
    {
        t.push(v[i]);
        assert(v@.subrange(a as int, i + 1) == v@.subrange(a as int, i as int).push(v@[i as int]));
        i = i + 1;
    }
    let out = sanitize_chars(&t);
    let from = first_unmarked(&out);
    let to = last_unmarked(&out, from);
    let o = string_from_range(&out, from, to);
    if from == to || is_reserved_windows_name(o.as_str()) || eq_ignore_case(o.as_str(), "metadata.json") {
        None
    } else {
        Some(o)
    }
}

/// The extension a content type is stored with.
pub open spec fn extension_for(content_type: Seq<char>) -> Seq<char> {
    if content_type == "image/png"@ {
        "png"@
    } else if content_type == "image/jpeg"@ {
        "jpg"@
    } else {
        "bin"@
    }
}

/// The file name of an artifact that came without a usable one: its kind made
/// safe (or `artifact`), a dot, and the extension of its content type.
pub open spec fn spec_fallback_file_name(kind: Seq<char>, content_type: Seq<char>) -> Seq<char> {
    let base = match sanitized_file_name(Some(kind)) {
        Some(b) => b,
        None => "artifact"@,
    };
    base + "."@ + extension_for(content_type)
}

pub fn fallback_file_name(kind: &str, content_type: &str) -> (r: String)
    ensures
        r@ == spec_fallback_file_name(kind@, content_type@),
{
    let extension = if str_eq(content_type, "image/png") {
        "png"
    } else if str_eq(content_type, "image/jpeg") {
        "jpg"
    } else {
        "bin"
    };
    let base = match sanitize_file_name(Some(kind)) {
        Some(b) => b,
        None => copy_str("artifact"),
    };
    concat3(base.as_str(), ".", extension)
}

/// The media type of a `Content-Type` value: its part before the first `;`,
/// trimmed and lowercased.
pub open spec fn media_type(value: Seq<char>) -> Seq<char> {
    ascii_lower(trim(before_first(value, ';')))
}

/// Which content types an artifact may have. `header` is `None` where the
/// request has no `Content-Type`, `Some(None)` where its value is not text.
pub open spec fn spec_normalized_content_type(header: Option<Option<Seq<char>>>) -> Result<Seq<char>, Seq<char>> {
    match header {
        None => Err("Content-Type is required."@),
        Some(None) => Err("Content-Type is invalid."@),
        Some(Some(v)) => {
            let m = media_type(v);
            if m == "image/png"@ || m == "image/jpeg"@ || m == "application/octet-stream"@ {
                Ok(m)
            } else {
                Err(
                    "Unsupported Content-Type. Supported types: image/png, image/jpeg, application/octet-stream."@,
                )
            }
        },
    }
}

pub fn normalized_content_type(header: Option<Option<&str>>) -> (r: Result<String, String>)
    ensures
        match spec_normalized_content_type(
            match header {
                None => None,
                Some(None) => Some(None),
                Some(Some(v)) => Some(Some(v@)),
            },
        ) {
            Ok(m) => r is Ok && r->Ok_0@ == m,
            Err(e) => r is Err && r->Err_0@ == e,
        },
{
    let value = match header {
        None => return Err(copy_str("Content-Type is required.")),
        Some(None) => return Err(copy_str("Content-Type is invalid.")),
        Some(Some(v)) => v,
    };
    let v = chars_of(value);
    proof {
        crate::text::lemma_index_of(v@, ';');
    }
    let end = match find_char(&v, ';') {
        Some(k) => k,
        None => v.len(),
    };
    let head = string_from_range(&v, 0, end);
    assert(head@ == before_first(value@, ';')) by {
        if index_of(v@, ';') is None {
            assert(v@.subrange(0, v@.len() as int) == v@);
        }
    }
    let trimmed = crate::text::trim_string(head.as_str());
    let m = to_ascii_lowercase(trimmed.as_str());
    let ms = m.as_str();
    if str_eq(ms, "image/png") || str_eq(ms, "image/jpeg") || str_eq(ms, "application/octet-stream") {
        Ok(m)
    } else {
        Err(
            copy_str(
                "Unsupported Content-Type. Supported types: image/png, image/jpeg, application/octet-stream.",
            ),
        )
    }
}

/// The metadata of a stored artifact.
#[derive(Debug)]
pub struct ArtifactMetadata {
    pub artifact_id: String,
    pub kind: String,
    pub client_id: String,
    pub file_name: String,
    pub content_type: String,
    pub size_bytes: u64,
    pub sha256: String,
    pub created_at: String,
    pub download_url: String,
}

/// The metadata as JSON, its members in the order of its fields.
pub open spec fn metadata_view(m: ArtifactMetadata) -> crate::json::JsonView {
    crate::json::JsonView::Object(
        seq![
            ("artifactId"@, crate::json::JsonView::Str(m.artifact_id@)),
            ("kind"@, crate::json::JsonView::Str(m.kind@)),
            ("clientId"@, crate::json::JsonView::Str(m.client_id@)),
            ("fileName"@, crate::json::JsonView::Str(m.file_name@)),
            ("contentType"@, crate::json::JsonView::Str(m.content_type@)),
            ("sizeBytes"@, crate::json::JsonView::Number(crate::text::decimal(m.size_bytes as nat))),
            ("sha256"@, crate::json::JsonView::Str(m.sha256@)),
            ("createdAt"@, crate::json::JsonView::Str(m.created_at@)),
            ("downloadUrl"@, crate::json::JsonView::Str(m.download_url@)),
        ],
    )
}

impl ArtifactMetadata {
    pub fn to_json(&self) -> (r: crate::json::JsonValue)
        ensures
            r@ == metadata_view(*self),
    {
        let entries = vec![
            (copy_str("artifactId"), crate::json::JsonValue::String(copy_str(self.artifact_id.as_str()))),
            (copy_str("kind"), crate::json::JsonValue::String(copy_str(self.kind.as_str()))),
            (copy_str("clientId"), crate::json::JsonValue::String(copy_str(self.client_id.as_str()))),
            (copy_str("fileName"), crate::json::JsonValue::String(copy_str(self.file_name.as_str()))),
            (copy_str("contentType"), crate::json::JsonValue::String(copy_str(self.content_type.as_str()))),
            (copy_str("sizeBytes"), crate::json::JsonValue::Number(crate::text::u64_to_string(self.size_bytes))),
            (copy_str("sha256"), crate::json::JsonValue::String(copy_str(self.sha256.as_str()))),
            (copy_str("createdAt"), crate::json::JsonValue::String(copy_str(self.created_at.as_str()))),
            (copy_str("downloadUrl"), crate::json::JsonValue::String(copy_str(self.download_url.as_str()))),
        ];
        proof {
            crate::json::lemma_entry_views_new(entries@);
            assert(crate::json::json_entry_views(entries@) =~= metadata_view(*self)->Object_0);
        }
        crate::json::JsonValue::Object(entries)
    }
}

/// What an upload asks for: the client, the kind of artifact and, maybe, a
/// file name.
#[derive(Debug)]
pub struct CreateArtifactQuery {
    pub client_id: String,
    pub kind: String,
    pub file_name: Option<String>,
}

/// An upload that passed its checks, ready to be written: its metadata, the
/// directory, the artifact's file and the metadata file.
#[derive(Debug)]
pub struct PreparedArtifact {
    pub metadata: ArtifactMetadata,
    pub directory: String,
    pub file_path: String,
    pub metadata_path: String,
}

pub open spec fn too_large_message(max_bytes: nat) -> Seq<char> {
    "Artifact body exceeds QA_ARTIFACT_MAX_BYTES ("@ + crate::text::decimal(max_bytes) + " bytes)."@
}

/// The checks of an upload, in order: a client id and a kind (trimmed, not
/// empty), a supported content type, a body that is not empty and not larger
/// than the limit. Gives the trimmed client id, the trimmed kind and the
/// content type.
pub open spec fn spec_check_upload(
    client_id: Seq<char>,
    kind: Seq<char>,
    content_type: Option<Option<Seq<char>>>,
    body_len: nat,
    max_bytes: nat,
) -> Result<(Seq<char>, Seq<char>, Seq<char>), (crate::server::state::StatusCode, Seq<char>)> {
    if trim(client_id).len() == 0 {
        Err((crate::server::state::StatusCode::BadRequest, "clientId is required."@))
    } else if trim(kind).len() == 0 {
        Err((crate::server::state::StatusCode::BadRequest, "kind is required."@))
    } else {
        match spec_normalized_content_type(content_type) {
            Err(e) => Err((crate::server::state::StatusCode::UnsupportedMediaType, e)),
            Ok(ct) => if body_len == 0 {
                Err((crate::server::state::StatusCode::BadRequest, "Artifact body is empty."@))
            } else if body_len > max_bytes {
                Err((crate::server::state::StatusCode::PayloadTooLarge, too_large_message(max_bytes)))
            } else {
                Ok((trim(client_id), trim(kind), ct))
            },
        }
    }
}

pub open spec fn opt_header(h: Option<Option<&str>>) -> Option<Option<Seq<char>>> {
    match h {
        None => None,
        Some(None) => Some(None),
        Some(Some(v)) => Some(Some(v@)),
    }
}

/// The metadata of an upload that passed its checks, stored as `artifact_id`
/// at `created_at`: its name is the sanitized name asked for, else one made
/// from its kind and content type; it is downloaded from
/// `/api/artifacts/<id>/download`.
pub open spec fn upload_metadata(
    m: ArtifactMetadata,
    checked: (Seq<char>, Seq<char>, Seq<char>),
    file_name: Option<Seq<char>>,
    body: Seq<u8>,
    artifact_id: Seq<char>,
    created_at: Seq<char>,
) -> bool {
    &&& m.artifact_id@ == artifact_id
    &&& m.kind@ == checked.1
    &&& m.client_id@ == checked.0
    &&& m.file_name@ == match sanitized_file_name(file_name) {
        Some(n) => n,
        None => spec_fallback_file_name(checked.1, checked.2),
    }
    &&& m.content_type@ == checked.2
    &&& m.size_bytes == body.len()
    &&& m.sha256@ == crate::server::auth::hex_lower(crate::digest::spec_sha256(body))
    &&& m.created_at@ == created_at
    &&& m.download_url@ == "/api/artifacts/"@ + artifact_id + "/download"@
}

/// Where an upload goes: a directory named by its id under the base
/// directory, its file and `metadata.json` in it.
pub open spec fn upload_paths(p: PreparedArtifact, base_dir: Seq<char>) -> bool {
    &&& p.directory@ == crate::paths::join_path(base_dir, p.metadata.artifact_id@)
    &&& p.file_path@ == crate::paths::join_path(p.directory@, p.metadata.file_name@)
    &&& p.metadata_path@ == crate::paths::join_path(p.directory@, "metadata.json"@)
}

/// Checks an upload and prepares what to store, under the id `artifact_id`
/// and the time `created_at`.
pub fn prepare_artifact(
    query: &CreateArtifactQuery,
    content_type: Option<Option<&str>>,
    body: &[u8],
    max_bytes: usize,
    base_dir: &str,
    artifact_id: String,
    created_at: String,
) -> (r: Result<PreparedArtifact, crate::server::state::RequestError>)
    ensures
        match spec_check_upload(query.client_id@, query.kind@, opt_header(content_type), body@.len(), max_bytes as nat) {
            Err((status, message)) => r matches Err(e) && e.status == status && e.message@ == message,
            Ok(checked) => r matches Ok(p) && upload_metadata(
                p.metadata,
                checked,
                crate::server::state::opt_str(query.file_name),
                body@,
                artifact_id@,
                created_at@,
            ) && upload_paths(p, base_dir@),
        },
{
    let client_id = crate::text::trim_string(query.client_id.as_str());
    if client_id.as_str().unicode_len() == 0 {
        return Err(crate::server::state::RequestError {
            message: copy_str("clientId is required."),
            status: crate::server::state::StatusCode::BadRequest,
        });
    }
    let kind = crate::text::trim_string(query.kind.as_str());
    if kind.as_str().unicode_len() == 0 {
        return Err(crate::server::state::RequestError {
            message: copy_str("kind is required."),
            status: crate::server::state::StatusCode::BadRequest,
        });
    }
    let ct = match normalized_content_type(content_type) {
        Ok(ct) => ct,
        Err(e) => return Err(
            crate::server::state::RequestError { message: e, status: crate::server::state::StatusCode::UnsupportedMediaType },
        ),
    };
    if body.len() == 0 {
        return Err(crate::server::state::RequestError {
            message: copy_str("Artifact body is empty."),
            status: crate::server::state::StatusCode::BadRequest,
        });
    }
    if body.len() > max_bytes {
        let n = crate::text::u64_to_string(max_bytes as u64);
        return Err(crate::server::state::RequestError {
            message: concat3("Artifact body exceeds QA_ARTIFACT_MAX_BYTES (", n.as_str(), " bytes)."),
            status: crate::server::state::StatusCode::PayloadTooLarge,
        });
    }
    let file_name = match sanitize_file_name(
        match &query.file_name {
            Some(f) => Some(f.as_str()),
            None => None,
        },
    ) {
        Some(n) => n,
        None => fallback_file_name(kind.as_str(), ct.as_str()),
    };
    let directory = crate::paths::join_path_exec(base_dir, artifact_id.as_str());
    let file_path = crate::paths::join_path_exec(directory.as_str(), file_name.as_str());
    let metadata_path = crate::paths::join_path_exec(directory.as_str(), "metadata.json");
    let download_url = concat3("/api/artifacts/", artifact_id.as_str(), "/download");
    let metadata = ArtifactMetadata {
        artifact_id,
        kind,
        client_id,
        file_name,
        content_type: ct,
        size_bytes: body.len() as u64,
        sha256: crate::digest::sha256_hex(body),
        created_at,
        download_url,
    };
    Ok(PreparedArtifact { metadata, directory, file_path, metadata_path })
}

/// Checks an upload and prepares what to store under a fresh id, stamped with
/// the current time.
pub fn create_artifact(
    query: &CreateArtifactQuery,
    content_type: Option<Option<&str>>,
    body: &[u8],
    max_bytes: usize,
    base_dir: &str,
) -> (r: Result<PreparedArtifact, crate::server::state::RequestError>)
    ensures
        match spec_check_upload(query.client_id@, query.kind@, opt_header(content_type), body@.len(), max_bytes as nat) {
            Err((status, message)) => r matches Err(e) && e.status == status && e.message@ == message,
            Ok(checked) => r matches Ok(p) && p.metadata.artifact_id@.len() == 36 && spec_is_uuid(
                p.metadata.artifact_id@,
            ) && upload_metadata(
                p.metadata,
                checked,
                crate::server::state::opt_str(query.file_name),
                body@,
                p.metadata.artifact_id@,
                p.metadata.created_at@,
            ) && upload_paths(p, base_dir@),
        },
{
    let artifact_id = crate::server::util::uuid();
    let created_at = crate::server::util::iso_now();
    prepare_artifact(query, content_type, body, max_bytes, base_dir, artifact_id, created_at)
}

/// A hexadecimal digit, in either case.
pub open spec fn is_hex_char(c: char) -> bool {
    ('0' <= c && c <= '9') || ('a' <= c && c <= 'f') || ('A' <= c && c <= 'F')
}

/// A UUID as 32 hexadecimal digits.
pub open spec fn is_simple_uuid(s: Seq<char>) -> bool {
    s.len() == 32 && forall|i: int| 0 <= i < 32 ==> is_hex_char(#[trigger] s[i])
}

/// Where the hyphens of a hyphenated UUID stand.
pub open spec fn is_uuid_hyphen_at(i: int) -> bool {
    i == 8 || i == 13 || i == 18 || i == 23
}

/// A UUID in its hyphenated 8-4-4-4-12 form.
pub open spec fn is_hyphenated_uuid(s: Seq<char>) -> bool {
    s.len() == 36 && forall|i: int|
        0 <= i < 36 ==> if is_uuid_hyphen_at(i) {
            #[trigger] s[i] == '-'
        } else {
            is_hex_char(s[i])
        }
}

/// The texts that `uuid::Uuid::parse_str` reads as a UUID: 32 hexadecimal
/// digits, the hyphenated form, the hyphenated form in braces, or the
/// hyphenated form after `urn:uuid:` in any case.
pub open spec fn spec_is_uuid(s: Seq<char>) -> bool {
    ||| is_simple_uuid(s)
    ||| is_hyphenated_uuid(s)
    ||| s.len() == 38 && s[0] == '{' && s[37] == '}' && is_hyphenated_uuid(s.subrange(1, 37))
    ||| s.len() == 45 && eq_ignore_ascii_case(s.subrange(0, 9), "urn:uuid:"@) && is_hyphenated_uuid(
        s.subrange(9, 45),
    )
}

fn is_hex_digit(c: char) -> (r: bool)
    ensures
        r == is_hex_char(c),
{
    ('0' <= c && c <= '9') || ('a' <= c && c <= 'f') || ('A' <= c && c <= 'F')
}

fn simple_uuid_at(v: &Vec<char>) -> (r: bool)
    ensures
        r == is_simple_uuid(v@),
{
    if v.len() != 32 {
        return false;
    }
    let mut i: usize = 0;
    while i < 32
        invariant
            v@.len() == 32,
            i <= 32,
            forall|j: int| 0 <= j < i ==> is_hex_char(#[trigger] v@[j]),
        decreases 32 - i,
    {
        if !is_hex_digit(v[i]) {
            return false;
        }
        i = i + 1;
    }
    true
}

fn hyphenated_uuid_at(v: &Vec<char>, start: usize) -> (r: bool)
    requires
        start + 36 <= v@.len(),
    ensures
        r == is_hyphenated_uuid(v@.subrange(start as int, start + 36)),
{
    let ghost t = v@.subrange(start as int, start + 36);
    let n = v.len();
    let mut i: usize = 0;
    while i < 36
        invariant
            start + 36 <= v@.len(),
            n == v@.len(),
            t == v@.subrange(start as int, start + 36),
            i <= 36,
            forall|j: int|
                0 <= j < i ==> if is_uuid_hyphen_at(j) {
                    #[trigger] t[j] == '-'
                } else {
                    is_hex_char(t[j])
                },
        decreases 36 - i,
    {
        let c = v[start + i];
        assert(c == t[i as int]);
        let ok = if i == 8 || i == 13 || i == 18 || i == 23 {
            c == '-'
        } else {
            is_hex_digit(c)
        };
        if !ok {
            return false;
        }
        i = i + 1;
    }
    true
}

/// Whether `uuid::Uuid::parse_str` reads the text as a UUID.
fn is_uuid(text: &str) -> (r: bool)
    ensures
        r == spec_is_uuid(text@),
{
    let v = chars_of(text);
    let n = v.len();
    if n == 32 {
        let r = simple_uuid_at(&v);
        assert(!is_hyphenated_uuid(v@));
        return r;
    }
    if n == 36 {
        assert(v@.subrange(0, 36) =~= v@);
        return hyphenated_uuid_at(&v, 0);
    }
    if n == 38 {
        if v[0] == '{' && v[37] == '}' {
            return hyphenated_uuid_at(&v, 1);
        }
        return false;
    }
    if n == 45 {
        let prefix = string_from_range(&v, 0, 9);
        if eq_ignore_case(prefix.as_str(), "urn:uuid:") {
            return hyphenated_uuid_at(&v, 9);
        }
        return false;
    }
    false
}

/// The directory of an artifact: under the base directory, named by its id,
/// which must be a UUID.
pub fn artifact_directory(base_dir: &str, artifact_id: &str) -> (r: Result<String, crate::server::state::RequestError>)
    ensures
        spec_is_uuid(artifact_id@) ==> (r matches Ok(d) && d@ == crate::paths::join_path(base_dir@, artifact_id@)),
        !spec_is_uuid(artifact_id@) ==> (r matches Err(e) && e.status == crate::server::state::StatusCode::BadRequest
            && e.message@ == "artifactId must be a UUID."@),
{
    if !is_uuid(artifact_id) {
        return Err(crate::server::state::RequestError {
            message: copy_str("artifactId must be a UUID."),
            status: crate::server::state::StatusCode::BadRequest,
        });
    }
    Ok(crate::paths::join_path_exec(base_dir, artifact_id))
}

/// The `Content-Disposition` a download is sent with.
pub fn attachment_disposition(file_name: &str) -> (r: String)
    ensures
        r@ == "attachment; filename=\""@ + file_name@ + "\""@,
{
    concat3("attachment; filename=\"", file_name, "\"")
}

} // verus!
