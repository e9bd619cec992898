use vstd::prelude::*;
use vstd::string::{StrSliceExecFns, StringSliceAdditionalSpecFns};
use crate::json::{jarray, jget, jstr, JsonValue, JsonView};
use crate::text::{
    concat2, concat3, copy_str, push_char, spec_to_lowercase, split_char, split_trimmed, str_eq,
    string_views, to_lowercase, trim, trim_string, trimmed_nonempty, u64_to_string, decimal,
};

verus! {

/// The method queries in a `|`-separated list, trimmed, without empty ones.
pub fn split_method_queries(query: &str) -> (r: Vec<String>)
    ensures
        string_views(r@) == trimmed_nonempty(split_char(query@, '|')),
{
    split_trimmed(query, '|')
}

/// A byte that stands for itself in a path segment: an ASCII letter or digit,
/// `-`, `.`, `_` or `~`.
pub open spec fn is_unreserved_byte(b: u8) -> bool {
    (0x30 <= b && b <= 0x39) || (0x41 <= b && b <= 0x5a) || (0x61 <= b && b <= 0x7a) || b == 0x2d
        || b == 0x2e || b == 0x5f || b == 0x7e
}

/// The upper-case hexadecimal digit of `n` (below 16).
pub open spec fn hex_digit_upper(n: u8) -> char {
    if n < 10 {
        (n + 0x30) as char
    } else {
        (n - 10 + 0x41) as char
    }
}

/// One byte of a percent-encoded path segment.
pub open spec fn encode_byte(b: u8) -> Seq<char> {
    if is_unreserved_byte(b) {
        seq![b as char]
    } else {
        seq!['%', hex_digit_upper(b / 16), hex_digit_upper(b % 16)]
    }
}

pub open spec fn encode_bytes(bs: Seq<u8>) -> Seq<char>
    decreases bs.len(),
{
    if bs.len() == 0 {
        Seq::empty()
    } else {
        encode_bytes(bs.drop_last()) + encode_byte(bs.last())
    }
}

/// The percent-encoding of `s` as one URL path segment: each byte of its UTF-8
/// form that is not unreserved becomes `%` and two upper-case hex digits.
pub open spec fn encoded_path_segment(s: Seq<char>) -> Seq<char> {
    encode_bytes(vstd::utf8::encode_utf8(s))
}

fn hex_upper(n: u8) -> (c: char)
    requires
        n < 16,
    ensures
        c == hex_digit_upper(n),
{
    if n < 10 {
        ((n + 0x30) as u8) as char
    } else {
        ((n - 10 + 0x41) as u8) as char
    }
}

pub fn encode_path_segment(value: &str) -> (r: String)
    ensures
        r@ == encoded_path_segment(value@),
{
    let bytes = value.as_bytes_vec();
    let mut r = String::new();
    let mut i: usize = 0;
    while i < bytes.len()
        invariant
            i <= bytes@.len(),
            bytes@ == value.spec_bytes(),
            r@ == encode_bytes(bytes@.subrange(0, i as int)),
        decreases bytes@.len() - i,
    {
        let b = bytes[i];
        let ghost pre = bytes@.subrange(0, i + 1);
        assert(pre.drop_last() == bytes@.subrange(0, i as int));
        assert(pre.last() == b);
        if (0x30 <= b && b <= 0x39) || (0x41 <= b && b <= 0x5a) || (0x61 <= b && b <= 0x7a) || b
            == 0x2d || b == 0x2e || b == 0x5f || b == 0x7e {
            push_char(&mut r, b as char);
        } else {
            push_char(&mut r, '%');
            push_char(&mut r, hex_upper(b / 16));
            push_char(&mut r, hex_upper(b % 16));
        }
        i = i + 1;
    }
    assert(bytes@.subrange(0, bytes@.len() as int) == bytes@);
    r
}


/// A registered method with the forms of it that queries are compared with.
#[derive(Debug)]
pub struct MethodRecord {
    pub record: JsonValue,
    pub normalized_method_id: String,
    pub normalized_short_method_id: String,
    pub normalized_method_name: String,
    pub haystack: String,
}

/// Which form of a method an exact query matched.
#[derive(Clone, Copy, Debug, PartialEq, Eq, Structural)]
pub enum MatchKind {
    MethodId,
    ShortMethodId,
    MethodName,
}

impl MatchKind {
    pub open spec fn spec_name(self) -> Seq<char> {
        match self {
            MatchKind::MethodId => "methodId"@,
            MatchKind::ShortMethodId => "shortMethodId"@,
            MatchKind::MethodName => "methodName"@,
        }
    }

    pub fn name(self) -> (r: &'static str)
        ensures
            r@ == self.spec_name(),
    {
        match self {
            MatchKind::MethodId => "methodId",
            MatchKind::ShortMethodId => "shortMethodId",
            MatchKind::MethodName => "methodName",
        }
    }
}

/// What a method record holds, as values.
pub struct MethodRecordView {
    pub record: JsonView,
    pub method_id: Seq<char>,
    pub short_method_id: Seq<char>,
    pub method_name: Seq<char>,
    pub haystack: Seq<char>,
}

impl View for MethodRecord {
    type V = MethodRecordView;

    open spec fn view(&self) -> MethodRecordView {
        MethodRecordView {
            record: self.record@,
            method_id: self.normalized_method_id@,
            short_method_id: self.normalized_short_method_id@,
            method_name: self.normalized_method_name@,
            haystack: self.haystack@,
        }
    }
}

/// The views of the records, in order.
pub open spec fn record_views(rs: Seq<MethodRecord>) -> Seq<MethodRecordView> {
    rs.map_values(|m: MethodRecord| m@)
}

/// The form of a method that `kind` compares with.
pub open spec fn method_key(m: MethodRecordView, kind: MatchKind) -> Seq<char> {
    match kind {
        MatchKind::MethodId => m.method_id,
        MatchKind::ShortMethodId => m.short_method_id,
        MatchKind::MethodName => m.method_name,
    }
}

/// The indices of the methods whose `kind` form is `q`, in order.
pub open spec fn matching_indices(ms: Seq<MethodRecordView>, kind: MatchKind, q: Seq<char>) -> Seq<int>
    decreases ms.len(),
{
    if ms.len() == 0 {
        Seq::empty()
    } else {
        let r = matching_indices(ms.drop_last(), kind, q);
        if method_key(ms.last(), kind) == q {
            r.push(ms.len() - 1)
        } else {
            r
        }
    }
}

/// A record's string member, or empty.
pub open spec fn record_text(m: MethodRecordView, key: Seq<char>) -> Seq<char> {
    match jstr(jget(m.record, key)) {
        Some(t) => t,
        None => Seq::empty(),
    }
}

/// One candidate in an error: its name, its id in brackets and its client.
pub open spec fn candidate_text(m: MethodRecordView) -> Seq<char> {
    record_text(m, "methodName"@) + " ["@ + record_text(m, "methodId"@) + "] client="@ + record_text(
        m,
        "clientId"@,
    )
}

/// The candidates `idx` (the first `n` of them), separated by `; `.
pub open spec fn candidates_join(ms: Seq<MethodRecordView>, idx: Seq<int>, n: int) -> Seq<char>
    decreases n,
{
    if n <= 0 {
        Seq::empty()
    } else if n == 1 {
        candidate_text(ms[idx[0]])
    } else {
        candidates_join(ms, idx, n - 1) + "; "@ + candidate_text(ms[idx[n - 1]])
    }
}

/// The list of candidates an error shows: at most eight, then how many more.
pub open spec fn method_candidates(ms: Seq<MethodRecordView>, idx: Seq<int>) -> Seq<char> {
    if idx.len() > 8 {
        candidates_join(ms, idx, 8) + "; ... and "@ + decimal((idx.len() - 8) as nat) + " more"@
    } else {
        candidates_join(ms, idx, idx.len() as int)
    }
}

pub open spec fn multiple_matches_message(query: Seq<char>, candidates: Seq<char>) -> Seq<char> {
    "Multiple methods exactly matched query: "@ + query + ". Candidates: "@ + candidates
        + ". Use --client or a more specific methodId."@
}

pub open spec fn no_match_message(query: Seq<char>) -> Seq<char> {
    "No method exactly matched query: "@ + query
        + ". Use qamcp search first, then pass an exact methodId or methodName to qamcp describe."@
}

/// How a query resolves with one form: no match, one match, or an error that
/// lists the several matches.
pub open spec fn resolve_with(ms: Seq<MethodRecordView>, kind: MatchKind, q: Seq<char>, query: Seq<char>) -> Option<Result<(MatchKind, int), Seq<char>>> {
    let idx = matching_indices(ms, kind, q);
    if idx.len() == 0 {
        None
    } else if idx.len() == 1 {
        Some(Ok((kind, idx[0])))
    } else {
        Some(Err(multiple_matches_message(query, method_candidates(ms, idx))))
    }
}

/// How a query resolves: compared, trimmed and lowercased, with the method
/// ids, then the short ids, then the names; the first form with any match
/// decides. Fuzzy matches never count.
pub open spec fn spec_resolve_method_query(ms: Seq<MethodRecordView>, query: Seq<char>) -> Result<(MatchKind, int), Seq<char>> {
    let q = spec_to_lowercase(trim(query));
    if q.len() == 0 {
        Err("describe requires --query <methodId-or-methodName>."@)
    } else {
        match resolve_with(ms, MatchKind::MethodId, q, query) {
            Some(r) => r,
            None => match resolve_with(ms, MatchKind::ShortMethodId, q, query) {
                Some(r) => r,
                None => match resolve_with(ms, MatchKind::MethodName, q, query) {
                    Some(r) => r,
                    None => Err(no_match_message(query)),
                },
            },
        }
    }
}

proof fn lemma_matching_indices_bounds(ms: Seq<MethodRecordView>, kind: MatchKind, q: Seq<char>)
    ensures
        forall|k: int| 0 <= k < matching_indices(ms, kind, q).len() ==> 0 <= #[trigger] matching_indices(ms, kind, q)[k] < ms.len()
            && method_key(ms[matching_indices(ms, kind, q)[k]], kind) == q,
        matching_indices(ms, kind, q).len() <= ms.len(),
    decreases ms.len(),
{
    if ms.len() > 0 {
        lemma_matching_indices_bounds(ms.drop_last(), kind, q);
        let r = matching_indices(ms.drop_last(), kind, q);
        assert forall|k: int| 0 <= k < r.len() implies ms[r[k]] == ms.drop_last()[r[k]] by {}
    }
}

fn key_of(m: &MethodRecord, kind: MatchKind) -> (r: &str)
    ensures
        r@ == method_key(m@, kind),
{
    match kind {
        MatchKind::MethodId => m.normalized_method_id.as_str(),
        MatchKind::ShortMethodId => m.normalized_short_method_id.as_str(),
        MatchKind::MethodName => m.normalized_method_name.as_str(),
    }
}

fn matching_methods(methods: &Vec<MethodRecord>, kind: MatchKind, q: &str) -> (r: Vec<usize>)
    ensures
        r@.len() == matching_indices(record_views(methods@), kind, q@).len(),
        forall|k: int| 0 <= k < r@.len() ==> r@[k] as int == #[trigger] matching_indices(record_views(methods@), kind, q@)[k],
{
    let mut out: Vec<usize> = Vec::new();
    let mut i: usize = 0;
    while i < methods.len()
        invariant
            i <= methods@.len(),
            out@.len() == matching_indices(record_views(methods@.subrange(0, i as int)), kind, q@).len(),
            forall|k: int|
                0 <= k < out@.len() ==> out@[k] as int == #[trigger] matching_indices(
                    record_views(methods@.subrange(0, i as int)),
                    kind,
                    q@,
                )[k],
        decreases methods@.len() - i,
    {
        let ghost a = record_views(methods@.subrange(0, i + 1));
        assert(a.drop_last() =~= record_views(methods@.subrange(0, i as int)));
        assert(a.last() == methods@[i as int]@);
        if str_eq(key_of(&methods[i], kind), q) {
            out.push(i);
        }
        i = i + 1;
    }
    assert(methods@.subrange(0, methods@.len() as int) == methods@);
    out
}

fn record_str(m: &MethodRecord, key: &str) -> (r: String)
    ensures
        r@ == record_text(m@, key@),
{
    match m.record.get(key) {
        Some(v) => match v.as_str() {
            Some(t) => copy_str(t),
            None => String::new(),
        },
        None => String::new(),
    }
}

fn candidate(m: &MethodRecord) -> (r: String)
    ensures
        r@ == candidate_text(m@),
{
    let name = record_str(m, "methodName");
    let id = record_str(m, "methodId");
    let client = record_str(m, "clientId");
    let a = concat3(name.as_str(), " [", id.as_str());
    let b = concat3(a.as_str(), "] client=", client.as_str());
    b
}

fn format_method_candidates(methods: &Vec<MethodRecord>, idx: &Vec<usize>) -> (r: String)
    requires
        forall|k: int| 0 <= k < idx@.len() ==> (#[trigger] idx@[k]) < methods@.len(),
    ensures
        r@ == method_candidates(record_views(methods@), Seq::new(idx@.len(), |k: int| idx@[k] as int)),
{
    let ghost iv = Seq::new(idx@.len(), |k: int| idx@[k] as int);
    let n = if idx.len() > 8 {
        8
    } else {
        idx.len()
    };
    let mut out = String::new();
    let mut i: usize = 0;
    while i < n
        invariant
            i <= n <= idx@.len(),
            iv == Seq::new(idx@.len(), |k: int| idx@[k] as int),
            forall|k: int| 0 <= k < idx@.len() ==> (#[trigger] idx@[k]) < methods@.len(),
            out@ == candidates_join(record_views(methods@), iv, i as int),
        decreases n - i,
    {
        let c = candidate(&methods[idx[i]]);
        if i > 0 {
            out = concat3(out.as_str(), "; ", c.as_str());
        } else {
            out = c;
        }
        i = i + 1;
    }
    if idx.len() > 8 {
        let more = u64_to_string((idx.len() - 8) as u64);
        let tail = concat3("; ... and ", more.as_str(), " more");
        out = concat2(out.as_str(), tail.as_str());
    }
    out
}

/// The matching of a query with one method.
#[derive(Debug)]
pub struct MethodMatch {
    pub query: String,
    pub match_type: MatchKind,
    /// Where the method is in the list.
    pub method: usize,
}

fn resolve_exact(methods: &Vec<MethodRecord>, kind: MatchKind, q: &str, query: &str) -> (r: Option<Result<MethodMatch, String>>)
    ensures
        match resolve_with(record_views(methods@), kind, q@, query@) {
            None => r is None,
            Some(Ok((k, i))) => r matches Some(Ok(m)) && m.match_type == k && m.method as int == i && m.query@ == query@
                && m.method < methods@.len(),
            Some(Err(e)) => r matches Some(Err(x)) && x@ == e,
        },
{
    let idx = matching_methods(methods, kind, q);
    proof {
        lemma_matching_indices_bounds(record_views(methods@), kind, q@);
    }
    if idx.len() == 0 {
        return None;
    }
    if idx.len() == 1 {
        return Some(Ok(MethodMatch { query: copy_str(query), match_type: kind, method: idx[0] }));
    }
    let ghost iv = Seq::new(idx@.len(), |k: int| idx@[k] as int);
    assert(iv =~= matching_indices(record_views(methods@), kind, q@));
    assert forall|k: int| 0 <= k < idx@.len() implies (#[trigger] idx@[k]) < methods@.len() by {
        assert(idx@[k] as int == matching_indices(record_views(methods@), kind, q@)[k]);
    }
    let candidates = format_method_candidates(methods, &idx);
    let a = concat3("Multiple methods exactly matched query: ", query, ". Candidates: ");
    let b = concat3(a.as_str(), candidates.as_str(), ". Use --client or a more specific methodId.");
    Some(Err(b))
}

/// Finds the one method a query names exactly.
pub fn resolve_method_query(methods: &Vec<MethodRecord>, query: &str) -> (r: Result<MethodMatch, String>)
    ensures
        match spec_resolve_method_query(record_views(methods@), query@) {
            Ok((k, i)) => r matches Ok(m) && m.match_type == k && m.method as int == i && m.query@ == query@
                && m.method < methods@.len(),
            Err(e) => r matches Err(x) && x@ == e,
        },
{
    let t = trim_string(query);
    let q = to_lowercase(t.as_str());
    if q.as_str().unicode_len() == 0 {
        return Err(copy_str("describe requires --query <methodId-or-methodName>."));
    }
    if let Some(r) = resolve_exact(methods, MatchKind::MethodId, q.as_str(), query) {
        return r;
    }
    if let Some(r) = resolve_exact(methods, MatchKind::ShortMethodId, q.as_str(), query) {
        return r;
    }
    if let Some(r) = resolve_exact(methods, MatchKind::MethodName, q.as_str(), query) {
        return r;
    }
    let a = concat3("No method exactly matched query: ", query, ". Use qamcp search first, then pass an exact methodId or methodName to qamcp describe.");
    Err(a)
}


/// A member of `v`, or null.
pub open spec fn value_or_null(v: JsonView, key: Seq<char>) -> JsonView {
    match jget(v, key) {
        Some(x) => x,
        None => JsonView::Null,
    }
}

/// The address shown for a client: its `ipAddress` member when it has one,
/// else its `remoteAddress`, as a string (empty when it is none).
pub open spec fn client_address(client: JsonView) -> Seq<char> {
    let m = match jget(client, "ipAddress"@) {
        Some(v) => Some(v),
        None => jget(client, "remoteAddress"@),
    };
    match jstr(m) {
        Some(t) => t,
        None => Seq::empty(),
    }
}

/// The record of a method as search and describe show it, its members in
/// key order.
pub open spec fn method_record_view(client: JsonView, method: JsonView) -> JsonView {
    JsonView::Object(
        seq![
            ("allowParallelExecution"@, value_or_null(method, "allowParallelExecution"@)),
            ("clientId"@, value_or_null(client, "clientId"@)),
            ("clientIpAddress"@, JsonView::Str(client_address(client))),
            ("clientName"@, value_or_null(client, "name"@)),
            ("declaringType"@, value_or_null(method, "declaringType"@)),
            ("description"@, value_or_null(method, "description"@)),
            ("isStatic"@, value_or_null(method, "isStatic"@)),
            ("methodId"@, value_or_null(method, "id"@)),
            ("methodName"@, value_or_null(method, "name"@)),
            ("parameters"@, match jget(method, "parameters"@) {
                Some(p) => p,
                None => JsonView::Array(Seq::empty()),
            }),
            ("returnType"@, value_or_null(method, "returnType"@)),
        ],
    )
}

/// The texts that a search looks in, the string ones among these members.
pub open spec fn searchable_texts(vals: Seq<JsonView>) -> Seq<Seq<char>>
    decreases vals.len(),
{
    if vals.len() == 0 {
        Seq::empty()
    } else {
        let r = searchable_texts(vals.drop_last());
        match vals.last() {
            JsonView::Str(t) => r.push(t),
            _ => r,
        }
    }
}

/// The texts joined by newlines.
pub open spec fn join_lines(ts: Seq<Seq<char>>) -> Seq<char>
    decreases ts.len(),
{
    if ts.len() == 0 {
        Seq::empty()
    } else if ts.len() == 1 {
        ts[0]
    } else {
        join_lines(ts.drop_last()) + "\n"@ + ts.last()
    }
}

pub open spec fn str_or_empty(v: JsonView) -> Seq<char> {
    match v {
        JsonView::Str(t) => t,
        _ => Seq::empty(),
    }
}

/// The lowercased search text of a method: its id, name, declaring type,
/// description and return type, those that are strings, one per line.
pub open spec fn method_haystack(method: JsonView) -> Seq<char> {
    spec_to_lowercase(
        join_lines(
            searchable_texts(
                seq![
                    value_or_null(method, "id"@),
                    value_or_null(method, "name"@),
                    value_or_null(method, "declaringType"@),
                    value_or_null(method, "description"@),
                    value_or_null(method, "returnType"@),
                ],
            ),
        ),
    )
}

/// The record of a method of a client, with the forms that queries are
/// compared with: the id, the short id and the name, each trimmed and
/// lowercased, and the search text.
pub open spec fn source_record(client: JsonView, method: JsonView) -> MethodRecordView {
    let id = trim(str_or_empty(value_or_null(method, "id"@)));
    MethodRecordView {
        record: method_record_view(client, method),
        method_id: spec_to_lowercase(id),
        short_method_id: spec_to_lowercase(crate::cli::simple_method_id(id)),
        method_name: spec_to_lowercase(trim(str_or_empty(value_or_null(method, "name"@)))),
        haystack: method_haystack(method),
    }
}

/// The records of these methods, each with its client.
pub open spec fn source_records(src: Seq<(JsonView, JsonView)>) -> Seq<MethodRecordView> {
    src.map_values(|p: (JsonView, JsonView)| source_record(p.0, p.1))
}

pub open spec fn is_method_record(m: MethodRecord, client: JsonView, method: JsonView) -> bool {
    m@ == source_record(client, method)
}

fn get_value(v: &JsonValue, key: &str) -> (r: JsonValue)
    ensures
        r@ == value_or_null(v@, key@),
{
    match v.get(key) {
        Some(x) => x.copy(),
        None => JsonValue::Null,
    }
}

fn kv(k: &str, v: JsonValue) -> (r: (String, JsonValue))
    ensures
        r.0@ == k@,
        r.1 == v,
{
    (copy_str(k), v)
}

fn str_of(v: &JsonValue) -> (r: &str)
    ensures
        r@ == str_or_empty(v@),
{
    match v {
        JsonValue::String(t) => t.as_str(),
        _ => {
            proof {
                reveal_strlit("");
            }
            ""
        },
    }
}

fn searchable(vals: &Vec<JsonValue>) -> (r: Vec<String>)
    ensures
        crate::server::state::strs(r@) == searchable_texts(crate::json::json_views(vals@)),
{
    let mut out: Vec<String> = Vec::new();
    let mut i: usize = 0;
    assert(crate::server::state::strs(out@) =~= searchable_texts(crate::json::json_views(vals@.subrange(0, 0))));
    while i < vals.len()
        invariant
            i <= vals@.len(),
            crate::server::state::strs(out@) == searchable_texts(crate::json::json_views(vals@.subrange(0, i as int))),
        decreases vals@.len() - i,
    {
        let ghost a = vals@.subrange(0, i + 1);
        assert(a.drop_last() == vals@.subrange(0, i as int));
        assert(a.last() == vals@[i as int]);
        let ghost p = crate::json::json_views(vals@.subrange(0, i as int));
        assert(crate::json::json_views(a) == p.push(vals@[i as int]@));
        assert(p.push(vals@[i as int]@).drop_last() == p);
        match &vals[i] {
            JsonValue::String(t) => {
                let ghost before = out@;
                out.push(copy_str(t.as_str()));
                assert(crate::server::state::strs(out@) =~= crate::server::state::strs(before).push(t@));
            },
            _ => {},
        }
        i = i + 1;
    }
    assert(vals@.subrange(0, vals@.len() as int) == vals@);
    out
}

fn join_lines_exec(ts: &Vec<String>) -> (r: String)
    ensures
        r@ == join_lines(crate::server::state::strs(ts@)),
{
    let mut out = String::new();
    let mut i: usize = 0;
    assert(crate::server::state::strs(ts@.subrange(0, 0)) =~= Seq::<Seq<char>>::empty());
    while i < ts.len()
        invariant
            i <= ts@.len(),
            out@ == join_lines(crate::server::state::strs(ts@.subrange(0, i as int))),
        decreases ts@.len() - i,
    {
        let ghost a = crate::server::state::strs(ts@.subrange(0, i + 1));
        assert(a.drop_last() =~= crate::server::state::strs(ts@.subrange(0, i as int)));
        assert(a.last() == ts@[i as int]@);
        if i == 0 {
            out = copy_str(ts[i].as_str());
            assert(a.len() == 1);
        } else {
            out = concat3(out.as_str(), "\n", ts[i].as_str());
        }
        i = i + 1;
    }
    assert(ts@.subrange(0, ts@.len() as int) == ts@);
    out
}

/// The record of one method of one client, ready to be searched.
pub fn to_method_record(client: &JsonValue, method: &JsonValue) -> (r: MethodRecord)
    ensures
        is_method_record(r, client@, method@),
{
    let address = {
        let m = match client.get("ipAddress") {
            Some(v) => Some(v),
            None => client.get("remoteAddress"),
        };
        match m {
            Some(v) => match v.as_str() {
                Some(t) => copy_str(t),
                None => String::new(),
            },
            None => String::new(),
        }
    };
    let id_v = get_value(method, "id");
    let name_v = get_value(method, "name");
    let decl_v = get_value(method, "declaringType");
    let desc_v = get_value(method, "description");
    let ret_v = get_value(method, "returnType");
    let id = trim_string(str_of(&id_v));
    let normalized_method_id = to_lowercase(id.as_str());
    let short = crate::cli::simplify_method_id(id.as_str());
    let normalized_short_method_id = to_lowercase(short.as_str());
    let nm = trim_string(str_of(&name_v));
    let normalized_method_name = to_lowercase(nm.as_str());
    let vals = vec![id_v.copy(), name_v.copy(), decl_v.copy(), desc_v.copy(), ret_v.copy()];
    proof {
        crate::json::lemma_json_views_new(vals@);
        assert(crate::json::json_views(vals@) =~= seq![id_v@, name_v@, decl_v@, desc_v@, ret_v@]);
    }
    let texts = searchable(&vals);
    let hay = join_lines_exec(&texts);
    let entries = vec![
        kv("allowParallelExecution", get_value(method, "allowParallelExecution")),
        kv("clientId", get_value(client, "clientId")),
        kv("clientIpAddress", JsonValue::String(address)),
        kv("clientName", get_value(client, "name")),
        kv("declaringType", decl_v),
        kv("description", desc_v),
        kv("isStatic", get_value(method, "isStatic")),
        kv("methodId", id_v),
        kv("methodName", name_v),
        kv(
            "parameters",
            match method.get("parameters") {
                Some(p) => p.copy(),
                None => JsonValue::Array(Vec::new()),
            },
        ),
        kv("returnType", ret_v),
    ];
    proof {
        crate::json::lemma_entry_views_new(entries@);
        assert(crate::json::json_entry_views(entries@) =~= seq![
            ("allowParallelExecution"@, value_or_null(method@, "allowParallelExecution"@)),
            ("clientId"@, value_or_null(client@, "clientId"@)),
            ("clientIpAddress"@, JsonView::Str(client_address(client@))),
            ("clientName"@, value_or_null(client@, "name"@)),
            ("declaringType"@, value_or_null(method@, "declaringType"@)),
            ("description"@, value_or_null(method@, "description"@)),
            ("isStatic"@, value_or_null(method@, "isStatic"@)),
            ("methodId"@, value_or_null(method@, "id"@)),
            ("methodName"@, value_or_null(method@, "name"@)),
            ("parameters"@, match jget(method@, "parameters"@) {
                Some(p) => p,
                None => JsonView::Array(Seq::empty()),
            }),
            ("returnType"@, value_or_null(method@, "returnType"@)),
        ]);
    }
    let record = JsonValue::Object(entries);
    let haystack = to_lowercase(hay.as_str());
    MethodRecord { record, normalized_method_id, normalized_short_method_id, normalized_method_name, haystack }
}


/// An optional borrowed text, as a sequence of characters.
pub open spec fn opt_text(o: Option<&str>) -> Option<Seq<char>> {
    match o {
        Some(t) => Some(t@),
        None => None,
    }
}

/// The array member `key` of `v`, or nothing.
pub open spec fn array_or_empty(v: JsonView, key: Seq<char>) -> Seq<JsonView> {
    match jarray(jget(v, key)) {
        Some(a) => a,
        None => Seq::empty(),
    }
}

/// No filter, or the string member `key` of `v` is the expected text.
pub open spec fn matches_text(v: JsonView, key: Seq<char>, expected: Option<Seq<char>>) -> bool {
    match expected {
        None => true,
        Some(e) => crate::json::jget_str(v, key) == Some(e),
    }
}

/// Each method of a client, with the client.
pub open spec fn client_methods(client: JsonView) -> Seq<(JsonView, JsonView)> {
    array_or_empty(client, "methods"@).map_values(|m: JsonView| (client, m))
}

/// The methods of the clients that the filter keeps, client by client, each
/// with its client.
pub open spec fn method_sources(clients: Seq<JsonView>, client_id: Option<Seq<char>>) -> Seq<(JsonView, JsonView)>
    decreases clients.len(),
{
    if clients.len() == 0 {
        Seq::empty()
    } else {
        let r = method_sources(clients.drop_last(), client_id);
        if matches_text(clients.last(), "clientId"@, client_id) {
            r + client_methods(clients.last())
        } else {
            r
        }
    }
}

/// The records are those of these methods, one for one.
pub open spec fn records_of(rs: Seq<MethodRecord>, src: Seq<(JsonView, JsonView)>) -> bool {
    &&& rs.len() == src.len()
    &&& forall|i: int| 0 <= i < rs.len() ==> #[trigger] is_method_record(rs[i], src[i].0, src[i].1)
}

/// The methods that a `/api/unity-clients` payload lists, of every client or
/// only of the client `client_id`.
pub open spec fn payload_methods(payload: JsonView, client_id: Option<Seq<char>>) -> Seq<(JsonView, JsonView)> {
    method_sources(array_or_empty(payload, "clients"@), client_id)
}

fn matches_text_exec(v: &JsonValue, key: &str, expected: Option<&str>) -> (r: bool)
    ensures
        r == matches_text(v@, key@, opt_text(expected)),
{
    match expected {
        None => true,
        Some(e) => match v.get_str(key) {
            Some(t) => str_eq(t, e),
            None => false,
        },
    }
}

/// The records of the methods of the clients in a payload.
pub fn collect_methods(payload: &JsonValue, client_id: Option<&str>) -> (r: Vec<MethodRecord>)
    ensures
        record_views(r@) == source_records(payload_methods(payload@, opt_text(client_id))),
{
    let mut out: Vec<MethodRecord> = Vec::new();
    let clients = match payload.get_array("clients") {
        Some(a) => a,
        None => {
            assert(record_views(out@) =~= source_records(payload_methods(payload@, opt_text(client_id))));
            return out;
        },
    };
    let ghost cv = crate::json::json_views(clients@);
    proof {
        crate::json::lemma_json_views_len(clients@);
    }
    let mut i: usize = 0;
    while i < clients.len()
        invariant
            i <= clients@.len(),
            cv == crate::json::json_views(clients@),
            cv.len() == clients@.len(),
            records_of(out@, method_sources(cv.subrange(0, i as int), opt_text(client_id))),
        decreases clients@.len() - i,
    {
        let client = &clients[i];
        proof {
            crate::json::lemma_json_views_index(clients@, i as int);
            let a = cv.subrange(0, i + 1);
            assert(a.drop_last() == cv.subrange(0, i as int));
            assert(a.last() == client@);
        }
        if matches_text_exec(client, "clientId", client_id) {
            let ghost base = out@;
            let ghost prev = method_sources(cv.subrange(0, i as int), opt_text(client_id));
            match client.get_array("methods") {
                Some(ms) => {
                    proof {
                        crate::json::lemma_json_views_len(ms@);
                    }
                    let ghost mv = crate::json::json_views(ms@);
                    let mut j: usize = 0;
                    while j < ms.len()
                        invariant
                            j <= ms@.len(),
                            mv == crate::json::json_views(ms@),
                            mv.len() == ms@.len(),
                            array_or_empty(client@, "methods"@) == mv,
                            out@.len() == base.len() + j,
                            out@.subrange(0, base.len() as int) == base,
                            records_of(base, prev),
                            forall|k: int|
                                0 <= k < j ==> #[trigger] is_method_record(
                                    out@[base.len() + k],
                                    client@,
                                    mv[k],
                                ),
                        decreases ms@.len() - j,
                    {
                        proof {
                            crate::json::lemma_json_views_index(ms@, j as int);
                        }
                        let rec = to_method_record(client, &ms[j]);
                        let ghost before = out@;
                        out.push(rec);
                        assert(out@.subrange(0, base.len() as int) =~= before.subrange(0, base.len() as int));
                        assert forall|k: int| 0 <= k < j + 1 implies #[trigger] is_method_record(
                            out@[base.len() + k],
                            client@,
                            mv[k],
                        ) by {
                            if k < j {
                                assert(out@[base.len() + k] == before[base.len() + k]);
                            }
                        }
                        j = j + 1;
                    }
                    let ghost all = prev + client_methods(client@);
                    assert forall|k: int| 0 <= k < out@.len() implies #[trigger] is_method_record(out@[k], all[k].0, all[k].1) by {
                        if k < base.len() {
                            assert(out@[k] == base[k]);
                        } else {
                            assert(is_method_record(out@[base.len() + (k - base.len())], client@, mv[k - base.len()]));
                        }
                    }
                },
                None => {
                    assert(client_methods(client@) =~= Seq::empty());
                    assert(prev + client_methods(client@) =~= prev);
                },
            }
        }
        i = i + 1;
    }
    assert(cv.subrange(0, clients@.len() as int) == cv);
    proof {
        let src = payload_methods(payload@, opt_text(client_id));
        assert forall|k: int| 0 <= k < out@.len() implies #[trigger] record_views(out@)[k] == source_records(src)[k] by {
            assert(is_method_record(out@[k], src[k].0, src[k].1));
        }
        assert(record_views(out@) =~= source_records(src));
    }
    out
}


/// How many of `n` hits a list limited to `limit` shows.
pub open spec fn shown(n: nat, limit: nat) -> nat {
    if n > limit {
        limit
    } else {
        n
    }
}

/// A search hit: every method when the query is empty, else those whose search
/// text holds the query.
pub open spec fn is_hit(m: MethodRecordView, q: Seq<char>) -> bool {
    q.len() == 0 || crate::text::contains_seq(m.haystack, q)
}

/// The records of the hits, in order.
pub open spec fn hit_records(ms: Seq<MethodRecordView>, q: Seq<char>) -> Seq<JsonView>
    decreases ms.len(),
{
    if ms.len() == 0 {
        Seq::empty()
    } else {
        let r = hit_records(ms.drop_last(), q);
        if is_hit(ms.last(), q) {
            r.push(ms.last().record)
        } else {
            r
        }
    }
}

/// What a search answers: how many methods hold the query (trimmed and
/// lowercased), the first `limit` of them, the query as given, and whether
/// the list was cut.
pub open spec fn search_view(ms: Seq<MethodRecordView>, query: Seq<char>, limit: nat) -> JsonView {
    let hits = hit_records(ms, spec_to_lowercase(trim(query)));
    JsonView::Object(
        seq![
            ("count"@, JsonView::Number(decimal(hits.len()))),
            ("methods"@, JsonView::Array(hits.take(shown(hits.len(), limit) as int))),
            ("query"@, JsonView::Str(query)),
            ("truncated"@, JsonView::Bool(hits.len() > limit)),
        ],
    )
}

proof fn lemma_json_views_push(s: Seq<JsonValue>, x: JsonValue)
    ensures
        crate::json::json_views(s.push(x)) == crate::json::json_views(s).push(x@),
{
    assert(s.push(x).drop_last() =~= s);
}

/// Searches the methods for a text.
pub fn search_methods(methods: &Vec<MethodRecord>, query: &str, limit: usize) -> (r: JsonValue)
    ensures
        r@ == search_view(record_views(methods@), query@, limit as nat),
{
    let t = trim_string(query);
    let q = to_lowercase(t.as_str());
    let all = q.as_str().unicode_len() == 0;
    let ghost ms = record_views(methods@);
    let mut out: Vec<JsonValue> = Vec::new();
    let mut count: usize = 0;
    let mut i: usize = 0;
    while i < methods.len()
        invariant
            i <= methods@.len(),
            ms == record_views(methods@),
            all == (q@.len() == 0),
            count <= i,
            count as nat == hit_records(record_views(methods@.subrange(0, i as int)), q@).len(),
            crate::json::json_views(out@) == hit_records(record_views(methods@.subrange(0, i as int)), q@).take(
                shown(count as nat, limit as nat) as int,
            ),
        decreases methods@.len() - i,
    {
        let ghost prev = hit_records(record_views(methods@.subrange(0, i as int)), q@);
        let ghost a = record_views(methods@.subrange(0, i + 1));
        assert(a.drop_last() =~= record_views(methods@.subrange(0, i as int)));
        assert(a.last() == methods@[i as int]@);
        if all || crate::text::contains_str(methods[i].haystack.as_str(), q.as_str()) {
            let ghost next = prev.push(methods@[i as int]@.record);
            assert(hit_records(a, q@) == next);
            if count < limit {
                let ghost before = out@;
                let rec = methods[i].record.copy();
                out.push(rec);
                proof {
                    lemma_json_views_push(before, rec);
                    assert(prev.take(count as int) =~= prev);
                    assert(next.take(count + 1) =~= next);
                }
            } else {
                assert(next.take(limit as int) =~= prev.take(limit as int));
            }
            count = count + 1;
        }
        i = i + 1;
    }
    assert(methods@.subrange(0, methods@.len() as int) == methods@);
    let entries = vec![
        kv("count", JsonValue::Number(u64_to_string(count as u64))),
        kv("methods", JsonValue::Array(out)),
        kv("query", JsonValue::String(copy_str(query))),
        kv("truncated", JsonValue::Bool(count > limit)),
    ];
    proof {
        crate::json::lemma_entry_views_new(entries@);
    }
    let r = JsonValue::Object(entries);
    assert(r@ == search_view(record_views(methods@), query@, limit as nat)) by {
        assert(crate::json::json_entry_views(entries@) =~= seq![
            ("count"@, JsonView::Number(decimal(count as nat))),
            ("methods"@, JsonView::Array(crate::json::json_views(entries@[1].1->Array_0@))),
            ("query"@, JsonView::Str(query@)),
            ("truncated"@, JsonView::Bool(count > limit)),
        ]);
    }
    r
}

/// The answer to a search of the methods in a `/api/unity-clients` payload.
pub fn find_methods_data(payload: &JsonValue, client_id: Option<&str>, query: &str, limit: usize) -> (r: JsonValue)
    ensures
        r@ == search_view(source_records(payload_methods(payload@, opt_text(client_id))), query@, limit as nat),
{
    let methods = collect_methods(payload, client_id);
    search_methods(&methods, query, limit)
}

/// What describe shows of one matched query.
pub open spec fn match_view(query: Seq<char>, kind: MatchKind, m: MethodRecordView) -> JsonView {
    JsonView::Object(
        seq![
            ("matchType"@, JsonView::Str(kind.spec_name())),
            ("method"@, m.record),
            ("query"@, JsonView::Str(query)),
        ],
    )
}

/// Resolves each query in turn; the first that fails decides.
pub open spec fn resolve_all(ms: Seq<MethodRecordView>, qs: Seq<Seq<char>>) -> Result<Seq<JsonView>, Seq<char>>
    decreases qs.len(),
{
    if qs.len() == 0 {
        Ok(Seq::empty())
    } else {
        match resolve_all(ms, qs.drop_last()) {
            Err(e) => Err(e),
            Ok(v) => match spec_resolve_method_query(ms, qs.last()) {
                Err(e) => Err(e),
                Ok((k, i)) => Ok(v.push(match_view(qs.last(), k, ms[i]))),
            },
        }
    }
}

pub open spec fn describe_usage() -> Seq<char> {
    "describe requires --query <methodId-or-methodName>."@
}

/// What describe answers for a `|`-separated list of queries: the one match
/// for a single query, else every match with their count and the query as
/// given; the first query that does not resolve gives the error.
pub open spec fn spec_method_data(ms: Seq<MethodRecordView>, query: Seq<char>) -> Result<JsonView, Seq<char>> {
    let qs = trimmed_nonempty(split_char(query, '|'));
    if qs.len() == 0 {
        Err(describe_usage())
    } else if qs.len() == 1 {
        match spec_resolve_method_query(ms, qs[0]) {
            Ok((k, i)) => Ok(match_view(qs[0], k, ms[i])),
            Err(e) => Err(e),
        }
    } else {
        match resolve_all(ms, qs) {
            Ok(v) => Ok(
                JsonView::Object(
                    seq![
                        ("count"@, JsonView::Number(decimal(v.len()))),
                        ("methods"@, JsonView::Array(v)),
                        ("query"@, JsonView::Str(query)),
                    ],
                ),
            ),
            Err(e) => Err(e),
        }
    }
}

proof fn lemma_resolve_all_err(ms: Seq<MethodRecordView>, qs: Seq<Seq<char>>, j: int)
    requires
        0 <= j <= qs.len(),
        resolve_all(ms, qs.take(j)) is Err,
    ensures
        resolve_all(ms, qs) == resolve_all(ms, qs.take(j)),
    decreases qs.len(),
{
    if j == qs.len() {
        assert(qs.take(j) =~= qs);
    } else {
        assert(qs.drop_last().take(j) =~= qs.take(j));
        lemma_resolve_all_err(ms, qs.drop_last(), j);
    }
}

fn match_data(methods: &Vec<MethodRecord>, m: &MethodMatch) -> (r: JsonValue)
    requires
        m.method < methods@.len(),
    ensures
        r@ == match_view(m.query@, m.match_type, record_views(methods@)[m.method as int]),
{
    let entries = vec![
        kv("matchType", JsonValue::String(copy_str(m.match_type.name()))),
        kv("method", methods[m.method].record.copy()),
        kv("query", JsonValue::String(copy_str(m.query.as_str()))),
    ];
    proof {
        crate::json::lemma_entry_views_new(entries@);
        assert(crate::json::json_entry_views(entries@) =~= seq![
            ("matchType"@, JsonView::Str(m.match_type.spec_name())),
            ("method"@, methods@[m.method as int].record@),
            ("query"@, JsonView::Str(m.query@)),
        ]);
    }
    JsonValue::Object(entries)
}

/// Describes the methods that a `|`-separated list of queries names exactly.
pub fn describe_methods(methods: &Vec<MethodRecord>, query: &str) -> (r: Result<JsonValue, String>)
    ensures
        match spec_method_data(record_views(methods@), query@) {
            Ok(v) => r matches Ok(x) && x@ == v,
            Err(e) => r matches Err(x) && x@ == e,
        },
{
    let ghost ms = record_views(methods@);
    let queries = split_method_queries(query);
    let ghost qs = trimmed_nonempty(split_char(query@, '|'));
    assert(string_views(queries@) == qs);
    if queries.len() == 0 {
        return Err(copy_str("describe requires --query <methodId-or-methodName>."));
    }
    if queries.len() == 1 {
        assert(queries@[0]@ == qs[0]);
        return match resolve_method_query(methods, queries[0].as_str()) {
            Ok(m) => {
                let d = match_data(methods, &m);
                assert(spec_method_data(ms, query@) == Ok::<JsonView, Seq<char>>(d@));
                Ok(d)
            },
            Err(e) => Err(e),
        };
    }
    let mut out: Vec<JsonValue> = Vec::new();
    let mut i: usize = 0;
    while i < queries.len()
        invariant
            i <= queries@.len(),
            queries@.len() > 1,
            qs == trimmed_nonempty(split_char(query@, '|')),
            ms == record_views(methods@),
            string_views(queries@) == qs,
            resolve_all(ms, qs.take(i as int)) == Ok::<Seq<JsonView>, Seq<char>>(crate::json::json_views(out@)),
        decreases queries@.len() - i,
    {
        assert(queries@[i as int]@ == qs[i as int]);
        assert(qs.take(i + 1).drop_last() =~= qs.take(i as int));
        assert(qs.take(i + 1).last() == qs[i as int]);
        match resolve_method_query(methods, queries[i].as_str()) {
            Ok(m) => {
                let d = match_data(methods, &m);
                let ghost before = out@;
                out.push(d);
                proof {
                    lemma_json_views_push(before, d);
                }
            },
            Err(e) => {
                proof {
                    assert(spec_resolve_method_query(ms, qs[i as int]) == Err::<(MatchKind, int), Seq<char>>(e@));
                    assert(resolve_all(ms, qs.take(i + 1)) == Err::<Seq<JsonView>, Seq<char>>(e@));
                    lemma_resolve_all_err(ms, qs, i + 1);
                }
                return Err(e);
            },
        }
        i = i + 1;
    }
    assert(qs.take(queries@.len() as int) =~= qs);
    let n = out.len();
    proof {
        crate::json::lemma_json_views_len(out@);
    }
    let entries = vec![
        kv("count", JsonValue::Number(u64_to_string(n as u64))),
        kv("methods", JsonValue::Array(out)),
        kv("query", JsonValue::String(copy_str(query))),
    ];
    proof {
        crate::json::lemma_entry_views_new(entries@);
    }
    let r = JsonValue::Object(entries);
    assert(resolve_all(ms, qs) == Ok::<Seq<JsonView>, Seq<char>>(crate::json::json_views(entries@[1].1->Array_0@)));
    assert(r@ == spec_method_data(ms, query@)->Ok_0) by {
        assert(crate::json::json_entry_views(entries@) =~= seq![
            ("count"@, JsonView::Number(decimal(n as nat))),
            ("methods"@, JsonView::Array(crate::json::json_views(entries@[1].1->Array_0@))),
            ("query"@, JsonView::Str(query@)),
        ]);
    }
    Ok(r)
}

/// The check that describe makes before it asks the server for anything: a
/// query list with no query in it is refused with the usage text.
pub fn check_describe_query(query: &str) -> (r: Result<(), String>)
    ensures
        trimmed_nonempty(split_char(query@, '|')).len() == 0 <==> r is Err,
        r matches Err(e) ==> e@ == describe_usage(),
{
    let queries = split_method_queries(query);
    assert(string_views(queries@).len() == queries@.len());
    if queries.len() == 0 {
        return Err(copy_str("describe requires --query <methodId-or-methodName>."));
    }
    Ok(())
}

/// What describe answers for the methods in a `/api/unity-clients` payload.
pub fn get_method_data(payload: &JsonValue, client_id: Option<&str>, query: &str) -> (r: Result<JsonValue, String>)
    ensures
        match spec_method_data(source_records(payload_methods(payload@, opt_text(client_id))), query@) {
            Ok(v) => r matches Ok(x) && x@ == v,
            Err(e) => r matches Err(x) && x@ == e,
        },
{
    let methods = collect_methods(payload, client_id);
    describe_methods(&methods, query)
}

/// The members of an object without `methods` and `methodCount`.
pub open spec fn summary_entries(es: Seq<(Seq<char>, JsonView)>) -> Seq<(Seq<char>, JsonView)>
    decreases es.len(),
{
    if es.len() == 0 {
        Seq::empty()
    } else {
        let r = summary_entries(es.drop_last());
        if es.last().0 == "methods"@ || es.last().0 == "methodCount"@ {
            r
        } else {
            r.push(es.last())
        }
    }
}

/// A client as the short listing shows it: its members but `methods`, and
/// how many methods it has as `methodCount` (a value that is no object counts
/// as an empty one).
pub open spec fn client_summary(client: JsonView) -> JsonView {
    let es = match client {
        JsonView::Object(es) => es,
        _ => Seq::empty(),
    };
    JsonView::Object(
        summary_entries(es).push(("methodCount"@, JsonView::Number(decimal(array_or_empty(client, "methods"@).len())))),
    )
}

/// Each client as listed: whole, or as its summary.
pub open spec fn listed_client(client: JsonView, include_methods: bool) -> JsonView {
    if include_methods {
        client
    } else {
        client_summary(client)
    }
}

/// The listing of the clients in a `/api/unity-clients` payload.
pub open spec fn clients_view(payload: JsonView, include_methods: bool) -> JsonView {
    let cs = array_or_empty(payload, "clients"@);
    JsonView::Object(
        seq![
            ("clients"@, JsonView::Array(cs.map_values(|c: JsonView| listed_client(c, include_methods)))),
            ("count"@, JsonView::Number(decimal(cs.len()))),
        ],
    )
}

fn summarize_client(client: &JsonValue) -> (r: JsonValue)
    ensures
        r@ == client_summary(client@),
{
    let n: usize = match client.get_array("methods") {
        Some(ms) => {
            proof {
                crate::json::lemma_json_views_len(ms@);
            }
            ms.len()
        },
        None => 0,
    };
    let mut out: Vec<(String, JsonValue)> = Vec::new();
    match client {
        JsonValue::Object(es) => {
            let ghost ev = crate::json::json_entry_views(es@);
            proof {
                crate::json::lemma_entry_views_len(es@);
            }
            let mut i: usize = 0;
            while i < es.len()
                invariant
                    i <= es@.len(),
                    ev == crate::json::json_entry_views(es@),
                    ev.len() == es@.len(),
                    crate::json::json_entry_views(out@) == summary_entries(ev.subrange(0, i as int)),
                decreases es@.len() - i,
            {
                proof {
                    crate::json::lemma_entry_views_index(es@, i as int);
                    let a = ev.subrange(0, i + 1);
                    assert(a.drop_last() =~= ev.subrange(0, i as int));
                    assert(a.last() == ev[i as int]);
                }
                let k = es[i].0.as_str();
                if !str_eq(k, "methods") && !str_eq(k, "methodCount") {
                    let ghost before = out@;
                    out.push((copy_str(k), es[i].1.copy()));
                    assert(out@.drop_last() =~= before);
                }
                i = i + 1;
            }
            assert(ev.subrange(0, es@.len() as int) =~= ev);
        },
        _ => {
            assert(crate::json::json_entry_views(out@) =~= summary_entries(Seq::empty()));
        },
    }
    let ghost es_view = match client@ {
        JsonView::Object(es) => es,
        _ => Seq::empty(),
    };
    assert(crate::json::json_entry_views(out@) == summary_entries(es_view));
    assert(n as nat == array_or_empty(client@, "methods"@).len());
    let ghost before = out@;
    let count_text = u64_to_string(n as u64);
    let key = copy_str("methodCount");
    let entry = (key, JsonValue::Number(count_text));
    assert(entry.1@ == JsonView::Number(decimal(n as nat)));
    out.push(entry);
    assert(out@.drop_last() =~= before);
    assert(out@.last() == entry);
    assert(crate::json::json_entry_views(out@) == crate::json::json_entry_views(before).push(("methodCount"@, JsonView::Number(decimal(n as nat)))));
    JsonValue::Object(out)
}

/// Lists the clients in a `/api/unity-clients` payload, whole or summed up.
pub fn list_unity_clients_data(payload: &JsonValue, include_methods: bool) -> (r: JsonValue)
    ensures
        r@ == clients_view(payload@, include_methods),
{
    let mut out: Vec<JsonValue> = Vec::new();
    let ghost cs = array_or_empty(payload@, "clients"@);
    let n: usize = match payload.get_array("clients") {
        Some(clients) => {
            proof {
                crate::json::lemma_json_views_len(clients@);
            }
            let mut i: usize = 0;
            while i < clients.len()
                invariant
                    i <= clients@.len(),
                    cs == crate::json::json_views(clients@),
                    cs.len() == clients@.len(),
                    crate::json::json_views(out@) == cs.take(i as int).map_values(|c: JsonView| listed_client(c, include_methods)),
                decreases clients@.len() - i,
            {
                proof {
                    crate::json::lemma_json_views_index(clients@, i as int);
                }
                let c = if include_methods {
                    clients[i].copy()
                } else {
                    summarize_client(&clients[i])
                };
                let ghost before = out@;
                out.push(c);
                proof {
                    lemma_json_views_push(before, c);
                    assert(cs.take(i + 1).map_values(|c: JsonView| listed_client(c, include_methods)) =~= cs.take(
                        i as int,
                    ).map_values(|c: JsonView| listed_client(c, include_methods)).push(listed_client(cs[i as int], include_methods)));
                }
                i = i + 1;
            }
            assert(cs.take(clients@.len() as int) =~= cs);
            clients.len()
        },
        None => {
            assert(cs.map_values(|c: JsonView| listed_client(c, include_methods)) =~= Seq::<JsonView>::empty());
            0
        },
    };
    let entries = vec![kv("clients", JsonValue::Array(out)), kv("count", JsonValue::Number(u64_to_string(n as u64)))];
    proof {
        crate::json::lemma_entry_views_new(entries@);
        assert(crate::json::json_entry_views(entries@) =~= seq![
            ("clients"@, JsonView::Array(cs.map_values(|c: JsonView| listed_client(c, include_methods)))),
            ("count"@, JsonView::Number(decimal(cs.len()))),
        ]);
    }
    JsonValue::Object(entries)
}

/// The results that the three filters keep, in order.
pub open spec fn filtered_results(
    rs: Seq<JsonView>,
    client_id: Option<Seq<char>>,
    status: Option<Seq<char>>,
    sequence_id: Option<Seq<char>>,
) -> Seq<JsonView>
    decreases rs.len(),
{
    if rs.len() == 0 {
        Seq::empty()
    } else {
        let r = filtered_results(rs.drop_last(), client_id, status, sequence_id);
        let x = rs.last();
        if matches_text(x, "clientId"@, client_id) && matches_text(x, "status"@, status) && matches_text(
            x,
            "sequenceId"@,
            sequence_id,
        ) {
            r.push(x)
        } else {
            r
        }
    }
}

/// The listing of results: those of a `/api/results` payload that the filters
/// keep, at most `limit` of them, and how many were listed.
pub open spec fn results_view(
    payload: JsonView,
    client_id: Option<Seq<char>>,
    status: Option<Seq<char>>,
    sequence_id: Option<Seq<char>>,
    limit: nat,
) -> JsonView {
    let kept = filtered_results(array_or_empty(payload, "results"@), client_id, status, sequence_id);
    let shown_results = kept.take(shown(kept.len(), limit) as int);
    JsonView::Object(
        seq![
            ("count"@, JsonView::Number(decimal(shown_results.len()))),
            ("results"@, JsonView::Array(shown_results)),
        ],
    )
}

/// Lists the results of a `/api/results` payload that match the filters.
pub fn get_results_data(
    payload: &JsonValue,
    client_id: Option<&str>,
    status: Option<&str>,
    sequence_id: Option<&str>,
    limit: usize,
) -> (r: JsonValue)
    ensures
        r@ == results_view(payload@, opt_text(client_id), opt_text(status), opt_text(sequence_id), limit as nat),
{
    let ghost rs = array_or_empty(payload@, "results"@);
    let ghost (c, st, sq) = (opt_text(client_id), opt_text(status), opt_text(sequence_id));
    let mut out: Vec<JsonValue> = Vec::new();
    let mut count: usize = 0;
    match payload.get_array("results") {
        Some(results) => {
            proof {
                crate::json::lemma_json_views_len(results@);
            }
            let mut i: usize = 0;
            while i < results.len()
                invariant
                    i <= results@.len(),
                    rs == crate::json::json_views(results@),
                    rs.len() == results@.len(),
                    c == opt_text(client_id),
                    st == opt_text(status),
                    sq == opt_text(sequence_id),
                    count <= i,
                    count as nat == filtered_results(rs.subrange(0, i as int), c, st, sq).len(),
                    crate::json::json_views(out@) == filtered_results(rs.subrange(0, i as int), c, st, sq).take(
                        shown(count as nat, limit as nat) as int,
                    ),
                decreases results@.len() - i,
            {
                proof {
                    crate::json::lemma_json_views_index(results@, i as int);
                    let a = rs.subrange(0, i + 1);
                    assert(a.drop_last() =~= rs.subrange(0, i as int));
                    assert(a.last() == rs[i as int]);
                }
                let ghost prev = filtered_results(rs.subrange(0, i as int), c, st, sq);
                let x = &results[i];
                if matches_text_exec(x, "clientId", client_id) && matches_text_exec(x, "status", status)
                    && matches_text_exec(x, "sequenceId", sequence_id) {
                    let ghost next = prev.push(x@);
                    if count < limit {
                        let ghost before = out@;
                        let y = x.copy();
                        out.push(y);
                        proof {
                            lemma_json_views_push(before, y);
                            assert(prev.take(count as int) =~= prev);
                            assert(next.take(count + 1) =~= next);
                        }
                    } else {
                        assert(next.take(limit as int) =~= prev.take(limit as int));
                    }
                    count = count + 1;
                }
                i = i + 1;
            }
            assert(rs.subrange(0, results@.len() as int) =~= rs);
        },
        None => {
            assert(rs =~= Seq::<JsonView>::empty());
            assert(filtered_results(rs, c, st, sq) =~= Seq::<JsonView>::empty());
            assert(crate::json::json_views(out@) =~= Seq::<JsonView>::empty());
        },
    }
    assert(crate::json::json_views(out@) == filtered_results(rs, c, st, sq).take(
        shown(filtered_results(rs, c, st, sq).len(), limit as nat) as int,
    ));
    let n = out.len();
    proof {
        crate::json::lemma_json_views_len(out@);
    }
    let entries = vec![kv("count", JsonValue::Number(u64_to_string(n as u64))), kv("results", JsonValue::Array(out))];
    proof {
        crate::json::lemma_entry_views_new(entries@);
        let kept = filtered_results(rs, c, st, sq);
        assert(crate::json::json_entry_views(entries@) =~= seq![
            ("count"@, JsonView::Number(decimal(n as nat))),
            ("results"@, JsonView::Array(kept.take(shown(kept.len(), limit as nat) as int))),
        ]);
    }
    JsonValue::Object(entries)
}

/// The answer to a health check: the server's health and its address.
pub fn get_health_data(server_url: &str, health: JsonValue) -> (r: JsonValue)
    ensures
        r@ == JsonView::Object(seq![("health"@, health@), ("serverUrl"@, JsonView::Str(server_url@))]),
{
    let ghost h = health@;
    let entries = vec![kv("health", health), kv("serverUrl", JsonValue::String(copy_str(server_url)))];
    proof {
        crate::json::lemma_entry_views_new(entries@);
        assert(crate::json::json_entry_views(entries@) =~= seq![("health"@, h), ("serverUrl"@, JsonView::Str(server_url@))]);
    }
    JsonValue::Object(entries)
}

/// The path that asks the server to refresh a client's methods when needed.
pub fn refresh_methods_path(client_id: &str) -> (r: String)
    ensures
        r@ == "/api/unity-clients/"@ + encoded_path_segment(client_id@) + "/refresh-methods-if-needed"@,
{
    let e = encode_path_segment(client_id);
    concat3("/api/unity-clients/", e.as_str(), "/refresh-methods-if-needed")
}

/// What a reply of the QA server comes to: its body when the status is a
/// success (2xx), else the body's `error` text, or a message with the status.
pub open spec fn spec_check_response(status: u16, body: JsonView) -> Result<JsonView, Seq<char>> {
    if 200 <= status <= 299 {
        Ok(body)
    } else {
        match crate::json::jget_str(body, "error"@) {
            Some(e) => Err(e),
            None => Err("QA server request failed with HTTP "@ + decimal(status as nat) + "."@),
        }
    }
}

pub fn check_response(status: u16, body: JsonValue) -> (r: Result<JsonValue, String>)
    ensures
        match spec_check_response(status, body@) {
            Ok(v) => r matches Ok(x) && x@ == v,
            Err(e) => r matches Err(x) && x@ == e,
        },
{
    if 200 <= status && status <= 299 {
        return Ok(body);
    }
    match body.get_str("error") {
        Some(e) => Err(copy_str(e)),
        None => {
            let code = u64_to_string(status as u64);
            Err(concat3("QA server request failed with HTTP ", code.as_str(), "."))
        },
    }
}

} // verus!
