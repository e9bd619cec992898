use vstd::prelude::*;
use vstd::string::StrSliceExecFns;
use crate::json::{jarray, jget, jget_str, jstr, json_views, JsonValue, JsonView};
use crate::json_text::{value_string, value_to_string_value};
use crate::server::state::strs;
use crate::text::{copy_str, str_eq, trim, trim_string};

verus! {

/// The longest pause between two steps that a sequence may ask for.
pub const MAX_SEQUENCE_STEP_DELAY_MS: u64 = 300_000;

/// The event types to keep: each trimmed, empty ones and repeats dropped, in
/// the order they first come.
pub open spec fn normalized_event_types(types: Seq<Seq<char>>) -> Seq<Seq<char>>
    decreases types.len(),
{
    if types.len() == 0 {
        Seq::empty()
    } else {
        let r = normalized_event_types(types.drop_last());
        let t = trim(types.last());
        if t.len() == 0 || r.contains(t) {
            r
        } else {
            r.push(t)
        }
    }
}

/// The kept event types hold no empty type and no type twice.
pub proof fn lemma_normalized_event_types_distinct(types: Seq<Seq<char>>)
    ensures
        forall|i: int| 0 <= i < normalized_event_types(types).len() ==> (#[trigger] normalized_event_types(types)[i]).len() > 0,
        forall|i: int, j: int|
            0 <= i < j < normalized_event_types(types).len() ==> normalized_event_types(types)[i]
                != normalized_event_types(types)[j],
    decreases types.len(),
{
    if types.len() > 0 {
        lemma_normalized_event_types_distinct(types.drop_last());
        let r = normalized_event_types(types.drop_last());
        let t = trim(types.last());
        if !(t.len() == 0 || r.contains(t)) {
            let n = r.push(t);
            assert forall|i: int, j: int| 0 <= i < j < n.len() implies n[i] != n[j] by {
                if j == r.len() {
                    if n[i] == n[j] {
                        assert(r.contains(t)) by {
                            assert(r[i] == t);
                        }
                    }
                }
            }
        }
    }
}

pub fn normalize_event_types(event_types: Vec<String>) -> (r: Vec<String>)
    ensures
        strs(r@) == normalized_event_types(strs(event_types@)),
{
    let mut out: Vec<String> = Vec::new();
    let mut i: usize = 0;
    assert(strs(event_types@.subrange(0, 0)) =~= Seq::<Seq<char>>::empty());
    while i < event_types.len()
        invariant
            i <= event_types@.len(),
            strs(out@) == normalized_event_types(strs(event_types@.subrange(0, i as int))),
        decreases event_types@.len() - i,
    {
        let ghost a = strs(event_types@.subrange(0, i + 1));
        assert(a.drop_last() =~= strs(event_types@.subrange(0, i as int)));
        assert(a.last() == event_types@[i as int]@);
        let t = trim_string(event_types[i].as_str());
        let mut seen = false;
        let mut j: usize = 0;
        while j < out.len()
            invariant
                j <= out@.len(),
                seen == exists|k: int| 0 <= k < j && (#[trigger] out@[k])@ == t@,
            decreases out@.len() - j,
        {
            if str_eq(out[j].as_str(), t.as_str()) {
                seen = true;
            }
            j = j + 1;
        }
        let ghost r = strs(out@);
        assert(seen == r.contains(t@)) by {
            if seen {
                let k = choose|k: int| 0 <= k < out@.len() && (#[trigger] out@[k])@ == t@;
                assert(r[k] == t@);
            }
            if r.contains(t@) {
                let k = choose|k: int| 0 <= k < r.len() && r[k] == t@;
                assert(out@[k]@ == t@);
            }
        }
        if t.as_str().unicode_len() > 0 && !seen {
            out.push(t);
            assert(strs(out@) =~= r.push(t@));
        }
        i = i + 1;
    }
    assert(event_types@.subrange(0, event_types@.len() as int) == event_types@);
    out
}

/// Whether an event is kept: it has a type, it is no snapshot unless those
/// are wanted, and its type is wanted (all are when none is named).
pub open spec fn spec_should_keep_event(message: JsonView, types: Seq<Seq<char>>, include_snapshot: bool) -> bool {
    match jstr(jget(message, "type"@)) {
        None => false,
        Some(t) => (include_snapshot || t != "snapshot"@) && (types.len() == 0 || types.contains(t)),
    }
}

pub fn should_keep_event(message: &JsonValue, event_types: &Vec<String>, include_snapshot: bool) -> (r: bool)
    ensures
        r == spec_should_keep_event(message@, strs(event_types@), include_snapshot),
{
    let t = match message.get("type") {
        Some(v) => match v.as_str() {
            Some(t) => t,
            None => return false,
        },
        None => return false,
    };
    if !include_snapshot && str_eq(t, "snapshot") {
        return false;
    }
    if event_types.len() == 0 {
        return true;
    }
    let mut i: usize = 0;
    while i < event_types.len()
        invariant
            i <= event_types@.len(),
            forall|k: int| 0 <= k < i ==> (#[trigger] event_types@[k])@ != t@,
            include_snapshot || t@ != "snapshot"@,
            jstr(jget(message@, "type"@)) == Some(t@),
        decreases event_types@.len() - i,
    {
        if str_eq(event_types[i].as_str(), t) {
            assert(strs(event_types@)[i as int] == t@);
            assert(strs(event_types@).contains(t@));
            return true;
        }
        i = i + 1;
    }
    assert(!strs(event_types@).contains(t@)) by {
        if strs(event_types@).contains(t@) {
            let k = choose|k: int| 0 <= k < strs(event_types@).len() && strs(event_types@)[k] == t@;
            assert(event_types@[k]@ == t@);
        }
    }
    false
}

/// A filter `key` that is absent or not a string matches anything; else the
/// value's `key` must be that string.
pub open spec fn spec_matches_optional_string(value: JsonView, filters: JsonView, key: Seq<char>) -> bool {
    match jstr(jget(filters, key)) {
        None => true,
        Some(expected) => jstr(jget(value, key)) == Some(expected),
    }
}

pub fn matches_optional_string(value: &JsonValue, filters: &JsonValue, key: &str) -> (r: bool)
    ensures
        r == spec_matches_optional_string(value@, filters@, key@),
{
    let expected = match filters.get(key) {
        Some(v) => match v.as_str() {
            Some(e) => e,
            None => return true,
        },
        None => return true,
    };
    match value.get(key) {
        Some(v) => match v.as_str() {
            Some(actual) => str_eq(actual, expected),
            None => false,
        },
        None => false,
    }
}

/// Whether a result answers a wait: every string filter among `requestId`,
/// `sequenceId`, `clientId`, `methodId`, `methodName` and `status` matches.
pub open spec fn spec_matches_result_filter(result: JsonView, filters: JsonView) -> bool {
    &&& spec_matches_optional_string(result, filters, "requestId"@)
    &&& spec_matches_optional_string(result, filters, "sequenceId"@)
    &&& spec_matches_optional_string(result, filters, "clientId"@)
    &&& spec_matches_optional_string(result, filters, "methodId"@)
    &&& spec_matches_optional_string(result, filters, "methodName"@)
    &&& spec_matches_optional_string(result, filters, "status"@)
}

/// The members a wait for a result can filter on.
pub open spec fn result_filter_keys() -> Seq<Seq<char>> {
    seq!["requestId"@, "sequenceId"@, "clientId"@, "methodId"@, "methodName"@, "status"@]
}

/// A result answers a wait exactly when, for each of the six filter keys that
/// the wait gives as a string, the result's member of that key is that same
/// string; a wait for one request id is not answered by a result of another.
pub proof fn lemma_result_filter_is_exact(result: JsonView, filters: JsonView)
    ensures
        spec_matches_result_filter(result, filters) <==> forall|i: int|
            0 <= i < result_filter_keys().len() && jget_str(filters, #[trigger] result_filter_keys()[i]) is Some
                ==> jget_str(result, result_filter_keys()[i]) == jget_str(filters, result_filter_keys()[i]),
{
    let ks = result_filter_keys();
    let all = forall|i: int|
        0 <= i < ks.len() && jget_str(filters, #[trigger] ks[i]) is Some ==> jget_str(result, ks[i]) == jget_str(
            filters,
            ks[i],
        );
    if all {
        assert(jget_str(filters, ks[0]) is Some ==> jget_str(result, ks[0]) == jget_str(filters, ks[0]));
        assert(jget_str(filters, ks[1]) is Some ==> jget_str(result, ks[1]) == jget_str(filters, ks[1]));
        assert(jget_str(filters, ks[2]) is Some ==> jget_str(result, ks[2]) == jget_str(filters, ks[2]));
        assert(jget_str(filters, ks[3]) is Some ==> jget_str(result, ks[3]) == jget_str(filters, ks[3]));
        assert(jget_str(filters, ks[4]) is Some ==> jget_str(result, ks[4]) == jget_str(filters, ks[4]));
        assert(jget_str(filters, ks[5]) is Some ==> jget_str(result, ks[5]) == jget_str(filters, ks[5]));
    }
    if spec_matches_result_filter(result, filters) {
        assert forall|i: int|
            0 <= i < ks.len() && jget_str(filters, #[trigger] ks[i]) is Some implies jget_str(result, ks[i])
                == jget_str(filters, ks[i]) by {
            if i == 0 {
            } else if i == 1 {
            } else if i == 2 {
            } else if i == 3 {
            } else if i == 4 {
            } else {
            }
        }
    }
}

pub fn matches_result_filter(result: &JsonValue, filters: &JsonValue) -> (r: bool)
    ensures
        r == spec_matches_result_filter(result@, filters@),
        r ==> forall|i: int|
            0 <= i < result_filter_keys().len() && jget_str(filters@, #[trigger] result_filter_keys()[i]) is Some
                ==> jget_str(result@, result_filter_keys()[i]) == jget_str(filters@, result_filter_keys()[i]),
{
    proof {
        lemma_result_filter_is_exact(result@, filters@);
    }
    matches_optional_string(result, filters, "requestId") && matches_optional_string(
        result,
        filters,
        "sequenceId",
    ) && matches_optional_string(result, filters, "clientId") && matches_optional_string(
        result,
        filters,
        "methodId",
    ) && matches_optional_string(result, filters, "methodName") && matches_optional_string(
        result,
        filters,
        "status",
    )
}

/// Whether a finished sequence answers a wait: the wait names its sequence id,
/// and the client and status filters match.
pub open spec fn spec_matches_sequence_filter(sequence: JsonView, filters: JsonView) -> bool {
    &&& match jstr(jget(filters, "sequenceId"@)) {
        Some(sid) => jstr(jget(sequence, "sequenceId"@)) == Some(sid),
        None => false,
    }
    &&& spec_matches_optional_string(sequence, filters, "clientId"@)
    &&& spec_matches_optional_string(sequence, filters, "status"@)
}

pub fn matches_sequence_filter(sequence: &JsonValue, filters: &JsonValue) -> (r: bool)
    ensures
        r == spec_matches_sequence_filter(sequence@, filters@),
{
    let names = match filters.get("sequenceId") {
        Some(v) => match v.as_str() {
            Some(sid) => match sequence.get("sequenceId") {
                Some(w) => match w.as_str() {
                    Some(actual) => str_eq(actual, sid),
                    None => false,
                },
                None => false,
            },
            None => false,
        },
        None => false,
    };
    names && matches_optional_string(sequence, filters, "clientId") && matches_optional_string(
        sequence,
        filters,
        "status",
    )
}

/// A wait must name something to wait for.
pub open spec fn spec_has_wait_filter(filters: JsonView) -> bool {
    ||| jstr(jget(filters, "requestId"@)) is Some
    ||| jstr(jget(filters, "sequenceId"@)) is Some
    ||| jstr(jget(filters, "clientId"@)) is Some
    ||| jstr(jget(filters, "methodId"@)) is Some
    ||| jstr(jget(filters, "methodName"@)) is Some
}

fn has_string(filters: &JsonValue, key: &str) -> (r: bool)
    ensures
        r == (jstr(jget(filters@, key@)) is Some),
{
    match filters.get(key) {
        Some(v) => v.as_str().is_some(),
        None => false,
    }
}

pub fn ensure_result_wait_filter(filters: &JsonValue) -> (r: Result<(), String>)
    ensures
        r is Ok <==> spec_has_wait_filter(filters@),
        r is Err ==> r->Err_0@ == "At least one of requestId, sequenceId, clientId, methodId, or methodName is required."@,
{
    if has_string(filters, "requestId") || has_string(filters, "sequenceId") || has_string(
        filters,
        "clientId",
    ) || has_string(filters, "methodId") || has_string(filters, "methodName") {
        Ok(())
    } else {
        Err(
            copy_str(
                "At least one of requestId, sequenceId, clientId, methodId, or methodName is required.",
            ),
        )
    }
}

pub fn normalize_step_delay_ms(value: u64) -> (r: u64)
    ensures
        r == if value < MAX_SEQUENCE_STEP_DELAY_MS {
            value
        } else {
            MAX_SEQUENCE_STEP_DELAY_MS
        },
{
    if value < MAX_SEQUENCE_STEP_DELAY_MS {
        value
    } else {
        MAX_SEQUENCE_STEP_DELAY_MS
    }
}

/// The arguments of a call in text form.
pub fn normalize_arguments(method_arguments: &Vec<JsonValue>) -> (r: Vec<String>)
    ensures
        r@.len() == method_arguments@.len(),
        forall|i: int| 0 <= i < r@.len() ==> (#[trigger] r@[i])@ == value_string(method_arguments@[i]@),
{
    let mut out: Vec<String> = Vec::new();
    let mut i: usize = 0;
    while i < method_arguments.len()
        invariant
            i <= method_arguments@.len(),
            out@.len() == i,
            forall|k: int| 0 <= k < i ==> (#[trigger] out@[k])@ == value_string(method_arguments@[k]@),
        decreases method_arguments@.len() - i,
    {
        out.push(value_to_string_value(&method_arguments[i]));
        i = i + 1;
    }
    out
}


/// One event that a session keeps, numbered from 1 in the order it came.
#[derive(Debug)]
pub struct EventRecord {
    pub index: u64,
    pub received_at: String,
    pub event_type: String,
    pub message: JsonValue,
}

/// A session that keeps the latest events of a WebSocket for later polls.
#[derive(Debug)]
pub struct EventSession {
    pub session_id: String,
    pub event_types: Vec<String>,
    pub include_snapshot: bool,
    pub max_events: u64,
    pub ttl_ms: u64,
    pub created_at: String,
    pub expires_at: String,
    pub last_polled_at: Option<String>,
    pub events: Vec<EventRecord>,
    /// The index the next kept event gets.
    pub next_index: u64,
    pub dropped_events: u64,
    pub closed: bool,
    pub close_code: Option<u16>,
    pub close_reason: String,
    pub last_error: String,
}

impl EventSession {
    /// The kept events are the latest ones, numbered without gaps, at most
    /// `max_events` of them, and every event kept so far is either still here
    /// or counted as dropped.
    pub open spec fn wf(&self) -> bool {
        &&& self.next_index >= 1
        &&& self.events@.len() <= self.max_events
        &&& self.dropped_events + self.events@.len() == self.next_index - 1
        &&& forall|k: int|
            0 <= k < self.events@.len() ==> (#[trigger] self.events@[k]).index == self.next_index
                - self.events@.len() + k
    }

    /// A new open session with nothing kept yet.
    pub fn new(
        session_id: String,
        event_types: Vec<String>,
        include_snapshot: bool,
        max_events: u64,
        ttl_ms: u64,
        created_at: String,
        expires_at: String,
    ) -> (r: EventSession)
        ensures
            r.wf(),
            r.session_id == session_id,
            strs(r.event_types@) == normalized_event_types(strs(event_types@)),
            r.include_snapshot == include_snapshot,
            r.max_events == max_events,
            r.ttl_ms == ttl_ms,
            r.created_at == created_at,
            r.expires_at == expires_at,
            r.last_polled_at is None,
            r.events@.len() == 0,
            r.next_index == 1,
            r.dropped_events == 0,
            !r.closed,
            r.close_code is None,
            r.close_reason@.len() == 0,
            r.last_error@.len() == 0,
    {
        EventSession {
            session_id,
            event_types: normalize_event_types(event_types),
            include_snapshot,
            max_events,
            ttl_ms,
            created_at,
            expires_at,
            last_polled_at: None,
            events: Vec::new(),
            next_index: 1,
            dropped_events: 0,
            closed: false,
            close_code: None,
            close_reason: String::new(),
            last_error: String::new(),
        }
    }

    /// Keeps `message` when the session wants it, as the next event, dropping
    /// the oldest events beyond `max_events`. Says whether it was kept.
    pub fn record_event(&mut self, message: JsonValue, received_at: String) -> (kept: bool)
        requires
            old(self).wf(),
            old(self).next_index < u64::MAX,
        ensures
            final(self).wf(),
            kept == spec_should_keep_event(message@, strs(old(self).event_types@), old(self).include_snapshot),
            !kept ==> *final(self) == *old(self),
            kept ==> {
                &&& final(self).next_index == old(self).next_index + 1
                &&& final(self).events@.len() == if old(self).events@.len() + 1 > old(self).max_events {
                    old(self).max_events as int
                } else {
                    old(self).events@.len() + 1int
                }
                &&& final(self).events@.len() > 0 ==> final(self).events@.last().index == old(self).next_index
                    && final(self).events@.last().message@ == message@
            },
            final(self).event_types == old(self).event_types,
            final(self).max_events == old(self).max_events,
    {
        if !should_keep_event(&message, &self.event_types, self.include_snapshot) {
            return false;
        }
        let event_type = match message.get("type") {
            Some(v) => match v.as_str() {
                Some(t) => copy_str(t),
                None => copy_str("unknown"),
            },
            None => copy_str("unknown"),
        };
        let ghost mv = message@;
        let index = self.next_index;
        self.events.push(EventRecord { index, received_at, event_type, message });
        self.next_index = self.next_index + 1;
        let ghost pushed = self.events@;
        while self.events.len() as u64 > self.max_events
            invariant
                self.next_index == old(self).next_index + 1,
                self.max_events == old(self).max_events,
                old(self).events@.len() + 1 <= old(self).max_events ==> self.events@.len() == old(self).events@.len() + 1,
                old(self).events@.len() + 1 > old(self).max_events ==> self.events@.len() >= old(self).max_events,
                self.events@.len() <= old(self).events@.len() + 1,
                self.dropped_events + self.events@.len() == self.next_index - 1,
                self.events@.len() > 0 ==> self.events@.last().index == old(self).next_index
                    && self.events@.last().message@ == mv,
                forall|k: int|
                    0 <= k < self.events@.len() ==> (#[trigger] self.events@[k]).index == self.next_index
                        - self.events@.len() + k,
                self.event_types == old(self).event_types,
            decreases self.events@.len(),
        {
            let ghost before = self.events@;
            let _oldest = self.events.remove(0);
            assert forall|k: int| 0 <= k < self.events@.len() implies (#[trigger] self.events@[k]).index
                == self.next_index - self.events@.len() + k by {
                assert(self.events@[k] == before[k + 1]);
            }
            self.dropped_events = self.dropped_events + 1;
        }
        true
    }

    /// The session closed with `code` and `reason`.
    pub fn mark_closed(&mut self, code: Option<u16>, reason: &str)
        requires
            old(self).wf(),
        ensures
            final(self).wf(),
            final(self).closed,
            final(self).close_code == code,
            final(self).close_reason@ == reason@,
            final(self).events == old(self).events,
            final(self).next_index == old(self).next_index,
    {
        self.closed = true;
        self.close_code = code;
        self.close_reason = copy_str(reason);
    }
}

/// The type an event is filed under: its message's `type`, else `unknown`.
pub open spec fn event_type_of(m: JsonView) -> Seq<char> {
    match message_type(m) {
        Some(t) => t,
        None => "unknown"@,
    }
}

fn event_type_text(message: &JsonValue) -> (r: String)
    ensures
        r@ == event_type_of(message@),
{
    match message.get("type") {
        Some(v) => match v.as_str() {
            Some(t) => copy_str(t),
            None => copy_str("unknown"),
        },
        None => copy_str("unknown"),
    }
}

/// What a watch of the server's events keeps: the wanted events, numbered
/// from 1 in the order they came, at most `max_events` of them; the wanted
/// events that came after that are only counted.
#[derive(Debug)]
pub struct WatchLog {
    pub event_types: Vec<String>,
    pub include_snapshot: bool,
    pub max_events: usize,
    pub events: Vec<EventRecord>,
    pub dropped_events: u64,
}

impl WatchLog {
    pub open spec fn wf(&self) -> bool {
        &&& self.events@.len() <= self.max_events
        &&& forall|k: int| 0 <= k < self.events@.len() ==> (#[trigger] self.events@[k]).index == k + 1
    }

    /// A watch that has kept nothing yet.
    pub fn new(event_types: Vec<String>, include_snapshot: bool, max_events: usize) -> (r: WatchLog)
        ensures
            r.wf(),
            strs(r.event_types@) == normalized_event_types(strs(event_types@)),
            r.include_snapshot == include_snapshot,
            r.max_events == max_events,
            r.events@.len() == 0,
            r.dropped_events == 0,
    {
        WatchLog {
            event_types: normalize_event_types(event_types),
            include_snapshot,
            max_events,
            events: Vec::new(),
            dropped_events: 0,
        }
    }

    /// Takes one message: an unwanted one is passed over, a wanted one is kept
    /// as the next event while there is room, else counted as dropped. Says
    /// whether it was kept.
    pub fn record(&mut self, message: JsonValue, received_at: String) -> (kept: bool)
        requires
            old(self).wf(),
            old(self).dropped_events < u64::MAX,
        ensures
            final(self).wf(),
            final(self).event_types == old(self).event_types,
            final(self).include_snapshot == old(self).include_snapshot,
            final(self).max_events == old(self).max_events,
            !spec_should_keep_event(message@, strs(old(self).event_types@), old(self).include_snapshot) ==> !kept
                && *final(self) == *old(self),
            spec_should_keep_event(message@, strs(old(self).event_types@), old(self).include_snapshot)
                && old(self).events@.len() >= old(self).max_events ==> !kept && final(self).events == old(
                self,
            ).events && final(self).dropped_events == old(self).dropped_events + 1,
            spec_should_keep_event(message@, strs(old(self).event_types@), old(self).include_snapshot)
                && old(self).events@.len() < old(self).max_events ==> {
                &&& kept
                &&& final(self).dropped_events == old(self).dropped_events
                &&& final(self).events@.len() == old(self).events@.len() + 1
                &&& final(self).events@.drop_last() == old(self).events@
                &&& final(self).events@.last().index == old(self).events@.len() + 1
                &&& final(self).events@.last().message@ == message@
                &&& final(self).events@.last().received_at == received_at
                &&& final(self).events@.last().event_type@ == event_type_of(message@)
            },
    {
        if !should_keep_event(&message, &self.event_types, self.include_snapshot) {
            return false;
        }
        if self.events.len() >= self.max_events {
            self.dropped_events = self.dropped_events + 1;
            return false;
        }
        let event_type = event_type_text(&message);
        let index = (self.events.len() as u64) + 1;
        let ghost before = self.events@;
        self.events.push(EventRecord { index, received_at, event_type, message });
        assert(self.events@.drop_last() =~= before);
        true
    }
}

/// What a poll hands back.
#[derive(Debug)]
pub struct EventPoll {
    pub cursor: u64,
    pub next_cursor: u64,
    pub events: Vec<EventRecord>,
    pub has_more: bool,
    /// Events after the cursor that were dropped before this poll.
    pub lost_event_count: u64,
}

fn copy_event(e: &EventRecord) -> (r: EventRecord)
    ensures
        r.index == e.index,
        r.received_at == e.received_at,
        r.event_type == e.event_type,
        r.message@ == e.message@,
{
    EventRecord {
        index: e.index,
        received_at: e.received_at.clone(),
        event_type: e.event_type.clone(),
        message: e.message.copy(),
    }
}

impl EventSession {
    /// The index of the oldest kept event, or the next index when none is kept.
    pub open spec fn first_available(&self) -> u64 {
        if self.events@.len() > 0 {
            self.events@[0].index
        } else {
            self.next_index
        }
    }

    /// How many events after `cursor` were dropped before the oldest kept one.
    pub open spec fn lost_after(&self, cursor: u64) -> u64 {
        if cursor > 0 && cursor + 1 < self.first_available() {
            (self.first_available() - cursor - 1) as u64
        } else {
            0
        }
    }

    /// What a poll from `cursor` for at most `max_events` events hands back:
    /// the count of events lost after the cursor, then, in order, the kept
    /// events with an index above `cursor`, at most `max_events` of them,
    /// whether more are kept, and the index of the last event handed back as
    /// the next cursor (the cursor itself when none is).
    pub open spec fn is_poll(&self, cursor: u64, max_events: u64, r: EventPoll) -> bool {
        let es = self.events@;
        let start = if cursor + 1 < self.first_available() {
            0
        } else {
            (cursor + 1 - self.first_available()) as int
        };
        let start = if start > es.len() {
            es.len() as int
        } else {
            start
        };
        let n = if es.len() - start > max_events {
            max_events as int
        } else {
            es.len() - start
        };
        &&& r.cursor == cursor
        &&& r.lost_event_count == self.lost_after(cursor)
        &&& r.events@.len() == n
        &&& forall|k: int|
            0 <= k < n ==> (#[trigger] r.events@[k]).index == es[start + k].index
                && r.events@[k].message@ == es[start + k].message@
                && r.events@[k].event_type == es[start + k].event_type
                && r.events@[k].received_at == es[start + k].received_at
        &&& r.has_more == (es.len() - start > n)
        &&& r.next_cursor == if n > 0 {
            es[start + n - 1].index
        } else {
            cursor
        }
    }

    /// Hands back, in order, at most `max_events` kept events with an index
    /// above `cursor`, and the cursor to poll from next.
    pub fn poll(&mut self, cursor: u64, max_events: u64, polled_at: String) -> (r: EventPoll)
        requires
            old(self).wf(),
        ensures
            final(self).wf(),
            final(self).last_polled_at == Some(polled_at),
            final(self).events == old(self).events,
            final(self).next_index == old(self).next_index,
            old(self).is_poll(cursor, max_events, r),
    {
        self.last_polled_at = Some(polled_at);
        let first = if self.events.len() > 0 {
            self.events[0].index
        } else {
            self.next_index
        };
        let lost = if cursor > 0 && cursor < first - 1 {
            first - cursor - 1
        } else {
            0
        };
        let ghost es = self.events@;
        let mut start: usize = 0;
        while start < self.events.len() && self.events[start].index <= cursor
            invariant
                start <= es.len(),
                self.events@ == es,
                forall|k: int| 0 <= k < start ==> (#[trigger] es[k]).index <= cursor,
                forall|k: int| 0 <= k < es.len() ==> (#[trigger] es[k]).index == self.next_index - es.len() + k,
                first == (if es.len() > 0 { es[0].index } else { self.next_index }),
            decreases es.len() - start,
        {
            start = start + 1;
        }
        proof {
            if es.len() > 0 {
                if cursor + 1 < first {
                    assert(start == 0) by {
                        if start > 0 {
                            assert(es[0].index <= cursor);
                        }
                    }
                } else {
                    let want = cursor + 1 - first;
                    if want <= es.len() {
                        assert(start == want) by {
                            if start < want {
                                assert(es[start as int].index == first + start);
                            }
                            if start > want {
                                assert(es[want as int].index == cursor + 1);
                            }
                        }
                    } else {
                        assert(start == es.len());
                    }
                }
            }
        }
        let mut out: Vec<EventRecord> = Vec::new();
        let mut i: usize = start;
        while i < self.events.len() && (out.len() as u64) < max_events
            invariant
                start <= i <= es.len(),
                self.events@ == es,
                out@.len() == i - start,
                out@.len() <= max_events,
                forall|k: int|
                    0 <= k < out@.len() ==> (#[trigger] out@[k]).index == es[start + k].index
                        && out@[k].message@ == es[start + k].message@
                        && out@[k].event_type == es[start + k].event_type
                        && out@[k].received_at == es[start + k].received_at,
            decreases es.len() - i,
        {
            out.push(copy_event(&self.events[i]));
            i = i + 1;
        }
        let has_more = i < self.events.len();
        let next_cursor = if out.len() > 0 {
            out[out.len() - 1].index
        } else {
            cursor
        };
        EventPoll { cursor, next_cursor, events: out, has_more, lost_event_count: lost }
    }
}


/// Polling again from the cursor that a poll handed back resumes exactly where
/// that poll stopped: the second poll gives only events that came after every
/// event of the first, and, when the first gave events and said more were
/// kept, the next one in order comes first.
pub proof fn lemma_polls_resume_where_they_stopped(
    s: EventSession,
    cursor: u64,
    first_max: u64,
    first: EventPoll,
    second_max: u64,
    second: EventPoll,
)
    requires
        s.wf(),
        s.is_poll(cursor, first_max, first),
        s.is_poll(first.next_cursor, second_max, second),
    ensures
        forall|i: int, j: int|
            0 <= i < first.events@.len() && 0 <= j < second.events@.len() ==> (#[trigger] first.events@[i]).index
                < (#[trigger] second.events@[j]).index,
        forall|j: int| 0 <= j < second.events@.len() ==> (#[trigger] second.events@[j]).index > first.next_cursor,
        first.has_more && first.events@.len() > 0 && second_max > 0 ==> second.events@.len() > 0
            && second.events@[0].index == first.next_cursor + 1,
{
    let es = s.events@;
    let fa = s.first_available();
    assert forall|j: int| 0 <= j < second.events@.len() implies (#[trigger] second.events@[j]).index > first.next_cursor by {
        let c = first.next_cursor;
        let st = if c + 1 < fa { 0 } else { (c + 1 - fa) as int };
        let st = if st > es.len() { es.len() as int } else { st };
        assert(second.events@[j].index == es[st + j].index);
        assert(es[st + j].index == s.next_index - es.len() + st + j);
        if es.len() > 0 {
            assert(es[0].index == s.next_index - es.len());
        }
    }
    assert forall|i: int, j: int|
        0 <= i < first.events@.len() && 0 <= j < second.events@.len() implies (#[trigger] first.events@[i]).index
        < (#[trigger] second.events@[j]).index by {
        let c = cursor;
        let st = if c + 1 < fa { 0 } else { (c + 1 - fa) as int };
        let st = if st > es.len() { es.len() as int } else { st };
        let n = first.events@.len();
        assert(first.events@[i].index == es[st + i].index);
        assert(es[st + i].index == s.next_index - es.len() + st + i);
        assert(es[st + n - 1].index == s.next_index - es.len() + st + n - 1);
        assert(second.events@[j].index > first.next_cursor);
    }
    if first.has_more && first.events@.len() > 0 && second_max > 0 {
        let c = cursor;
        let st = if c + 1 < fa { 0 } else { (c + 1 - fa) as int };
        let st = if st > es.len() { es.len() as int } else { st };
        let n = first.events@.len() as int;
        let c2 = first.next_cursor;
        assert(es[st + n - 1].index == s.next_index - es.len() + st + n - 1);
        assert(es[0].index == s.next_index - es.len());
        assert(c2 == fa + st + n - 1);
        assert(second.events@[0].index == es[st + n].index);
    }
}

fn member(key: &str, v: JsonValue) -> (r: (String, JsonValue))
    ensures
        r.0@ == key@,
        r.1 == v,
{
    (copy_str(key), v)
}

fn text(s: &str) -> (r: JsonValue)
    ensures
        r@ == JsonView::Str(s@),
{
    JsonValue::String(copy_str(s))
}

fn texts(v: &Vec<String>) -> (r: JsonValue)
    ensures
        r@ == JsonView::Array(str_views(v@)),
{
    let mut out: Vec<JsonValue> = Vec::new();
    let mut i: usize = 0;
    while i < v.len()
        invariant
            i <= v@.len(),
            json_views(out@) == Seq::new(i as nat, |k: int| JsonView::Str(v@[k]@)),
        decreases v@.len() - i,
    {
        let ghost before = out@;
        let x = JsonValue::String(copy_str(v[i].as_str()));
        assert(x@ == JsonView::Str(v@[i as int]@));
        out.push(x);
        proof {
            assert(out@.drop_last() == before);
            assert(out@.last()@ == JsonView::Str(v@[i as int]@));
            assert(json_views(out@) == json_views(before).push(JsonView::Str(v@[i as int]@)));
            assert(json_views(out@) =~= Seq::new((i + 1) as nat, |k: int| JsonView::Str(v@[k]@)));
        }
        i = i + 1;
    }
    assert(json_views(out@) =~= str_views(v@));
    JsonValue::Array(out)
}

/// The `type` of a message, when it is a string.
pub open spec fn message_type(m: JsonView) -> Option<Seq<char>> {
    jstr(jget(m, "type"@))
}

fn message_type_is(m: &JsonValue, t: &str) -> (r: bool)
    ensures
        r == (message_type(m@) == Some(t@)),
{
    match m.get("type") {
        Some(v) => match v.as_str() {
            Some(x) => str_eq(x, t),
            None => false,
        },
        None => false,
    }
}

fn member_copy(m: &JsonValue, key: &str) -> (r: JsonValue)
    ensures
        r@ == match jget(m@, key@) {
            Some(v) => v,
            None => JsonView::Null,
        },
{
    match m.get(key) {
        Some(v) => v.copy(),
        None => JsonValue::Null,
    }
}

fn error_or(m: &JsonValue, fallback: &str) -> (r: String)
    ensures
        r@ == match jstr(jget(m@, "error"@)) {
            Some(e) => e,
            None => fallback@,
        },
{
    match m.get("error") {
        Some(v) => match v.as_str() {
            Some(e) => copy_str(e),
            None => copy_str(fallback),
        },
        None => copy_str(fallback),
    }
}

/// What one message from the server means while a single execution waits.
#[derive(Debug)]
pub enum ExecutionWait {
    /// Keep waiting.
    Waiting,
    /// The server refused the execution, with this error.
    Rejected(String),
    /// The result of the accepted execution came: the accepted execution and
    /// the result.
    Done(JsonValue, JsonValue),
}

/// The state of a single execution that waits for its result.
#[derive(Debug)]
pub struct ExecutionWaiter {
    pub request_id: String,
    pub accepted_execution: JsonValue,
}

/// The request id a result names.
pub open spec fn result_request_id(m: JsonView) -> Option<Seq<char>> {
    match jget(m, "result"@) {
        Some(r) => jstr(jget(r, "requestId"@)),
        None => None,
    }
}

impl ExecutionWaiter {
    pub fn new() -> (r: ExecutionWaiter)
        ensures
            r.request_id@.len() == 0,
            r.accepted_execution@ == JsonView::Null,
    {
        ExecutionWaiter { request_id: String::new(), accepted_execution: JsonValue::Null }
    }

    /// Takes one message: a refusal ends the wait with its error (or a default
    /// one); an acceptance notes the execution and its request id; the result
    /// of that request ends the wait; anything else is passed over.
    pub fn on_message(&mut self, message: &JsonValue) -> (r: ExecutionWait)
        ensures
            message_type(message@) == Some("execute_rejected"@) ==> *final(self) == *old(self)
                && (r matches ExecutionWait::Rejected(e) && e@ == match jstr(jget(message@, "error"@)) {
                Some(e) => e,
                None => "QA server rejected the execution request."@,
            }),
            message_type(message@) == Some("execute_accepted"@) ==> (r matches ExecutionWait::Waiting)
                && final(self).accepted_execution@ == match jget(message@, "execution"@) {
                Some(v) => v,
                None => JsonView::Null,
            } && final(self).request_id@ == match jget(message@, "execution"@) {
                Some(v) => match jstr(jget(v, "requestId"@)) {
                    Some(id) => id,
                    None => Seq::empty(),
                },
                None => Seq::empty(),
            },
            message_type(message@) == Some("qa_result"@) && old(self).request_id@.len() > 0
                && result_request_id(message@) == Some(old(self).request_id@) ==> *final(self) == *old(self)
                && (r matches ExecutionWait::Done(execution, result) && execution@
                == old(self).accepted_execution@ && result@ == match jget(message@, "result"@) {
                Some(v) => v,
                None => JsonView::Null,
            }),
            !(message_type(message@) == Some("execute_rejected"@) || message_type(message@) == Some(
                "execute_accepted"@,
            ) || (message_type(message@) == Some("qa_result"@) && old(self).request_id@.len() > 0
                && result_request_id(message@) == Some(old(self).request_id@))) ==> *final(self)
                == *old(self) && r matches ExecutionWait::Waiting,
    {
        proof {
            reveal_strlit("execute_rejected");
            reveal_strlit("execute_accepted");
            reveal_strlit("qa_result");
            assert("execute_rejected"@[8] != "execute_accepted"@[8]);
            assert("execute_rejected"@[0] != "qa_result"@[0]);
            assert("execute_accepted"@[0] != "qa_result"@[0]);
        }
        if message_type_is(message, "execute_rejected") {
            return ExecutionWait::Rejected(error_or(message, "QA server rejected the execution request."));
        }
        if message_type_is(message, "execute_accepted") {
            let execution = member_copy(message, "execution");
            let rid = match execution.get("requestId") {
                Some(v) => match v.as_str() {
                    Some(id) => copy_str(id),
                    None => String::new(),
                },
                None => String::new(),
            };
            self.accepted_execution = execution;
            self.request_id = rid;
            return ExecutionWait::Waiting;
        }
        if message_type_is(message, "qa_result") && self.request_id.as_str().unicode_len() > 0 {
            let matches = match message.get("result") {
                Some(r) => match r.get("requestId") {
                    Some(v) => match v.as_str() {
                        Some(id) => str_eq(id, self.request_id.as_str()),
                        None => false,
                    },
                    None => false,
                },
                None => false,
            };
            if matches {
                return ExecutionWait::Done(self.accepted_execution.copy(), member_copy(message, "result"));
            }
        }
        ExecutionWait::Waiting
    }
}

/// What one message from the server means while a stop request waits.
#[derive(Debug)]
pub enum StopWait {
    Waiting,
    Rejected(String),
    /// The server acknowledged the stop with this message.
    Accepted(JsonValue),
}

pub fn on_stop_message(message: &JsonValue) -> (r: StopWait)
    ensures
        message_type(message@) == Some("stop_rejected"@) ==> (r matches StopWait::Rejected(e) && e@
            == match jstr(jget(message@, "error"@)) {
            Some(e) => e,
            None => "QA server rejected the stop request."@,
        }),
        message_type(message@) == Some("stop_accepted"@) ==> (r matches StopWait::Accepted(m) && m@
            == message@),
        message_type(message@) != Some("stop_rejected"@) && message_type(message@) != Some(
            "stop_accepted"@,
        ) ==> r matches StopWait::Waiting,
{
    proof {
        reveal_strlit("stop_rejected");
        reveal_strlit("stop_accepted");
        assert("stop_rejected"@[5] != "stop_accepted"@[5]);
    }
    if message_type_is(message, "stop_rejected") {
        StopWait::Rejected(error_or(message, "QA server rejected the stop request."))
    } else if message_type_is(message, "stop_accepted") {
        StopWait::Accepted(message.copy())
    } else {
        StopWait::Waiting
    }
}

/// What one message means while a wait for a result runs.
#[derive(Debug)]
pub enum ResultWait {
    Waiting,
    /// A matching result: `qa_result` and the result.
    Result(JsonValue),
    /// A matching finished sequence.
    Sequence(JsonValue),
}

pub open spec fn member_or_null(m: JsonView, key: Seq<char>) -> JsonView {
    match jget(m, key) {
        Some(v) => v,
        None => JsonView::Null,
    }
}

pub fn on_result_wait_message(message: &JsonValue, filters: &JsonValue) -> (r: ResultWait)
    ensures
        message_type(message@) == Some("qa_result"@) && spec_matches_result_filter(
            member_or_null(message@, "result"@),
            filters@,
        ) ==> (r matches ResultWait::Result(v) && v@ == member_or_null(message@, "result"@)),
        message_type(message@) == Some("sequence_finished"@) && spec_matches_sequence_filter(
            member_or_null(message@, "sequence"@),
            filters@,
        ) ==> (r matches ResultWait::Sequence(v) && v@ == member_or_null(message@, "sequence"@)),
        !(message_type(message@) == Some("qa_result"@) && spec_matches_result_filter(
            member_or_null(message@, "result"@),
            filters@,
        )) && !(message_type(message@) == Some("sequence_finished"@) && spec_matches_sequence_filter(
            member_or_null(message@, "sequence"@),
            filters@,
        )) ==> r matches ResultWait::Waiting,
{
    proof {
        reveal_strlit("qa_result");
        reveal_strlit("sequence_finished");
        assert("qa_result"@[0] != "sequence_finished"@[0]);
    }
    if message_type_is(message, "qa_result") {
        let result = member_copy(message, "result");
        if matches_result_filter(&result, filters) {
            return ResultWait::Result(result);
        }
        return ResultWait::Waiting;
    }
    if message_type_is(message, "sequence_finished") {
        let sequence = member_copy(message, "sequence");
        if matches_sequence_filter(&sequence, filters) {
            return ResultWait::Sequence(sequence);
        }
    }
    ResultWait::Waiting
}


pub open spec fn str_views(v: Seq<String>) -> Seq<JsonView> {
    Seq::new(v.len(), |i: int| JsonView::Str(v[i]@))
}

/// The arguments of a call as JSON strings of their text forms.
pub open spec fn argument_views(args: Seq<JsonView>) -> Seq<JsonView> {
    Seq::new(args.len(), |i: int| JsonView::Str(value_string(args[i])))
}

pub open spec fn name_or(n: Option<String>, d: Seq<char>) -> Seq<char> {
    match n {
        Some(s) => s@,
        None => d,
    }
}

pub open spec fn opt_str_view(o: Option<String>) -> JsonView {
    match o {
        Some(s) => JsonView::Str(s@),
        None => JsonView::Null,
    }
}

fn obj(entries: Vec<(String, JsonValue)>) -> (r: JsonValue)
    ensures
        r@ == JsonView::Object(crate::json::json_entry_views(entries@)),
{
    JsonValue::Object(entries)
}

proof fn lemma_entries4(es: Seq<(String, JsonValue)>)
    requires
        es.len() == 4,
    ensures
        crate::json::json_entry_views(es) == seq![
            (es[0].0@, es[0].1@),
            (es[1].0@, es[1].1@),
            (es[2].0@, es[2].1@),
            (es[3].0@, es[3].1@),
        ],
{
    crate::json::lemma_entry_views_len(es);
    crate::json::lemma_entry_views_index(es, 0);
    crate::json::lemma_entry_views_index(es, 1);
    crate::json::lemma_entry_views_index(es, 2);
    crate::json::lemma_entry_views_index(es, 3);
    assert(crate::json::json_entry_views(es) =~= seq![
        (es[0].0@, es[0].1@),
        (es[1].0@, es[1].1@),
        (es[2].0@, es[2].1@),
        (es[3].0@, es[3].1@),
    ]);
}

proof fn lemma_entries5(es: Seq<(String, JsonValue)>)
    requires
        es.len() == 5,
    ensures
        crate::json::json_entry_views(es) == seq![
            (es[0].0@, es[0].1@),
            (es[1].0@, es[1].1@),
            (es[2].0@, es[2].1@),
            (es[3].0@, es[3].1@),
            (es[4].0@, es[4].1@),
        ],
{
    crate::json::lemma_entry_views_len(es);
    crate::json::lemma_entry_views_index(es, 0);
    crate::json::lemma_entry_views_index(es, 1);
    crate::json::lemma_entry_views_index(es, 2);
    crate::json::lemma_entry_views_index(es, 3);
    crate::json::lemma_entry_views_index(es, 4);
    assert(crate::json::json_entry_views(es) =~= seq![
        (es[0].0@, es[0].1@),
        (es[1].0@, es[1].1@),
        (es[2].0@, es[2].1@),
        (es[3].0@, es[3].1@),
        (es[4].0@, es[4].1@),
    ]);
}

proof fn lemma_entries6(es: Seq<(String, JsonValue)>)
    requires
        es.len() == 6,
    ensures
        crate::json::json_entry_views(es) == seq![
            (es[0].0@, es[0].1@),
            (es[1].0@, es[1].1@),
            (es[2].0@, es[2].1@),
            (es[3].0@, es[3].1@),
            (es[4].0@, es[4].1@),
            (es[5].0@, es[5].1@),
        ],
{
    crate::json::lemma_entry_views_len(es);
    crate::json::lemma_entry_views_index(es, 0);
    crate::json::lemma_entry_views_index(es, 1);
    crate::json::lemma_entry_views_index(es, 2);
    crate::json::lemma_entry_views_index(es, 3);
    crate::json::lemma_entry_views_index(es, 4);
    crate::json::lemma_entry_views_index(es, 5);
    assert(crate::json::json_entry_views(es) =~= seq![
        (es[0].0@, es[0].1@),
        (es[1].0@, es[1].1@),
        (es[2].0@, es[2].1@),
        (es[3].0@, es[3].1@),
        (es[4].0@, es[4].1@),
        (es[5].0@, es[5].1@),
    ]);
}

fn opt_text(o: &Option<String>) -> (r: JsonValue)
    ensures
        r@ == opt_str_view(*o),
{
    match o {
        Some(s) => text(s.as_str()),
        None => JsonValue::Null,
    }
}

/// The `execute` message for one method: its name defaults to its id, and its
/// arguments go in text form.
pub fn execute_message(client_id: &str, method_id: &str, method_name: &Option<String>, arguments: &Vec<JsonValue>) -> (r: JsonValue)
    ensures
        r@ == JsonView::Object(
            seq![
                ("type"@, JsonView::Str("execute"@)),
                ("clientId"@, JsonView::Str(client_id@)),
                ("methodId"@, JsonView::Str(method_id@)),
                ("methodName"@, JsonView::Str(name_or(*method_name, method_id@))),
                ("arguments"@, JsonView::Array(argument_views(json_views(arguments@)))),
            ],
        ),
{
    let args = normalize_arguments(arguments);
    let name = match method_name {
        Some(n) => copy_str(n.as_str()),
        None => copy_str(method_id),
    };
    let a = texts(&args);
    assert(a@ == JsonView::Array(argument_views(json_views(arguments@)))) by {
        crate::json::lemma_json_views_len(arguments@);
        assert forall|i: int| 0 <= i < arguments@.len() implies json_views(arguments@)[i] == arguments@[i]@ by {
            crate::json::lemma_json_views_index(arguments@, i);
        }
        assert(str_views(args@) =~= argument_views(json_views(arguments@)));
    }
    let e0 = member("type", text("execute"));
    let e1 = member("clientId", text(client_id));
    let e2 = member("methodId", text(method_id));
    let e3 = member("methodName", JsonValue::String(name));
    let e4 = member("arguments", a);
    let entries = vec![e0, e1, e2, e3, e4];
    proof {
        assert(entries@ == seq![e0, e1, e2, e3, e4]);
        lemma_entries5(entries@);
        assert(e0.0@ == "type"@ && e0.1@ == JsonView::Str("execute"@));
        assert(e1.0@ == "clientId"@ && e1.1@ == JsonView::Str(client_id@));
        assert(e3.1@ == JsonView::Str(name_or(*method_name, method_id@)));
        assert(e4.1@ == a@);
    }
    let r = obj(entries);
    assert(r@ == JsonView::Object(
            seq![
                ("type"@, JsonView::Str("execute"@)),
                ("clientId"@, JsonView::Str(client_id@)),
                ("methodId"@, JsonView::Str(method_id@)),
                ("methodName"@, JsonView::Str(name_or(*method_name, method_id@))),
                ("arguments"@, JsonView::Array(argument_views(json_views(arguments@)))),
            ],
        ));
    r
}

/// The message that asks to stop an execution or, when one is named, a sequence.
pub fn stop_message(request_id: &Option<String>, sequence_id: &Option<String>, reason: &str) -> (r: JsonValue)
    ensures
        r@ == JsonView::Object(
            seq![
                ("type"@, JsonView::Str(if sequence_id is Some {
                    "stop_sequence"@
                } else {
                    "stop_execution"@
                })),
                ("requestId"@, opt_str_view(*request_id)),
                ("sequenceId"@, opt_str_view(*sequence_id)),
                ("reason"@, JsonView::Str(reason@)),
            ],
        ),
{
    let kind = if sequence_id.is_some() {
        text("stop_sequence")
    } else {
        text("stop_execution")
    };
    let e0 = member("type", kind);
    let e1 = member("requestId", opt_text(request_id));
    let e2 = member("sequenceId", opt_text(sequence_id));
    let e3 = member("reason", text(reason));
    let entries = vec![e0, e1, e2, e3];
    proof {
        assert(entries@ == seq![e0, e1, e2, e3]);
        lemma_entries4(entries@);
    }
    obj(entries)
}

/// A sequence step as the server wants it, read from what the caller gave.
pub open spec fn is_step_message(r: JsonView, step: JsonView) -> bool {
    let mid = jstr(jget(step, "methodId"@))->0;
    let name = match jstr(jget(step, "methodName"@)) {
        Some(n) if n.len() > 0 => n,
        _ => mid,
    };
    let args = match jarray(jget(step, "arguments"@)) {
        Some(items) => argument_views(items),
        None => Seq::empty(),
    };
    let given = jstr(jget(step, "stepId"@));
    match r {
        JsonView::Object(es) => {
            &&& es.len() == 4
            &&& es[0].0 == "stepId"@
            &&& es[0].1 is Str
            &&& (given is Some && given->0.len() > 0 ==> es[0].1->Str_0 == given->0)
            &&& es[1] == ("methodId"@, JsonView::Str(mid))
            &&& es[2] == ("methodName"@, JsonView::Str(name))
            &&& es[3] == ("arguments"@, JsonView::Array(args))
        },
        _ => false,
    }
}

fn nonempty_str(step: &JsonValue, key: &str) -> (r: Option<String>)
    ensures
        match jstr(jget(step@, key@)) {
            Some(s) if s.len() > 0 => r is Some && r->0@ == s,
            _ => r is None,
        },
{
    match step.get(key) {
        Some(v) => match v.as_str() {
            Some(s) => {
                if s.unicode_len() > 0 {
                    Some(copy_str(s))
                } else {
                    None
                }
            },
            None => None,
        },
        None => None,
    }
}

/// Reads one step of a sequence request: it must be an object that names a
/// method; its name defaults to the method id and its step id to a fresh one.
pub fn normalize_sequence_step(step: &JsonValue) -> (r: Result<JsonValue, String>)
    ensures
        !(step@ is Object) ==> (r matches Err(e) && e@ == "sequence step must be an object."@),
        step@ is Object && !(jstr(jget(step@, "methodId"@)) matches Some(m) && m.len() > 0) ==> (r matches Err(e)
            && e@ == "sequence step requires methodId."@),
        step@ is Object && (jstr(jget(step@, "methodId"@)) matches Some(m) && m.len() > 0) ==> (r matches Ok(v)
            && is_step_message(v@, step@)),
{
    match step {
        JsonValue::Object(_) => {},
        _ => return Err(copy_str("sequence step must be an object.")),
    }
    let method_id = match nonempty_str(step, "methodId") {
        Some(m) => m,
        None => return Err(copy_str("sequence step requires methodId.")),
    };
    let method_name = match nonempty_str(step, "methodName") {
        Some(n) => n,
        None => copy_str(method_id.as_str()),
    };
    let arguments = match step.get("arguments") {
        Some(JsonValue::Array(items)) => {
            let a = normalize_arguments(items);
            proof {
                crate::json::lemma_json_views_len(items@);
                assert forall|i: int| 0 <= i < items@.len() implies json_views(items@)[i] == items@[i]@ by {
                    crate::json::lemma_json_views_index(items@, i);
                }
                assert(str_views(a@) =~= argument_views(json_views(items@)));
            }
            a
        },
        _ => {
            let a: Vec<String> = Vec::new();
            assert(str_views(a@) =~= Seq::<JsonView>::empty());
            a
        },
    };
    let step_id = match nonempty_str(step, "stepId") {
        Some(s) => s,
        None => crate::server::util::uuid(),
    };
    let ghost sid = step_id@;
    let e0 = member("stepId", JsonValue::String(step_id));
    let e1 = member("methodId", JsonValue::String(method_id));
    let e2 = member("methodName", JsonValue::String(method_name));
    let e3 = member("arguments", texts(&arguments));
    let entries = vec![e0, e1, e2, e3];
    proof {
        assert(entries@ == seq![e0, e1, e2, e3]);
        lemma_entries4(entries@);
    }
    let r = obj(entries);
    Ok(r)
}

/// The `execute_sequence` message; the pause between steps is capped.
pub fn sequence_message(
    sequence_id: &str,
    client_id: &str,
    stop_on_failure: bool,
    step_delay_ms: u64,
    steps: Vec<JsonValue>,
) -> (r: JsonValue)
    ensures
        r@ == JsonView::Object(
            seq![
                ("type"@, JsonView::Str("execute_sequence"@)),
                ("sequenceId"@, JsonView::Str(sequence_id@)),
                ("clientId"@, JsonView::Str(client_id@)),
                ("stopOnFailure"@, JsonView::Bool(stop_on_failure)),
                ("stepDelayMs"@, JsonView::Number(crate::text::decimal(if step_delay_ms < MAX_SEQUENCE_STEP_DELAY_MS {
                    step_delay_ms
                } else {
                    MAX_SEQUENCE_STEP_DELAY_MS
                } as nat))),
                ("steps"@, JsonView::Array(json_views(steps@))),
            ],
        ),
{
    let delay = normalize_step_delay_ms(step_delay_ms);
    let entries = vec![
        member("type", text("execute_sequence")),
        member("sequenceId", text(sequence_id)),
        member("clientId", text(client_id)),
        member("stopOnFailure", JsonValue::Bool(stop_on_failure)),
        member("stepDelayMs", JsonValue::Number(crate::text::u64_to_string(delay))),
        member("steps", JsonValue::Array(steps)),
    ];
    proof {
        lemma_entries6(entries@);
    }
    obj(entries)
}


/// What one message means while a sequence runs.
#[derive(Debug)]
pub enum SequenceWait {
    Waiting,
    Failed(String),
    /// The sequence finished: the summary of everything seen.
    Finished(JsonValue),
}

/// What a sequence's caller has seen of it so far.
#[derive(Debug)]
pub struct SequenceWaiter {
    pub sequence_id: String,
    pub started_steps: Vec<JsonValue>,
    pub step_results: Vec<JsonValue>,
    pub qa_results: Vec<JsonValue>,
}

/// The sequence a message is about, by where it says so.
pub open spec fn names_sequence(m: JsonView, key: Seq<char>, sid: Seq<char>) -> bool {
    jstr(jget(m, key)) == Some(sid)
}

pub open spec fn nested_names_sequence(m: JsonView, outer: Seq<char>, sid: Seq<char>) -> bool {
    match jget(m, outer) {
        Some(v) => jstr(jget(v, "sequenceId"@)) == Some(sid),
        None => false,
    }
}

pub open spec fn pair_view(k1: Seq<char>, v1: JsonView, k2: Seq<char>, v2: JsonView) -> JsonView {
    JsonView::Object(seq![(k1, v1), (k2, v2)])
}

fn pair(k1: &str, v1: JsonValue, k2: &str, v2: JsonValue) -> (r: JsonValue)
    ensures
        r@ == pair_view(k1@, v1@, k2@, v2@),
{
    let e0 = member(k1, v1);
    let e1 = member(k2, v2);
    let es = vec![e0, e1];
    proof {
        assert(es@ == seq![e0, e1]);
        crate::json::lemma_entry_views_len(es@);
        crate::json::lemma_entry_views_index(es@, 0);
        crate::json::lemma_entry_views_index(es@, 1);
        assert(crate::json::json_entry_views(es@) =~= seq![(e0.0@, e0.1@), (e1.0@, e1.1@)]);
    }
    JsonValue::Object(es)
}

fn names_sid(m: &JsonValue, key: &str, sid: &str) -> (r: bool)
    ensures
        r == names_sequence(m@, key@, sid@),
{
    match m.get(key) {
        Some(v) => match v.as_str() {
            Some(x) => str_eq(x, sid),
            None => false,
        },
        None => false,
    }
}

fn nested_names_sid(m: &JsonValue, outer: &str, sid: &str) -> (r: bool)
    ensures
        r == nested_names_sequence(m@, outer@, sid@),
{
    match m.get(outer) {
        Some(v) => names_sid(v, "sequenceId", sid),
        None => false,
    }
}

impl SequenceWaiter {
    pub fn new(sequence_id: String) -> (r: SequenceWaiter)
        ensures
            r.sequence_id == sequence_id,
            r.started_steps@.len() == 0,
            r.step_results@.len() == 0,
            r.qa_results@.len() == 0,
    {
        SequenceWaiter {
            sequence_id,
            started_steps: Vec::new(),
            step_results: Vec::new(),
            qa_results: Vec::new(),
        }
    }

    /// Takes one message: an error ends the wait; the steps, step results and
    /// execution results of this sequence are collected; its end ends the wait
    /// with a summary; anything else is passed over.
    pub fn on_message(&mut self, message: &JsonValue) -> (r: SequenceWait)
        ensures
            final(self).sequence_id == old(self).sequence_id,
            ({
                let m = message@;
                let sid = old(self).sequence_id@;
                let t = message_type(m);
                if t == Some("error"@) {
                    &&& *final(self) == *old(self)
                    &&& r matches SequenceWait::Failed(e)
                    &&& e@ == match jstr(jget(m, "error"@)) {
                        Some(e) => e,
                        None => "QA server reported a sequence execution error."@,
                    }
                } else if t == Some("sequence_step_started"@) && names_sequence(m, "sequenceId"@, sid) {
                    &&& r matches SequenceWait::Waiting
                    &&& json_views(final(self).started_steps@) == json_views(old(self).started_steps@).push(
                        pair_view("step"@, member_or_null(m, "step"@), "execution"@, member_or_null(m, "execution"@)),
                    )
                    &&& final(self).step_results == old(self).step_results
                    &&& final(self).qa_results == old(self).qa_results
                } else if t == Some("sequence_step_result"@) && names_sequence(m, "sequenceId"@, sid) {
                    &&& r matches SequenceWait::Waiting
                    &&& json_views(final(self).step_results@) == json_views(old(self).step_results@).push(
                        pair_view("step"@, member_or_null(m, "step"@), "result"@, member_or_null(m, "result"@)),
                    )
                    &&& final(self).started_steps == old(self).started_steps
                    &&& final(self).qa_results == old(self).qa_results
                } else if t == Some("qa_result"@) && nested_names_sequence(m, "result"@, sid) {
                    &&& r matches SequenceWait::Waiting
                    &&& json_views(final(self).qa_results@) == json_views(old(self).qa_results@).push(
                        member_or_null(m, "result"@),
                    )
                    &&& final(self).started_steps == old(self).started_steps
                    &&& final(self).step_results == old(self).step_results
                } else if t == Some("sequence_finished"@) && nested_names_sequence(m, "sequence"@, sid) {
                    &&& *final(self) == *old(self)
                    &&& r matches SequenceWait::Finished(summary)
                    &&& summary@ == JsonView::Object(
                        seq![
                            ("sequenceId"@, JsonView::Str(sid)),
                            ("sequence"@, member_or_null(m, "sequence"@)),
                            ("startedSteps"@, JsonView::Array(json_views(old(self).started_steps@))),
                            ("stepResults"@, JsonView::Array(json_views(old(self).step_results@))),
                            ("qaResults"@, JsonView::Array(json_views(old(self).qa_results@))),
                        ],
                    )
                } else {
                    &&& *final(self) == *old(self)
                    &&& r matches SequenceWait::Waiting
                }
            }),
    {
        proof {
            reveal_strlit("error");
            reveal_strlit("sequence_step_started");
            reveal_strlit("sequence_step_result");
            reveal_strlit("qa_result");
            reveal_strlit("sequence_finished");
            assert("error"@ != "sequence_step_started"@) by { assert("error"@[0] != "sequence_step_started"@[0]); }
            assert("error"@ != "sequence_step_result"@) by { assert("error"@[0] != "sequence_step_result"@[0]); }
            assert("error"@ != "qa_result"@) by { assert("error"@[0] != "qa_result"@[0]); }
            assert("error"@ != "sequence_finished"@) by { assert("error"@[0] != "sequence_finished"@[0]); }
            assert("sequence_step_started"@ != "sequence_step_result"@) by { assert("sequence_step_started"@[14] != "sequence_step_result"@[14]); }
            assert("sequence_step_started"@ != "qa_result"@) by { assert("sequence_step_started"@[0] != "qa_result"@[0]); }
            assert("sequence_step_started"@ != "sequence_finished"@) by { assert("sequence_step_started"@[9] != "sequence_finished"@[9]); }
            assert("sequence_step_result"@ != "qa_result"@) by { assert("sequence_step_result"@[0] != "qa_result"@[0]); }
            assert("sequence_step_result"@ != "sequence_finished"@) by { assert("sequence_step_result"@[9] != "sequence_finished"@[9]); }
            assert("qa_result"@ != "sequence_finished"@) by { assert("qa_result"@[0] != "sequence_finished"@[0]); }
        }
        if message_type_is(message, "error") {
            return SequenceWait::Failed(error_or(message, "QA server reported a sequence execution error."));
        }
        let sid = self.sequence_id.as_str();
        if message_type_is(message, "sequence_step_started") && names_sid(message, "sequenceId", sid) {
            let p = pair("step", member_copy(message, "step"), "execution", member_copy(message, "execution"));
            let ghost before = self.started_steps@;
            self.started_steps.push(p);
            proof {
                assert(self.started_steps@.drop_last() == before);
            }
            return SequenceWait::Waiting;
        }
        if message_type_is(message, "sequence_step_result") && names_sid(message, "sequenceId", sid) {
            let p = pair("step", member_copy(message, "step"), "result", member_copy(message, "result"));
            let ghost before = self.step_results@;
            self.step_results.push(p);
            proof {
                assert(self.step_results@.drop_last() == before);
            }
            return SequenceWait::Waiting;
        }
        if message_type_is(message, "qa_result") && nested_names_sid(message, "result", sid) {
            let v = member_copy(message, "result");
            let ghost before = self.qa_results@;
            self.qa_results.push(v);
            proof {
                assert(self.qa_results@.drop_last() == before);
            }
            return SequenceWait::Waiting;
        }
        if message_type_is(message, "sequence_finished") && nested_names_sid(message, "sequence", sid) {
            let e0 = member("sequenceId", text(sid));
            let e1 = member("sequence", member_copy(message, "sequence"));
            let e2 = member("startedSteps", JsonValue::Array(copy_values(&self.started_steps)));
            let e3 = member("stepResults", JsonValue::Array(copy_values(&self.step_results)));
            let e4 = member("qaResults", JsonValue::Array(copy_values(&self.qa_results)));
            let es = vec![e0, e1, e2, e3, e4];
            proof {
                assert(es@ == seq![e0, e1, e2, e3, e4]);
                lemma_entries5(es@);
            }
            return SequenceWait::Finished(JsonValue::Object(es));
        }
        SequenceWait::Waiting
    }
}

fn copy_values(items: &Vec<JsonValue>) -> (r: Vec<JsonValue>)
    ensures
        json_views(r@) == json_views(items@),
{
    let mut out: Vec<JsonValue> = Vec::new();
    let mut i: usize = 0;
    while i < items.len()
        invariant
            i <= items@.len(),
            json_views(out@) == json_views(items@.subrange(0, i as int)),
        decreases items@.len() - i,
    {
        let x = items[i].copy();
        let ghost prev = out@;
        out.push(x);
        proof {
            let a = items@.subrange(0, i + 1);
            assert(a.drop_last() == items@.subrange(0, i as int));
            assert(a.last() == items@[i as int]);
            assert(out@.drop_last() == prev);
        }
        i = i + 1;
    }
    assert(items@.subrange(0, items@.len() as int) == items@);
    out
}

/// The address of the QA server's WebSocket for a controller: `wss` for an
/// `https` server and `ws` for any other, path `/ws`, and a query that names
/// the web role, the controller type `mcp` and the controller's id.
pub open spec fn spec_websocket_url(server_url: Seq<char>, controller_id: Seq<char>) -> Result<Seq<char>, Seq<char>> {
    let scheme = if crate::urls::spec_url_scheme(server_url) == "https"@ {
        "wss"@
    } else {
        "ws"@
    };
    match crate::urls::spec_url_with_scheme(server_url, scheme) {
        None => Err("Failed to build QA WebSocket URL"@),
        Some(u) => Ok(
            crate::urls::spec_url_with_query_pairs(
                crate::urls::spec_url_with_path(u, "/ws"@),
                seq![("role"@, "web"@), ("controllerType"@, "mcp"@), ("controllerId"@, controller_id)],
            ),
        ),
    }
}

pub fn get_qa_websocket_url(server_url: &str, controller_id: &str) -> (r: Result<String, String>)
    ensures
        match spec_websocket_url(server_url@, controller_id@) {
            Ok(u) => r matches Ok(x) && x@ == u,
            Err(e) => r matches Err(x) && x@ == e,
        },
{
    let scheme = crate::urls::url_scheme(server_url);
    let target = if crate::text::str_eq(scheme.as_str(), "https") {
        "wss"
    } else {
        "ws"
    };
    let u = match crate::urls::url_with_scheme(server_url, target) {
        Some(u) => u,
        None => return Err(copy_str("Failed to build QA WebSocket URL")),
    };
    let p = crate::urls::url_with_path(u.as_str(), "/ws");
    let pairs = vec![
        (copy_str("role"), copy_str("web")),
        (copy_str("controllerType"), copy_str("mcp")),
        (copy_str("controllerId"), copy_str(controller_id)),
    ];
    assert(crate::urls::pair_views(pairs@) =~= seq![("role"@, "web"@), ("controllerType"@, "mcp"@), ("controllerId"@, controller_id@)]);
    Ok(crate::urls::url_with_query_pairs(p.as_str(), &pairs))
}

/// This controller's id: the configured one when it is not blank, else
/// `qamcp:` and a fresh random id (`fresh`).
pub open spec fn spec_controller_id(configured: Option<Seq<char>>, fresh: Seq<char>) -> Seq<char> {
    match configured {
        Some(c) if crate::text::trim(c).len() > 0 => c,
        _ => "qamcp:"@ + fresh,
    }
}

/// Picks this controller's id; `configured` is `QA_CONTROLLER_ID` when set.
pub fn controller_id(configured: Option<&str>) -> (r: String)
    ensures
        exists|fresh: Seq<char>| fresh.len() == 36 && r@ == spec_controller_id(crate::qa::api::opt_text(configured), fresh),
{
    if let Some(c) = configured {
        if crate::text::trim_string(c).as_str().unicode_len() > 0 {
            let r = copy_str(c);
            assert(r@ == spec_controller_id(crate::qa::api::opt_text(configured), seq![' '; 36]) && seq![' '; 36].len() == 36);
            return r;
        }
    }
    let id = crate::server::util::uuid();
    let r = crate::text::concat2("qamcp:", id.as_str());
    assert(r@ == spec_controller_id(crate::qa::api::opt_text(configured), id@));
    r
}

/// This process's controller id: the one already chosen, kept in `chosen`,
/// else one picked now by `controller_id` and kept there, so that every
/// later call gives the same id whatever `configured` then holds.
pub fn kept_controller_id(chosen: &mut Option<String>, configured: Option<&str>) -> (r: String)
    ensures
        (*old(chosen)) is Some ==> r@ == (*old(chosen))->0@ && *final(chosen) == *old(chosen),
        (*old(chosen)) is None ==> (*final(chosen)) is Some && (*final(chosen))->0@ == r@,
        (*old(chosen)) is None ==> exists|fresh: Seq<char>|
            fresh.len() == 36 && r@ == spec_controller_id(crate::qa::api::opt_text(configured), fresh),
{
    match chosen {
        Some(c) => copy_str(c.as_str()),
        None => {
            let id = controller_id(configured);
            *chosen = Some(copy_str(id.as_str()));
            id
        },
    }
}

} // verus!
