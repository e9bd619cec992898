use vstd::prelude::*;
use crate::json::{json_entry_views, json_views, lemma_entry_views_new, JsonValue, JsonView};
use crate::keyed::{find_keyed, has_key, keyed_map, keys_distinct, lemma_keyed_map_push, lemma_keyed_map_remove, Keyed};
use crate::qa::ws::{EventPoll, EventRecord, EventSession, WatchLog};
use crate::server::public::{texts_json, texts_view};
use crate::server::state::strs;
use crate::text::{concat2, copy_str, decimal, u64_to_string};

verus! {

fn text(s: &str) -> (r: JsonValue)
    ensures
        r@ == JsonView::Str(s@),
{
    JsonValue::String(copy_str(s))
}

fn entry(k: &str, v: JsonValue) -> (r: (String, JsonValue))
    ensures
        r.0@ == k@,
        r.1 == v,
{
    (copy_str(k), v)
}

fn number(n: u64) -> (r: JsonValue)
    ensures
        r@ == JsonView::Number(decimal(n as nat)),
{
    JsonValue::Number(u64_to_string(n))
}

/// The JSON form of a kept event: its index, when it came, its type and the
/// message itself.
pub open spec fn event_record_view(e: EventRecord) -> JsonView {
    JsonView::Object(
        seq![
            ("index"@, JsonView::Number(decimal(e.index as nat))),
            ("receivedAt"@, JsonView::Str(e.received_at@)),
            ("type"@, JsonView::Str(e.event_type@)),
            ("message"@, e.message@),
        ],
    )
}

impl EventRecord {
    /// The event as JSON.
    pub fn to_json(&self) -> (r: JsonValue)
        ensures
            r@ == event_record_view(*self),
    {
        let entries = vec![
            entry("index", number(self.index)),
            entry("receivedAt", text(self.received_at.as_str())),
            entry("type", text(self.event_type.as_str())),
            entry("message", self.message.copy()),
        ];
        proof {
            lemma_entry_views_new(entries@);
            assert(json_entry_views(entries@) =~= event_record_view(*self)->Object_0);
        }
        JsonValue::Object(entries)
    }
}

/// Events as a JSON array, in order.
pub open spec fn events_view(es: Seq<EventRecord>) -> JsonView {
    JsonView::Array(es.map_values(|e: EventRecord| event_record_view(e)))
}

/// The events, in order, as JSON.
pub fn events_json(es: &Vec<EventRecord>) -> (r: JsonValue)
    ensures
        r@ == events_view(es@),
{
    let mut out: Vec<JsonValue> = Vec::new();
    let mut i: usize = 0;
    while i < es.len()
        invariant
            i <= es@.len(),
            json_views(out@) == es@.take(i as int).map_values(|e: EventRecord| event_record_view(e)),
        decreases es@.len() - i,
    {
        let ghost before = out@;
        let x = es[i].to_json();
        out.push(x);
        assert(out@.drop_last() =~= before);
        assert(es@.take(i + 1).map_values(|e: EventRecord| event_record_view(e)) =~= es@.take(i as int).map_values(
            |e: EventRecord| event_record_view(e),
        ).push(event_record_view(es@[i as int])));
        i = i + 1;
    }
    assert(es@.take(es@.len() as int) =~= es@);
    JsonValue::Array(out)
}

/// A text that may be missing: the text, or `null`.
pub open spec fn opt_text_view(v: Option<String>) -> JsonView {
    match v {
        Some(t) => JsonView::Str(t@),
        None => JsonView::Null,
    }
}

/// A WebSocket close code that may be missing: the number, or `null`.
pub open spec fn opt_code_view(v: Option<u16>) -> JsonView {
    match v {
        Some(c) => JsonView::Number(decimal(c as nat)),
        None => JsonView::Null,
    }
}

/// What is told of an event session: its id, whether it is open, what it
/// keeps, its times, how many events it holds, has numbered and has dropped,
/// and how it closed.
pub open spec fn session_entries(s: EventSession) -> Seq<(Seq<char>, JsonView)> {
    seq![
        ("sessionId"@, JsonView::Str(s.session_id@)),
        ("status"@, JsonView::Str(if s.closed { "closed"@ } else { "open"@ })),
        ("eventTypes"@, texts_view(strs(s.event_types@))),
        ("includeSnapshot"@, JsonView::Bool(s.include_snapshot)),
        ("maxEvents"@, JsonView::Number(decimal(s.max_events as nat))),
        ("ttlMs"@, JsonView::Number(decimal(s.ttl_ms as nat))),
        ("createdAt"@, JsonView::Str(s.created_at@)),
        ("expiresAt"@, JsonView::Str(s.expires_at@)),
        ("lastPolledAt"@, opt_text_view(s.last_polled_at)),
        ("bufferedEventCount"@, JsonView::Number(decimal(s.events@.len()))),
        ("nextIndex"@, JsonView::Number(decimal(s.next_index as nat))),
        ("droppedEvents"@, JsonView::Number(decimal(s.dropped_events as nat))),
        ("closeCode"@, opt_code_view(s.close_code)),
        ("closeReason"@, JsonView::Str(s.close_reason@)),
        ("lastError"@, JsonView::Str(s.last_error@)),
    ]
}

/// What a poll answers besides the session itself.
pub open spec fn poll_entries(p: EventPoll) -> Seq<(Seq<char>, JsonView)> {
    seq![
        ("cursor"@, JsonView::Number(decimal(p.cursor as nat))),
        ("nextCursor"@, JsonView::Number(decimal(p.next_cursor as nat))),
        ("count"@, JsonView::Number(decimal(p.events@.len()))),
        ("hasMore"@, JsonView::Bool(p.has_more)),
        ("lostEventCount"@, JsonView::Number(decimal(p.lost_event_count as nat))),
        ("events"@, events_view(p.events@)),
    ]
}

/// What closing a session that was open answers besides the session itself.
pub open spec fn closed_entries() -> Seq<(Seq<char>, JsonView)> {
    seq![("existed"@, JsonView::Bool(true)), ("closed"@, JsonView::Bool(true))]
}

fn opt_text_json(v: &Option<String>) -> (r: JsonValue)
    ensures
        r@ == opt_text_view(*v),
{
    match v {
        Some(t) => text(t.as_str()),
        None => JsonValue::Null,
    }
}

fn opt_code_json(v: Option<u16>) -> (r: JsonValue)
    ensures
        r@ == opt_code_view(v),
{
    match v {
        Some(c) => number(c as u64),
        None => JsonValue::Null,
    }
}

impl EventSession {
    fn summary_entries(&self) -> (r: Vec<(String, JsonValue)>)
        ensures
            json_entry_views(r@) == session_entries(*self),
    {
        let status = if self.closed {
            text("closed")
        } else {
            text("open")
        };
        let buffered = self.events.len() as u64;
        let r = vec![
            entry("sessionId", text(self.session_id.as_str())),
            entry("status", status),
            entry("eventTypes", texts_json(&self.event_types)),
            entry("includeSnapshot", JsonValue::Bool(self.include_snapshot)),
            entry("maxEvents", number(self.max_events)),
            entry("ttlMs", number(self.ttl_ms)),
            entry("createdAt", text(self.created_at.as_str())),
            entry("expiresAt", text(self.expires_at.as_str())),
            entry("lastPolledAt", opt_text_json(&self.last_polled_at)),
            entry("bufferedEventCount", number(buffered)),
            entry("nextIndex", number(self.next_index)),
            entry("droppedEvents", number(self.dropped_events)),
            entry("closeCode", opt_code_json(self.close_code)),
            entry("closeReason", text(self.close_reason.as_str())),
            entry("lastError", text(self.last_error.as_str())),
        ];
        proof {
            lemma_entry_views_new(r@);
            assert(json_entry_views(r@) =~= session_entries(*self));
        }
        r
    }

    /// What is told of the session: the answer when it is opened.
    pub fn summary(&self) -> (r: JsonValue)
        ensures
            r@ == JsonView::Object(session_entries(*self)),
    {
        JsonValue::Object(self.summary_entries())
    }

    /// The answer to a poll: the session as it is after the poll, then what
    /// the poll handed back.
    pub fn poll_answer(&self, poll: &EventPoll) -> (r: JsonValue)
        ensures
            r@ == JsonView::Object(session_entries(*self) + poll_entries(*poll)),
    {
        let mut entries = self.summary_entries();
        let ghost head = entries@;
        let count = poll.events.len() as u64;
        let mut tail = vec![
            entry("cursor", number(poll.cursor)),
            entry("nextCursor", number(poll.next_cursor)),
            entry("count", number(count)),
            entry("hasMore", JsonValue::Bool(poll.has_more)),
            entry("lostEventCount", number(poll.lost_event_count)),
            entry("events", events_json(&poll.events)),
        ];
        let ghost tail_view = tail@;
        entries.append(&mut tail);
        proof {
            lemma_entry_views_new(tail_view);
            assert(json_entry_views(tail_view) =~= poll_entries(*poll));
            lemma_entry_views_new(head);
            lemma_entry_views_new(entries@);
            assert(json_entry_views(entries@) =~= json_entry_views(head) + json_entry_views(tail_view));
        }
        JsonValue::Object(entries)
    }

    /// Closes the session at a client's request, for `reason`, and answers
    /// with the session as it then is and that it existed and is closed.
    pub fn close_answer(&mut self, reason: &str) -> (r: JsonValue)
        requires
            old(self).wf(),
        ensures
            final(self).wf(),
            final(self).closed,
            final(self).close_reason@ == reason@,
            final(self).close_code == old(self).close_code,
            final(self).session_id == old(self).session_id,
            final(self).event_types == old(self).event_types,
            final(self).include_snapshot == old(self).include_snapshot,
            final(self).max_events == old(self).max_events,
            final(self).ttl_ms == old(self).ttl_ms,
            final(self).created_at == old(self).created_at,
            final(self).expires_at == old(self).expires_at,
            final(self).last_polled_at == old(self).last_polled_at,
            final(self).events == old(self).events,
            final(self).next_index == old(self).next_index,
            final(self).dropped_events == old(self).dropped_events,
            final(self).last_error == old(self).last_error,
            r@ == JsonView::Object(session_entries(*final(self)) + closed_entries()),
    {
        self.closed = true;
        self.close_reason = copy_str(reason);
        let mut entries = self.summary_entries();
        let ghost head = entries@;
        let mut tail = vec![entry("existed", JsonValue::Bool(true)), entry("closed", JsonValue::Bool(true))];
        let ghost tail_view = tail@;
        entries.append(&mut tail);
        proof {
            lemma_entry_views_new(tail_view);
            assert(json_entry_views(tail_view) =~= closed_entries());
            lemma_entry_views_new(head);
            lemma_entry_views_new(entries@);
            assert(json_entry_views(entries@) =~= json_entry_views(head) + json_entry_views(tail_view));
        }
        JsonValue::Object(entries)
    }
}

/// What a watch of the server's events answers: whether it ran its time out
/// (`completed`) or the socket closed first (`closed`), how long it was to
/// run, what it kept and how many wanted events it had no room for, and how
/// the socket closed.
pub open spec fn watch_view(
    log: WatchLog,
    closed: bool,
    duration_ms: u64,
    close_code: Option<u16>,
    close_reason: Seq<char>,
) -> JsonView {
    JsonView::Object(
        seq![
            ("status"@, JsonView::Str(if closed { "closed"@ } else { "completed"@ })),
            ("durationMs"@, JsonView::Number(decimal(duration_ms as nat))),
            ("eventTypes"@, texts_view(strs(log.event_types@))),
            ("includeSnapshot"@, JsonView::Bool(log.include_snapshot)),
            ("count"@, JsonView::Number(decimal(log.events@.len()))),
            ("droppedEvents"@, JsonView::Number(decimal(log.dropped_events as nat))),
            ("truncated"@, JsonView::Bool(log.dropped_events > 0)),
            ("closeCode"@, opt_code_view(close_code)),
            ("closeReason"@, JsonView::Str(close_reason)),
            ("events"@, events_view(log.events@)),
        ],
    )
}

impl WatchLog {
    /// The answer of a watch that kept this log.
    pub fn answer(&self, closed: bool, duration_ms: u64, close_code: Option<u16>, close_reason: &str) -> (r: JsonValue)
        ensures
            r@ == watch_view(*self, closed, duration_ms, close_code, close_reason@),
    {
        let status = if closed {
            text("closed")
        } else {
            text("completed")
        };
        let count = self.events.len() as u64;
        let entries = vec![
            entry("status", status),
            entry("durationMs", number(duration_ms)),
            entry("eventTypes", texts_json(&self.event_types)),
            entry("includeSnapshot", JsonValue::Bool(self.include_snapshot)),
            entry("count", number(count)),
            entry("droppedEvents", number(self.dropped_events)),
            entry("truncated", JsonValue::Bool(self.dropped_events > 0)),
            entry("closeCode", opt_code_json(close_code)),
            entry("closeReason", text(close_reason)),
            entry("events", events_json(&self.events)),
        ];
        proof {
            lemma_entry_views_new(entries@);
            assert(json_entry_views(entries@) =~= watch_view(
                *self,
                closed,
                duration_ms,
                close_code,
                close_reason@,
            )->Object_0);
        }
        JsonValue::Object(entries)
    }
}

/// The answer to closing a session that is not open.
pub fn missing_session_answer(session_id: &str) -> (r: JsonValue)
    ensures
        r@ == JsonView::Object(
            seq![
                ("sessionId"@, JsonView::Str(session_id@)),
                ("existed"@, JsonView::Bool(false)),
                ("closed"@, JsonView::Bool(false)),
            ],
        ),
{
    let entries = vec![
        entry("sessionId", text(session_id)),
        entry("existed", JsonValue::Bool(false)),
        entry("closed", JsonValue::Bool(false)),
    ];
    proof {
        lemma_entry_views_new(entries@);
        assert(json_entry_views(entries@) =~= seq![
            ("sessionId"@, JsonView::Str(session_id@)),
            ("existed"@, JsonView::Bool(false)),
            ("closed"@, JsonView::Bool(false)),
        ]);
    }
    JsonValue::Object(entries)
}

/// The error of a poll of a session that is not open.
pub fn session_not_found(session_id: &str) -> (r: String)
    ensures
        r@ == "QA event session not found: "@ + session_id@,
{
    concat2("QA event session not found: ", session_id)
}


/// An open session in a store: its id and what holds it.
pub struct OpenSession<H> {
    pub session_id: String,
    pub handle: H,
}

impl<H> Keyed for OpenSession<H> {
    open spec fn key(&self) -> Seq<char> {
        self.session_id@
    }

    fn key_str(&self) -> (r: &str) {
        self.session_id.as_str()
    }
}

/// The open event sessions of a process, each under its id, with what holds it.
pub struct SessionStore<H> {
    sessions: Vec<OpenSession<H>>,
}

impl<H> View for SessionStore<H> {
    type V = Map<Seq<char>, OpenSession<H>>;

    closed spec fn view(&self) -> Map<Seq<char>, OpenSession<H>> {
        keyed_map(self.sessions@)
    }
}

impl<H> SessionStore<H> {
    /// No two sessions share an id.
    pub closed spec fn wf(&self) -> bool {
        keys_distinct(self.sessions@)
    }

    /// A store with no session.
    pub fn new() -> (r: SessionStore<H>)
        ensures
            r.wf(),
            r@ == Map::<Seq<char>, OpenSession<H>>::empty(),
    {
        SessionStore { sessions: Vec::new() }
    }

    /// Keeps a session under its id, in place of one already kept under it.
    pub fn insert(&mut self, session_id: String, handle: H)
        requires
            old(self).wf(),
        ensures
            final(self).wf(),
            final(self)@ == old(self)@.insert(session_id@, OpenSession { session_id, handle }),
    {
        let ghost s0 = self.sessions@;
        match find_keyed(&self.sessions, session_id.as_str()) {
            Some(i) => {
                proof {
                    lemma_keyed_map_remove(s0, i as int);
                }
                self.sessions.remove(i);
            },
            None => {},
        }
        let ghost s1 = self.sessions@;
        assert(!has_key(s1, session_id@)) by {
            crate::keyed::lemma_keyed_map_dom(s1, session_id@);
        }
        let entry = OpenSession { session_id, handle };
        let ghost e = entry;
        proof {
            lemma_keyed_map_push(s1, e);
        }
        self.sessions.push(entry);
        assert(keyed_map(self.sessions@) =~= keyed_map(s0).insert(e.session_id@, e));
    }

    /// What holds the session `session_id`, when it is open.
    pub fn get(&self, session_id: &str) -> (r: Option<&H>)
        requires
            self.wf(),
        ensures
            match r {
                Some(h) => self@.dom().contains(session_id@) && *h == self@[session_id@].handle,
                None => !self@.dom().contains(session_id@),
            },
    {
        match find_keyed(&self.sessions, session_id) {
            Some(i) => Some(&self.sessions[i].handle),
            None => None,
        }
    }

    /// Takes the session `session_id` out of the store, when it is open.
    pub fn remove(&mut self, session_id: &str) -> (r: Option<H>)
        requires
            old(self).wf(),
        ensures
            final(self).wf(),
            final(self)@ == old(self)@.remove(session_id@),
            match r {
                Some(h) => old(self)@.dom().contains(session_id@) && h == old(self)@[session_id@].handle,
                None => !old(self)@.dom().contains(session_id@),
            },
    {
        let ghost s0 = self.sessions@;
        match find_keyed(&self.sessions, session_id) {
            Some(i) => {
                proof {
                    lemma_keyed_map_remove(s0, i as int);
                }
                let e = self.sessions.remove(i);
                Some(e.handle)
            },
            None => {
                assert(keyed_map(s0).remove(session_id@) =~= keyed_map(s0));
                None
            },
        }
    }
}

/// A session once closed stays closed: after `remove` took it out of the
/// store, `get` finds nothing under its id, so a poll of it is refused with
/// `session_not_found`, and a second close finds nothing to remove and is
/// answered with `missing_session_answer`. Other sessions are untouched.
pub proof fn lemma_closed_session_stays_closed<H>(before: SessionStore<H>, after: SessionStore<H>, session_id: Seq<char>)
    requires
        after@ == before@.remove(session_id),
    ensures
        !after@.dom().contains(session_id),
        forall|k: Seq<char>| k != session_id && before@.dom().contains(k) ==> after@.dom().contains(k)
            && after@[k] == before@[k],
{
}

} // verus!
