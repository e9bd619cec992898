use vstd::prelude::*;
use vstd::string::StrSliceExecFns;
use crate::json::{jarray, jbool, jget, json_views, JsonValue, JsonView};
use crate::json_text::{value_text, value_to_opt_string};
use crate::keyed::{
    has_key, keyed_map, keys_distinct, lemma_keyed_map_at, lemma_keyed_map_dom, lemma_keyed_map_push,
    lemma_keyed_map_update, Keyed,
};
use crate::server::registry::{same_but_clients, spec_pending_for, spec_sequence_for, LockEvent};
use crate::server::state::{
    client_names_unique, strs, ClientLock, ExecutionStatus, RecordView, ServerState, UnityClient,
};
use crate::text::{split_char, split_trimmed, str_eq, string_views, trimmed_nonempty};

verus! {

/// An execution has ended: it is not pending and the history holds a record of
/// it that is no longer running.
pub open spec fn spec_is_terminal(s: ServerState, rid: Seq<char>) -> bool {
    &&& !s.pending().dom().contains(rid)
    &&& exists|j: int|
        0 <= j < s.history().len() && (#[trigger] s.history()[j]).request_id == rid
            && s.history()[j].status != ExecutionStatus::Running
}

/// The request ids of a busy report: its comma-separated parts, trimmed,
/// without empty ones.
pub open spec fn reported_ids(current_request_id: Seq<char>) -> Seq<Seq<char>> {
    trimmed_nonempty(split_char(current_request_id, ','))
}

/// A client that says it is busy with requests that have all ended already
/// reports stale state.
pub open spec fn spec_is_stale_busy_report(s: ServerState, current_request_id: Seq<char>) -> bool {
    let ids = reported_ids(current_request_id);
    ids.len() > 0 && forall|i: int| 0 <= i < ids.len() ==> spec_is_terminal(s, #[trigger] ids[i])
}

/// A client that would take `name` for (`client_id`, `connection_id`): any
/// client with that name but another id or another connection.
pub open spec fn is_name_rival(c: UnityClient, client_id: Seq<char>, connection_id: Seq<char>, name: Seq<char>) -> bool {
    !(c.client_id@ == client_id && c.connection_id@ == connection_id) && c.name@ == name
}

impl ServerState {
    /// Whether the execution `rid` has ended.
    pub fn is_terminal_execution(&self, rid: &str) -> (r: bool)
        requires
            self.wf(),
        ensures
            r == spec_is_terminal(*self, rid@),
    {
        if let Some(i) = crate::keyed::find_keyed(&self.pending_executions, rid) {
            return false;
        }
        let mut j: usize = 0;
        while j < self.execution_history.len()
            invariant
                self.wf(),
                j <= self.execution_history@.len(),
                !self.pending().dom().contains(rid@),
                forall|k: int|
                    0 <= k < j ==> !((#[trigger] self.history()[k]).request_id == rid@
                        && self.history()[k].status != ExecutionStatus::Running),
            decreases self.execution_history@.len() - j,
        {
            let item = &self.execution_history[j];
            assert(self.history()[j as int] == item@);
            let running = match item.status {
                ExecutionStatus::Running => true,
                _ => false,
            };
            if str_eq(item.request_id.as_str(), rid) && !running {
                return true;
            }
            j = j + 1;
        }
        false
    }

    /// Whether a busy report names only requests that have ended.
    pub fn is_stale_busy_report(&self, current_request_id: &str) -> (r: bool)
        requires
            self.wf(),
        ensures
            r == spec_is_stale_busy_report(*self, current_request_id@),
    {
        let ids = split_trimmed(current_request_id, ',');
        let ghost v = reported_ids(current_request_id@);
        let mut i: usize = 0;
        while i < ids.len()
            invariant
                self.wf(),
                i <= ids@.len(),
                string_views(ids@) == v,
                v == reported_ids(current_request_id@),
                forall|k: int| 0 <= k < i ==> spec_is_terminal(*self, #[trigger] v[k]),
            decreases ids@.len() - i,
        {
            assert(v[i as int] == ids@[i as int]@);
            if !self.is_terminal_execution(ids[i].as_str()) {
                return false;
            }
            i = i + 1;
        }
        ids.len() > 0
    }

    /// A client other than this connection's that already has `name`.
    pub fn find_duplicate_client_name(&self, client_id: &str, connection_id: &str, name: &str) -> (r: Option<usize>)
        requires
            self.wf(),
        ensures
            match r {
                Some(i) => i < self.unity_clients@.len() && is_name_rival(
                    self.unity_clients@[i as int],
                    client_id@,
                    connection_id@,
                    name@,
                ),
                None => forall|i: int|
                    0 <= i < self.unity_clients@.len() ==> !is_name_rival(
                        #[trigger] self.unity_clients@[i],
                        client_id@,
                        connection_id@,
                        name@,
                    ),
            },
    {
        let mut i: usize = 0;
        while i < self.unity_clients.len()
            invariant
                i <= self.unity_clients@.len(),
                forall|k: int|
                    0 <= k < i ==> !is_name_rival(
                        #[trigger] self.unity_clients@[k],
                        client_id@,
                        connection_id@,
                        name@,
                    ),
            decreases self.unity_clients@.len() - i,
        {
            let c = &self.unity_clients[i];
            let same = str_eq(c.client_id.as_str(), client_id) && str_eq(
                c.connection_id.as_str(),
                connection_id,
            );
            if !same && str_eq(c.name.as_str(), name) {
                return Some(i);
            }
            i = i + 1;
        }
        None
    }

    /// Puts `c` in the place of the client with its id, or adds it; its name is
    /// one that no other client has.
    pub fn put_client(&mut self, c: UnityClient)
        requires
            old(self).wf(),
            forall|i: int|
                0 <= i < old(self).unity_clients@.len() && (#[trigger] old(self).unity_clients@[i]).client_id@
                    != c.client_id@ ==> old(self).unity_clients@[i].name@ != c.name@,
        ensures
            final(self).wf(),
            final(self).clients() == old(self).clients().insert(c.client_id@, c),
            same_but_clients(*final(self), *old(self)),
    {
        let ghost cv = c;
        match self.find_client(c.client_id.as_str()) {
            Some(i) => {
                let _prev = self.unity_clients.remove(i);
                self.unity_clients.insert(i, c);
                proof {
                    let o = old(self).unity_clients@;
                    assert(self.unity_clients@ == o.update(i as int, cv));
                    lemma_keyed_map_update(o, i as int, cv);
                    let t = o.update(i as int, cv);
                    assert forall|a: int, b: int| 0 <= a < b < t.len() implies (#[trigger] t[a]).name@
                        != (#[trigger] t[b]).name@ by {
                        if a == i as int {
                            assert(o[a].key() != o[b].key());
                            assert(o[b].client_id@ != cv.client_id@);
                        } else if b == i as int {
                            assert(o[a].key() != o[b].key());
                            assert(o[a].client_id@ != cv.client_id@);
                        } else {
                            assert(o[a].name@ != o[b].name@);
                        }
                    }
                }
            },
            None => {
                self.unity_clients.push(c);
                proof {
                    let o = old(self).unity_clients@;
                    assert(self.unity_clients@ == o.push(cv));
                    lemma_keyed_map_dom(o, cv.client_id@);
                    assert(!has_key(o, cv.client_id@));
                    lemma_keyed_map_push(o, cv);
                    let t = o.push(cv);
                    assert forall|a: int, b: int| 0 <= a < b < t.len() implies (#[trigger] t[a]).name@
                        != (#[trigger] t[b]).name@ by {
                        if b == o.len() {
                            assert(t[a] == o[a]);
                            assert(o[a].key() != cv.client_id@) by {
                                if o[a].key() == cv.client_id@ {
                                    assert(has_key(o, cv.client_id@));
                                }
                            }
                        } else {
                            assert(o[a].name@ != o[b].name@);
                        }
                    }
                }
            },
        }
    }
}


/// What a Unity client says of its own execution state.
#[derive(Debug)]
pub struct ExecutionReport {
    pub busy: bool,
    pub current_request_id: String,
    pub current_method_name: String,
    /// The client said it was busy, but only with requests that had ended.
    pub ignored_stale_busy: bool,
}

/// A reported text that counts only while the client is busy and it is not
/// empty.
pub open spec fn busy_text(busy: bool, v: Option<Seq<char>>) -> Seq<char> {
    match v {
        Some(t) if busy && t.len() > 0 => t,
        _ => Seq::empty(),
    }
}

pub open spec fn reported_busy(payload: JsonView) -> bool {
    match jbool(jget(payload, "busy"@)) {
        Some(b) => b,
        None => false,
    }
}

/// How a report is read: a busy report that names only ended requests is
/// taken as idle.
pub open spec fn spec_report(r: ExecutionReport, s: ServerState, payload: JsonView) -> bool {
    let busy = reported_busy(payload);
    let crid = busy_text(busy, value_text(jget(payload, "currentRequestId"@)));
    let cmn = busy_text(busy, value_text(jget(payload, "currentMethodName"@)));
    if busy && spec_is_stale_busy_report(s, crid) {
        &&& !r.busy
        &&& r.current_request_id@.len() == 0
        &&& r.current_method_name@.len() == 0
        &&& r.ignored_stale_busy
    } else {
        &&& r.busy == busy
        &&& r.current_request_id@ == crid
        &&& r.current_method_name@ == cmn
        &&& !r.ignored_stale_busy
    }
}

fn text_if_busy(busy: bool, v: Option<String>) -> (r: String)
    ensures
        r@ == busy_text(busy, crate::paths::opt_view(v)),
{
    match v {
        Some(t) => {
            if busy && t.as_str().unicode_len() > 0 {
                t
            } else {
                String::new()
            }
        },
        None => String::new(),
    }
}

impl ServerState {
    /// Reads the execution state that a client reports in `payload`.
    pub fn parse_unity_execution_state(&self, payload: &JsonValue) -> (r: ExecutionReport)
        requires
            self.wf(),
        ensures
            spec_report(r, *self, payload@),
    {
        let busy = match payload.get("busy") {
            Some(v) => match v.as_bool() {
                Some(b) => b,
                None => false,
            },
            None => false,
        };
        let crid = text_if_busy(busy, value_to_opt_string(payload.get("currentRequestId")));
        let cmn = text_if_busy(busy, value_to_opt_string(payload.get("currentMethodName")));
        if busy && self.is_stale_busy_report(crid.as_str()) {
            return ExecutionReport {
                busy: false,
                current_request_id: String::new(),
                current_method_name: String::new(),
                ignored_stale_busy: true,
            };
        }
        ExecutionReport { busy, current_request_id: crid, current_method_name: cmn, ignored_stale_busy: false }
    }
}


/// The addresses a client lists: each item read as text, empty ones dropped.
pub open spec fn ip_list(items: Seq<JsonView>) -> Seq<Seq<char>>
    decreases items.len(),
{
    if items.len() == 0 {
        Seq::empty()
    } else {
        let rest = ip_list(items.drop_last());
        match value_text(Some(items.last())) {
            Some(t) if t.len() > 0 => rest.push(t),
            _ => rest,
        }
    }
}

pub open spec fn payload_ips(payload: JsonView) -> Seq<Seq<char>> {
    match jarray(jget(payload, "ipAddresses"@)) {
        Some(items) => ip_list(items),
        None => Seq::empty(),
    }
}

/// The main address of a client: the one it names, else the first it lists.
pub open spec fn primary_ip(payload: JsonView) -> Seq<char> {
    match value_text(jget(payload, "ipAddress"@)) {
        Some(t) if t.len() > 0 => t,
        _ => if payload_ips(payload).len() > 0 {
            payload_ips(payload)[0]
        } else {
            Seq::empty()
        },
    }
}

pub open spec fn text_or(v: Option<Seq<char>>, d: Seq<char>) -> Seq<char> {
    match v {
        Some(t) => t,
        None => d,
    }
}

pub open spec fn payload_text(payload: JsonView, key: Seq<char>) -> Option<Seq<char>> {
    value_text(jget(payload, key))
}

/// The name a client registers under: the name it gives, trimmed, when that
/// is not blank; else its id.
pub open spec fn registered_name(payload: JsonView, cid: Seq<char>) -> Seq<char> {
    match payload_text(payload, "name"@) {
        Some(t) if crate::text::trim(t).len() > 0 => crate::text::trim(t),
        _ => cid,
    }
}

pub open spec fn payload_methods(payload: JsonView) -> Seq<JsonView> {
    match jarray(jget(payload, "methods"@)) {
        Some(items) => items,
        None => Seq::empty(),
    }
}

fn payload_string(payload: &JsonValue, key: &str) -> (r: Option<String>)
    ensures
        crate::paths::opt_view(r) == payload_text(payload@, key@),
{
    value_to_opt_string(payload.get(key))
}

fn string_or(v: Option<String>, d: &str) -> (r: String)
    ensures
        r@ == text_or(crate::paths::opt_view(v), d@),
{
    match v {
        Some(t) => t,
        None => crate::text::copy_str(d),
    }
}

pub fn parse_ip_addresses(payload: &JsonValue) -> (r: Vec<String>)
    ensures
        crate::server::state::strs(r@) == payload_ips(payload@),
{
    let mut out: Vec<String> = Vec::new();
    let items = match payload.get("ipAddresses") {
        Some(JsonValue::Array(items)) => items,
        _ => {
            assert(crate::server::state::strs(out@) =~= Seq::<Seq<char>>::empty());
            return out;
        },
    };
    let ghost iv = json_views(items@);
    let mut i: usize = 0;
    assert(crate::server::state::strs(out@) =~= ip_list(json_views(items@.subrange(0, 0))));
    while i < items.len()
        invariant
            i <= items@.len(),
            iv == json_views(items@),
            jarray(jget(payload@, "ipAddresses"@)) == Some(iv),
            crate::server::state::strs(out@) == ip_list(json_views(items@.subrange(0, i as int))),
        decreases items@.len() - i,
    {
        let ghost a = items@.subrange(0, i + 1);
        assert(a.drop_last() == items@.subrange(0, i as int));
        assert(a.last() == items@[i as int]);
        assert(json_views(a) == json_views(items@.subrange(0, i as int)).push(items@[i as int]@));
        let ghost p = json_views(items@.subrange(0, i as int));
        assert(p.push(items@[i as int]@).drop_last() == p);
        assert(p.push(items@[i as int]@).last() == items@[i as int]@);
        let t = value_to_opt_string(Some(&items[i]));
        match t {
            Some(v) => {
                if v.as_str().unicode_len() > 0 {
                    let ghost before = out@;
                    out.push(v);
                    assert(crate::server::state::strs(out@) =~= crate::server::state::strs(before).push(out@.last()@));
                }
            },
            None => {},
        }
        i = i + 1;
    }
    assert(items@.subrange(0, items@.len() as int) == items@);
    out
}

pub fn parse_client_name(payload: &JsonValue, client_id: &str) -> (r: String)
    ensures
        r@ == registered_name(payload@, client_id@),
{
    match payload_string(payload, "name") {
        Some(t) => {
            let tt = crate::text::trim_string(t.as_str());
            if tt.as_str().unicode_len() > 0 {
                tt
            } else {
                crate::text::copy_str(client_id)
            }
        },
        None => crate::text::copy_str(client_id),
    }
}

fn copy_methods(payload: &JsonValue) -> (r: Vec<JsonValue>)
    ensures
        json_views(r@) == payload_methods(payload@),
{
    match payload.get("methods") {
        Some(JsonValue::Array(items)) => {
            let mut out: Vec<JsonValue> = Vec::new();
            let mut i: usize = 0;
            while i < items.len()
                invariant
                    i <= items@.len(),
                    json_views(out@) == json_views(items@.subrange(0, i as int)),
                decreases items@.len() - i,
            {
                let x = items[i].copy();
                let ghost prev = out@;
                out.push(x);
                proof {
                    let a = items@.subrange(0, i + 1);
                    assert(a.drop_last() == items@.subrange(0, i as int));
                    assert(a.last() == items@[i as int]);
                    assert(out@.drop_last() == prev);
                }
                i = i + 1;
            }
            assert(items@.subrange(0, items@.len() as int) == items@);
            out
        },
        _ => {
            let out: Vec<JsonValue> = Vec::new();
            assert(json_views(out@) =~= Seq::<JsonView>::empty());
            out
        },
    }
}


/// What a client is told when its name is taken.
pub open spec fn duplicate_name_message(name: Seq<char>) -> Seq<char> {
    "QaTest 客户端名称“"@ + name + "”已存在，当前连接已被拒绝。请修改 QaTestClient 的 clientName 后重试。"@
}

/// The result of a registration.
#[derive(Debug)]
pub enum RegisterOutcome {
    Registered {
        client_id: String,
        report: ExecutionReport,
        /// The connection that this one replaces, which the caller closes.
        replaced_connection: Option<String>,
        released: Option<LockEvent>,
    },
    Rejected { client_id: String, client_name: String, existing_client_id: String, message: String },
}

/// The client entry that a registration writes, but for its lock.
pub open spec fn is_registration(
    c: UnityClient,
    old: ServerState,
    cid: Seq<char>,
    payload: JsonView,
    connection_id: Seq<char>,
    remote: Seq<char>,
    now: i64,
    report: ExecutionReport,
) -> bool {
    &&& c.client_id@ == cid
    &&& c.name@ == registered_name(payload, cid)
    &&& c.ip_address@ == primary_ip(payload)
    &&& strs(c.ip_addresses@) == payload_ips(payload)
    &&& c.remote_address@ == remote
    &&& c.platform@ == text_or(payload_text(payload, "platform"@), "unknown"@)
    &&& c.unity_version@ == text_or(payload_text(payload, "unityVersion"@), Seq::empty())
    &&& c.device_name@ == text_or(payload_text(payload, "deviceName"@), Seq::empty())
    &&& c.operating_system@ == text_or(payload_text(payload, "operatingSystem"@), Seq::empty())
    &&& json_views(c.methods@) == payload_methods(payload)
    &&& if old.clients().dom().contains(cid) {
        &&& c.connected_at == old.clients()[cid].connected_at
        &&& c.availability_changed_at == old.clients()[cid].availability_changed_at
    } else {
        &&& c.connected_at == now
        &&& c.availability_changed_at == now
    }
    &&& c.last_seen_at == now
    &&& c.available
    &&& c.unavailable_reason@.len() == 0
    &&& c.client_busy == report.busy
    &&& c.current_request_id@ == report.current_request_id@
    &&& c.current_method_name@ == report.current_method_name@
    &&& c.connection_id@ == connection_id
    &&& c.is_alive
}

/// The lock that a client held before it registered again.
pub open spec fn previous_lock(old: ServerState, cid: Seq<char>) -> Option<ClientLock> {
    if old.clients().dom().contains(cid) {
        old.clients()[cid].lock
    } else {
        None
    }
}

/// A client that registers idle loses a lock whose owner runs nothing on it.
pub open spec fn register_releases(old: ServerState, cid: Seq<char>, report: ExecutionReport) -> bool {
    &&& !report.busy
    &&& previous_lock(old, cid) is Some
    &&& !spec_pending_for(old, cid, Some(previous_lock(old, cid)->0.owner_id@))
    &&& !spec_sequence_for(old, cid, Some(previous_lock(old, cid)->0.owner_id@))
}

/// What registering client `cid` on `connection_id` does.
pub open spec fn spec_register(
    old: ServerState,
    new: ServerState,
    r: RegisterOutcome,
    cid: Seq<char>,
    payload: JsonView,
    connection_id: Seq<char>,
    remote: Seq<char>,
    now: i64,
) -> bool {
    let name = registered_name(payload, cid);
    match r {
        RegisterOutcome::Rejected { client_id, client_name, existing_client_id, message } => {
            &&& new == old
            &&& client_id@ == cid
            &&& client_name@ == name
            &&& message@ == duplicate_name_message(name)
            &&& exists|i: int|
                0 <= i < old.unity_clients@.len() && is_name_rival(
                    #[trigger] old.unity_clients@[i],
                    cid,
                    connection_id,
                    name,
                ) && old.unity_clients@[i].client_id@ == existing_client_id@
        },
        RegisterOutcome::Registered { client_id, report, replaced_connection, released } => {
            &&& client_id@ == cid
            &&& forall|i: int|
                0 <= i < old.unity_clients@.len() ==> !is_name_rival(
                    #[trigger] old.unity_clients@[i],
                    cid,
                    connection_id,
                    name,
                )
            &&& spec_report(report, old, payload)
            &&& new.wf()
            &&& same_but_clients(new, old)
            &&& new.clients().dom() == old.clients().dom().insert(cid)
            &&& forall|k: Seq<char>|
                k != cid && #[trigger] old.clients().dom().contains(k) ==> new.clients()[k]
                    == old.clients()[k]
            &&& is_registration(new.clients()[cid], old, cid, payload, connection_id, remote, now, report)
            &&& new.clients()[cid].lock == if register_releases(old, cid, report) {
                None
            } else {
                previous_lock(old, cid)
            }
            &&& (released is Some <==> register_releases(old, cid, report))
            &&& released is Some ==> released->0.client_id@ == cid && released->0.lock
                == previous_lock(old, cid)->0
            &&& crate::paths::opt_view(replaced_connection) == if old.clients().dom().contains(cid)
                && old.clients()[cid].connection_id@ != connection_id {
                Some(old.clients()[cid].connection_id@)
            } else {
                None
            }
        },
    }
}

fn copy_client_lock(l: &Option<ClientLock>) -> (r: Option<ClientLock>)
    ensures
        r == *l,
{
    match l {
        Some(l) => Some(
            ClientLock {
                owner_id: l.owner_id.clone(),
                owner_type: l.owner_type.clone(),
                acquired_at: l.acquired_at,
                last_seen_at: l.last_seen_at,
            },
        ),
        None => None,
    }
}

impl ServerState {
    /// Registers client `client_id` on `connection_id`, unless another client
    /// already has its name.
    pub fn register_unity_client_as(
        &mut self,
        client_id: String,
        connection_id: &str,
        remote_address: &str,
        payload: &JsonValue,
        now: i64,
    ) -> (r: RegisterOutcome)
        requires
            old(self).wf(),
        ensures
            final(self).wf(),
            spec_register(
                *old(self),
                *final(self),
                r,
                client_id@,
                payload@,
                connection_id@,
                remote_address@,
                now,
            ),
    {
        let ghost cid = client_id@;
        let client_name = parse_client_name(payload, client_id.as_str());
        if let Some(i) = self.find_duplicate_client_name(
            client_id.as_str(),
            connection_id,
            client_name.as_str(),
        ) {
            let existing_client_id = self.unity_clients[i].client_id.clone();
            let message = crate::text::concat3(
                "QaTest 客户端名称“",
                client_name.as_str(),
                "”已存在，当前连接已被拒绝。请修改 QaTestClient 的 clientName 后重试。",
            );
            return RegisterOutcome::Rejected { client_id, client_name, existing_client_id, message };
        }
        let ghost s0 = *self;
        let (connected_at, availability_changed_at, lock, replaced_connection) = match self.find_client(
            client_id.as_str(),
        ) {
            Some(i) => {
                let e = &self.unity_clients[i];
                let replaced = if str_eq(e.connection_id.as_str(), connection_id) {
                    None
                } else {
                    Some(e.connection_id.clone())
                };
                (e.connected_at, e.availability_changed_at, copy_client_lock(&e.lock), replaced)
            },
            None => (now, now, None, None),
        };
        let report = self.parse_unity_execution_state(payload);
        let ip_addresses = parse_ip_addresses(payload);
        let ip_address = match payload_string(payload, "ipAddress") {
            Some(t) if t.as_str().unicode_len() > 0 => t,
            _ => if ip_addresses.len() > 0 {
                ip_addresses[0].clone()
            } else {
                String::new()
            },
        };
        let client = UnityClient {
            client_id: client_id.clone(),
            name: client_name,
            ip_address,
            ip_addresses,
            remote_address: crate::text::copy_str(remote_address),
            platform: string_or(payload_string(payload, "platform"), "unknown"),
            unity_version: string_or(payload_string(payload, "unityVersion"), ""),
            device_name: string_or(payload_string(payload, "deviceName"), ""),
            operating_system: string_or(payload_string(payload, "operatingSystem"), ""),
            methods: copy_methods(payload),
            connected_at,
            last_seen_at: now,
            availability_changed_at,
            available: true,
            unavailable_reason: String::new(),
            client_busy: report.busy,
            current_request_id: report.current_request_id.clone(),
            current_method_name: report.current_method_name.clone(),
            connection_id: crate::text::copy_str(connection_id),
            is_alive: true,
            lock,
        };
        proof {
            reveal_strlit("");
            assert forall|i: int|
                0 <= i < s0.unity_clients@.len() && (#[trigger] s0.unity_clients@[i]).client_id@
                    != client.client_id@ implies s0.unity_clients@[i].name@ != client.name@ by {
                assert(!is_name_rival(s0.unity_clients@[i], cid, connection_id@, client.name@));
            }
        }
        let ghost c0 = client;
        self.put_client(client);
        let ghost s1 = *self;
        proof {
            assert(s1.clients()[cid] == c0);
            assert(crate::server::registry::spec_pending_for(s1, cid, None) == crate::server::registry::spec_pending_for(s0, cid, None));
            assert(s1.pending() == s0.pending());
            assert(s1.sequences() == s0.sequences());
        }
        let released = if !report.busy {
            self.release_client_lock_if_idle(client_id.as_str())
        } else {
            None
        };
        proof {
            assert(s1.pending() == s0.pending());
            assert(s1.sequences() == s0.sequences());
            if let Some(l) = previous_lock(s0, cid) {
                let o = Some(l.owner_id@);
                assert(spec_pending_for(s1, cid, o) == spec_pending_for(s0, cid, o));
                assert(spec_sequence_for(s1, cid, o) == spec_sequence_for(s0, cid, o));
            }
            assert(!report.busy ==> (crate::server::locks::should_release(s1, cid)
                == register_releases(s0, cid, report)));
        }
        proof {
            let new = *self;
            assert(new.wf());
            assert(same_but_clients(new, s0));
            assert(new.clients().dom() == s0.clients().dom().insert(cid));
            assert(forall|k: Seq<char>| k != cid && #[trigger] s0.clients().dom().contains(k) ==> new.clients()[k] == s0.clients()[k]);
            let c = c0;
            assert(c.client_id@ == cid);
            assert(c.name@ == registered_name(payload@, cid));
            assert(c.ip_address@ == primary_ip(payload@));
            assert(strs(c.ip_addresses@) == payload_ips(payload@));
            assert(c.remote_address@ == remote_address@);
            assert(c.platform@ == text_or(payload_text(payload@, "platform"@), "unknown"@));
            assert(c.unity_version@ == text_or(payload_text(payload@, "unityVersion"@), Seq::empty()));
            assert(json_views(c.methods@) == payload_methods(payload@));
            assert(c.current_request_id@ == report.current_request_id@);
            assert(c.device_name@ == text_or(payload_text(payload@, "deviceName"@), Seq::empty()));
            assert(c.operating_system@ == text_or(payload_text(payload@, "operatingSystem"@), Seq::empty()));
            assert(if s0.clients().dom().contains(cid) {
                &&& c.connected_at == s0.clients()[cid].connected_at
                &&& c.availability_changed_at == s0.clients()[cid].availability_changed_at
            } else {
                &&& c.connected_at == now
                &&& c.availability_changed_at == now
            });
            assert(c.last_seen_at == now && c.available && c.unavailable_reason@.len() == 0);
            assert(c.client_busy == report.busy);
            assert(c.current_method_name@ == report.current_method_name@);
            assert(c.connection_id@ == connection_id@ && c.is_alive);
            assert(is_registration(c0, s0, cid, payload@, connection_id@, remote_address@, now, report));
            assert(is_registration(new.clients()[cid], s0, cid, payload@, connection_id@, remote_address@, now, report));
            assert(new.clients()[cid].lock == if register_releases(s0, cid, report) { None } else { previous_lock(s0, cid) });
            assert(released is Some <==> register_releases(s0, cid, report));
            assert(crate::paths::opt_view(replaced_connection) == if s0.clients().dom().contains(cid)
                && s0.clients()[cid].connection_id@ != connection_id@ {
                Some(s0.clients()[cid].connection_id@)
            } else {
                None
            });
        }
        RegisterOutcome::Registered { client_id, report, replaced_connection, released }
    }
}


/// The id of the client that a registration is about.
pub open spec fn outcome_client_id(r: RegisterOutcome) -> Seq<char> {
    match r {
        RegisterOutcome::Registered { client_id, .. } => client_id@,
        RegisterOutcome::Rejected { client_id, .. } => client_id@,
    }
}

impl ServerState {
    /// Registers a client from its `register` message: under the id it gives,
    /// or under a fresh random id when it gives none.
    pub fn register_unity_client(
        &mut self,
        connection_id: &str,
        remote_address: &str,
        payload: &JsonValue,
        now: i64,
    ) -> (r: RegisterOutcome)
        requires
            old(self).wf(),
        ensures
            final(self).wf(),
            payload_text(payload@, "clientId"@) is Some ==> outcome_client_id(r) == payload_text(
                payload@,
                "clientId"@,
            )->0,
            spec_register(
                *old(self),
                *final(self),
                r,
                outcome_client_id(r),
                payload@,
                connection_id@,
                remote_address@,
                now,
            ),
    {
        let client_id = match payload_string(payload, "clientId") {
            Some(id) => id,
            None => crate::server::util::uuid(),
        };
        self.register_unity_client_as(client_id, connection_id, remote_address, payload, now)
    }
}


/// The client after a message from its current connection at `now`: seen,
/// alive, and available again with its reason cleared.
pub open spec fn is_touched(new: UnityClient, old: UnityClient, now: i64) -> bool {
    &&& new == UnityClient {
        last_seen_at: now,
        is_alive: true,
        available: true,
        availability_changed_at: if old.available {
            old.availability_changed_at
        } else {
            now
        },
        unavailable_reason: new.unavailable_reason,
        ..old
    }
    &&& if old.available {
        new.unavailable_reason == old.unavailable_reason
    } else {
        new.unavailable_reason@.len() == 0
    }
}

/// Client `cid` is known and speaks on `connection_id`.
pub open spec fn on_connection(s: ServerState, cid: Seq<char>, connection_id: Seq<char>) -> bool {
    s.clients().dom().contains(cid) && s.clients()[cid].connection_id@ == connection_id
}

/// Whether a message states the client's execution state at all.
pub open spec fn has_execution_state(payload: JsonView) -> bool {
    ||| jget(payload, "busy"@) is Some
    ||| jget(payload, "currentRequestId"@) is Some
    ||| jget(payload, "currentMethodName"@) is Some
}

/// The client with the execution state of `report`.
pub open spec fn with_report(c: UnityClient, report: ExecutionReport) -> UnityClient {
    UnityClient {
        client_busy: report.busy,
        current_request_id: report.current_request_id,
        current_method_name: report.current_method_name,
        ..c
    }
}

/// Whether a report changes what the client said before.
pub open spec fn report_changes(c: UnityClient, report: ExecutionReport) -> bool {
    c.client_busy != report.busy || c.current_request_id@ != report.current_request_id@
        || c.current_method_name@ != report.current_method_name@
}

/// What a client's report of its execution state did.
#[derive(Debug)]
pub struct StateUpdate {
    pub changed: bool,
    pub released: Option<LockEvent>,
    /// The client said it was busy only with requests that had ended.
    pub ignored_stale_busy: bool,
}

impl ServerState {
    /// A message from client `cid` on `connection_id`: marks it seen and alive
    /// and makes it available again. Says whether it was unavailable.
    pub fn touch_unity_client(&mut self, cid: &str, connection_id: &str, now: i64) -> (became_available: bool)
        requires
            old(self).wf(),
        ensures
            final(self).wf(),
            same_but_clients(*final(self), *old(self)),
            on_connection(*old(self), cid@, connection_id@) ==> {
                &&& final(self).clients().dom() == old(self).clients().dom()
                &&& final(self).clients() == old(self).clients().insert(
                    cid@,
                    final(self).clients()[cid@],
                )
                &&& is_touched(final(self).clients()[cid@], old(self).clients()[cid@], now)
                &&& became_available == !old(self).clients()[cid@].available
            },
            !on_connection(*old(self), cid@, connection_id@) ==> *final(self) == *old(self)
                && !became_available,
    {
        let i = match self.find_client(cid) {
            Some(i) => i,
            None => return false,
        };
        if !str_eq(self.unity_clients[i].connection_id.as_str(), connection_id) {
            return false;
        }
        let mut c = self.unity_clients.remove(i);
        let ghost c0 = c;
        c.last_seen_at = now;
        c.is_alive = true;
        let became = !c.available;
        if became {
            c.available = true;
            c.unavailable_reason = String::new();
            c.availability_changed_at = now;
        }
        let ghost c1 = c;
        self.unity_clients.insert(i, c);
        proof {
            let o = old(self).unity_clients@;
            assert(self.unity_clients@ == o.update(i as int, c1));
            lemma_keyed_map_update(o, i as int, c1);
            crate::server::registry::lemma_names_update(o, i as int, c1);
            assert(self.clients().dom() =~= old(self).clients().dom());
        }
        became
    }

    /// A message from client `cid` on `connection_id` that states its execution
    /// state: the client takes it, and a client that turns idle loses a lock
    /// whose owner runs nothing on it.
    pub fn update_unity_client_execution_state(&mut self, cid: &str, connection_id: &str, payload: &JsonValue) -> (r: StateUpdate)
        requires
            old(self).wf(),
        ensures
            final(self).wf(),
            same_but_clients(*final(self), *old(self)),
            !has_execution_state(payload@) || !on_connection(*old(self), cid@, connection_id@) ==> {
                &&& *final(self) == *old(self)
                &&& !r.changed
                &&& r.released is None
            },
            has_execution_state(payload@) && on_connection(*old(self), cid@, connection_id@) ==> {
                let c = old(self).clients()[cid@];
                exists|report: ExecutionReport|
                    {
                        &&& #[trigger] spec_report(report, *old(self), payload@)
                        &&& r.changed == report_changes(c, report)
                        &&& r.ignored_stale_busy == report.ignored_stale_busy
                        &&& final(self).clients().dom() == old(self).clients().dom()
                        &&& if r.changed && !report.busy && c.lock is Some && !spec_pending_for(
                            *old(self),
                            cid@,
                            Some(c.lock->0.owner_id@),
                        ) && !spec_sequence_for(*old(self), cid@, Some(c.lock->0.owner_id@)) {
                            &&& final(self).clients() == old(self).clients().insert(
                                cid@,
                                crate::server::locks::unlocked(with_report(c, report)),
                            )
                            &&& r.released is Some
                            &&& r.released->0.lock == c.lock->0
                        } else {
                            &&& final(self).clients() == old(self).clients().insert(
                                cid@,
                                with_report(c, report),
                            )
                            &&& r.released is None
                        }
                    }
            },
    {
        let has_state = payload.get("busy").is_some() || payload.get("currentRequestId").is_some()
            || payload.get("currentMethodName").is_some();
        if !has_state {
            return StateUpdate { changed: false, released: None, ignored_stale_busy: false };
        }
        let report = self.parse_unity_execution_state(payload);
        let i = match self.find_client(cid) {
            Some(i) => i,
            None => {
                return StateUpdate {
                    changed: false,
                    released: None,
                    ignored_stale_busy: report.ignored_stale_busy,
                };
            },
        };
        if !str_eq(self.unity_clients[i].connection_id.as_str(), connection_id) {
            return StateUpdate { changed: false, released: None, ignored_stale_busy: false };
        }
        let ghost s0 = *self;
        let ghost rep = report;
        let mut c = self.unity_clients.remove(i);
        let ghost c0 = c;
        let changed = c.client_busy != report.busy || !str_eq(
            c.current_request_id.as_str(),
            report.current_request_id.as_str(),
        ) || !str_eq(c.current_method_name.as_str(), report.current_method_name.as_str());
        let ignored = report.ignored_stale_busy;
        let busy = report.busy;
        c.client_busy = report.busy;
        c.current_request_id = report.current_request_id;
        c.current_method_name = report.current_method_name;
        let ghost c1 = c;
        assert(c1 == with_report(c0, rep));
        self.unity_clients.insert(i, c);
        proof {
            let o = old(self).unity_clients@;
            assert(self.unity_clients@ == o.update(i as int, c1));
            lemma_keyed_map_update(o, i as int, c1);
            crate::server::registry::lemma_names_update(o, i as int, c1);
            assert(self.clients().dom() =~= old(self).clients().dom());
        }
        let ghost s1 = *self;
        let released = if changed && !busy {
            self.release_client_lock_if_idle(cid)
        } else {
            None
        };
        proof {
            assert(s1.pending() == s0.pending());
            assert(s1.sequences() == s0.sequences());
            if let Some(l) = c0.lock {
                let o = Some(l.owner_id@);
                assert(spec_pending_for(s1, cid@, o) == spec_pending_for(s0, cid@, o));
                assert(spec_sequence_for(s1, cid@, o) == spec_sequence_for(s0, cid@, o));
            }
            assert(spec_report(rep, s0, payload@));
        }
        StateUpdate { changed, released, ignored_stale_busy: ignored }
    }

    /// Notes that client `cid` answered on `connection_id`.
    pub fn mark_unity_socket_alive(&mut self, cid: &str, connection_id: &str)
        requires
            old(self).wf(),
        ensures
            final(self).wf(),
            same_but_clients(*final(self), *old(self)),
            cid@.len() > 0 && on_connection(*old(self), cid@, connection_id@) ==> final(self).clients()
                == old(self).clients().insert(
                cid@,
                UnityClient { is_alive: true, ..old(self).clients()[cid@] },
            ),
            !(cid@.len() > 0 && on_connection(*old(self), cid@, connection_id@)) ==> *final(self)
                == *old(self),
    {
        if cid.unicode_len() == 0 {
            return ;
        }
        let i = match self.find_client(cid) {
            Some(i) => i,
            None => return ,
        };
        if !str_eq(self.unity_clients[i].connection_id.as_str(), connection_id) {
            return ;
        }
        let mut c = self.unity_clients.remove(i);
        c.is_alive = true;
        let ghost c1 = c;
        self.unity_clients.insert(i, c);
        proof {
            let o = old(self).unity_clients@;
            assert(self.unity_clients@ == o.update(i as int, c1));
            lemma_keyed_map_update(o, i as int, c1);
            crate::server::registry::lemma_names_update(o, i as int, c1);
        }
    }

    /// Forgets client `cid`, unless `connection_id` is given and the client
    /// speaks on another connection. Says whether it was forgotten.
    pub fn remove_unity_client(&mut self, cid: &str, connection_id: Option<&str>) -> (removed: bool)
        requires
            old(self).wf(),
        ensures
            final(self).wf(),
            same_but_clients(*final(self), *old(self)),
            removed == (old(self).clients().dom().contains(cid@) && match connection_id {
                Some(k) => old(self).clients()[cid@].connection_id@ == k@,
                None => true,
            }),
            removed ==> final(self).clients() == old(self).clients().remove(cid@),
            !removed ==> *final(self) == *old(self),
    {
        let i = match self.find_client(cid) {
            Some(i) => i,
            None => return false,
        };
        if let Some(k) = connection_id {
            if !str_eq(self.unity_clients[i].connection_id.as_str(), k) {
                return false;
            }
        }
        let _gone = self.unity_clients.remove(i);
        proof {
            let o = old(self).unity_clients@;
            crate::keyed::lemma_keyed_map_remove(o, i as int);
            let t = o.remove(i as int);
            assert forall|a: int, b: int| 0 <= a < b < t.len() implies (#[trigger] t[a]).name@
                != (#[trigger] t[b]).name@ by {
                let a2 = if a < i { a } else { a + 1 };
                let b2 = if b < i { b } else { b + 1 };
                assert(t[a] == o[a2] && t[b] == o[b2]);
            }
        }
        true
    }
}

} // verus!
