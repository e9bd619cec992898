use vstd::prelude::*;
use crate::json::{jbool, jget, jget_str, JsonValue, JsonView};
use crate::keyed::{
    find_keyed, has_key, keyed_map, lemma_keyed_map_at, lemma_keyed_map_dom, lemma_keyed_map_push,
    lemma_keyed_map_remove, lemma_keyed_map_update, Keyed,
};
use crate::server::locks::{
    acquired, busy_cleared, clears_busy, prepare_error, should_release, takes_lock, unlocked,
};
use crate::server::registry::{
    history_after_add, owner_matches, pending_for_map, same_but_clients, sequence_for_map,
    spec_running, with_snapshot, LockEvent,
};
use crate::server::state::{
    copy_opt_string, copy_strings, opt_json, opt_str, strs, ControllerIdentity, ExecutionRecord,
    ExecutionStatus, PendingExecution, RecordView, RequestError, SequenceState, ServerState,
    StatusCode, UnityClient,
};
use crate::text::{concat3, copy_str, str_eq};

verus! {

/// Where an execution stands within a sequence.
#[derive(Debug)]
pub struct ExecutionMeta {
    pub sequence_id: Option<String>,
    pub step_id: Option<String>,
    pub step_index: Option<usize>,
    pub step_number: Option<usize>,
    pub total_steps: Option<usize>,
}

impl ExecutionMeta {
    /// An execution outside any sequence.
    pub fn empty() -> (m: ExecutionMeta)
        ensures
            m.sequence_id is None && m.step_id is None && m.step_index is None
                && m.step_number is None && m.total_steps is None,
    {
        ExecutionMeta {
            sequence_id: None,
            step_id: None,
            step_index: None,
            step_number: None,
            total_steps: None,
        }
    }
}

/// A request to run one QaTest method. `arguments` are already in text form.
#[derive(Debug)]
pub struct DispatchRequest {
    pub client_id: String,
    pub method_id: Option<String>,
    pub method_name: Option<String>,
    pub arguments: Vec<String>,
    pub timeout_ms: Option<u64>,
    pub controller: ControllerIdentity,
    pub wait_for_result: bool,
    pub allow_busy: bool,
    pub allow_parallel_execution: bool,
    pub meta: ExecutionMeta,
}

/// The `execute` command that goes to the Unity client.
#[derive(Debug)]
pub struct ExecuteCommand {
    pub request_id: String,
    pub method_id: String,
    pub method_name: String,
    pub allow_parallel_execution: bool,
    pub arguments: Vec<String>,
}

/// An accepted execution: what was recorded, what to send, and how long to wait.
#[derive(Debug)]
pub struct DispatchOutcome {
    pub request_id: String,
    pub started: ExecutionRecord,
    pub command: ExecuteCommand,
    pub timeout_ms: u64,
    pub wait_for_result: bool,
    pub lock_event: Option<LockEvent>,
}

/// How an execution ended.
#[derive(Debug)]
pub struct ExecutionPatch {
    pub status: ExecutionStatus,
    pub success: bool,
    pub result: JsonValue,
    pub error: String,
    pub duration_ms: u64,
    pub finished_at: String,
    pub client_id: Option<String>,
    pub method_id: Option<String>,
    pub method_name: Option<String>,
}

/// The mathematical form of an [`ExecutionPatch`].
pub struct PatchView {
    pub status: ExecutionStatus,
    pub success: bool,
    pub result: JsonView,
    pub error: Seq<char>,
    pub duration_ms: u64,
    pub finished_at: Seq<char>,
    pub client_id: Option<Seq<char>>,
    pub method_id: Option<Seq<char>>,
    pub method_name: Option<Seq<char>>,
}

impl View for ExecutionPatch {
    type V = PatchView;

    open spec fn view(&self) -> PatchView {
        PatchView {
            status: self.status,
            success: self.success,
            result: self.result@,
            error: self.error@,
            duration_ms: self.duration_ms,
            finished_at: self.finished_at@,
            client_id: opt_str(self.client_id),
            method_id: opt_str(self.method_id),
            method_name: opt_str(self.method_name),
        }
    }
}

/// How an execution that failed on the server's side is closed: failed, with
/// an empty text as its result, this error and duration, and nothing of the
/// client or method changed.
pub open spec fn failure_view(error: Seq<char>, duration_ms: u64, finished_at: Seq<char>) -> PatchView {
    PatchView {
        status: ExecutionStatus::Failed,
        success: false,
        result: JsonView::Str(Seq::empty()),
        error,
        duration_ms,
        finished_at,
        client_id: None,
        method_id: None,
        method_name: None,
    }
}

fn failure_patch(error: String, duration_ms: u64, finished_at: String) -> (r: ExecutionPatch)
    ensures
        r@ == failure_view(error@, duration_ms, finished_at@),
{
    ExecutionPatch {
        status: ExecutionStatus::Failed,
        success: false,
        result: JsonValue::String(String::new()),
        error,
        duration_ms,
        finished_at,
        client_id: None,
        method_id: None,
        method_name: None,
    }
}

/// The outcome of an execution that no result reached within `timeout_ms`:
/// it fails after that time with "Timed out after {timeout_ms} ms.".
pub fn timeout_patch(timeout_ms: u64, finished_at: String) -> (r: ExecutionPatch)
    ensures
        r@ == failure_view(
            "Timed out after "@ + crate::text::decimal(timeout_ms as nat) + " ms."@,
            timeout_ms,
            finished_at@,
        ),
{
    let t = crate::text::u64_to_string(timeout_ms);
    let error = crate::text::concat3("Timed out after ", t.as_str(), " ms.");
    failure_patch(error, timeout_ms, finished_at)
}

/// The outcome of an execution whose command could not be handed to its
/// client: it fails at once with "Failed to send execution command.".
pub fn send_failure_patch(finished_at: String) -> (r: ExecutionPatch)
    ensures
        r@ == failure_view("Failed to send execution command."@, 0, finished_at@),
{
    failure_patch(crate::text::copy_str("Failed to send execution command."), 0, finished_at)
}

/// A finished execution: its final record and what changed on its client.
#[derive(Debug)]
pub struct Completion {
    pub record: ExecutionRecord,
    pub owner_id: String,
    pub owner_type: String,
    pub busy_cleared: bool,
    pub unlock: Option<LockEvent>,
}

/// The candidate names of a registered method: id, name, methodId, methodName.
pub open spec fn method_candidate_matches(m: JsonView, key: Seq<char>, mid: Seq<char>, mname: Seq<char>) -> bool {
    match jget_str(m, key) {
        Some(c) => (mid.len() > 0 && c == mid) || (mname.len() > 0 && c == mname),
        None => false,
    }
}

/// Whether a registered method is the one named by id `mid` or name `mname`.
pub open spec fn method_matches(m: JsonView, mid: Seq<char>, mname: Seq<char>) -> bool {
    ||| method_candidate_matches(m, "id"@, mid, mname)
    ||| method_candidate_matches(m, "name"@, mid, mname)
    ||| method_candidate_matches(m, "methodId"@, mid, mname)
    ||| method_candidate_matches(m, "methodName"@, mid, mname)
}

/// `allowParallelExecution`
/// (or, where that is absent, `allowParallel`) is `true`.
pub open spec fn method_allows_parallel(m: JsonView) -> bool {
    match jget(m, "allowParallelExecution"@) {
        Some(v) => jbool(Some(v)) == Some(true),
        None => jbool(jget(m, "allowParallel"@)) == Some(true),
    }
}

/// The first registered method that matches, if any.
pub open spec fn first_matching_method(ms: Seq<JsonValue>, mid: Seq<char>, mname: Seq<char>) -> Option<JsonView>
    decreases ms.len(),
{
    if ms.len() == 0 {
        None
    } else if method_matches(ms[0]@, mid, mname) {
        Some(ms[0]@)
    } else {
        first_matching_method(ms.drop_first(), mid, mname)
    }
}

/// Whether the method of client `cid` named `mid` or `mname` may run beside others.
pub open spec fn spec_method_allows_parallel(s: ServerState, cid: Seq<char>, mid: Seq<char>, mname: Seq<char>) -> bool {
    s.clients().dom().contains(cid) && match first_matching_method(
        s.clients()[cid].methods@,
        mid,
        mname,
    ) {
        Some(m) => method_allows_parallel(m),
        None => false,
    }
}

pub open spec fn opt_or(a: Option<String>, b: Option<String>) -> Option<String> {
    if a is Some {
        a
    } else {
        b
    }
}

/// `method_id` or else `method_name` or else empty.
pub open spec fn resolved_method_id(req: DispatchRequest) -> Seq<char> {
    match opt_or(req.method_id, req.method_name) {
        Some(s) => s@,
        None => Seq::empty(),
    }
}

/// `method_name` or else the resolved method id.
pub open spec fn command_method_name(req: DispatchRequest) -> Seq<char> {
    match req.method_name {
        Some(s) => s@,
        None => resolved_method_id(req),
    }
}

/// Whether the execution may run beside others.
pub open spec fn dispatch_parallel(s: ServerState, req: DispatchRequest) -> bool {
    req.allow_parallel_execution || spec_method_allows_parallel(
        s,
        req.client_id@,
        resolved_method_id(req),
        command_method_name(req),
    )
}

/// Why an execution is refused, with the status that says so.
pub open spec fn dispatch_error(s: ServerState, req: DispatchRequest, sender_closed: bool) -> Option<(StatusCode, Seq<char>)> {
    if resolved_method_id(req).len() == 0 {
        Some((StatusCode::BadRequest, "methodId is required."@))
    } else if req.meta.sequence_id is Some && s.sequences().dom().contains(req.meta.sequence_id->0@)
        && s.sequences()[req.meta.sequence_id->0@].cancelled {
        Some((StatusCode::Conflict, "Sequence "@ + req.meta.sequence_id->0@ + " is already cancelled."@))
    } else {
        prepare_error(
            s,
            req.client_id@,
            req.controller.id@,
            req.allow_busy,
            dispatch_parallel(s, req),
            sender_closed,
        )
    }
}

/// The record of an execution as it starts, before the client's details.
pub open spec fn started_record(s: ServerState, req: DispatchRequest, rid: Seq<char>, started_at: Seq<char>) -> RecordView {
    RecordView {
        request_id: rid,
        client_id: req.client_id@,
        client_name: None,
        client_ip_address: None,
        client_remote_address: None,
        client_ip_addresses: None,
        method_id: resolved_method_id(req),
        method_name: command_method_name(req),
        arguments: strs(req.arguments@),
        status: ExecutionStatus::Running,
        allow_parallel_execution: dispatch_parallel(s, req),
        success: None,
        result: None,
        error: None,
        duration_ms: None,
        started_at: Some(started_at),
        finished_at: None,
        sequence_id: opt_str(req.meta.sequence_id),
        step_id: opt_str(req.meta.step_id),
        step_index: req.meta.step_index,
        step_number: req.meta.step_number,
        total_steps: req.meta.total_steps,
    }
}

/// The record of a finished execution, before the client's details.
pub open spec fn patched_record(r: RecordView, rid: Seq<char>, p: PatchView) -> RecordView {
    let client_id = match p.client_id {
        Some(c) => c,
        None => r.client_id,
    };
    let moved = client_id != r.client_id;
    RecordView {
        request_id: rid,
        client_id: client_id,
        client_name: if moved { None } else { r.client_name },
        client_ip_address: if moved { None } else { r.client_ip_address },
        client_remote_address: if moved { None } else { r.client_remote_address },
        client_ip_addresses: if moved { None } else { r.client_ip_addresses },
        method_id: match p.method_id {
            Some(m) => m,
            None => r.method_id,
        },
        method_name: match p.method_name {
            Some(m) => m,
            None => r.method_name,
        },
        status: p.status,
        success: Some(p.success),
        result: Some(p.result),
        error: Some(p.error),
        duration_ms: Some(p.duration_ms),
        finished_at: Some(p.finished_at),
        ..r
    }
}

/// A client after its execution finished: its busy report cleared when it
/// named this request (`clear`), its lock gone when it guards nothing (`unlock`).
pub open spec fn finished_client(b: UnityClient, a: UnityClient, clear: bool, unlock: bool) -> bool {
    &&& b.lock == (if unlock { None } else { a.lock })
    &&& if clear {
        busy_cleared(UnityClient { lock: a.lock, ..b }, a)
    } else {
        UnityClient { lock: a.lock, ..b } == a
    }
}

fn request_error(status: StatusCode, message: String) -> (e: RequestError)
    ensures
        e.status == status,
        e.message == message,
{
    RequestError { message, status }
}

fn or_name(a: &Option<String>, b: &Option<String>) -> (r: String)
    ensures
        r@ == match opt_or(*a, *b) {
            Some(s) => s@,
            None => Seq::<char>::empty(),
        },
{
    match a {
        Some(s) => s.clone(),
        None => match b {
            Some(s) => s.clone(),
            None => String::new(),
        },
    }
}

impl ServerState {
    /// Whether the method of client `cid` named `mid` or `mname` may run beside others.
    #[verifier::loop_isolation(false)]
    pub fn method_allows_parallel_execution(&self, cid: &str, mid: &str, mname: &str) -> (r: bool)
        requires
            self.wf(),
        ensures
            r == spec_method_allows_parallel(*self, cid@, mid@, mname@),
    {
        let i = match self.find_client(cid) {
            Some(i) => i,
            None => return false,
        };
        let ms = &self.unity_clients[i].methods;
        let mut j: usize = 0;
        assert(ms@.subrange(0, ms@.len() as int) == ms@);
        while j < ms.len()
            invariant
                j <= ms@.len(),
                first_matching_method(ms@, mid@, mname@) == first_matching_method(
                    ms@.subrange(j as int, ms@.len() as int),
                    mid@,
                    mname@,
                ),
            decreases ms@.len() - j,
        {
            let ghost t = ms@.subrange(j as int, ms@.len() as int);
            assert(t[0] == ms@[j as int]);
            assert(t.drop_first() == ms@.subrange(j + 1, ms@.len() as int));
            if registered_method_matches(&ms[j], mid, mname) {
                return match ms[j].get("allowParallelExecution") {
                    Some(v) => v.as_bool() == Some(true),
                    None => ms[j].get_bool("allowParallel") == Some(true),
                };
            }
            j = j + 1;
        }
        assert(ms@.subrange(j as int, ms@.len() as int).len() == 0);
        false
    }

    /// Index of the running sequence `sid`, if there is one.
    pub fn find_sequence(&self, sid: &str) -> (r: Option<usize>)
        requires
            self.wf(),
        ensures
            match r {
                Some(i) => i < self.active_sequences@.len() && self.sequences().dom().contains(sid@)
                    && self.active_sequences@[i as int].sequence_id@ == sid@
                    && self.sequences()[sid@] == self.active_sequences@[i as int],
                None => !self.sequences().dom().contains(sid@),
            },
    {
        find_keyed(&self.active_sequences, sid)
    }

    /// Index of the pending execution `rid`, if there is one.
    pub fn find_pending(&self, rid: &str) -> (r: Option<usize>)
        requires
            self.wf(),
        ensures
            match r {
                Some(i) => i < self.pending_executions@.len() && self.pending().dom().contains(rid@)
                    && self.pending_executions@[i as int].request_id@ == rid@
                    && self.pending()[rid@] == self.pending_executions@[i as int],
                None => !self.pending().dom().contains(rid@),
            },
    {
        find_keyed(&self.pending_executions, rid)
    }
}


/// The timeout that an accepted execution waits for: the requested one when
/// it is positive, else the server's default.
pub open spec fn effective_timeout(t: Option<u64>, default_ms: u64) -> u64 {
    match t {
        Some(v) if v > 0 => v,
        _ => default_ms,
    }
}

/// The sequences after `rid` becomes the current request of `sid`.
pub open spec fn with_current_request(
    q: Map<Seq<char>, SequenceState>,
    sid: Option<String>,
    rid: String,
) -> Map<Seq<char>, SequenceState> {
    match sid {
        Some(k) if q.dom().contains(k@) => q.insert(
            k@,
            SequenceState { current_request_id: rid, ..q[k@] },
        ),
        _ => q,
    }
}

impl ServerState {
    /// Records `p` as the pending execution with its request id.
    fn put_pending(&mut self, p: PendingExecution)
        requires
            old(self).wf(),
        ensures
            final(self).wf(),
            final(self).pending() == old(self).pending().insert(p.request_id@, p),
            final(self).unity_clients == old(self).unity_clients,
            final(self).web_clients == old(self).web_clients,
            final(self).controllers == old(self).controllers,
            final(self).execution_history == old(self).execution_history,
            final(self).active_sequences == old(self).active_sequences,
    {
        let ghost o = self.pending_executions@;
        let ghost pv = p;
        match find_keyed(&self.pending_executions, p.request_id.as_str()) {
            Some(i) => {
                self.pending_executions.set(i, p);
                proof {
                    lemma_keyed_map_update(o, i as int, pv);
                }
            },
            None => {
                self.pending_executions.push(p);
                proof {
                    lemma_keyed_map_push(o, pv);
                }
            },
        }
    }

    /// Makes `rid` the current request of the sequence `sid`, if it runs.
    fn set_sequence_request(&mut self, sid: &Option<String>, rid: &String)
        requires
            old(self).wf(),
        ensures
            final(self).wf(),
            final(self).sequences() == with_current_request(old(self).sequences(), *sid, *rid),
            final(self).unity_clients == old(self).unity_clients,
            final(self).web_clients == old(self).web_clients,
            final(self).controllers == old(self).controllers,
            final(self).execution_history == old(self).execution_history,
            final(self).pending_executions == old(self).pending_executions,
    {
        if let Some(k) = sid {
            if let Some(i) = self.find_sequence(k.as_str()) {
                let ghost o = self.active_sequences@;
                let mut q = self.active_sequences.remove(i);
                q.current_request_id = rid.clone();
                let ghost qv = q;
                self.active_sequences.insert(i, q);
                proof {
                    assert(self.active_sequences@ == o.update(i as int, qv));
                    lemma_keyed_map_update(o, i as int, qv);
                    assert(qv == SequenceState { current_request_id: *rid, ..old(self).sequences()[k@] });
                }
            }
        }
    }

    /// Accepts an execution for a client or
    /// refuses it. `request_id` names the new execution, `started_at` is the
    /// time in text form, `now` in nanoseconds since the epoch; `sender_closed` tells whether
    /// the client's connection is already closed.
    pub fn dispatch_unity_execution(
        &mut self,
        request: DispatchRequest,
        request_id: String,
        started_at: String,
        now: i64,
        sender_closed: bool,
        default_timeout_ms: u64,
    ) -> (r: Result<DispatchOutcome, RequestError>)
        requires
            old(self).wf(),
        ensures
            final(self).wf(),
            final(self).web_clients == old(self).web_clients,
            final(self).controllers == old(self).controllers,
            match r {
                Err(e) => dispatch_error(*old(self), request, sender_closed) == Some((e.status, e.message@))
                    && *final(self) == *old(self),
                Ok(o) => {
                    let cid = request.client_id@;
                    let par = dispatch_parallel(*old(self), request);
                    &&& dispatch_error(*old(self), request, sender_closed) is None
                    &&& o.request_id == request_id
                    &&& o.started@ == with_snapshot(
                        *old(self),
                        started_record(*old(self), request, request_id@, started_at@),
                    )
                    &&& o.command.request_id == request_id
                    &&& o.command.method_id@ == resolved_method_id(request)
                    &&& o.command.method_name@ == command_method_name(request)
                    &&& o.command.allow_parallel_execution == par
                    &&& strs(o.command.arguments@) == strs(request.arguments@)
                    &&& o.timeout_ms == effective_timeout(request.timeout_ms, default_timeout_ms)
                    &&& o.wait_for_result == request.wait_for_result
                    &&& final(self).clients() == if takes_lock(old(self).clients()[cid], request.controller.id@, par) {
                        old(self).clients().insert(cid, acquired(old(self).clients()[cid], request.controller, now))
                    } else {
                        old(self).clients()
                    }
                    &&& final(self).pending().dom() == old(self).pending().dom().insert(request_id@)
                    &&& final(self).pending().remove(request_id@) == old(self).pending().remove(request_id@)
                    &&& final(self).pending()[request_id@].request_id == request_id
                    &&& final(self).pending()[request_id@].started@ == o.started@
                    &&& final(self).pending()[request_id@].client_id == request.client_id
                    &&& final(self).pending()[request_id@].owner_id == request.controller.id
                    &&& final(self).pending()[request_id@].owner_type == request.controller.controller_type
                    &&& final(self).sequences() == with_current_request(old(self).sequences(), request.meta.sequence_id, request_id)
                    &&& final(self).history() == history_after_add(old(self).history(), o.started@)
                },
            },
    {
        let ghost s0 = *self;
        let resolved = or_name(&request.method_id, &request.method_name);
        if resolved.as_str().is_empty() {
            return Err(request_error(StatusCode::BadRequest, copy_str("methodId is required.")));
        }
        let method_name = match &request.method_name {
            Some(n) => n.clone(),
            None => resolved.clone(),
        };
        let allow_parallel = request.allow_parallel_execution || self.method_allows_parallel_execution(
            request.client_id.as_str(),
            resolved.as_str(),
            method_name.as_str(),
        );
        if let Some(sid) = &request.meta.sequence_id {
            if let Some(i) = self.find_sequence(sid.as_str()) {
                if self.active_sequences[i].cancelled {
                    return Err(
                        request_error(
                            StatusCode::Conflict,
                            concat3("Sequence ", sid.as_str(), " is already cancelled."),
                        ),
                    );
                }
            }
        }
        let lock_event = match self.prepare_client_for_execution(
            request.client_id.as_str(),
            &request.controller,
            request.allow_busy,
            allow_parallel,
            sender_closed,
            now,
        ) {
            Ok(ev) => ev,
            Err(e) => return Err(e),
        };
        let ghost s1 = *self;
        let mut started = ExecutionRecord {
            request_id: request_id.clone(),
            client_id: request.client_id.clone(),
            client_name: None,
            client_ip_address: None,
            client_remote_address: None,
            client_ip_addresses: None,
            method_id: resolved.clone(),
            method_name: method_name.clone(),
            arguments: copy_strings(&request.arguments),
            status: ExecutionStatus::Running,
            allow_parallel_execution: allow_parallel,
            success: None,
            result: None,
            error: None,
            duration_ms: None,
            started_at: Some(started_at),
            finished_at: None,
            sequence_id: copy_opt_string(&request.meta.sequence_id),
            step_id: copy_opt_string(&request.meta.step_id),
            step_index: request.meta.step_index,
            step_number: request.meta.step_number,
            total_steps: request.meta.total_steps,
        };
        let ghost base = started@;
        proof {
            assert(strs(started.arguments@) == strs(request.arguments@));
            assert(base == started_record(s0, request, request_id@, started_at@));
        }
        self.apply_client_snapshot(&mut started);
        proof {
            assert(with_snapshot(s1, base) == with_snapshot(s0, base));
        }
        let pending = PendingExecution {
            request_id: request_id.clone(),
            started: started.copy(),
            client_id: request.client_id.clone(),
            owner_id: request.controller.id.clone(),
            owner_type: request.controller.controller_type.clone(),
        };
        let ghost pv = pending;
        self.put_pending(pending);
        self.set_sequence_request(&request.meta.sequence_id, &request_id);
        self.add_history(started.copy());
        let timeout_ms = match request.timeout_ms {
            Some(t) => if t > 0 {
                t
            } else {
                default_timeout_ms
            },
            None => default_timeout_ms,
        };
        let command = ExecuteCommand {
            request_id: request_id.clone(),
            method_id: resolved,
            method_name,
            allow_parallel_execution: allow_parallel,
            arguments: copy_strings(&request.arguments),
        };
        proof {
            assert(self.pending().remove(request_id@) =~= s0.pending().remove(request_id@));
            assert(self.pending().dom() =~= s0.pending().dom().insert(request_id@));
        }
        Ok(DispatchOutcome {
            request_id,
            started,
            command,
            timeout_ms,
            wait_for_result: request.wait_for_result,
            lock_event,
        })
    }
}


/// Whether the lock on `cid` goes once the execution `rid` finished: the
/// client keeps no busy report and its lock owner runs nothing else there.
pub open spec fn unlock_after_finish(s: ServerState, cid: Seq<char>, rid: Seq<char>) -> bool {
    let clear = clears_busy(s, cid, rid);
    &&& s.clients().dom().contains(cid)
    &&& s.clients()[cid].lock is Some
    &&& !((s.clients()[cid].client_busy && !clear) || pending_for_map(
        s.pending().remove(rid),
        cid,
        Some(s.clients()[cid].lock->0.owner_id@),
    ) || sequence_for_map(s.sequences(), cid, Some(s.clients()[cid].lock->0.owner_id@)))
}

/// The final record of the pending execution `rid` when `p` finishes it.
pub open spec fn completed_record(s: ServerState, rid: Seq<char>, p: PatchView) -> RecordView {
    with_snapshot(s, patched_record(s.pending()[rid].started@, rid, p))
}

/// What finishing the pending execution `rid` does to the server.
pub open spec fn finished_state(a: ServerState, b: ServerState, rid: Seq<char>, rec: RecordView) -> bool {
    let cid = rec.client_id;
    let clear = clears_busy(a, cid, rid);
    let unlock = unlock_after_finish(a, cid, rid);
    &&& b.sequences() == a.sequences()
    &&& finished_except_sequences(a, b, rid, rec)
}

/// [`finished_state`] but for the running sequences.
pub open spec fn finished_except_sequences(a: ServerState, b: ServerState, rid: Seq<char>, rec: RecordView) -> bool {
    let cid = rec.client_id;
    let clear = clears_busy(a, cid, rid);
    let unlock = unlock_after_finish(a, cid, rid);
    &&& b.pending() == a.pending().remove(rid)
    &&& b.history() == history_after_add(a.history(), rec)
    &&& b.web_clients == a.web_clients
    &&& b.controllers == a.controllers
    &&& b.clients().dom() == a.clients().dom()
    &&& forall|k: Seq<char>| #[trigger] a.clients().dom().contains(k) && k != cid ==> b.clients()[k] == a.clients()[k]
    &&& a.clients().dom().contains(cid) ==> finished_client(b.clients()[cid], a.clients()[cid], clear, unlock)
}

impl ServerState {
    /// Finishes the pending execution `rid` with
    /// `patch`, records it, clears the client's busy report for it and
    /// releases the client's lock when nothing else holds it.
    pub fn complete_pending_execution(&mut self, rid: &str, patch: ExecutionPatch) -> (r: Option<Completion>)
        requires
            old(self).wf(),
        ensures
            final(self).wf(),
            !old(self).pending().dom().contains(rid@) ==> r is None && *final(self) == *old(self),
            old(self).pending().dom().contains(rid@) ==> {
                let rec = completed_record(*old(self), rid@, patch@);
                &&& r is Some
                &&& r->0.record@ == rec
                &&& r->0.owner_id == old(self).pending()[rid@].owner_id
                &&& r->0.owner_type == old(self).pending()[rid@].owner_type
                &&& r->0.busy_cleared == clears_busy(*old(self), rec.client_id, rid@)
                &&& (r->0.unlock is Some) == unlock_after_finish(*old(self), rec.client_id, rid@)
                &&& finished_state(*old(self), *final(self), rid@, rec)
            },
    {
        let ghost s0 = *self;
        let ghost pv = patch@;
        let i = match self.find_pending(rid) {
            Some(i) => i,
            None => return None,
        };
        let p = self.pending_executions.remove(i);
        proof {
            lemma_keyed_map_remove(s0.pending_executions@, i as int);
        }
        let ghost s1 = *self;
        let PendingExecution { request_id: _, started, client_id: _, owner_id, owner_type } = p;
        let mut result = started;
        let ghost r0 = result@;
        let started_client = result.client_id.clone();
        result.request_id = copy_str(rid);
        match patch.client_id {
            Some(c) => {
                result.client_id = c;
            },
            None => {},
        }
        if !str_eq(result.client_id.as_str(), started_client.as_str()) {
            result.client_name = None;
            result.client_ip_address = None;
            result.client_remote_address = None;
            result.client_ip_addresses = None;
        }
        match patch.method_id {
            Some(m) => {
                result.method_id = m;
            },
            None => {},
        }
        match patch.method_name {
            Some(m) => {
                result.method_name = m;
            },
            None => {},
        }
        result.status = patch.status;
        result.success = Some(patch.success);
        result.result = Some(patch.result);
        result.error = Some(patch.error);
        result.duration_ms = Some(patch.duration_ms);
        result.finished_at = Some(patch.finished_at);
        proof {
            assert(result@ == patched_record(r0, rid@, pv));
            assert(s1.clients() == s0.clients());
        }
        self.apply_client_snapshot(&mut result);
        let ghost rec = result@;
        self.add_history(result.copy());
        let ghost s2 = *self;
        let busy_cleared = self.clear_client_busy_for_finished_request(result.client_id.as_str(), rid);
        let ghost s3 = *self;
        let unlock = self.release_client_lock_if_idle(result.client_id.as_str());
        proof {
            let cid = rec.client_id;
            assert(s2.clients() == s0.clients());
            assert(s2.pending() == s0.pending().remove(rid@));
            assert(s3.pending() == s2.pending());
            assert(s3.sequences() == s0.sequences());
            if s0.clients().dom().contains(cid) {
                assert(s3.clients()[cid].client_busy == (s0.clients()[cid].client_busy && !clears_busy(s0, cid, rid@)));
                assert(s3.clients()[cid].lock == s0.clients()[cid].lock);
            }
            assert(should_release(s3, cid) == unlock_after_finish(s0, cid, rid@));
            assert(s3.clients().dom() =~= s0.clients().dom());
            assert(self.clients().dom() =~= s0.clients().dom());
            assert forall|k: Seq<char>| #[trigger] s0.clients().dom().contains(k) && k != cid implies self.clients()[k]
                == s0.clients()[k] by {}
        }
        Some(Completion { record: result, owner_id, owner_type, busy_cleared, unlock })
    }
}


/// A `qa_result` message from a Unity client, its fields in text form.
/// `result` is absent where the message has none or `null`.
#[derive(Debug)]
pub struct QaResultPayload {
    pub request_id: String,
    pub client_id: Option<String>,
    pub method_id: Option<String>,
    pub method_name: Option<String>,
    pub success: Option<bool>,
    pub result: Option<JsonValue>,
    pub error: Option<String>,
    pub duration_ms: Option<u64>,
}

/// What became of a `qa_result` message.
#[derive(Debug)]
pub enum QaResultOutcome {
    /// It finished a pending execution.
    Completed(Completion),
    /// It came after its execution had already ended; nothing changed.
    Late(ExecutionRecord),
    /// No execution waited for it; it was recorded as it is.
    Unexpected { record: ExecutionRecord, unlock: Option<LockEvent> },
}

pub open spec fn opt_view_or_empty(o: Option<String>) -> Seq<char> {
    match o {
        Some(s) => s@,
        None => Seq::empty(),
    }
}

/// The result that a message carries: its `result`, or the empty string.
pub open spec fn qa_result_value(pl: QaResultPayload) -> JsonView {
    match pl.result {
        Some(v) => v@,
        None => JsonView::Str(Seq::empty()),
    }
}

/// The business failure of a result reported as a success.
pub open spec fn qa_failure(pl: QaResultPayload, embedded: Option<JsonView>) -> Option<Seq<char>> {
    if pl.success == Some(true) {
        crate::server::results::business_failure(qa_result_value(pl), embedded)
    } else {
        None
    }
}

/// The patch that a `qa_result` message makes.
pub open spec fn qa_patch(pl: QaResultPayload, bound: Seq<char>, embedded: Option<JsonView>, finished_at: Seq<char>) -> PatchView {
    let success = pl.success == Some(true) && qa_failure(pl, embedded) is None;
    let error = opt_view_or_empty(pl.error);
    PatchView {
        status: if success { ExecutionStatus::Success } else { ExecutionStatus::Failed },
        success: success,
        result: qa_result_value(pl),
        error: if qa_failure(pl, embedded) is Some && error.len() == 0 { qa_failure(pl, embedded)->0 } else { error },
        duration_ms: match pl.duration_ms {
            Some(d) => d,
            None => 0,
        },
        finished_at: finished_at,
        client_id: Some(match pl.client_id {
            Some(c) => c@,
            None => bound,
        }),
        method_id: Some(match opt_or(pl.method_id, pl.method_name) {
            Some(m) => m@,
            None => Seq::empty(),
        }),
        method_name: Some(match opt_or(pl.method_name, pl.method_id) {
            Some(m) => m@,
            None => Seq::empty(),
        }),
    }
}

/// The record of a result that no execution waited for.
pub open spec fn unexpected_record(p: PatchView, rid: Seq<char>) -> RecordView {
    RecordView {
        request_id: rid,
        client_id: p.client_id->0,
        client_name: None,
        client_ip_address: None,
        client_remote_address: None,
        client_ip_addresses: None,
        method_id: p.method_id->0,
        method_name: p.method_name->0,
        arguments: Seq::empty(),
        status: p.status,
        allow_parallel_execution: false,
        success: Some(p.success),
        result: Some(p.result),
        error: Some(p.error),
        duration_ms: Some(p.duration_ms),
        started_at: None,
        finished_at: Some(p.finished_at),
        sequence_id: None,
        step_id: None,
        step_index: None,
        step_number: None,
        total_steps: None,
    }
}

/// A record with this request id has already ended.
pub open spec fn already_ended(s: ServerState, rid: Seq<char>) -> bool {
    let i = crate::server::registry::history_index(s.history(), rid);
    rid.len() > 0 && i >= 0 && s.history()[i].status != ExecutionStatus::Running
}

fn opt_string_or(a: &Option<String>, b: &Option<String>) -> (r: String)
    ensures
        r@ == match opt_or(*a, *b) {
            Some(s) => s@,
            None => Seq::<char>::empty(),
        },
{
    or_name(a, b)
}

impl ServerState {
    /// A Unity client reports how an execution
    /// ended. `bound_client_id` is the client the connection belongs to;
    /// `embedded` is what a text result parses to as JSON, where it is one.
    pub fn handle_unity_qa_result(
        &mut self,
        payload: QaResultPayload,
        bound_client_id: &str,
        embedded: Option<&JsonValue>,
        finished_at: String,
    ) -> (r: QaResultOutcome)
        requires
            old(self).wf(),
        ensures
            final(self).wf(),
            ({
                let p = qa_patch(payload, bound_client_id@, crate::server::results::opt_json_owned(embedded), finished_at@);
                let rid = payload.request_id@;
                if old(self).pending().dom().contains(rid) {
                    let rec = completed_record(*old(self), rid, p);
                    &&& r is Completed
                    &&& r->Completed_0.record@ == rec
                    &&& r->Completed_0.busy_cleared == clears_busy(*old(self), rec.client_id, rid)
                    &&& (r->Completed_0.unlock is Some) == unlock_after_finish(*old(self), rec.client_id, rid)
                    &&& finished_state(*old(self), *final(self), rid, rec)
                } else {
                    let rec = with_snapshot(*old(self), unexpected_record(p, rid));
                    if already_ended(*old(self), rid) {
                        &&& r is Late
                        &&& r->Late_0@ == rec
                        &&& *final(self) == *old(self)
                    } else {
                        &&& r is Unexpected
                        &&& r->record@ == rec
                        &&& final(self).history() == history_after_add(old(self).history(), rec)
                        &&& final(self).pending() == old(self).pending()
                        &&& final(self).sequences() == old(self).sequences()
                        &&& should_release(*old(self), rec.client_id) ==> final(self).clients()
                            == old(self).clients().insert(rec.client_id, unlocked(old(self).clients()[rec.client_id]))
                        &&& !should_release(*old(self), rec.client_id) ==> final(self).clients() == old(self).clients()
                        &&& (r->unlock is Some) == should_release(*old(self), rec.client_id)
                    }
                }
            }),
    {
        let ghost s0 = *self;
        let client_id = match &payload.client_id {
            Some(c) => c.clone(),
            None => copy_str(bound_client_id),
        };
        let method_id = opt_string_or(&payload.method_id, &payload.method_name);
        let method_name = opt_string_or(&payload.method_name, &payload.method_id);
        let mut success = match payload.success {
            Some(b) => b,
            None => false,
        };
        let result_value = match &payload.result {
            Some(v) => v.copy(),
            None => JsonValue::String(String::new()),
        };
        let mut error = match &payload.error {
            Some(e) => e.clone(),
            None => String::new(),
        };
        let duration_ms = match payload.duration_ms {
            Some(d) => d,
            None => 0,
        };
        if success {
            match crate::server::results::business_failure_reason(&result_value, embedded) {
                Some(reason) => {
                    success = false;
                    if error.as_str().is_empty() {
                        error = reason;
                    }
                },
                None => {},
            }
        }
        let status = if success {
            ExecutionStatus::Success
        } else {
            ExecutionStatus::Failed
        };
        let patch = ExecutionPatch {
            status,
            success,
            result: result_value,
            error,
            duration_ms,
            finished_at,
            client_id: Some(client_id),
            method_id: Some(method_id),
            method_name: Some(method_name),
        };
        let ghost pv = patch@;
        assert(pv == qa_patch(payload, bound_client_id@, crate::server::results::opt_json_owned(embedded), patch.finished_at@));
        let rid = payload.request_id.as_str();
        if self.find_pending(rid).is_some() {
            let c = self.complete_pending_execution(rid, patch);
            return QaResultOutcome::Completed(c.unwrap());
        }
        let ExecutionPatch {
            status,
            success,
            result,
            error,
            duration_ms,
            finished_at,
            client_id,
            method_id,
            method_name,
        } = patch;
        let mut record = ExecutionRecord {
            request_id: payload.request_id.clone(),
            client_id: match client_id {
                Some(c) => c,
                None => String::new(),
            },
            client_name: None,
            client_ip_address: None,
            client_remote_address: None,
            client_ip_addresses: None,
            method_id: match method_id {
                Some(m) => m,
                None => String::new(),
            },
            method_name: match method_name {
                Some(m) => m,
                None => String::new(),
            },
            arguments: Vec::new(),
            status,
            allow_parallel_execution: false,
            success: Some(success),
            result: Some(result),
            error: Some(error),
            duration_ms: Some(duration_ms),
            started_at: None,
            finished_at: Some(finished_at),
            sequence_id: None,
            step_id: None,
            step_index: None,
            step_number: None,
            total_steps: None,
        };
        assert(record@ == unexpected_record(pv, payload.request_id@)) by {
            assert(strs(record.arguments@) =~= Seq::<Seq<char>>::empty());
        }
        self.apply_client_snapshot(&mut record);
        if let Some(i) = self.find_history(rid) {
            if self.execution_history[i].status != ExecutionStatus::Running {
                return QaResultOutcome::Late(record);
            }
        }
        self.add_history(record.copy());
        let ghost s1 = *self;
        let unlock = self.release_client_lock_if_idle(record.client_id.as_str());
        proof {
            assert(s1.clients() == s0.clients());
            assert(should_release(s1, record@.client_id) == should_release(s0, record@.client_id));
        }
        QaResultOutcome::Unexpected { record, unlock }
    }
}


/// Which of the two a stop request names, and how it was answered.
#[derive(Clone, Copy, Debug, PartialEq, Eq, Structural)]
pub enum StopStatus {
    /// The sequence is told to stop; its current execution is cancelled.
    Cancelling,
    /// The execution is cancelled.
    Cancelled,
}

/// An accepted stop request.
#[derive(Debug)]
pub struct StopOutcome {
    pub request_id: Option<String>,
    pub sequence_id: Option<String>,
    pub status: StopStatus,
    /// The sequence that was marked cancelled, whose waiters are to be woken.
    pub cancelled_sequence: Option<String>,
    /// The execution that the stop ended, if one was pending.
    pub completion: Option<Completion>,
}

/// The patch that cancels an execution.
pub open spec fn cancel_patch(reason: Seq<char>, finished_at: Seq<char>) -> PatchView {
    PatchView {
        status: ExecutionStatus::Cancelled,
        success: false,
        result: JsonView::Str(Seq::empty()),
        error: reason,
        duration_ms: 0,
        finished_at: finished_at,
        client_id: None,
        method_id: None,
        method_name: None,
    }
}

/// The first pending execution of `owner` that belongs to sequence `sid`.
pub open spec fn first_pending_of_sequence(ps: Seq<PendingExecution>, sid: Seq<char>, owner: Seq<char>) -> Option<Seq<char>>
    decreases ps.len(),
{
    if ps.len() == 0 {
        None
    } else if ps[0].owner_id@ == owner && opt_str(ps[0].started.sequence_id) == Some(sid) {
        Some(ps[0].request_id@)
    } else {
        first_pending_of_sequence(ps.drop_first(), sid, owner)
    }
}

/// The execution that stopping sequence `sid` cancels: its current request,
/// or else a pending execution of its owner in it, or else none (empty).
pub open spec fn sequence_stop_target(s: ServerState, sid: Seq<char>) -> Seq<char> {
    let q = s.sequences()[sid];
    if q.current_request_id@.len() > 0 {
        q.current_request_id@
    } else {
        match first_pending_of_sequence(s.pending_executions@, sid, q.owner_id@) {
            Some(r) => r,
            None => Seq::empty(),
        }
    }
}

pub open spec fn nonempty(o: Option<String>) -> Option<Seq<char>> {
    match o {
        Some(v) if v@.len() > 0 => Some(v@),
        _ => None,
    }
}

pub open spec fn forbidden_message() -> Seq<char> {
    "Only the controller that owns this execution can stop it."@
}

/// Why a stop request is refused, with the status that says so.
pub open spec fn stop_error(s: ServerState, rid: Option<String>, sid: Option<String>, controller_id: Seq<char>) -> Option<(StatusCode, Seq<char>)> {
    if nonempty(sid) is Some {
        let k = nonempty(sid)->0;
        if !s.sequences().dom().contains(k) {
            Some((StatusCode::NotFound, "Sequence "@ + k + " is not running."@))
        } else if s.sequences()[k].owner_id@ != controller_id {
            Some((StatusCode::Forbidden, forbidden_message()))
        } else {
            None
        }
    } else if nonempty(rid) is Some {
        let k = nonempty(rid)->0;
        if !s.pending().dom().contains(k) {
            Some((StatusCode::NotFound, "Execution "@ + k + " is not running."@))
        } else if s.pending()[k].owner_id@ != controller_id {
            Some((StatusCode::Forbidden, forbidden_message()))
        } else {
            None
        }
    } else {
        Some((StatusCode::BadRequest, "requestId or sequenceId is required."@))
    }
}

/// The sequences after `sid` is marked cancelled with `reason`.
pub open spec fn cancel_sequence(q: Map<Seq<char>, SequenceState>, sid: Seq<char>, reason: String) -> Map<Seq<char>, SequenceState> {
    if q.dom().contains(sid) {
        q.insert(sid, SequenceState { cancelled: true, cancel_reason: reason, ..q[sid] })
    } else {
        q
    }
}

impl ServerState {
    /// Marks the sequence `sid` cancelled with `reason`, if it runs.
    fn mark_sequence_cancelled(&mut self, sid: &str, reason: &String) -> (found: bool)
        requires
            old(self).wf(),
        ensures
            final(self).wf(),
            found == old(self).sequences().dom().contains(sid@),
            final(self).sequences() == cancel_sequence(old(self).sequences(), sid@, *reason),
            final(self).unity_clients == old(self).unity_clients,
            final(self).web_clients == old(self).web_clients,
            final(self).controllers == old(self).controllers,
            final(self).execution_history == old(self).execution_history,
            final(self).pending_executions == old(self).pending_executions,
    {
        match self.find_sequence(sid) {
            Some(i) => {
                let ghost o = self.active_sequences@;
                let mut q = self.active_sequences.remove(i);
                q.cancelled = true;
                q.cancel_reason = reason.clone();
                let ghost qv = q;
                self.active_sequences.insert(i, q);
                proof {
                    assert(self.active_sequences@ == o.update(i as int, qv));
                    lemma_keyed_map_update(o, i as int, qv);
                }
                true
            },
            None => false,
        }
    }

    /// The first pending execution that `owner` started in sequence `sid`.
    fn find_pending_sequence_request(&self, sid: &str, owner: &str) -> (r: Option<String>)
        requires
            self.wf(),
        ensures
            opt_str(r) == first_pending_of_sequence(self.pending_executions@, sid@, owner@),
    {
        let ps = &self.pending_executions;
        let mut i: usize = 0;
        assert(ps@.subrange(0, ps@.len() as int) == ps@);
        while i < ps.len()
            invariant
                i <= ps@.len(),
                ps@ == self.pending_executions@,
                first_pending_of_sequence(ps@, sid@, owner@) == first_pending_of_sequence(
                    ps@.subrange(i as int, ps@.len() as int),
                    sid@,
                    owner@,
                ),
            decreases ps@.len() - i,
        {
            let ghost t = ps@.subrange(i as int, ps@.len() as int);
            assert(t[0] == ps@[i as int]);
            assert(t.drop_first() == ps@.subrange(i + 1, ps@.len() as int));
            let in_sequence = match &ps[i].started.sequence_id {
                Some(q) => str_eq(q.as_str(), sid),
                None => false,
            };
            if str_eq(ps[i].owner_id.as_str(), owner) && in_sequence {
                let r = copy_str(ps[i].request_id.as_str());
                assert(opt_str(ps@[i as int].started.sequence_id) == Some(sid@));
                assert(first_pending_of_sequence(t, sid@, owner@) == Some(r@));
                return Some(r);
            }
            assert(!(ps@[i as int].owner_id@ == owner@ && opt_str(ps@[i as int].started.sequence_id) == Some(sid@)));
            i = i + 1;
        }
        assert(ps@.subrange(i as int, ps@.len() as int).len() == 0);
        None
    }

    /// The controller that owns a sequence or an
    /// execution stops it. A sequence is marked cancelled and its current
    /// execution cancelled; an execution is cancelled, and the sequence it
    /// belongs to marked cancelled.
    pub fn stop_execution_or_sequence(
        &mut self,
        request_id: Option<String>,
        sequence_id: Option<String>,
        controller: &ControllerIdentity,
        reason: String,
        finished_at: String,
    ) -> (r: Result<StopOutcome, RequestError>)
        requires
            old(self).wf(),
        ensures
            final(self).wf(),
            match r {
                Err(e) => stop_error(*old(self), request_id, sequence_id, controller.id@) == Some((e.status, e.message@))
                    && *final(self) == *old(self),
                Ok(o) => {
                    &&& stop_error(*old(self), request_id, sequence_id, controller.id@) is None
                    &&& if nonempty(sequence_id) is Some {
                        let sid = nonempty(sequence_id)->0;
                        let target = sequence_stop_target(*old(self), sid);
                        &&& o.status == StopStatus::Cancelling
                        &&& opt_str(o.sequence_id) == Some(sid)
                        &&& opt_str(o.cancelled_sequence) == Some(sid)
                        &&& final(self).sequences() == cancel_sequence(old(self).sequences(), sid, reason)
                        &&& (o.completion is Some) == (target.len() > 0 && old(self).pending().dom().contains(target))
                        &&& o.completion is Some ==> {
                            let rec = completed_record(*old(self), target, cancel_patch(reason@, finished_at@));
                            &&& o.completion->0.record@ == rec
                            &&& finished_except_sequences(*old(self), *final(self), target, rec)
                        }
                        &&& o.completion is None ==> final(self).unity_clients == old(self).unity_clients
                            && final(self).pending_executions == old(self).pending_executions
                            && final(self).execution_history == old(self).execution_history
                    } else {
                        let rid = nonempty(request_id)->0;
                        let rec = completed_record(*old(self), rid, cancel_patch(reason@, finished_at@));
                        let sq = old(self).pending()[rid].started.sequence_id;
                        &&& o.status == StopStatus::Cancelled
                        &&& opt_str(o.request_id) == Some(rid)
                        &&& o.cancelled_sequence == (if sq is Some && old(self).sequences().dom().contains(sq->0@) { sq } else { None })
                        &&& final(self).sequences() == (if sq is Some { cancel_sequence(old(self).sequences(), sq->0@, reason) } else { old(self).sequences() })
                        &&& o.completion is Some
                        &&& o.completion->0.record@ == rec
                        &&& finished_except_sequences(*old(self), *final(self), rid, rec)
                    }
                },
            },
    {
        let ghost s0 = *self;
        let sid_given = match &sequence_id {
            Some(v) => !v.as_str().is_empty(),
            None => false,
        };
        if sid_given {
            let sid = sequence_id.unwrap();
            let i = match self.find_sequence(sid.as_str()) {
                Some(i) => i,
                None => {
                    return Err(request_error(StatusCode::NotFound, concat3("Sequence ", sid.as_str(), " is not running.")));
                },
            };
            if !str_eq(self.active_sequences[i].owner_id.as_str(), controller.id.as_str()) {
                return Err(request_error(StatusCode::Forbidden, copy_str("Only the controller that owns this execution can stop it.")));
            }
            let state_request = self.active_sequences[i].current_request_id.clone();
            let owner = self.active_sequences[i].owner_id.clone();
            let target = if state_request.as_str().is_empty() {
                match self.find_pending_sequence_request(sid.as_str(), owner.as_str()) {
                    Some(t) => t,
                    None => String::new(),
                }
            } else {
                state_request
            };
            let _ = self.mark_sequence_cancelled(sid.as_str(), &reason);
            let ghost s1 = *self;
            proof {
                lemma_cancel_keeps_running(s0.sequences(), sid@, reason);
                assert(s1.pending() == s0.pending());
                assert(s1.clients() == s0.clients());
            }
            let completion = if target.as_str().is_empty() {
                None
            } else {
                let patch = ExecutionPatch {
                    status: ExecutionStatus::Cancelled,
                    success: false,
                    result: JsonValue::String(String::new()),
                    error: reason,
                    duration_ms: 0,
                    finished_at,
                    client_id: None,
                    method_id: None,
                    method_name: None,
                };
                self.complete_pending_execution(target.as_str(), patch)
            };
            return Ok(StopOutcome {
                request_id: None,
                sequence_id: Some(sid.clone()),
                status: StopStatus::Cancelling,
                cancelled_sequence: Some(sid),
                completion,
            });
        }
        let rid_given = match &request_id {
            Some(v) => !v.as_str().is_empty(),
            None => false,
        };
        if !rid_given {
            return Err(request_error(StatusCode::BadRequest, copy_str("requestId or sequenceId is required.")));
        }
        let rid = request_id.unwrap();
        let i = match self.find_pending(rid.as_str()) {
            Some(i) => i,
            None => {
                return Err(request_error(StatusCode::NotFound, concat3("Execution ", rid.as_str(), " is not running.")));
            },
        };
        if !str_eq(self.pending_executions[i].owner_id.as_str(), controller.id.as_str()) {
            return Err(request_error(StatusCode::Forbidden, copy_str("Only the controller that owns this execution can stop it.")));
        }
        let sq = copy_opt_string(&self.pending_executions[i].started.sequence_id);
        let cancelled_sequence = match &sq {
            Some(k) => {
                if self.mark_sequence_cancelled(k.as_str(), &reason) {
                    Some(k.clone())
                } else {
                    None
                }
            },
            None => None,
        };
        let ghost s1 = *self;
        proof {
            if sq is Some {
                lemma_cancel_keeps_running(s0.sequences(), sq->0@, reason);
            }
            assert(s1.pending() == s0.pending());
            assert(s1.clients() == s0.clients());
        }
        let patch = ExecutionPatch {
            status: ExecutionStatus::Cancelled,
            success: false,
            result: JsonValue::String(String::new()),
            error: reason,
            duration_ms: 0,
            finished_at,
            client_id: None,
            method_id: None,
            method_name: None,
        };
        let completion = self.complete_pending_execution(rid.as_str(), patch);
        Ok(StopOutcome {
            request_id: Some(rid),
            sequence_id: None,
            status: StopStatus::Cancelled,
            cancelled_sequence,
            completion,
        })
    }
}

/// Marking a sequence cancelled changes nothing about what runs.
pub proof fn lemma_cancel_keeps_running(q: Map<Seq<char>, SequenceState>, sid: Seq<char>, reason: String)
    ensures
        forall|cid: Seq<char>, o: Option<Seq<char>>| #[trigger] sequence_for_map(cancel_sequence(q, sid, reason), cid, o)
            == sequence_for_map(q, cid, o),
{
    let q2 = cancel_sequence(q, sid, reason);
    assert forall|cid: Seq<char>, o: Option<Seq<char>>| #[trigger] sequence_for_map(q2, cid, o)
        == sequence_for_map(q, cid, o) by {
        if sequence_for_map(q, cid, o) {
            let k = choose|k: Seq<char>| #![trigger q[k]] q.dom().contains(k) && q[k].client_id@ == cid && q[k].running && owner_matches(o, q[k].owner_id@);
            assert(q2.dom().contains(k) && q2[k].client_id@ == cid);
        }
        if sequence_for_map(q2, cid, o) {
            let k = choose|k: Seq<char>| #![trigger q2[k]] q2.dom().contains(k) && q2[k].client_id@ == cid && q2[k].running && owner_matches(o, q2[k].owner_id@);
            assert(q.dom().contains(k) && q[k].client_id@ == cid);
        }
    }
}

/// Whether a registered method is the one named by id `mid` or name `mname`.
pub fn registered_method_matches(m: &JsonValue, mid: &str, mname: &str) -> (r: bool)
    ensures
        r == method_matches(m@, mid@, mname@),
{
    candidate_matches(m, "id", mid, mname) || candidate_matches(m, "name", mid, mname)
        || candidate_matches(m, "methodId", mid, mname) || candidate_matches(
        m,
        "methodName",
        mid,
        mname,
    )
}

fn candidate_matches(m: &JsonValue, key: &str, mid: &str, mname: &str) -> (r: bool)
    ensures
        r == method_candidate_matches(m@, key@, mid@, mname@),
{
    match m.get_str(key) {
        Some(c) => (!mid.is_empty() && str_eq(c, mid)) || (!mname.is_empty() && str_eq(c, mname)),
        None => false,
    }
}

} // verus!
