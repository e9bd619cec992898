use vstd::prelude::*;
use vstd::string::StrSliceExecFns;
use crate::json::{jbool, jget, json_views, JsonValue, JsonView};
use crate::json_text::{value_string, value_text, value_to_opt_string, value_to_string_value};
use crate::server::clients::payload_text;
use crate::server::execution::{DispatchRequest, ExecutionMeta};
use crate::keyed::{lemma_keyed_map_remove, lemma_keyed_map_update, Keyed};
use crate::server::locks::{acquired, prepare_error, should_release, unlocked};
use crate::server::registry::{sequence_for_map, spec_pending_for, LockEvent};
use crate::server::state::{
    copy_opt_string, copy_strings, history_views, opt_str, strs, ControllerIdentity, ExecutionRecord,
    ExecutionStatus, RecordView, RequestError, SequenceState, ServerState, StatusCode,
};
use crate::text::{concat2, copy_str, decimal, u64_to_string};

verus! {

/// One step of a sequence request, read and completed.
#[derive(Debug)]
pub struct NormalizedStep {
    pub step_id: String,
    pub method_id: String,
    pub method_name: String,
    pub arguments: Vec<String>,
    pub timeout_ms: Option<u64>,
    pub allow_parallel_execution: bool,
}

/// The method a raw step runs: its `methodId`, else its `methodName`.
pub open spec fn step_method_id(step: JsonView) -> Option<Seq<char>> {
    match payload_text(step, "methodId"@) {
        Some(t) => Some(t),
        None => payload_text(step, "methodName"@),
    }
}

/// A raw step is kept when it names a method.
pub open spec fn is_kept_step(step: JsonView) -> bool {
    step_method_id(step) is Some && step_method_id(step)->0.len() > 0
}

/// The name shown for the step at `index`: its `methodName`, else its
/// `methodId`, else `Step` and its number.
pub open spec fn step_method_name(step: JsonView, index: int) -> Seq<char> {
    match payload_text(step, "methodName"@) {
        Some(t) => t,
        None => match payload_text(step, "methodId"@) {
            Some(t) => t,
            None => "Step "@ + decimal((index + 1) as nat),
        },
    }
}

/// The arguments of a call in text form: each item of a JSON array as text,
/// none when there is no array.
pub open spec fn argument_texts(v: Option<JsonView>) -> Seq<Seq<char>> {
    match v {
        Some(JsonView::Array(items)) => Seq::new(items.len(), |i: int| value_string(items[i])),
        _ => Seq::empty(),
    }
}

pub open spec fn step_allows_parallel(step: JsonView) -> bool {
    jbool(jget(step, "allowParallelExecution"@)) == Some(true)
}

pub open spec fn timeout_at(timeouts: Seq<Option<u64>>, i: int) -> Option<u64> {
    if 0 <= i < timeouts.len() {
        timeouts[i]
    } else {
        None
    }
}

/// `s` is the raw step `raw` at `index` made whole; a raw step without
/// `stepId` gets a fresh id.
pub open spec fn is_step_from(s: NormalizedStep, raw: JsonView, index: int, timeout: Option<u64>) -> bool {
    &&& s.method_id@ == step_method_id(raw)->0
    &&& s.method_name@ == step_method_name(raw, index)
    &&& strs(s.arguments@) == argument_texts(jget(raw, "arguments"@))
    &&& s.timeout_ms == timeout
    &&& s.allow_parallel_execution == step_allows_parallel(raw)
    &&& payload_text(raw, "stepId"@) is Some ==> s.step_id@ == payload_text(raw, "stepId"@)->0
}

/// The indices of the raw steps that are kept, in order.
pub open spec fn kept_indices(raw: Seq<JsonView>) -> Seq<int>
    decreases raw.len(),
{
    if raw.len() == 0 {
        Seq::empty()
    } else {
        let r = kept_indices(raw.drop_last());
        if is_kept_step(raw.last()) {
            r.push(raw.len() - 1)
        } else {
            r
        }
    }
}

pub open spec fn raw_steps(v: Option<JsonView>) -> Seq<JsonView> {
    match v {
        Some(JsonView::Array(items)) => items,
        _ => Seq::empty(),
    }
}

/// The arguments of a call in text form.
pub fn normalize_arguments(v: Option<&JsonValue>) -> (r: Vec<String>)
    ensures
        strs(r@) == argument_texts(crate::json::opt_json_view(v)),
{
    let mut out: Vec<String> = Vec::new();
    match v {
        Some(JsonValue::Array(items)) => {
            let ghost iv = json_views(items@);
            proof {
                crate::json::lemma_json_views_len(items@);
            }
            let mut i: usize = 0;
            while i < items.len()
                invariant
                    i <= items@.len(),
                    iv == json_views(items@),
                    iv.len() == items@.len(),
                    out@.len() == i,
                    forall|j: int| 0 <= j < i ==> (#[trigger] out@[j])@ == value_string(iv[j]),
                decreases items@.len() - i,
            {
                proof {
                    crate::json::lemma_json_views_index(items@, i as int);
                }
                out.push(value_to_string_value(&items[i]));
                i = i + 1;
            }
            assert(strs(out@) =~= Seq::new(iv.len(), |k: int| value_string(iv[k])));
            out
        },
        _ => {
            assert(strs(out@) =~= Seq::<Seq<char>>::empty());
            out
        },
    }
}

fn step_from(raw: &JsonValue, index: usize, timeout: Option<u64>) -> (r: Option<NormalizedStep>)
    requires
        index < usize::MAX,
    ensures
        r is Some <==> is_kept_step(raw@),
        r is Some ==> is_step_from(r->0, raw@, index as int, timeout),
{
    let mid = match value_to_opt_string(raw.get("methodId")) {
        Some(t) => Some(t),
        None => value_to_opt_string(raw.get("methodName")),
    };
    let method_id = match mid {
        Some(t) => t,
        None => return None,
    };
    if method_id.as_str().unicode_len() == 0 {
        return None;
    }
    let step_id = match value_to_opt_string(raw.get("stepId")) {
        Some(t) => t,
        None => crate::server::util::uuid(),
    };
    let method_name = match value_to_opt_string(raw.get("methodName")) {
        Some(t) => t,
        None => match value_to_opt_string(raw.get("methodId")) {
            Some(t) => t,
            None => {
                let n = u64_to_string((index + 1) as u64);
                concat2("Step ", n.as_str())
            },
        },
    };
    let arguments = normalize_arguments(raw.get("arguments"));
    let allow = match raw.get("allowParallelExecution") {
        Some(v) => match v.as_bool() {
            Some(b) => b,
            None => false,
        },
        None => false,
    };
    Some(NormalizedStep {
        step_id,
        method_id,
        method_name,
        arguments,
        timeout_ms: timeout,
        allow_parallel_execution: allow,
    })
}

/// The steps of a sequence request that name a method, made whole.
/// `timeouts[i]` is the timeout that raw step `i` asks for, read elsewhere.
pub fn normalize_sequence_steps(raw: Option<&JsonValue>, timeouts: &Vec<Option<u64>>) -> (r: Vec<NormalizedStep>)
    ensures
        ({
            let rs = raw_steps(crate::json::opt_json_view(raw));
            let kept = kept_indices(rs);
            &&& r@.len() == kept.len()
            &&& forall|k: int|
                0 <= k < r@.len() ==> is_step_from(
                    #[trigger] r@[k],
                    rs[kept[k]],
                    kept[k],
                    timeout_at(timeouts@, kept[k]),
                )
        }),
{
    let mut out: Vec<NormalizedStep> = Vec::new();
    let items = match raw {
        Some(JsonValue::Array(items)) => items,
        _ => {
            return out;
        },
    };
    let ghost rs = json_views(items@);
    proof {
        crate::json::lemma_json_views_len(items@);
    }
    let mut i: usize = 0;
    assert(rs.subrange(0, 0) =~= Seq::<JsonView>::empty());
    while i < items.len()
        invariant
            i <= items@.len(),
            rs == json_views(items@),
            rs.len() == items@.len(),
            raw_steps(crate::json::opt_json_view(raw)) == rs,
            out@.len() == kept_indices(rs.subrange(0, i as int)).len(),
            forall|k: int|
                0 <= k < out@.len() ==> is_step_from(
                    #[trigger] out@[k],
                    rs[kept_indices(rs.subrange(0, i as int))[k]],
                    kept_indices(rs.subrange(0, i as int))[k],
                    timeout_at(timeouts@, kept_indices(rs.subrange(0, i as int))[k]),
                ),
        decreases items@.len() - i,
    {
        let ghost a = rs.subrange(0, i + 1);
        assert(a.drop_last() == rs.subrange(0, i as int));
        proof {
            crate::json::lemma_json_views_index(items@, i as int);
        }
        assert(a.last() == items@[i as int]@);
        let timeout = if i < timeouts.len() {
            timeouts[i]
        } else {
            None
        };
        let step = step_from(&items[i], i, timeout);
        let ghost prev = out@;
        match step {
            Some(s) => {
                out.push(s);
            },
            None => {},
        }
        proof {
            let ka = kept_indices(a);
            let kp = kept_indices(rs.subrange(0, i as int));
            assert forall|k: int| 0 <= k < out@.len() implies is_step_from(
                #[trigger] out@[k],
                rs[ka[k]],
                ka[k],
                timeout_at(timeouts@, ka[k]),
            ) by {
                if k < prev.len() {
                    assert(out@[k] == prev[k]);
                    assert(ka[k] == kp[k]);
                } else {
                    assert(ka[k] == i as int);
                }
            }
        }
        i = i + 1;
    }
    assert(rs.subrange(0, rs.len() as int) == rs);
    out
}

/// A request to run a sequence, read from its message.
#[derive(Debug)]
pub struct SequenceRequest {
    pub sequence_id: String,
    pub client_id: String,
    pub steps: Vec<NormalizedStep>,
    pub stop_on_failure: bool,
    /// The pause between two steps, in milliseconds, read elsewhere.
    pub step_delay_ms: u64,
    /// The timeout of a step that names none, read elsewhere.
    pub timeout_ms: Option<u64>,
}

/// Reads a sequence request: its `sequenceId` (or a fresh id), its
/// `clientId`, its steps and whether it stops on the first failure (by
/// default it does).
pub fn parse_sequence_request(
    payload: &JsonValue,
    step_timeouts: &Vec<Option<u64>>,
    step_delay_ms: u64,
    timeout_ms: Option<u64>,
) -> (r: SequenceRequest)
    ensures
        payload_text(payload@, "sequenceId"@) is Some ==> r.sequence_id@ == payload_text(
            payload@,
            "sequenceId"@,
        )->0,
        r.client_id@ == match payload_text(payload@, "clientId"@) {
            Some(t) => t,
            None => Seq::empty(),
        },
        r.stop_on_failure == match jbool(jget(payload@, "stopOnFailure"@)) {
            Some(b) => b,
            None => true,
        },
        r.step_delay_ms == step_delay_ms,
        r.timeout_ms == timeout_ms,
        ({
            let rs = raw_steps(jget(payload@, "steps"@));
            let kept = kept_indices(rs);
            &&& r.steps@.len() == kept.len()
            &&& forall|k: int|
                0 <= k < r.steps@.len() ==> is_step_from(
                    #[trigger] r.steps@[k],
                    rs[kept[k]],
                    kept[k],
                    timeout_at(step_timeouts@, kept[k]),
                )
        }),
{
    let sequence_id = match value_to_opt_string(payload.get("sequenceId")) {
        Some(t) => t,
        None => crate::server::util::uuid(),
    };
    let client_id = match value_to_opt_string(payload.get("clientId")) {
        Some(t) => t,
        None => String::new(),
    };
    let steps = normalize_sequence_steps(payload.get("steps"), step_timeouts);
    let stop_on_failure = match payload.get("stopOnFailure") {
        Some(v) => match v.as_bool() {
            Some(b) => b,
            None => true,
        },
        None => true,
    };
    SequenceRequest { sequence_id, client_id, steps, stop_on_failure, step_delay_ms, timeout_ms }
}


/// Where a sequence stands.
#[derive(Clone, Copy, Debug, PartialEq, Eq, Structural)]
pub enum SequenceStatus {
    Running,
    Success,
    Failed,
    Cancelled,
}

/// How one step ended, for the sequence's counts.
#[derive(Clone, Copy, Debug, PartialEq, Eq, Structural)]
pub enum StepOutcome {
    Success,
    Failed,
    Cancelled,
}

/// A cancelled step counts as cancelled, a successful one as a success, any
/// other as a failure.
pub open spec fn step_outcome(r: RecordView) -> StepOutcome {
    if r.status == ExecutionStatus::Cancelled {
        StepOutcome::Cancelled
    } else if r.success == Some(true) {
        StepOutcome::Success
    } else {
        StepOutcome::Failed
    }
}

/// How many of the results ended with `o`.
pub open spec fn count_outcome(rs: Seq<RecordView>, o: StepOutcome) -> nat
    decreases rs.len(),
{
    if rs.len() == 0 {
        0
    } else {
        count_outcome(rs.drop_last(), o) + if step_outcome(rs.last()) == o {
            1nat
        } else {
            0nat
        }
    }
}

/// A sequence that runs: its request, its progress and its results.
#[derive(Debug)]
pub struct SequenceRun {
    pub sequence_id: String,
    pub client_id: String,
    pub controller: ControllerIdentity,
    pub status: SequenceStatus,
    pub stop_on_failure: bool,
    pub step_delay_ms: u64,
    pub timeout_ms: Option<u64>,
    pub steps: Vec<NormalizedStep>,
    pub completed_steps: usize,
    pub success_count: usize,
    pub failed_count: usize,
    pub cancelled_count: usize,
    pub started_at: String,
    pub results: Vec<ExecutionRecord>,
    pub cancel_reason: Option<String>,
    pub finished_at: Option<String>,
    /// The index of the step that runs next.
    pub next_index: usize,
    /// The pause before the next step has been waited.
    pub waited: bool,
    /// A step's result ended the sequence.
    pub stopped: bool,
}

impl SequenceRun {
    pub open spec fn result_views(&self) -> Seq<RecordView> {
        history_views(self.results@)
    }

    /// Each step that ran has one result, and the counts are the results'.
    pub open spec fn wf(&self) -> bool {
        &&& self.next_index == self.results@.len()
        &&& self.next_index <= self.steps@.len()
        &&& self.completed_steps == self.results@.len()
        &&& self.success_count == count_outcome(self.result_views(), StepOutcome::Success)
        &&& self.failed_count == count_outcome(self.result_views(), StepOutcome::Failed)
        &&& self.cancelled_count == count_outcome(self.result_views(), StepOutcome::Cancelled)
    }
}

/// The counts of the three outcomes add up to the number of results.
pub proof fn lemma_counts_add_up(rs: Seq<RecordView>)
    ensures
        count_outcome(rs, StepOutcome::Success) + count_outcome(rs, StepOutcome::Failed)
            + count_outcome(rs, StepOutcome::Cancelled) == rs.len(),
    decreases rs.len(),
{
    if rs.len() > 0 {
        lemma_counts_add_up(rs.drop_last());
    }
}

/// What the server does next for a running sequence.
#[derive(Debug)]
pub enum SequenceAction {
    /// The sequence is over.
    Finish,
    /// Pause this long before the next step, or until the sequence is cancelled.
    Sleep(u64),
    /// Run the next step.
    Dispatch(DispatchRequest),
}

/// Whether sequence `sid` was cancelled.
pub open spec fn spec_is_sequence_cancelled(s: ServerState, sid: Seq<char>) -> bool {
    s.sequences().dom().contains(sid) && s.sequences()[sid].cancelled
}

/// The execution that step `i` of a run asks for.
pub open spec fn is_step_request(req: DispatchRequest, run: SequenceRun, i: int) -> bool {
    let step = run.steps@[i];
    &&& req.client_id@ == run.client_id@
    &&& req.method_id == Some(step.method_id)
    &&& req.method_name == Some(step.method_name)
    &&& strs(req.arguments@) == strs(step.arguments@)
    &&& req.timeout_ms == match step.timeout_ms {
        Some(t) => Some(t),
        None => run.timeout_ms,
    }
    &&& req.controller == run.controller
    &&& req.wait_for_result
    &&& req.allow_busy
    &&& req.allow_parallel_execution == step.allow_parallel_execution
    &&& opt_str(req.meta.sequence_id) == Some(run.sequence_id@)
    &&& opt_str(req.meta.step_id) == Some(step.step_id@)
    &&& req.meta.step_index == Some(i as usize)
    &&& req.meta.step_number == Some((i + 1) as usize)
    &&& req.meta.total_steps == Some(run.steps@.len() as usize)
}

/// Whether a run is over before its next step: a step's result ended it, it
/// ran every step, or it was cancelled.
pub open spec fn run_is_over(s: ServerState, run: SequenceRun) -> bool {
    run.stopped || run.next_index >= run.steps@.len() || spec_is_sequence_cancelled(s, run.sequence_id@)
}

fn copy_step_request(run: &SequenceRun, i: usize) -> (req: DispatchRequest)
    requires
        i < run.steps@.len(),
        i + 1 < usize::MAX,
    ensures
        is_step_request(req, *run, i as int),
{
    let step = &run.steps[i];
    DispatchRequest {
        client_id: run.client_id.clone(),
        method_id: Some(step.method_id.clone()),
        method_name: Some(step.method_name.clone()),
        arguments: copy_strings(&step.arguments),
        timeout_ms: match step.timeout_ms {
            Some(t) => Some(t),
            None => run.timeout_ms,
        },
        controller: run.controller.copy(),
        wait_for_result: true,
        allow_busy: true,
        allow_parallel_execution: step.allow_parallel_execution,
        meta: ExecutionMeta {
            sequence_id: Some(run.sequence_id.clone()),
            step_id: Some(step.step_id.clone()),
            step_index: Some(i),
            step_number: Some(i + 1),
            total_steps: Some(run.steps.len()),
        },
    }
}

impl ServerState {
    /// Whether sequence `sid` was cancelled.
    pub fn is_sequence_cancelled(&self, sid: &str) -> (r: bool)
        requires
            self.wf(),
        ensures
            r == spec_is_sequence_cancelled(*self, sid@),
    {
        match self.find_sequence(sid) {
            Some(i) => self.active_sequences[i].cancelled,
            None => false,
        }
    }

    /// The next thing to do for a running sequence: finish it, pause before
    /// the next step (once per step, when a pause is set), or run the next step.
    pub fn next_sequence_action(&self, run: &mut SequenceRun) -> (a: SequenceAction)
        requires
            self.wf(),
            old(run).wf(),
            old(run).steps@.len() < usize::MAX,
        ensures
            final(run).wf(),
            run_is_over(*self, *old(run)) ==> a is Finish && *final(run) == *old(run),
            !run_is_over(*self, *old(run)) && old(run).next_index > 0 && old(run).step_delay_ms > 0
                && !old(run).waited ==> a == SequenceAction::Sleep(old(run).step_delay_ms) && *final(run)
                == (SequenceRun { waited: true, ..*old(run) }),
            !run_is_over(*self, *old(run)) && !(old(run).next_index > 0 && old(run).step_delay_ms > 0
                && !old(run).waited) ==> a is Dispatch && is_step_request(
                a->Dispatch_0,
                *old(run),
                old(run).next_index as int,
            ) && *final(run) == *old(run),
    {
        if run.stopped || run.next_index >= run.steps.len() || self.is_sequence_cancelled(
            run.sequence_id.as_str(),
        ) {
            return SequenceAction::Finish;
        }
        if run.next_index > 0 && run.step_delay_ms > 0 && !run.waited {
            run.waited = true;
            return SequenceAction::Sleep(run.step_delay_ms);
        }
        SequenceAction::Dispatch(copy_step_request(run, run.next_index))
    }
}


/// Why a sequence cannot start, with the status that says so.
pub open spec fn sequence_start_error(
    s: ServerState,
    req: SequenceRequest,
    controller_id: Seq<char>,
    sender_closed: bool,
) -> Option<(StatusCode, Seq<char>)> {
    if req.client_id@.len() == 0 {
        Some((StatusCode::BadRequest, "clientId is required."@))
    } else if req.steps@.len() == 0 {
        Some((StatusCode::BadRequest, "At least one request step is required."@))
    } else {
        prepare_error(s, req.client_id@, controller_id, false, false, sender_closed)
    }
}

/// The state of a sequence that has just started.
pub open spec fn is_started_sequence(q: SequenceState, req: SequenceRequest, controller: ControllerIdentity) -> bool {
    &&& q.sequence_id@ == req.sequence_id@
    &&& q.client_id@ == req.client_id@
    &&& q.owner_id@ == controller.id@
    &&& q.running
    &&& !q.cancelled
    &&& q.cancel_reason@.len() == 0
    &&& q.current_request_id@.len() == 0
}

/// A run that has just started, with nothing done yet.
pub open spec fn is_fresh_run(run: SequenceRun, req: SequenceRequest, controller: ControllerIdentity, started_at: Seq<char>) -> bool {
    &&& run.sequence_id == req.sequence_id
    &&& run.client_id == req.client_id
    &&& run.controller == controller
    &&& run.status == SequenceStatus::Running
    &&& run.stop_on_failure == req.stop_on_failure
    &&& run.step_delay_ms == req.step_delay_ms
    &&& run.timeout_ms == req.timeout_ms
    &&& run.steps == req.steps
    &&& run.started_at@ == started_at
    &&& run.results@.len() == 0
    &&& run.cancel_reason is None
    &&& run.finished_at is None
    &&& run.next_index == 0
    &&& !run.waited
    &&& !run.stopped
}

/// The sequences after `sid` is cancelled with `reason`, unless it has a
/// reason already.
pub open spec fn is_cancelled_keeping_reason(
    before: Map<Seq<char>, SequenceState>,
    after: Map<Seq<char>, SequenceState>,
    sid: Seq<char>,
    reason: Seq<char>,
) -> bool {
    if before.dom().contains(sid) {
        let q = before[sid];
        &&& after == before.insert(sid, after[sid])
        &&& after[sid] == SequenceState { cancelled: true, cancel_reason: after[sid].cancel_reason, ..q }
        &&& after[sid].cancel_reason@ == if q.cancel_reason@.len() == 0 {
            reason
        } else {
            q.cancel_reason@
        }
    } else {
        after == before
    }
}

/// A result that ends a run: a cancelled step, or a failed one where the
/// sequence stops on failure.
pub open spec fn result_stops(run: SequenceRun, r: RecordView) -> bool {
    r.status == ExecutionStatus::Cancelled || (run.stop_on_failure && r.success != Some(true))
}

/// A step that does not succeed ends a sequence that stops on failure, and a
/// cancelled step ends any sequence: the run is stopped after it, so the next
/// action is to finish and no later step is dispatched. A step that succeeds
/// and is not cancelled leaves the run going, and so does any step that is
/// not cancelled in a sequence that does not stop on failure.
pub proof fn lemma_failed_step_ends_sequence(s: ServerState, run: SequenceRun, r: RecordView)
    ensures
        (run.stop_on_failure && r.success != Some(true)) || r.status == ExecutionStatus::Cancelled ==> {
            &&& result_stops(run, r)
            &&& run_is_over(s, SequenceRun { stopped: result_stops(run, r), ..run })
        },
        r.status != ExecutionStatus::Cancelled && (r.success == Some(true) || !run.stop_on_failure)
            ==> !result_stops(run, r),
{
}

/// The lock of `cid` goes when the sequence `sid` ends and its owner runs
/// nothing else on the client.
pub open spec fn releases_after_sequence(s: ServerState, sid: Seq<char>, cid: Seq<char>) -> bool {
    &&& s.clients().dom().contains(cid)
    &&& s.clients()[cid].lock is Some
    &&& !s.clients()[cid].client_busy
    &&& !spec_pending_for(s, cid, Some(s.clients()[cid].lock->0.owner_id@))
    &&& !sequence_for_map(s.sequences().remove(sid), cid, Some(s.clients()[cid].lock->0.owner_id@))
}

/// How a finished sequence ends: cancelled when it was cancelled, else failed
/// when a step failed, else successful.
pub open spec fn final_status(s: ServerState, run: SequenceRun) -> SequenceStatus {
    if spec_is_sequence_cancelled(s, run.sequence_id@) {
        SequenceStatus::Cancelled
    } else if run.failed_count > 0 {
        SequenceStatus::Failed
    } else {
        SequenceStatus::Success
    }
}

/// The reason a cancelled sequence gives: the one it was cancelled with, or
/// that the controller stopped it.
pub open spec fn final_cancel_reason(s: ServerState, sid: Seq<char>) -> Seq<char> {
    if s.sequences()[sid].cancel_reason@.len() > 0 {
        s.sequences()[sid].cancel_reason@
    } else {
        "Stopped by controller."@
    }
}

fn request_error(status: StatusCode, message: &str) -> (e: RequestError)
    ensures
        e.status == status,
        e.message@ == message@,
{
    RequestError { message: copy_str(message), status }
}

impl ServerState {
    /// Starts a sequence: checks the request and the client, gives the
    /// controller the client's lock and records the sequence as running.
    pub fn begin_execution_sequence(
        &mut self,
        controller: &ControllerIdentity,
        request: SequenceRequest,
        started_at: String,
        sender_closed: bool,
        now: i64,
    ) -> (r: Result<SequenceRun, RequestError>)
        requires
            old(self).wf(),
        ensures
            final(self).wf(),
            match r {
                Err(e) => sequence_start_error(*old(self), request, controller.id@, sender_closed) == Some(
                    (e.status, e.message@),
                ) && *final(self) == *old(self),
                Ok(run) => {
                    let cid = request.client_id@;
                    &&& sequence_start_error(*old(self), request, controller.id@, sender_closed) is None
                    &&& run.wf()
                    &&& is_fresh_run(run, request, *controller, started_at@)
                    &&& final(self).clients() == old(self).clients().insert(
                        cid,
                        acquired(old(self).clients()[cid], *controller, now),
                    )
                    &&& final(self).sequences().dom() == old(self).sequences().dom().insert(request.sequence_id@)
                    &&& final(self).sequences() == old(self).sequences().insert(
                        request.sequence_id@,
                        final(self).sequences()[request.sequence_id@],
                    )
                    &&& is_started_sequence(final(self).sequences()[request.sequence_id@], request, *controller)
                    &&& final(self).pending_executions == old(self).pending_executions
                    &&& final(self).execution_history == old(self).execution_history
                    &&& final(self).web_clients == old(self).web_clients
                    &&& final(self).controllers == old(self).controllers
                },
            },
    {
        if request.client_id.as_str().unicode_len() == 0 {
            return Err(request_error(StatusCode::BadRequest, "clientId is required."));
        }
        if request.steps.len() == 0 {
            return Err(request_error(StatusCode::BadRequest, "At least one request step is required."));
        }
        match self.prepare_client_for_execution(
            request.client_id.as_str(),
            controller,
            false,
            false,
            sender_closed,
            now,
        ) {
            Err(e) => {
                return Err(e);
            },
            Ok(_) => {},
        }
        let ghost s1 = *self;
        let q = SequenceState {
            sequence_id: request.sequence_id.clone(),
            client_id: request.client_id.clone(),
            owner_id: controller.id.clone(),
            running: true,
            cancelled: false,
            cancel_reason: String::new(),
            current_request_id: String::new(),
        };
        let ghost qv = q;
        crate::server::controllers::put_keyed(&mut self.active_sequences, q);
        proof {
            assert(self.sequences() == s1.sequences().insert(request.sequence_id@, qv));
            assert(self.sequences()[request.sequence_id@] == qv);
            assert(self.sequences().insert(request.sequence_id@, qv) =~= self.sequences());
        }
        let run = SequenceRun {
            sequence_id: request.sequence_id,
            client_id: request.client_id,
            controller: controller.copy(),
            status: SequenceStatus::Running,
            stop_on_failure: request.stop_on_failure,
            step_delay_ms: request.step_delay_ms,
            timeout_ms: request.timeout_ms,
            steps: request.steps,
            completed_steps: 0,
            success_count: 0,
            failed_count: 0,
            cancelled_count: 0,
            started_at,
            results: Vec::new(),
            cancel_reason: None,
            finished_at: None,
            next_index: 0,
            waited: false,
            stopped: false,
        };
        proof {
            assert(run.result_views() =~= Seq::<RecordView>::empty());
        }
        Ok(run)
    }

    /// The sequence `sid` waits for no request now.
    pub fn clear_sequence_request(&mut self, sid: &str)
        requires
            old(self).wf(),
        ensures
            final(self).wf(),
            final(self).unity_clients == old(self).unity_clients,
            final(self).web_clients == old(self).web_clients,
            final(self).controllers == old(self).controllers,
            final(self).execution_history == old(self).execution_history,
            final(self).pending_executions == old(self).pending_executions,
            old(self).sequences().dom().contains(sid@) ==> {
                &&& final(self).sequences() == old(self).sequences().insert(sid@, final(self).sequences()[sid@])
                &&& final(self).sequences()[sid@] == SequenceState {
                    current_request_id: final(self).sequences()[sid@].current_request_id,
                    ..old(self).sequences()[sid@]
                }
                &&& final(self).sequences()[sid@].current_request_id@.len() == 0
            },
            !old(self).sequences().dom().contains(sid@) ==> *final(self) == *old(self),
    {
        if let Some(i) = self.find_sequence(sid) {
            let ghost o = self.active_sequences@;
            let mut q = self.active_sequences.remove(i);
            q.current_request_id = String::new();
            let ghost qv = q;
            self.active_sequences.insert(i, q);
            proof {
                assert(self.active_sequences@ == o.update(i as int, qv));
                lemma_keyed_map_update(o, i as int, qv);
            }
        }
    }

    /// Marks sequence `sid` cancelled; a reason it has already stays.
    pub fn cancel_sequence_keeping_reason(&mut self, sid: &str, reason: &str)
        requires
            old(self).wf(),
        ensures
            final(self).wf(),
            final(self).unity_clients == old(self).unity_clients,
            final(self).web_clients == old(self).web_clients,
            final(self).controllers == old(self).controllers,
            final(self).execution_history == old(self).execution_history,
            final(self).pending_executions == old(self).pending_executions,
            is_cancelled_keeping_reason(old(self).sequences(), final(self).sequences(), sid@, reason@),
    {
        if let Some(i) = self.find_sequence(sid) {
            let ghost o = self.active_sequences@;
            let mut q = self.active_sequences.remove(i);
            q.cancelled = true;
            if q.cancel_reason.as_str().unicode_len() == 0 {
                q.cancel_reason = copy_str(reason);
            }
            let ghost qv = q;
            self.active_sequences.insert(i, q);
            proof {
                assert(self.active_sequences@ == o.update(i as int, qv));
                lemma_keyed_map_update(o, i as int, qv);
                assert(self.sequences().insert(sid@, qv) =~= self.sequences());
            }
        }
    }

    /// Counts the result of the step that ran; a cancelled step cancels the
    /// sequence. Says whether the sequence goes on.
    pub fn record_step_result(&mut self, run: &mut SequenceRun, result: ExecutionRecord) -> (goes_on: bool)
        requires
            old(self).wf(),
            old(run).wf(),
            !old(run).stopped,
            old(run).next_index < old(run).steps@.len(),
        ensures
            final(self).wf(),
            final(run).wf(),
            final(run).result_views() == old(run).result_views().push(result@),
            final(run).stopped == result_stops(*old(run), result@),
            goes_on == !final(run).stopped,
            old(run).stop_on_failure && result@.success != Some(true) ==> !goes_on && final(run).stopped,
            result@.status == ExecutionStatus::Cancelled ==> !goes_on && final(run).stopped,
            *final(run) == (SequenceRun {
                results: final(run).results,
                completed_steps: final(run).completed_steps,
                success_count: final(run).success_count,
                failed_count: final(run).failed_count,
                cancelled_count: final(run).cancelled_count,
                next_index: final(run).next_index,
                waited: false,
                stopped: final(run).stopped,
                ..*old(run)
            }),
            result@.status == ExecutionStatus::Cancelled ==> {
                &&& is_cancelled_keeping_reason(
                    old(self).sequences(),
                    final(self).sequences(),
                    old(run).sequence_id@,
                    "Stopped by controller."@,
                )
                &&& final(self).unity_clients == old(self).unity_clients
                &&& final(self).web_clients == old(self).web_clients
                &&& final(self).controllers == old(self).controllers
                &&& final(self).execution_history == old(self).execution_history
                &&& final(self).pending_executions == old(self).pending_executions
            },
            result@.status != ExecutionStatus::Cancelled ==> *final(self) == *old(self),
    {
        let cancelled = match result.status {
            ExecutionStatus::Cancelled => true,
            _ => false,
        };
        let success = match result.success {
            Some(b) => b,
            None => false,
        };
        let ghost before = run.result_views();
        let ghost rv = result@;
        proof {
            lemma_counts_add_up(before);
        }
        let total = run.steps.len();
        assert(run.completed_steps < total);
        run.completed_steps = run.completed_steps + 1;
        if cancelled {
            run.cancelled_count = run.cancelled_count + 1;
        } else if success {
            run.success_count = run.success_count + 1;
        } else {
            run.failed_count = run.failed_count + 1;
        }
        run.results.push(result);
        run.next_index = run.next_index + 1;
        run.waited = false;
        proof {
            let after = run.result_views();
            assert(after =~= before.push(rv));
            assert(after.drop_last() =~= before);
        }
        if cancelled {
            self.cancel_sequence_keeping_reason(run.sequence_id.as_str(), "Stopped by controller.");
            run.stopped = true;
            return false;
        }
        if run.stop_on_failure && !success {
            run.stopped = true;
            return false;
        }
        true
    }

    /// Ends a run: sets its status and reason, forgets the sequence and
    /// releases the client's lock when its owner runs nothing else on it.
    pub fn finish_sequence(&mut self, run: &mut SequenceRun, finished_at: String) -> (released: Option<LockEvent>)
        requires
            old(self).wf(),
            old(run).wf(),
        ensures
            final(self).wf(),
            final(run).wf(),
            final(run).status == final_status(*old(self), *old(run)),
            spec_is_sequence_cancelled(*old(self), old(run).sequence_id@) ==> final(run).cancel_reason is Some
                && final(run).cancel_reason->0@ == final_cancel_reason(*old(self), old(run).sequence_id@),
            !spec_is_sequence_cancelled(*old(self), old(run).sequence_id@) ==> final(run).cancel_reason
                == old(run).cancel_reason,
            final(run).finished_at == Some(finished_at),
            *final(run) == (SequenceRun {
                status: final(run).status,
                cancel_reason: final(run).cancel_reason,
                finished_at: final(run).finished_at,
                ..*old(run)
            }),
            final(self).sequences() == old(self).sequences().remove(old(run).sequence_id@),
            final(self).clients() == if releases_after_sequence(*old(self), old(run).sequence_id@, old(run).client_id@) {
                old(self).clients().insert(old(run).client_id@, unlocked(old(self).clients()[old(run).client_id@]))
            } else {
                old(self).clients()
            },
            released is Some <==> releases_after_sequence(*old(self), old(run).sequence_id@, old(run).client_id@),
            final(self).pending_executions == old(self).pending_executions,
            final(self).execution_history == old(self).execution_history,
            final(self).web_clients == old(self).web_clients,
            final(self).controllers == old(self).controllers,
    {
        let ghost s0 = *self;
        let sid = run.sequence_id.as_str();
        let cancel = match self.find_sequence(sid) {
            Some(i) => {
                if self.active_sequences[i].cancelled {
                    Some(copy_str(self.active_sequences[i].cancel_reason.as_str()))
                } else {
                    None
                }
            },
            None => None,
        };
        match cancel {
            Some(reason) => {
                run.status = SequenceStatus::Cancelled;
                run.cancel_reason = Some(
                    if reason.as_str().unicode_len() == 0 {
                        copy_str("Stopped by controller.")
                    } else {
                        reason
                    },
                );
            },
            None => {
                run.status = if run.failed_count > 0 {
                    SequenceStatus::Failed
                } else {
                    SequenceStatus::Success
                };
            },
        }
        run.finished_at = Some(finished_at);
        if let Some(i) = self.find_sequence(run.sequence_id.as_str()) {
            let _gone = self.active_sequences.remove(i);
            proof {
                lemma_keyed_map_remove(s0.active_sequences@, i as int);
            }
        } else {
            proof {
                assert(s0.sequences().remove(run.sequence_id@) =~= s0.sequences());
            }
        }
        let ghost s1 = *self;
        let released = self.release_client_lock_if_idle(run.client_id.as_str());
        proof {
            let cid = run.client_id@;
            assert(s1.clients() == s0.clients());
            assert(s1.pending() == s0.pending());
            if s0.clients().dom().contains(cid) && s0.clients()[cid].lock is Some {
                let o = Some(s0.clients()[cid].lock->0.owner_id@);
                assert(spec_pending_for(s1, cid, o) == spec_pending_for(s0, cid, o));
            }
            assert(should_release(s1, cid) == releases_after_sequence(s0, run.sequence_id@, cid));
        }
        released
    }
}

/// A failed execution that the server itself records, such as a step it could
/// not start: no client details, no parallel run, an empty result, the error
/// and zero duration.
pub open spec fn is_server_failure(
    r: RecordView,
    client_id: Seq<char>,
    method_id: Option<Seq<char>>,
    method_name: Option<Seq<char>>,
    arguments: Seq<Seq<char>>,
    error: Seq<char>,
    meta: ExecutionMeta,
    request_id: Seq<char>,
    finished_at: Seq<char>,
) -> bool {
    &&& r.request_id == request_id
    &&& r.client_id == client_id
    &&& r.client_name is None
    &&& r.client_ip_address is None
    &&& r.client_remote_address is None
    &&& r.client_ip_addresses is None
    &&& r.method_id == match method_id {
        Some(m) => m,
        None => match method_name {
            Some(n) => n,
            None => Seq::empty(),
        },
    }
    &&& r.method_name == match method_name {
        Some(n) => n,
        None => match method_id {
            Some(m) => m,
            None => Seq::empty(),
        },
    }
    &&& r.arguments == arguments
    &&& r.status == ExecutionStatus::Failed
    &&& !r.allow_parallel_execution
    &&& r.success == Some(false)
    &&& r.result == Some(JsonView::Str(Seq::empty()))
    &&& r.error == Some(error)
    &&& r.duration_ms == Some(0u64)
    &&& r.started_at is None
    &&& r.finished_at == Some(finished_at)
    &&& r.sequence_id == opt_str(meta.sequence_id)
    &&& r.step_id == opt_str(meta.step_id)
    &&& r.step_index == meta.step_index
    &&& r.step_number == meta.step_number
    &&& r.total_steps == meta.total_steps
}

fn copy_opt_ref(o: Option<&str>) -> (r: Option<String>)
    ensures
        opt_str(r) == match o {
            Some(s) => Some(s@),
            None => None,
        },
{
    match o {
        Some(s) => Some(copy_str(s)),
        None => None,
    }
}

/// The record of an execution that failed on the server's side, with its
/// request id and finishing time given.
pub fn server_failure_record(
    client_id: &str,
    method_id: Option<&str>,
    method_name: Option<&str>,
    arguments: &Vec<String>,
    error: &str,
    meta: &ExecutionMeta,
    request_id: String,
    finished_at: String,
) -> (r: ExecutionRecord)
    ensures
        is_server_failure(
            r@,
            client_id@,
            match method_id {
                Some(m) => Some(m@),
                None => None,
            },
            match method_name {
                Some(n) => Some(n@),
                None => None,
            },
            strs(arguments@),
            error@,
            *meta,
            request_id@,
            finished_at@,
        ),
{
    let mid = match method_id {
        Some(m) => copy_str(m),
        None => match method_name {
            Some(n) => copy_str(n),
            None => String::new(),
        },
    };
    let mname = match method_name {
        Some(n) => copy_str(n),
        None => match method_id {
            Some(m) => copy_str(m),
            None => String::new(),
        },
    };
    let args = copy_strings(arguments);
    let r = ExecutionRecord {
        request_id,
        client_id: copy_str(client_id),
        client_name: None,
        client_ip_address: None,
        client_remote_address: None,
        client_ip_addresses: None,
        method_id: mid,
        method_name: mname,
        arguments: args,
        status: ExecutionStatus::Failed,
        allow_parallel_execution: false,
        success: Some(false),
        result: Some(JsonValue::String(String::new())),
        error: Some(copy_str(error)),
        duration_ms: Some(0),
        started_at: None,
        finished_at: Some(finished_at),
        sequence_id: copy_opt_string(&meta.sequence_id),
        step_id: copy_opt_string(&meta.step_id),
        step_index: meta.step_index,
        step_number: meta.step_number,
        total_steps: meta.total_steps,
    };
    assert(strs(r.arguments@) == strs(arguments@));
    r
}

/// The record of an execution that failed on the server's side, under a
/// fresh request id and finished now.
pub fn build_server_failure_result(
    client_id: &str,
    method_id: Option<&str>,
    method_name: Option<&str>,
    arguments: &Vec<String>,
    error: &str,
    meta: &ExecutionMeta,
) -> (r: ExecutionRecord)
    ensures
        is_server_failure(
            r@,
            client_id@,
            match method_id {
                Some(m) => Some(m@),
                None => None,
            },
            match method_name {
                Some(n) => Some(n@),
                None => None,
            },
            strs(arguments@),
            error@,
            *meta,
            r.request_id@,
            r.finished_at->0@,
        ),
        r.request_id@.len() == 36,
{
    let request_id = crate::server::util::uuid();
    let finished_at = crate::server::util::iso_now();
    server_failure_record(client_id, method_id, method_name, arguments, error, meta, request_id, finished_at)
}

} // verus!
