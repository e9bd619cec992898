use vstd::prelude::*;
use crate::json::JsonValue;
use crate::keyed::{keyed_map, keys_distinct, Keyed};

verus! {

/// How many execution records the server keeps.
pub const HISTORY_LIMIT: usize = 200;

/// Longest pause between two steps of a request sequence, in milliseconds.
pub const MAX_SEQUENCE_STEP_DELAY_MS: u64 = 300_000;

/// The HTTP status that a refused request is answered with.
#[derive(Clone, Copy, Debug, PartialEq, Eq, Structural)]
pub enum StatusCode {
    BadRequest,
    Unauthorized,
    Forbidden,
    NotFound,
    Conflict,
    PayloadTooLarge,
    UnsupportedMediaType,
    Locked,
    ServiceUnavailable,
}

impl StatusCode {
    pub open spec fn spec_code(self) -> u16 {
        match self {
            StatusCode::BadRequest => 400,
            StatusCode::Unauthorized => 401,
            StatusCode::Forbidden => 403,
            StatusCode::NotFound => 404,
            StatusCode::Conflict => 409,
            StatusCode::PayloadTooLarge => 413,
            StatusCode::UnsupportedMediaType => 415,
            StatusCode::Locked => 423,
            StatusCode::ServiceUnavailable => 503,
        }
    }

    pub fn code(self) -> (r: u16)
        ensures
            r == self.spec_code(),
    {
        match self {
            StatusCode::BadRequest => 400,
            StatusCode::Unauthorized => 401,
            StatusCode::Forbidden => 403,
            StatusCode::NotFound => 404,
            StatusCode::Conflict => 409,
            StatusCode::PayloadTooLarge => 413,
            StatusCode::UnsupportedMediaType => 415,
            StatusCode::Locked => 423,
            StatusCode::ServiceUnavailable => 503,
        }
    }
}

/// A refused request: what the controller is told, and with which status.
#[derive(Debug)]
pub struct RequestError {
    pub message: String,
    pub status: StatusCode,
}

/// Where an execution stands.
#[derive(Clone, Copy, Debug, PartialEq, Eq, Structural)]
pub enum ExecutionStatus {
    Running,
    Success,
    Failed,
    Cancelled,
}

impl ExecutionStatus {
    pub open spec fn spec_name(self) -> Seq<char> {
        match self {
            ExecutionStatus::Running => seq!['r', 'u', 'n', 'n', 'i', 'n', 'g'],
            ExecutionStatus::Success => seq!['s', 'u', 'c', 'c', 'e', 's', 's'],
            ExecutionStatus::Failed => seq!['f', 'a', 'i', 'l', 'e', 'd'],
            ExecutionStatus::Cancelled => seq!['c', 'a', 'n', 'c', 'e', 'l', 'l', 'e', 'd'],
        }
    }
}

/// One execution of a QaTest method, as the history keeps it.
#[derive(Debug)]
pub struct ExecutionRecord {
    pub request_id: String,
    pub client_id: String,
    pub client_name: Option<String>,
    pub client_ip_address: Option<String>,
    pub client_remote_address: Option<String>,
    pub client_ip_addresses: Option<Vec<String>>,
    pub method_id: String,
    pub method_name: String,
    pub arguments: Vec<String>,
    pub status: ExecutionStatus,
    pub allow_parallel_execution: bool,
    pub success: Option<bool>,
    pub result: Option<JsonValue>,
    pub error: Option<String>,
    pub duration_ms: Option<u64>,
    pub started_at: Option<String>,
    pub finished_at: Option<String>,
    pub sequence_id: Option<String>,
    pub step_id: Option<String>,
    pub step_index: Option<usize>,
    pub step_number: Option<usize>,
    pub total_steps: Option<usize>,
}

pub open spec fn opt_str(o: Option<String>) -> Option<Seq<char>> {
    match o {
        Some(s) => Some(s@),
        None => None,
    }
}

pub open spec fn strs(v: Seq<String>) -> Seq<Seq<char>> {
    Seq::new(v.len(), |i: int| v[i]@)
}

pub open spec fn opt_strs(o: Option<Vec<String>>) -> Option<Seq<Seq<char>>> {
    match o {
        Some(v) => Some(strs(v@)),
        None => None,
    }
}

pub open spec fn opt_json(o: Option<JsonValue>) -> Option<crate::json::JsonView> {
    match o {
        Some(v) => Some(v@),
        None => None,
    }
}

/// The mathematical form of an [`ExecutionRecord`].
pub struct RecordView {
    pub request_id: Seq<char>,
    pub client_id: Seq<char>,
    pub client_name: Option<Seq<char>>,
    pub client_ip_address: Option<Seq<char>>,
    pub client_remote_address: Option<Seq<char>>,
    pub client_ip_addresses: Option<Seq<Seq<char>>>,
    pub method_id: Seq<char>,
    pub method_name: Seq<char>,
    pub arguments: Seq<Seq<char>>,
    pub status: ExecutionStatus,
    pub allow_parallel_execution: bool,
    pub success: Option<bool>,
    pub result: Option<crate::json::JsonView>,
    pub error: Option<Seq<char>>,
    pub duration_ms: Option<u64>,
    pub started_at: Option<Seq<char>>,
    pub finished_at: Option<Seq<char>>,
    pub sequence_id: Option<Seq<char>>,
    pub step_id: Option<Seq<char>>,
    pub step_index: Option<usize>,
    pub step_number: Option<usize>,
    pub total_steps: Option<usize>,
}

impl View for ExecutionRecord {
    type V = RecordView;

    open spec fn view(&self) -> RecordView {
        RecordView {
            request_id: self.request_id@,
            client_id: self.client_id@,
            client_name: opt_str(self.client_name),
            client_ip_address: opt_str(self.client_ip_address),
            client_remote_address: opt_str(self.client_remote_address),
            client_ip_addresses: opt_strs(self.client_ip_addresses),
            method_id: self.method_id@,
            method_name: self.method_name@,
            arguments: strs(self.arguments@),
            status: self.status,
            allow_parallel_execution: self.allow_parallel_execution,
            success: self.success,
            result: opt_json(self.result),
            error: opt_str(self.error),
            duration_ms: self.duration_ms,
            started_at: opt_str(self.started_at),
            finished_at: opt_str(self.finished_at),
            sequence_id: opt_str(self.sequence_id),
            step_id: opt_str(self.step_id),
            step_index: self.step_index,
            step_number: self.step_number,
            total_steps: self.total_steps,
        }
    }
}

pub fn copy_opt_string(o: &Option<String>) -> (r: Option<String>)
    ensures
        r == *o,
{
    match o {
        Some(s) => Some(s.clone()),
        None => None,
    }
}

pub fn copy_strings(v: &Vec<String>) -> (r: Vec<String>)
    ensures
        r@ == v@,
{
    let mut r: Vec<String> = Vec::new();
    let mut i: usize = 0;
    while i < v.len()
        invariant
            i <= v@.len(),
            r@ == v@.subrange(0, i as int),
        decreases v@.len() - i,
    {
        r.push(v[i].clone());
        assert(v@.subrange(0, i + 1) == v@.subrange(0, i as int).push(v@[i as int]));
        i = i + 1;
    }
    assert(v@.subrange(0, v@.len() as int) == v@);
    r
}

pub fn copy_opt_strings(o: &Option<Vec<String>>) -> (r: Option<Vec<String>>)
    ensures
        opt_strs(r) == opt_strs(*o),
        r is Some <==> o is Some,
{
    match o {
        Some(v) => {
            let c = copy_strings(v);
            assert(strs(c@) == strs(v@));
            Some(c)
        },
        None => None,
    }
}

impl ExecutionRecord {
    /// A copy with the same view.
    pub fn copy(&self) -> (r: ExecutionRecord)
        ensures
            r@ == self@,
    {
        let arguments = copy_strings(&self.arguments);
        let result = match &self.result {
            Some(v) => Some(v.copy()),
            None => None,
        };
        let r = ExecutionRecord {
            request_id: self.request_id.clone(),
            client_id: self.client_id.clone(),
            client_name: copy_opt_string(&self.client_name),
            client_ip_address: copy_opt_string(&self.client_ip_address),
            client_remote_address: copy_opt_string(&self.client_remote_address),
            client_ip_addresses: copy_opt_strings(&self.client_ip_addresses),
            method_id: self.method_id.clone(),
            method_name: self.method_name.clone(),
            arguments,
            status: self.status,
            allow_parallel_execution: self.allow_parallel_execution,
            success: self.success,
            result,
            error: copy_opt_string(&self.error),
            duration_ms: self.duration_ms,
            started_at: copy_opt_string(&self.started_at),
            finished_at: copy_opt_string(&self.finished_at),
            sequence_id: copy_opt_string(&self.sequence_id),
            step_id: copy_opt_string(&self.step_id),
            step_index: self.step_index,
            step_number: self.step_number,
            total_steps: self.total_steps,
        };
        assert(strs(r.arguments@) == strs(self.arguments@));
        r
    }
}

/// The control lock that one controller holds on a Unity client.
#[derive(Debug)]
pub struct ClientLock {
    pub owner_id: String,
    pub owner_type: String,
    pub acquired_at: i64,
    pub last_seen_at: i64,
}

/// A Unity client as the server knows it. Times are nanoseconds since the epoch.
#[derive(Debug)]
pub struct UnityClient {
    pub client_id: String,
    pub name: String,
    pub ip_address: String,
    pub ip_addresses: Vec<String>,
    pub remote_address: String,
    pub platform: String,
    pub unity_version: String,
    pub device_name: String,
    pub operating_system: String,
    pub methods: Vec<JsonValue>,
    pub connected_at: i64,
    pub last_seen_at: i64,
    pub availability_changed_at: i64,
    pub available: bool,
    pub unavailable_reason: String,
    pub client_busy: bool,
    pub current_request_id: String,
    pub current_method_name: String,
    pub connection_id: String,
    pub is_alive: bool,
    pub lock: Option<ClientLock>,
}

/// A web console or MCP socket.
#[derive(Debug)]
pub struct WebClient {
    pub socket_id: String,
    pub controller_id: String,
    pub is_alive: bool,
}

/// A controller: a web console or an MCP process, with the sockets it holds open.
#[derive(Debug)]
pub struct Controller {
    pub id: String,
    pub controller_type: String,
    pub sockets: Vec<String>,
    pub last_seen_at: i64,
    pub last_disconnected_at: Option<i64>,
}

/// Who asks for an execution.
#[derive(Debug)]
pub struct ControllerIdentity {
    pub id: String,
    pub controller_type: String,
}

impl ControllerIdentity {
    pub fn copy(&self) -> (r: ControllerIdentity)
        ensures
            r == *self,
    {
        ControllerIdentity { id: self.id.clone(), controller_type: self.controller_type.clone() }
    }
}

/// An execution that waits for its result.
#[derive(Debug)]
pub struct PendingExecution {
    pub request_id: String,
    pub started: ExecutionRecord,
    pub client_id: String,
    pub owner_id: String,
    pub owner_type: String,
}

/// A request sequence that is running.
#[derive(Debug)]
pub struct SequenceState {
    pub sequence_id: String,
    pub client_id: String,
    pub owner_id: String,
    pub running: bool,
    pub cancelled: bool,
    pub cancel_reason: String,
    pub current_request_id: String,
}

impl Keyed for UnityClient {
    open spec fn key(&self) -> Seq<char> {
        self.client_id@
    }

    fn key_str(&self) -> (r: &str) {
        self.client_id.as_str()
    }
}

impl Keyed for WebClient {
    open spec fn key(&self) -> Seq<char> {
        self.socket_id@
    }

    fn key_str(&self) -> (r: &str) {
        self.socket_id.as_str()
    }
}

impl Keyed for Controller {
    open spec fn key(&self) -> Seq<char> {
        self.id@
    }

    fn key_str(&self) -> (r: &str) {
        self.id.as_str()
    }
}

impl Keyed for PendingExecution {
    open spec fn key(&self) -> Seq<char> {
        self.request_id@
    }

    fn key_str(&self) -> (r: &str) {
        self.request_id.as_str()
    }
}

impl Keyed for SequenceState {
    open spec fn key(&self) -> Seq<char> {
        self.sequence_id@
    }

    fn key_str(&self) -> (r: &str) {
        self.sequence_id.as_str()
    }
}

/// All that the register server holds in memory.
#[derive(Debug)]
pub struct ServerState {
    pub unity_clients: Vec<UnityClient>,
    pub web_clients: Vec<WebClient>,
    pub controllers: Vec<Controller>,
    pub execution_history: Vec<ExecutionRecord>,
    pub pending_executions: Vec<PendingExecution>,
    pub active_sequences: Vec<SequenceState>,
}

/// The views of the history, newest first.
pub open spec fn history_views(h: Seq<ExecutionRecord>) -> Seq<RecordView> {
    Seq::new(h.len(), |i: int| h[i]@)
}

/// No two records of the history share a non-empty request id.
pub open spec fn history_ids_unique(h: Seq<RecordView>) -> bool {
    forall|i: int, j: int|
        0 <= i < j < h.len() && (#[trigger] h[i]).request_id.len() > 0 ==> h[i].request_id
            != (#[trigger] h[j]).request_id
}

/// No two Unity clients share a name.
pub open spec fn client_names_unique(c: Seq<UnityClient>) -> bool {
    forall|i: int, j: int| 0 <= i < j < c.len() ==> (#[trigger] c[i]).name@ != (#[trigger] c[j]).name@
}

impl ServerState {
    pub open spec fn clients(&self) -> Map<Seq<char>, UnityClient> {
        keyed_map(self.unity_clients@)
    }

    pub open spec fn webs(&self) -> Map<Seq<char>, WebClient> {
        keyed_map(self.web_clients@)
    }

    pub open spec fn ctrls(&self) -> Map<Seq<char>, Controller> {
        keyed_map(self.controllers@)
    }

    pub open spec fn pending(&self) -> Map<Seq<char>, PendingExecution> {
        keyed_map(self.pending_executions@)
    }

    pub open spec fn sequences(&self) -> Map<Seq<char>, SequenceState> {
        keyed_map(self.active_sequences@)
    }

    pub open spec fn history(&self) -> Seq<RecordView> {
        history_views(self.execution_history@)
    }

    /// The invariant that every operation keeps.
    pub open spec fn wf(&self) -> bool {
        &&& keys_distinct(self.unity_clients@)
        &&& keys_distinct(self.web_clients@)
        &&& keys_distinct(self.controllers@)
        &&& keys_distinct(self.pending_executions@)
        &&& keys_distinct(self.active_sequences@)
        &&& self.execution_history@.len() <= HISTORY_LIMIT
        &&& history_ids_unique(self.history())
        &&& client_names_unique(self.unity_clients@)
    }

    /// An empty server.
    pub fn new() -> (s: ServerState)
        ensures
            s.wf(),
            s.clients() == Map::<Seq<char>, UnityClient>::empty(),
            s.pending() == Map::<Seq<char>, PendingExecution>::empty(),
            s.sequences() == Map::<Seq<char>, SequenceState>::empty(),
            s.history().len() == 0,
            s.unity_clients@.len() == 0,
            s.web_clients@.len() == 0,
            s.controllers@.len() == 0,
            s.execution_history@.len() == 0,
            s.pending_executions@.len() == 0,
            s.active_sequences@.len() == 0,
    {
        ServerState {
            unity_clients: Vec::new(),
            web_clients: Vec::new(),
            controllers: Vec::new(),
            execution_history: Vec::new(),
            pending_executions: Vec::new(),
            active_sequences: Vec::new(),
        }
    }
}

} // verus!
