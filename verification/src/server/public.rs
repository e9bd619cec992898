use vstd::prelude::*;
use crate::json::{json_views, JsonValue, JsonView};
use crate::keyed::find_keyed;
use crate::server::registry::spec_running;
use crate::server::state::{strs, ClientLock, ControllerIdentity, RequestError, ServerState, StatusCode, UnityClient};
use crate::text::{concat3, decimal, u64_to_string};
use crate::server::util::{rfc3339_millis, spec_rfc3339_millis};
use crate::text::copy_str;

verus! {

fn text(s: &str) -> (r: JsonValue)
    ensures
        r@ == JsonView::Str(s@),
{
    JsonValue::String(copy_str(s))
}

fn entry(k: &str, v: JsonValue) -> (r: (String, JsonValue))
    ensures
        r.0@ == k@,
        r.1 == v,
{
    (copy_str(k), v)
}

/// Texts as a JSON array of strings.
pub open spec fn texts_view(v: Seq<Seq<char>>) -> JsonView {
    JsonView::Array(v.map_values(|t: Seq<char>| JsonView::Str(t)))
}

pub(crate) fn texts_json(v: &Vec<String>) -> (r: JsonValue)
    ensures
        r@ == texts_view(strs(v@)),
{
    let mut out: Vec<JsonValue> = Vec::new();
    let mut i: usize = 0;
    while i < v.len()
        invariant
            i <= v@.len(),
            json_views(out@) == strs(v@).take(i as int).map_values(|t: Seq<char>| JsonView::Str(t)),
        decreases v@.len() - i,
    {
        let ghost before = out@;
        let x = text(v[i].as_str());
        out.push(x);
        assert(out@.drop_last() =~= before);
        assert(strs(v@).take(i + 1).map_values(|t: Seq<char>| JsonView::Str(t)) =~= strs(v@).take(i as int).map_values(
            |t: Seq<char>| JsonView::Str(t),
        ).push(JsonView::Str(v@[i as int]@)));
        i = i + 1;
    }
    assert(strs(v@).take(v@.len() as int) =~= strs(v@));
    JsonValue::Array(out)
}

fn values_json(v: &Vec<JsonValue>) -> (r: JsonValue)
    ensures
        r@ == JsonView::Array(json_views(v@)),
{
    let mut out: Vec<JsonValue> = Vec::new();
    let mut i: usize = 0;
    while i < v.len()
        invariant
            i <= v@.len(),
            json_views(out@) == json_views(v@.subrange(0, i as int)),
        decreases v@.len() - i,
    {
        let ghost before = out@;
        let x = v[i].copy();
        out.push(x);
        assert(out@.drop_last() =~= before);
        let ghost a = v@.subrange(0, i + 1);
        assert(a.drop_last() =~= v@.subrange(0, i as int));
        i = i + 1;
    }
    assert(v@.subrange(0, v@.len() as int) =~= v@);
    JsonValue::Array(out)
}

/// Whether the controller that holds a lock has a socket open.
pub open spec fn owner_connected(s: ServerState, owner: Seq<char>) -> bool {
    s.ctrls().dom().contains(owner) && s.ctrls()[owner].sockets@.len() > 0
}

/// A client's lock as the API shows it; null when there is none.
pub open spec fn lock_view(s: ServerState, lock: Option<ClientLock>) -> JsonView {
    match lock {
        None => JsonView::Null,
        Some(l) => JsonView::Object(
            seq![
                ("acquiredAt"@, JsonView::Str(spec_rfc3339_millis(l.acquired_at))),
                ("lastSeenAt"@, JsonView::Str(spec_rfc3339_millis(l.last_seen_at))),
                ("ownerConnected"@, JsonView::Bool(owner_connected(s, l.owner_id@))),
                ("ownerId"@, JsonView::Str(l.owner_id@)),
                ("ownerType"@, JsonView::Str(l.owner_type@)),
            ],
        ),
    }
}

/// A Unity client as the API shows it; `online` tells whether its connection
/// is still open.
pub open spec fn client_view(s: ServerState, c: UnityClient, online: bool) -> JsonView {
    JsonView::Object(
        seq![
            ("availabilityChangedAt"@, JsonView::Str(spec_rfc3339_millis(c.availability_changed_at))),
            ("available"@, JsonView::Bool(c.available)),
            ("clientBusy"@, JsonView::Bool(c.client_busy)),
            ("clientId"@, JsonView::Str(c.client_id@)),
            ("connectedAt"@, JsonView::Str(spec_rfc3339_millis(c.connected_at))),
            ("currentMethodName"@, JsonView::Str(c.current_method_name@)),
            ("currentRequestId"@, JsonView::Str(c.current_request_id@)),
            ("deviceName"@, JsonView::Str(c.device_name@)),
            ("ipAddress"@, JsonView::Str(c.ip_address@)),
            ("ipAddresses"@, texts_view(strs(c.ip_addresses@))),
            ("lastSeenAt"@, JsonView::Str(spec_rfc3339_millis(c.last_seen_at))),
            ("lock"@, lock_view(s, c.lock)),
            ("methods"@, JsonView::Array(json_views(c.methods@))),
            ("name"@, JsonView::Str(c.name@)),
            ("online"@, JsonView::Bool(online)),
            ("operatingSystem"@, JsonView::Str(c.operating_system@)),
            ("platform"@, JsonView::Str(c.platform@)),
            ("remoteAddress"@, JsonView::Str(c.remote_address@)),
            ("running"@, JsonView::Bool(spec_running(s, c.client_id@, None))),
            ("unavailableReason"@, JsonView::Str(c.unavailable_reason@)),
            ("unityVersion"@, JsonView::Str(c.unity_version@)),
        ],
    )
}

impl ServerState {
    /// A client's lock as the API shows it.
    pub fn public_lock(&self, lock: &Option<ClientLock>) -> (r: JsonValue)
        requires
            self.wf(),
        ensures
            r@ == lock_view(*self, *lock),
    {
        match lock {
            None => JsonValue::Null,
            Some(l) => {
                let connected = match find_keyed(&self.controllers, l.owner_id.as_str()) {
                    Some(i) => self.controllers[i].sockets.len() > 0,
                    None => false,
                };
                let entries = vec![
                    entry("acquiredAt", JsonValue::String(rfc3339_millis(l.acquired_at))),
                    entry("lastSeenAt", JsonValue::String(rfc3339_millis(l.last_seen_at))),
                    entry("ownerConnected", JsonValue::Bool(connected)),
                    entry("ownerId", text(l.owner_id.as_str())),
                    entry("ownerType", text(l.owner_type.as_str())),
                ];
                proof {
                    crate::json::lemma_entry_views_new(entries@);
                    assert(crate::json::json_entry_views(entries@) =~= lock_view(*self, *lock)->Object_0);
                }
                JsonValue::Object(entries)
            },
        }
    }

    /// A Unity client as the API shows it.
    #[verifier::rlimit(40)]
    pub fn public_client(&self, c: &UnityClient, online: bool) -> (r: JsonValue)
        requires
            self.wf(),
        ensures
            r@ == client_view(*self, *c, online),
    {
        let running = self.is_client_running(c.client_id.as_str(), None);
        let entries = vec![
            entry("availabilityChangedAt", JsonValue::String(rfc3339_millis(c.availability_changed_at))),
            entry("available", JsonValue::Bool(c.available)),
            entry("clientBusy", JsonValue::Bool(c.client_busy)),
            entry("clientId", text(c.client_id.as_str())),
            entry("connectedAt", JsonValue::String(rfc3339_millis(c.connected_at))),
            entry("currentMethodName", text(c.current_method_name.as_str())),
            entry("currentRequestId", text(c.current_request_id.as_str())),
            entry("deviceName", text(c.device_name.as_str())),
            entry("ipAddress", text(c.ip_address.as_str())),
            entry("ipAddresses", texts_json(&c.ip_addresses)),
            entry("lastSeenAt", JsonValue::String(rfc3339_millis(c.last_seen_at))),
            entry("lock", self.public_lock(&c.lock)),
            entry("methods", values_json(&c.methods)),
            entry("name", text(c.name.as_str())),
            entry("online", JsonValue::Bool(online)),
            entry("operatingSystem", text(c.operating_system.as_str())),
            entry("platform", text(c.platform.as_str())),
            entry("remoteAddress", text(c.remote_address.as_str())),
            entry("running", JsonValue::Bool(running)),
            entry("unavailableReason", text(c.unavailable_reason.as_str())),
            entry("unityVersion", text(c.unity_version.as_str())),
        ];
        proof {
            crate::json::lemma_entry_views_new(entries@);
            assert(crate::json::json_entry_views(entries@) =~= client_view(*self, *c, online)->Object_0);
        }
        JsonValue::Object(entries)
    }

    /// Every Unity client as the API shows it, in order; `online[i]` tells
    /// whether the connection of the `i`th client is open.
    pub fn unity_client_snapshot(&self, online: &Vec<bool>) -> (r: Vec<JsonValue>)
        requires
            self.wf(),
            online@.len() == self.unity_clients@.len(),
        ensures
            json_views(r@) == Seq::new(
                self.unity_clients@.len(),
                |i: int| client_view(*self, self.unity_clients@[i], online@[i]),
            ),
    {
        let mut out: Vec<JsonValue> = Vec::new();
        let mut i: usize = 0;
        while i < self.unity_clients.len()
            invariant
                i <= self.unity_clients@.len(),
                online@.len() == self.unity_clients@.len(),
                self.wf(),
                json_views(out@) == Seq::new(i as nat, |k: int| client_view(*self, self.unity_clients@[k], online@[k])),
            decreases self.unity_clients@.len() - i,
        {
            let ghost before = out@;
            let x = self.public_client(&self.unity_clients[i], online[i]);
            out.push(x);
            assert(out@.drop_last() =~= before);
            assert(json_views(out@) =~= Seq::new(
                (i + 1) as nat,
                |k: int| client_view(*self, self.unity_clients@[k], online@[k]),
            ));
            i = i + 1;
        }
        out
    }
}

/// A controller as messages show it.
pub fn public_controller(c: &ControllerIdentity) -> (r: JsonValue)
    ensures
        r@ == JsonView::Object(seq![("ownerId"@, JsonView::Str(c.id@)), ("ownerType"@, JsonView::Str(c.controller_type@))]),
{
    let entries = vec![entry("ownerId", text(c.id.as_str())), entry("ownerType", text(c.controller_type.as_str()))];
    proof {
        crate::json::lemma_entry_views_new(entries@);
        assert(crate::json::json_entry_views(entries@) =~= seq![("ownerId"@, JsonView::Str(c.id@)), ("ownerType"@, JsonView::Str(c.controller_type@))]);
    }
    JsonValue::Object(entries)
}

/// Where asking a client to refresh its methods stands at the start.
#[derive(Debug)]
pub enum RefreshStart {
    /// The answer is known already.
    Done(Result<JsonValue, RequestError>),
    /// The client must be sent this message; it had this many methods.
    Send { message: JsonValue, initial_count: usize },
}

pub open spec fn not_online_message(cid: Seq<char>) -> Seq<char> {
    "Unity client "@ + cid + " is not online."@
}

/// The answer when a client already has enough methods, or when the wait for
/// more ended.
pub open spec fn refresh_answer(
    s: ServerState,
    c: UnityClient,
    online: bool,
    min_count: nat,
    initial: Option<nat>,
    request_id: Option<Seq<char>>,
) -> JsonView {
    let count = c.methods@.len();
    match initial {
        None => JsonView::Object(
            seq![
                ("client"@, client_view(s, c, online)),
                ("methodCount"@, JsonView::Number(decimal(count))),
                ("minMethodCount"@, JsonView::Number(decimal(min_count))),
                ("reason"@, JsonView::Str("method_count_sufficient"@)),
                ("refreshed"@, JsonView::Bool(false)),
            ],
        ),
        Some(i) => JsonView::Object(
            seq![
                ("client"@, client_view(s, c, online)),
                ("initialMethodCount"@, JsonView::Number(decimal(i))),
                ("methodCount"@, JsonView::Number(decimal(count))),
                ("minMethodCount"@, JsonView::Number(decimal(min_count))),
                (
                    "reason"@,
                    JsonView::Str(
                        if count >= min_count {
                            "method_count_sufficient"@
                        } else {
                            "timeout"@
                        },
                    ),
                ),
                ("refreshed"@, JsonView::Bool(count > i)),
                ("requestId"@, JsonView::Str(request_id->0)),
            ],
        ),
    }
}

/// The message that asks a client to send its methods again.
pub open spec fn refresh_message(request_id: Seq<char>) -> JsonView {
    JsonView::Object(seq![("requestId"@, JsonView::Str(request_id)), ("type"@, JsonView::Str("refresh_methods"@))])
}

/// A fresh id for a refresh request: `refresh-methods:` and a random id.
pub fn refresh_request_id() -> (r: String)
    ensures
        r@.len() == 52,
        r@.subrange(0, 16) == "refresh-methods:"@,
{
    let id = crate::server::util::uuid();
    let r = crate::text::concat2("refresh-methods:", id.as_str());
    proof {
        reveal_strlit("refresh-methods:");
        assert(r@.subrange(0, 16) =~= "refresh-methods:"@);
    }
    r
}

impl ServerState {
    /// The start of a refresh of a client's methods: an unknown client is not
    /// online (404); one with at least `min_count` methods needs none; one
    /// whose connection is closed is not online; else it is to be sent the
    /// refresh message.
    pub fn refresh_methods_start(&self, client_id: &str, min_count: usize, online: bool, request_id: &str) -> (r: RefreshStart)
        requires
            self.wf(),
        ensures
            !self.clients().dom().contains(client_id@) ==> (r matches RefreshStart::Done(Err(e)) && e.status == StatusCode::NotFound
                && e.message@ == not_online_message(client_id@)),
            self.clients().dom().contains(client_id@) ==> {
                let c = self.clients()[client_id@];
                if c.methods@.len() >= min_count {
                    r matches RefreshStart::Done(Ok(v)) && v@ == refresh_answer(*self, c, online, min_count as nat, None, None)
                } else if !online {
                    r matches RefreshStart::Done(Err(e)) && e.status == StatusCode::NotFound
                        && e.message@ == not_online_message(client_id@)
                } else {
                    r matches RefreshStart::Send { message, initial_count } && message@ == refresh_message(request_id@)
                        && initial_count == c.methods@.len()
                }
            },
    {
        let i = match self.find_client(client_id) {
            Some(i) => i,
            None => return RefreshStart::Done(
                Err(RequestError { message: concat3("Unity client ", client_id, " is not online."), status: StatusCode::NotFound }),
            ),
        };
        let c = &self.unity_clients[i];
        let count = c.methods.len();
        if count >= min_count {
            let entries = vec![
                entry("client", self.public_client(c, online)),
                entry("methodCount", JsonValue::Number(u64_to_string(count as u64))),
                entry("minMethodCount", JsonValue::Number(u64_to_string(min_count as u64))),
                entry("reason", text("method_count_sufficient")),
                entry("refreshed", JsonValue::Bool(false)),
            ];
            proof {
                crate::json::lemma_entry_views_new(entries@);
                assert(crate::json::json_entry_views(entries@) =~= refresh_answer(*self, *c, online, min_count as nat, None, None)->Object_0);
            }
            return RefreshStart::Done(Ok(JsonValue::Object(entries)));
        }
        if !online {
            return RefreshStart::Done(
                Err(RequestError { message: concat3("Unity client ", client_id, " is not online."), status: StatusCode::NotFound }),
            );
        }
        let entries = vec![entry("requestId", text(request_id)), entry("type", text("refresh_methods"))];
        proof {
            crate::json::lemma_entry_views_new(entries@);
            assert(crate::json::json_entry_views(entries@) =~= refresh_message(request_id@)->Object_0);
        }
        RefreshStart::Send { message: JsonValue::Object(entries), initial_count: count }
    }

    /// One look at a client during a refresh: gone, it disconnected (404);
    /// with enough methods, or once the wait timed out, the answer; else
    /// nothing yet.
    pub fn refresh_methods_check(
        &self,
        client_id: &str,
        min_count: usize,
        initial_count: usize,
        request_id: &str,
        timed_out: bool,
        online: bool,
    ) -> (r: Option<Result<JsonValue, RequestError>>)
        requires
            self.wf(),
        ensures
            !self.clients().dom().contains(client_id@) ==> (r matches Some(Err(e)) && e.status == StatusCode::NotFound
                && e.message@ == "Unity client "@ + client_id@ + " disconnected during method refresh."@),
            self.clients().dom().contains(client_id@) ==> {
                let c = self.clients()[client_id@];
                if c.methods@.len() >= min_count || timed_out {
                    r matches Some(Ok(v)) && v@ == refresh_answer(
                        *self,
                        c,
                        online,
                        min_count as nat,
                        Some(initial_count as nat),
                        Some(request_id@),
                    )
                } else {
                    r is None
                }
            },
    {
        let i = match self.find_client(client_id) {
            Some(i) => i,
            None => return Some(
                Err(
                    RequestError {
                        message: concat3("Unity client ", client_id, " disconnected during method refresh."),
                        status: StatusCode::NotFound,
                    },
                ),
            ),
        };
        let c = &self.unity_clients[i];
        let count = c.methods.len();
        if count >= min_count || timed_out {
            let reason = if count >= min_count {
                "method_count_sufficient"
            } else {
                "timeout"
            };
            let entries = vec![
                entry("client", self.public_client(c, online)),
                entry("initialMethodCount", JsonValue::Number(u64_to_string(initial_count as u64))),
                entry("methodCount", JsonValue::Number(u64_to_string(count as u64))),
                entry("minMethodCount", JsonValue::Number(u64_to_string(min_count as u64))),
                entry("reason", text(reason)),
                entry("refreshed", JsonValue::Bool(count > initial_count)),
                entry("requestId", text(request_id)),
            ];
            proof {
                crate::json::lemma_entry_views_new(entries@);
                assert(crate::json::json_entry_views(entries@) =~= refresh_answer(
                    *self,
                    *c,
                    online,
                    min_count as nat,
                    Some(initial_count as nat),
                    Some(request_id@),
                )->Object_0);
            }
            return Some(Ok(JsonValue::Object(entries)));
        }
        None
    }
}

/// The error when a client's outgoing queue cannot take the refresh message.
pub fn outbound_unavailable(client_id: &str) -> (r: RequestError)
    ensures
        r.status == StatusCode::ServiceUnavailable,
        r.message@ == "Unity client "@ + client_id@ + " outbound queue is unavailable."@,
{
    RequestError { message: concat3("Unity client ", client_id, " outbound queue is unavailable."), status: StatusCode::ServiceUnavailable }
}

/// The server's health: counts of what it holds, how it is configured, how
/// long it has run (`uptime`, in seconds, as a JSON number) and where it
/// listens (`listen_host`, written out).
pub open spec fn health_view(
    s: ServerState,
    config: crate::server::config::Config,
    uptime: Seq<char>,
    listen_host: Seq<char>,
) -> JsonView {
    JsonView::Object(
        seq![
            ("accessScope"@, JsonView::Str(config.access_scope.spec_as_str())),
            ("clientDistDir"@, JsonView::Str(config.client_dist_dir@)),
            ("controllerCount"@, JsonView::Number(decimal(s.controllers@.len()))),
            ("executionTimeoutMs"@, JsonView::Number(decimal(config.execution_timeout_ms as nat))),
            ("listenHost"@, JsonView::Str(listen_host)),
            ("ok"@, JsonView::Bool(true)),
            ("unityClientCount"@, JsonView::Number(decimal(s.unity_clients@.len()))),
            ("unityHeartbeatStaleMs"@, JsonView::Number(decimal(config.unity_heartbeat_stale_ms as nat))),
            ("uptime"@, JsonView::Number(uptime)),
            ("webClientCount"@, JsonView::Number(decimal(s.web_clients@.len()))),
            ("webConsoleAuthRequired"@, JsonView::Bool(config.web_console_token is Some)),
            ("websocketOutboundQueueSize"@, JsonView::Number(decimal(config.websocket_outbound_queue_size as nat))),
        ],
    )
}

impl ServerState {
    pub fn health_data(&self, config: &crate::server::config::Config, uptime: &str, listen_host: &str) -> (r: JsonValue)
        ensures
            r@ == health_view(*self, *config, uptime@, listen_host@),
    {
        let entries = vec![
            entry("accessScope", text(config.access_scope.as_str())),
            entry("clientDistDir", text(config.client_dist_dir.as_str())),
            entry("controllerCount", JsonValue::Number(u64_to_string(self.controllers.len() as u64))),
            entry("executionTimeoutMs", JsonValue::Number(u64_to_string(config.execution_timeout_ms))),
            entry("listenHost", text(listen_host)),
            entry("ok", JsonValue::Bool(true)),
            entry("unityClientCount", JsonValue::Number(u64_to_string(self.unity_clients.len() as u64))),
            entry("unityHeartbeatStaleMs", JsonValue::Number(u64_to_string(config.unity_heartbeat_stale_ms))),
            entry("uptime", JsonValue::Number(copy_str(uptime))),
            entry("webClientCount", JsonValue::Number(u64_to_string(self.web_clients.len() as u64))),
            entry("webConsoleAuthRequired", JsonValue::Bool(config.web_console_token.is_some())),
            entry(
                "websocketOutboundQueueSize",
                JsonValue::Number(u64_to_string(config.websocket_outbound_queue_size as u64)),
            ),
        ];
        proof {
            crate::json::lemma_entry_views_new(entries@);
            assert(crate::json::json_entry_views(entries@) =~= health_view(*self, *config, uptime@, listen_host@)->Object_0);
        }
        JsonValue::Object(entries)
    }
}

} // verus!
